//! Which files are scanned, and what is said of their number.
use vstd::prelude::*;

use crate::outside::{regex_found, regex_match};
use crate::rule::text_view;
use crate::text::{
    decimal, decimal_text, glue, glue3, same, split, split_all, strings, texts,
};

verus! {

/// Whether a pattern is accepted and found in a path.
pub open spec fn ignored(patterns: Seq<Seq<char>>, path: Seq<char>) -> bool {
    exists|k: int|
        0 <= k < patterns.len() && regex_found(#[trigger] patterns[k], path) == Some(true)
}

/// Whether a file is scanned: no pattern ignores its path, and its extension is one of those that
/// are listed, with commas between them.
pub open spec fn selected(
    path: Seq<char>,
    ext: Option<Seq<char>>,
    extensions: Seq<char>,
    patterns: Seq<Seq<char>>,
) -> bool {
    !ignored(patterns, path) && (ext matches Some(e) && split(extensions, ',').contains(e))
}

/// Whether a pattern is accepted and found in a path.
pub fn is_ignored(patterns: &Vec<String>, path: &str) -> (r: bool)
    ensures
        r == ignored(strings(patterns@), path@),
{
    let mut k: usize = 0;
    let ghost all = strings(patterns@);
    while k < patterns.len()
        invariant
            k <= patterns@.len(),
            all == strings(patterns@),
            forall|j: int| 0 <= j < k ==> regex_found(#[trigger] all[j], path@) != Some(true),
        decreases patterns@.len() - k,
    {
        assert(all[k as int] == patterns@[k as int]@);
        if let Some(found) = regex_match(patterns[k].as_str(), path) {
            if found {
                return true;
            }
        }
        k = k + 1;
    }
    false
}

/// Whether an extension is one of those that are listed, with commas between them.
pub fn is_listed(ext: &str, extensions: &str) -> (r: bool)
    ensures
        r == split(extensions@, ',').contains(ext@),
{
    let parts = split_all(extensions, 44);
    let mut k: usize = 0;
    let ghost all = split(extensions@, ',');
    while k < parts.len()
        invariant
            k <= parts@.len(),
            all == texts(parts@),
            all == split(extensions@, ','),
            forall|j: int| 0 <= j < k ==> #[trigger] all[j] != ext@,
        decreases parts@.len() - k,
    {
        assert(all[k as int] == parts@[k as int]@);
        if same(parts[k], ext) {
            return true;
        }
        k = k + 1;
    }
    false
}

/// Whether a file is scanned.
pub fn is_selected(path: &str, ext: Option<&str>, extensions: &str, patterns: &Vec<String>) -> (r:
    bool)
    ensures
        r == selected(path@, text_view(ext), extensions@, strings(patterns@)),
{
    if is_ignored(patterns, path) {
        return false;
    }
    match ext {
        Some(e) => is_listed(e, extensions),
        None => false,
    }
}

/// From how many files on a scan is a large one.
pub const LARGE_SCAN: usize = 50;

/// The word for one file, or for several.
pub open spec fn file_word(n: nat) -> Seq<char> {
    if n == 1 {
        "file"@
    } else {
        "files"@
    }
}

/// The word for one file, or for several.
pub fn word_for_files(n: usize) -> (r: &'static str)
    ensures
        r@ == file_word(n as nat),
{
    if n == 1 {
        "file"
    } else {
        "files"
    }
}

/// What is said of the number of files before a scan: nothing in quiet mode, and of a large scan
/// only where progress is shown.
pub open spec fn announcement(total: nat, quiet: bool, show_progress: bool) -> Option<Seq<char>> {
    if !quiet && (total <= LARGE_SCAN || show_progress) {
        Some(decimal(total) + " "@ + file_word(total) + " to analyze"@)
    } else {
        None
    }
}

/// What is said of the number of files before a scan.
pub fn announce(total: usize, quiet: bool, show_progress: bool) -> (r: Option<String>)
    ensures
        crate::finding::optional_text(r) == announcement(total as nat, quiet, show_progress),
{
    if !quiet && (total <= LARGE_SCAN || show_progress) {
        let number = decimal_text(total);
        let count = glue3(number.as_str(), " ", word_for_files(total));
        Some(glue(count.as_str(), " to analyze"))
    } else {
        None
    }
}

/// Whether a bar shows the progress of a scan.
pub open spec fn bar_shown(total: nat, quiet: bool, show_progress: bool) -> bool {
    total > LARGE_SCAN && show_progress && !quiet
}

/// Whether a bar shows the progress of a scan.
pub fn shows_bar(total: usize, quiet: bool, show_progress: bool) -> (r: bool)
    ensures
        r == bar_shown(total as nat, quiet, show_progress),
{
    total > LARGE_SCAN && show_progress && !quiet
}

/// In quiet mode nothing is said of the number of files, and no bar is shown; and where a bar is
/// shown the number was said before.
pub proof fn quiet_scans_are_silent(total: nat, quiet: bool, show_progress: bool)
    ensures
        quiet ==> announcement(total, quiet, show_progress) is None && !bar_shown(
            total,
            quiet,
            show_progress,
        ),
        bar_shown(total, quiet, show_progress) ==> announcement(total, quiet, show_progress)
            is Some,
{
}

/// More patterns ignore more files.
pub proof fn more_patterns_select_fewer(
    path: Seq<char>,
    ext: Option<Seq<char>>,
    extensions: Seq<char>,
    patterns: Seq<Seq<char>>,
    more: Seq<Seq<char>>,
)
    ensures
        selected(path, ext, extensions, patterns + more) ==> selected(
            path,
            ext,
            extensions,
            patterns,
        ),
{
    if ignored(patterns, path) {
        let k = choose|k: int|
            0 <= k < patterns.len() && regex_found(#[trigger] patterns[k], path) == Some(true);
        assert((patterns + more)[k] == patterns[k]);
    }
}

} // verus!
