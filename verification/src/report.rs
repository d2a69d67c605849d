//! The report that a scan prints.
use vstd::prelude::*;
use vstd::string::*;
use vstd::utf8::*;

use crate::finding::{views, Colour, Finding, FindingModel, Severity};
use crate::paint::{
    add_line, add_lines, bold, bold_in, in_colour, line_view, on_colour, page_view, raw, raw_line,
    raw_span, render, sent_page, span, style_bold, style_bold_in, style_in, style_on, styled,
    styled_line, Span, SpanModel, TextStyle,
};
use crate::results::{
    count_of, count_severity, issue_word, lemma_filter_step, word_for_issues,
};
use crate::select::{file_word, word_for_files};
use crate::syntax::{boundary, slice, slice_of};
use crate::text::{
    byte_len, decimal, decimal_text, glue, glue3, glue4, is_less, lemma_less_irreflexive,
    lemma_less_total, lemma_less_transitive, less, repeat_text, repeated, same, strings,
};

verus! {

/// The width of the title of a report, and so the least width of a terminal that it fits.
pub const TITLE_WIDTH: usize = 26;

/// The width from which on the categories of findings are shown.
pub const CATEGORY_WIDTH: usize = 80;

/// A file's name, without its beginning where it is too long.
pub open spec fn shown_file(file: Seq<char>, width: int) -> Seq<char> {
    if byte_len(file) > width - 10 {
        "..."@ + slice(file, byte_len(file) - (width - 13), byte_len(file) as int)
    } else {
        file
    }
}

/// A suggestion, without its end where it is too long.
pub open spec fn shown_suggestion(suggestion: Seq<char>, width: int) -> Seq<char> {
    if byte_len(suggestion) > width - 15 {
        slice(suggestion, 0, width - 18) + "..."@
    } else {
        suggestion
    }
}

/// Whether the names and the suggestions of findings that are too long can be cut: between two
/// characters.
pub open spec fn can_be_shown(f: FindingModel, width: int) -> bool {
    &&& byte_len(f.file) > width - 10 ==> boundary(f.file, byte_len(f.file) - (width - 13))
    &&& f.suggestion matches Some(s) ==> byte_len(s) > width - 15 ==> boundary(s, width - 18)
}

/// Whether a report fits the width of a terminal.
pub open spec fn report_fits(all: Seq<FindingModel>, width: int) -> bool {
    all.len() > 0 ==> width >= TITLE_WIDTH && forall|k: int|
        0 <= k < all.len() ==> can_be_shown(#[trigger] all[k], width)
}

/// The files of a list with one more, which is ordered and holds each file once.
pub open spec fn with_file(files: Seq<Seq<char>>, file: Seq<char>) -> Seq<Seq<char>>
    decreases files.len(),
{
    if files.len() == 0 {
        seq![file]
    } else if files[0] == file {
        files
    } else if less(file, files[0]) {
        seq![file] + files
    } else {
        seq![files[0]] + with_file(files.drop_first(), file)
    }
}

/// The files of findings, in order, each once.
pub open spec fn files_of(all: Seq<FindingModel>) -> Seq<Seq<char>>
    decreases all.len(),
{
    if all.len() == 0 {
        Seq::empty()
    } else {
        with_file(files_of(all.drop_last()), all.last().file)
    }
}

/// The findings in a file, in their order.
pub open spec fn in_file(all: Seq<FindingModel>, file: Seq<char>) -> Seq<FindingModel> {
    all.filter(|f: FindingModel| f.file == file)
}

/// The badge of a severity.
pub open spec fn badge(severity: Severity) -> SpanModel {
    match severity {
        Severity::Critical => styled(on_colour(Colour::White, Colour::Red, true), " CRIT "@),
        Severity::High => styled(on_colour(Colour::Black, Colour::Yellow, true), " HIGH "@),
        Severity::Medium => styled(on_colour(Colour::White, Colour::Blue, false), " MED  "@),
        Severity::Low => styled(on_colour(Colour::White, Colour::Fixed(240), false), " LOW  "@),
    }
}

/// The colour that stands for a confidence.
pub open spec fn confidence_colour(confidence: nat) -> Colour {
    if confidence >= 90 {
        Colour::Green
    } else if confidence >= 70 {
        Colour::Yellow
    } else {
        Colour::Red
    }
}

/// In dim type.
pub open spec fn dimmed() -> TextStyle {
    TextStyle { fg: None, bg: None, bold: false, dimmed: true, underline: false }
}

/// In bold type and underlined.
pub open spec fn heading() -> TextStyle {
    TextStyle { fg: None, bg: None, bold: true, dimmed: false, underline: true }
}

/// The first line of a finding.
pub open spec fn headline(f: FindingModel, is_last: bool) -> Seq<SpanModel> {
    seq![
        raw("  "@),
        styled(
            in_colour(Colour::Cyan),
            if is_last {
                "└"@
            } else {
                "├"@
            },
        ),
        raw(" "@),
        badge(f.severity),
        raw(" "@),
        styled(in_colour(confidence_colour(f.confidence)), "●"@),
        raw(" "@),
        styled(dimmed(), decimal(f.line) + ":"@ + decimal(f.column)),
        raw(" "@),
        styled(bold(), f.message),
    ]
}

/// What stands at the margin of the further lines of a finding.
pub open spec fn margin(is_last: bool) -> SpanModel {
    styled(
        in_colour(Colour::Cyan),
        if is_last {
            "  "@
        } else {
            "│ "@
        },
    )
}

/// The line with the category of a finding.
pub open spec fn category_line(f: FindingModel, is_last: bool) -> Seq<SpanModel> {
    seq![
        raw("  "@),
        margin(is_last),
        raw(" "@),
        styled(in_colour(Colour::Fixed(240)), "["@ + f.category + "]"@),
        raw(" "@),
        styled(in_colour(Colour::Fixed(240)), decimal(f.confidence) + "% confidence"@),
    ]
}

/// The line with the suggestion of a finding.
pub open spec fn suggestion_line(suggestion: Seq<char>, is_last: bool, width: int) -> Seq<
    SpanModel,
> {
    seq![
        raw("  "@),
        margin(is_last),
        raw(" "@),
        styled(in_colour(Colour::Green), "→"@),
        raw(" "@),
        styled(in_colour(Colour::Green), shown_suggestion(suggestion, width)),
    ]
}

/// The lines of a finding.
pub open spec fn finding_lines(f: FindingModel, is_last: bool, width: int) -> Seq<Seq<SpanModel>> {
    seq![headline(f, is_last)] + (if f.category.len() > 0 && width > CATEGORY_WIDTH {
        seq![category_line(f, is_last)]
    } else {
        Seq::empty()
    }) + (match f.suggestion {
        Some(s) => seq![suggestion_line(s, is_last, width)],
        None => Seq::empty(),
    })
}

/// The lines of the first `n` findings of a file.
pub open spec fn group_lines(group: Seq<FindingModel>, n: int, width: int) -> Seq<Seq<SpanModel>>
    decreases n,
{
    if n <= 0 {
        Seq::empty()
    } else {
        group_lines(group, n - 1, width) + finding_lines(
            group[n - 1],
            n == group.len(),
            width,
        )
    }
}

/// The lines of a file and its findings.
pub open spec fn file_lines(group: Seq<FindingModel>, file: Seq<char>, first: bool, width: int) -> Seq<
    Seq<SpanModel>,
> {
    seq![
        seq![
            styled(
                in_colour(Colour::Cyan),
                if first {
                    "┌"@
                } else {
                    "├"@
                },
            ),
            raw(" "@),
            styled(heading(), shown_file(file, width)),
        ],
    ] + group_lines(group, group.len() as int, width) + seq![seq![raw(""@)]]
}

/// The lines of the first `n` files.
pub open spec fn files_lines(
    all: Seq<FindingModel>,
    files: Seq<Seq<char>>,
    n: int,
    width: int,
) -> Seq<Seq<SpanModel>>
    decreases n,
{
    if n <= 0 {
        Seq::empty()
    } else {
        files_lines(all, files, n - 1, width) + file_lines(
            in_file(all, files[n - 1]),
            files[n - 1],
            n == 1,
            width,
        )
    }
}

/// The number of findings of a severity.
pub open spec fn count_span(colour: Colour, count: nat, name: Seq<char>) -> SpanModel {
    styled(bold_in(colour), "● "@ + decimal(count) + name)
}

/// The title of a report, and the numbers under it.
pub open spec fn header_lines(
    all: Seq<FindingModel>,
    total_files: nat,
    seconds: Seq<char>,
    width: int,
) -> Seq<Seq<SpanModel>> {
    let pad = styled(
        in_colour(Colour::Cyan),
        repeated("═"@, ((width - TITLE_WIDTH) / 2) as nat),
    );
    seq![
        seq![raw("\n"@), pad, styled(bold(), " ntscan - Security Report "@), pad],
        seq![
            raw("  "@),
            count_span(Colour::Red, count_of(all, Severity::Critical), " Critical"@),
            raw("  "@),
            count_span(Colour::Yellow, count_of(all, Severity::High), " High"@),
            raw("  "@),
            count_span(Colour::Blue, count_of(all, Severity::Medium), " Medium"@),
        ],
        seq![
            raw(
                "  "@ + decimal(total_files) + " "@ + file_word(total_files) + " scanned in "@
                    + seconds + "s\n"@,
            ),
        ],
    ]
}

/// The style of the last line of a report.
pub open spec fn summary_style(all: Seq<FindingModel>) -> TextStyle {
    if count_of(all, Severity::Critical) > 0 {
        on_colour(Colour::White, Colour::Red, true)
    } else if count_of(all, Severity::High) > 0 {
        on_colour(Colour::Black, Colour::Yellow, true)
    } else {
        on_colour(Colour::White, Colour::Blue, true)
    }
}

/// The end of a report.
pub open spec fn footer_lines(all: Seq<FindingModel>, total_files: nat, width: int) -> Seq<
    Seq<SpanModel>,
> {
    seq![
        seq![styled(in_colour(Colour::Cyan), repeated("═"@, width as nat))],
        seq![
            styled(
                summary_style(all),
                " "@ + decimal(all.len()) + " "@ + issue_word(all.len()) + " found in "@ + decimal(
                    total_files,
                ) + " "@ + file_word(total_files) + " "@,
            ),
            raw("\n"@),
        ],
    ]
}

/// The lines of the report on findings in `total_files` files, after a scan of `seconds`.
pub open spec fn report_lines(
    all: Seq<FindingModel>,
    total_files: nat,
    seconds: Seq<char>,
    width: int,
) -> Seq<Seq<SpanModel>> {
    if all.len() == 0 {
        seq![
            seq![
                raw("\n"@),
                styled(on_colour(Colour::Black, Colour::Green, true), " ✓ No issues found "@),
            ],
            seq![raw("  Your code is either clean or you're not looking hard enough.\n"@)],
        ]
    } else {
        header_lines(all, total_files, seconds, width) + files_lines(
            all,
            files_of(all),
            files_of(all).len() as int,
            width,
        ) + footer_lines(all, total_files, width)
    }
}

fn cut_file(file: &str, width: usize) -> (r: String)
    requires
        width >= TITLE_WIDTH,
        byte_len(file@) > width - 10 ==> boundary(file@, byte_len(file@) - (width - 13)),
    ensures
        r@ == shown_file(file@, width as int),
{
    let n: usize = file.as_bytes().len();
    if n > width - 10 {
        proof {
            encode_utf8_valid_utf8(file@);
            is_char_boundary_start_end_of_seq(encode_utf8(file@));
        }
        let tail = slice_of(file, n - (width - 13), n);
        glue("...", tail)
    } else {
        file.to_owned()
    }
}

fn cut_suggestion(suggestion: &str, width: usize) -> (r: String)
    requires
        width >= TITLE_WIDTH,
        byte_len(suggestion@) > width - 15 ==> boundary(suggestion@, width - 18),
    ensures
        r@ == shown_suggestion(suggestion@, width as int),
{
    let n: usize = suggestion.as_bytes().len();
    if n > width - 15 {
        proof {
            encode_utf8_valid_utf8(suggestion@);
            is_char_boundary_start_end_of_seq(encode_utf8(suggestion@));
        }
        let head = slice_of(suggestion, 0, width - 18);
        glue(head, "...")
    } else {
        suggestion.to_owned()
    }
}

/// Whether a report fits the width of a terminal.
pub fn fits_report(findings: &Vec<Finding>, width: usize) -> (r: bool)
    ensures
        r == report_fits(views(findings@), width as int),
{
    let ghost all = views(findings@);
    if findings.len() == 0 {
        return true;
    }
    if width < TITLE_WIDTH {
        return false;
    }
    let mut k: usize = 0;
    while k < findings.len()
        invariant
            k <= findings@.len(),
            width >= TITLE_WIDTH,
            all == views(findings@),
            forall|j: int| 0 <= j < k ==> can_be_shown(#[trigger] all[j], width as int),
        decreases findings@.len() - k,
    {
        let f = &findings[k];
        assert(all[k as int] == f@);
        let n: usize = f.file.as_str().as_bytes().len();
        if n > width - 10 && !f.file.as_str().is_char_boundary(n - (width - 13)) {
            assert(!can_be_shown(all[k as int], width as int));
            return false;
        }
        if let Some(s) = &f.suggestion {
            let m: usize = s.as_str().as_bytes().len();
            if m > width - 15 && !s.as_str().is_char_boundary(width - 18) {
                assert(!can_be_shown(all[k as int], width as int));
                return false;
            }
        }
        assert(can_be_shown(all[k as int], width as int));
        k = k + 1;
    }
    true
}

/// Where a file stands in an ordered list, or would stand.
proof fn lemma_with_file(files: Seq<Seq<char>>, file: Seq<char>, p: int)
    requires
        0 <= p <= files.len(),
        forall|j: int| 0 <= j < p ==> #[trigger] files[j] != file && !less(file, files[j]),
        p < files.len() ==> files[p] == file || less(file, files[p]),
    ensures
        with_file(files, file) == if p < files.len() && files[p] == file {
            files
        } else {
            files.insert(p, file)
        },
    decreases files.len(),
{
    if p == 0 {
        if files.len() == 0 {
            assert(seq![file] =~= files.insert(0, file));
        } else if files[0] != file {
            assert(seq![file] + files =~= files.insert(0, file));
        }
    } else {
        let rest = files.drop_first();
        assert forall|j: int| 0 <= j < p - 1 implies #[trigger] rest[j] != file && !less(
            file,
            rest[j],
        ) by {
            assert(rest[j] == files[j + 1]);
        }
        assert(p < files.len() ==> rest[p - 1] == files[p]);
        assert(files[0] != file && !less(file, files[0]));
        lemma_with_file(rest, file, p - 1);
        if p < files.len() && files[p] == file {
            assert(seq![files[0]] + rest =~= files);
        } else {
            assert(seq![files[0]] + rest.insert(p - 1, file) =~= files.insert(p, file));
        }
    }
}

/// The files of findings, in order, each once.
pub fn group_files(findings: &Vec<Finding>) -> (r: Vec<String>)
    ensures
        strings(r@) == files_of(views(findings@)),
{
    let ghost all = views(findings@);
    let mut files: Vec<String> = Vec::new();
    let mut k: usize = 0;
    assert(strings(files@) =~= files_of(all.take(0)));
    while k < findings.len()
        invariant
            k <= findings@.len(),
            all == views(findings@),
            strings(files@) == files_of(all.take(k as int)),
        decreases findings@.len() - k,
    {
        let file = findings[k].file.as_str();
        assert(all[k as int] == findings@[k as int]@);
        assert(all.take(k + 1).drop_last() =~= all.take(k as int));
        insert_file(&mut files, file);
        k = k + 1;
    }
    assert(all.take(k as int) =~= all);
    files
}

fn insert_file(files: &mut Vec<String>, file: &str)
    ensures
        strings(final(files)@) == with_file(strings(old(files)@), file@),
{
    let ghost names = strings(files@);
    let mut p: usize = 0;
    while p < files.len() && !same(files[p].as_str(), file) && !is_less(file, files[p].as_str())
        invariant
            p <= files@.len(),
            names == strings(files@),
            forall|j: int| 0 <= j < p ==> #[trigger] names[j] != file@ && !less(file@, names[j]),
        decreases files@.len() - p,
    {
        assert(names[p as int] == files@[p as int]@);
        p = p + 1;
    }
    proof {
        assert(p < files@.len() ==> names[p as int] == files@[p as int]@);
        lemma_with_file(names, file@, p as int);
    }
    if p < files.len() && same(files[p].as_str(), file) {
        return;
    }
    files.insert(p, file.to_owned());
    assert(strings(files@) =~= names.insert(p as int, file@));
}

/// The findings in a file, in their order.
pub fn findings_in(findings: &Vec<Finding>, file: &str) -> (r: Vec<Finding>)
    ensures
        views(r@) == in_file(views(findings@), file@),
{
    let mut out: Vec<Finding> = Vec::new();
    let ghost all = views(findings@);
    let ghost name = file@;
    let ghost keep = |f: FindingModel| f.file == name;
    let mut k: usize = 0;
    proof {
        reveal(Seq::filter);
        assert(views(out@) =~= all.take(0).filter(keep));
    }
    while k < findings.len()
        invariant
            k <= findings@.len(),
            all == views(findings@),
            name == file@,
            keep == (|f: FindingModel| f.file == name),
            views(out@) == all.take(k as int).filter(keep),
        decreases findings@.len() - k,
    {
        let f = &findings[k];
        assert(all[k as int] == f@);
        proof {
            lemma_filter_step(all, keep, k as int);
        }
        if same(f.file.as_str(), file) {
            let ghost before = views(out@);
            let kept = f.clone();
            out.push(kept);
            assert(views(out@) =~= before.push(f@));
        }
        k = k + 1;
    }
    assert(all.take(k as int) =~= all);
    out
}

fn badge_of(severity: Severity) -> (r: Span)
    ensures
        r@ == badge(severity),
{
    match severity {
        Severity::Critical => span(style_on(Colour::White, Colour::Red, true), " CRIT "),
        Severity::High => span(style_on(Colour::Black, Colour::Yellow, true), " HIGH "),
        Severity::Medium => span(style_on(Colour::White, Colour::Blue, false), " MED  "),
        Severity::Low => span(style_on(Colour::White, Colour::Fixed(240), false), " LOW  "),
    }
}

fn colour_of_confidence(confidence: u8) -> (r: Colour)
    ensures
        r == confidence_colour(confidence as nat),
{
    if confidence >= 90 {
        Colour::Green
    } else if confidence >= 70 {
        Colour::Yellow
    } else {
        Colour::Red
    }
}

fn headline_of(f: &Finding, is_last: bool) -> (r: Vec<Span>)
    ensures
        line_view(r@) == headline(f@, is_last),
{
    let connector = if is_last {
        "└"
    } else {
        "├"
    };
    let dim = TextStyle { fg: None, bg: None, bold: false, dimmed: true, underline: false };
    let place = glue3(
        decimal_text(f.line).as_str(),
        ":",
        decimal_text(f.column).as_str(),
    );
    let mut line: Vec<Span> = Vec::new();
    line.push(raw_span("  "));
    line.push(span(style_in(Colour::Cyan), connector));
    line.push(raw_span(" "));
    line.push(badge_of(f.severity));
    line.push(raw_span(" "));
    line.push(span(style_in(colour_of_confidence(f.confidence)), "●"));
    line.push(raw_span(" "));
    line.push(span(dim, place.as_str()));
    line.push(raw_span(" "));
    line.push(span(style_bold(), f.message.as_str()));
    assert(line_view(line@) =~= headline(f@, is_last));
    line
}

fn margin_of(is_last: bool) -> (r: Span)
    ensures
        r@ == margin(is_last),
{
    let bar = if is_last {
        "  "
    } else {
        "│ "
    };
    span(style_in(Colour::Cyan), bar)
}

fn category_of(f: &Finding, is_last: bool) -> (r: Vec<Span>)
    ensures
        line_view(r@) == category_line(f@, is_last),
{
    let tag = glue3("[", f.category.as_str(), "]");
    let sure = glue(decimal_text(f.confidence as usize).as_str(), "% confidence");
    let mut line: Vec<Span> = Vec::new();
    line.push(raw_span("  "));
    line.push(margin_of(is_last));
    line.push(raw_span(" "));
    line.push(span(style_in(Colour::Fixed(240)), tag.as_str()));
    line.push(raw_span(" "));
    line.push(span(style_in(Colour::Fixed(240)), sure.as_str()));
    assert(line_view(line@) =~= category_line(f@, is_last));
    line
}

fn suggestion_of(suggestion: &str, is_last: bool, width: usize) -> (r: Vec<Span>)
    requires
        width >= TITLE_WIDTH,
        byte_len(suggestion@) > width - 15 ==> boundary(suggestion@, width - 18),
    ensures
        line_view(r@) == suggestion_line(suggestion@, is_last, width as int),
{
    let shown = cut_suggestion(suggestion, width);
    let mut line: Vec<Span> = Vec::new();
    line.push(raw_span("  "));
    line.push(margin_of(is_last));
    line.push(raw_span(" "));
    line.push(span(style_in(Colour::Green), "→"));
    line.push(raw_span(" "));
    line.push(span(style_in(Colour::Green), shown.as_str()));
    assert(line_view(line@) =~= suggestion_line(suggestion@, is_last, width as int));
    line
}

fn lay_out_finding(f: &Finding, is_last: bool, width: usize) -> (r: Vec<Vec<Span>>)
    requires
        width >= TITLE_WIDTH,
        can_be_shown(f@, width as int),
    ensures
        page_view(r@) == finding_lines(f@, is_last, width as int),
{
    let mut lines: Vec<Vec<Span>> = Vec::new();
    assert(page_view(lines@) =~= Seq::<Seq<SpanModel>>::empty());
    add_line(&mut lines, headline_of(f, is_last));
    proof {
        crate::text::lemma_no_bytes(f.category@);
    }
    if f.category.as_str().as_bytes().len() > 0 && width > CATEGORY_WIDTH {
        add_line(&mut lines, category_of(f, is_last));
    }
    if let Some(s) = &f.suggestion {
        add_line(&mut lines, suggestion_of(s.as_str(), is_last, width));
    }
    lines
}

fn lay_out_group(group: &Vec<Finding>, width: usize) -> (r: Vec<Vec<Span>>)
    requires
        width >= TITLE_WIDTH,
        forall|k: int| 0 <= k < group@.len() ==> can_be_shown((#[trigger] group@[k])@, width as int),
    ensures
        page_view(r@) == group_lines(views(group@), group@.len() as int, width as int),
{
    let mut lines: Vec<Vec<Span>> = Vec::new();
    assert(page_view(lines@) =~= Seq::<Seq<SpanModel>>::empty());
    let ghost all = views(group@);
    let mut k: usize = 0;
    while k < group.len()
        invariant
            k <= group@.len(),
            width >= TITLE_WIDTH,
            all == views(group@),
            forall|j: int|
                0 <= j < group@.len() ==> can_be_shown((#[trigger] group@[j])@, width as int),
            page_view(lines@) == group_lines(all, k as int, width as int),
        decreases group@.len() - k,
    {
        assert(all[k as int] == group@[k as int]@);
        add_lines(&mut lines, lay_out_finding(&group[k], k == group.len() - 1, width));
        k = k + 1;
    }
    lines
}

fn lay_out_file(group: &Vec<Finding>, file: &str, first: bool, width: usize) -> (r: Vec<Vec<Span>>)
    requires
        width >= TITLE_WIDTH,
        forall|k: int| 0 <= k < group@.len() ==> can_be_shown((#[trigger] group@[k])@, width as int),
        byte_len(file@) > width - 10 ==> boundary(file@, byte_len(file@) - (width - 13)),
    ensures
        page_view(r@) == file_lines(views(group@), file@, first, width as int),
{
    let separator = if first {
        "┌"
    } else {
        "├"
    };
    let style = TextStyle { fg: None, bg: None, bold: true, dimmed: false, underline: true };
    let shown = cut_file(file, width);
    let mut line: Vec<Span> = Vec::new();
    line.push(span(style_in(Colour::Cyan), separator));
    line.push(raw_span(" "));
    line.push(span(style, shown.as_str()));
    assert(line_view(line@) =~= file_lines(views(group@), file@, first, width as int)[0]);
    let mut lines: Vec<Vec<Span>> = Vec::new();
    assert(page_view(lines@) =~= Seq::<Seq<SpanModel>>::empty());
    add_line(&mut lines, line);
    add_lines(&mut lines, lay_out_group(group, width));
    add_line(&mut lines, raw_line(""));
    lines
}

/// A finding of a file is one of all.
proof fn lemma_in_file(all: Seq<FindingModel>, file: Seq<char>, k: int)
    requires
        0 <= k < in_file(all, file).len(),
    ensures
        in_file(all, file)[k].file == file,
        exists|j: int| 0 <= j < all.len() && #[trigger] all[j] == in_file(all, file)[k],
{
    let group = in_file(all, file);
    crate::results::lemma_filter_contains(all, |f: FindingModel| f.file == file, group[k]);
    assert(group.contains(group[k]));
}

/// A file of findings is that of one of them.
pub proof fn listed_files_hold_findings(all: Seq<FindingModel>, k: int)
    requires
        0 <= k < files_of(all).len(),
    ensures
        exists|j: int| 0 <= j < all.len() && (#[trigger] all[j]).file == files_of(all)[k],
    decreases all.len(),
{
    let rest = all.drop_last();
    let file = files_of(all)[k];
    lemma_with_file_holds(files_of(rest), all.last().file, file);
    assert(files_of(all).contains(file));
    if file == all.last().file {
        assert(all[all.len() - 1].file == file);
    } else {
        assert(files_of(rest).contains(file));
        let m = choose|m: int| 0 <= m < files_of(rest).len() && files_of(rest)[m] == file;
        listed_files_hold_findings(rest, m);
        let j = choose|j: int| 0 <= j < rest.len() && (#[trigger] rest[j]).file == file;
        assert(all[j].file == file);
    }
}

/// What a list holds with one more file.
proof fn lemma_with_file_holds(files: Seq<Seq<char>>, file: Seq<char>, x: Seq<char>)
    ensures
        with_file(files, file).contains(x) <==> files.contains(x) || x == file,
    decreases files.len(),
{
    let more = with_file(files, file);
    if files.len() == 0 {
        assert(more[0] == file);
    } else if files[0] == file {
        assert(files.contains(file));
    } else if less(file, files[0]) {
        assert(more[0] == file);
        if files.contains(x) {
            let k = choose|k: int| 0 <= k < files.len() && files[k] == x;
            assert(more[k + 1] == x);
        }
        if more.contains(x) && x != file {
            let k = choose|k: int| 0 <= k < more.len() && more[k] == x;
            assert(files[k - 1] == x);
        }
    } else {
        let rest = files.drop_first();
        let tail = with_file(rest, file);
        lemma_with_file_holds(rest, file, x);
        assert(more[0] == files[0]);
        if files.contains(x) {
            let k = choose|k: int| 0 <= k < files.len() && files[k] == x;
            if k > 0 {
                assert(rest[k - 1] == x);
            }
        }
        if tail.contains(x) {
            let k = choose|k: int| 0 <= k < tail.len() && tail[k] == x;
            assert(more[k + 1] == x);
        }
        if more.contains(x) {
            let k = choose|k: int| 0 <= k < more.len() && more[k] == x;
            if k > 0 {
                assert(tail[k - 1] == x);
            } else {
                assert(files[0] == x);
            }
        }
        if rest.contains(x) {
            let k = choose|k: int| 0 <= k < rest.len() && rest[k] == x;
            assert(files[k + 1] == x);
        }
    }
}

fn lay_out_files(findings: &Vec<Finding>, width: usize) -> (r: Vec<Vec<Span>>)
    requires
        width >= TITLE_WIDTH,
        report_fits(views(findings@), width as int),
    ensures
        page_view(r@) == files_lines(
            views(findings@),
            files_of(views(findings@)),
            files_of(views(findings@)).len() as int,
            width as int,
        ),
{
    let ghost all = views(findings@);
    let files = group_files(findings);
    let ghost names = files_of(all);
    let mut lines: Vec<Vec<Span>> = Vec::new();
    assert(page_view(lines@) =~= Seq::<Seq<SpanModel>>::empty());
    let mut k: usize = 0;
    while k < files.len()
        invariant
            k <= files@.len(),
            width >= TITLE_WIDTH,
            all == views(findings@),
            names == files_of(all),
            names == strings(files@),
            report_fits(all, width as int),
            page_view(lines@) == files_lines(all, names, k as int, width as int),
        decreases files@.len() - k,
    {
        let file = files[k].as_str();
        assert(names[k as int] == file@);
        let group = findings_in(findings, file);
        proof {
            listed_files_hold_findings(all, k as int);
            let j = choose|j: int| 0 <= j < all.len() && (#[trigger] all[j]).file == file@;
            assert(can_be_shown(all[j], width as int));
            assert forall|m: int| 0 <= m < group@.len() implies can_be_shown(
                (#[trigger] group@[m])@,
                width as int,
            ) by {
                assert(views(group@)[m] == group@[m]@);
                lemma_in_file(all, file@, m);
                let i = choose|i: int|
                    0 <= i < all.len() && #[trigger] all[i] == in_file(all, file@)[m];
                assert(can_be_shown(all[i], width as int));
            }
        }
        add_lines(&mut lines, lay_out_file(&group, file, k == 0, width));
        k = k + 1;
    }
    lines
}

fn span_of_count(colour: Colour, count: usize, name: &str) -> (r: Span)
    ensures
        r@ == count_span(colour, count as nat, name@),
{
    let text = glue3("● ", decimal_text(count).as_str(), name);
    span(style_bold_in(colour), text.as_str())
}

fn lay_out_header(findings: &Vec<Finding>, total_files: usize, seconds: &str, width: usize) -> (r:
    Vec<Vec<Span>>)
    requires
        width >= TITLE_WIDTH,
    ensures
        page_view(r@) == header_lines(
            views(findings@),
            total_files as nat,
            seconds@,
            width as int,
        ),
{
    let ghost all = views(findings@);
    let bar = repeat_text("═", (width - TITLE_WIDTH) / 2);
    let mut first: Vec<Span> = Vec::new();
    first.push(raw_span("\n"));
    first.push(span(style_in(Colour::Cyan), bar.as_str()));
    first.push(span(style_bold(), " ntscan - Security Report "));
    first.push(span(style_in(Colour::Cyan), bar.as_str()));
    let mut second: Vec<Span> = Vec::new();
    second.push(raw_span("  "));
    second.push(
        span_of_count(Colour::Red, count_severity(findings, Severity::Critical), " Critical"),
    );
    second.push(raw_span("  "));
    second.push(span_of_count(Colour::Yellow, count_severity(findings, Severity::High), " High"));
    second.push(raw_span("  "));
    second.push(
        span_of_count(Colour::Blue, count_severity(findings, Severity::Medium), " Medium"),
    );
    let mut third = glue4(
        "  ",
        decimal_text(total_files).as_str(),
        " ",
        word_for_files(total_files),
    );
    third.append(" scanned in ");
    third.append(seconds);
    third.append("s\n");
    let ghost expected = header_lines(all, total_files as nat, seconds@, width as int);
    assert(line_view(first@) =~= expected[0]);
    assert(line_view(second@) =~= expected[1]);
    let mut lines: Vec<Vec<Span>> = Vec::new();
    lines.push(first);
    lines.push(second);
    lines.push(raw_line(third.as_str()));
    assert(page_view(lines@) =~= expected);
    lines
}

fn lay_out_footer(findings: &Vec<Finding>, total_files: usize, width: usize) -> (r: Vec<Vec<Span>>)
    ensures
        page_view(r@) == footer_lines(views(findings@), total_files as nat, width as int),
{
    let total: usize = findings.len();
    assert(views(findings@).len() == total);
    let bar = repeat_text("═", width);
    let style = if count_severity(findings, Severity::Critical) > 0 {
        style_on(Colour::White, Colour::Red, true)
    } else if count_severity(findings, Severity::High) > 0 {
        style_on(Colour::Black, Colour::Yellow, true)
    } else {
        style_on(Colour::White, Colour::Blue, true)
    };
    let mut summary = glue4(" ", decimal_text(total).as_str(), " ", word_for_issues(total));
    summary.append(" found in ");
    summary.append(decimal_text(total_files).as_str());
    summary.append(" ");
    summary.append(word_for_files(total_files));
    summary.append(" ");
    let mut last: Vec<Span> = Vec::new();
    last.push(span(style, summary.as_str()));
    last.push(raw_span("\n"));
    let ghost expected = footer_lines(views(findings@), total_files as nat, width as int);
    assert(line_view(last@) =~= expected[1]);
    let mut lines: Vec<Vec<Span>> = Vec::new();
    lines.push(styled_line(style_in(Colour::Cyan), bar.as_str()));
    lines.push(last);
    assert(page_view(lines@) =~= expected);
    lines
}

/// The lines of the report on findings, in their styles; `seconds` is how long the scan took.
pub fn lay_out_report(
    findings: &Vec<Finding>,
    total_files: usize,
    seconds: &str,
    width: usize,
) -> (r: Vec<Vec<Span>>)
    requires
        report_fits(views(findings@), width as int),
    ensures
        page_view(r@) == report_lines(
            views(findings@),
            total_files as nat,
            seconds@,
            width as int,
        ),
{
    assert(views(findings@).len() == findings@.len());
    if findings.len() == 0 {
        let mut first: Vec<Span> = Vec::new();
        first.push(raw_span("\n"));
        first.push(span(style_on(Colour::Black, Colour::Green, true), " ✓ No issues found "));
        let ghost expected = report_lines(
            views(findings@),
            total_files as nat,
            seconds@,
            width as int,
        );
        assert(line_view(first@) =~= expected[0]);
        let mut lines: Vec<Vec<Span>> = Vec::new();
        lines.push(first);
        lines.push(
            raw_line("  Your code is either clean or you're not looking hard enough.\n"),
        );
        assert(page_view(lines@) =~= expected);
        return lines;
    }
    let mut lines = lay_out_header(findings, total_files, seconds, width);
    add_lines(&mut lines, lay_out_files(findings, width));
    add_lines(&mut lines, lay_out_footer(findings, total_files, width));
    lines
}

/// The lines of the report on findings as a terminal is sent them, each to be printed on a line of
/// its own; `seconds` is how long the scan took.
pub fn print_beautiful_report(
    findings: &Vec<Finding>,
    total_files: usize,
    seconds: &str,
    width: usize,
) -> (r: Vec<String>)
    requires
        report_fits(views(findings@), width as int),
    ensures
        strings(r@) == sent_page(
            report_lines(views(findings@), total_files as nat, seconds@, width as int),
        ),
{
    render(&lay_out_report(findings, total_files, seconds, width))
}

/// Whether a list is in strictly rising order.
pub open spec fn rising(files: Seq<Seq<char>>) -> bool {
    forall|a: int, b: int|
        0 <= a < b < files.len() ==> less(#[trigger] files[a], #[trigger] files[b])
}

/// A list stays in order with one more file.
proof fn lemma_with_file_rises(files: Seq<Seq<char>>, file: Seq<char>)
    requires
        rising(files),
    ensures
        rising(with_file(files, file)),
    decreases files.len(),
{
    let more = with_file(files, file);
    if files.len() == 0 || files[0] == file {
    } else if less(file, files[0]) {
        assert forall|a: int, b: int| 0 <= a < b < more.len() implies less(
            #[trigger] more[a],
            #[trigger] more[b],
        ) by {
            if a == 0 {
                if b > 1 {
                    assert(less(files[0], files[b - 1]));
                    lemma_less_transitive(file, files[0], files[b - 1]);
                }
            } else {
                assert(less(files[a - 1], files[b - 1]));
            }
        }
    } else {
        let rest = files.drop_first();
        let tail = with_file(rest, file);
        assert forall|a: int, b: int| 0 <= a < b < rest.len() implies less(
            #[trigger] rest[a],
            #[trigger] rest[b],
        ) by {
            assert(less(files[a + 1], files[b + 1]));
        }
        lemma_with_file_rises(rest, file);
        lemma_less_total(file, files[0]);
        assert forall|a: int, b: int| 0 <= a < b < more.len() implies less(
            #[trigger] more[a],
            #[trigger] more[b],
        ) by {
            if a == 0 {
                lemma_with_file_holds(rest, file, tail[b - 1]);
                assert(tail.contains(tail[b - 1]));
                if tail[b - 1] != file {
                    let k = choose|k: int| 0 <= k < rest.len() && rest[k] == tail[b - 1];
                    assert(less(files[0], files[k + 1]));
                }
            } else {
                assert(less(tail[a - 1], tail[b - 1]));
            }
        }
    }
}

/// The report lists files in rising order, and so each of them once.
pub proof fn files_are_listed_in_order(all: Seq<FindingModel>)
    ensures
        rising(files_of(all)),
        forall|a: int, b: int|
            0 <= a < b < files_of(all).len() ==> #[trigger] files_of(all)[a]
                != #[trigger] files_of(all)[b],
    decreases all.len(),
{
    if all.len() > 0 {
        files_are_listed_in_order(all.drop_last());
        lemma_with_file_rises(files_of(all.drop_last()), all.last().file);
    }
    assert forall|a: int, b: int| 0 <= a < b < files_of(all).len() implies #[trigger] files_of(
        all,
    )[a] != #[trigger] files_of(all)[b] by {
        lemma_less_irreflexive(files_of(all)[a]);
    }
}

/// The report shows every finding, under its own file and under no other.
pub proof fn every_finding_is_shown(all: Seq<FindingModel>, k: int, file: Seq<char>)
    requires
        0 <= k < all.len(),
    ensures
        files_of(all).contains(all[k].file),
        in_file(all, file).contains(all[k]) <==> file == all[k].file,
{
    lemma_file_listed(all, k);
    crate::results::lemma_filter_contains(all, |f: FindingModel| f.file == file, all[k]);
    assert(all.contains(all[k]));
}

proof fn lemma_file_listed(all: Seq<FindingModel>, k: int)
    requires
        0 <= k < all.len(),
    ensures
        files_of(all).contains(all[k].file),
    decreases all.len(),
{
    let rest = all.drop_last();
    lemma_with_file_holds(files_of(rest), all.last().file, all[k].file);
    if k < rest.len() {
        lemma_file_listed(rest, k);
        assert(rest[k] == all[k]);
    }
}

} // verus!
