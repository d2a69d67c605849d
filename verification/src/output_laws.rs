//! What becomes of findings and options, stated by the values that callers give.
use vstd::prelude::*;

use crate::config::{configured, default_options, severity_floor, Config, OptionsModel};
use crate::finding::{Colour, FindingModel, Severity};
use crate::results::{
    coffee, coffee_page, count_of, issue_word, lemma_filter_contains, new_findings, output_for,
    quiet_line, reportable, reportable_findings, severe_findings, shown_findings, Output,
};
use crate::sarif::sarif_results;
use crate::select::{announcement, bar_shown, file_word, selected};
use crate::text::{decimal, join, split, strings};

verus! {

/// Whether a severity is at least as bad as a floor, name by name.
pub open spec fn at_least_as_bad(severity: Severity, floor: Severity) -> bool {
    match floor {
        Severity::Low => true,
        Severity::Medium => severity == Severity::Medium || severity == Severity::High || severity
            == Severity::Critical,
        Severity::High => severity == Severity::High || severity == Severity::Critical,
        Severity::Critical => severity == Severity::Critical,
    }
}

/// What is reported: what is at least as bad as the floor, and of which the scanner is sure to
/// seventy percent or more.
pub proof fn what_is_reported(all: Seq<FindingModel>, floor: Severity, f: FindingModel)
    ensures
        reportable_findings(all, floor).contains(f) <==> all.contains(f) && at_least_as_bad(
            f.severity,
            floor,
        ) && f.confidence >= 70,
        severe_findings(all, floor).contains(f) <==> all.contains(f) && at_least_as_bad(
            f.severity,
            floor,
        ),
{
    lemma_filter_contains(all, |f: FindingModel| reportable(floor, f), f);
    lemma_filter_contains(all, |f: FindingModel| f.severity.rank() >= floor.rank(), f);
}

/// What stays of a list that is filtered: one finding that is kept stays where it stands, and one
/// that is not leaves the others as they are.
pub proof fn reports_keep_their_order(
    before: Seq<FindingModel>,
    f: FindingModel,
    after: Seq<FindingModel>,
    floor: Severity,
)
    ensures
        reportable_findings(before + seq![f] + after, floor) == reportable_findings(before, floor)
            + (if at_least_as_bad(f.severity, floor) && f.confidence >= 70 {
            seq![f]
        } else {
            Seq::empty()
        }) + reportable_findings(after, floor),
        severe_findings(before + seq![f] + after, floor) == severe_findings(before, floor) + (
        if at_least_as_bad(f.severity, floor) {
            seq![f]
        } else {
            Seq::empty()
        }) + severe_findings(after, floor),
{
    let keep = |f: FindingModel| reportable(floor, f);
    let bad = |f: FindingModel| f.severity.rank() >= floor.rank();
    lemma_filter_around(before, f, after, keep);
    lemma_filter_around(before, f, after, bad);
}

proof fn lemma_filter_around(
    before: Seq<FindingModel>,
    f: FindingModel,
    after: Seq<FindingModel>,
    keep: spec_fn(FindingModel) -> bool,
)
    ensures
        (before + seq![f] + after).filter(keep) == before.filter(keep) + (if keep(f) {
            seq![f]
        } else {
            Seq::empty()
        }) + after.filter(keep),
    decreases after.len(),
{
    reveal(Seq::filter);
    let all = before + seq![f] + after;
    let middle = if keep(f) {
        seq![f]
    } else {
        Seq::empty()
    };
    if after.len() == 0 {
        assert(all.drop_last() =~= before);
        assert(all.last() == f);
        assert(all.filter(keep) =~= before.filter(keep) + middle + after.filter(keep));
    } else {
        lemma_filter_around(before, f, after.drop_last(), keep);
        assert(all.drop_last() =~= before + seq![f] + after.drop_last());
        assert(all.last() == after.last());
        assert(all.filter(keep) =~= before.filter(keep) + middle + after.filter(keep));
    }
}

/// What is new: what shares its file, its line and its category with nothing in the baseline.
pub proof fn what_is_new(all: Seq<FindingModel>, baseline: Seq<FindingModel>, f: FindingModel)
    ensures
        new_findings(all, baseline).contains(f) <==> all.contains(f) && forall|k: int|
            0 <= k < baseline.len() ==> (#[trigger] baseline[k]).file != f.file || baseline[k].line
                != f.line || baseline[k].category != f.category,
{
    lemma_filter_contains(
        all,
        |f: FindingModel| !crate::results::known(baseline, f),
        f,
    );
}

/// What is shown: what is reported and, where there is a baseline, new.
pub proof fn what_is_shown(
    all: Seq<FindingModel>,
    floor: Severity,
    baseline: Option<Seq<FindingModel>>,
    f: FindingModel,
)
    ensures
        shown_findings(all, floor, baseline).contains(f) <==> {
            &&& all.contains(f)
            &&& at_least_as_bad(f.severity, floor)
            &&& f.confidence >= 70
            &&& baseline matches Some(b) ==> forall|k: int|
                0 <= k < b.len() ==> (#[trigger] b[k]).file != f.file || b[k].line != f.line
                    || b[k].category != f.category
        },
{
    what_is_reported(all, floor, f);
    if let Some(b) = baseline {
        what_is_new(reportable_findings(all, floor), b, f);
    }
}

/// How severities are ordered, named and coloured.
pub proof fn names_of_severities()
    ensures
        Severity::Low.rank() < Severity::Medium.rank() < Severity::High.rank()
            < Severity::Critical.rank(),
        Severity::Low.label_text() == "LOW"@,
        Severity::Medium.label_text() == "MEDIUM"@,
        Severity::High.label_text() == "HIGH"@,
        Severity::Critical.label_text() == "CRITICAL"@,
        Severity::Low.shade() == Colour::Blue,
        Severity::Medium.shade() == Colour::Yellow,
        Severity::High.shade() == Colour::Red,
        Severity::Critical.shade() == Colour::Fixed(196),
{
}

/// Which floor a name stands for: the three that name one, and the lowest for every other name.
pub proof fn names_of_floors(name: Seq<char>)
    ensures
        severity_floor(name) == Severity::Critical <==> name == "critical"@,
        severity_floor(name) == Severity::High <==> name == "high"@,
        severity_floor(name) == Severity::Medium <==> name == "medium"@,
        severity_floor(name) == Severity::Low <==> name != "critical"@ && name != "high"@ && name
            != "medium"@,
{
    reveal_strlit("critical");
    reveal_strlit("high");
    reveal_strlit("medium");
    assert("critical"@.len() == 8);
    assert("high"@.len() == 4);
    assert("medium"@.len() == 6);
}

/// What is printed: findings as JSON only where that was asked for, and never in quiet mode.
pub proof fn what_is_printed(format: Seq<char>, quiet: bool)
    ensures
        output_for(format, quiet) == Output::Json <==> format == "json"@ && !quiet,
        output_for(format, quiet) == Output::Nothing <==> format == "json"@ && quiet,
        output_for(format, quiet) == Output::Summary <==> format != "json"@ && quiet,
        output_for(format, quiet) == Output::Report <==> format != "json"@ && !quiet,
{
}

/// How a count grows: by one with each finding of the severity, wherever it stands.
pub proof fn counts_grow_by_one(
    before: Seq<FindingModel>,
    f: FindingModel,
    after: Seq<FindingModel>,
    severity: Severity,
)
    ensures
        count_of(Seq::empty(), severity) == 0,
        count_of(before + seq![f] + after, severity) == count_of(before + after, severity) + (if
        f.severity == severity {
            1nat
        } else {
            0nat
        }),
    decreases after.len(),
{
    let all = before + seq![f] + after;
    let less = before + after;
    if after.len() == 0 {
        assert(all.drop_last() =~= before);
        assert(all.last() == f);
        assert(less =~= before);
    } else {
        counts_grow_by_one(before, f, after.drop_last(), severity);
        assert(all.drop_last() =~= before + seq![f] + after.drop_last());
        assert(less.drop_last() =~= before + after.drop_last());
        assert(all.last() == after.last());
        assert(less.last() == after.last());
    }
}

/// How much coffee is called for, by the number of findings and of critical ones.
pub proof fn cups_of_coffee(critical: nat, total: nat)
    ensures
        critical == 0 && total == 0 ==> coffee(critical, total) == (
            0nat,
            "None needed"@,
            "Your code is perfect. Suspiciously perfect."@,
        ),
        critical == 0 && 1 <= total <= 5 ==> coffee(critical, total) == (
            1nat,
            "Light roast"@,
            "Just a small one. You've got this."@,
        ),
        critical == 0 && 6 <= total <= 20 ==> coffee(critical, total) == (
            2nat,
            "Medium roast"@,
            "Standard Tuesday."@,
        ),
        1 <= critical <= 3 ==> coffee(critical, total) == (
            3nat,
            "Dark roast"@,
            "Buckle up. It's gonna be a long night."@,
        ),
        4 <= critical <= 10 ==> coffee(critical, total) == (
            5nat,
            "Espresso"@,
            "Cancel your plans."@,
        ),
        critical > 10 || critical == 0 && total > 20 ==> coffee(critical, total) == (
            8nat,
            "Whatever's strongest"@,
            "Have you considered a career change?"@,
        ),
{
}

/// What is said of coffee: two lines, the recommendation and the advice.
pub proof fn lines_on_coffee(all: Seq<FindingModel>)
    ensures
        ({
            let c = coffee(count_of(all, Severity::Critical), all.len());
            let page = coffee_page(all);
            &&& page.len() == 2
            &&& page[0].len() == 1
            &&& page[1].len() == 1
            &&& page[0][0].text == "Recommendation: "@ + decimal(c.0) + " cups of "@ + c.1
            &&& page[1][0].text == c.2
            &&& page[0][0].style == crate::paint::in_colour(Colour::Rgb(139, 69, 19))
            &&& page[1][0].style == crate::paint::in_colour(Colour::Fixed(240))
        }),
{
}

/// What quiet mode prints: the counts where something is critical, the total where nothing is, and
/// that nothing was found.
pub proof fn line_of_quiet_mode(all: Seq<FindingModel>, files: nat)
    ensures
        ({
            let critical = count_of(all, Severity::Critical);
            let file = if files == 1 {
                "file"@
            } else {
                "files"@
            };
            let issue = if all.len() == 1 {
                "issue"@
            } else {
                "issues"@
            };
            &&& critical > 0 ==> quiet_line(all, files) == decimal(critical) + " critical, "@
                + decimal(count_of(all, Severity::High)) + " high, "@ + decimal(
                count_of(all, Severity::Medium),
            ) + " medium in "@ + decimal(files) + " "@ + file + " ("@ + decimal(all.len()) + " "@
                + issue + ")"@
            &&& critical == 0 && all.len() > 0 ==> quiet_line(all, files) == decimal(all.len())
                + " issues found in "@ + decimal(files) + " "@ + file + " (no critical)"@
            &&& all.len() == 0 ==> quiet_line(all, files) == "No issues found in "@ + decimal(files)
                + " "@ + file
            &&& file_word(files) == file
            &&& issue_word(all.len()) == issue
        }),
{
}

/// Each finding is one result, in its place, with its file, line, column and message; the rule is
/// its category, and the level follows from the severity.
pub proof fn results_follow_findings(all: Seq<FindingModel>, k: int)
    requires
        0 <= k < all.len(),
    ensures
        ({
            let f = all[k];
            let r = sarif_results(all)[k];
            &&& sarif_results(all).len() == all.len()
            &&& r.rule_id == "ntscan/"@ + f.category
            &&& r.message == f.message
            &&& r.uri == f.file
            &&& r.start_line == f.line
            &&& r.start_column == f.column
            &&& f.severity == Severity::Critical || f.severity == Severity::High ==> r.level
                == "error"@
            &&& f.severity == Severity::Medium ==> r.level == "warning"@
            &&& f.severity == Severity::Low ==> r.level == "note"@
        }),
{
}

/// The options where nothing is said.
pub proof fn options_of_their_own()
    ensures
        default_options().extensions == "c,cpp,h,hpp,java,cs,py,js,ts,go,rs,rb"@,
        default_options().severity == "low"@,
        default_options().threads == 0,
        default_options().format == "text"@,
{
}

/// An option that has its default value takes what a configuration file sets.
pub proof fn config_fills_defaults(options: OptionsModel, config: Config)
    ensures
        options.extensions == "c,cpp,h,hpp,java,cs,py,js,ts,go,rs,rb"@ ==> (
        config.extensions matches Some(list) ==> configured(options, config).extensions == join(
            strings(list@),
            ","@,
        )),
        options.severity == "low"@ ==> (config.severity matches Some(s) ==> configured(
            options,
            config,
        ).severity == s@),
        options.threads == 0 ==> (config.threads matches Some(n) ==> configured(
            options,
            config,
        ).threads == n),
        options.format == "text"@ ==> (config.format matches Some(f) ==> configured(
            options,
            config,
        ).format == f@),
{
}

/// An option that has another value, which comes from the command line, keeps it; and so does one
/// that a configuration file says nothing of.
pub proof fn config_changes_nothing_else(options: OptionsModel, config: Config)
    ensures
        options.extensions != "c,cpp,h,hpp,java,cs,py,js,ts,go,rs,rb"@ || config.extensions is None
            ==> configured(options, config).extensions == options.extensions,
        options.severity != "low"@ || config.severity is None ==> configured(
            options,
            config,
        ).severity == options.severity,
        options.threads != 0 || config.threads is None ==> configured(options, config).threads
            == options.threads,
        options.format != "text"@ || config.format is None ==> configured(options, config).format
            == options.format,
{
}

/// The file that is read for options: that which is named, and otherwise one of that name.
pub proof fn file_of_options(named: Seq<char>)
    ensures
        crate::config::config_file(Some(named)) == named,
        crate::config::config_file(None) == ".ntscan.toml"@,
{
}

/// What is said of the number of files: nothing in quiet mode, and of more than fifty files only
/// where progress is shown, together with a bar.
pub proof fn number_of_files_is_said(total: nat, quiet: bool, show_progress: bool)
    ensures
        !quiet && (total <= 50 || show_progress) ==> announcement(total, quiet, show_progress)
            == Some(
            decimal(total) + " "@ + (if total == 1 {
                "file"@
            } else {
                "files"@
            }) + " to analyze"@,
        ),
        quiet || total > 50 && !show_progress ==> announcement(total, quiet, show_progress) is None,
        bar_shown(total, quiet, show_progress) <==> total > 50 && show_progress && !quiet,
{
}

/// A file without an extension is not scanned, nor one whose extension is not listed, nor one whose
/// path a pattern matches; and every other is.
pub proof fn which_files_are_scanned(
    path: Seq<char>,
    ext: Option<Seq<char>>,
    extensions: Seq<char>,
    patterns: Seq<Seq<char>>,
)
    ensures
        ext is None ==> !selected(path, ext, extensions, patterns),
        forall|k: int|
            0 <= k < patterns.len() && crate::outside::regex_found(#[trigger] patterns[k], path)
                == Some(true) ==> !selected(path, ext, extensions, patterns),
        (forall|k: int|
            0 <= k < patterns.len() ==> crate::outside::regex_found(#[trigger] patterns[k], path)
                != Some(true)) ==> (ext matches Some(e) ==> selected(
            path,
            ext,
            extensions,
            patterns,
        ) == split(extensions, ',').contains(e)),
{
}

} // verus!
