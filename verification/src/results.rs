//! What becomes of findings: which are reported, and what their number means.
use vstd::prelude::*;

use crate::finding::{views, Colour, Finding, FindingModel, Severity};
use crate::paint::{
    in_colour, page_view, render, sent_page, style_in, styled, styled_line, Span, SpanModel,
};
use crate::select::{file_word, word_for_files};
use crate::text::{decimal, decimal_text, glue3, glue4, same, strings};

verus! {

/// Whether a finding is bad enough, and sure enough, to be reported.
pub open spec fn reportable(floor: Severity, f: FindingModel) -> bool {
    f.severity.rank() >= floor.rank() && f.high_confidence()
}

/// The findings that are reported, in their order.
pub open spec fn reportable_findings(all: Seq<FindingModel>, floor: Severity) -> Seq<FindingModel> {
    all.filter(|f: FindingModel| reportable(floor, f))
}

/// Whether two findings are of the same category on the same line of the same file.
pub open spec fn same_issue(a: FindingModel, b: FindingModel) -> bool {
    a.file == b.file && a.line == b.line && a.category == b.category
}

/// Whether a finding is among those of an earlier scan.
pub open spec fn known(baseline: Seq<FindingModel>, f: FindingModel) -> bool {
    exists|k: int| 0 <= k < baseline.len() && same_issue(#[trigger] baseline[k], f)
}

/// The findings that are not among those of an earlier scan, in their order.
pub open spec fn new_findings(all: Seq<FindingModel>, baseline: Seq<FindingModel>) -> Seq<
    FindingModel,
> {
    all.filter(|f: FindingModel| !known(baseline, f))
}

/// How a filtered sequence grows from one element to the next.
pub proof fn lemma_filter_step(s: Seq<FindingModel>, keep: spec_fn(FindingModel) -> bool, k: int)
    requires
        0 <= k < s.len(),
    ensures
        s.take(k + 1).filter(keep) == if keep(s[k]) {
            s.take(k).filter(keep).push(s[k])
        } else {
            s.take(k).filter(keep)
        },
{
    reveal(Seq::filter);
    assert(s.take(k + 1).drop_last() =~= s.take(k));
    assert(s.take(k + 1).last() == s[k]);
}

/// The findings that are at least as bad as `floor`, in their order.
pub open spec fn severe_findings(all: Seq<FindingModel>, floor: Severity) -> Seq<FindingModel> {
    all.filter(|f: FindingModel| f.severity.rank() >= floor.rank())
}

/// The findings that are at least as bad as `floor`.
pub fn filter_severity(findings: &Vec<Finding>, floor: Severity) -> (r: Vec<Finding>)
    ensures
        views(r@) == severe_findings(views(findings@), floor),
{
    let mut out: Vec<Finding> = Vec::new();
    let ghost all = views(findings@);
    let ghost keep = |f: FindingModel| f.severity.rank() >= floor.rank();
    let mut k: usize = 0;
    proof {
        reveal(Seq::filter);
        assert(views(out@) =~= all.take(0).filter(keep));
    }
    while k < findings.len()
        invariant
            k <= findings@.len(),
            all == views(findings@),
            keep == (|f: FindingModel| f.severity.rank() >= floor.rank()),
            views(out@) == all.take(k as int).filter(keep),
        decreases findings@.len() - k,
    {
        let f = &findings[k];
        assert(all[k as int] == f@);
        proof {
            lemma_filter_step(all, keep, k as int);
        }
        if f.severity.at_least(floor) {
            let ghost before = views(out@);
            let kept = f.clone();
            out.push(kept);
            assert(views(out@) =~= before.push(f@));
        }
        k = k + 1;
    }
    assert(all.take(k as int) =~= all);
    out
}

/// The findings that are reported.
pub fn filter_findings(findings: &Vec<Finding>, floor: Severity) -> (r: Vec<Finding>)
    ensures
        views(r@) == reportable_findings(views(findings@), floor),
{
    let mut out: Vec<Finding> = Vec::new();
    let ghost all = views(findings@);
    let ghost keep = |f: FindingModel| reportable(floor, f);
    let mut k: usize = 0;
    proof {
        reveal(Seq::filter);
        assert(views(out@) =~= all.take(0).filter(keep));
    }
    while k < findings.len()
        invariant
            k <= findings@.len(),
            all == views(findings@),
            keep == (|f: FindingModel| reportable(floor, f)),
            views(out@) == all.take(k as int).filter(keep),
        decreases findings@.len() - k,
    {
        let f = &findings[k];
        assert(all[k as int] == f@);
        proof {
            lemma_filter_step(all, keep, k as int);
        }
        if f.severity.at_least(floor) && f.is_high_confidence() {
            let ghost before = views(out@);
            let kept = f.clone();
            out.push(kept);
            assert(views(out@) =~= before.push(f@));
        }
        k = k + 1;
    }
    assert(all.take(k as int) =~= all);
    out
}

fn is_known(baseline: &Vec<Finding>, f: &Finding) -> (r: bool)
    ensures
        r == known(views(baseline@), f@),
{
    let mut k: usize = 0;
    let ghost all = views(baseline@);
    while k < baseline.len()
        invariant
            k <= baseline@.len(),
            all == views(baseline@),
            forall|j: int| 0 <= j < k ==> !same_issue(#[trigger] all[j], f@),
        decreases baseline@.len() - k,
    {
        let b = &baseline[k];
        assert(all[k as int] == b@);
        if same(b.file.as_str(), f.file.as_str()) && b.line == f.line && same(
            b.category.as_str(),
            f.category.as_str(),
        ) {
            return true;
        }
        k = k + 1;
    }
    false
}

/// The findings that are not among those of an earlier scan.
pub fn filter_known(findings: &Vec<Finding>, baseline: &Vec<Finding>) -> (r: Vec<Finding>)
    ensures
        views(r@) == new_findings(views(findings@), views(baseline@)),
{
    let mut out: Vec<Finding> = Vec::new();
    let ghost all = views(findings@);
    let ghost old_ones = views(baseline@);
    let ghost keep = |f: FindingModel| !known(old_ones, f);
    let mut k: usize = 0;
    proof {
        reveal(Seq::filter);
        assert(views(out@) =~= all.take(0).filter(keep));
    }
    while k < findings.len()
        invariant
            k <= findings@.len(),
            all == views(findings@),
            old_ones == views(baseline@),
            keep == (|f: FindingModel| !known(old_ones, f)),
            views(out@) == all.take(k as int).filter(keep),
        decreases findings@.len() - k,
    {
        let f = &findings[k];
        assert(all[k as int] == f@);
        proof {
            lemma_filter_step(all, keep, k as int);
        }
        if !is_known(baseline, f) {
            let ghost before = views(out@);
            let kept = f.clone();
            out.push(kept);
            assert(views(out@) =~= before.push(f@));
        }
        k = k + 1;
    }
    assert(all.take(k as int) =~= all);
    out
}

/// The findings that are reported and, where there is a baseline, not among those of it.
pub open spec fn shown_findings(
    all: Seq<FindingModel>,
    floor: Severity,
    baseline: Option<Seq<FindingModel>>,
) -> Seq<FindingModel> {
    match baseline {
        Some(b) => new_findings(reportable_findings(all, floor), b),
        None => reportable_findings(all, floor),
    }
}

/// The contents of a baseline, where there is one.
pub open spec fn baseline_view(baseline: Option<&Vec<Finding>>) -> Option<Seq<FindingModel>> {
    match baseline {
        Some(b) => Some(views(b@)),
        None => None,
    }
}

/// The findings that a scan shows: those that are bad and sure enough and, where there is a
/// baseline, not among those of it.
pub fn select_findings(
    findings: &Vec<Finding>,
    floor: Severity,
    baseline: Option<&Vec<Finding>>,
) -> (r: Vec<Finding>)
    ensures
        views(r@) == shown_findings(views(findings@), floor, baseline_view(baseline)),
{
    let filtered = filter_findings(findings, floor);
    match baseline {
        Some(b) => filter_known(&filtered, b),
        None => filtered,
    }
}

/// What a scan prints.
#[derive(Clone, Copy, Debug, PartialEq, Eq, Structural)]
pub enum Output {
    /// The findings as JSON.
    Json,
    /// The report.
    Report,
    /// The one line of quiet mode.
    Summary,
    Nothing,
}

/// What a scan prints, by the format that was asked for; JSON is not printed in quiet mode.
pub open spec fn output_for(format: Seq<char>, quiet: bool) -> Output {
    if format == "json"@ {
        if quiet {
            Output::Nothing
        } else {
            Output::Json
        }
    } else if quiet {
        Output::Summary
    } else {
        Output::Report
    }
}

/// What a scan prints, by the format that was asked for.
pub fn choose_output(format: &str, quiet: bool) -> (r: Output)
    ensures
        r == output_for(format@, quiet),
{
    if same(format, "json") {
        if quiet {
            Output::Nothing
        } else {
            Output::Json
        }
    } else if quiet {
        Output::Summary
    } else {
        Output::Report
    }
}

/// How many findings are of a severity.
pub open spec fn count_of(all: Seq<FindingModel>, severity: Severity) -> nat
    decreases all.len(),
{
    if all.len() == 0 {
        0
    } else {
        count_of(all.drop_last(), severity) + if all.last().severity == severity {
            1nat
        } else {
            0nat
        }
    }
}

/// How many findings are of a severity.
pub fn count_severity(findings: &Vec<Finding>, severity: Severity) -> (r: usize)
    ensures
        r == count_of(views(findings@), severity),
        r <= findings@.len(),
{
    let ghost all = views(findings@);
    let mut count: usize = 0;
    let mut k: usize = 0;
    while k < findings.len()
        invariant
            k <= findings@.len(),
            count <= k,
            all == views(findings@),
            count == count_of(all.take(k as int), severity),
        decreases findings@.len() - k,
    {
        assert(all[k as int] == findings@[k as int]@);
        assert(all.take(k + 1).drop_last() =~= all.take(k as int));
        if findings[k].severity == severity {
            count = count + 1;
        }
        k = k + 1;
    }
    assert(all.take(k as int) =~= all);
    count
}

/// The word for one issue, or for several.
pub open spec fn issue_word(n: nat) -> Seq<char> {
    if n == 1 {
        "issue"@
    } else {
        "issues"@
    }
}

/// The word for one issue, or for several.
pub fn word_for_issues(n: usize) -> (r: &'static str)
    ensures
        r@ == issue_word(n as nat),
{
    if n == 1 {
        "issue"
    } else {
        "issues"
    }
}

/// The one line that quiet mode prints.
pub open spec fn quiet_line(all: Seq<FindingModel>, total_files: nat) -> Seq<char> {
    let critical = count_of(all, Severity::Critical);
    if critical > 0 {
        decimal(critical) + " critical, "@ + decimal(count_of(all, Severity::High)) + " high, "@
            + decimal(count_of(all, Severity::Medium)) + " medium in "@ + decimal(total_files)
            + " "@ + file_word(total_files) + " ("@ + decimal(all.len()) + " "@ + issue_word(
            all.len(),
        ) + ")"@
    } else if all.len() > 0 {
        decimal(all.len()) + " issues found in "@ + decimal(total_files) + " "@ + file_word(
            total_files,
        ) + " (no critical)"@
    } else {
        "No issues found in "@ + decimal(total_files) + " "@ + file_word(total_files)
    }
}

/// The one line that quiet mode prints.
pub fn quiet_summary(findings: &Vec<Finding>, total_files: usize) -> (r: String)
    ensures
        r@ == quiet_line(views(findings@), total_files as nat),
{
    let critical: usize = count_severity(findings, Severity::Critical);
    let total: usize = findings.len();
    assert(views(findings@).len() == total);
    let mut out = String::new();
    if critical > 0 {
        out.append(decimal_text(critical).as_str());
        assert(out@ =~= decimal(critical as nat));
        out.append(" critical, ");
        out.append(decimal_text(count_severity(findings, Severity::High)).as_str());
        out.append(" high, ");
        out.append(decimal_text(count_severity(findings, Severity::Medium)).as_str());
        out.append(" medium in ");
        out.append(decimal_text(total_files).as_str());
        out.append(" ");
        out.append(word_for_files(total_files));
        out.append(" (");
        out.append(decimal_text(total).as_str());
        out.append(" ");
        out.append(word_for_issues(total));
        out.append(")");
    } else if total > 0 {
        out.append(decimal_text(total).as_str());
        assert(out@ =~= decimal(total as nat));
        out.append(" issues found in ");
        out.append(decimal_text(total_files).as_str());
        out.append(" ");
        out.append(word_for_files(total_files));
        out.append(" (no critical)");
    } else {
        out.append("No issues found in ");
        assert(out@ =~= "No issues found in "@);
        out.append(decimal_text(total_files).as_str());
        out.append(" ");
        out.append(word_for_files(total_files));
    }
    out
}

/// The line that tells how many findings are new.
pub fn new_issues_line(n: usize) -> (r: String)
    ensures
        r@ == "  ("@ + decimal(n as nat) + " new issues not in baseline)"@,
{
    glue3("  (", decimal_text(n).as_str(), " new issues not in baseline)")
}

/// Whether the scan fails: it found something critical.
pub open spec fn scan_fails(all: Seq<FindingModel>) -> bool {
    exists|k: int| 0 <= k < all.len() && (#[trigger] all[k]).severity == Severity::Critical
}

/// The status with which the program ends: one where the scan fails, zero otherwise.
pub fn exit_status(findings: &Vec<Finding>) -> (r: i32)
    ensures
        r == if scan_fails(views(findings@)) {
            1i32
        } else {
            0i32
        },
{
    proof {
        count_shows_presence(views(findings@), Severity::Critical);
    }
    if count_severity(findings, Severity::Critical) > 0 {
        1
    } else {
        0
    }
}

/// What follows a scan.
#[derive(Clone, Copy, Debug, PartialEq, Eq, Structural)]
pub enum NextStep {
    /// Scan again, after a while.
    Again,
    /// End with a status.
    Exit(i32),
}

/// What follows a scan: another one in watch mode, and otherwise the end.
pub fn next_step(findings: &Vec<Finding>, watch: bool) -> (r: NextStep)
    ensures
        r == if watch {
            NextStep::Again
        } else if scan_fails(views(findings@)) {
            NextStep::Exit(1)
        } else {
            NextStep::Exit(0)
        },
{
    if watch {
        NextStep::Again
    } else {
        NextStep::Exit(exit_status(findings))
    }
}

/// A severity is counted exactly where a finding has it.
pub proof fn count_shows_presence(all: Seq<FindingModel>, severity: Severity)
    ensures
        count_of(all, severity) > 0 <==> exists|k: int|
            0 <= k < all.len() && (#[trigger] all[k]).severity == severity,
    decreases all.len(),
{
    if all.len() > 0 {
        let rest = all.drop_last();
        count_shows_presence(rest, severity);
        if all.last().severity == severity {
            assert(all[all.len() - 1].severity == severity);
        }
        if exists|k: int| 0 <= k < rest.len() && (#[trigger] rest[k]).severity == severity {
            let k = choose|k: int| 0 <= k < rest.len() && (#[trigger] rest[k]).severity == severity;
            assert(all[k].severity == severity);
        }
        if exists|k: int| 0 <= k < all.len() && (#[trigger] all[k]).severity == severity {
            let k = choose|k: int| 0 <= k < all.len() && (#[trigger] all[k]).severity == severity;
            if k < rest.len() {
                assert(rest[k].severity == severity);
            }
        }
    }
}

/// Whether the number of findings is the answer to everything, and something is said of it.
pub fn is_the_answer(n: usize, quiet: bool) -> (r: bool)
    ensures
        r == (n == 42 && !quiet),
{
    n == 42 && !quiet
}

/// How much coffee a code base calls for: cups, roast and advice.
pub open spec fn coffee(critical: nat, total: nat) -> (nat, Seq<char>, Seq<char>) {
    if critical == 0 && total == 0 {
        (0, "None needed"@, "Your code is perfect. Suspiciously perfect."@)
    } else if critical == 0 && total <= 5 {
        (1, "Light roast"@, "Just a small one. You've got this."@)
    } else if critical == 0 && total <= 20 {
        (2, "Medium roast"@, "Standard Tuesday."@)
    } else if 1 <= critical <= 3 {
        (3, "Dark roast"@, "Buckle up. It's gonna be a long night."@)
    } else if 4 <= critical <= 10 {
        (5, "Espresso"@, "Cancel your plans."@)
    } else {
        (8, "Whatever's strongest"@, "Have you considered a career change?"@)
    }
}

/// The colour of coffee.
pub open spec fn coffee_brown() -> Colour {
    Colour::Rgb(139, 69, 19)
}

/// The lines that say how much coffee findings call for.
pub open spec fn coffee_page(all: Seq<FindingModel>) -> Seq<Seq<SpanModel>> {
    let (cups, roast, advice) = coffee(count_of(all, Severity::Critical), all.len());
    seq![
        seq![
            styled(
                in_colour(coffee_brown()),
                "Recommendation: "@ + decimal(cups) + " cups of "@ + roast,
            ),
        ],
        seq![styled(in_colour(Colour::Fixed(240)), advice)],
    ]
}

/// How much coffee a code base calls for.
pub fn recommend_coffee(critical: usize, total: usize) -> (r: (usize, &'static str, &'static str))
    ensures
        (r.0 as nat, r.1@, r.2@) == coffee(critical as nat, total as nat),
{
    if critical == 0 && total == 0 {
        (0, "None needed", "Your code is perfect. Suspiciously perfect.")
    } else if critical == 0 && total <= 5 {
        (1, "Light roast", "Just a small one. You've got this.")
    } else if critical == 0 && total <= 20 {
        (2, "Medium roast", "Standard Tuesday.")
    } else if 1 <= critical && critical <= 3 {
        (3, "Dark roast", "Buckle up. It's gonna be a long night.")
    } else if 4 <= critical && critical <= 10 {
        (5, "Espresso", "Cancel your plans.")
    } else {
        (8, "Whatever's strongest", "Have you considered a career change?")
    }
}

/// The lines that say how much coffee findings call for, in their styles.
pub fn lay_out_coffee(findings: &Vec<Finding>) -> (r: Vec<Vec<Span>>)
    ensures
        page_view(r@) == coffee_page(views(findings@)),
{
    let critical: usize = count_severity(findings, Severity::Critical);
    assert(views(findings@).len() == findings@.len());
    let (cups, roast, advice) = recommend_coffee(critical, findings.len());
    let line = glue4("Recommendation: ", decimal_text(cups).as_str(), " cups of ", roast);
    let mut lines: Vec<Vec<Span>> = Vec::new();
    lines.push(styled_line(style_in(Colour::Rgb(139, 69, 19)), line.as_str()));
    lines.push(styled_line(style_in(Colour::Fixed(240)), advice));
    assert(page_view(lines@) =~= coffee_page(views(findings@)));
    lines
}

/// The lines that say how much coffee findings call for, as a terminal is sent them.
pub fn coffee_lines(findings: &Vec<Finding>) -> (r: Vec<String>)
    ensures
        strings(r@) == sent_page(coffee_page(views(findings@))),
{
    render(&lay_out_coffee(findings))
}

/// Filtering findings twice is filtering them once.
pub proof fn filtering_is_idempotent(all: Seq<FindingModel>, floor: Severity)
    ensures
        reportable_findings(reportable_findings(all, floor), floor) == reportable_findings(
            all,
            floor,
        ),
{
    let keep = |f: FindingModel| reportable(floor, f);
    let once = all.filter(keep);
    assert forall|k: int| 0 <= k < once.len() implies keep(#[trigger] once[k]) by {
        lemma_filter_contains(all, keep, once[k]);
        assert(once.contains(once[k]));
    }
    lemma_filter_keeps_all(once, keep);
}

pub proof fn lemma_filter_contains(
    s: Seq<FindingModel>,
    keep: spec_fn(FindingModel) -> bool,
    f: FindingModel,
)
    ensures
        s.filter(keep).contains(f) <==> s.contains(f) && keep(f),
    decreases s.len(),
{
    reveal(Seq::filter);
    if s.len() > 0 {
        let rest = s.drop_last();
        lemma_filter_contains(rest, keep, f);
        let kept = rest.filter(keep);
        assert(s =~= rest.push(s.last()));
        if keep(s.last()) {
            assert(s.filter(keep) == kept.push(s.last()));
            lemma_push_contains(kept, s.last(), f);
        }
        lemma_push_contains(rest, s.last(), f);
    }
}

proof fn lemma_push_contains(s: Seq<FindingModel>, x: FindingModel, f: FindingModel)
    ensures
        s.push(x).contains(f) <==> s.contains(f) || f == x,
{
    assert(s.push(x)[s.len() as int] == x);
    if s.contains(f) {
        let k = choose|k: int| 0 <= k < s.len() && s[k] == f;
        assert(s.push(x)[k] == f);
    }
}

proof fn lemma_filter_keeps_all(s: Seq<FindingModel>, keep: spec_fn(FindingModel) -> bool)
    requires
        forall|k: int| 0 <= k < s.len() ==> keep(#[trigger] s[k]),
    ensures
        s.filter(keep) == s,
    decreases s.len(),
{
    reveal(Seq::filter);
    if s.len() > 0 {
        let rest = s.drop_last();
        assert forall|k: int| 0 <= k < rest.len() implies keep(#[trigger] rest[k]) by {
            assert(rest[k] == s[k]);
        }
        lemma_filter_keeps_all(rest, keep);
        assert(s[s.len() - 1] == s.last());
        assert(rest.push(s.last()) =~= s);
    } else {
        assert(s.filter(keep) =~= s);
    }
}

proof fn lemma_filter_drops_all(s: Seq<FindingModel>, keep: spec_fn(FindingModel) -> bool)
    requires
        forall|k: int| 0 <= k < s.len() ==> !keep(#[trigger] s[k]),
    ensures
        s.filter(keep) == Seq::<FindingModel>::empty(),
    decreases s.len(),
{
    reveal(Seq::filter);
    if s.len() > 0 {
        let rest = s.drop_last();
        assert forall|k: int| 0 <= k < rest.len() implies !keep(#[trigger] rest[k]) by {
            assert(rest[k] == s[k]);
        }
        lemma_filter_drops_all(rest, keep);
        assert(s[s.len() - 1] == s.last());
    } else {
        assert(s.filter(keep) =~= Seq::<FindingModel>::empty());
    }
}

/// Nothing that is reported is milder than asked for, or less sure than is reported at all, and
/// everything that is neither is reported.
pub proof fn filtering_is_exact(all: Seq<FindingModel>, floor: Severity, f: FindingModel)
    ensures
        reportable_findings(all, floor).contains(f) <==> all.contains(f) && f.severity.rank()
            >= floor.rank() && f.confidence >= crate::finding::HIGH_CONFIDENCE,
{
    lemma_filter_contains(all, |f: FindingModel| reportable(floor, f), f);
}

/// What is reported at a higher floor is reported at a lower one.
pub proof fn lower_floor_reports_more(
    all: Seq<FindingModel>,
    low: Severity,
    high: Severity,
    f: FindingModel,
)
    requires
        low.rank() <= high.rank(),
    ensures
        reportable_findings(all, high).contains(f) ==> reportable_findings(all, low).contains(f),
{
    filtering_is_exact(all, low, f);
    filtering_is_exact(all, high, f);
}

/// A finding is new exactly where no finding of the earlier scan has its file, line and category.
pub proof fn only_new_findings_remain(
    all: Seq<FindingModel>,
    baseline: Seq<FindingModel>,
    f: FindingModel,
)
    ensures
        new_findings(all, baseline).contains(f) <==> all.contains(f) && !known(baseline, f),
{
    lemma_filter_contains(all, |f: FindingModel| !known(baseline, f), f);
}

/// Against its own findings as a baseline a scan finds nothing new.
pub proof fn own_baseline_hides_everything(all: Seq<FindingModel>)
    ensures
        new_findings(all, all) == Seq::<FindingModel>::empty(),
{
    let keep = |f: FindingModel| !known(all, f);
    assert forall|k: int| 0 <= k < all.len() implies !keep(#[trigger] all[k]) by {
        assert(same_issue(all[k], all[k]));
    }
    lemma_filter_drops_all(all, keep);
}

/// A baseline that was saved from a scan hides everything that the same scan finds again.
pub proof fn saved_baseline_hides_the_same_scan(all: Seq<FindingModel>, floor: Severity)
    ensures
        shown_findings(all, floor, Some(shown_findings(all, floor, None))) == Seq::<
            FindingModel,
        >::empty(),
{
    own_baseline_hides_everything(reportable_findings(all, floor));
}

/// Against an empty baseline everything is new.
pub proof fn empty_baseline_hides_nothing(all: Seq<FindingModel>)
    ensures
        new_findings(all, Seq::empty()) == all,
{
    let keep = |f: FindingModel| !known(Seq::empty(), f);
    lemma_filter_keeps_all(all, keep);
}

/// Every finding is of one of the four severities: the four counts make up the whole.
pub proof fn counts_add_up(all: Seq<FindingModel>)
    ensures
        count_of(all, Severity::Low) + count_of(all, Severity::Medium) + count_of(
            all,
            Severity::High,
        ) + count_of(all, Severity::Critical) == all.len(),
    decreases all.len(),
{
    if all.len() > 0 {
        counts_add_up(all.drop_last());
    }
}

} // verus!
