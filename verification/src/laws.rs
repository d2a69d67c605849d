//! What holds of every scan.
use vstd::prelude::*;

use crate::advanced::{
    advanced_rule, argument_findings, begins_after, closed, comes_to, inspects_file,
    product, product_argument, product_lasts, races, remembered, second_close_is_reported,
    sets_before, size_findings, use_after_check_is_reported, uses_after_check, works_on_file,
};
use crate::c_checks::{
    banned_calls, entry, leaks, line_rule, overflowing_operations, pattern_findings,
    unbounded_functions, unchecked_allocations, watched_calls,
};
use crate::callgraph::{cross_rule, library_summaries, local_summaries, summary_of};
use crate::dataflow::{
    arguments, checked_in, dereferences, double_free_is_reported, double_frees,
    flow_rule, frees, identifier, known_before, null_dereference_is_reported, null_in,
    null_stays_null, nulled, operand, untouched, use_after_free_is_reported, uses_after_free,
    writes,
};
use crate::finding::{
    found, gather, lemma_gathered, lemma_in_left, lemma_in_right, FindingModel, Severity,
};
use crate::java::{
    java_call_findings, java_on_object_stream, java_rule, java_scan, java_tainted,
    java_tainted_argument,
};
use crate::javascript::{
    js_in_tainted_call, js_rule, js_scan, js_tainted, js_tainted_argument,
};
use crate::names::{any_mentioned, lemma_more_names_mention_more};
use crate::outside::lowercase;
use crate::patterns::{Pattern, FALLBACK_CONFIDENCE, PATTERN_CONFIDENCE};
use crate::python::{py_call_findings, py_rule, py_scan, py_tainted, py_tainted_argument};
use crate::rule::{allocator, at_node, called, field_text, reported};
use crate::scanner::{
    bytes_outcome, c_bytes_outcome, c_scan, file_outcome, scanner_of, tree_scan, Analyzer,
};
use crate::symbolic::symbolic_rule;
use crate::syntax::TreeModel;
use crate::taint::{c_taint_sinks, sink_rule};
use crate::text::{lines, mentions};
use crate::types::{sizeof_rule, type_rule};

verus! {

/// Whether a finding is of the file `path`, and says what to do and how sure it is.
pub open spec fn sound(f: FindingModel, path: Seq<char>) -> bool {
    f.file == path && f.suggestion is Some && 0 < f.confidence <= 100
}

/// Whether all findings are.
#[verifier::opaque]
pub open spec fn all_sound(s: Seq<FindingModel>, path: Seq<char>) -> bool {
    forall|k: int| 0 <= k < s.len() ==> sound(#[trigger] s[k], path)
}

broadcast proof fn lemma_sound_sum(a: Seq<FindingModel>, b: Seq<FindingModel>, path: Seq<char>)
    requires
        all_sound(a, path),
        all_sound(b, path),
    ensures
        #[trigger] all_sound(a + b, path),
{
    reveal(all_sound);
    assert forall|k: int| 0 <= k < (a + b).len() implies sound(#[trigger] (a + b)[k], path) by {
        if k < a.len() {
            assert((a + b)[k] == a[k]);
        } else {
            assert((a + b)[k] == b[k - a.len()]);
        }
    }
}

broadcast proof fn lemma_sound_none(s: Seq<FindingModel>, path: Seq<char>)
    requires
        s.len() == 0,
    ensures
        #[trigger] all_sound(s, path),
{
    reveal(all_sound);
}

broadcast proof fn lemma_sound_found(f: Option<FindingModel>, path: Seq<char>)
    requires
        f matches Some(m) ==> sound(m, path),
    ensures
        #[trigger] all_sound(found(f), path),
{
    reveal(all_sound);
}

broadcast proof fn lemma_sound_report(
    cond: bool,
    t: TreeModel,
    path: Seq<char>,
    i: int,
    severity: Severity,
    category: Seq<char>,
    message: Seq<char>,
    suggestion: Seq<char>,
    confidence: nat,
)
    requires
        0 < confidence <= 100,
    ensures
        #[trigger] all_sound(
            reported(cond, t, path, i, severity, category, message, suggestion, confidence),
            path,
        ),
{
    reveal(all_sound);
}

proof fn lemma_sound_gather(rule: spec_fn(int) -> Seq<FindingModel>, n: int, path: Seq<char>)
    requires
        forall|i: int| 0 <= i < n ==> all_sound(#[trigger] rule(i), path),
    ensures
        all_sound(gather(rule, n), path),
    decreases n,
{
    broadcast use {lemma_sound_sum, lemma_sound_none, lemma_sound_found, lemma_sound_report};

    if n > 0 {
        lemma_sound_gather(rule, n - 1, path);
    }
}

proof fn lemma_sound_uses(
    t: TreeModel,
    path: Seq<char>,
    check: Seq<char>,
    at: int,
    j: int,
    end: int,
)
    ensures
        all_sound(uses_after_check(t, path, check, at, j, end), path),
    decreases t.len() - j,
{
    broadcast use {lemma_sound_sum, lemma_sound_none, lemma_sound_found, lemma_sound_report};

    if j >= end || end > t.len() || j < 0 {
    } else if t.nodes[j].start > at {
        lemma_sound_uses(t, path, check, at, j + 1, end);
    } else {
        crate::syntax::lemma_end_from(t.nodes, t.nodes[j].depth, j + 1);
        lemma_sound_uses(t, path, check, at, t.subtree_end(j), end);
    }
}

proof fn lemma_sound_races(
    t: TreeModel,
    path: Seq<char>,
    check: Seq<char>,
    at: int,
    scope: int,
)
    ensures
        all_sound(races(t, path, check, at, scope), path),
    decreases scope,
{
    broadcast use {lemma_sound_sum, lemma_sound_none, lemma_sound_found, lemma_sound_report};

    let below = uses_after_check(t, path, check, at, scope + 1, t.subtree_end(scope));
    lemma_sound_uses(t, path, check, at, scope + 1, t.subtree_end(scope));
    if scope > 0 && crate::advanced::part_of_statement(t, scope) {
        if let Some(p) = t.parent(scope) {
            crate::syntax::lemma_above(t.nodes, t.nodes[scope].depth, scope);
            lemma_sound_races(t, path, check, at, p);
        }
    }
}

proof fn lemma_sound_advanced(t: TreeModel, path: Seq<char>)
    ensures
        all_sound(gather(advanced_rule(t, path), t.len()), path),
{
    broadcast use {lemma_sound_sum, lemma_sound_none, lemma_sound_found, lemma_sound_report};

    let rule = advanced_rule(t, path);
    assert forall|i: int| 0 <= i < t.len() implies all_sound(#[trigger] rule(i), path) by {
        if let Some(name) = called(t, i) {
            if let Some(p) = t.parent(i) {
                lemma_sound_races(t, path, name, t.nodes[i].start as int, p);
            }
        }
    }
    lemma_sound_gather(rule, t.len(), path);
}

proof fn lemma_sound_flow(t: TreeModel, path: Seq<char>)
    ensures
        all_sound(gather(flow_rule(t, path), t.len()), path),
{
    broadcast use {lemma_sound_sum, lemma_sound_none, lemma_sound_found, lemma_sound_report};

    let rule = flow_rule(t, path);
    assert forall|i: int| 0 <= i < t.len() implies all_sound(#[trigger] rule(i), path) by {
        let vars = known_before(t, i);
        let n = arguments(t, i).len() as int;
        lemma_sound_gather(uses_after_free(t, path, i, vars), n, path);
        lemma_sound_gather(double_frees(t, path, i, vars), n, path);
    }
    lemma_sound_gather(rule, t.len(), path);
}

proof fn lemma_sound_types(t: TreeModel, path: Seq<char>)
    ensures
        all_sound(gather(type_rule(t, path), t.len()), path),
{
    broadcast use {lemma_sound_sum, lemma_sound_none, lemma_sound_found, lemma_sound_report};

    let rule = type_rule(t, path);
    assert forall|i: int| 0 <= i < t.len() implies all_sound(#[trigger] rule(i), path) by {
        let n = arguments(t, i).len() as int;
        lemma_sound_gather(sizeof_rule(t, path, i), n, path);
    }
    lemma_sound_gather(rule, t.len(), path);
}

proof fn lemma_sound_lines(path: Seq<char>, source: Seq<char>)
    ensures
        all_sound(pattern_findings(path, source), path),
{
    broadcast use {lemma_sound_sum, lemma_sound_none, lemma_sound_found, lemma_sound_report};

    lemma_sound_gather(line_rule(path, source), lines(source).len() as int, path);
}

proof fn lemma_sound_c(t: TreeModel, path: Seq<char>)
    ensures
        all_sound(c_scan(t, path), path),
{
    broadcast use {lemma_sound_sum, lemma_sound_none, lemma_sound_found, lemma_sound_report};

    let top = t.children(0).len() as int;
    lemma_sound_gather(watched_calls(t, path, unbounded_functions()), t.len(), path);
    lemma_sound_gather(unchecked_allocations(t, path), top, path);
    lemma_sound_gather(banned_calls(t, path), top, path);
    lemma_sound_gather(overflowing_operations(t, path), top, path);
    lemma_sound_gather(leaks(t, path), top, path);
    lemma_sound_lines(path, t.source);
    lemma_sound_gather(symbolic_rule(t, path), t.len(), path);
    lemma_sound_gather(sink_rule(t, path, c_taint_sinks()), t.len(), path);
    lemma_sound_advanced(t, path);
    lemma_sound_flow(t, path);
    lemma_sound_types(t, path);
    lemma_sound_gather(
        cross_rule(t, path, library_summaries(), local_summaries(t, t.len())),
        t.len(),
        path,
    );
}

proof fn lemma_sound_java(t: TreeModel, path: Seq<char>)
    ensures
        all_sound(java_scan(t, path), path),
{
    broadcast use {lemma_sound_sum, lemma_sound_none, lemma_sound_report};

    let rule = java_rule(t, path, java_tainted(t));
    assert forall|i: int| 0 <= i < t.len() implies all_sound(#[trigger] rule(i), path) by {}
    lemma_sound_gather(rule, t.len(), path);
}

proof fn lemma_sound_python(t: TreeModel, path: Seq<char>)
    ensures
        all_sound(py_scan(t, path), path),
{
    broadcast use {lemma_sound_sum, lemma_sound_none, lemma_sound_report};

    let rule = py_rule(t, path, py_tainted(t));
    assert forall|i: int| 0 <= i < t.len() implies all_sound(#[trigger] rule(i), path) by {}
    lemma_sound_gather(rule, t.len(), path);
}

proof fn lemma_sound_javascript(t: TreeModel, path: Seq<char>)
    ensures
        all_sound(js_scan(t, path), path),
{
    broadcast use {lemma_sound_sum, lemma_sound_none, lemma_sound_report};

    let rule = js_rule(t, path, js_tainted(t));
    assert forall|i: int| 0 <= i < t.len() implies all_sound(#[trigger] rule(i), path) by {}
    lemma_sound_gather(rule, t.len(), path);
}

proof fn lemma_sound_trees(analyzer: Analyzer, t: TreeModel, path: Seq<char>)
    ensures
        all_sound(tree_scan(analyzer, t, path), path),
{
    match analyzer {
        Analyzer::Java => lemma_sound_java(t, path),
        Analyzer::Python => lemma_sound_python(t, path),
        _ => lemma_sound_javascript(t, path),
    }
}

proof fn lemma_sound_patterns(
    pattern: Pattern,
    path: Seq<char>,
    source: Seq<char>,
    confidence: nat,
)
    requires
        0 < confidence <= 100,
    ensures
        all_sound(pattern.line_scan(path, source, confidence), path),
{
    broadcast use {lemma_sound_sum, lemma_sound_none, lemma_sound_found, lemma_sound_report};

    let rule = pattern.line_rule(path, source, confidence);
    let n = lines(source).len() as int;
    assert forall|i: int| 0 <= i < n implies all_sound(#[trigger] rule(i), path) by {
        reveal(all_sound);
    }
    lemma_sound_gather(rule, n, path);
}

/// Every finding of a scan is of the file that was scanned, says what to do, and is more than
/// nothing and at most wholly sure.
pub proof fn findings_are_sound(path: Seq<char>, ext: Option<Seq<char>>, bytes: Seq<u8>)
    ensures
        file_outcome(path, ext, bytes) matches Ok(s) ==> all_sound(s, path),
{
    lemma_sound_c_outcome(path, bytes);
    if let Some((language, analyzer)) = scanner_of(ext) {
        lemma_sound_bytes(analyzer, path, bytes);
    }
}

proof fn lemma_sound_c_outcome(path: Seq<char>, bytes: Seq<u8>)
    ensures
        c_bytes_outcome(path, bytes) matches Ok(s) ==> all_sound(s, path),
{
    broadcast use {lemma_sound_sum, lemma_sound_none, lemma_sound_found, lemma_sound_report};

    let source = vstd::utf8::decode_utf8(bytes);
    if let Some(n) = crate::outside::parsed(crate::syntax::Grammar::C, source) {
        lemma_sound_c(TreeModel { source, nodes: n }, path);
    }
}

proof fn lemma_sound_bytes(analyzer: Analyzer, path: Seq<char>, bytes: Seq<u8>)
    ensures
        bytes_outcome(analyzer, path, bytes) matches Ok(s) ==> all_sound(s, path),
{
    broadcast use {lemma_sound_sum, lemma_sound_none, lemma_sound_found, lemma_sound_report};

    lemma_sound_c_outcome(path, bytes);
    match analyzer {
        Analyzer::Lines(pattern) => {
            lemma_sound_patterns(
                pattern,
                path,
                vstd::utf8::decode_utf8(bytes),
                PATTERN_CONFIDENCE as nat,
            );
        },
        _ => {
            let source = crate::outside::lossy(bytes);
            let grammar = crate::scanner::grammar_for(analyzer);
            match crate::outside::parsed(grammar, source) {
                Some(n) => lemma_sound_trees(analyzer, TreeModel { source, nodes: n }, path),
                None => lemma_sound_patterns(
                    crate::scanner::pattern_for(analyzer),
                    path,
                    source,
                    FALLBACK_CONFIDENCE as nat,
                ),
            }
        },
    }
}

/// A file whose extension is not known, or has no analysis, is scanned as a source in C.
pub proof fn unknown_files_are_scanned_as_c(
    path: Seq<char>,
    ext: Option<Seq<char>>,
    bytes: Seq<u8>,
)
    requires
        scanner_of(ext) is None,
    ensures
        file_outcome(path, ext, bytes) == c_bytes_outcome(path, bytes),
{
}

/// Whether every finding of the one list is in the other.
#[verifier::opaque]
pub open spec fn all_in(few: Seq<FindingModel>, many: Seq<FindingModel>) -> bool {
    forall|k: int| 0 <= k < few.len() ==> many.contains(#[trigger] few[k])
}

broadcast proof fn lemma_in_sum(
    a: Seq<FindingModel>,
    b: Seq<FindingModel>,
    c: Seq<FindingModel>,
    d: Seq<FindingModel>,
)
    requires
        all_in(a, c),
        all_in(b, d),
    ensures
        #[trigger] all_in(a + b, c + d),
{
    reveal(all_in);
    assert forall|k: int| 0 <= k < (a + b).len() implies (c + d).contains(
        #[trigger] (a + b)[k],
    ) by {
        if k < a.len() {
            assert((a + b)[k] == a[k]);
            let j = choose|j: int| 0 <= j < c.len() && c[j] == a[k];
            assert((c + d)[j] == a[k]);
        } else {
            assert((a + b)[k] == b[k - a.len()]);
            let j = choose|j: int| 0 <= j < d.len() && d[j] == b[k - a.len()];
            assert((c + d)[c.len() + j] == b[k - a.len()]);
        }
    }
}

broadcast proof fn lemma_in_itself(a: Seq<FindingModel>)
    ensures
        #[trigger] all_in(a, a),
{
    reveal(all_in);
}

broadcast proof fn lemma_in_report(
    less: bool,
    more: bool,
    t: TreeModel,
    path: Seq<char>,
    i: int,
    severity: Severity,
    category: Seq<char>,
    message: Seq<char>,
    suggestion: Seq<char>,
    confidence: nat,
)
    requires
        less ==> more,
    ensures
        #[trigger] all_in(
            reported(less, t, path, i, severity, category, message, suggestion, confidence),
            reported(more, t, path, i, severity, category, message, suggestion, confidence),
        ),
{
    reveal(all_in);
    let f = crate::rule::at_node(
        t,
        path,
        i,
        severity,
        category,
        message,
        suggestion,
        confidence,
    );
    assert(seq![f][0] == f);
}

proof fn lemma_in_gather(
    few: spec_fn(int) -> Seq<FindingModel>,
    many: spec_fn(int) -> Seq<FindingModel>,
    n: int,
)
    requires
        forall|i: int| 0 <= i < n ==> all_in(#[trigger] few(i), many(i)),
    ensures
        all_in(gather(few, n), gather(many, n)),
    decreases n,
{
    broadcast use {lemma_in_sum, lemma_in_itself};

    if n > 0 {
        lemma_in_gather(few, many, n - 1);
        assert(all_in(few(n - 1), many(n - 1)));
    }
}

/// The more variables of a source in JavaScript are tainted, the more is reported.
pub proof fn more_taint_reports_more_in_javascript(
    t: TreeModel,
    path: Seq<char>,
    few: Set<Seq<char>>,
    many: Set<Seq<char>>,
)
    requires
        few.subset_of(many),
    ensures
        all_in(
            gather(js_rule(t, path, few), t.len()),
            gather(js_rule(t, path, many), t.len()),
        ),
{
    broadcast use {lemma_in_sum, lemma_in_itself, lemma_in_report};

    let less = js_rule(t, path, few);
    let more = js_rule(t, path, many);
    assert forall|text: Seq<char>| any_mentioned(few, text) implies #[trigger] any_mentioned(
        many,
        text,
    ) by {
        lemma_more_names_mention_more(few, many, text);
    }
    assert forall|i: int| 0 <= i < t.len() implies all_in(#[trigger] less(i), more(i)) by {
        assert(js_tainted_argument(t, i, few) ==> js_tainted_argument(t, i, many));
        assert(js_in_tainted_call(t, i, few) ==> js_in_tainted_call(t, i, many));
    }
    lemma_in_gather(less, more, t.len());
}

/// The more variables of a source in Python are tainted, the more is reported.
pub proof fn more_taint_reports_more_in_python(
    t: TreeModel,
    path: Seq<char>,
    few: Set<Seq<char>>,
    many: Set<Seq<char>>,
)
    requires
        few.subset_of(many),
    ensures
        all_in(
            gather(py_rule(t, path, few), t.len()),
            gather(py_rule(t, path, many), t.len()),
        ),
{
    broadcast use {lemma_in_sum, lemma_in_itself, lemma_in_report};

    let less = py_rule(t, path, few);
    let more = py_rule(t, path, many);
    assert forall|text: Seq<char>| any_mentioned(few, text) implies #[trigger] any_mentioned(
        many,
        text,
    ) by {
        lemma_more_names_mention_more(few, many, text);
    }
    assert forall|i: int| 0 <= i < t.len() implies all_in(#[trigger] less(i), more(i)) by {
        assert(py_tainted_argument(t, i, few) ==> py_tainted_argument(t, i, many));
    }
    lemma_in_gather(less, more, t.len());
}

/// The more variables of a source in Java are tainted, the more is reported.
pub proof fn more_taint_reports_more_in_java(
    t: TreeModel,
    path: Seq<char>,
    few: Set<Seq<char>>,
    many: Set<Seq<char>>,
)
    requires
        few.subset_of(many),
    ensures
        all_in(
            gather(java_rule(t, path, few), t.len()),
            gather(java_rule(t, path, many), t.len()),
        ),
{
    broadcast use {lemma_in_sum, lemma_in_itself, lemma_in_report};

    let less = java_rule(t, path, few);
    let more = java_rule(t, path, many);
    assert forall|text: Seq<char>| any_mentioned(few, text) implies #[trigger] any_mentioned(
        many,
        text,
    ) by {
        lemma_more_names_mention_more(few, many, text);
    }
    assert forall|i: int| 0 <= i < t.len() implies all_in(#[trigger] less(i), more(i)) by {
        assert(java_tainted_argument(t, i, few) ==> java_tainted_argument(t, i, many));
    }
    lemma_in_gather(less, more, t.len());
}

/// Whether a list holds a finding of a category at a node.
pub open spec fn reports(
    s: Seq<FindingModel>,
    t: TreeModel,
    i: int,
    category: Seq<char>,
) -> bool {
    exists|f: FindingModel| #[trigger]
        s.contains(f) && f.category == category && f.line == t.place(i).0 && f.column == t.place(
            i,
        ).1
}

/// Every call of a function that writes without knowing how much room there is is reported,
/// wherever it stands.
pub proof fn no_unbounded_call_is_missed(t: TreeModel, path: Seq<char>, i: int)
    requires
        0 <= i < t.len(),
        called(t, i) matches Some(name) && entry(unbounded_functions(), name) is Some,
    ensures
        reports(c_scan(t, path), t, i, "buffer_overflow"@),
{
    broadcast use {lemma_in_left, lemma_in_right};

    let rule = watched_calls(t, path, unbounded_functions());
    let f = rule(i)[0];
    assert(rule(i).contains(f));
    lemma_gathered(rule, t.len(), i, f);
    assert(c_scan(t, path).contains(f));
}

/// Every call of a function that hands a command to the system is reported, wherever it stands.
pub proof fn no_command_is_missed(t: TreeModel, path: Seq<char>, i: int)
    requires
        0 <= i < t.len(),
        called(t, i) matches Some(name) && c_taint_sinks().contains(name),
    ensures
        reports(c_scan(t, path), t, i, "command_injection"@),
{
    broadcast use {lemma_in_left, lemma_in_right};

    let rule = sink_rule(t, path, c_taint_sinks());
    let f = rule(i)[0];
    assert(rule(i).contains(f));
    lemma_gathered(rule, t.len(), i, f);
    assert(c_scan(t, path).contains(f));
}

/// A handle that is closed again, by a call with the same arguments, is reported by a scan.
pub proof fn no_double_close_is_missed(t: TreeModel, path: Seq<char>, first: int, second: int)
    requires
        0 <= first < second < t.len(),
        closed(t, first) is Some,
        closed(t, second) == closed(t, first),
    ensures
        reports(c_scan(t, path), t, second, "double_close"@),
{
    broadcast use {lemma_in_left, lemma_in_right};

    second_close_is_reported(t, path, first, second);
    let rule = advanced_rule(t, path);
    let f = choose|f: FindingModel| #[trigger]
        rule(second).contains(f) && f.category == "double_close"@ && f.line == t.place(second).0
            && f.column == t.place(second).1;
    lemma_gathered(rule, t.len(), second, f);
    assert(c_scan(t, path).contains(f));
}

/// A call that works on a file, in the rest of the statement in which a file was inspected, is
/// reported by a scan.
pub proof fn no_race_is_missed(t: TreeModel, path: Seq<char>, check: int, scope: int, j: int)
    requires
        0 <= check < t.len(),
        called(t, check) matches Some(name) && inspects_file(lowercase(name)),
        t.parent(check) matches Some(p) && comes_to(t, p, scope),
        0 <= scope < j < t.subtree_end(scope) <= t.len(),
        begins_after(t, scope, j, t.nodes[check].start as int),
        called(t, j) matches Some(name) && works_on_file(lowercase(name)),
    ensures
        reports(c_scan(t, path), t, j, "toctou_race_condition"@),
{
    broadcast use {lemma_in_left, lemma_in_right};

    use_after_check_is_reported(t, path, check, scope, j);
    let rule = advanced_rule(t, path);
    let f = choose|f: FindingModel| #[trigger]
        rule(check).contains(f) && f.category == "toctou_race_condition"@ && f.line == t.place(j).0
            && f.column == t.place(j).1;
    lemma_gathered(rule, t.len(), check, f);
    assert(c_scan(t, path).contains(f));
}

/// A variable that is freed twice, with nothing said of it in between, is reported by a scan.
pub proof fn no_double_free_is_missed(
    t: TreeModel,
    path: Seq<char>,
    i: int,
    k: int,
    later: int,
    m: int,
)
    requires
        0 <= i < later < t.len(),
        frees(t, i, k),
        frees(t, later, m),
        t.text(arguments(t, later)[m]) == t.text(arguments(t, i)[k]),
        forall|n: int|
            i < n < later ==> untouched(
                #[trigger] writes(t, n),
                t.text(arguments(t, i)[k]),
            ),
    ensures
        reports(c_scan(t, path), t, later, "double_free"@),
{
    broadcast use {lemma_in_left, lemma_in_right};

    double_free_is_reported(t, path, i, k, later, m);
    let rule = flow_rule(t, path);
    let f = choose|f: FindingModel| #[trigger]
        rule(later).contains(f) && f.category == "double_free"@ && f.line == t.place(later).0
            && f.column == t.place(later).1;
    lemma_gathered(rule, t.len(), later, f);
    assert(c_scan(t, path).contains(f));
}

/// A variable that is freed, and handed to a function with nothing said of it in between, is
/// reported by a scan.
pub proof fn no_use_after_free_is_missed(
    t: TreeModel,
    path: Seq<char>,
    i: int,
    k: int,
    later: int,
    m: int,
)
    requires
        0 <= i < later < t.len(),
        frees(t, i, k),
        called(t, later) is Some,
        0 <= m < arguments(t, later).len(),
        t.text(arguments(t, later)[m]) == t.text(arguments(t, i)[k]),
        forall|n: int|
            i < n < later ==> untouched(
                #[trigger] writes(t, n),
                t.text(arguments(t, i)[k]),
            ),
    ensures
        reports(c_scan(t, path), t, later, "use_after_free"@),
{
    broadcast use {lemma_in_left, lemma_in_right};

    use_after_free_is_reported(t, path, i, k, later, m);
    let rule = flow_rule(t, path);
    let f = choose|f: FindingModel| #[trigger]
        rule(later).contains(f) && f.category == "use_after_free"@ && f.line == t.place(later).0
            && f.column == t.place(later).1;
    lemma_gathered(rule, t.len(), later, f);
    assert(c_scan(t, path).contains(f));
}

/// A dereference, with a star or with a subscript, of a variable that is known to be null and was
/// not checked is reported by a scan.
pub proof fn no_null_dereference_is_missed(t: TreeModel, path: Seq<char>, i: int)
    requires
        0 <= i < t.len(),
        dereferences(t, i),
        operand(t, i) matches Some(c) && identifier(t, c).len() > 0 && null_in(
            known_before(t, i),
            identifier(t, c),
        ) && !checked_in(known_before(t, i), identifier(t, c)),
    ensures
        reports(c_scan(t, path), t, i, "null_dereference_confirmed"@),
{
    broadcast use {lemma_in_left, lemma_in_right};

    null_dereference_is_reported(t, path, i);
    let rule = flow_rule(t, path);
    let f = choose|f: FindingModel| #[trigger]
        rule(i).contains(f) && f.category == "null_dereference_confirmed"@ && f.line == t.place(i).0
            && f.column == t.place(i).1;
    lemma_gathered(rule, t.len(), i, f);
    assert(c_scan(t, path).contains(f));
}

/// A variable that is set to null, by an assignment or by its declaration, and which is
/// dereferenced with nothing said of it in between, is reported by a scan.
pub proof fn no_dereference_after_null_is_missed(
    t: TreeModel,
    path: Seq<char>,
    i: int,
    name: Seq<char>,
    later: int,
)
    requires
        0 <= i < later < t.len(),
        nulled(t, i) == Some(name),
        name.len() > 0,
        dereferences(t, later),
        operand(t, later) matches Some(c) && identifier(t, c) == name,
        forall|m: int| i < m < later ==> untouched(#[trigger] writes(t, m), name),
    ensures
        reports(c_scan(t, path), t, later, "null_dereference_confirmed"@),
{
    null_stays_null(t, i, name, later);
    no_null_dereference_is_missed(t, path, later);
}

/// Every call of a function that takes what a user controls and hands commands to the system, by
/// the source itself or by the library, is reported by a scan.
pub proof fn no_dangerous_composition_is_missed(t: TreeModel, path: Seq<char>, i: int)
    requires
        0 <= i < t.len(),
        called(t, i) matches Some(name) && (summary_of(
            name,
            library_summaries(),
            local_summaries(t, t.len()),
        ) matches Some(s) && s.takes_user_input && s.calls_system),
    ensures
        reports(c_scan(t, path), t, i, "tainted_system_call"@),
{
    broadcast use {lemma_in_left, lemma_in_right};

    let rule = cross_rule(t, path, library_summaries(), local_summaries(t, t.len()));
    let f = rule(i).last();
    assert(rule(i)[rule(i).len() - 1] == f);
    assert(rule(i).contains(f));
    lemma_gathered(rule, t.len(), i, f);
    assert(c_scan(t, path).contains(f));
}

/// Whether the argument number `k` of the call at the node `i` is a variable that the node `j` sets
/// to a product, and that no node sets after it.
pub open spec fn sized_by_product(t: TreeModel, i: int, j: int, k: int) -> bool {
    &&& 0 <= j < i
    &&& 0 <= k < arguments(t, i).len()
    &&& product(t, j) == Some(t.text(arguments(t, i)[k]))
    &&& t.subtree_end(j) <= i
    &&& forall|m: int|
        j < m < i ==> !#[trigger] sets_before(t, m, t.text(arguments(t, i)[k]), i)
}

/// A product that sizes an allocation is reported by a scan: where it stands in the call, and
/// where an argument is a variable that was set to it before, and to nothing else since.
pub proof fn no_overflowing_allocation_is_missed(t: TreeModel, path: Seq<char>, i: int)
    requires
        0 <= i < t.len(),
        called(t, i) matches Some(name) && allocator(lowercase(name)),
        field_text(t, i, "arguments"@) matches Some(args) && (mentions(args, "*"@) || mentions(
            args,
            "<<"@,
        ) || exists|j: int, k: int| #[trigger] sized_by_product(t, i, j, k)),
    ensures
        reports(c_scan(t, path), t, i, "integer_overflow_allocation"@),
{
    broadcast use {lemma_in_left, lemma_in_right};

    let m = remembered(t, i);
    let name = called(t, i)->0;
    let args = field_text(t, i, "arguments"@)->0;
    let sizes = size_findings(t, path, i, name, args);
    let f = sizes[0];
    if !mentions(args, "*"@) && !mentions(args, "<<"@) {
        let (j, k) = choose|j: int, k: int| #[trigger] sized_by_product(t, i, j, k);
        product_lasts(t, t.text(arguments(t, i)[k]), j, i, i);
        assert(product_argument(t, i));
    }
    assert(sizes.contains(f));
    let rule = advanced_rule(t, path);
    assert(argument_findings(
        t,
        path,
        i,
        name,
        lowercase(name),
        args,
        lowercase(args),
        m,
    ).contains(f));
    assert(rule(i).contains(f));
    lemma_gathered(rule, t.len(), i, f);
    assert(c_scan(t, path).contains(f));
}

/// In JavaScript every call of `eval` with tainted arguments is reported.
pub proof fn no_tainted_eval_is_missed_in_javascript(t: TreeModel, path: Seq<char>, i: int)
    requires
        0 <= i < t.len(),
        called(t, i) matches Some(name) && lowercase(name) == "eval"@,
        js_tainted_argument(t, i, js_tainted(t)),
    ensures
        reports(js_scan(t, path), t, i, "js_tainted_eval"@),
{
    broadcast use {lemma_in_left, lemma_in_right};

    let rule = js_rule(t, path, js_tainted(t));
    let f = rule(i)[0];
    assert(rule(i).contains(f));
    lemma_gathered(rule, t.len(), i, f);
}

/// In Python every call of `exec` with tainted arguments is reported.
pub proof fn no_tainted_exec_is_missed_in_python(t: TreeModel, path: Seq<char>, i: int)
    requires
        0 <= i < t.len(),
        t.is(i, "call"@),
        field_text(t, i, "function"@) matches Some(name) && lowercase(name) == "exec"@,
        py_tainted_argument(t, i, py_tainted(t)),
    ensures
        reports(py_scan(t, path), t, i, "python_tainted_exec"@),
{
    broadcast use {lemma_in_left, lemma_in_right};

    let name = field_text(t, i, "function"@)->0;
    let rule = py_rule(t, path, py_tainted(t));
    let f = at_node(
        t,
        path,
        i,
        Severity::Critical,
        "python_tainted_exec"@,
        "exec() called with user input"@,
        "Never execute user input - massive RCE risk"@,
        96,
    );
    assert(seq![f][0] == f);
    assert(seq![f].contains(f));
    assert(py_call_findings(t, path, i, name, lowercase(name), py_tainted(t)).contains(f));
    assert(rule(i).contains(f));
    lemma_gathered(rule, t.len(), i, f);
}

/// In Java every call of `exec` with tainted arguments is reported.
pub proof fn no_tainted_exec_is_missed_in_java(t: TreeModel, path: Seq<char>, i: int)
    requires
        0 <= i < t.len(),
        t.is(i, "method_invocation"@),
        field_text(t, i, "name"@) matches Some(name) && lowercase(name) == "exec"@,
        java_tainted_argument(t, i, java_tainted(t)),
    ensures
        reports(java_scan(t, path), t, i, "java_command_injection"@),
{
    broadcast use {lemma_in_left, lemma_in_right};

    let name = field_text(t, i, "name"@)->0;
    let rule = java_rule(t, path, java_tainted(t));
    let f = at_node(
        t,
        path,
        i,
        Severity::Critical,
        "java_command_injection"@,
        "Runtime.exec with user input - command injection"@,
        "Use ProcessBuilder with array, validate command"@,
        91,
    );
    assert(seq![f][0] == f);
    assert(seq![f].contains(f));
    assert(java_call_findings(
        t,
        path,
        i,
        lowercase(name),
        java_on_object_stream(t, i),
        java_tainted(t),
    ).contains(f));
    assert(rule(i).contains(f));
    lemma_gathered(rule, t.len(), i, f);
}

} // verus!
