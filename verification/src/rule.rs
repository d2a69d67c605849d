//! What the rules share: findings at a node, and calls.
use vstd::prelude::*;

use crate::finding::{views, Finding, FindingModel, Severity};
use crate::syntax::{SyntaxTree, TreeModel};

verus! {

/// A finding at a node of the tree.
pub open spec fn at_node(
    t: TreeModel,
    path: Seq<char>,
    i: int,
    severity: Severity,
    category: Seq<char>,
    message: Seq<char>,
    suggestion: Seq<char>,
    confidence: nat,
) -> FindingModel {
    FindingModel {
        file: path,
        line: t.place(i).0,
        column: t.place(i).1,
        severity,
        category,
        message,
        suggestion: Some(suggestion),
        confidence,
    }
}

/// A finding on a line of the source, given by its number.
pub open spec fn on_line(
    path: Seq<char>,
    line: nat,
    severity: Severity,
    category: Seq<char>,
    message: Seq<char>,
    suggestion: Seq<char>,
    confidence: nat,
) -> FindingModel {
    FindingModel {
        file: path,
        line,
        column: 0,
        severity,
        category,
        message,
        suggestion: Some(suggestion),
        confidence,
    }
}

/// A finding at the node `i`.
pub fn finding_at(
    tree: &SyntaxTree,
    path: &str,
    i: usize,
    severity: Severity,
    category: &str,
    message: String,
    suggestion: String,
    confidence: u8,
) -> (r: Finding)
    requires
        i < tree@.len(),
    ensures
        r@ == at_node(
            tree@,
            path@,
            i as int,
            severity,
            category@,
            message@,
            suggestion@,
            confidence as nat,
        ),
{
    let (line, column) = tree.place(i);
    Finding {
        file: path.to_owned(),
        line,
        column,
        severity,
        category: category.to_owned(),
        message,
        suggestion: Some(suggestion),
        confidence,
    }
}

/// A finding at a node, where `cond` holds.
pub open spec fn reported(
    cond: bool,
    t: TreeModel,
    path: Seq<char>,
    i: int,
    severity: Severity,
    category: Seq<char>,
    message: Seq<char>,
    suggestion: Seq<char>,
    confidence: nat,
) -> Seq<FindingModel> {
    if cond {
        seq![at_node(t, path, i, severity, category, message, suggestion, confidence)]
    } else {
        Seq::empty()
    }
}

/// Adds a finding at the node `i`, where `cond` holds.
pub fn report_if(
    findings: &mut Vec<Finding>,
    cond: bool,
    tree: &SyntaxTree,
    path: &str,
    i: usize,
    severity: Severity,
    category: &str,
    message: &str,
    suggestion: &str,
    confidence: u8,
)
    requires
        i < tree@.len(),
    ensures
        views(final(findings)@) == views(old(findings)@) + reported(
            cond,
            tree@,
            path@,
            i as int,
            severity,
            category@,
            message@,
            suggestion@,
            confidence as nat,
        ),
{
    let ghost before = views(findings@);
    if cond {
        let f = finding_at(
            tree,
            path,
            i,
            severity,
            category,
            message.to_owned(),
            suggestion.to_owned(),
            confidence,
        );
        findings.push(f);
        assert(views(findings@) =~= before.push(f@));
        assert(views(findings@) =~= before + seq![f@]);
    } else {
        assert(before + Seq::<FindingModel>::empty() =~= before);
    }
}

/// A finding on the line `line`.
pub fn finding_on(
    path: &str,
    line: usize,
    severity: Severity,
    category: &str,
    message: String,
    suggestion: &str,
    confidence: u8,
) -> (r: Finding)
    ensures
        r@ == on_line(
            path@,
            line as nat,
            severity,
            category@,
            message@,
            suggestion@,
            confidence as nat,
        ),
{
    Finding {
        file: path.to_owned(),
        line,
        column: 0,
        severity,
        category: category.to_owned(),
        message,
        suggestion: Some(suggestion.to_owned()),
        confidence,
    }
}

/// The text of the first child that fills the field `name`.
pub open spec fn field_text(t: TreeModel, i: int, name: Seq<char>) -> Option<Seq<char>> {
    match t.field(i, name) {
        Some(c) => Some(t.text(c)),
        None => None,
    }
}

/// The text of the function that a call expression calls.
pub open spec fn called(t: TreeModel, i: int) -> Option<Seq<char>> {
    if t.is(i, "call_expression"@) {
        field_text(t, i, "function"@)
    } else {
        None
    }
}

/// The text that an optional string slice holds.
pub open spec fn text_view(s: Option<&str>) -> Option<Seq<char>> {
    match s {
        Some(x) => Some(x@),
        None => None,
    }
}

/// The text of the first child of the node `i` that fills the field `name`.
pub fn text_of_field<'a>(tree: &SyntaxTree<'a>, i: usize, name: &str) -> (r: Option<&'a str>)
    requires
        i < tree@.len(),
    ensures
        text_view(r) == field_text(tree@, i as int, name@),
{
    match tree.child_by_field_name(i, name) {
        Some(c) => Some(tree.text(c)),
        None => None,
    }
}

/// The text of the function that the node `i` calls, where it is a call expression.
pub fn called_function<'a>(tree: &SyntaxTree<'a>, i: usize) -> (r: Option<&'a str>)
    requires
        i < tree@.len(),
    ensures
        text_view(r) == called(tree@, i as int),
{
    if tree.is(i, "call_expression") {
        text_of_field(tree, i, "function")
    } else {
        None
    }
}

/// Whether a token is a parenthesis or a comma, which stand between the arguments of a call.
pub open spec fn punctuation(t: TreeModel, i: int) -> bool {
    t.is(i, "("@) || t.is(i, ")"@) || t.is(i, ","@)
}

/// Whether the node `i` is a parenthesis or a comma.
pub fn is_punctuation(tree: &SyntaxTree, i: usize) -> (r: bool)
    requires
        i < tree@.len(),
    ensures
        r == punctuation(tree@, i as int),
{
    tree.is(i, "(") || tree.is(i, ")") || tree.is(i, ",")
}

/// The three allocators of C that a pointer comes from.
pub open spec fn allocator(name: Seq<char>) -> bool {
    name == "malloc"@ || name == "calloc"@ || name == "realloc"@
}

/// Whether `name` is `malloc`, `calloc` or `realloc`.
pub fn is_allocator(name: &str) -> (r: bool)
    ensures
        r == allocator(name@),
{
    crate::text::same(name, "malloc") || crate::text::same(name, "calloc") || crate::text::same(
        name,
        "realloc",
    )
}

/// What is reported is in what is reported.
pub broadcast proof fn lemma_in_report(
    cond: bool,
    t: TreeModel,
    path: Seq<char>,
    i: int,
    severity: Severity,
    category: Seq<char>,
    message: Seq<char>,
    suggestion: Seq<char>,
    confidence: nat,
)
    requires
        cond,
    ensures
        (#[trigger] reported(
            cond,
            t,
            path,
            i,
            severity,
            category,
            message,
            suggestion,
            confidence,
        )).contains(
            at_node(t, path, i, severity, category, message, suggestion, confidence),
        ),
{
    let f = at_node(t, path, i, severity, category, message, suggestion, confidence);
    assert(seq![f][0] == f);
}

} // verus!
