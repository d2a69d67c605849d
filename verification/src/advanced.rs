//! The checks on C and C++ sources that remember what came before.
use vstd::prelude::*;

use crate::dataflow::{arguments, DataFlowAnalyzer};
use crate::finding::{
    extend, gather, lemma_in_left, lemma_in_right, views, Finding, FindingModel, Severity,
};
use crate::names::{
    any_mentioned, collected, lemma_collected_none, lemma_collected_step, with_name, NameSet,
};
use crate::outside::{lowercase, to_lowercase};
use crate::rule::{
    allocator, at_node, called, called_function, field_text, is_allocator, report_if, reported,
    text_of_field, text_view,
};
use crate::syntax::{indices, lemma_above, lemma_end_from, SyntaxTree, TreeModel};
use crate::text::{contains, glue, glue3, mentions, same, strings};

verus! {

/// Whether a function, given by its name in lower case, inspects a file.
pub open spec fn inspects_file(lower: Seq<char>) -> bool {
    ||| mentions(lower, "access"@)
    ||| mentions(lower, "stat"@)
    ||| mentions(lower, "lstat"@)
    ||| mentions(lower, "fstat"@)
}

/// Whether a function, given by its name in lower case, works on a file that it is given by name.
pub open spec fn works_on_file(lower: Seq<char>) -> bool {
    ||| mentions(lower, "fopen"@)
    ||| mentions(lower, "open"@)
    ||| mentions(lower, "chown"@)
    ||| mentions(lower, "chmod"@)
    ||| mentions(lower, "unlink"@)
    ||| mentions(lower, "rename"@)
}

/// What a call that works on a file after the check `check` is reported as.
pub open spec fn use_after_check(t: TreeModel, path: Seq<char>, i: int, check: Seq<char>) -> Seq<
    FindingModel,
> {
    match called(t, i) {
        Some(name) => reported(
            works_on_file(lowercase(name)),
            t,
            path,
            i,
            Severity::High,
            "toctou_race_condition"@,
            "TOCTOU: "@ + name + " after "@ + check
                + " - file may change between check and use"@,
            "Use fstat/fchown on file descriptor instead, or O_NOFOLLOW"@,
            85,
        ),
        None => Seq::empty(),
    }
}

/// The uses of files among the nodes from `j` to `end` that begin after the byte `at`; a node that
/// begins before it is left out with all that is below it.
pub open spec fn uses_after_check(
    t: TreeModel,
    path: Seq<char>,
    check: Seq<char>,
    at: int,
    j: int,
    end: int,
) -> Seq<FindingModel>
    decreases t.len() - j,
{
    if j >= end || end > t.len() || j < 0 {
        Seq::empty()
    } else if t.nodes[j].start > at {
        use_after_check(t, path, j, check) + uses_after_check(t, path, check, at, j + 1, end)
    } else {
        proof {
            lemma_end_from(t.nodes, t.nodes[j].depth, j + 1);
        }
        uses_after_check(t, path, check, at, t.subtree_end(j), end)
    }
}

/// Whether a node is an expression that a larger one, or a statement, is made of.
pub open spec fn part_of_statement(t: TreeModel, i: int) -> bool {
    ||| t.is(i, "binary_expression"@)
    ||| t.is(i, "unary_expression"@)
    ||| t.is(i, "assignment_expression"@)
    ||| t.is(i, "parenthesized_expression"@)
}

/// The uses of files after a check, below the node `scope` and, where that is a part of a
/// statement, in the rest of the statement.
pub open spec fn races(t: TreeModel, path: Seq<char>, check: Seq<char>, at: int, scope: int) -> Seq<
    FindingModel,
>
    decreases scope,
{
    let below = uses_after_check(t, path, check, at, scope + 1, t.subtree_end(scope));
    if scope > 0 && part_of_statement(t, scope) {
        match t.parent(scope) {
            Some(p) => {
                proof {
                    lemma_above(t.nodes, t.nodes[scope].depth, scope);
                }
                below + races(t, path, check, at, p)
            },
            None => below,
        }
    } else {
        below
    }
}

/// The uses of files that come after the check at the node `i`.
pub open spec fn races_after(t: TreeModel, path: Seq<char>, i: int, name: Seq<char>) -> Seq<
    FindingModel,
> {
    match t.parent(i) {
        Some(p) => races(t, path, name, t.nodes[i].start as int, p),
        None => Seq::empty(),
    }
}

/// Whether an expression is a product or a shift to the left.
pub open spec fn grows(t: TreeModel, i: int) -> bool {
    t.is(i, "binary_expression"@) && (field_text(t, i, "operator"@) == Some("*"@) || field_text(
        t,
        i,
        "operator"@,
    ) == Some("<<"@))
}

/// The variable that a node sets to a product or to a shift to the left.
pub open spec fn product(t: TreeModel, i: int) -> Option<Seq<char>> {
    let (name, value) = if t.is(i, "init_declarator"@) {
        (field_text(t, i, "declarator"@), t.field(i, "value"@))
    } else if t.is(i, "assignment_expression"@) {
        (field_text(t, i, "left"@), t.field(i, "right"@))
    } else {
        (None, None)
    };
    match value {
        Some(v) => if grows(t, v) {
            name
        } else {
            None
        },
        None => None,
    }
}

/// The variable that a node declares or assigns to.
pub open spec fn set_name(t: TreeModel, i: int) -> Option<Seq<char>> {
    if t.is(i, "init_declarator"@) {
        field_text(t, i, "declarator"@)
    } else if t.is(i, "assignment_expression"@) {
        field_text(t, i, "left"@)
    } else if t.is(i, "declaration"@) || t.is(i, "parameter_declaration"@) {
        field_text(t, i, "declarator"@)
    } else {
        None
    }
}

/// Whether the node `j` declares or assigns to the variable `name`, and is done with before the
/// node `i`.
pub open spec fn sets_before(t: TreeModel, j: int, name: Seq<char>, i: int) -> bool {
    set_name(t, j) == Some(name) && t.subtree_end(j) <= i
}

/// Whether the last of the first `n` nodes that set a variable before the node `i` sets it to a
/// product.
pub open spec fn holds_product(t: TreeModel, name: Seq<char>, n: int, i: int) -> bool
    decreases n,
{
    if n <= 0 {
        false
    } else if sets_before(t, n - 1, name, i) {
        product(t, n - 1) == Some(name)
    } else {
        holds_product(t, name, n - 1, i)
    }
}

/// Whether an argument of a call is a variable that holds a product.
pub open spec fn product_argument(t: TreeModel, i: int) -> bool {
    exists|k: int|
        0 <= k < arguments(t, i).len() && holds_product(
            t,
            t.text(#[trigger] arguments(t, i)[k]),
            i,
            i,
        )
}

/// Whether a function, given by its name in lower case, closes a handle.
pub open spec fn closes(lower: Seq<char>) -> bool {
    lower == "fclose"@ || lower == "close"@
}

/// The arguments of a call that closes a handle.
pub open spec fn closed(t: TreeModel, i: int) -> Option<Seq<char>> {
    match called(t, i) {
        Some(name) => if closes(lowercase(name)) {
            field_text(t, i, "arguments"@)
        } else {
            None
        },
        None => None,
    }
}

/// The arguments of the calls that close handles, node by node.
pub open spec fn closed_rule(t: TreeModel) -> spec_fn(int) -> Option<Seq<char>> {
    |i: int| closed(t, i)
}

/// Whether a text, in lower case, calls something that gives what a user controls.
pub open spec fn tainted_source_lower(lower: Seq<char>) -> bool {
    ||| mentions(lower, "argv["@)
    ||| mentions(lower, "getenv("@)
    ||| mentions(lower, "fgets("@)
    ||| mentions(lower, "scanf"@)
    ||| mentions(lower, "read("@)
    ||| mentions(lower, "recv("@)
}

/// The variable that a node taints.
pub open spec fn tainted(t: TreeModel, i: int) -> Option<Seq<char>> {
    if t.is(i, "parenthesized_expression"@) || t.is(i, "assignment_expression"@) {
        match (field_text(t, i, "left"@), field_text(t, i, "right"@)) {
            (Some(lhs), Some(rhs)) => if tainted_source_lower(lowercase(rhs)) {
                Some(lhs)
            } else {
                None
            },
            _ => None,
        }
    } else {
        None
    }
}

/// The variables that the nodes taint, node by node.
pub open spec fn tainted_rule(t: TreeModel) -> spec_fn(int) -> Option<Seq<char>> {
    |i: int| tainted(t, i)
}

/// Whether an expression, given as it stands and in lower case, holds what a user controls.
pub open spec fn externally_tainted(
    text: Seq<char>,
    lower: Seq<char>,
    names: Set<Seq<char>>,
) -> bool {
    ||| mentions(lower, "argv["@)
    ||| mentions(lower, "getenv"@)
    ||| mentions(lower, "fgets"@)
    ||| mentions(lower, "scanf"@)
    ||| mentions(lower, "read("@)
    ||| any_mentioned(names, text)
}

/// Whether a function, given by its name in lower case, runs a command.
pub open spec fn runs_command(lower: Seq<char>) -> bool {
    lower == "system"@ || lower == "popen"@ || lower == "execl"@
}

/// What is remembered of the nodes before one.
#[verifier::ext_equal]
pub struct AdvancedModel {
    /// The names of the functions that inspected files.
    pub checks: Seq<Seq<char>>,
    /// The line of the last of them.
    pub check_line: nat,
    /// The arguments of the calls that closed handles.
    pub closed: Set<Seq<char>>,
    /// The variables that a user controls.
    pub tainted: Set<Seq<char>>,
}

/// What is remembered after a node, where `m` was remembered before it.
pub open spec fn learned(t: TreeModel, i: int, m: AdvancedModel) -> AdvancedModel {
    let check = match called(t, i) {
        Some(name) => inspects_file(lowercase(name)),
        None => false,
    };
    AdvancedModel {
        checks: if check {
            m.checks.push(called(t, i)->0)
        } else {
            m.checks
        },
        check_line: if check {
            t.place(i).0
        } else {
            m.check_line
        },
        closed: with_name(m.closed, closed(t, i)),
        tainted: with_name(m.tainted, tainted(t, i)),
    }
}

/// What is remembered of the first `n` nodes.
pub open spec fn remembered(t: TreeModel, n: int) -> AdvancedModel
    decreases n,
{
    if n <= 0 {
        AdvancedModel {
            checks: Seq::empty(),
            check_line: 0,
            closed: Set::empty(),
            tainted: Set::empty(),
        }
    } else {
        learned(t, n - 1, remembered(t, n - 1))
    }
}

/// The sets that are remembered hold what the nodes before gave them, and nothing else.
pub proof fn remembered_names(t: TreeModel, n: int)
    requires
        n >= 0,
    ensures
        remembered(t, n).closed == collected(closed_rule(t), n),
        remembered(t, n).tainted == collected(tainted_rule(t), n),
    decreases n,
{
    if n == 0 {
        lemma_collected_none(closed_rule(t));
        lemma_collected_none(tainted_rule(t));
    } else {
        remembered_names(t, n - 1);
        lemma_collected_step(closed_rule(t), n - 1);
        lemma_collected_step(tainted_rule(t), n - 1);
    }
}

/// What the size that an allocator is called with is reported as.
pub open spec fn size_findings(
    t: TreeModel,
    path: Seq<char>,
    i: int,
    name: Seq<char>,
    args: Seq<char>,
) -> Seq<FindingModel> {
    reported(
        mentions(args, "*"@) || mentions(args, "<<"@) || product_argument(t, i),
        t,
        path,
        i,
        Severity::Critical,
        "integer_overflow_allocation"@,
        "Integer overflow risk in "@ + name + " size calculation"@,
        "Check for overflow: if (n > SIZE_MAX / size) return NULL"@,
        88,
    ) + reported(
        mentions(args, "-"@) && !mentions(args, "sizeof"@),
        t,
        path,
        i,
        Severity::High,
        "signed_size_calculation"@,
        "Signed arithmetic in "@ + name + " size may underflow"@,
        "Cast to size_t before arithmetic"@,
        75,
    )
}

/// What a call is reported as for its arguments: `name` and `args` as they stand, and both in
/// lower case.
pub open spec fn argument_findings(
    t: TreeModel,
    path: Seq<char>,
    i: int,
    name: Seq<char>,
    lower: Seq<char>,
    args: Seq<char>,
    args_lower: Seq<char>,
    m: AdvancedModel,
) -> Seq<FindingModel> {
    (if allocator(lower) {
        size_findings(t, path, i, name, args)
    } else {
        Seq::empty()
    }) + reported(
        closes(lower) && m.closed.contains(args),
        t,
        path,
        i,
        Severity::Critical,
        "double_close"@,
        "Resource "@ + args + " may be closed twice"@,
        "Set handle to NULL after close, check before closing"@,
        82,
    ) + reported(
        runs_command(lower) && externally_tainted(args, args_lower, m.tainted),
        t,
        path,
        i,
        Severity::Critical,
        "command_injection_tainted"@,
        name + " called with potentially tainted input"@,
        "Validate command against whitelist, use execve with full path"@,
        91,
    )
}

/// What a call is reported as.
pub open spec fn advanced_call_findings(t: TreeModel, path: Seq<char>, i: int, m: AdvancedModel) -> Seq<
    FindingModel,
> {
    match called(t, i) {
        Some(name) => (if inspects_file(lowercase(name)) {
            races_after(t, path, i, name)
        } else {
            Seq::empty()
        }) + (match field_text(t, i, "arguments"@) {
            Some(args) => argument_findings(
                t,
                path,
                i,
                name,
                lowercase(name),
                args,
                lowercase(args),
                m,
            ),
            None => Seq::empty(),
        }),
        None => Seq::empty(),
    }
}

/// Whether a comparison admits a length itself.
pub open spec fn off_by_one(text: Seq<char>) -> bool {
    mentions(text, "<="@) && (mentions(text, "sizeof"@) || mentions(text, "len"@) || mentions(
        text,
        "count"@,
    ))
}

/// What a node is reported as, given what is remembered.
pub open spec fn advanced_findings(t: TreeModel, path: Seq<char>, i: int, m: AdvancedModel) -> Seq<
    FindingModel,
> {
    if t.is(i, "call_expression"@) {
        advanced_call_findings(t, path, i, m)
    } else {
        reported(
            t.is(i, "binary_expression"@) && off_by_one(t.text(i)),
            t,
            path,
            i,
            Severity::Medium,
            "potential_off_by_one"@,
            "Check for off-by-one error: <= with array bounds"@,
            "Verify <= is correct, often should be <"@,
            65,
        )
    }
}

/// What the nodes are reported as, node by node.
pub open spec fn advanced_rule(t: TreeModel, path: Seq<char>) -> spec_fn(int) -> Seq<FindingModel> {
    |i: int| advanced_findings(t, path, i, remembered(t, i))
}

/// What the analysis remembers of the nodes that it has seen.
pub struct AdvancedAnalysisState {
    pub check_operations: Vec<String>,
    pub check_line: usize,
    pub closed_resources: NameSet,
    pub tainted_vars: NameSet,
}

impl View for AdvancedAnalysisState {
    type V = AdvancedModel;

    open spec fn view(&self) -> AdvancedModel {
        AdvancedModel {
            checks: strings(self.check_operations@),
            check_line: self.check_line as nat,
            closed: self.closed_resources@,
            tainted: self.tainted_vars@,
        }
    }
}

impl AdvancedAnalysisState {
    /// Nothing is remembered.
    pub fn new() -> (r: AdvancedAnalysisState)
        ensures
            r@ == (AdvancedModel {
                checks: Seq::empty(),
                check_line: 0,
                closed: Set::empty(),
                tainted: Set::empty(),
            }),
    {
        let r = AdvancedAnalysisState {
            check_operations: Vec::new(),
            check_line: 0,
            closed_resources: NameSet::new(),
            tainted_vars: NameSet::new(),
        };
        assert(r@.checks =~= Seq::<Seq<char>>::empty());
        r
    }
}

/// Looks in C and C++ sources for what shows only over several places.
pub struct AdvancedSecurityAnalyzer;

impl AdvancedSecurityAnalyzer {
    /// What is wrong in a source.
    pub fn analyze(tree: &SyntaxTree, path: &str) -> (r: Vec<Finding>)
        ensures
            views(r@) == gather(advanced_rule(tree@, path@), tree@.len()),
    {
        let mut findings: Vec<Finding> = Vec::new();
        let mut state = AdvancedAnalysisState::new();
        let n: usize = tree.len();
        let mut i: usize = 0;
        assert(views(findings@) =~= Seq::<FindingModel>::empty());
        while i < n
            invariant
                i <= n,
                n == tree@.len(),
                state@ == remembered(tree@, i as int),
                views(findings@) == gather(advanced_rule(tree@, path@), i as int),
            decreases n - i,
        {
            Self::analyze_with_state(tree, path, i, &mut state, &mut findings);
            i = i + 1;
        }
        findings
    }

    /// Reports what is wrong at one node, and remembers it.
    pub fn analyze_with_state(
        tree: &SyntaxTree,
        path: &str,
        i: usize,
        state: &mut AdvancedAnalysisState,
        findings: &mut Vec<Finding>,
    )
        requires
            i < tree@.len(),
        ensures
            views(final(findings)@) == views(old(findings)@) + advanced_findings(
                tree@,
                path@,
                i as int,
                old(state)@,
            ),
            final(state)@ == learned(tree@, i as int, old(state)@),
    {
        if tree.is(i, "call_expression") {
            extend(findings, Self::check_call(tree, path, i, state));
        } else {
            report_if(
                findings,
                tree.is(i, "binary_expression") && Self::is_off_by_one(tree.text(i)),
                tree,
                path,
                i,
                Severity::Medium,
                "potential_off_by_one",
                "Check for off-by-one error: <= with array bounds",
                "Verify <= is correct, often should be <",
                65,
            );
        }
        Self::remember(tree, i, state);
    }

    fn is_off_by_one(text: &str) -> (r: bool)
        ensures
            r == off_by_one(text@),
    {
        contains(text, "<=") && (contains(text, "sizeof") || contains(text, "len") || contains(
            text,
            "count",
        ))
    }

    fn remember(tree: &SyntaxTree, i: usize, state: &mut AdvancedAnalysisState)
        requires
            i < tree@.len(),
        ensures
            final(state)@ == learned(tree@, i as int, old(state)@),
    {
        if let Some(name) = called_function(tree, i) {
            let lower = to_lowercase(name);
            if Self::is_file_check(&lower) {
                let ghost before = strings(state.check_operations@);
                let kept = name.to_owned();
                state.check_operations.push(kept);
                assert(strings(state.check_operations@) =~= before.push(name@));
                let (line, _column) = tree.place(i);
                state.check_line = line;
            }
            if same(&lower, "fclose") || same(&lower, "close") {
                if let Some(args) = text_of_field(tree, i, "arguments") {
                    state.closed_resources.insert(args);
                }
            }
        }
        if let Some(name) = Self::tainted_by(tree, i) {
            state.tainted_vars.insert(name);
        }
        assert(state@ =~= learned(tree@, i as int, old(state)@));
    }

    fn tainted_by<'a>(tree: &SyntaxTree<'a>, i: usize) -> (r: Option<&'a str>)
        requires
            i < tree@.len(),
        ensures
            text_view(r) == tainted(tree@, i as int),
    {
        if tree.is(i, "parenthesized_expression") || tree.is(i, "assignment_expression") {
            if let Some(lhs) = text_of_field(tree, i, "left") {
                if let Some(rhs) = text_of_field(tree, i, "right") {
                    let lower = to_lowercase(rhs);
                    if Self::is_tainted_source(&lower) {
                        return Some(lhs);
                    }
                }
            }
        }
        None
    }

    fn product_in<'a>(tree: &SyntaxTree<'a>, i: usize) -> (r: Option<&'a str>)
        requires
            i < tree@.len(),
        ensures
            text_view(r) == product(tree@, i as int),
    {
        if tree.is(i, "init_declarator") {
            match tree.child_by_field_name(i, "value") {
                Some(v) => if Self::is_product(tree, v) {
                    text_of_field(tree, i, "declarator")
                } else {
                    None
                },
                None => None,
            }
        } else if tree.is(i, "assignment_expression") {
            match tree.child_by_field_name(i, "right") {
                Some(v) => if Self::is_product(tree, v) {
                    text_of_field(tree, i, "left")
                } else {
                    None
                },
                None => None,
            }
        } else {
            None
        }
    }

    fn is_product(tree: &SyntaxTree, i: usize) -> (r: bool)
        requires
            i < tree@.len(),
        ensures
            r == grows(tree@, i as int),
    {
        if tree.is(i, "binary_expression") {
            match text_of_field(tree, i, "operator") {
                Some(op) => same(op, "*") || same(op, "<<"),
                None => false,
            }
        } else {
            false
        }
    }

    fn check_call(tree: &SyntaxTree, path: &str, i: usize, state: &AdvancedAnalysisState) -> (r:
        Vec<Finding>)
        requires
            i < tree@.len(),
        ensures
            views(r@) == advanced_call_findings(tree@, path@, i as int, state@),
    {
        let mut findings: Vec<Finding> = Vec::new();
        assert(views(findings@) =~= Seq::<FindingModel>::empty());
        if let Some(name) = called_function(tree, i) {
            let lower = to_lowercase(name);
            if Self::is_file_check(&lower) {
                if let Some(p) = tree.parent(i) {
                    Self::check_for_toctou(tree, path, name, tree.start_byte(i), p, &mut findings);
                }
            }
            if let Some(args) = text_of_field(tree, i, "arguments") {
                let args_lower = to_lowercase(args);
                let more = Self::check_arguments(
                    tree,
                    path,
                    i,
                    name,
                    &lower,
                    args,
                    &args_lower,
                    state,
                );
                extend(&mut findings, more);
            }
        }
        findings
    }

    /// Reports a call for its arguments, given its name and them as they stand and in lower case.
    pub fn check_arguments(
        tree: &SyntaxTree,
        path: &str,
        i: usize,
        name: &str,
        lower: &str,
        args: &str,
        args_lower: &str,
        state: &AdvancedAnalysisState,
    ) -> (r: Vec<Finding>)
        requires
            i < tree@.len(),
        ensures
            views(r@) == argument_findings(
                tree@,
                path@,
                i as int,
                name@,
                lower@,
                args@,
                args_lower@,
                state@,
            ),
    {
        let mut findings: Vec<Finding> = Vec::new();
        assert(views(findings@) =~= Seq::<FindingModel>::empty());
        if is_allocator(lower) {
            findings = Self::check_size(tree, path, i, name, args);
        }
        let message = glue3("Resource ", args, " may be closed twice");
        report_if(
            &mut findings,
            (same(lower, "fclose") || same(lower, "close")) && state.closed_resources.contains(
                args,
            ),
            tree,
            path,
            i,
            Severity::Critical,
            "double_close",
            &message,
            "Set handle to NULL after close, check before closing",
            82,
        );
        let message = glue(name, " called with potentially tainted input");
        report_if(
            &mut findings,
            (same(lower, "system") || same(lower, "popen") || same(lower, "execl"))
                && Self::is_externally_tainted(args, args_lower, &state.tainted_vars),
            tree,
            path,
            i,
            Severity::Critical,
            "command_injection_tainted",
            &message,
            "Validate command against whitelist, use execve with full path",
            91,
        );
        findings
    }

    fn check_size(
        tree: &SyntaxTree,
        path: &str,
        i: usize,
        name: &str,
        args: &str,
    ) -> (r: Vec<Finding>)
        requires
            i < tree@.len(),
        ensures
            views(r@) == size_findings(tree@, path@, i as int, name@, args@),
    {
        let mut findings: Vec<Finding> = Vec::new();
        assert(views(findings@) =~= Seq::<FindingModel>::empty());
        let message = glue3("Integer overflow risk in ", name, " size calculation");
        report_if(
            &mut findings,
            contains(args, "*") || contains(args, "<<") || Self::has_product_argument(tree, i),
            tree,
            path,
            i,
            Severity::Critical,
            "integer_overflow_allocation",
            &message,
            "Check for overflow: if (n > SIZE_MAX / size) return NULL",
            88,
        );
        let message = glue3("Signed arithmetic in ", name, " size may underflow");
        report_if(
            &mut findings,
            contains(args, "-") && !contains(args, "sizeof"),
            tree,
            path,
            i,
            Severity::High,
            "signed_size_calculation",
            &message,
            "Cast to size_t before arithmetic",
            75,
        );
        findings
    }

    fn set_by<'a>(tree: &SyntaxTree<'a>, i: usize) -> (r: Option<&'a str>)
        requires
            i < tree@.len(),
        ensures
            text_view(r) == set_name(tree@, i as int),
    {
        if tree.is(i, "init_declarator") {
            text_of_field(tree, i, "declarator")
        } else if tree.is(i, "assignment_expression") {
            text_of_field(tree, i, "left")
        } else if tree.is(i, "declaration") || tree.is(i, "parameter_declaration") {
            text_of_field(tree, i, "declarator")
        } else {
            None
        }
    }

    /// Whether a variable holds a product before a node.
    pub fn is_product_variable(tree: &SyntaxTree, name: &str, i: usize) -> (r: bool)
        requires
            i < tree@.len(),
        ensures
            r == holds_product(tree@, name@, i as int, i as int),
    {
        let mut n: usize = i;
        while n > 0
            invariant
                n <= i < tree@.len(),
                holds_product(tree@, name@, i as int, i as int) == holds_product(
                    tree@,
                    name@,
                    n as int,
                    i as int,
                ),
            decreases n,
        {
            if let Some(set) = Self::set_by(tree, n - 1) {
                if same(set, name) && tree.subtree_end(n - 1) <= i {
                    return match Self::product_in(tree, n - 1) {
                        Some(product) => same(product, name),
                        None => false,
                    };
                }
            }
            n = n - 1;
        }
        false
    }

    fn has_product_argument(tree: &SyntaxTree, i: usize) -> (r: bool)
        requires
            i < tree@.len(),
        ensures
            r == product_argument(tree@, i as int),
    {
        let args = DataFlowAnalyzer::argument_parts(tree, i);
        let mut k: usize = 0;
        while k < args.len()
            invariant
                k <= args@.len(),
                i < tree@.len(),
                indices(args@) == arguments(tree@, i as int),
                forall|j: int| 0 <= j < args@.len() ==> #[trigger] args@[j] < tree@.len(),
                forall|j: int|
                    0 <= j < k ==> !holds_product(
                        tree@,
                        tree@.text(#[trigger] arguments(tree@, i as int)[j]),
                        i as int,
                        i as int,
                    ),
            decreases args@.len() - k,
        {
            let arg: usize = args[k];
            assert(indices(args@)[k as int] == arg);
            assert(arguments(tree@, i as int)[k as int] == arg);
            if Self::is_product_variable(tree, tree.text(arg), i) {
                return true;
            }
            k = k + 1;
        }
        false
    }

    /// Whether a function, given by its name in lower case, inspects a file.
    pub fn is_file_check(lower: &str) -> (r: bool)
        ensures
            r == inspects_file(lower@),
    {
        contains(lower, "access") || contains(lower, "stat") || contains(lower, "lstat")
            || contains(lower, "fstat")
    }

    /// Whether a function, given by its name in lower case, works on a file.
    pub fn is_file_use(lower: &str) -> (r: bool)
        ensures
            r == works_on_file(lower@),
    {
        contains(lower, "fopen") || contains(lower, "open") || contains(lower, "chown")
            || contains(lower, "chmod") || contains(lower, "unlink") || contains(lower, "rename")
    }

    /// Adds the uses of files that come after a check, from the node `scope` on to the end of the
    /// statement that it is a part of.
    pub fn check_for_toctou(
        tree: &SyntaxTree,
        path: &str,
        check_func: &str,
        check_pos: usize,
        scope: usize,
        findings: &mut Vec<Finding>,
    )
        requires
            scope < tree@.len(),
        ensures
            views(final(findings)@) == views(old(findings)@) + races(
                tree@,
                path@,
                check_func@,
                check_pos as int,
                scope as int,
            ),
        decreases scope,
    {
        let ghost before = views(findings@);
        let ghost all = races(tree@, path@, check_func@, check_pos as int, scope as int);
        let end: usize = tree.subtree_end(scope);
        Self::check_uses(tree, path, check_func, check_pos, scope + 1, end, findings);
        let ghost below = uses_after_check(
            tree@,
            path@,
            check_func@,
            check_pos as int,
            scope + 1,
            end as int,
        );
        if scope > 0 && Self::is_part_of_statement(tree, scope) {
            if let Some(p) = tree.parent(scope) {
                Self::check_for_toctou(tree, path, check_func, check_pos, p, findings);
                let ghost rest = races(tree@, path@, check_func@, check_pos as int, p as int);
                assert(before + below + rest =~= before + (below + rest));
            }
        }
    }

    fn is_part_of_statement(tree: &SyntaxTree, i: usize) -> (r: bool)
        requires
            i < tree@.len(),
        ensures
            r == part_of_statement(tree@, i as int),
    {
        tree.is(i, "binary_expression") || tree.is(i, "unary_expression") || tree.is(
            i,
            "assignment_expression",
        ) || tree.is(i, "parenthesized_expression")
    }

    fn check_uses(
        tree: &SyntaxTree,
        path: &str,
        check_func: &str,
        check_pos: usize,
        from: usize,
        end: usize,
        findings: &mut Vec<Finding>,
    )
        requires
            end <= tree@.len(),
        ensures
            views(final(findings)@) == views(old(findings)@) + uses_after_check(
                tree@,
                path@,
                check_func@,
                check_pos as int,
                from as int,
                end as int,
            ),
    {
        let ghost before = views(findings@);
        let ghost whole = uses_after_check(
            tree@,
            path@,
            check_func@,
            check_pos as int,
            from as int,
            end as int,
        );
        let mut j: usize = from;
        while j < end
            invariant
                end <= tree@.len(),
                views(findings@) + uses_after_check(
                    tree@,
                    path@,
                    check_func@,
                    check_pos as int,
                    j as int,
                    end as int,
                ) == before + whole,
            decreases tree@.len() - j,
        {
            if tree.start_byte(j) > check_pos {
                let ghost so_far = views(findings@);
                let ghost one = use_after_check(tree@, path@, j as int, check_func@);
                let ghost rest = uses_after_check(
                    tree@,
                    path@,
                    check_func@,
                    check_pos as int,
                    j + 1,
                    end as int,
                );
                Self::check_use(tree, path, j, check_func, findings);
                assert(so_far + (one + rest) =~= so_far + one + rest);
                j = j + 1;
            } else {
                j = tree.subtree_end(j);
            }
        }
    }

    fn check_use(
        tree: &SyntaxTree,
        path: &str,
        i: usize,
        check_func: &str,
        findings: &mut Vec<Finding>,
    )
        requires
            i < tree@.len(),
        ensures
            views(final(findings)@) == views(old(findings)@) + use_after_check(
                tree@,
                path@,
                i as int,
                check_func@,
            ),
    {
        if let Some(name) = called_function(tree, i) {
            let lower = to_lowercase(name);
            let start = glue3("TOCTOU: ", name, " after ");
            let message = glue3(
                start.as_str(),
                check_func,
                " - file may change between check and use",
            );
            report_if(
                findings,
                Self::is_file_use(&lower),
                tree,
                path,
                i,
                Severity::High,
                "toctou_race_condition",
                &message,
                "Use fstat/fchown on file descriptor instead, or O_NOFOLLOW",
                85,
            );
        }
    }

    /// Whether an expression, given as it stands and in lower case, holds what a user controls.
    pub fn is_externally_tainted(text: &str, lower: &str, tainted_vars: &NameSet) -> (r: bool)
        ensures
            r == externally_tainted(text@, lower@, tainted_vars@),
    {
        contains(lower, "argv[") || contains(lower, "getenv") || contains(lower, "fgets")
            || contains(lower, "scanf") || contains(lower, "read(") || tainted_vars.any_in(text)
    }

    /// Whether a text, in lower case, calls something that gives what a user controls.
    pub fn is_tainted_source(lower: &str) -> (r: bool)
        ensures
            r == tainted_source_lower(lower@),
    {
        contains(lower, "argv[") || contains(lower, "getenv(") || contains(lower, "fgets(")
            || contains(lower, "scanf") || contains(lower, "read(") || contains(lower, "recv(")
    }
}

/// A handle that is closed again, by a call with the same arguments, is reported.
pub proof fn second_close_is_reported(t: TreeModel, path: Seq<char>, first: int, second: int)
    requires
        0 <= first < second < t.len(),
        closed(t, first) is Some,
        closed(t, second) == closed(t, first),
    ensures
        exists|f: FindingModel| #[trigger]
            advanced_rule(t, path)(second).contains(f) && f.category == "double_close"@ && f.line
                == t.place(second).0 && f.column == t.place(second).1,
{
    let m = remembered(t, second);
    let name = called(t, second)->0;
    let args = closed(t, second)->0;
    let f = at_node(
        t,
        path,
        second,
        Severity::Critical,
        "double_close"@,
        "Resource "@ + args + " may be closed twice"@,
        "Set handle to NULL after close, check before closing"@,
        82,
    );
    remembered_names(t, second);
    assert(closed_rule(t)(first) == Some(args));
    assert(m.closed.contains(args));
    let sizes = if allocator(lowercase(name)) {
        size_findings(t, path, second, name, args)
    } else {
        Seq::empty()
    };
    let all = argument_findings(
        t,
        path,
        second,
        name,
        lowercase(name),
        args,
        lowercase(args),
        m,
    );
    assert(all[sizes.len() as int] == f);
    let races_found = if inspects_file(lowercase(name)) {
        races_after(t, path, second, name)
    } else {
        Seq::empty()
    };
    assert(advanced_rule(t, path)(second) == races_found + all);
    assert((races_found + all)[(races_found.len() + sizes.len()) as int] == f);
    assert(advanced_rule(t, path)(second).contains(f));
}

/// A call is reported as closing a handle twice only where an earlier one closed it.
pub proof fn closed_handles_were_closed_before(t: TreeModel, i: int, args: Seq<char>)
    requires
        0 <= i <= t.len(),
    ensures
        remembered(t, i).closed.contains(args) <==> exists|j: int|
            0 <= j < i && #[trigger] closed_rule(t)(j) == Some(args),
{
    remembered_names(t, i);
}

/// A variable that is set to a product, and then to nothing else, holds it.
pub proof fn product_lasts(t: TreeModel, name: Seq<char>, j: int, n: int, i: int)
    requires
        0 <= j < n <= i,
        product(t, j) == Some(name),
        t.subtree_end(j) <= i,
        forall|m: int| j < m < n ==> !#[trigger] sets_before(t, m, name, i),
    ensures
        holds_product(t, name, n, i),
    decreases n,
{
    if j < n - 1 {
        assert(!sets_before(t, n - 1, name, i));
        product_lasts(t, name, j, n - 1, i);
    } else {
        assert(sets_before(t, j, name, i));
    }
}

/// A variable that is set to something else no longer holds a product.
pub proof fn product_is_forgotten(t: TreeModel, name: Seq<char>, j: int, n: int, i: int)
    requires
        0 <= j < n <= i,
        sets_before(t, j, name, i),
        product(t, j) is None,
        forall|m: int| j < m < n ==> !#[trigger] sets_before(t, m, name, i),
    ensures
        !holds_product(t, name, n, i),
    decreases n,
{
    if j < n - 1 {
        assert(!sets_before(t, n - 1, name, i));
        product_is_forgotten(t, name, j, n - 1, i);
    }
}

/// Whether the search for uses that begins at the node `from` comes to the node `scope`.
pub open spec fn comes_to(t: TreeModel, from: int, scope: int) -> bool
    decreases from,
{
    from == scope || (from > 0 && part_of_statement(t, from) && (t.parent(from) matches Some(p) && {
        proof {
            lemma_above(t.nodes, t.nodes[from].depth, from);
        }
        comes_to(t, p, scope)
    }))
}

/// Whether a node begins after the byte `at`, and with it every node below `scope` that it stands
/// in.
pub open spec fn begins_after(t: TreeModel, scope: int, j: int, at: int) -> bool {
    &&& t.nodes[j].start > at
    &&& forall|k: int|
        scope < k < j && j < #[trigger] t.subtree_end(k) ==> t.nodes[k].start > at
}

proof fn lemma_use_found(
    t: TreeModel,
    path: Seq<char>,
    check: Seq<char>,
    at: int,
    scope: int,
    from: int,
    end: int,
    j: int,
    f: FindingModel,
)
    requires
        0 <= scope < from <= j < end <= t.len(),
        begins_after(t, scope, j, at),
        use_after_check(t, path, j, check).contains(f),
    ensures
        uses_after_check(t, path, check, at, from, end).contains(f),
    decreases j - from,
{
    broadcast use {lemma_in_left, lemma_in_right};

    if from < j {
        if t.nodes[from].start > at {
            lemma_use_found(t, path, check, at, scope, from + 1, end, j, f);
        } else {
            lemma_end_from(t.nodes, t.nodes[from].depth, from + 1);
            lemma_use_found(t, path, check, at, scope, t.subtree_end(from), end, j, f);
        }
    }
}

proof fn lemma_race_found(
    t: TreeModel,
    path: Seq<char>,
    check: Seq<char>,
    at: int,
    from: int,
    scope: int,
    f: FindingModel,
)
    requires
        comes_to(t, from, scope),
        uses_after_check(t, path, check, at, scope + 1, t.subtree_end(scope)).contains(f),
    ensures
        races(t, path, check, at, from).contains(f),
    decreases from,
{
    broadcast use {lemma_in_left, lemma_in_right};

    if from != scope {
        let p = t.parent(from)->0;
        lemma_above(t.nodes, t.nodes[from].depth, from);
        lemma_race_found(t, path, check, at, p, scope, f);
    }
}

/// A call that works on a file, in the rest of the statement in which a file was inspected, is
/// reported as a race.
pub proof fn use_after_check_is_reported(
    t: TreeModel,
    path: Seq<char>,
    check: int,
    scope: int,
    j: int,
)
    requires
        0 <= check < t.len(),
        called(t, check) matches Some(name) && inspects_file(lowercase(name)),
        t.parent(check) matches Some(p) && comes_to(t, p, scope),
        0 <= scope < j < t.subtree_end(scope) <= t.len(),
        begins_after(t, scope, j, t.nodes[check].start as int),
        called(t, j) matches Some(name) && works_on_file(lowercase(name)),
    ensures
        exists|f: FindingModel| #[trigger]
            advanced_rule(t, path)(check).contains(f) && f.category == "toctou_race_condition"@
                && f.line == t.place(j).0 && f.column == t.place(j).1,
{
    broadcast use {lemma_in_left, lemma_in_right};

    let name = called(t, check)->0;
    let at = t.nodes[check].start as int;
    let found = use_after_check(t, path, j, name);
    let f = found[0];
    assert(found.contains(f));
    lemma_use_found(t, path, name, at, scope, scope + 1, t.subtree_end(scope), j, f);
    lemma_race_found(t, path, name, at, t.parent(check)->0, scope, f);
    assert(races_after(t, path, check, name).contains(f));
    assert(advanced_call_findings(t, path, check, remembered(t, check)).contains(f));
    assert(advanced_rule(t, path)(check).contains(f));
}

} // verus!
