//! Symbolic values, and copies of memory whose size is not known.
use vstd::prelude::*;

use crate::dataflow::{arguments, DataFlowAnalyzer};
use crate::finding::{gather, views, Finding, FindingModel, Severity};
use crate::rule::{
    called, called_function, is_punctuation, punctuation, report_if, reported,
};
use crate::syntax::{indices, SyntaxTree, TreeModel};
use crate::text::same;

verus! {

/// What is known of a value without running the program.
#[derive(Debug)]
pub enum SymbolicValue {
    Concrete(i64),
    Symbol(String),
    BinaryOp { op: String, left: Box<SymbolicValue>, right: Box<SymbolicValue> },
    Unknown,
}

impl SymbolicValue {
    /// Whether the value is known to be null.
    pub open spec fn null(self) -> bool {
        self == SymbolicValue::Concrete(0)
    }

    /// Whether nothing shows that the value is not null.
    pub open spec fn maybe_null(self) -> bool {
        match self {
            SymbolicValue::Concrete(n) => n == 0,
            _ => true,
        }
    }

    /// Whether nothing shows that the value is at most `max_val`; of the operations only products,
    /// sums and shifts to the left are taken to exceed anything.
    pub open spec fn may_exceed(self, max_val: int) -> bool {
        match self {
            SymbolicValue::Concrete(n) => n > max_val,
            SymbolicValue::BinaryOp { op, .. } => op@ == "*"@ || op@ == "+"@ || op@ == "<<"@,
            _ => true,
        }
    }

    /// Whether the value is known to be null.
    pub fn is_null(&self) -> (r: bool)
        ensures
            r == self.null(),
    {
        match self {
            SymbolicValue::Concrete(n) => *n == 0,
            _ => false,
        }
    }

    /// Whether nothing shows that the value is not null.
    pub fn could_be_null(&self) -> (r: bool)
        ensures
            r == self.maybe_null(),
    {
        match self {
            SymbolicValue::Concrete(n) => *n == 0,
            _ => true,
        }
    }

    /// Whether nothing shows that the value is at most `max_val`.
    pub fn could_exceed(&self, max_val: i64) -> (r: bool)
        ensures
            r == self.may_exceed(max_val as int),
    {
        match self {
            SymbolicValue::Concrete(n) => *n > max_val,
            SymbolicValue::BinaryOp { op, .. } => same(op, "*") || same(op, "+") || same(op, "<<"),
            _ => true,
        }
    }
}

/// A value that is null may be null.
pub proof fn null_may_be_null(v: SymbolicValue)
    ensures
        v.null() ==> v.maybe_null(),
{
}

/// A value that may exceed a bound may exceed every smaller one.
pub proof fn exceeding_is_monotone(v: SymbolicValue, low: int, high: int)
    requires
        low <= high,
    ensures
        v.may_exceed(high) ==> v.may_exceed(low),
{
}

/// How many nodes of a list are neither parentheses nor commas.
pub open spec fn argument_count(t: TreeModel, nodes: Seq<int>) -> nat
    decreases nodes.len(),
{
    if nodes.len() == 0 {
        0
    } else {
        argument_count(t, nodes.drop_last()) + if punctuation(t, nodes.last()) {
            0nat
        } else {
            1nat
        }
    }
}

/// What a call that copies or fills memory is reported as.
pub open spec fn unbounded_copy(t: TreeModel, path: Seq<char>, i: int) -> Seq<FindingModel> {
    match called(t, i) {
        Some(name) => reported(
            (name == "memcpy"@ || name == "memset"@) && argument_count(t, arguments(t, i)) >= 3,
            t,
            path,
            i,
            Severity::High,
            "unbounded_memcpy"@,
            "memcpy with potentially unbounded size"@,
            "Add bounds check: if (size > MAX) return"@,
            78,
        ),
        None => Seq::empty(),
    }
}

/// What the nodes are reported as, node by node.
pub open spec fn symbolic_rule(t: TreeModel, path: Seq<char>) -> spec_fn(int) -> Seq<FindingModel> {
    |i: int| unbounded_copy(t, path, i)
}

/// Looks for copies of memory whose size is not known.
pub struct SymbolicAnalyzer;

impl SymbolicAnalyzer {
    /// The copies of memory whose size is not known.
    pub fn analyze_function(tree: &SyntaxTree, path: &str) -> (r: Vec<Finding>)
        ensures
            views(r@) == gather(symbolic_rule(tree@, path@), tree@.len()),
    {
        let mut findings: Vec<Finding> = Vec::new();
        let n: usize = tree.len();
        let mut i: usize = 0;
        assert(views(findings@) =~= Seq::<FindingModel>::empty());
        while i < n
            invariant
                i <= n,
                n == tree@.len(),
                views(findings@) == gather(symbolic_rule(tree@, path@), i as int),
            decreases n - i,
        {
            Self::analyze_node(tree, path, i, &mut findings);
            i = i + 1;
        }
        findings
    }

    /// Reports one node.
    pub fn analyze_node(tree: &SyntaxTree, path: &str, i: usize, findings: &mut Vec<Finding>)
        requires
            i < tree@.len(),
        ensures
            views(final(findings)@) == views(old(findings)@) + unbounded_copy(
                tree@,
                path@,
                i as int,
            ),
    {
        if let Some(name) = called_function(tree, i) {
            let copies = same(name, "memcpy") || same(name, "memset");
            report_if(
                findings,
                copies && Self::count_arguments(tree, i) >= 3,
                tree,
                path,
                i,
                Severity::High,
                "unbounded_memcpy",
                "memcpy with potentially unbounded size",
                "Add bounds check: if (size > MAX) return",
                78,
            );
        }
    }

    fn count_arguments(tree: &SyntaxTree, i: usize) -> (r: usize)
        requires
            i < tree@.len(),
        ensures
            r == argument_count(tree@, arguments(tree@, i as int)),
    {
        let args = DataFlowAnalyzer::argument_parts(tree, i);
        let ghost all = arguments(tree@, i as int);
        let mut count: usize = 0;
        let mut k: usize = 0;
        while k < args.len()
            invariant
                k <= args@.len(),
                count <= k,
                all == indices(args@),
                forall|j: int| 0 <= j < args@.len() ==> #[trigger] args@[j] < tree@.len(),
                count == argument_count(tree@, all.take(k as int)),
            decreases args@.len() - k,
        {
            let arg: usize = args[k];
            assert(indices(args@)[k as int] == arg);
            assert(all.take(k + 1).drop_last() =~= all.take(k as int));
            if !is_punctuation(tree, arg) {
                count = count + 1;
            }
            k = k + 1;
        }
        assert(all.take(k as int) =~= all);
        count
    }
}

} // verus!
