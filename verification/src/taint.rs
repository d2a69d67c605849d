//! Calls in C and C++ sources that hand a command to the system.
use vstd::prelude::*;

use crate::finding::{gather, views, Finding, FindingModel, Severity};
use crate::names::NameSet;
use crate::rule::{called, called_function, report_if, reported};
use crate::syntax::{SyntaxTree, TreeModel};
use crate::text::glue3;

verus! {

/// The functions that give what a user controls, and those that hand a command to the system.
pub struct TaintAnalyzer {
    pub taint_sources: NameSet,
    pub taint_sinks: NameSet,
}

/// The functions that give what a user controls.
pub open spec fn c_taint_sources() -> Set<Seq<char>> {
    set!["scanf"@, "fgets"@, "recv"@, "read"@, "getenv"@]
}

/// The functions that hand a command to the system.
pub open spec fn c_taint_sinks() -> Set<Seq<char>> {
    set!["system"@, "popen"@, "exec"@]
}

/// What a call of one of the functions `sinks` is reported as.
pub open spec fn sink_call(t: TreeModel, path: Seq<char>, i: int, sinks: Set<Seq<char>>) -> Seq<
    FindingModel,
> {
    match called(t, i) {
        Some(name) => reported(
            sinks.contains(name),
            t,
            path,
            i,
            Severity::Critical,
            "command_injection"@,
            "Potential command injection: "@ + name + " with user input"@,
            "Use execve with full path, or validate input against whitelist"@,
            88,
        ),
        None => Seq::empty(),
    }
}

/// What the nodes are reported as, node by node.
pub open spec fn sink_rule(t: TreeModel, path: Seq<char>, sinks: Set<Seq<char>>) -> spec_fn(
    int,
) -> Seq<FindingModel> {
    |i: int| sink_call(t, path, i, sinks)
}

impl TaintAnalyzer {
    /// The functions of the C library.
    pub fn new() -> (r: TaintAnalyzer)
        ensures
            r.taint_sources@ == c_taint_sources(),
            r.taint_sinks@ == c_taint_sinks(),
    {
        let mut sources = NameSet::new();
        sources.insert("scanf");
        sources.insert("fgets");
        sources.insert("recv");
        sources.insert("read");
        sources.insert("getenv");
        let mut sinks = NameSet::new();
        sinks.insert("system");
        sinks.insert("popen");
        sinks.insert("exec");
        assert(sources@ =~= c_taint_sources());
        assert(sinks@ =~= c_taint_sinks());
        TaintAnalyzer { taint_sources: sources, taint_sinks: sinks }
    }

    /// The calls of functions that hand a command to the system.
    pub fn analyze_file(&self, tree: &SyntaxTree, path: &str) -> (r: Vec<Finding>)
        ensures
            views(r@) == gather(sink_rule(tree@, path@, self.taint_sinks@), tree@.len()),
    {
        let mut findings: Vec<Finding> = Vec::new();
        let n: usize = tree.len();
        let mut i: usize = 0;
        assert(views(findings@) =~= Seq::<FindingModel>::empty());
        while i < n
            invariant
                i <= n,
                n == tree@.len(),
                views(findings@) == gather(
                    sink_rule(tree@, path@, self.taint_sinks@),
                    i as int,
                ),
            decreases n - i,
        {
            self.find_taint_sinks(tree, path, i, &mut findings);
            i = i + 1;
        }
        findings
    }

    /// Reports one node.
    pub fn find_taint_sinks(
        &self,
        tree: &SyntaxTree,
        path: &str,
        i: usize,
        findings: &mut Vec<Finding>,
    )
        requires
            i < tree@.len(),
        ensures
            views(final(findings)@) == views(old(findings)@) + sink_call(
                tree@,
                path@,
                i as int,
                self.taint_sinks@,
            ),
    {
        if let Some(name) = called_function(tree, i) {
            let message = glue3("Potential command injection: ", name, " with user input");
            report_if(
                findings,
                self.taint_sinks.contains(name),
                tree,
                path,
                i,
                Severity::Critical,
                "command_injection",
                &message,
                "Use execve with full path, or validate input against whitelist",
                88,
            );
        }
    }
}

} // verus!
