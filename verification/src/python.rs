//! The analysis of Python sources.
use vstd::prelude::*;

use crate::finding::{extend, gather, views, Finding, FindingModel, Severity};
use crate::names::{
    any_mentioned, collected, lemma_collected_none, lemma_collected_step, NameSet,
};
use crate::outside::{lowercase, to_lowercase};
use crate::rule::{field_text, report_if, reported, text_of_field, text_view};
use crate::syntax::{SyntaxTree, TreeModel};
use crate::text::{contains, glue, mentions, same};

verus! {

/// Whether a text, in lower case, names something that a user controls.
pub open spec fn py_source_lower(lower: Seq<char>) -> bool {
    ||| mentions(lower, "input("@)
    ||| mentions(lower, "sys.argv"@)
    ||| mentions(lower, "request."@)
    ||| mentions(lower, "os.environ["@)
    ||| mentions(lower, "socket.recv"@)
    ||| mentions(lower, "read("@)
    ||| mentions(lower, "json.loads"@) && mentions(lower, "request"@)
}

/// Whether a text names something that a user controls.
pub open spec fn py_source(text: Seq<char>) -> bool {
    py_source_lower(lowercase(text))
}

/// The variable that a node taints: the left side of an assignment of something that a user
/// controls.
pub open spec fn py_taints(t: TreeModel, i: int) -> Option<Seq<char>> {
    if t.is(i, "assignment"@) {
        match (field_text(t, i, "left"@), field_text(t, i, "right"@)) {
            (Some(lhs), Some(rhs)) => if py_source(rhs) {
                Some(lhs)
            } else {
                None
            },
            _ => None,
        }
    } else {
        None
    }
}

/// The variables that the nodes taint, node by node.
pub open spec fn py_taint_rule(t: TreeModel) -> spec_fn(int) -> Option<Seq<char>> {
    |i: int| py_taints(t, i)
}

/// The tainted variables of a source.
pub open spec fn py_tainted(t: TreeModel) -> Set<Seq<char>> {
    collected(py_taint_rule(t), t.len())
}

/// Whether the arguments of a call hold a tainted variable.
pub open spec fn py_tainted_argument(t: TreeModel, i: int, tainted: Set<Seq<char>>) -> bool {
    match field_text(t, i, "arguments"@) {
        Some(text) => any_mentioned(tainted, text),
        None => false,
    }
}

/// Whether the arguments of a call ask for a shell.
pub open spec fn py_shell(t: TreeModel, i: int) -> bool {
    match field_text(t, i, "arguments"@) {
        Some(text) => mentions(text, "shell"@) && mentions(text, "True"@),
        None => false,
    }
}

/// Whether the arguments of a call hold a string that is put together.
pub open spec fn py_formatted(t: TreeModel, i: int) -> bool {
    match field_text(t, i, "arguments"@) {
        Some(text) => mentions(text, "%"@) || mentions(text, ".format("@) || mentions(text, "f\""@),
        None => false,
    }
}

/// What a call is reported as, given what it calls, as it stands and in lower case.
pub open spec fn py_call_findings(
    t: TreeModel,
    path: Seq<char>,
    i: int,
    name: Seq<char>,
    lower: Seq<char>,
    tainted: Set<Seq<char>>,
) -> Seq<FindingModel> {
    reported(
        mentions(lower, "eval"@) && !mentions(lower, "literal_eval"@) && py_tainted_argument(
            t,
            i,
            tainted,
        ),
        t,
        path,
        i,
        Severity::Critical,
        "python_tainted_eval"@,
        "eval() called with tainted input: "@ + name,
        "Never eval user input - use ast.literal_eval for safe parsing"@,
        96,
    ) + reported(
        lower == "exec"@ && py_tainted_argument(t, i, tainted),
        t,
        path,
        i,
        Severity::Critical,
        "python_tainted_exec"@,
        "exec() called with user input"@,
        "Never execute user input - massive RCE risk"@,
        96,
    ) + reported(
        mentions(lower, "pickle.load"@),
        t,
        path,
        i,
        Severity::Critical,
        "python_pickle"@,
        "Insecure pickle deserialization"@,
        "Only unpickle cryptographically signed data"@,
        92,
    ) + reported(
        mentions(lower, "yaml.load"@) && !mentions(lower, "safe_load"@),
        t,
        path,
        i,
        Severity::Critical,
        "python_yaml_load"@,
        "Unsafe YAML load - arbitrary code execution"@,
        "Use yaml.safe_load() instead"@,
        94,
    ) + reported(
        mentions(lower, "subprocess"@) && mentions(lower, "call"@) && py_shell(t, i),
        t,
        path,
        i,
        Severity::Critical,
        "python_shell_injection"@,
        "subprocess with shell=True - command injection"@,
        "Use shell=False with list of arguments"@,
        90,
    ) + reported(
        mentions(lower, "os.system"@),
        t,
        path,
        i,
        Severity::Critical,
        "python_os_system"@,
        "os.system() - command injection risk"@,
        "Use subprocess with shell=False"@,
        88,
    ) + reported(
        (mentions(lower, "execute"@) || mentions(lower, "executemany"@)) && py_formatted(t, i)
            && py_tainted_argument(t, i, tainted),
        t,
        path,
        i,
        Severity::Critical,
        "python_sql_injection"@,
        "SQL query with string formatting and user input"@,
        "Use parameterized queries with placeholders"@,
        87,
    )
}

/// What a node is reported as, given the tainted variables.
pub open spec fn py_findings(
    t: TreeModel,
    path: Seq<char>,
    i: int,
    tainted: Set<Seq<char>>,
) -> Seq<FindingModel> {
    if t.is(i, "call"@) {
        match field_text(t, i, "function"@) {
            Some(name) => py_call_findings(t, path, i, name, lowercase(name), tainted),
            None => Seq::empty(),
        }
    } else if t.is(i, "template_string"@) || t.is(i, "string"@) {
        reported(
            mentions(t.text(i), "{{"@) && mentions(t.text(i), "}}"@) && any_mentioned(
                tainted,
                t.text(i),
            ),
            t,
            path,
            i,
            Severity::Critical,
            "python_ssti"@,
            "Template string with user input - SSTI risk"@,
            "Use template engines with auto-escaping"@,
            82,
        )
    } else {
        Seq::empty()
    }
}

/// What the nodes are reported as, node by node.
pub open spec fn py_rule(t: TreeModel, path: Seq<char>, tainted: Set<Seq<char>>) -> spec_fn(
    int,
) -> Seq<FindingModel> {
    |i: int| py_findings(t, path, i, tainted)
}

/// What a source is reported as.
pub open spec fn py_scan(t: TreeModel, path: Seq<char>) -> Seq<FindingModel> {
    gather(py_rule(t, path, py_tainted(t)), t.len())
}

/// Analyses Python sources.
pub struct PythonAnalyzer;

impl PythonAnalyzer {
    /// What a source is reported as: what the user controls is found first, then where it goes.
    pub fn analyze(tree: &SyntaxTree, path: &str) -> (r: Vec<Finding>)
        ensures
            views(r@) == py_scan(tree@, path@),
    {
        let tainted = Self::find_taint_sources(tree);
        Self::find_dangerous_sinks(tree, path, &tainted)
    }

    /// The tainted variables of a source.
    pub fn find_taint_sources(tree: &SyntaxTree) -> (r: NameSet)
        ensures
            r@ == py_tainted(tree@),
    {
        let mut tainted = NameSet::new();
        let n: usize = tree.len();
        let mut i: usize = 0;
        proof {
            lemma_collected_none(py_taint_rule(tree@));
        }
        while i < n
            invariant
                i <= n,
                n == tree@.len(),
                tainted@ == collected(py_taint_rule(tree@), i as int),
            decreases n - i,
        {
            proof {
                lemma_collected_step(py_taint_rule(tree@), i as int);
            }
            if let Some(name) = Self::tainted_by(tree, i) {
                tainted.insert(name);
            }
            i = i + 1;
        }
        tainted
    }

    fn tainted_by<'a>(tree: &SyntaxTree<'a>, i: usize) -> (r: Option<&'a str>)
        requires
            i < tree@.len(),
        ensures
            text_view(r) == py_taints(tree@, i as int),
    {
        if tree.is(i, "assignment") {
            if let Some(lhs) = text_of_field(tree, i, "left") {
                if let Some(rhs) = text_of_field(tree, i, "right") {
                    if Self::is_taint_source(rhs) {
                        return Some(lhs);
                    }
                }
            }
        }
        None
    }

    /// Whether a text names something that a user controls.
    pub fn is_taint_source(text: &str) -> (r: bool)
        ensures
            r == py_source(text@),
    {
        let lower = to_lowercase(text);
        Self::is_taint_source_lower(&lower)
    }

    /// Whether a text, in lower case, names something that a user controls.
    pub fn is_taint_source_lower(lower: &str) -> (r: bool)
        ensures
            r == py_source_lower(lower@),
    {
        contains(lower, "input(") || contains(lower, "sys.argv") || contains(lower, "request.")
            || contains(lower, "os.environ[") || contains(lower, "socket.recv") || contains(
            lower,
            "read(",
        ) || contains(lower, "json.loads") && contains(lower, "request")
    }

    /// The places of a source that are dangerous, given the tainted variables.
    pub fn find_dangerous_sinks(tree: &SyntaxTree, path: &str, tainted: &NameSet) -> (r: Vec<
        Finding,
    >)
        ensures
            views(r@) == gather(py_rule(tree@, path@, tainted@), tree@.len()),
    {
        let mut findings: Vec<Finding> = Vec::new();
        let n: usize = tree.len();
        let mut i: usize = 0;
        assert(views(findings@) =~= Seq::<FindingModel>::empty());
        while i < n
            invariant
                i <= n,
                n == tree@.len(),
                views(findings@) == gather(py_rule(tree@, path@, tainted@), i as int),
            decreases n - i,
        {
            Self::check_node(tree, path, i, tainted, &mut findings);
            i = i + 1;
        }
        findings
    }

    fn check_node(
        tree: &SyntaxTree,
        path: &str,
        i: usize,
        tainted: &NameSet,
        findings: &mut Vec<Finding>,
    )
        requires
            i < tree@.len(),
        ensures
            views(final(findings)@) == views(old(findings)@) + py_findings(
                tree@,
                path@,
                i as int,
                tainted@,
            ),
    {
        let ghost before = views(findings@);
        assert(before + Seq::<FindingModel>::empty() =~= before);
        if tree.is(i, "call") {
            if let Some(name) = text_of_field(tree, i, "function") {
                let lower = to_lowercase(name);
                extend(findings, Self::check_call(tree, path, i, name, &lower, tainted));
            }
        } else if tree.is(i, "template_string") || tree.is(i, "string") {
            let text = tree.text(i);
            report_if(
                findings,
                contains(text, "{{") && contains(text, "}}") && Self::has_tainted_data(
                    tree,
                    i,
                    tainted,
                ),
                tree,
                path,
                i,
                Severity::Critical,
                "python_ssti",
                "Template string with user input - SSTI risk",
                "Use template engines with auto-escaping",
                82,
            );
        }
    }

    /// Reports a call, given what it calls, as it stands and in lower case.
    pub fn check_call(
        tree: &SyntaxTree,
        path: &str,
        i: usize,
        name: &str,
        lower: &str,
        tainted: &NameSet,
    ) -> (r: Vec<Finding>)
        requires
            i < tree@.len(),
        ensures
            views(r@) == py_call_findings(
                tree@,
                path@,
                i as int,
                name@,
                lower@,
                tainted@,
            ),
    {
        let mut findings: Vec<Finding> = Vec::new();
        assert(views(findings@) =~= Seq::<FindingModel>::empty());
        let taint = Self::has_tainted_argument(tree, i, tainted);
        let message = glue("eval() called with tainted input: ", name);
        report_if(
            &mut findings,
            contains(lower, "eval") && !contains(lower, "literal_eval") && taint,
            tree,
            path,
            i,
            Severity::Critical,
            "python_tainted_eval",
            &message,
            "Never eval user input - use ast.literal_eval for safe parsing",
            96,
        );
        report_if(
            &mut findings,
            same(lower, "exec") && taint,
            tree,
            path,
            i,
            Severity::Critical,
            "python_tainted_exec",
            "exec() called with user input",
            "Never execute user input - massive RCE risk",
            96,
        );
        report_if(
            &mut findings,
            contains(lower, "pickle.load"),
            tree,
            path,
            i,
            Severity::Critical,
            "python_pickle",
            "Insecure pickle deserialization",
            "Only unpickle cryptographically signed data",
            92,
        );
        report_if(
            &mut findings,
            contains(lower, "yaml.load") && !contains(lower, "safe_load"),
            tree,
            path,
            i,
            Severity::Critical,
            "python_yaml_load",
            "Unsafe YAML load - arbitrary code execution",
            "Use yaml.safe_load() instead",
            94,
        );
        let shell = match text_of_field(tree, i, "arguments") {
            Some(text) => contains(text, "shell") && contains(text, "True"),
            None => false,
        };
        report_if(
            &mut findings,
            contains(lower, "subprocess") && contains(lower, "call") && shell,
            tree,
            path,
            i,
            Severity::Critical,
            "python_shell_injection",
            "subprocess with shell=True - command injection",
            "Use shell=False with list of arguments",
            90,
        );
        report_if(
            &mut findings,
            contains(lower, "os.system"),
            tree,
            path,
            i,
            Severity::Critical,
            "python_os_system",
            "os.system() - command injection risk",
            "Use subprocess with shell=False",
            88,
        );
        let formatted = match text_of_field(tree, i, "arguments") {
            Some(text) => contains(text, "%") || contains(text, ".format(") || contains(
                text,
                "f\"",
            ),
            None => false,
        };
        report_if(
            &mut findings,
            (contains(lower, "execute") || contains(lower, "executemany")) && formatted && taint,
            tree,
            path,
            i,
            Severity::Critical,
            "python_sql_injection",
            "SQL query with string formatting and user input",
            "Use parameterized queries with placeholders",
            87,
        );
        findings
    }

    /// Whether the arguments of a call hold a tainted variable.
    pub fn has_tainted_argument(tree: &SyntaxTree, i: usize, tainted: &NameSet) -> (r: bool)
        requires
            i < tree@.len(),
        ensures
            r == py_tainted_argument(tree@, i as int, tainted@),
    {
        match text_of_field(tree, i, "arguments") {
            Some(text) => tainted.any_in(text),
            None => false,
        }
    }

    /// Whether the text of a node holds a tainted variable.
    pub fn has_tainted_data(tree: &SyntaxTree, i: usize, tainted: &NameSet) -> (r: bool)
        requires
            i < tree@.len(),
        ensures
            r == any_mentioned(tainted@, tree@.text(i as int)),
    {
        tainted.any_in(tree.text(i))
    }
}

} // verus!
