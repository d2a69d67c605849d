//! The analysis of JavaScript and TypeScript sources.
use vstd::prelude::*;

use crate::finding::{extend, gather, views, Finding, FindingModel, Severity};
use crate::names::{
    any_mentioned, collected, lemma_collected_none, lemma_collected_step, NameSet,
};
use crate::outside::{lowercase, to_lowercase};
use crate::rule::{field_text, report_if, reported, text_of_field, text_view};
use crate::syntax::{SyntaxTree, TreeModel};
use crate::text::{contains, mentions, same};

verus! {

/// Whether a text, in lower case, names something that a user controls.
pub open spec fn js_source_lower(lower: Seq<char>) -> bool {
    ||| mentions(lower, "req."@)
    ||| mentions(lower, "request."@)
    ||| mentions(lower, "req.body"@)
    ||| mentions(lower, "req.query"@)
    ||| mentions(lower, "req.params"@)
    ||| mentions(lower, "location."@)
    ||| mentions(lower, "window.location"@)
    ||| mentions(lower, "document.cookie"@)
    ||| mentions(lower, "localstorage"@)
    ||| mentions(lower, "sessionstorage"@)
    ||| mentions(lower, "postmessage"@)
}

/// Whether a text names something that a user controls.
pub open spec fn js_source(text: Seq<char>) -> bool {
    js_source_lower(lowercase(text))
}

/// The variable that a node taints: the left side of the assignment, or the name in the
/// declaration, whose part it is, where it names something that a user controls.
pub open spec fn js_taints(t: TreeModel, i: int) -> Option<Seq<char>> {
    if (t.is(i, "member_expression"@) || t.is(i, "identifier"@)) && js_source(t.text(i)) {
        match t.parent(i) {
            Some(p) => if t.is(p, "assignment_expression"@) {
                field_text(t, p, "left"@)
            } else if t.is(p, "variable_declarator"@) {
                field_text(t, p, "name"@)
            } else {
                None
            },
            None => None,
        }
    } else {
        None
    }
}

/// The variables that the nodes taint, node by node.
pub open spec fn js_taint_rule(t: TreeModel) -> spec_fn(int) -> Option<Seq<char>> {
    |i: int| js_taints(t, i)
}

/// The tainted variables of a source.
pub open spec fn js_tainted(t: TreeModel) -> Set<Seq<char>> {
    collected(js_taint_rule(t), t.len())
}

/// Whether a text holds tainted data.
pub open spec fn js_tainted_text(text: Seq<char>, tainted: Set<Seq<char>>) -> bool {
    any_mentioned(tainted, text) || js_source(text)
}

/// Whether the arguments of a call hold tainted data.
pub open spec fn js_tainted_argument(t: TreeModel, i: int, tainted: Set<Seq<char>>) -> bool {
    match field_text(t, i, "arguments"@) {
        Some(text) => js_tainted_text(text, tainted),
        None => false,
    }
}

/// Whether the arguments of a call hold a string.
pub open spec fn js_string_argument(t: TreeModel, i: int) -> bool {
    match field_text(t, i, "arguments"@) {
        Some(text) => mentions(text, "\""@) || mentions(text, "'"@) || mentions(text, "`"@),
        None => false,
    }
}

/// What a call is reported as, given what it calls in lower case.
pub open spec fn js_call_findings(
    t: TreeModel,
    path: Seq<char>,
    i: int,
    func: int,
    lower: Seq<char>,
    tainted: Set<Seq<char>>,
) -> Seq<FindingModel> {
    reported(
        lower == "eval"@ && js_tainted_argument(t, i, tainted),
        t,
        path,
        i,
        Severity::Critical,
        "js_tainted_eval"@,
        "eval() with user input - XSS/RCE"@,
        "Never eval user input"@,
        97,
    ) + reported(
        lower == "function"@ && t.is(func, "identifier"@) && js_tainted_argument(t, i, tainted),
        t,
        path,
        i,
        Severity::Critical,
        "js_function_constructor"@,
        "Function() with user input"@,
        "Never use Function constructor with user input"@,
        95,
    ) + reported(
        (lower == "settimeout"@ || lower == "setinterval"@) && js_string_argument(t, i),
        t,
        path,
        i,
        Severity::Critical,
        "js_settimeout_eval"@,
        "setTimeout/setInterval with string - eval equivalent"@,
        "Pass function reference, not string"@,
        92,
    ) + reported(
        mentions(lower, "exec"@) && mentions(lower, "child_process"@) && js_tainted_argument(
            t,
            i,
            tainted,
        ),
        t,
        path,
        i,
        Severity::Critical,
        "js_command_injection"@,
        "child_process.exec with user input"@,
        "Use execFile with array args"@,
        90,
    )
}

/// What an assignment is reported as, given its left side in lower case and its right side.
pub open spec fn js_assignment_findings(
    t: TreeModel,
    path: Seq<char>,
    i: int,
    lhs: Seq<char>,
    rhs: Seq<char>,
    tainted: Set<Seq<char>>,
) -> Seq<FindingModel> {
    reported(
        mentions(lhs, "innerhtml"@) && js_tainted_text(rhs, tainted),
        t,
        path,
        i,
        Severity::Critical,
        "js_dom_xss"@,
        "innerHTML with user input - XSS"@,
        "Use textContent or DOMPurify.sanitize()"@,
        94,
    ) + reported(
        mentions(lhs, "document.write"@),
        t,
        path,
        i,
        Severity::High,
        "js_document_write"@,
        "document.write() - XSS risk"@,
        "Use DOM manipulation methods instead"@,
        85,
    )
}

/// Whether a node stands directly below a call with tainted arguments.
pub open spec fn js_in_tainted_call(t: TreeModel, i: int, tainted: Set<Seq<char>>) -> bool {
    match t.parent(i) {
        Some(p) => t.is(p, "call_expression"@) && js_tainted_argument(t, p, tainted),
        None => false,
    }
}

/// What an access to a member is reported as, given its text in lower case.
pub open spec fn js_member_findings(
    t: TreeModel,
    path: Seq<char>,
    i: int,
    lower: Seq<char>,
    tainted: Set<Seq<char>>,
) -> Seq<FindingModel> {
    reported(
        mentions(lower, "__proto__"@) || mentions(lower, "constructor.prototype"@),
        t,
        path,
        i,
        Severity::Critical,
        "js_prototype_pollution"@,
        "Prototype pollution vulnerability"@,
        "Use Object.freeze() or validate property names"@,
        91,
    ) + reported(
        mentions(lower, "$where"@) && js_in_tainted_call(t, i, tainted),
        t,
        path,
        i,
        Severity::Critical,
        "js_nosql_injection"@,
        "$where with user input - NoSQL injection"@,
        "Avoid $where operator, use parameterized queries"@,
        88,
    )
}

/// What a node is reported as, given the tainted variables.
pub open spec fn js_findings(
    t: TreeModel,
    path: Seq<char>,
    i: int,
    tainted: Set<Seq<char>>,
) -> Seq<FindingModel> {
    if t.is(i, "call_expression"@) {
        match t.field(i, "function"@) {
            Some(func) => js_call_findings(t, path, i, func, lowercase(t.text(func)), tainted),
            None => Seq::empty(),
        }
    } else if t.is(i, "assignment_expression"@) {
        match (t.field(i, "left"@), t.field(i, "right"@)) {
            (Some(left), Some(right)) => js_assignment_findings(
                t,
                path,
                i,
                lowercase(t.text(left)),
                t.text(right),
                tainted,
            ),
            _ => Seq::empty(),
        }
    } else if t.is(i, "member_expression"@) {
        js_member_findings(t, path, i, lowercase(t.text(i)), tainted)
    } else {
        Seq::empty()
    }
}

/// What the nodes are reported as, node by node.
pub open spec fn js_rule(t: TreeModel, path: Seq<char>, tainted: Set<Seq<char>>) -> spec_fn(
    int,
) -> Seq<FindingModel> {
    |i: int| js_findings(t, path, i, tainted)
}

/// What a source is reported as.
pub open spec fn js_scan(t: TreeModel, path: Seq<char>) -> Seq<FindingModel> {
    gather(js_rule(t, path, js_tainted(t)), t.len())
}

/// Analyses JavaScript and TypeScript sources.
pub struct JavaScriptAnalyzer;

impl JavaScriptAnalyzer {
    /// What a source is reported as: what the user controls is found first, then where it goes.
    pub fn analyze(tree: &SyntaxTree, path: &str) -> (r: Vec<Finding>)
        ensures
            views(r@) == js_scan(tree@, path@),
    {
        let tainted = Self::find_taint_sources(tree);
        Self::find_dangerous_sinks(tree, path, &tainted)
    }

    /// The tainted variables of a source.
    pub fn find_taint_sources(tree: &SyntaxTree) -> (r: NameSet)
        ensures
            r@ == js_tainted(tree@),
    {
        let mut tainted = NameSet::new();
        let n: usize = tree.len();
        let mut i: usize = 0;
        proof {
            lemma_collected_none(js_taint_rule(tree@));
        }
        while i < n
            invariant
                i <= n,
                n == tree@.len(),
                tainted@ == collected(js_taint_rule(tree@), i as int),
            decreases n - i,
        {
            proof {
                lemma_collected_step(js_taint_rule(tree@), i as int);
            }
            if let Some(name) = Self::tainted_by(tree, i) {
                tainted.insert(name);
            }
            i = i + 1;
        }
        tainted
    }

    fn tainted_by<'a>(tree: &SyntaxTree<'a>, i: usize) -> (r: Option<&'a str>)
        requires
            i < tree@.len(),
        ensures
            text_view(r) == js_taints(tree@, i as int),
    {
        if (tree.is(i, "member_expression") || tree.is(i, "identifier")) && Self::is_taint_source(
            tree.text(i),
        ) {
            if let Some(p) = tree.parent(i) {
                if tree.is(p, "assignment_expression") {
                    return text_of_field(tree, p, "left");
                }
                if tree.is(p, "variable_declarator") {
                    return text_of_field(tree, p, "name");
                }
            }
        }
        None
    }

    /// Whether a text names something that a user controls.
    pub fn is_taint_source(text: &str) -> (r: bool)
        ensures
            r == js_source(text@),
    {
        let lower = to_lowercase(text);
        Self::is_taint_source_lower(&lower)
    }

    /// Whether a text, in lower case, names something that a user controls.
    pub fn is_taint_source_lower(lower: &str) -> (r: bool)
        ensures
            r == js_source_lower(lower@),
    {
        contains(lower, "req.") || contains(lower, "request.") || contains(lower, "req.body")
            || contains(lower, "req.query") || contains(lower, "req.params") || contains(
            lower,
            "location.",
        ) || contains(lower, "window.location") || contains(lower, "document.cookie") || contains(
            lower,
            "localstorage",
        ) || contains(lower, "sessionstorage") || contains(lower, "postmessage")
    }

    /// The places of a source that are dangerous, given the tainted variables.
    pub fn find_dangerous_sinks(tree: &SyntaxTree, path: &str, tainted: &NameSet) -> (r: Vec<
        Finding,
    >)
        ensures
            views(r@) == gather(js_rule(tree@, path@, tainted@), tree@.len()),
    {
        let mut findings: Vec<Finding> = Vec::new();
        let n: usize = tree.len();
        let mut i: usize = 0;
        assert(views(findings@) =~= Seq::<FindingModel>::empty());
        while i < n
            invariant
                i <= n,
                n == tree@.len(),
                views(findings@) == gather(js_rule(tree@, path@, tainted@), i as int),
            decreases n - i,
        {
            Self::check_node(tree, path, i, tainted, &mut findings);
            i = i + 1;
        }
        findings
    }

    fn check_node(
        tree: &SyntaxTree,
        path: &str,
        i: usize,
        tainted: &NameSet,
        findings: &mut Vec<Finding>,
    )
        requires
            i < tree@.len(),
        ensures
            views(final(findings)@) == views(old(findings)@) + js_findings(
                tree@,
                path@,
                i as int,
                tainted@,
            ),
    {
        let ghost before = views(findings@);
        assert(before + Seq::<FindingModel>::empty() =~= before);
        if tree.is(i, "call_expression") {
            if let Some(func) = tree.child_by_field_name(i, "function") {
                let lower = to_lowercase(tree.text(func));
                extend(findings, Self::check_call(tree, path, i, func, &lower, tainted));
            }
        } else if tree.is(i, "assignment_expression") {
            if let Some(left) = tree.child_by_field_name(i, "left") {
                if let Some(right) = tree.child_by_field_name(i, "right") {
                    let lhs = to_lowercase(tree.text(left));
                    extend(
                        findings,
                        Self::check_assignment(tree, path, i, &lhs, tree.text(right), tainted),
                    );
                }
            }
        } else if tree.is(i, "member_expression") {
            let lower = to_lowercase(tree.text(i));
            extend(findings, Self::check_member(tree, path, i, &lower, tainted));
        }
    }

    /// Reports a call, given what it calls in lower case.
    pub fn check_call(
        tree: &SyntaxTree,
        path: &str,
        i: usize,
        func: usize,
        lower: &str,
        tainted: &NameSet,
    ) -> (r: Vec<Finding>)
        requires
            i < tree@.len(),
            func < tree@.len(),
        ensures
            views(r@) == js_call_findings(
                tree@,
                path@,
                i as int,
                func as int,
                lower@,
                tainted@,
            ),
    {
        let mut findings: Vec<Finding> = Vec::new();
        assert(views(findings@) =~= Seq::<FindingModel>::empty());
        let taint = Self::has_tainted_argument(tree, i, tainted);
        report_if(
            &mut findings,
            same(lower, "eval") && taint,
            tree,
            path,
            i,
            Severity::Critical,
            "js_tainted_eval",
            "eval() with user input - XSS/RCE",
            "Never eval user input",
            97,
        );
        report_if(
            &mut findings,
            same(lower, "function") && tree.is(func, "identifier") && taint,
            tree,
            path,
            i,
            Severity::Critical,
            "js_function_constructor",
            "Function() with user input",
            "Never use Function constructor with user input",
            95,
        );
        let text = Self::has_string_argument(tree, i);
        report_if(
            &mut findings,
            (same(lower, "settimeout") || same(lower, "setinterval")) && text,
            tree,
            path,
            i,
            Severity::Critical,
            "js_settimeout_eval",
            "setTimeout/setInterval with string - eval equivalent",
            "Pass function reference, not string",
            92,
        );
        report_if(
            &mut findings,
            contains(lower, "exec") && contains(lower, "child_process") && taint,
            tree,
            path,
            i,
            Severity::Critical,
            "js_command_injection",
            "child_process.exec with user input",
            "Use execFile with array args",
            90,
        );
        findings
    }

    /// Reports an assignment, given its left side in lower case and its right side.
    pub fn check_assignment(
        tree: &SyntaxTree,
        path: &str,
        i: usize,
        lhs: &str,
        rhs: &str,
        tainted: &NameSet,
    ) -> (r: Vec<Finding>)
        requires
            i < tree@.len(),
        ensures
            views(r@) == js_assignment_findings(
                tree@,
                path@,
                i as int,
                lhs@,
                rhs@,
                tainted@,
            ),
    {
        let mut findings: Vec<Finding> = Vec::new();
        assert(views(findings@) =~= Seq::<FindingModel>::empty());
        report_if(
            &mut findings,
            contains(lhs, "innerhtml") && Self::contains_tainted_data(rhs, tainted),
            tree,
            path,
            i,
            Severity::Critical,
            "js_dom_xss",
            "innerHTML with user input - XSS",
            "Use textContent or DOMPurify.sanitize()",
            94,
        );
        report_if(
            &mut findings,
            contains(lhs, "document.write"),
            tree,
            path,
            i,
            Severity::High,
            "js_document_write",
            "document.write() - XSS risk",
            "Use DOM manipulation methods instead",
            85,
        );
        findings
    }

    /// Reports an access to a member, given its text in lower case.
    pub fn check_member(
        tree: &SyntaxTree,
        path: &str,
        i: usize,
        lower: &str,
        tainted: &NameSet,
    ) -> (r: Vec<Finding>)
        requires
            i < tree@.len(),
        ensures
            views(r@) == js_member_findings(
                tree@,
                path@,
                i as int,
                lower@,
                tainted@,
            ),
    {
        let mut findings: Vec<Finding> = Vec::new();
        assert(views(findings@) =~= Seq::<FindingModel>::empty());
        report_if(
            &mut findings,
            contains(lower, "__proto__") || contains(lower, "constructor.prototype"),
            tree,
            path,
            i,
            Severity::Critical,
            "js_prototype_pollution",
            "Prototype pollution vulnerability",
            "Use Object.freeze() or validate property names",
            91,
        );
        let inside = match tree.parent(i) {
            Some(p) => tree.is(p, "call_expression") && Self::has_tainted_argument(
                tree,
                p,
                tainted,
            ),
            None => false,
        };
        report_if(
            &mut findings,
            contains(lower, "$where") && inside,
            tree,
            path,
            i,
            Severity::Critical,
            "js_nosql_injection",
            "$where with user input - NoSQL injection",
            "Avoid $where operator, use parameterized queries",
            88,
        );
        findings
    }

    /// Whether the arguments of a call hold tainted data.
    pub fn has_tainted_argument(tree: &SyntaxTree, i: usize, tainted: &NameSet) -> (r: bool)
        requires
            i < tree@.len(),
        ensures
            r == js_tainted_argument(tree@, i as int, tainted@),
    {
        match text_of_field(tree, i, "arguments") {
            Some(text) => Self::contains_tainted_data(text, tainted),
            None => false,
        }
    }

    fn has_string_argument(tree: &SyntaxTree, i: usize) -> (r: bool)
        requires
            i < tree@.len(),
        ensures
            r == js_string_argument(tree@, i as int),
    {
        match text_of_field(tree, i, "arguments") {
            Some(text) => contains(text, "\"") || contains(text, "'") || contains(text, "`"),
            None => false,
        }
    }

    /// Whether a text holds tainted data.
    pub fn contains_tainted_data(text: &str, tainted: &NameSet) -> (r: bool)
        ensures
            r == js_tainted_text(text@, tainted@),
    {
        tainted.any_in(text) || Self::is_taint_source(text)
    }
}

} // verus!
