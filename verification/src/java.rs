//! The analysis of Java sources.
use vstd::prelude::*;

use crate::finding::{extend, gather, views, Finding, FindingModel, Severity};
use crate::names::{
    any_mentioned, collected, lemma_collected_none, lemma_collected_step, NameSet,
};
use crate::outside::{lowercase, to_lowercase};
use crate::rule::{field_text, report_if, reported, text_of_field, text_view};
use crate::syntax::{SyntaxTree, TreeModel};
use crate::text::{contains, mentions, same};

verus! {

/// Whether a text, in lower case, names something that a user controls.
pub open spec fn java_source_lower(lower: Seq<char>) -> bool {
    ||| mentions(lower, "getparameter"@)
    ||| mentions(lower, "getheader"@)
    ||| mentions(lower, "getinputstream"@)
    ||| mentions(lower, "getreader"@)
    ||| mentions(lower, "system.getenv"@)
    ||| mentions(lower, "bufferedreader.read"@)
    ||| mentions(lower, "socket.getinputstream"@)
    ||| mentions(lower, "request."@)
}

/// Whether a text names something that a user controls.
pub open spec fn java_source(text: Seq<char>) -> bool {
    java_source_lower(lowercase(text))
}

/// The text of the field `first`, and where there is none that of the field `second`.
pub open spec fn either_field(
    t: TreeModel,
    i: int,
    first: Seq<char>,
    second: Seq<char>,
) -> Option<Seq<char>> {
    match field_text(t, i, first) {
        Some(text) => Some(text),
        None => field_text(t, i, second),
    }
}

/// The variable that a node taints: that to which something that a user controls is assigned.
pub open spec fn java_taints(t: TreeModel, i: int) -> Option<Seq<char>> {
    if t.is(i, "variable_declarator"@) || t.is(i, "assignment_expression"@) {
        match (
            either_field(t, i, "name"@, "left"@),
            either_field(t, i, "value"@, "right"@),
        ) {
            (Some(name), Some(value)) => if java_source(value) {
                Some(name)
            } else {
                None
            },
            _ => None,
        }
    } else {
        None
    }
}

/// The variables that the nodes taint, node by node.
pub open spec fn java_taint_rule(t: TreeModel) -> spec_fn(int) -> Option<Seq<char>> {
    |i: int| java_taints(t, i)
}

/// The tainted variables of a source.
pub open spec fn java_tainted(t: TreeModel) -> Set<Seq<char>> {
    collected(java_taint_rule(t), t.len())
}

/// Whether the arguments of a call hold a tainted variable.
pub open spec fn java_tainted_argument(t: TreeModel, i: int, tainted: Set<Seq<char>>) -> bool {
    match field_text(t, i, "arguments"@) {
        Some(text) => any_mentioned(tainted, text),
        None => false,
    }
}

/// Whether a method is called on an object whose text names an object input stream.
pub open spec fn java_on_object_stream(t: TreeModel, i: int) -> bool {
    match field_text(t, i, "object"@) {
        Some(text) => mentions(lowercase(text), "objectinputstream"@),
        None => false,
    }
}

/// Whether the arguments of a call hold a string that is put together.
pub open spec fn java_concatenated(t: TreeModel, i: int) -> bool {
    match field_text(t, i, "arguments"@) {
        Some(text) => mentions(text, "+"@) || mentions(text, "string.format"@) || mentions(
            text,
            "concat"@,
        ) || mentions(text, "append"@),
        None => false,
    }
}

/// What a call of a method is reported as, given its name in lower case, and whether it is called
/// on an object input stream.
pub open spec fn java_call_findings(
    t: TreeModel,
    path: Seq<char>,
    i: int,
    lower: Seq<char>,
    on_stream: bool,
    tainted: Set<Seq<char>>,
) -> Seq<FindingModel> {
    reported(
        (lower == "readobject"@ || lower == "readunshared"@) && on_stream,
        t,
        path,
        i,
        Severity::Critical,
        "java_deserialization"@,
        "Insecure Java deserialization - RCE risk"@,
        "Use look-ahead ObjectInputStream with class whitelist"@,
        94,
    ) + reported(
        lower == "exec"@ && java_tainted_argument(t, i, tainted),
        t,
        path,
        i,
        Severity::Critical,
        "java_command_injection"@,
        "Runtime.exec with user input - command injection"@,
        "Use ProcessBuilder with array, validate command"@,
        91,
    ) + reported(
        (lower == "execute"@ || lower == "executequery"@ || lower == "executeupdate"@)
            && java_concatenated(t, i) && java_tainted_argument(t, i, tainted),
        t,
        path,
        i,
        Severity::Critical,
        "java_sql_injection"@,
        "SQL query with string concatenation"@,
        "Use PreparedStatement with ? placeholders"@,
        89,
    ) + reported(
        lower == "compile"@ && java_tainted_argument(t, i, tainted),
        t,
        path,
        i,
        Severity::High,
        "java_xpath_injection"@,
        "XPath expression with user input"@,
        "Validate XPath expression or use parameterized queries"@,
        82,
    ) + reported(
        lower == "parse"@ || lower == "newdocumentbuilder"@,
        t,
        path,
        i,
        Severity::High,
        "java_xxe"@,
        "XML parsing without XXE protection"@,
        "Disable external entities: setFeature(XMLConstants.FEATURE_SECURE_PROCESSING, true)"@,
        80,
    ) + reported(
        mentions(lower, "ldap"@) && java_tainted_argument(t, i, tainted),
        t,
        path,
        i,
        Severity::High,
        "java_ldap_injection"@,
        "LDAP query with user input"@,
        "Escape LDAP filter special characters"@,
        82,
    )
}

/// Whether the body of a class says that something is serializable, and holds no safeguard.
pub open spec fn unguarded_serializable(body: Seq<char>) -> bool {
    &&& mentions(body, "implements Serializable"@) || mentions(
        body,
        "implements java.io.Serializable"@,
    )
    &&& !mentions(body, "readObject"@)
    &&& !mentions(body, "ObjectInputValidation"@)
}

/// What a node is reported as, given the tainted variables.
pub open spec fn java_findings(
    t: TreeModel,
    path: Seq<char>,
    i: int,
    tainted: Set<Seq<char>>,
) -> Seq<FindingModel> {
    if t.is(i, "method_invocation"@) {
        match field_text(t, i, "name"@) {
            Some(name) => java_call_findings(
                t,
                path,
                i,
                lowercase(name),
                java_on_object_stream(t, i),
                tainted,
            ),
            None => Seq::empty(),
        }
    } else if t.is(i, "class_declaration"@) {
        match field_text(t, i, "body"@) {
            Some(body) => reported(
                unguarded_serializable(body),
                t,
                path,
                i,
                Severity::Medium,
                "java_serializable"@,
                "Class implements Serializable without validation"@,
                "Add readObject() with InputValidation"@,
                75,
            ),
            None => Seq::empty(),
        }
    } else {
        Seq::empty()
    }
}

/// What the nodes are reported as, node by node.
pub open spec fn java_rule(t: TreeModel, path: Seq<char>, tainted: Set<Seq<char>>) -> spec_fn(
    int,
) -> Seq<FindingModel> {
    |i: int| java_findings(t, path, i, tainted)
}

/// What a source is reported as.
pub open spec fn java_scan(t: TreeModel, path: Seq<char>) -> Seq<FindingModel> {
    gather(java_rule(t, path, java_tainted(t)), t.len())
}

/// Analyses Java sources.
pub struct JavaAnalyzer;

impl JavaAnalyzer {
    /// What a source is reported as: what the user controls is found first, then where it goes.
    pub fn analyze(tree: &SyntaxTree, path: &str) -> (r: Vec<Finding>)
        ensures
            views(r@) == java_scan(tree@, path@),
    {
        let tainted = Self::find_taint_sources(tree);
        Self::find_dangerous_sinks(tree, path, &tainted)
    }

    /// The tainted variables of a source.
    pub fn find_taint_sources(tree: &SyntaxTree) -> (r: NameSet)
        ensures
            r@ == java_tainted(tree@),
    {
        let mut tainted = NameSet::new();
        let n: usize = tree.len();
        let mut i: usize = 0;
        proof {
            lemma_collected_none(java_taint_rule(tree@));
        }
        while i < n
            invariant
                i <= n,
                n == tree@.len(),
                tainted@ == collected(java_taint_rule(tree@), i as int),
            decreases n - i,
        {
            proof {
                lemma_collected_step(java_taint_rule(tree@), i as int);
            }
            if let Some(name) = Self::tainted_by(tree, i) {
                tainted.insert(name);
            }
            i = i + 1;
        }
        tainted
    }

    fn text_of_either<'a>(tree: &SyntaxTree<'a>, i: usize, first: &str, second: &str) -> (r: Option<
        &'a str,
    >)
        requires
            i < tree@.len(),
        ensures
            text_view(r) == either_field(tree@, i as int, first@, second@),
    {
        match text_of_field(tree, i, first) {
            Some(text) => Some(text),
            None => text_of_field(tree, i, second),
        }
    }

    fn tainted_by<'a>(tree: &SyntaxTree<'a>, i: usize) -> (r: Option<&'a str>)
        requires
            i < tree@.len(),
        ensures
            text_view(r) == java_taints(tree@, i as int),
    {
        if tree.is(i, "variable_declarator") || tree.is(i, "assignment_expression") {
            if let Some(name) = Self::text_of_either(tree, i, "name", "left") {
                if let Some(value) = Self::text_of_either(tree, i, "value", "right") {
                    if Self::is_taint_source(value) {
                        return Some(name);
                    }
                }
            }
        }
        None
    }

    /// Whether a text names something that a user controls.
    pub fn is_taint_source(text: &str) -> (r: bool)
        ensures
            r == java_source(text@),
    {
        let lower = to_lowercase(text);
        Self::is_taint_source_lower(&lower)
    }

    /// Whether a text, in lower case, names something that a user controls.
    pub fn is_taint_source_lower(lower: &str) -> (r: bool)
        ensures
            r == java_source_lower(lower@),
    {
        contains(lower, "getparameter") || contains(lower, "getheader") || contains(
            lower,
            "getinputstream",
        ) || contains(lower, "getreader") || contains(lower, "system.getenv") || contains(
            lower,
            "bufferedreader.read",
        ) || contains(lower, "socket.getinputstream") || contains(lower, "request.")
    }

    /// The places of a source that are dangerous, given the tainted variables.
    pub fn find_dangerous_sinks(tree: &SyntaxTree, path: &str, tainted: &NameSet) -> (r: Vec<
        Finding,
    >)
        ensures
            views(r@) == gather(java_rule(tree@, path@, tainted@), tree@.len()),
    {
        let mut findings: Vec<Finding> = Vec::new();
        let n: usize = tree.len();
        let mut i: usize = 0;
        assert(views(findings@) =~= Seq::<FindingModel>::empty());
        while i < n
            invariant
                i <= n,
                n == tree@.len(),
                views(findings@) == gather(java_rule(tree@, path@, tainted@), i as int),
            decreases n - i,
        {
            Self::check_node(tree, path, i, tainted, &mut findings);
            i = i + 1;
        }
        findings
    }

    fn check_node(
        tree: &SyntaxTree,
        path: &str,
        i: usize,
        tainted: &NameSet,
        findings: &mut Vec<Finding>,
    )
        requires
            i < tree@.len(),
        ensures
            views(final(findings)@) == views(old(findings)@) + java_findings(
                tree@,
                path@,
                i as int,
                tainted@,
            ),
    {
        let ghost before = views(findings@);
        assert(before + Seq::<FindingModel>::empty() =~= before);
        if tree.is(i, "method_invocation") {
            if let Some(name) = text_of_field(tree, i, "name") {
                let lower = to_lowercase(name);
                let on_stream = match text_of_field(tree, i, "object") {
                    Some(text) => {
                        let object = to_lowercase(text);
                        contains(&object, "objectinputstream")
                    },
                    None => false,
                };
                extend(findings, Self::check_call(tree, path, i, &lower, on_stream, tainted));
            }
        } else if tree.is(i, "class_declaration") {
            if let Some(body) = text_of_field(tree, i, "body") {
                report_if(
                    findings,
                    Self::is_unguarded(body),
                    tree,
                    path,
                    i,
                    Severity::Medium,
                    "java_serializable",
                    "Class implements Serializable without validation",
                    "Add readObject() with InputValidation",
                    75,
                );
            }
        }
    }

    fn is_unguarded(body: &str) -> (r: bool)
        ensures
            r == unguarded_serializable(body@),
    {
        (contains(body, "implements Serializable") || contains(
            body,
            "implements java.io.Serializable",
        )) && !contains(body, "readObject") && !contains(body, "ObjectInputValidation")
    }

    /// Reports a call of a method, given its name in lower case, and whether it is called on an
    /// object input stream.
    pub fn check_call(
        tree: &SyntaxTree,
        path: &str,
        i: usize,
        lower: &str,
        on_stream: bool,
        tainted: &NameSet,
    ) -> (r: Vec<Finding>)
        requires
            i < tree@.len(),
        ensures
            views(r@) == java_call_findings(
                tree@,
                path@,
                i as int,
                lower@,
                on_stream,
                tainted@,
            ),
    {
        let mut findings: Vec<Finding> = Vec::new();
        assert(views(findings@) =~= Seq::<FindingModel>::empty());
        let taint = Self::has_tainted_argument(tree, i, tainted);
        report_if(
            &mut findings,
            (same(lower, "readobject") || same(lower, "readunshared")) && on_stream,
            tree,
            path,
            i,
            Severity::Critical,
            "java_deserialization",
            "Insecure Java deserialization - RCE risk",
            "Use look-ahead ObjectInputStream with class whitelist",
            94,
        );
        report_if(
            &mut findings,
            same(lower, "exec") && taint,
            tree,
            path,
            i,
            Severity::Critical,
            "java_command_injection",
            "Runtime.exec with user input - command injection",
            "Use ProcessBuilder with array, validate command",
            91,
        );
        let concatenated = match text_of_field(tree, i, "arguments") {
            Some(text) => contains(text, "+") || contains(text, "string.format") || contains(
                text,
                "concat",
            ) || contains(text, "append"),
            None => false,
        };
        report_if(
            &mut findings,
            (same(lower, "execute") || same(lower, "executequery") || same(lower, "executeupdate"))
                && concatenated && taint,
            tree,
            path,
            i,
            Severity::Critical,
            "java_sql_injection",
            "SQL query with string concatenation",
            "Use PreparedStatement with ? placeholders",
            89,
        );
        report_if(
            &mut findings,
            same(lower, "compile") && taint,
            tree,
            path,
            i,
            Severity::High,
            "java_xpath_injection",
            "XPath expression with user input",
            "Validate XPath expression or use parameterized queries",
            82,
        );
        report_if(
            &mut findings,
            same(lower, "parse") || same(lower, "newdocumentbuilder"),
            tree,
            path,
            i,
            Severity::High,
            "java_xxe",
            "XML parsing without XXE protection",
            "Disable external entities: setFeature(XMLConstants.FEATURE_SECURE_PROCESSING, true)",
            80,
        );
        report_if(
            &mut findings,
            contains(lower, "ldap") && taint,
            tree,
            path,
            i,
            Severity::High,
            "java_ldap_injection",
            "LDAP query with user input",
            "Escape LDAP filter special characters",
            82,
        );
        findings
    }

    /// Whether the arguments of a call hold a tainted variable.
    pub fn has_tainted_argument(tree: &SyntaxTree, i: usize, tainted: &NameSet) -> (r: bool)
        requires
            i < tree@.len(),
        ensures
            r == java_tainted_argument(tree@, i as int, tainted@),
    {
        match text_of_field(tree, i, "arguments") {
            Some(text) => tainted.any_in(text),
            None => false,
        }
    }
}

} // verus!
