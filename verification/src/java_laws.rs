//! What a scan of a Java source takes for user input, and what it says of it.
use vstd::prelude::*;

use crate::c_laws::{one_if, says};
use crate::finding::{lemma_gathered, lemma_in_left, lemma_in_right, Severity};
use crate::java::{java_rule, java_scan, java_source, java_taint_rule, java_tainted, java_taints};
use crate::outside::lowercase;
use crate::rule::{at_node, lemma_in_report};
use crate::syntax::TreeModel;
use crate::text::mentions;

verus! {

/// A text is user input exactly where one of these stands in it, in whatever case.
pub proof fn user_input_of_java(text: Seq<char>)
    ensures
        java_source(text) == ({
            let lower = lowercase(text);
            ||| mentions(lower, "getparameter"@)
            ||| mentions(lower, "getheader"@)
            ||| mentions(lower, "getinputstream"@)
            ||| mentions(lower, "getreader"@)
            ||| mentions(lower, "system.getenv"@)
            ||| mentions(lower, "bufferedreader.read"@)
            ||| mentions(lower, "request."@)
        }),
{
    let lower = lowercase(text);
    reveal_strlit("getinputstream");
    reveal_strlit("socket.getinputstream");
    assert("socket.getinputstream"@.skip(7) =~= "getinputstream"@);
    if mentions(lower, "socket.getinputstream"@) {
        let k = choose|k: int| crate::text::occurs_at(lower, "socket.getinputstream"@, k);
        assert(lower.subrange(k + 7, k + 7 + 14) =~= lower.subrange(k, k + 21).skip(7));
        assert(crate::text::occurs_at(lower, "getinputstream"@, k + 7));
    }
}

/// Whether the node `i` gives the variable `name` user input: it is a declaration with a value or
/// an assignment.
pub open spec fn gives_parameter(t: TreeModel, i: int, name: Seq<char>) -> bool {
    exists|value: int|
        {
            let lower = lowercase(#[trigger] t.text(value));
            &&& given(t, i, name, value)
            &&& mentions(lower, "getparameter"@) || mentions(lower, "getheader"@) || mentions(
                lower,
                "getinputstream"@,
            ) || mentions(lower, "getreader"@) || mentions(lower, "system.getenv"@) || mentions(
                lower,
                "bufferedreader.read"@,
            ) || mentions(lower, "request."@)
        }
}

/// Whether the node `i` gives the variable `name` the value at the node `value`. A node of either
/// kind that fills the fields of the other is read by the fields of a declaration first.
pub open spec fn given(t: TreeModel, i: int, name: Seq<char>, value: int) -> bool {
    &&& t.is(i, "variable_declarator"@) || t.is(i, "assignment_expression"@)
    &&& match t.field(i, "name"@) {
        Some(c) => t.text(c) == name,
        None => t.field(i, "left"@) matches Some(c) && t.text(c) == name,
    }
    &&& match t.field(i, "value"@) {
        Some(c) => c == value,
        None => t.field(i, "right"@) == Some(value),
    }
}

/// The tainted variables are those that are given user input somewhere, and no others.
pub proof fn tainted_variables_of_java(t: TreeModel, name: Seq<char>)
    ensures
        java_tainted(t).contains(name) <==> exists|i: int|
            0 <= i < t.len() && #[trigger] gives_parameter(t, i, name),
{
    let rule = java_taint_rule(t);
    if java_tainted(t).contains(name) {
        let j = choose|j: int| 0 <= j < t.len() && #[trigger] rule(j) == Some(name);
        let value = match t.field(j, "value"@) {
            Some(c) => c,
            None => t.field(j, "right"@)->0,
        };
        user_input_of_java(t.text(value));
        assert(given(t, j, name, value));
        assert(gives_parameter(t, j, name));
    }
    if exists|i: int| 0 <= i < t.len() && #[trigger] gives_parameter(t, i, name) {
        let i = choose|i: int| 0 <= i < t.len() && #[trigger] gives_parameter(t, i, name);
        let value = match t.field(i, "value"@) {
            Some(c) => c,
            None => t.field(i, "right"@)->0,
        };
        user_input_of_java(t.text(value));
        assert(java_taints(t, i) == Some(name));
        assert(rule(i) == Some(name));
    }
}

/// A variable that a declaration, or an assignment, gives user input is tainted.
pub proof fn given_input_taints_in_java(
    t: TreeModel,
    i: int,
    variable: int,
    value: int,
)
    requires
        0 <= i < t.len(),
        ({
            ||| t.is(i, "variable_declarator"@) && t.field(i, "name"@) == Some(variable)
                && t.field(i, "value"@) == Some(value)
            ||| t.is(i, "assignment_expression"@) && t.field(i, "name"@) is None && t.field(
                i,
                "value"@,
            ) is None && t.field(i, "left"@) == Some(variable) && t.field(i, "right"@) == Some(
                value,
            )
        }),
        ({
            let lower = lowercase(t.text(value));
            ||| mentions(lower, "getparameter"@)
            ||| mentions(lower, "getheader"@)
            ||| mentions(lower, "getinputstream"@)
            ||| mentions(lower, "getreader"@)
            ||| mentions(lower, "system.getenv"@)
            ||| mentions(lower, "bufferedreader.read"@)
            ||| mentions(lower, "request."@)
        }),
    ensures
        java_tainted(t).contains(t.text(variable)),
{
    assert(given(t, i, t.text(variable), value));
    assert(gives_parameter(t, i, t.text(variable)));
    tainted_variables_of_java(t, t.text(variable));
}

proof fn lemma_java_kinds()
    ensures
        "method_invocation"@ != "class_declaration"@,
{
    reveal_strlit("method_invocation");
    reveal_strlit("class_declaration");
    assert("method_invocation"@[0] == 'm');
    assert("class_declaration"@[0] == 'c');
}

/// What a call of a method is reported for: what it reads from an object stream, what it runs, asks
/// or compiles with a tainted variable, and what it parses; and for nothing else.
pub proof fn calls_of_java(
    t: TreeModel,
    path: Seq<char>,
    i: int,
    callee: int,
)
    requires
        0 <= i < t.len(),
        t.is(i, "method_invocation"@),
        t.field(i, "name"@) == Some(callee),
    ensures
        ({
            let name = lowercase(t.text(callee));
            let tainted = t.field(i, "arguments"@) matches Some(a) && (exists|x: Seq<char>| #[trigger]
                java_tainted(t).contains(x) && mentions(t.text(a), x));
            let stream = t.field(i, "object"@) matches Some(o) && mentions(
                lowercase(t.text(o)),
                "objectinputstream"@,
            );
            let joined = t.field(i, "arguments"@) matches Some(a) && (mentions(t.text(a), "+"@)
                || mentions(t.text(a), "string.format"@) || mentions(t.text(a), "concat"@)
                || mentions(t.text(a), "append"@));
            let c0 = (name == "readobject"@ || name == "readunshared"@) && stream;
            let c1 = name == "exec"@ && tainted;
            let c2 = (name == "execute"@ || name == "executequery"@ || name == "executeupdate"@)
                && joined && tainted;
            let c3 = name == "compile"@ && tainted;
            let c4 = name == "parse"@ || name == "newdocumentbuilder"@;
            let c5 = mentions(name, "ldap"@) && tainted;
            &&& java_rule(t, path, java_tainted(t))(i).len() == one_if(c0) + one_if(c1) + one_if(c2)
                + one_if(c3) + one_if(c4) + one_if(c5)
            &&& c0 ==> says(
                java_scan(t, path),
                t,
                path,
                i,
                Severity::Critical,
                "java_deserialization"@,
                "Insecure Java deserialization - RCE risk"@,
                "Use look-ahead ObjectInputStream with class whitelist"@,
                94,
            )
            &&& c1 ==> says(
                java_scan(t, path),
                t,
                path,
                i,
                Severity::Critical,
                "java_command_injection"@,
                "Runtime.exec with user input - command injection"@,
                "Use ProcessBuilder with array, validate command"@,
                91,
            )
            &&& c2 ==> says(
                java_scan(t, path),
                t,
                path,
                i,
                Severity::Critical,
                "java_sql_injection"@,
                "SQL query with string concatenation"@,
                "Use PreparedStatement with ? placeholders"@,
                89,
            )
            &&& c3 ==> says(
                java_scan(t, path),
                t,
                path,
                i,
                Severity::High,
                "java_xpath_injection"@,
                "XPath expression with user input"@,
                "Validate XPath expression or use parameterized queries"@,
                82,
            )
            &&& c4 ==> says(
                java_scan(t, path),
                t,
                path,
                i,
                Severity::High,
                "java_xxe"@,
                "XML parsing without XXE protection"@,
                "Disable external entities: setFeature(XMLConstants.FEATURE_SECURE_PROCESSING, true)"@,
                80,
            )
            &&& c5 ==> says(
                java_scan(t, path),
                t,
                path,
                i,
                Severity::High,
                "java_ldap_injection"@,
                "LDAP query with user input"@,
                "Escape LDAP filter special characters"@,
                82,
            )
        }),
{
    broadcast use {lemma_in_left, lemma_in_right, lemma_in_report};

    lemma_java_kinds();
    let rule = java_rule(t, path, java_tainted(t));
    let name = lowercase(t.text(callee));
    let tainted = t.field(i, "arguments"@) matches Some(a) && (exists|x: Seq<char>| #[trigger]
                java_tainted(t).contains(x) && mentions(t.text(a), x));
    let stream = t.field(i, "object"@) matches Some(o) && mentions(
                lowercase(t.text(o)),
                "objectinputstream"@,
            );
    let joined = t.field(i, "arguments"@) matches Some(a) && (mentions(t.text(a), "+"@)
                || mentions(t.text(a), "string.format"@) || mentions(t.text(a), "concat"@)
                || mentions(t.text(a), "append"@));
    if (name == "readobject"@ || name == "readunshared"@) && stream {
        let f = at_node(
            t,
            path,
            i,
            Severity::Critical,
            "java_deserialization"@,
            "Insecure Java deserialization - RCE risk"@,
            "Use look-ahead ObjectInputStream with class whitelist"@,
            94,
        );
        assert(rule(i).contains(f));
        lemma_gathered(rule, t.len(), i, f);
    }
    if name == "exec"@ && tainted {
        let f = at_node(
            t,
            path,
            i,
            Severity::Critical,
            "java_command_injection"@,
            "Runtime.exec with user input - command injection"@,
            "Use ProcessBuilder with array, validate command"@,
            91,
        );
        assert(rule(i).contains(f));
        lemma_gathered(rule, t.len(), i, f);
    }
    if (name == "execute"@ || name == "executequery"@ || name == "executeupdate"@) && joined
        && tainted {
        let f = at_node(
            t,
            path,
            i,
            Severity::Critical,
            "java_sql_injection"@,
            "SQL query with string concatenation"@,
            "Use PreparedStatement with ? placeholders"@,
            89,
        );
        assert(rule(i).contains(f));
        lemma_gathered(rule, t.len(), i, f);
    }
    if name == "compile"@ && tainted {
        let f = at_node(
            t,
            path,
            i,
            Severity::High,
            "java_xpath_injection"@,
            "XPath expression with user input"@,
            "Validate XPath expression or use parameterized queries"@,
            82,
        );
        assert(rule(i).contains(f));
        lemma_gathered(rule, t.len(), i, f);
    }
    if name == "parse"@ || name == "newdocumentbuilder"@ {
        let f = at_node(
            t,
            path,
            i,
            Severity::High,
            "java_xxe"@,
            "XML parsing without XXE protection"@,
            "Disable external entities: setFeature(XMLConstants.FEATURE_SECURE_PROCESSING, true)"@,
            80,
        );
        assert(rule(i).contains(f));
        lemma_gathered(rule, t.len(), i, f);
    }
    if mentions(name, "ldap"@) && tainted {
        let f = at_node(
            t,
            path,
            i,
            Severity::High,
            "java_ldap_injection"@,
            "LDAP query with user input"@,
            "Escape LDAP filter special characters"@,
            82,
        );
        assert(rule(i).contains(f));
        lemma_gathered(rule, t.len(), i, f);
    }
}
/// What a class is reported for: that something in it can be read from a stream, with no safeguard.
pub proof fn classes_of_java(
    t: TreeModel,
    path: Seq<char>,
    i: int,
    body: int,
)
    requires
        0 <= i < t.len(),
        t.is(i, "class_declaration"@),
        t.field(i, "body"@) == Some(body),
    ensures
        ({
            let text = t.text(body);
            let c0 = (mentions(text, "implements Serializable"@) || mentions(
                text,
                "implements java.io.Serializable"@,
            )) && !mentions(text, "readObject"@) && !mentions(text, "ObjectInputValidation"@);
            &&& java_rule(t, path, java_tainted(t))(i).len() == one_if(c0)
            &&& c0 ==> says(
                java_scan(t, path),
                t,
                path,
                i,
                Severity::Medium,
                "java_serializable"@,
                "Class implements Serializable without validation"@,
                "Add readObject() with InputValidation"@,
                75,
            )
        }),
{
    broadcast use {lemma_in_left, lemma_in_right, lemma_in_report};

    lemma_java_kinds();
    let rule = java_rule(t, path, java_tainted(t));
    let text = t.text(body);
    if (mentions(text, "implements Serializable"@) || mentions(
                text,
                "implements java.io.Serializable"@,
            )) && !mentions(text, "readObject"@) && !mentions(text, "ObjectInputValidation"@) {
        let f = at_node(
            t,
            path,
            i,
            Severity::Medium,
            "java_serializable"@,
            "Class implements Serializable without validation"@,
            "Add readObject() with InputValidation"@,
            75,
        );
        assert(rule(i).contains(f));
        lemma_gathered(rule, t.len(), i, f);
    }
}
/// Of a node that is neither a call of a method nor a class nothing is said.
pub proof fn nothing_else_of_java(t: TreeModel, path: Seq<char>, i: int)
    requires
        !t.is(i, "method_invocation"@),
        !t.is(i, "class_declaration"@),
    ensures
        java_rule(t, path, java_tainted(t))(i).len() == 0,
{
}

} // verus!
