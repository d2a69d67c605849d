//! What a scan of a JavaScript or TypeScript source takes for user input, and what it says of it.
use vstd::prelude::*;

use crate::c_laws::{one_if, says};
use crate::finding::{lemma_gathered, lemma_in_left, lemma_in_right, Severity};
use crate::javascript::{js_rule, js_scan, js_source, js_taint_rule, js_tainted, js_taints};
use crate::outside::lowercase;
use crate::rule::{at_node, lemma_in_report};
use crate::syntax::TreeModel;
use crate::text::{lemma_mentions_longer, mentions};

verus! {

/// A text is user input exactly where one of these stands in it, in whatever case.
pub proof fn user_input_of_javascript(text: Seq<char>)
    ensures
        js_source(text) == ({
            let lower = lowercase(text);
            ||| mentions(lower, "req."@)
            ||| mentions(lower, "request."@)
            ||| mentions(lower, "location."@)
            ||| mentions(lower, "window.location"@)
            ||| mentions(lower, "document.cookie"@)
            ||| mentions(lower, "localstorage"@)
            ||| mentions(lower, "sessionstorage"@)
            ||| mentions(lower, "postmessage"@)
        }),
{
    let lower = lowercase(text);
    reveal_strlit("req.");
    reveal_strlit("req.body");
    reveal_strlit("req.query");
    reveal_strlit("req.params");
    assert("req.body"@.take(4) =~= "req."@);
    assert("req.query"@.take(4) =~= "req."@);
    assert("req.params"@.take(4) =~= "req."@);
    lemma_mentions_longer(lower, "req.body"@, 4);
    lemma_mentions_longer(lower, "req.query"@, 4);
    lemma_mentions_longer(lower, "req.params"@, 4);
}

/// Whether the node `i` is user input that is given to the variable `name`: it stands directly
/// below an assignment to it, or below its declaration.
pub open spec fn gives_user_input(t: TreeModel, i: int, name: Seq<char>) -> bool {
    let lower = lowercase(t.text(i));
    &&& t.is(i, "member_expression"@) || t.is(i, "identifier"@)
    &&& mentions(lower, "req."@) || mentions(lower, "request."@) || mentions(lower, "location."@)
        || mentions(lower, "window.location"@) || mentions(lower, "document.cookie"@) || mentions(
        lower,
        "localstorage"@,
    ) || mentions(lower, "sessionstorage"@) || mentions(lower, "postmessage"@)
    &&& t.parent(i) matches Some(p) && {
        ||| t.is(p, "assignment_expression"@) && (t.field(p, "left"@) matches Some(c) && t.text(c)
            == name)
        ||| t.is(p, "variable_declarator"@) && (t.field(p, "name"@) matches Some(c) && t.text(c)
            == name)
    }
}

/// The tainted variables are those that are given user input somewhere, and no others.
pub proof fn tainted_variables_of_javascript(t: TreeModel, name: Seq<char>)
    ensures
        js_tainted(t).contains(name) <==> exists|i: int|
            0 <= i < t.len() && #[trigger] gives_user_input(t, i, name),
{
    reveal_strlit("assignment_expression");
    reveal_strlit("variable_declarator");
    assert("assignment_expression"@.len() == 21);
    assert("variable_declarator"@.len() == 19);
    let rule = js_taint_rule(t);
    assert forall|i: int| #[trigger] gives_user_input(t, i, name) implies js_taints(t, i) == Some(
        name,
    ) by {
        user_input_of_javascript(t.text(i));
    }
    if js_tainted(t).contains(name) {
        let j = choose|j: int| 0 <= j < t.len() && #[trigger] rule(j) == Some(name);
        user_input_of_javascript(t.text(j));
        assert(gives_user_input(t, j, name));
    }
    if exists|i: int| 0 <= i < t.len() && #[trigger] gives_user_input(t, i, name) {
        let i = choose|i: int| 0 <= i < t.len() && #[trigger] gives_user_input(t, i, name);
        assert(rule(i) == Some(name));
    }
}

/// Whether a text holds user input, or a variable that was given some.
pub open spec fn carries_user_input(t: TreeModel, text: Seq<char>) -> bool {
    let lower = lowercase(text);
    ||| exists|x: Seq<char>| #[trigger] js_tainted(t).contains(x) && mentions(text, x)
    ||| mentions(lower, "req."@)
    ||| mentions(lower, "request."@)
    ||| mentions(lower, "location."@)
    ||| mentions(lower, "window.location"@)
    ||| mentions(lower, "document.cookie"@)
    ||| mentions(lower, "localstorage"@)
    ||| mentions(lower, "sessionstorage"@)
    ||| mentions(lower, "postmessage"@)
}

proof fn lemma_javascript_kinds()
    ensures
        "call_expression"@ != "assignment_expression"@,
        "call_expression"@ != "member_expression"@,
        "assignment_expression"@ != "member_expression"@,
{
    reveal_strlit("call_expression");
    reveal_strlit("assignment_expression");
    reveal_strlit("member_expression");
    assert("call_expression"@.len() == 15);
    assert("assignment_expression"@.len() == 21);
    assert("member_expression"@.len() == 17);
}

/// Every assignment to `innerHTML` of user input, in whatever form, is reported, and so is every
/// assignment to what is written into a document; of no other assignment anything is said.
pub proof fn page_writes_of_javascript(
    t: TreeModel,
    path: Seq<char>,
    i: int,
    left: int,
    right: int,
)
    requires
        0 <= i < t.len(),
        t.is(i, "assignment_expression"@),
        t.field(i, "left"@) == Some(left),
        t.field(i, "right"@) == Some(right),
    ensures
        ({
            let target = lowercase(t.text(left));
            let value = lowercase(t.text(right));
            let c0 = mentions(target, "innerhtml"@) && ((exists|x: Seq<char>| #[trigger]
                js_tainted(t).contains(x) && mentions(t.text(right), x)) || mentions(value, "req."@)
                || mentions(value, "request."@) || mentions(value, "location."@) || mentions(
                value,
                "window.location"@,
            ) || mentions(value, "document.cookie"@) || mentions(value, "localstorage"@)
                || mentions(value, "sessionstorage"@) || mentions(value, "postmessage"@));
            let c1 = mentions(target, "document.write"@);
            &&& js_rule(t, path, js_tainted(t))(i).len() == one_if(c0) + one_if(c1)
            &&& c0 ==> says(
                js_scan(t, path),
                t,
                path,
                i,
                Severity::Critical,
                "js_dom_xss"@,
                "innerHTML with user input - XSS"@,
                "Use textContent or DOMPurify.sanitize()"@,
                94,
            )
            &&& c1 ==> says(
                js_scan(t, path),
                t,
                path,
                i,
                Severity::High,
                "js_document_write"@,
                "document.write() - XSS risk"@,
                "Use DOM manipulation methods instead"@,
                85,
            )
        }),
{
    broadcast use {lemma_in_left, lemma_in_right, lemma_in_report};

    lemma_javascript_kinds();
    user_input_of_javascript(t.text(right));
    let rule = js_rule(t, path, js_tainted(t));
    let target = lowercase(t.text(left));
    let value = lowercase(t.text(right));
    if mentions(target, "innerhtml"@) && ((exists|x: Seq<char>| #[trigger]
                js_tainted(t).contains(x) && mentions(t.text(right), x)) || mentions(value, "req."@)
                || mentions(value, "request."@) || mentions(value, "location."@) || mentions(
                value,
                "window.location"@,
            ) || mentions(value, "document.cookie"@) || mentions(value, "localstorage"@)
                || mentions(value, "sessionstorage"@) || mentions(value, "postmessage"@)) {
        let f = at_node(
            t,
            path,
            i,
            Severity::Critical,
            "js_dom_xss"@,
            "innerHTML with user input - XSS"@,
            "Use textContent or DOMPurify.sanitize()"@,
            94,
        );
        assert(rule(i).contains(f));
        lemma_gathered(rule, t.len(), i, f);
    }
    if mentions(target, "document.write"@) {
        let f = at_node(
            t,
            path,
            i,
            Severity::High,
            "js_document_write"@,
            "document.write() - XSS risk"@,
            "Use DOM manipulation methods instead"@,
            85,
        );
        assert(rule(i).contains(f));
        lemma_gathered(rule, t.len(), i, f);
    }
}
/// What a call is reported for: `eval` and `Function` with user input, a timer with a string, and a
/// child process with user input; and for nothing else.
pub proof fn calls_of_javascript(
    t: TreeModel,
    path: Seq<char>,
    i: int,
    func: int,
)
    requires
        0 <= i < t.len(),
        t.is(i, "call_expression"@),
        t.field(i, "function"@) == Some(func),
    ensures
        ({
            let name = lowercase(t.text(func));
            let tainted = t.field(i, "arguments"@) matches Some(a) && carries_user_input(t, t.text(a));
            let quoted = t.field(i, "arguments"@) matches Some(a) && (mentions(t.text(a), "\""@)
                || mentions(t.text(a), "'"@) || mentions(t.text(a), "`"@));
            let c0 = name == "eval"@ && tainted;
            let c1 = name == "function"@ && t.is(func, "identifier"@) && tainted;
            let c2 = (name == "settimeout"@ || name == "setinterval"@) && quoted;
            let c3 = mentions(name, "exec"@) && mentions(name, "child_process"@) && tainted;
            &&& js_rule(t, path, js_tainted(t))(i).len() == one_if(c0) + one_if(c1) + one_if(c2)
                + one_if(c3)
            &&& c0 ==> says(
                js_scan(t, path),
                t,
                path,
                i,
                Severity::Critical,
                "js_tainted_eval"@,
                "eval() with user input - XSS/RCE"@,
                "Never eval user input"@,
                97,
            )
            &&& c1 ==> says(
                js_scan(t, path),
                t,
                path,
                i,
                Severity::Critical,
                "js_function_constructor"@,
                "Function() with user input"@,
                "Never use Function constructor with user input"@,
                95,
            )
            &&& c2 ==> says(
                js_scan(t, path),
                t,
                path,
                i,
                Severity::Critical,
                "js_settimeout_eval"@,
                "setTimeout/setInterval with string - eval equivalent"@,
                "Pass function reference, not string"@,
                92,
            )
            &&& c3 ==> says(
                js_scan(t, path),
                t,
                path,
                i,
                Severity::Critical,
                "js_command_injection"@,
                "child_process.exec with user input"@,
                "Use execFile with array args"@,
                90,
            )
        }),
{
    broadcast use {lemma_in_left, lemma_in_right, lemma_in_report};

    lemma_javascript_kinds();
    if let Some(a) = t.field(i, "arguments"@) {
        user_input_of_javascript(t.text(a));
    }
    let rule = js_rule(t, path, js_tainted(t));
    let name = lowercase(t.text(func));
    let tainted = t.field(i, "arguments"@) matches Some(a) && carries_user_input(t, t.text(a));
    let quoted = t.field(i, "arguments"@) matches Some(a) && (mentions(t.text(a), "\""@)
                || mentions(t.text(a), "'"@) || mentions(t.text(a), "`"@));
    if name == "eval"@ && tainted {
        let f = at_node(
            t,
            path,
            i,
            Severity::Critical,
            "js_tainted_eval"@,
            "eval() with user input - XSS/RCE"@,
            "Never eval user input"@,
            97,
        );
        assert(rule(i).contains(f));
        lemma_gathered(rule, t.len(), i, f);
    }
    if name == "function"@ && t.is(func, "identifier"@) && tainted {
        let f = at_node(
            t,
            path,
            i,
            Severity::Critical,
            "js_function_constructor"@,
            "Function() with user input"@,
            "Never use Function constructor with user input"@,
            95,
        );
        assert(rule(i).contains(f));
        lemma_gathered(rule, t.len(), i, f);
    }
    if (name == "settimeout"@ || name == "setinterval"@) && quoted {
        let f = at_node(
            t,
            path,
            i,
            Severity::Critical,
            "js_settimeout_eval"@,
            "setTimeout/setInterval with string - eval equivalent"@,
            "Pass function reference, not string"@,
            92,
        );
        assert(rule(i).contains(f));
        lemma_gathered(rule, t.len(), i, f);
    }
    if mentions(name, "exec"@) && mentions(name, "child_process"@) && tainted {
        let f = at_node(
            t,
            path,
            i,
            Severity::Critical,
            "js_command_injection"@,
            "child_process.exec with user input"@,
            "Use execFile with array args"@,
            90,
        );
        assert(rule(i).contains(f));
        lemma_gathered(rule, t.len(), i, f);
    }
}
/// What an access to a member is reported for: the prototype of an object, and a `$where` directly
/// below a call with user input; and for nothing else.
pub proof fn members_of_javascript(
    t: TreeModel,
    path: Seq<char>,
    i: int,
)
    requires
        0 <= i < t.len(),
        t.is(i, "member_expression"@),
    ensures
        ({
            let member = lowercase(t.text(i));
            let tainted = t.parent(i) matches Some(p) && t.is(p, "call_expression"@) && (t.field(
                p,
                "arguments"@,
            ) matches Some(a) && carries_user_input(t, t.text(a)));
            let c0 = mentions(member, "__proto__"@) || mentions(member, "constructor.prototype"@);
            let c1 = mentions(member, "$where"@) && tainted;
            &&& js_rule(t, path, js_tainted(t))(i).len() == one_if(c0) + one_if(c1)
            &&& c0 ==> says(
                js_scan(t, path),
                t,
                path,
                i,
                Severity::Critical,
                "js_prototype_pollution"@,
                "Prototype pollution vulnerability"@,
                "Use Object.freeze() or validate property names"@,
                91,
            )
            &&& c1 ==> says(
                js_scan(t, path),
                t,
                path,
                i,
                Severity::Critical,
                "js_nosql_injection"@,
                "$where with user input - NoSQL injection"@,
                "Avoid $where operator, use parameterized queries"@,
                88,
            )
        }),
{
    broadcast use {lemma_in_left, lemma_in_right, lemma_in_report};

    lemma_javascript_kinds();
    if let Some(p) = t.parent(i) {
        if let Some(a) = t.field(p, "arguments"@) {
            user_input_of_javascript(t.text(a));
        }
    }
    let rule = js_rule(t, path, js_tainted(t));
    let member = lowercase(t.text(i));
    let tainted = t.parent(i) matches Some(p) && t.is(p, "call_expression"@) && (t.field(
                p,
                "arguments"@,
            ) matches Some(a) && carries_user_input(t, t.text(a)));
    if mentions(member, "__proto__"@) || mentions(member, "constructor.prototype"@) {
        let f = at_node(
            t,
            path,
            i,
            Severity::Critical,
            "js_prototype_pollution"@,
            "Prototype pollution vulnerability"@,
            "Use Object.freeze() or validate property names"@,
            91,
        );
        assert(rule(i).contains(f));
        lemma_gathered(rule, t.len(), i, f);
    }
    if mentions(member, "$where"@) && tainted {
        let f = at_node(
            t,
            path,
            i,
            Severity::Critical,
            "js_nosql_injection"@,
            "$where with user input - NoSQL injection"@,
            "Avoid $where operator, use parameterized queries"@,
            88,
        );
        assert(rule(i).contains(f));
        lemma_gathered(rule, t.len(), i, f);
    }
}
/// Of a node that is no call, no assignment and no access to a member nothing is said.
pub proof fn nothing_else_of_javascript(t: TreeModel, path: Seq<char>, i: int)
    requires
        !t.is(i, "call_expression"@),
        !t.is(i, "assignment_expression"@),
        !t.is(i, "member_expression"@),
    ensures
        js_rule(t, path, js_tainted(t))(i).len() == 0,
{
}

} // verus!
