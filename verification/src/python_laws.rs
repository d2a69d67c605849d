//! What a scan of a Python source takes for user input, and what it says of it.
use vstd::prelude::*;

use crate::c_laws::{one_if, says};
use crate::finding::{lemma_gathered, lemma_in_left, lemma_in_right, Severity};
use crate::outside::lowercase;
use crate::python::{py_rule, py_scan, py_source, py_taint_rule, py_tainted, py_taints};
use crate::rule::{at_node, lemma_in_report};
use crate::syntax::TreeModel;
use crate::text::mentions;

verus! {

/// A text is user input exactly where one of these stands in it, in whatever case.
pub proof fn user_input_of_python(text: Seq<char>)
    ensures
        py_source(text) == ({
            let lower = lowercase(text);
            ||| mentions(lower, "input("@)
            ||| mentions(lower, "sys.argv"@)
            ||| mentions(lower, "request."@)
            ||| mentions(lower, "os.environ["@)
            ||| mentions(lower, "socket.recv"@)
            ||| mentions(lower, "read("@)
            ||| mentions(lower, "json.loads"@) && mentions(lower, "request"@)
        }),
{
}

/// Whether the node `i` assigns user input to the variable `name`.
pub open spec fn assigns_input(t: TreeModel, i: int, name: Seq<char>) -> bool {
    &&& t.is(i, "assignment"@)
    &&& t.field(i, "left"@) matches Some(c) && t.text(c) == name
    &&& t.field(i, "right"@) matches Some(v) && {
        let lower = lowercase(t.text(v));
        ||| mentions(lower, "input("@)
        ||| mentions(lower, "sys.argv"@)
        ||| mentions(lower, "request."@)
        ||| mentions(lower, "os.environ["@)
        ||| mentions(lower, "socket.recv"@)
        ||| mentions(lower, "read("@)
        ||| mentions(lower, "json.loads"@) && mentions(lower, "request"@)
    }
}

/// The tainted variables are those that are assigned user input somewhere, and no others.
pub proof fn tainted_variables_of_python(t: TreeModel, name: Seq<char>)
    ensures
        py_tainted(t).contains(name) <==> exists|i: int|
            0 <= i < t.len() && #[trigger] assigns_input(t, i, name),
{
    let rule = py_taint_rule(t);
    if py_tainted(t).contains(name) {
        let j = choose|j: int| 0 <= j < t.len() && #[trigger] rule(j) == Some(name);
        assert(assigns_input(t, j, name));
    }
    if exists|i: int| 0 <= i < t.len() && #[trigger] assigns_input(t, i, name) {
        let i = choose|i: int| 0 <= i < t.len() && #[trigger] assigns_input(t, i, name);
        assert(py_taints(t, i) == Some(name));
        assert(rule(i) == Some(name));
    }
}

proof fn lemma_python_kinds()
    ensures
        "call"@ != "template_string"@,
        "call"@ != "string"@,
{
    reveal_strlit("call");
    reveal_strlit("template_string");
    reveal_strlit("string");
    assert("call"@.len() == 4);
    assert("template_string"@.len() == 15);
    assert("string"@.len() == 6);
}

/// What a call is reported for, by what it calls and by its arguments; and for nothing else.
pub proof fn calls_of_python(
    t: TreeModel,
    path: Seq<char>,
    i: int,
    func: int,
)
    requires
        0 <= i < t.len(),
        t.is(i, "call"@),
        t.field(i, "function"@) == Some(func),
    ensures
        ({
            let name = lowercase(t.text(func));
            let tainted = t.field(i, "arguments"@) matches Some(a) && (exists|x: Seq<char>| #[trigger]
                py_tainted(t).contains(x) && mentions(t.text(a), x));
            let shell = t.field(i, "arguments"@) matches Some(a) && mentions(t.text(a), "shell"@)
                && mentions(t.text(a), "True"@);
            let formatted = t.field(i, "arguments"@) matches Some(a) && (mentions(t.text(a), "%"@)
                || mentions(t.text(a), ".format("@) || mentions(t.text(a), "f\""@));
            let c0 = mentions(name, "eval"@) && !mentions(name, "literal_eval"@) && tainted;
            let c1 = name == "exec"@ && tainted;
            let c2 = mentions(name, "pickle.load"@);
            let c3 = mentions(name, "yaml.load"@) && !mentions(name, "safe_load"@);
            let c4 = mentions(name, "subprocess"@) && mentions(name, "call"@) && shell;
            let c5 = mentions(name, "os.system"@);
            let c6 = (mentions(name, "execute"@) || mentions(name, "executemany"@)) && formatted
                && tainted;
            &&& py_rule(t, path, py_tainted(t))(i).len() == one_if(c0) + one_if(c1) + one_if(c2)
                + one_if(c3) + one_if(c4) + one_if(c5) + one_if(c6)
            &&& c0 ==> says(
                py_scan(t, path),
                t,
                path,
                i,
                Severity::Critical,
                "python_tainted_eval"@,
                "eval() called with tainted input: "@ + t.text(func),
                "Never eval user input - use ast.literal_eval for safe parsing"@,
                96,
            )
            &&& c1 ==> says(
                py_scan(t, path),
                t,
                path,
                i,
                Severity::Critical,
                "python_tainted_exec"@,
                "exec() called with user input"@,
                "Never execute user input - massive RCE risk"@,
                96,
            )
            &&& c2 ==> says(
                py_scan(t, path),
                t,
                path,
                i,
                Severity::Critical,
                "python_pickle"@,
                "Insecure pickle deserialization"@,
                "Only unpickle cryptographically signed data"@,
                92,
            )
            &&& c3 ==> says(
                py_scan(t, path),
                t,
                path,
                i,
                Severity::Critical,
                "python_yaml_load"@,
                "Unsafe YAML load - arbitrary code execution"@,
                "Use yaml.safe_load() instead"@,
                94,
            )
            &&& c4 ==> says(
                py_scan(t, path),
                t,
                path,
                i,
                Severity::Critical,
                "python_shell_injection"@,
                "subprocess with shell=True - command injection"@,
                "Use shell=False with list of arguments"@,
                90,
            )
            &&& c5 ==> says(
                py_scan(t, path),
                t,
                path,
                i,
                Severity::Critical,
                "python_os_system"@,
                "os.system() - command injection risk"@,
                "Use subprocess with shell=False"@,
                88,
            )
            &&& c6 ==> says(
                py_scan(t, path),
                t,
                path,
                i,
                Severity::Critical,
                "python_sql_injection"@,
                "SQL query with string formatting and user input"@,
                "Use parameterized queries with placeholders"@,
                87,
            )
        }),
{
    broadcast use {lemma_in_left, lemma_in_right, lemma_in_report};

    lemma_python_kinds();
    let rule = py_rule(t, path, py_tainted(t));
    let name = lowercase(t.text(func));
    let tainted = t.field(i, "arguments"@) matches Some(a) && (exists|x: Seq<char>| #[trigger]
                py_tainted(t).contains(x) && mentions(t.text(a), x));
    let shell = t.field(i, "arguments"@) matches Some(a) && mentions(t.text(a), "shell"@)
                && mentions(t.text(a), "True"@);
    let formatted = t.field(i, "arguments"@) matches Some(a) && (mentions(t.text(a), "%"@)
                || mentions(t.text(a), ".format("@) || mentions(t.text(a), "f\""@));
    if mentions(name, "eval"@) && !mentions(name, "literal_eval"@) && tainted {
        let f = at_node(
            t,
            path,
            i,
            Severity::Critical,
            "python_tainted_eval"@,
            "eval() called with tainted input: "@ + t.text(func),
            "Never eval user input - use ast.literal_eval for safe parsing"@,
            96,
        );
        assert(rule(i).contains(f));
        lemma_gathered(rule, t.len(), i, f);
    }
    if name == "exec"@ && tainted {
        let f = at_node(
            t,
            path,
            i,
            Severity::Critical,
            "python_tainted_exec"@,
            "exec() called with user input"@,
            "Never execute user input - massive RCE risk"@,
            96,
        );
        assert(rule(i).contains(f));
        lemma_gathered(rule, t.len(), i, f);
    }
    if mentions(name, "pickle.load"@) {
        let f = at_node(
            t,
            path,
            i,
            Severity::Critical,
            "python_pickle"@,
            "Insecure pickle deserialization"@,
            "Only unpickle cryptographically signed data"@,
            92,
        );
        assert(rule(i).contains(f));
        lemma_gathered(rule, t.len(), i, f);
    }
    if mentions(name, "yaml.load"@) && !mentions(name, "safe_load"@) {
        let f = at_node(
            t,
            path,
            i,
            Severity::Critical,
            "python_yaml_load"@,
            "Unsafe YAML load - arbitrary code execution"@,
            "Use yaml.safe_load() instead"@,
            94,
        );
        assert(rule(i).contains(f));
        lemma_gathered(rule, t.len(), i, f);
    }
    if mentions(name, "subprocess"@) && mentions(name, "call"@) && shell {
        let f = at_node(
            t,
            path,
            i,
            Severity::Critical,
            "python_shell_injection"@,
            "subprocess with shell=True - command injection"@,
            "Use shell=False with list of arguments"@,
            90,
        );
        assert(rule(i).contains(f));
        lemma_gathered(rule, t.len(), i, f);
    }
    if mentions(name, "os.system"@) {
        let f = at_node(
            t,
            path,
            i,
            Severity::Critical,
            "python_os_system"@,
            "os.system() - command injection risk"@,
            "Use subprocess with shell=False"@,
            88,
        );
        assert(rule(i).contains(f));
        lemma_gathered(rule, t.len(), i, f);
    }
    if (mentions(name, "execute"@) || mentions(name, "executemany"@)) && formatted
                && tainted {
        let f = at_node(
            t,
            path,
            i,
            Severity::Critical,
            "python_sql_injection"@,
            "SQL query with string formatting and user input"@,
            "Use parameterized queries with placeholders"@,
            87,
        );
        assert(rule(i).contains(f));
        lemma_gathered(rule, t.len(), i, f);
    }
}
/// Every string with a template in it that holds a tainted variable is reported, and no other.
pub proof fn templates_of_python(
    t: TreeModel,
    path: Seq<char>,
    i: int,
)
    requires
        0 <= i < t.len(),
        t.is(i, "template_string"@) || t.is(i, "string"@),
    ensures
        ({
            let text = t.text(i);
            let c0 = mentions(text, "{{"@) && mentions(text, "}}"@) && (exists|x: Seq<char>| #[trigger]
                py_tainted(t).contains(x) && mentions(text, x));
            &&& py_rule(t, path, py_tainted(t))(i).len() == one_if(c0)
            &&& c0 ==> says(
                py_scan(t, path),
                t,
                path,
                i,
                Severity::Critical,
                "python_ssti"@,
                "Template string with user input - SSTI risk"@,
                "Use template engines with auto-escaping"@,
                82,
            )
        }),
{
    broadcast use {lemma_in_left, lemma_in_right, lemma_in_report};

    lemma_python_kinds();
    let rule = py_rule(t, path, py_tainted(t));
    let text = t.text(i);
    if mentions(text, "{{"@) && mentions(text, "}}"@) && (exists|x: Seq<char>| #[trigger]
                py_tainted(t).contains(x) && mentions(text, x)) {
        let f = at_node(
            t,
            path,
            i,
            Severity::Critical,
            "python_ssti"@,
            "Template string with user input - SSTI risk"@,
            "Use template engines with auto-escaping"@,
            82,
        );
        assert(rule(i).contains(f));
        lemma_gathered(rule, t.len(), i, f);
    }
}
/// Of a node that is neither a call nor a string nothing is said.
pub proof fn nothing_else_of_python(t: TreeModel, path: Seq<char>, i: int)
    requires
        !t.is(i, "call"@),
        !t.is(i, "template_string"@),
        !t.is(i, "string"@),
    ensures
        py_rule(t, path, py_tainted(t))(i).len() == 0,
{
}

} // verus!
