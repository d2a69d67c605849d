//! What a scan of a C or C++ source says of each place, by the names that stand in the source.
use vstd::prelude::*;

use crate::advanced::advanced_rule;
use crate::c_checks::{
    assignment_like, banned_calls, entry, identifier_like, leaks, line_rule,
    overflowing_operations, pattern_findings, unbounded_functions, unchecked_allocations,
    watched_calls,
};
use crate::callgraph::{cross_rule, library_summaries, local_summaries};
use crate::dataflow::flow_rule;
use crate::finding::{gather, lemma_gathered, lemma_in_left, lemma_in_right, FindingModel, Severity};
use crate::outside::{alphanumeric, lowercase};
use crate::scanner::c_scan;
use crate::symbolic::{argument_count, symbolic_rule};
use crate::syntax::TreeModel;
use crate::taint::{c_taint_sinks, sink_rule};
use crate::text::{
    begins_with, find_char, is_integer, lemma_find_char, lemma_find_char_unique, lines, mentions, trim,
};
use crate::types::type_rule;

verus! {

/// Whether the node `i` is a call of the function `name`.
pub open spec fn calls(t: TreeModel, i: int, name: Seq<char>) -> bool {
    t.is(i, "call_expression"@) && (t.field(i, "function"@) matches Some(f) && t.text(f) == name)
}

/// Whether the node `i` is a call of some function.
pub open spec fn calls_any(t: TreeModel, i: int) -> bool {
    t.is(i, "call_expression"@) && t.field(i, "function"@) is Some
}

/// The arguments of the call at the node `i`, with the parentheses round them.
pub open spec fn argument_text(t: TreeModel, i: int, args: Seq<char>) -> bool {
    t.field(i, "arguments"@) matches Some(a) && t.text(a) == args
}

/// Whether a list holds the finding that says this of the node `i`.
pub open spec fn says(
    list: Seq<FindingModel>,
    t: TreeModel,
    path: Seq<char>,
    i: int,
    severity: Severity,
    category: Seq<char>,
    message: Seq<char>,
    suggestion: Seq<char>,
    confidence: nat,
) -> bool {
    list.contains(
        (FindingModel {
            file: path,
            line: t.place(i).0,
            column: t.place(i).1,
            severity,
            category,
            message,
            suggestion: Some(suggestion),
            confidence,
        }),
    )
}

/// Whether a list holds the finding that says this of a line.
pub open spec fn says_of_line(
    list: Seq<FindingModel>,
    path: Seq<char>,
    line: nat,
    severity: Severity,
    category: Seq<char>,
    message: Seq<char>,
    suggestion: Seq<char>,
    confidence: nat,
) -> bool {
    list.contains(
        (FindingModel {
            file: path,
            line,
            column: 0,
            severity,
            category,
            message,
            suggestion: Some(suggestion),
            confidence,
        }),
    )
}

/// One where `b` holds, and none otherwise.
pub open spec fn one_if(b: bool) -> nat {
    if b {
        1
    } else {
        0
    }
}

/// A list that holds something holds its first element.
pub proof fn lemma_first(s: Seq<FindingModel>)
    requires
        s.len() > 0,
    ensures
        s.contains(s[0]),
{
}

/// A scan holds what each of its parts finds.
pub proof fn lemma_parts(t: TreeModel, path: Seq<char>, f: FindingModel)
    requires
        ({
            let top = t.children(0).len() as int;
            ||| gather(watched_calls(t, path, unbounded_functions()), t.len()).contains(f)
            ||| gather(unchecked_allocations(t, path), top).contains(f)
            ||| gather(banned_calls(t, path), top).contains(f)
            ||| gather(overflowing_operations(t, path), top).contains(f)
            ||| gather(leaks(t, path), top).contains(f)
            ||| pattern_findings(path, t.source).contains(f)
            ||| gather(symbolic_rule(t, path), t.len()).contains(f)
            ||| gather(sink_rule(t, path, c_taint_sinks()), t.len()).contains(f)
            ||| gather(advanced_rule(t, path), t.len()).contains(f)
            ||| gather(flow_rule(t, path), t.len()).contains(f)
            ||| gather(type_rule(t, path), t.len()).contains(f)
            ||| gather(
                cross_rule(t, path, library_summaries(), local_summaries(t, t.len())),
                t.len(),
            ).contains(f)
        }),
    ensures
        c_scan(t, path).contains(f),
{
    broadcast use {lemma_in_left, lemma_in_right};

    assert(c_scan(t, path).contains(f));
}

/// A scan holds as many findings as its parts together: nothing is said twice, and nothing else is
/// said.
pub proof fn scan_holds_nothing_else(t: TreeModel, path: Seq<char>)
    ensures
        ({
            let top = t.children(0).len() as int;
            c_scan(t, path).len() == gather(
                watched_calls(t, path, unbounded_functions()),
                t.len(),
            ).len() + gather(unchecked_allocations(t, path), top).len() + gather(
                banned_calls(t, path),
                top,
            ).len() + gather(overflowing_operations(t, path), top).len() + gather(
                leaks(t, path),
                top,
            ).len() + pattern_findings(path, t.source).len() + gather(
                symbolic_rule(t, path),
                t.len(),
            ).len() + gather(sink_rule(t, path, c_taint_sinks()), t.len()).len() + gather(
                advanced_rule(t, path),
                t.len(),
            ).len() + gather(flow_rule(t, path), t.len()).len() + gather(
                type_rule(t, path),
                t.len(),
            ).len() + gather(
                cross_rule(t, path, library_summaries(), local_summaries(t, t.len())),
                t.len(),
            ).len()
        }),
{
}

/// Whether a function writes without bounds, how bad a call of it is, and what to do instead.
pub open spec fn writes_without_bounds(
    name: Seq<char>,
    severity: Severity,
    suggestion: Seq<char>,
) -> bool {
    ||| name == "strcpy"@ && severity == Severity::Critical && suggestion
        == "Use strncpy(dest, src, sizeof(dest)-1)"@
    ||| name == "strcat"@ && severity == Severity::Critical && suggestion
        == "Use strncat(dest, src, remaining)"@
    ||| name == "sprintf"@ && severity == Severity::Critical && suggestion
        == "Use snprintf(buf, sizeof(buf), ...)"@
    ||| name == "gets"@ && severity == Severity::Critical && suggestion
        == "Use fgets(buf, sizeof(buf), stdin)"@
    ||| name == "wcscpy"@ && severity == Severity::Critical && suggestion == "Use wcsncpy"@
    ||| name == "memcpy"@ && severity == Severity::High && suggestion
        == "Verify size <= destination buffer"@
    ||| name == "memset"@ && severity == Severity::Medium && suggestion
        == "Verify size is correct"@
}

proof fn lemma_unbounded_names()
    ensures
        "strcpy"@ != "strcat"@,
        "strcpy"@ != "sprintf"@,
        "strcpy"@ != "gets"@,
        "strcpy"@ != "wcscpy"@,
        "strcpy"@ != "memcpy"@,
        "strcpy"@ != "memset"@,
        "strcat"@ != "sprintf"@,
        "strcat"@ != "gets"@,
        "strcat"@ != "wcscpy"@,
        "strcat"@ != "memcpy"@,
        "strcat"@ != "memset"@,
        "sprintf"@ != "gets"@,
        "sprintf"@ != "wcscpy"@,
        "sprintf"@ != "memcpy"@,
        "sprintf"@ != "memset"@,
        "gets"@ != "wcscpy"@,
        "gets"@ != "memcpy"@,
        "gets"@ != "memset"@,
        "wcscpy"@ != "memcpy"@,
        "wcscpy"@ != "memset"@,
        "memcpy"@ != "memset"@,
{
    reveal_strlit("strcpy");
    reveal_strlit("strcat");
    reveal_strlit("sprintf");
    reveal_strlit("gets");
    reveal_strlit("wcscpy");
    reveal_strlit("memcpy");
    reveal_strlit("memset");
    assert("strcpy"@[0] == 's' && "strcpy"@[3] == 'c' && "strcpy"@[4] == 'p');
    assert("strcat"@[0] == 's' && "strcat"@[3] == 'c' && "strcat"@[4] == 'a');
    assert("sprintf"@.len() == 7);
    assert("gets"@.len() == 4);
    assert("wcscpy"@[0] == 'w');
    assert("memcpy"@[0] == 'm' && "memcpy"@[3] == 'c');
    assert("memset"@[0] == 'm' && "memset"@[3] == 's');
}

/// What the table of functions says of a name.
proof fn lemma_unbounded_entry(name: Seq<char>)
    ensures
        forall|severity: Severity, suggestion: Seq<char>|
            #![trigger writes_without_bounds(name, severity, suggestion)]
            writes_without_bounds(name, severity, suggestion) <==> entry(
                unbounded_functions(),
                name,
            ) == Some((name, severity, suggestion)),
        entry(unbounded_functions(), name) matches Some(e) ==> writes_without_bounds(
            name,
            e.1,
            e.2,
        ),
{
    lemma_unbounded_names();
    let all = unbounded_functions();
    reveal_with_fuel(entry, 9);
    let a = all.drop_first();
    let b = a.drop_first();
    let c = b.drop_first();
    let d = c.drop_first();
    let e = d.drop_first();
    let f = e.drop_first();
    assert(a[0] == all[1] && b[0] == all[2] && c[0] == all[3] && d[0] == all[4] && e[0] == all[5]
        && f[0] == all[6] && f.drop_first().len() == 0);
}

/// Every call of a function that writes without bounds is reported, with what to do instead.
pub proof fn unbounded_writes_are_reported(
    t: TreeModel,
    path: Seq<char>,
    i: int,
    name: Seq<char>,
    severity: Severity,
    suggestion: Seq<char>,
)
    requires
        0 <= i < t.len(),
        calls(t, i, name),
        (name == "strcpy"@ && severity == Severity::Critical && suggestion
            == "Use strncpy(dest, src, sizeof(dest)-1)"@) || (name == "strcat"@ && severity
            == Severity::Critical && suggestion == "Use strncat(dest, src, remaining)"@) || (name
            == "sprintf"@ && severity == Severity::Critical && suggestion
            == "Use snprintf(buf, sizeof(buf), ...)"@) || (name == "gets"@ && severity
            == Severity::Critical && suggestion == "Use fgets(buf, sizeof(buf), stdin)"@) || (name
            == "wcscpy"@ && severity == Severity::Critical && suggestion == "Use wcsncpy"@) || (name
            == "memcpy"@ && severity == Severity::High && suggestion
            == "Verify size <= destination buffer"@) || (name == "memset"@ && severity
            == Severity::Medium && suggestion == "Verify size is correct"@),
    ensures
        says(
            c_scan(t, path),
            t,
            path,
            i,
            severity,
            "buffer_overflow"@,
            "Dangerous function: "@ + name + " - no bounds checking"@,
            suggestion,
            95,
        ),
{
    lemma_unbounded_entry(name);
    assert(writes_without_bounds(name, severity, suggestion));
    let rule = watched_calls(t, path, unbounded_functions());
    lemma_first(rule(i));
    lemma_gathered(rule, t.len(), i, rule(i)[0]);
    lemma_parts(t, path, rule(i)[0]);
}

/// Only calls of functions that write without bounds are reported as such, each once.
pub proof fn only_unbounded_writes_are_reported(t: TreeModel, path: Seq<char>, i: int)
    ensures
        watched_calls(t, path, unbounded_functions())(i).len() == one_if(
            exists|name: Seq<char>, severity: Severity, suggestion: Seq<char>|
                calls(t, i, name) && #[trigger] writes_without_bounds(name, severity, suggestion),
        ),
{
    if let Some(f) = t.field(i, "function"@) {
        lemma_unbounded_entry(t.text(f));
        if let Some(e) = entry(unbounded_functions(), t.text(f)) {
            if t.is(i, "call_expression"@) {
                assert(calls(t, i, t.text(f)) && writes_without_bounds(t.text(f), e.1, e.2));
            }
        }
    }
}

/// Whether the next sibling of a node is an `if` statement.
pub open spec fn if_follows(t: TreeModel, i: int) -> bool {
    t.next_sibling(i) matches Some(s) && t.is(s, "if_statement"@)
}

/// Every allocation at the top of a tree that no `if` statement follows is reported.
pub proof fn top_allocations_are_reported(
    t: TreeModel,
    path: Seq<char>,
    k: int,
    name: Seq<char>,
)
    requires
        0 <= k < t.children(0).len(),
        calls(t, t.children(0)[k], name),
        name == "malloc"@ || name == "calloc"@ || name == "realloc"@,
        !if_follows(t, t.children(0)[k]),
    ensures
        says(
            c_scan(t, path),
            t,
            path,
            t.children(0)[k],
            Severity::High,
            "null_dereference"@,
            name + " return value not checked for NULL"@,
            "Add 'if (!ptr) return/error' after allocation"@,
            85,
        ),
{
    let rule = unchecked_allocations(t, path);
    lemma_first(rule(k));
    lemma_gathered(rule, t.children(0).len() as int, k, rule(k)[0]);
    lemma_parts(t, path, rule(k)[0]);
}

/// Only such allocations are reported so.
pub proof fn only_top_allocations_are_reported(t: TreeModel, path: Seq<char>, k: int)
    ensures
        unchecked_allocations(t, path)(k).len() == one_if(
            (calls(t, t.children(0)[k], "malloc"@) || calls(t, t.children(0)[k], "calloc"@)
                || calls(t, t.children(0)[k], "realloc"@)) && !if_follows(t, t.children(0)[k]),
        ),
{
}

/// Whether a function is banned, and what to use instead.
pub open spec fn banned_for(name: Seq<char>, suggestion: Seq<char>) -> bool {
    ||| name == "gets"@ && suggestion == "Use fgets(buf, sizeof(buf), stdin)"@
    ||| name == "strcpy"@ && suggestion == "Use strncpy(dest, src, sizeof(dest)-1)"@
    ||| name == "strcat"@ && suggestion == "Use strncat(dest, src, remaining_space)"@
    ||| name == "sprintf"@ && suggestion == "Use snprintf(buf, sizeof(buf), fmt, ...)"@
    ||| name == "system"@ && suggestion == "Use execve() with full path verification"@
    ||| name == "popen"@ && suggestion == "Use safer alternative"@
}

proof fn lemma_banned_names()
    ensures
        "gets"@ != "strcpy"@,
        "gets"@ != "strcat"@,
        "gets"@ != "sprintf"@,
        "gets"@ != "system"@,
        "gets"@ != "popen"@,
        "strcpy"@ != "strcat"@,
        "strcpy"@ != "sprintf"@,
        "strcpy"@ != "system"@,
        "strcpy"@ != "popen"@,
        "strcat"@ != "sprintf"@,
        "strcat"@ != "system"@,
        "strcat"@ != "popen"@,
        "sprintf"@ != "system"@,
        "sprintf"@ != "popen"@,
        "system"@ != "popen"@,
{
    reveal_strlit("strcpy");
    reveal_strlit("strcat");
    reveal_strlit("sprintf");
    reveal_strlit("gets");
    reveal_strlit("system");
    reveal_strlit("popen");
    assert("strcpy"@.len() == 6 && "strcpy"@[1] == 't' && "strcpy"@[4] == 'p');
    assert("strcat"@.len() == 6 && "strcat"@[1] == 't' && "strcat"@[4] == 'a');
    assert("system"@.len() == 6 && "system"@[1] == 'y');
    assert("sprintf"@.len() == 7);
    assert("gets"@.len() == 4);
    assert("popen"@.len() == 5);
}

/// Every call of a banned function at the top of a tree is reported, with what to use instead.
pub proof fn banned_functions_are_reported(
    t: TreeModel,
    path: Seq<char>,
    k: int,
    name: Seq<char>,
    suggestion: Seq<char>,
)
    requires
        0 <= k < t.children(0).len(),
        calls(t, t.children(0)[k], name),
        banned_for(name, suggestion),
    ensures
        says(
            c_scan(t, path),
            t,
            path,
            t.children(0)[k],
            Severity::Critical,
            "unsafe_function"@,
            "Banned function: "@ + name + " - security risk"@,
            suggestion,
            98,
        ),
{
    lemma_banned_names();
    let rule = banned_calls(t, path);
    lemma_first(rule(k));
    lemma_gathered(rule, t.children(0).len() as int, k, rule(k)[0]);
    lemma_parts(t, path, rule(k)[0]);
}

/// Only such calls are reported so.
pub proof fn only_banned_functions_are_reported(t: TreeModel, path: Seq<char>, k: int)
    ensures
        ({
            let i = t.children(0)[k];
            banned_calls(t, path)(k).len() == one_if(
                calls(t, i, "gets"@) || calls(t, i, "system"@) || calls(t, i, "popen"@) || calls(
                    t,
                    i,
                    "strcpy"@,
                ) || calls(t, i, "strcat"@) || calls(t, i, "sprintf"@),
            )
        }),
{
}

/// Whether a field of a node is filled by a number or a name.
pub open spec fn number_or_name(t: TreeModel, i: int, field: Seq<char>) -> bool {
    t.field(i, field) matches Some(n) && (t.is(n, "number_literal"@) || t.is(n, "identifier"@))
}

/// Whether a node is a product, a sum or a shift to the left of two numbers or names.
pub open spec fn plain_operation(t: TreeModel, i: int, op: Seq<char>) -> bool {
    &&& t.is(i, "binary_expression"@)
    &&& t.field(i, "operator"@) matches Some(o) && t.text(o) == op
    &&& op == "*"@ || op == "+"@ || op == "<<"@
    &&& number_or_name(t, i, "left"@)
    &&& number_or_name(t, i, "right"@)
}

/// Every product, sum and shift of plain operands at the top of a tree is reported.
pub proof fn top_operations_are_reported(t: TreeModel, path: Seq<char>, k: int, op: Seq<char>)
    requires
        0 <= k < t.children(0).len(),
        plain_operation(t, t.children(0)[k], op),
    ensures
        says(
            c_scan(t, path),
            t,
            path,
            t.children(0)[k],
            Severity::Medium,
            "integer_overflow"@,
            "Potential integer overflow in "@ + op + " operation"@,
            "Add overflow check or use saturating arithmetic"@,
            65,
        ),
{
    let rule = overflowing_operations(t, path);
    lemma_first(rule(k));
    lemma_gathered(rule, t.children(0).len() as int, k, rule(k)[0]);
    lemma_parts(t, path, rule(k)[0]);
}

/// Only such operations are reported so.
pub proof fn only_top_operations_are_reported(t: TreeModel, path: Seq<char>, k: int)
    ensures
        overflowing_operations(t, path)(k).len() == one_if(
            exists|op: Seq<char>| plain_operation(t, t.children(0)[k], op),
        ),
{
    let i = t.children(0)[k];
    if let Some(o) = t.field(i, "operator"@) {
        if overflowing_operations(t, path)(k).len() > 0 {
            assert(plain_operation(t, i, t.text(o)));
        }
    }
}

/// Whether the node `i` opens something and assigns it to `name`.
pub open spec fn opens(t: TreeModel, i: int, name: Seq<char>) -> bool {
    &&& calls(t, i, "malloc"@) || calls(t, i, "calloc"@) || calls(t, i, "realloc"@) || calls(
        t,
        i,
        "fopen"@,
    ) || calls(t, i, "socket"@) || calls(t, i, "open"@)
    &&& t.parent(i) matches Some(p) && t.is(p, "assignment_expression"@) && (t.field(
        p,
        "left"@,
    ) matches Some(l) && t.text(l) == name)
}

/// Whether the node `i` gives up what the first part of its arguments names.
pub open spec fn gives_up(t: TreeModel, i: int, name: Seq<char>) -> bool {
    &&& calls(t, i, "free"@) || calls(t, i, "fclose"@) || calls(t, i, "close"@)
    &&& t.field(i, "arguments"@) matches Some(a) && (t.first_child(a) matches Some(c) && t.text(c)
        == name)
}

proof fn lemma_resource_names()
    ensures
        forall|x: Seq<char>|
            #![trigger x.len()]
            (x == "free"@ || x == "fclose"@ || x == "close"@) ==> x != "malloc"@ && x != "calloc"@
                && x != "realloc"@ && x != "fopen"@ && x != "socket"@ && x != "open"@,
{
    reveal_strlit("free");
    reveal_strlit("fclose");
    reveal_strlit("close");
    reveal_strlit("malloc");
    reveal_strlit("calloc");
    reveal_strlit("realloc");
    reveal_strlit("fopen");
    reveal_strlit("socket");
    reveal_strlit("open");
    assert("free"@.len() == 4 && "free"@[0] == 'f');
    assert("fclose"@.len() == 6 && "fclose"@[0] == 'f');
    assert("close"@.len() == 5 && "close"@[0] == 'c');
    assert("malloc"@.len() == 6 && "malloc"@[0] == 'm');
    assert("calloc"@.len() == 6 && "calloc"@[0] == 'c');
    assert("realloc"@.len() == 7);
    assert("fopen"@.len() == 5 && "fopen"@[0] == 'f');
    assert("socket"@.len() == 6 && "socket"@[0] == 's');
    assert("open"@.len() == 4 && "open"@[0] == 'o');
}

/// Everything that is opened at the top of a tree and never given up there is reported.
pub proof fn leaks_are_reported(t: TreeModel, path: Seq<char>, k: int, name: Seq<char>)
    requires
        0 <= k < t.children(0).len(),
        opens(t, t.children(0)[k], name),
        forall|m: int|
            0 <= m < t.children(0).len() ==> !gives_up(t, #[trigger] t.children(0)[m], name),
    ensures
        says_of_line(
            c_scan(t, path),
            path,
            t.place(t.children(0)[k]).0,
            Severity::Medium,
            "resource_leak"@,
            "Potential resource leak: "@ + name + " not freed"@,
            "Add cleanup in all exit paths"@,
            70,
        ),
{
    let rule = leaks(t, path);
    lemma_first(rule(k));
    lemma_gathered(rule, t.children(0).len() as int, k, rule(k)[0]);
    lemma_parts(t, path, rule(k)[0]);
}

/// What is given up, or not opened, is not reported as a leak.
pub proof fn only_leaks_are_reported(t: TreeModel, path: Seq<char>, k: int)
    ensures
        leaks(t, path)(k).len() == one_if(
            exists|name: Seq<char>| #[trigger]
                opens(t, t.children(0)[k], name) && forall|m: int|
                    0 <= m < t.children(0).len() ==> !gives_up(
                        t,
                        #[trigger] t.children(0)[m],
                        name,
                    ),
        ),
{
    lemma_resource_names();
    let i = t.children(0)[k];
    if let Some(name) = crate::c_checks::acquired(t, i) {
        assert(opens(t, i, name));
        if crate::c_checks::released_somewhere(t, name) {
            let m = choose|m: int|
                0 <= m < t.children(0).len() && crate::c_checks::released(
                    t,
                    #[trigger] t.children(0)[m],
                ) == Some(name);
            assert(gives_up(t, t.children(0)[m], name));
        } else {
            assert forall|m: int| 0 <= m < t.children(0).len() implies !gives_up(
                t,
                #[trigger] t.children(0)[m],
                name,
            ) by {
                let c = t.children(0)[m];
                if gives_up(t, c, name) {
                    let f = t.text(t.field(c, "function"@)->0);
                    assert(f.len() >= 0);
                    assert(crate::c_checks::released(t, c) == Some(name));
                }
            }
        }
    }
}

/// Whether a path is searched line by line: it does not look like that of a test, of generated code
/// or of someone else's.
pub open spec fn searched_path(path: Seq<char>) -> bool {
    let lower = lowercase(path);
    &&& !mentions(lower, "test"@)
    &&& !mentions(lower, "spec"@)
    &&& !mentions(lower, "_mock"@)
    &&& !mentions(lower, "generated"@)
    &&& !mentions(lower, "vendor/"@)
    &&& !mentions(lower, "deps/"@)
    &&& !mentions(lower, "third_party"@)
}

/// Whether a line is searched: it begins neither as a comment nor as a string.
pub open spec fn searched_line(line: Seq<char>) -> bool {
    let s = trim(line);
    &&& !begins_with(s, "//"@)
    &&& !begins_with(s, "*"@)
    &&& !begins_with(s, "/*"@)
    &&& !begins_with(s, "\""@)
    &&& !begins_with(s, "'"@)
}

/// Whether a line, in lower case, notes that something about security is left to do.
pub open spec fn notes_security(lower: Seq<char>) -> bool {
    &&& mentions(lower, "todo"@)
    &&& mentions(lower, "security"@) || mentions(lower, "unsafe"@)
    &&& !mentions(lower, "\"security\""@)
    &&& !mentions(lower, "'security'"@)
}

/// Whether a line, given also in lower case, names a password and has an equals sign.
pub open spec fn names_password(line: Seq<char>, lower: Seq<char>) -> bool {
    &&& mentions(lower, "password"@) || mentions(lower, "passwd"@) || mentions(lower, "pwd"@)
    &&& mentions(line, "="@)
    &&& !mentions(lower, "contains("@)
    &&& !mentions(lower, "'"@)
}

/// Every line that notes something about security that is left to do is reported.
pub proof fn security_notes_are_reported(t: TreeModel, path: Seq<char>, k: int)
    requires
        searched_path(path),
        0 <= k < lines(t.source).len(),
        searched_line(lines(t.source)[k]),
        notes_security(lowercase(lines(t.source)[k])),
    ensures
        says_of_line(
            c_scan(t, path),
            path,
            (k + 1) as nat,
            Severity::Medium,
            "todo_security"@,
            "TODO comment mentions security issue"@,
            "Address before release"@,
            80,
        ),
{
    let rule = line_rule(path, t.source);
    lemma_first(rule(k));
    lemma_gathered(rule, lines(t.source).len() as int, k, rule(k)[0]);
    lemma_parts(t, path, rule(k)[0]);
}

/// Every line that assigns a password is reported.
pub proof fn passwords_are_reported(t: TreeModel, path: Seq<char>, k: int)
    requires
        searched_path(path),
        0 <= k < lines(t.source).len(),
        searched_line(lines(t.source)[k]),
        names_password(lines(t.source)[k], lowercase(lines(t.source)[k])),
        assignment_like(lines(t.source)[k]),
    ensures
        says_of_line(
            c_scan(t, path),
            path,
            (k + 1) as nat,
            Severity::High,
            "hardcoded_credential"@,
            "Potential hardcoded password detected"@,
            "Use environment variables or secure vault"@,
            72,
        ),
{
    let rule = line_rule(path, t.source);
    let n = rule(k).len();
    let f = rule(k)[n - 1];
    assert(rule(k).contains(f));
    lemma_gathered(rule, lines(t.source).len() as int, k, f);
    lemma_parts(t, path, f);
}

/// Nothing else is said of a line, and nothing of a path that is not searched.
pub proof fn only_such_lines_are_reported(t: TreeModel, path: Seq<char>, k: int)
    ensures
        ({
            let line = lines(t.source)[k];
            let lower = lowercase(line);
            line_rule(path, t.source)(k).len() == one_if(
                searched_line(line) && notes_security(lower),
            ) + one_if(searched_line(line) && names_password(line, lower) && assignment_like(line))
        }),
        !searched_path(path) ==> pattern_findings(path, t.source).len() == 0,
{
}

/// What an assignment in a line looks like: before the first equals sign stands a name, and after
/// it, up to the next, a string or a number.
pub proof fn assignments_have_two_sides(
    line: Seq<char>,
    left: Seq<char>,
    right: Seq<char>,
    rest: Seq<char>,
)
    requires
        line == left + seq!['='] + right + rest,
        !left.contains('='),
        !right.contains('='),
        rest.len() == 0 || rest[0] == '=',
    ensures
        assignment_like(line) == ((forall|i: int|
            0 <= i < trim(left).len() ==> alphanumeric(#[trigger] trim(left)[i]) || trim(left)[i]
                == '_' || trim(left)[i] == ' ' || trim(left)[i] == '[' || trim(left)[i] == ']') && (
        begins_with(trim(right), "\""@) || begins_with(trim(right), "'"@) || is_integer(
            trim(right),
        ))),
{
    let k = left.len() as int;
    assert forall|j: int| 0 <= j < k implies line[j] != '=' by {
        assert(line[j] == left[j]);
        assert(left.contains(left[j]));
    }
    assert(line[k] == '=');
    lemma_find_char_unique(line, '=', k);
    assert(line.take(k) =~= left);
    let after = line.skip(k + 1);
    assert(after =~= right + rest);
    let m = right.len() as int;
    assert forall|j: int| 0 <= j < m implies after[j] != '=' by {
        assert(after[j] == right[j]);
        assert(right.contains(right[j]));
    }
    lemma_find_char(after, '=');
    if rest.len() > 0 {
        assert(after[m] == '=');
        lemma_find_char_unique(after, '=', m);
    } else {
        if find_char(after, '=') < after.len() {
            assert(after[find_char(after, '=')] != '=');
        }
    }
    assert(after.take(m) =~= right);
    let l = trim(left);
    assert((forall|i: int| 0 <= i < l.len() ==> identifier_like(#[trigger] l[i])) == (forall|i: int|
        0 <= i < l.len() ==> alphanumeric(#[trigger] l[i]) || l[i] == '_' || l[i] == ' ' || l[i]
            == '[' || l[i] == ']')) by {
        assert(forall|c: char|
            identifier_like(c) == (alphanumeric(c) || c == '_' || c == ' ' || c == '[' || c
                == ']'));
    }
}

/// A line without an equals sign assigns nothing.
pub proof fn no_assignment_without_equals_sign(line: Seq<char>)
    requires
        !line.contains('='),
    ensures
        !assignment_like(line),
{
    lemma_find_char(line, '=');
    if find_char(line, '=') < line.len() {
        assert(line.contains(line[find_char(line, '=')]));
    }
}

/// Whether a node is a part of arguments, and neither a parenthesis nor a comma.
pub open spec fn counts_as_argument(t: TreeModel, i: int) -> bool {
    !t.is(i, "("@) && !t.is(i, ")"@) && !t.is(i, ","@)
}

proof fn lemma_argument_count(t: TreeModel, nodes: Seq<int>, picks: Seq<int>)
    requires
        forall|k: int|
            0 <= k < picks.len() ==> 0 <= #[trigger] picks[k] < nodes.len() && counts_as_argument(
                t,
                nodes[picks[k]],
            ),
        forall|a: int, b: int|
            0 <= a < b < picks.len() ==> #[trigger] picks[a] < #[trigger] picks[b],
    ensures
        argument_count(t, nodes) >= picks.len(),
    decreases nodes.len(),
{
    if picks.len() > 0 {
        let last = picks.len() - 1;
        assert(0 <= picks[last] < nodes.len());
        let rest = nodes.drop_last();
        let fewer = if picks[last] == nodes.len() - 1 {
            picks.drop_last()
        } else {
            picks
        };
        assert forall|k: int| 0 <= k < fewer.len() implies 0 <= #[trigger] fewer[k] < rest.len()
            && counts_as_argument(t, rest[fewer[k]]) by {
            assert(fewer[k] == picks[k]);
            if k < last {
                assert(picks[k] < picks[last]);
            }
            assert(rest[fewer[k]] == nodes[picks[k]]);
        }
        assert forall|a: int, b: int| 0 <= a < b < fewer.len() implies #[trigger] fewer[a]
            < #[trigger] fewer[b] by {
            assert(picks[a] < picks[b]);
        }
        lemma_argument_count(t, rest, fewer);
    }
}

proof fn lemma_argument_count_bound(t: TreeModel, nodes: Seq<int>)
    ensures
        argument_count(t, nodes) <= nodes.len(),
    decreases nodes.len(),
{
    if nodes.len() > 0 {
        lemma_argument_count_bound(t, nodes.drop_last());
    }
}

/// Every call of `memcpy` or `memset` with at least three arguments is reported as unbounded.
pub proof fn copies_are_reported(
    t: TreeModel,
    path: Seq<char>,
    i: int,
    args: int,
    a: int,
    b: int,
    c: int,
)
    requires
        0 <= i < t.len(),
        calls(t, i, "memcpy"@) || calls(t, i, "memset"@),
        t.field(i, "arguments"@) == Some(args),
        0 <= a < b < c < t.children(args).len(),
        counts_as_argument(t, t.children(args)[a]),
        counts_as_argument(t, t.children(args)[b]),
        counts_as_argument(t, t.children(args)[c]),
    ensures
        says(
            c_scan(t, path),
            t,
            path,
            i,
            Severity::High,
            "unbounded_memcpy"@,
            "memcpy with potentially unbounded size"@,
            "Add bounds check: if (size > MAX) return"@,
            78,
        ),
{
    lemma_argument_count(t, t.children(args), seq![a, b, c]);
    let rule = symbolic_rule(t, path);
    lemma_first(rule(i));
    lemma_gathered(rule, t.len(), i, rule(i)[0]);
    lemma_parts(t, path, rule(i)[0]);
}

/// Only calls of `memcpy` and `memset` are, and only with three parts or more in their arguments.
pub proof fn only_copies_are_reported(t: TreeModel, path: Seq<char>, i: int)
    ensures
        symbolic_rule(t, path)(i).len() <= 1,
        symbolic_rule(t, path)(i).len() > 0 ==> (calls(t, i, "memcpy"@) || calls(
            t,
            i,
            "memset"@,
        )) && (t.field(i, "arguments"@) matches Some(args) && t.children(args).len() >= 3),
{
    lemma_argument_count_bound(t, crate::dataflow::arguments(t, i));
}

/// Every call of `system`, `popen` or `exec` is reported.
pub proof fn commands_are_reported(t: TreeModel, path: Seq<char>, i: int, name: Seq<char>)
    requires
        0 <= i < t.len(),
        calls(t, i, name),
        name == "system"@ || name == "popen"@ || name == "exec"@,
    ensures
        says(
            c_scan(t, path),
            t,
            path,
            i,
            Severity::Critical,
            "command_injection"@,
            "Potential command injection: "@ + name + " with user input"@,
            "Use execve with full path, or validate input against whitelist"@,
            88,
        ),
{
    let rule = sink_rule(t, path, c_taint_sinks());
    lemma_first(rule(i));
    lemma_gathered(rule, t.len(), i, rule(i)[0]);
    lemma_parts(t, path, rule(i)[0]);
}

/// Only such calls are.
pub proof fn only_commands_are_reported(t: TreeModel, path: Seq<char>, i: int)
    ensures
        sink_rule(t, path, c_taint_sinks())(i).len() == one_if(
            calls(t, i, "system"@) || calls(t, i, "popen"@) || calls(t, i, "exec"@),
        ),
{
}

/// The functions through which user input enters a C program.
pub proof fn input_functions_of_c(name: Seq<char>)
    ensures
        crate::taint::c_taint_sources().contains(name) <==> name == "scanf"@ || name == "fgets"@
            || name == "recv"@ || name == "read"@ || name == "getenv"@,
{
}

} // verus!
