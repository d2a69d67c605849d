//! What a scan of a C or C++ source says of calls: by their results, and by what the functions do
//! that they call.
use vstd::prelude::*;

use crate::c_laws::{calls, lemma_parts, one_if, says};
use crate::callgraph::{
    cross_rule, defined, first_name, function_name, library_summaries, local_summaries,
};
use crate::finding::{gather, lemma_gathered, lemma_in_left, lemma_in_right, FindingModel, Severity};
use crate::scanner::c_scan;
use crate::syntax::TreeModel;
use crate::text::{is_integer, mentions};
use crate::types::{sizeof_rule, type_call_findings, type_rule};

verus! {

proof fn lemma_typed(t: TreeModel, path: Seq<char>, i: int, f: FindingModel)
    requires
        0 <= i < t.len(),
        type_rule(t, path)(i).contains(f),
    ensures
        c_scan(t, path).contains(f),
{
    lemma_gathered(type_rule(t, path), t.len(), i, f);
    lemma_parts(t, path, f);
}

/// Whether the result of the node `i` stands without a cast below something that is itself a part.
pub open spec fn stands_uncast(t: TreeModel, i: int) -> bool {
    t.parent(i) matches Some(p) && !t.is(p, "cast_expression"@) && t.parent(p) is Some
}

/// Every operation with `sizeof` in the size of an allocation that is not cast is pointed out.
pub proof fn sizes_with_sizeof_are_reported(
    t: TreeModel,
    path: Seq<char>,
    i: int,
    list: int,
    k: int,
)
    requires
        0 <= i < t.len(),
        calls(t, i, "malloc"@) || calls(t, i, "calloc"@) || calls(t, i, "realloc"@),
        stands_uncast(t, i),
        t.field(i, "arguments"@) == Some(list),
        0 <= k < t.children(list).len(),
        t.is(t.children(list)[k], "binary_expression"@),
        mentions(t.text(t.children(list)[k]), "sizeof"@),
    ensures
        says(
            c_scan(t, path),
            t,
            path,
            i,
            Severity::Medium,
            "malloc_sizeof"@,
            "Verify sizeof matches pointer type"@,
            "Use sizeof(*ptr) instead of sizeof(type)"@,
            60,
        ),
{
    broadcast use {lemma_in_left, lemma_in_right};

    let rule = sizeof_rule(t, path, i);
    let n = crate::dataflow::arguments(t, i).len() as int;
    let f = rule(k)[0];
    assert(rule(k).contains(f));
    lemma_gathered(rule, n, k, f);
    let name = t.text(t.field(i, "function"@)->0);
    assert(type_call_findings(t, path, i, name).contains(f));
    assert(type_rule(t, path)(i).contains(f));
    lemma_typed(t, path, i, f);
}

/// A part of a size is pointed out only where it is such an operation.
pub proof fn only_sizes_with_sizeof_are_reported(
    t: TreeModel,
    path: Seq<char>,
    i: int,
    list: int,
    k: int,
)
    requires
        t.field(i, "arguments"@) == Some(list),
    ensures
        sizeof_rule(t, path, i)(k).len() == one_if(
            t.is(t.children(list)[k], "binary_expression"@) && mentions(
                t.text(t.children(list)[k]),
                "sizeof"@,
            ),
        ),
{
}

/// Whether the result of the node `i` is neither assigned nor compared.
pub open spec fn stands_unused(t: TreeModel, i: int) -> bool {
    t.parent(i) matches Some(p) && !t.is(p, "assignment_expression"@) && !t.is(
        p,
        "init_declarator"@,
    ) && !t.is(p, "binary_expression"@)
}

/// Every result that tells of failure and is not used is reported.
pub proof fn unused_results_are_reported(
    t: TreeModel,
    path: Seq<char>,
    i: int,
    name: Seq<char>,
)
    requires
        0 <= i < t.len(),
        calls(t, i, name),
        name == "fopen"@ || name == "socket"@ || name == "accept"@ || name == "mmap"@ || name
            == "pthread_create"@,
        stands_unused(t, i),
    ensures
        says(
            c_scan(t, path),
            t,
            path,
            i,
            Severity::High,
            "unchecked_return"@,
            name + " return value not checked"@,
            "Assign to variable and check for error"@,
            85,
        ),
{
    broadcast use {lemma_in_left, lemma_in_right};

    let f = crate::rule::reported(
        true,
        t,
        path,
        i,
        Severity::High,
        "unchecked_return"@,
        name + " return value not checked"@,
        "Assign to variable and check for error"@,
        85,
    );
    assert(f[0] == f[0] && f.contains(f[0]));
    assert(type_call_findings(t, path, i, name).contains(f[0]));
    assert(type_rule(t, path)(i).contains(f[0]));
    lemma_typed(t, path, i, f[0]);
}

/// Whether the result of the node `i` is cast to a pointer to void or to characters.
pub open spec fn stands_in_cast(t: TreeModel, i: int) -> bool {
    t.parent(i) matches Some(p) && t.is(p, "cast_expression"@) && (mentions(t.text(p), "(void*)"@)
        || mentions(t.text(p), "(char*)"@))
}

/// Every allocation that is cast to a pointer to void or to characters is reported.
pub proof fn cast_allocations_are_reported(t: TreeModel, path: Seq<char>, i: int)
    requires
        0 <= i < t.len(),
        calls(t, i, "malloc"@) || calls(t, i, "calloc"@) || calls(t, i, "realloc"@),
        stands_in_cast(t, i),
    ensures
        says(
            c_scan(t, path),
            t,
            path,
            i,
            Severity::High,
            "integer_to_pointer"@,
            "Integer cast to pointer - potential security issue"@,
            "Use intptr_t/uintptr_t for integer-pointer conversions"@,
            87,
        ),
{
    let name = t.text(t.field(i, "function"@)->0);
    let all = type_call_findings(t, path, i, name);
    let f = all[all.len() - 1];
    assert(all.contains(f));
    assert(type_rule(t, path)(i).contains(f));
    lemma_typed(t, path, i, f);
}

/// A call is reported for its result as often as these say, and no more.
pub proof fn results_are_reported_for_nothing_else(
    t: TreeModel,
    path: Seq<char>,
    i: int,
    name: Seq<char>,
)
    requires
        calls(t, i, name),
    ensures
        ({
            let allocates = name == "malloc"@ || name == "calloc"@ || name == "realloc"@;
            type_rule(t, path)(i).len() == (if allocates && stands_uncast(t, i) {
                gather(
                    sizeof_rule(t, path, i),
                    crate::dataflow::arguments(t, i).len() as int,
                ).len()
            } else {
                0
            }) + one_if(
                (name == "fopen"@ || name == "socket"@ || name == "accept"@ || name == "mmap"@
                    || name == "pthread_create"@) && stands_unused(t, i),
            ) + one_if(allocates && stands_in_cast(t, i))
        }),
{
}

/// Every cast of a number to a pointer to void or to characters is reported, and no other node that
/// is no call.
pub proof fn casts_of_numbers_are_reported(t: TreeModel, path: Seq<char>, i: int)
    requires
        0 <= i < t.len(),
        !t.is(i, "call_expression"@),
    ensures
        ({
            let number = t.is(i, "cast_expression"@) && (mentions(t.text(i), "(void*)"@)
                || mentions(t.text(i), "(char*)"@)) && (t.field(i, "value"@) matches Some(v)
                && is_integer(t.text(v)));
            &&& type_rule(t, path)(i).len() == one_if(number)
            &&& number ==> says(
                c_scan(t, path),
                t,
                path,
                i,
                Severity::High,
                "integer_to_pointer"@,
                "Integer cast to pointer - potential security issue"@,
                "Use intptr_t/uintptr_t for integer-pointer conversions"@,
                87,
            )
        }),
{
    let all = type_rule(t, path)(i);
    if all.len() > 0 {
        assert(all.contains(all[0]));
        lemma_typed(t, path, i, all[0]);
    }
}

/// Whether the node `g` defines the function `name` with the body `b`.
pub open spec fn defines(t: TreeModel, g: int, name: Seq<char>, b: int) -> bool {
    &&& t.is(g, "function_definition"@)
    &&& t.field(g, "declarator"@) matches Some(d) && function_name(t, d) == name
    &&& name.len() > 0
    &&& t.field(g, "body"@) == Some(b)
}

/// Whether the node `g` defines the function `name`, with a body or without.
pub open spec fn defines_name(t: TreeModel, g: int, name: Seq<char>) -> bool {
    &&& t.is(g, "function_definition"@)
    &&& t.field(g, "declarator"@) matches Some(d) && function_name(t, d) == name
    &&& name.len() > 0
}

/// Whether the body `b` calls the function `name`.
pub open spec fn body_calls(t: TreeModel, b: int, name: Seq<char>) -> bool {
    exists|j: int| b <= j < t.subtree_end(b) && #[trigger] calls(t, j, name)
}

/// The name of a declarator that is a name is its text; that of a function declarator is the name
/// of what it declares; and any other takes the name of the first of its children that has one.
pub proof fn names_of_declarators(t: TreeModel, d: int, c: int)
    requires
        0 <= d < c < t.len(),
    ensures
        t.is(d, "identifier"@) ==> function_name(t, d) == t.text(d),
        t.is(d, "function_declarator"@) && t.field(d, "declarator"@) == Some(c) ==> function_name(
            t,
            d,
        ) == function_name(t, c),
        !t.is(d, "identifier"@) && !t.is(d, "function_declarator"@) && t.children(d).len() > 0
            && t.children(d)[0] == c && function_name(t, c).len() > 0 ==> function_name(t, d)
            == function_name(t, c),
{
    reveal_with_fuel(function_name, 2);
    reveal_strlit("identifier");
    reveal_strlit("function_declarator");
    assert("identifier"@.len() == 10);
    assert("function_declarator"@.len() == 19);
}

proof fn lemma_last_definition(t: TreeModel, g: int, n: int, name: Seq<char>)
    requires
        0 <= g < n,
        defines_name(t, g, name),
        forall|m: int| g < m < n ==> !#[trigger] defines_name(t, m, name),
    ensures
        local_summaries(t, n).contains_key(name),
        defined(t, g) == Some(local_summaries(t, n)[name]),
    decreases n,
{
    if g < n - 1 {
        lemma_last_definition(t, g, n - 1, name);
        assert(!defines_name(t, n - 1, name));
        if let Some(s) = defined(t, n - 1) {
            assert(s.name != name);
        }
    }
}

proof fn lemma_no_definition(t: TreeModel, n: int, name: Seq<char>)
    requires
        forall|m: int| 0 <= m < n ==> !#[trigger] defines_name(t, m, name),
    ensures
        !local_summaries(t, n).contains_key(name),
    decreases n,
{
    if n > 0 {
        lemma_no_definition(t, n - 1, name);
        assert(!defines_name(t, n - 1, name));
        if let Some(s) = defined(t, n - 1) {
            assert(s.name != name);
        }
    }
}

/// What is known of a function that a source defines: exactly what calls stand in its body.
pub proof fn summaries_say_what_bodies_do(t: TreeModel, g: int, name: Seq<char>, b: int)
    requires
        defines(t, g, name, b),
    ensures
        defined(t, g) is Some,
        defined(t, g)->0.name == name,
        defined(t, g)->0.returns_malloc == (body_calls(t, b, "malloc"@) || body_calls(
            t,
            b,
            "calloc"@,
        ) || body_calls(t, b, "realloc"@)),
        defined(t, g)->0.takes_user_input == (body_calls(t, b, "scanf"@) || body_calls(
            t,
            b,
            "fgets"@,
        ) || body_calls(t, b, "read"@) || body_calls(t, b, "recv"@)),
        defined(t, g)->0.calls_system == (body_calls(t, b, "system"@) || body_calls(
            t,
            b,
            "popen"@,
        ) || body_calls(t, b, "exec"@)),
{
    let e = t.subtree_end(b);
    lemma_body_calls(t, b, "malloc"@);
    lemma_body_calls(t, b, "calloc"@);
    lemma_body_calls(t, b, "realloc"@);
    lemma_body_calls(t, b, "scanf"@);
    lemma_body_calls(t, b, "fgets"@);
    lemma_body_calls(t, b, "read"@);
    lemma_body_calls(t, b, "recv"@);
    lemma_body_calls(t, b, "system"@);
    lemma_body_calls(t, b, "popen"@);
    lemma_body_calls(t, b, "exec"@);
    let s = defined(t, g)->0;
    if s.returns_malloc {
        let j = choose|j: int|
            b <= j < e && (#[trigger] crate::rule::called(t, j) matches Some(f)
                && crate::rule::allocator(f));
        assert(calls(t, j, "malloc"@) || calls(t, j, "calloc"@) || calls(t, j, "realloc"@));
    }
    if s.takes_user_input {
        let j = choose|j: int|
            b <= j < e && (#[trigger] crate::rule::called(t, j) matches Some(f)
                && crate::callgraph::reads_input(f));
        assert(calls(t, j, "scanf"@) || calls(t, j, "fgets"@) || calls(t, j, "read"@) || calls(
            t,
            j,
            "recv"@,
        ));
    }
    if s.calls_system {
        let j = choose|j: int|
            b <= j < e && (#[trigger] crate::rule::called(t, j) matches Some(f)
                && crate::callgraph::runs_system(f));
        assert(calls(t, j, "system"@) || calls(t, j, "popen"@) || calls(t, j, "exec"@));
    }
}

proof fn lemma_body_calls(t: TreeModel, b: int, name: Seq<char>)
    ensures
        body_calls(t, b, name) ==> exists|j: int|
            b <= j < t.subtree_end(b) && #[trigger] crate::rule::called(t, j) == Some(name),
{
    if body_calls(t, b, name) {
        let j = choose|j: int| b <= j < t.subtree_end(b) && #[trigger] calls(t, j, name);
        assert(crate::rule::called(t, j) == Some(name));
    }
}

proof fn lemma_crossed(t: TreeModel, path: Seq<char>, i: int, f: FindingModel)
    requires
        0 <= i < t.len(),
        cross_rule(t, path, library_summaries(), local_summaries(t, t.len()))(i).contains(f),
    ensures
        c_scan(t, path).contains(f),
{
    lemma_gathered(
        cross_rule(t, path, library_summaries(), local_summaries(t, t.len())),
        t.len(),
        i,
        f,
    );
    lemma_parts(t, path, f);
}

/// Every call of a function whose body reads user input and runs commands is reported.
pub proof fn input_to_system_is_reported(
    t: TreeModel,
    path: Seq<char>,
    g: int,
    name: Seq<char>,
    b: int,
    i: int,
)
    requires
        0 <= g < t.len(),
        defines(t, g, name, b),
        forall|m: int| g < m < t.len() ==> !#[trigger] defines_name(t, m, name),
        body_calls(t, b, "scanf"@) || body_calls(t, b, "fgets"@) || body_calls(t, b, "read"@)
            || body_calls(t, b, "recv"@),
        body_calls(t, b, "system"@) || body_calls(t, b, "popen"@) || body_calls(t, b, "exec"@),
        0 <= i < t.len(),
        calls(t, i, name),
    ensures
        says(
            c_scan(t, path),
            t,
            path,
            i,
            Severity::Critical,
            "tainted_system_call"@,
            name + " propagates user input to system call - command injection risk"@,
            "Sanitize input before passing to system functions"@,
            86,
        ),
{
    summaries_say_what_bodies_do(t, g, name, b);
    lemma_last_definition(t, g, t.len(), name);
    let all = cross_rule(t, path, library_summaries(), local_summaries(t, t.len()))(i);
    let f = all[all.len() - 1];
    assert(all.contains(f));
    lemma_crossed(t, path, i, f);
}

/// Whether the result of the node `i` is not assigned.
pub open spec fn stands_unassigned(t: TreeModel, i: int) -> bool {
    t.parent(i) matches Some(p) && !t.is(p, "assignment_expression"@) && !t.is(
        p,
        "init_declarator"@,
    )
}

/// Every call of a function whose body allocates is reported where its result is dropped.
pub proof fn dropped_allocations_are_reported(
    t: TreeModel,
    path: Seq<char>,
    g: int,
    name: Seq<char>,
    b: int,
    i: int,
)
    requires
        0 <= g < t.len(),
        defines(t, g, name, b),
        forall|m: int| g < m < t.len() ==> !#[trigger] defines_name(t, m, name),
        body_calls(t, b, "malloc"@) || body_calls(t, b, "calloc"@) || body_calls(t, b, "realloc"@),
        0 <= i < t.len(),
        calls(t, i, name),
        stands_unassigned(t, i),
    ensures
        says(
            c_scan(t, path),
            t,
            path,
            i,
            Severity::High,
            "unchecked_malloc_return"@,
            name + " returns allocated memory but result not used"@,
            "Assign result and check for NULL"@,
            83,
        ),
{
    summaries_say_what_bodies_do(t, g, name, b);
    lemma_last_definition(t, g, t.len(), name);
    let all = cross_rule(t, path, library_summaries(), local_summaries(t, t.len()))(i);
    assert(all.contains(all[0]));
    lemma_crossed(t, path, i, all[0]);
}

proof fn lemma_library_names()
    ensures
        "malloc"@ != "calloc"@,
        "malloc"@ != "strdup"@,
        "malloc"@ != "system"@,
        "malloc"@ != "popen"@,
        "malloc"@ != "scanf"@,
        "malloc"@ != "gets"@,
        "calloc"@ != "strdup"@,
        "calloc"@ != "system"@,
        "calloc"@ != "popen"@,
        "calloc"@ != "scanf"@,
        "calloc"@ != "gets"@,
        "strdup"@ != "system"@,
        "strdup"@ != "popen"@,
        "strdup"@ != "scanf"@,
        "strdup"@ != "gets"@,
        "system"@ != "popen"@,
        "system"@ != "scanf"@,
        "system"@ != "gets"@,
        "popen"@ != "scanf"@,
        "popen"@ != "gets"@,
        "scanf"@ != "gets"@,
{
    reveal_strlit("malloc");
    reveal_strlit("calloc");
    reveal_strlit("strdup");
    reveal_strlit("system");
    reveal_strlit("popen");
    reveal_strlit("scanf");
    reveal_strlit("gets");
    assert("malloc"@.len() == 6 && "malloc"@[0] == 'm');
    assert("calloc"@.len() == 6 && "calloc"@[0] == 'c');
    assert("strdup"@.len() == 6 && "strdup"@[0] == 's' && "strdup"@[1] == 't');
    assert("system"@.len() == 6 && "system"@[0] == 's' && "system"@[1] == 'y');
    assert("popen"@.len() == 5 && "popen"@[0] == 'p');
    assert("scanf"@.len() == 5 && "scanf"@[0] == 's');
    assert("gets"@.len() == 4);
}

/// What is known of the functions of the C library: three give memory, five take user input and two
/// of these run commands.
pub proof fn library_functions(name: Seq<char>)
    ensures
        library_summaries().contains_key(name) <==> name == "malloc"@ || name == "calloc"@ || name
            == "strdup"@ || name == "system"@ || name == "popen"@ || name == "scanf"@ || name
            == "gets"@,
        library_summaries().contains_key(name) ==> {
            let s = library_summaries()[name];
            &&& s.name == name
            &&& s.returns_malloc <==> name == "malloc"@ || name == "calloc"@ || name == "strdup"@
            &&& s.takes_user_input <==> name == "strdup"@ || name == "system"@ || name == "popen"@
                || name == "scanf"@ || name == "gets"@
            &&& s.calls_system <==> name == "system"@ || name == "popen"@
        },
{
    lemma_library_names();
}

/// What is said of a call of a function that the source does not define goes by the C library, and
/// of any other function nothing is said.
pub proof fn library_calls_are_reported(
    t: TreeModel,
    path: Seq<char>,
    i: int,
    name: Seq<char>,
)
    requires
        0 <= i < t.len(),
        calls(t, i, name),
        forall|m: int| 0 <= m < t.len() ==> !#[trigger] defines_name(t, m, name),
    ensures
        ({
            let gives_memory = name == "malloc"@ || name == "calloc"@ || name == "strdup"@;
            let runs = name == "system"@ || name == "popen"@;
            &&& cross_rule(t, path, library_summaries(), local_summaries(t, t.len()))(i).len()
                == one_if(gives_memory && stands_unassigned(t, i)) + one_if(runs)
            &&& gives_memory && stands_unassigned(t, i) ==> says(
                c_scan(t, path),
                t,
                path,
                i,
                Severity::High,
                "unchecked_malloc_return"@,
                name + " returns allocated memory but result not used"@,
                "Assign result and check for NULL"@,
                83,
            )
            &&& runs ==> says(
                c_scan(t, path),
                t,
                path,
                i,
                Severity::Critical,
                "tainted_system_call"@,
                name + " propagates user input to system call - command injection risk"@,
                "Sanitize input before passing to system functions"@,
                86,
            )
        }),
{
    library_functions(name);
    lemma_library_names();
    lemma_no_definition(t, t.len(), name);
    let all = cross_rule(t, path, library_summaries(), local_summaries(t, t.len()))(i);
    if all.len() > 0 {
        assert(all.contains(all[0]));
        lemma_crossed(t, path, i, all[0]);
        assert(all.contains(all[all.len() - 1]));
        lemma_crossed(t, path, i, all[all.len() - 1]);
    }
}

/// Of a call of a function that the source defines no more is said than its body gives.
pub proof fn own_calls_are_reported_for_nothing_else(
    t: TreeModel,
    path: Seq<char>,
    g: int,
    name: Seq<char>,
    b: int,
    i: int,
)
    requires
        0 <= g < t.len(),
        defines(t, g, name, b),
        forall|m: int| g < m < t.len() ==> !#[trigger] defines_name(t, m, name),
        calls(t, i, name),
    ensures
        cross_rule(t, path, library_summaries(), local_summaries(t, t.len()))(i).len() == one_if(
            (body_calls(t, b, "malloc"@) || body_calls(t, b, "calloc"@) || body_calls(
                t,
                b,
                "realloc"@,
            )) && stands_unassigned(t, i),
        ) + one_if(
            (body_calls(t, b, "scanf"@) || body_calls(t, b, "fgets"@) || body_calls(t, b, "read"@)
                || body_calls(t, b, "recv"@)) && (body_calls(t, b, "system"@) || body_calls(
                t,
                b,
                "popen"@,
            ) || body_calls(t, b, "exec"@)),
        ),
{
    summaries_say_what_bodies_do(t, g, name, b);
    lemma_last_definition(t, g, t.len(), name);
}

/// A declarator that is neither a name nor a function declarator takes the name of the first of its
/// children that has one.
pub proof fn first_child_with_a_name(t: TreeModel, d: int, k: int)
    requires
        0 <= d < t.len(),
        !t.is(d, "identifier"@),
        !t.is(d, "function_declarator"@),
        0 <= k < t.children(d).len(),
        forall|m: int| 0 <= m <= k ==> d < #[trigger] t.children(d)[m] < t.len(),
        forall|m: int|
            0 <= m < k ==> function_name(t, #[trigger] t.children(d)[m]).len() == 0,
        function_name(t, t.children(d)[k]).len() > 0,
    ensures
        function_name(t, d) == function_name(t, t.children(d)[k]),
{
    lemma_first_name(t, d, t.children(d), k);
}

proof fn lemma_first_name(t: TreeModel, d: int, nodes: Seq<int>, k: int)
    requires
        0 <= k < nodes.len(),
        forall|m: int| 0 <= m <= k ==> d < #[trigger] nodes[m] < t.len(),
        forall|m: int| 0 <= m < k ==> function_name(t, #[trigger] nodes[m]).len() == 0,
        function_name(t, nodes[k]).len() > 0,
    ensures
        first_name(t, d, nodes) == function_name(t, nodes[k]),
    decreases nodes.len(),
{
    assert(d < nodes[0] < t.len());
    if k > 0 {
        let rest = nodes.drop_first();
        assert(function_name(t, nodes[0]).len() == 0);
        assert forall|m: int| 0 <= m <= k - 1 implies d < #[trigger] rest[m] < t.len() by {
            assert(rest[m] == nodes[m + 1]);
        }
        assert forall|m: int| 0 <= m < k - 1 implies function_name(t, #[trigger] rest[m]).len()
            == 0 by {
            assert(rest[m] == nodes[m + 1]);
        }
        lemma_first_name(t, d, rest, k - 1);
    }
}

} // verus!
