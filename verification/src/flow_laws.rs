//! What a scan of a C or C++ source knows of variables, and what it says of their use.
use vstd::prelude::*;

use crate::c_laws::{calls, lemma_parts, one_if, says};
use crate::dataflow::{
    after_writes, allocates, arguments, assigned, assignment_writes, call_findings, double_frees,
    first_argument, first_identifier, flow_rule, format_string, free_writes, freed_in, freed_name,
    identifier, knowledge_lasts, known_before, lemma_all_freed, lemma_assignment_kind,
    lemma_call_kind, lemma_dereference_kind, lemma_free_writes, lemma_free_writes_free,
    lemma_one_write, lemma_untouched, lemma_write_if, null_value, pointed_name, readable,
    untouched, use_after_free, uses_after_free, write_if, writes, VarState,
};
use crate::finding::{
    found, gather, lemma_gathered, lemma_in_left, lemma_in_right, FindingModel, Severity,
};
use crate::scanner::c_scan;
use crate::syntax::TreeModel;
use crate::text::{find_char, lemma_find_char, mentions, trim};

verus! {

proof fn lemma_flowed(t: TreeModel, path: Seq<char>, i: int, f: FindingModel)
    requires
        0 <= i < t.len(),
        flow_rule(t, path)(i).contains(f),
    ensures
        c_scan(t, path).contains(f),
{
    lemma_gathered(flow_rule(t, path), t.len(), i, f);
    lemma_parts(t, path, f);
}

/// Whether the node `c` stands for the variable `name`: it is that identifier, or the first
/// identifier among its children is; a node with neither stands for the empty name.
pub open spec fn stands_for(t: TreeModel, c: int, name: Seq<char>) -> bool {
    if t.is(c, "identifier"@) {
        name == t.text(c)
    } else {
        ||| exists|k: int|
            {
                &&& 0 <= k < t.children(c).len()
                &&& t.is(#[trigger] t.children(c)[k], "identifier"@)
                &&& t.text(t.children(c)[k]) == name
                &&& forall|m: int|
                    0 <= m < k ==> !t.is(#[trigger] t.children(c)[m], "identifier"@)
            }
        ||| name.len() == 0 && forall|m: int|
            0 <= m < t.children(c).len() ==> !t.is(#[trigger] t.children(c)[m], "identifier"@)
    }
}

proof fn lemma_first_identifier(t: TreeModel, nodes: Seq<int>, k: int)
    requires
        0 <= k <= nodes.len(),
        forall|m: int| 0 <= m < k ==> !t.is(#[trigger] nodes[m], "identifier"@),
        k < nodes.len() ==> t.is(nodes[k], "identifier"@),
    ensures
        first_identifier(t, nodes) == if k < nodes.len() {
            t.text(nodes[k])
        } else {
            ""@
        },
    decreases nodes.len(),
{
    if nodes.len() > 0 && k > 0 {
        let rest = nodes.drop_first();
        assert(!t.is(nodes[0], "identifier"@));
        assert forall|m: int| 0 <= m < k - 1 implies !t.is(#[trigger] rest[m], "identifier"@) by {
            assert(rest[m] == nodes[m + 1]);
        }
        lemma_first_identifier(t, rest, k - 1);
    }
}

/// A node that stands for a variable has its name.
pub proof fn names_of_variables(t: TreeModel, c: int, name: Seq<char>)
    requires
        stands_for(t, c, name),
    ensures
        identifier(t, c) == name,
{
    reveal_strlit("");
    if !t.is(c, "identifier"@) {
        let nodes = t.children(c);
        if exists|k: int|
            {
                &&& 0 <= k < nodes.len()
                &&& t.is(#[trigger] nodes[k], "identifier"@)
                &&& t.text(nodes[k]) == name
                &&& forall|m: int| 0 <= m < k ==> !t.is(#[trigger] nodes[m], "identifier"@)
            } {
            let k = choose|k: int|
                {
                    &&& 0 <= k < nodes.len()
                    &&& t.is(#[trigger] nodes[k], "identifier"@)
                    &&& t.text(nodes[k]) == name
                    &&& forall|m: int| 0 <= m < k ==> !t.is(#[trigger] nodes[m], "identifier"@)
                };
            lemma_first_identifier(t, nodes, k);
        } else {
            lemma_first_identifier(t, nodes, nodes.len() as int);
            assert(name =~= ""@);
        }
    }
}

/// Whether the node `i` assigns a value with the text `value` to the variable `name`.
pub open spec fn assigns(t: TreeModel, i: int, name: Seq<char>, value: Seq<char>) -> bool {
    &&& t.is(i, "assignment_expression"@)
    &&& t.field(i, "left"@) matches Some(left) && stands_for(t, left, name)
    &&& t.field(i, "right"@) matches Some(right) && t.text(right) == value
}

/// Every assignment of a call of `malloc`, `calloc` or `realloc` is reported, and no other
/// assignment.
pub proof fn allocations_are_reported(
    t: TreeModel,
    path: Seq<char>,
    i: int,
    name: Seq<char>,
    value: Seq<char>,
)
    requires
        0 <= i < t.len(),
        assigns(t, i, name, value),
    ensures
        ({
            let allocated = mentions(value, "malloc"@) || mentions(value, "calloc"@) || mentions(
                value,
                "realloc"@,
            );
            &&& flow_rule(t, path)(i).len() == one_if(allocated)
            &&& allocated ==> says(
                c_scan(t, path),
                t,
                path,
                i,
                Severity::High,
                "unchecked_allocation"@,
                "'"@ + name + "' allocated but not checked for NULL"@,
                "Add: if (!"@ + name + ") { return NULL; }"@,
                88,
            )
        }),
{
    names_of_variables(t, t.field(i, "left"@)->0, name);
    lemma_assignment_kind(t, i);
    let all = flow_rule(t, path)(i);
    if all.len() > 0 {
        assert(all.contains(all[0]));
        lemma_flowed(t, path, i, all[0]);
    }
}

/// What is known of the variable `x` after an assignment: it is freed where the value frees it;
/// it is null, or allocated, where it is assigned such a value; and otherwise nothing changes.
pub proof fn assignments_are_remembered(
    t: TreeModel,
    i: int,
    name: Seq<char>,
    value: Seq<char>,
    x: Seq<char>,
)
    requires
        0 <= i < t.len(),
        assigns(t, i, name, value),
    ensures
        ({
            let before = known_before(t, i);
            let after = known_before(t, i + 1);
            let freed = mentions(value, "free("@) && freed_name(value) == Some(x);
            let null = x == name && (trim(value) == "NULL"@ || trim(value) == "0"@);
            let allocated = x == name && (mentions(value, "malloc"@) || mentions(
                value,
                "calloc"@,
            ) || mentions(value, "realloc"@));
            &&& freed || null || allocated ==> after.contains_key(x) && after[x] == if freed {
                VarState::Freed
            } else if null {
                VarState::Null
            } else {
                VarState::Allocated
            }
            &&& !freed && !null && !allocated ==> after.contains_key(x) == before.contains_key(x)
                && (before.contains_key(x) ==> after[x] == before[x])
        }),
{
    names_of_variables(t, t.field(i, "left"@)->0, name);
    lemma_assignment_kind(t, i);
    let vars = known_before(t, i);
    let one = write_if(allocates(value), name, VarState::Allocated);
    let two = write_if(null_value(value), name, VarState::Null);
    let none = Seq::<(Seq<char>, VarState)>::empty();
    lemma_write_if(vars, none, allocates(value), name, VarState::Allocated);
    assert(none + one =~= one);
    assert(after_writes(vars, none) == vars);
    lemma_write_if(vars, one, null_value(value), name, VarState::Null);
    match freed_name(value) {
        Some(y) => {
            lemma_write_if(vars, one + two, mentions(value, "free("@), y, VarState::Freed);
        },
        None => {
            assert(one + two + none =~= one + two);
        },
    }
    assert(writes(t, i) == assignment_writes(name, value));
    assert(known_before(t, i + 1) == after_writes(vars, writes(t, i)));
}

proof fn lemma_same_middle(a: Seq<char>, x: Seq<char>, y: Seq<char>, b: Seq<char>)
    requires
        a + x + b == a + y + b,
    ensures
        x == y,
{
    let n = a.len() as int;
    let left = a + x + b;
    let right = a + y + b;
    assert(left.len() == a.len() + x.len() + b.len());
    assert(right.len() == a.len() + y.len() + b.len());
    assert(x.len() == y.len());
    assert forall|k: int| 0 <= k < x.len() implies x[k] == y[k] by {
        assert(left[n + k] == x[k]);
        assert(right[n + k] == y[k]);
    }
    assert(x =~= y);
}

proof fn lemma_gathered_from(rule: spec_fn(int) -> Seq<FindingModel>, n: int, f: FindingModel) -> (k:
    int)
    requires
        gather(rule, n).contains(f),
    ensures
        0 <= k < n,
        rule(k).contains(f),
    decreases n,
{
    let all = gather(rule, n);
    let j = choose|j: int| 0 <= j < all.len() && all[j] == f;
    let before = gather(rule, n - 1);
    if j < before.len() {
        assert(before[j] == f);
        lemma_gathered_from(rule, n - 1, f)
    } else {
        assert(rule(n - 1)[j - before.len()] == f);
        n - 1
    }
}

/// A variable that is not known to be freed is not reported as used after it was freed.
proof fn lemma_no_use_after_free(t: TreeModel, path: Seq<char>, i: int, name: Seq<char>, f: FindingModel)
    requires
        t.is(i, "call_expression"@),
        !freed_in(known_before(t, i), name),
        flow_rule(t, path)(i).contains(f),
        f.category == "use_after_free"@,
    ensures
        f.message != "'"@ + name + "' used after free"@,
{
    lemma_call_kind(t, i);
    let vars = known_before(t, i);
    let n = arguments(t, i).len() as int;
    let called = crate::rule::called(t, i)->0;
    let one = gather(uses_after_free(t, path, i, vars), n);
    let two = if called == "free"@ {
        gather(double_frees(t, path, i, vars), n)
    } else {
        Seq::empty()
    };
    let three = found(format_string(t, path, i, called));
    let all = call_findings(t, path, i, vars);
    assert(all == one + two + three);
    let j = choose|j: int| 0 <= j < all.len() && all[j] == f;
    reveal_strlit("use_after_free");
    reveal_strlit("double_free");
    reveal_strlit("format_string");
    assert("use_after_free"@.len() == 14);
    assert("double_free"@.len() == 11);
    assert("format_string"@.len() == 13);
    if j < one.len() {
        assert(one[j] == f);
        let k = lemma_gathered_from(uses_after_free(t, path, i, vars), n, f);
        let arg = arguments(t, i)[k];
        assert(use_after_free(t, path, i, vars, arg) == Some(f));
        if f.message == "'"@ + name + "' used after free"@ {
            lemma_same_middle("'"@, name, t.text(arg), "' used after free"@);
        }
    } else if j < one.len() + two.len() {
        assert(two[j - one.len()] == f);
        let k = lemma_gathered_from(double_frees(t, path, i, vars), n, f);
        assert(false);
    } else {
        assert(three[j - one.len() - two.len()] == f);
        assert(false);
    }
}

/// A variable that is assigned a call of `malloc`, `calloc` or `realloc` is not known to be freed
/// after that, unless the value itself frees it; and a later call with it is not reported as a use
/// after it was freed, where nothing is said of it in between.
pub proof fn allocated_is_not_freed(
    t: TreeModel,
    path: Seq<char>,
    i: int,
    name: Seq<char>,
    value: Seq<char>,
    later: int,
)
    requires
        0 <= i < later,
        i < t.len(),
        assigns(t, i, name, value),
        mentions(value, "malloc"@) || mentions(value, "calloc"@) || mentions(value, "realloc"@),
        mentions(value, "free("@) ==> freed_name(value) != Some(name),
        forall|m: int| i < m < later ==> untouched(#[trigger] writes(t, m), name),
    ensures
        !freed_in(known_before(t, i + 1), name),
        !freed_in(known_before(t, later), name),
        t.is(later, "call_expression"@) ==> forall|f: FindingModel| #[trigger]
            flow_rule(t, path)(later).contains(f) && f.category == "use_after_free"@ ==> f.message
                != "'"@ + name + "' used after free"@,
{
    assignments_are_remembered(t, i, name, value, name);
    knowledge_lasts(t, i + 1, later, name);
    if t.is(later, "call_expression"@) {
        assert forall|f: FindingModel| #[trigger]
            flow_rule(t, path)(later).contains(f) && f.category == "use_after_free"@ implies f.message
            != "'"@ + name + "' used after free"@ by {
            lemma_no_use_after_free(t, path, later, name, f);
        }
    }
}

/// Whether the same is known of the variable `x` after the node `i` as before it.
pub open spec fn says_nothing_of(t: TreeModel, i: int, x: Seq<char>) -> bool {
    let before = known_before(t, i);
    let after = known_before(t, i + 1);
    after.contains_key(x) == before.contains_key(x) && (before.contains_key(x) ==> after[x]
        == before[x])
}

/// Whether the node `i` is known to leave the variable `x` in the state `state`.
pub open spec fn leaves(t: TreeModel, i: int, x: Seq<char>, state: VarState) -> bool {
    known_before(t, i + 1).contains_key(x) && known_before(t, i + 1)[x] == state
}

/// Whether one of the first `n` parts of the list of arguments `list` is the argument `x`, and no
/// parenthesis or comma.
pub open spec fn lists(t: TreeModel, list: int, n: int, x: Seq<char>) -> bool {
    exists|k: int|
        {
            &&& 0 <= k < n
            &&& t.text(#[trigger] t.children(list)[k]) == x
            &&& !t.is(t.children(list)[k], "("@)
            &&& !t.is(t.children(list)[k], ")"@)
            &&& !t.is(t.children(list)[k], ","@)
        }
}

proof fn lemma_unlisted(t: TreeModel, list: int, n: int, x: Seq<char>)
    requires
        0 <= n <= t.children(list).len(),
        !lists(t, list, n, x),
    ensures
        untouched(free_writes(t, t.children(list), n), x),
    decreases n,
{
    if n > 0 {
        assert(!lists(t, list, n - 1, x)) by {
            if lists(t, list, n - 1, x) {
                let k = choose|k: int|
                    {
                        &&& 0 <= k < n - 1
                        &&& t.text(#[trigger] t.children(list)[k]) == x
                        &&& !t.is(t.children(list)[k], "("@)
                        &&& !t.is(t.children(list)[k], ")"@)
                        &&& !t.is(t.children(list)[k], ","@)
                    };
                assert(0 <= k < n);
            }
        }
        lemma_unlisted(t, list, n - 1, x);
        let arg = t.children(list)[n - 1];
        let before = free_writes(t, t.children(list), n - 1);
        let all = free_writes(t, t.children(list), n);
        assert forall|k: int| 0 <= k < all.len() implies (#[trigger] all[k]).0 != x by {
            if k < before.len() {
                assert(all[k] == before[k]);
            }
        }
    }
}

proof fn lemma_listed(
    t: TreeModel,
    list: int,
    n: int,
    x: Seq<char>,
    vars: Map<Seq<char>, VarState>,
)
    requires
        0 <= n <= t.children(list).len(),
    ensures
        freed_in(after_writes(vars, free_writes(t, t.children(list), n)), x) == (freed_in(vars, x)
            || lists(t, list, n, x)),
{
    let args = t.children(list);
    lemma_free_writes_free(t, args, n);
    if lists(t, list, n, x) {
        let k = choose|k: int|
            {
                &&& 0 <= k < n
                &&& t.text(#[trigger] t.children(list)[k]) == x
                &&& !t.is(t.children(list)[k], "("@)
                &&& !t.is(t.children(list)[k], ")"@)
                &&& !t.is(t.children(list)[k], ","@)
            };
        lemma_free_writes(t, args, n, k);
        let j = choose|j: int|
            0 <= j < free_writes(t, args, n).len() && #[trigger] free_writes(t, args, n)[j] == (
                x,
                VarState::Freed,
            );
        lemma_all_freed(vars, free_writes(t, args, n), j);
    } else {
        lemma_unlisted(t, list, n, x);
        lemma_untouched(vars, free_writes(t, args, n), x);
    }
}

/// A call of `free` leaves each of its arguments freed, and says nothing of any other variable.
pub proof fn frees_are_remembered(t: TreeModel, i: int, list: int, x: Seq<char>)
    requires
        0 <= i < t.len(),
        calls(t, i, "free"@),
        t.field(i, "arguments"@) == Some(list),
    ensures
        lists(t, list, t.children(list).len() as int, x) ==> leaves(t, i, x, VarState::Freed),
        !lists(t, list, t.children(list).len() as int, x) ==> says_nothing_of(t, i, x),
{
    let n = t.children(list).len() as int;
    lemma_call_kind(t, i);
    let vars = known_before(t, i);
    assert(writes(t, i) == free_writes(t, t.children(list), n));
    assert(known_before(t, i + 1) == after_writes(vars, writes(t, i)));
    lemma_listed(t, list, n, x, vars);
    if !lists(t, list, n, x) {
        lemma_unlisted(t, list, n, x);
        lemma_untouched(vars, free_writes(t, t.children(list), n), x);
    }
}

/// Only declarations, assignments, calls of `free` and conditions say something of variables.
pub proof fn other_nodes_say_nothing(t: TreeModel, i: int, x: Seq<char>)
    requires
        0 <= i < t.len(),
        !t.is(i, "declaration"@),
        !t.is(i, "parameter_declaration"@),
        !t.is(i, "assignment_expression"@),
        !t.is(i, "if_statement"@),
        !calls(t, i, "free"@),
    ensures
        untouched(writes(t, i), x),
        says_nothing_of(t, i, x),
{
    let vars = known_before(t, i);
    assert(writes(t, i).len() == 0);
    assert(known_before(t, i + 1) == after_writes(vars, writes(t, i)));
    lemma_untouched(vars, writes(t, i), x);
}

/// An assignment to another variable says nothing of the variable `x`, unless it frees it.
pub proof fn other_assignments_say_nothing(
    t: TreeModel,
    i: int,
    name: Seq<char>,
    value: Seq<char>,
    x: Seq<char>,
)
    requires
        0 <= i < t.len(),
        assigns(t, i, name, value),
        name != x,
        mentions(value, "free("@) ==> freed_name(value) != Some(x),
    ensures
        untouched(writes(t, i), x),
{
    names_of_variables(t, t.field(i, "left"@)->0, name);
    lemma_assignment_kind(t, i);
    assert(writes(t, i) == assignment_writes(name, value));
}

/// Every call with a variable that is known to be freed is reported, and a call of `free` with it
/// is reported as well.
pub proof fn uses_of_freed_variables_are_reported(
    t: TreeModel,
    path: Seq<char>,
    i: int,
    name: Seq<char>,
    list: int,
    k: int,
    x: Seq<char>,
)
    requires
        0 <= i < t.len(),
        calls(t, i, name),
        t.field(i, "arguments"@) == Some(list),
        0 <= k < t.children(list).len(),
        t.text(t.children(list)[k]) == x,
        freed_in(known_before(t, i), x),
    ensures
        says(
            c_scan(t, path),
            t,
            path,
            i,
            Severity::Critical,
            "use_after_free"@,
            "'"@ + x + "' used after free"@,
            "Remove use of "@ + x + " after free, or set to NULL"@,
            91,
        ),
        name == "free"@ && !t.is(t.children(list)[k], "("@) && !t.is(t.children(list)[k], ")"@)
            && !t.is(t.children(list)[k], ","@) ==> says(
            c_scan(t, path),
            t,
            path,
            i,
            Severity::Critical,
            "double_free"@,
            "Double-free of '"@ + x + "' detected"@,
            "Set pointer to NULL after first free"@,
            93,
        ),
{
    broadcast use {lemma_in_left, lemma_in_right};

    lemma_call_kind(t, i);
    let vars = known_before(t, i);
    let args = t.children(list);
    let n = args.len() as int;
    let uses = uses_after_free(t, path, i, vars);
    let f = uses(k)[0];
    assert(uses(k).contains(f));
    lemma_gathered(uses, n, k, f);
    assert(call_findings(t, path, i, vars).contains(f));
    assert(flow_rule(t, path)(i).contains(f));
    lemma_flowed(t, path, i, f);
    if name == "free"@ && !t.is(args[k], "("@) && !t.is(args[k], ")"@) && !t.is(args[k], ","@) {
        lemma_listed(t, list, k, x, vars);
        let frees = double_frees(t, path, i, vars);
        let g = frees(k)[0];
        assert(frees(k).contains(g));
        lemma_gathered(frees, n, k, g);
        assert(call_findings(t, path, i, vars).contains(g));
        assert(flow_rule(t, path)(i).contains(g));
        lemma_flowed(t, path, i, g);
    }
}

/// A variable that is handed to `free` is reported where it is handed to a function later, and
/// nothing is said of it in between.
pub proof fn freed_variables_are_reported(
    t: TreeModel,
    path: Seq<char>,
    i: int,
    list: int,
    later: int,
    name: Seq<char>,
    more: int,
    k: int,
    x: Seq<char>,
)
    requires
        0 <= i < later < t.len(),
        calls(t, i, "free"@),
        t.field(i, "arguments"@) == Some(list),
        lists(t, list, t.children(list).len() as int, x),
        forall|m: int| i < m < later ==> untouched(#[trigger] writes(t, m), x),
        calls(t, later, name),
        t.field(later, "arguments"@) == Some(more),
        0 <= k < t.children(more).len(),
        t.text(t.children(more)[k]) == x,
    ensures
        says(
            c_scan(t, path),
            t,
            path,
            later,
            Severity::Critical,
            "use_after_free"@,
            "'"@ + x + "' used after free"@,
            "Remove use of "@ + x + " after free, or set to NULL"@,
            91,
        ),
        name == "free"@ && !t.is(t.children(more)[k], "("@) && !t.is(t.children(more)[k], ")"@)
            && !t.is(t.children(more)[k], ","@) ==> says(
            c_scan(t, path),
            t,
            path,
            later,
            Severity::Critical,
            "double_free"@,
            "Double-free of '"@ + x + "' detected"@,
            "Set pointer to NULL after first free"@,
            93,
        ),
{
    frees_are_remembered(t, i, list, x);
    knowledge_lasts(t, i + 1, later, x);
    uses_of_freed_variables_are_reported(t, path, later, name, more, k, x);
}

/// An argument is reported as freed before only where it is known to be; and as freed twice only
/// where it is known to be, or stands further left in the same call too.
pub proof fn only_freed_variables_are_reported(
    t: TreeModel,
    path: Seq<char>,
    i: int,
    list: int,
    k: int,
)
    requires
        t.field(i, "arguments"@) == Some(list),
        0 <= k < t.children(list).len(),
    ensures
        ({
            let arg = t.children(list)[k];
            let vars = known_before(t, i);
            let freed = vars.contains_key(t.text(arg)) && vars[t.text(arg)] == VarState::Freed;
            &&& uses_after_free(t, path, i, vars)(k).len() == one_if(freed)
            &&& double_frees(t, path, i, vars)(k).len() == one_if(
                (freed || lists(t, list, k, t.text(arg))) && !t.is(arg, "("@) && !t.is(arg, ")"@)
                    && !t.is(arg, ","@),
            )
        }),
{
    lemma_listed(t, list, k, t.text(t.children(list)[k]), known_before(t, i));
}

proof fn lemma_first_argument(t: TreeModel, nodes: Seq<int>, k: int)
    requires
        0 <= k <= nodes.len(),
        forall|m: int|
            0 <= m < k ==> t.is(#[trigger] nodes[m], "("@) || t.is(nodes[m], ")"@) || t.is(
                nodes[m],
                ","@,
            ),
        k < nodes.len() ==> !t.is(nodes[k], "("@) && !t.is(nodes[k], ")"@) && !t.is(nodes[k], ","@),
    ensures
        first_argument(t, nodes) == if k < nodes.len() {
            Some(nodes[k])
        } else {
            None
        },
    decreases nodes.len(),
{
    if nodes.len() > 0 && k > 0 {
        let rest = nodes.drop_first();
        assert(t.is(nodes[0], "("@) || t.is(nodes[0], ")"@) || t.is(nodes[0], ","@));
        assert forall|m: int| 0 <= m < k - 1 implies t.is(#[trigger] rest[m], "("@) || t.is(
            rest[m],
            ")"@,
        ) || t.is(rest[m], ","@) by {
            assert(rest[m] == nodes[m + 1]);
        }
        lemma_first_argument(t, rest, k - 1);
    }
}

/// Every call of a function of the `printf` family whose first argument is no string literal is
/// reported; a call is reported for that, and for the freed variables among its arguments, and for
/// nothing else.
pub proof fn format_strings_are_reported(
    t: TreeModel,
    path: Seq<char>,
    i: int,
    name: Seq<char>,
    list: int,
    k: int,
)
    requires
        0 <= i < t.len(),
        calls(t, i, name),
        t.field(i, "arguments"@) == Some(list),
        0 <= k <= t.children(list).len(),
        forall|m: int|
            0 <= m < k ==> t.is(#[trigger] t.children(list)[m], "("@) || t.is(
                t.children(list)[m],
                ")"@,
            ) || t.is(t.children(list)[m], ","@),
        k < t.children(list).len() ==> !t.is(t.children(list)[k], "("@) && !t.is(
            t.children(list)[k],
            ")"@,
        ) && !t.is(t.children(list)[k], ","@),
    ensures
        ({
            let n = t.children(list).len() as int;
            let vars = known_before(t, i);
            let formats = (name == "printf"@ || name == "sprintf"@ || name == "fprintf"@ || name
                == "snprintf"@) && k < n && !t.is(t.children(list)[k], "string_literal"@) && !t.is(
                t.children(list)[k],
                "string_content"@,
            );
            &&& formats ==> says(
                c_scan(t, path),
                t,
                path,
                i,
                Severity::Critical,
                "format_string"@,
                "Format string vulnerability in "@ + name,
                "Use constant format string, never user input"@,
                90,
            )
            &&& flow_rule(t, path)(i).len() == gather(uses_after_free(t, path, i, vars), n).len() + (
            if name == "free"@ {
                gather(double_frees(t, path, i, vars), n).len()
            } else {
                0
            }) + one_if(formats)
        }),
{
    broadcast use {lemma_in_left, lemma_in_right};

    lemma_call_kind(t, i);
    lemma_first_argument(t, t.children(list), k);
    let vars = known_before(t, i);
    let three = found(format_string(t, path, i, name));
    if three.len() > 0 {
        assert(three.contains(three[0]));
        assert(call_findings(t, path, i, vars).contains(three[0]));
        assert(flow_rule(t, path)(i).contains(three[0]));
        lemma_flowed(t, path, i, three[0]);
    }
}

/// Every star and every subscript on a variable that is known to be null, or not to be
/// initialized, is reported; and no other.
pub proof fn dereferences_are_reported(
    t: TreeModel,
    path: Seq<char>,
    i: int,
    c: int,
    name: Seq<char>,
)
    requires
        0 <= i < t.len(),
        t.is(i, "pointer_expression"@) && (t.field(i, "operator"@) matches Some(o) && t.text(o)
            == "*"@) || t.is(i, "subscript_expression"@),
        t.field(i, "argument"@) == Some(c) || t.field(i, "argument"@) is None && t.first_child(i)
            == Some(c),
        stands_for(t, c, name),
    ensures
        ({
            let vars = known_before(t, i);
            let null = name.len() > 0 && vars.contains_key(name) && (vars[name] == VarState::Null
                || vars[name] == VarState::Uninitialized);
            &&& flow_rule(t, path)(i).len() == one_if(null)
            &&& null ==> says(
                c_scan(t, path),
                t,
                path,
                i,
                Severity::Critical,
                "null_dereference_confirmed"@,
                "Confirmed NULL dereference of '"@ + name + "'"@,
                "Add null check before dereferencing "@ + name,
                94,
            )
        }),
{
    names_of_variables(t, c, name);
    lemma_dereference_kind(t, i);
    let all = flow_rule(t, path)(i);
    if all.len() > 0 {
        assert(all.contains(all[0]));
        lemma_flowed(t, path, i, all[0]);
    }
}

/// A variable that is assigned null is reported where it is dereferenced later, and nothing is
/// said of it in between.
pub proof fn dereferences_of_null_are_reported(
    t: TreeModel,
    path: Seq<char>,
    i: int,
    name: Seq<char>,
    value: Seq<char>,
    later: int,
    c: int,
)
    requires
        0 <= i < later < t.len(),
        assigns(t, i, name, value),
        trim(value) == "NULL"@ || trim(value) == "0"@,
        name.len() > 0,
        forall|m: int| i < m < later ==> untouched(#[trigger] writes(t, m), name),
        t.is(later, "pointer_expression"@) && (t.field(later, "operator"@) matches Some(o)
            && t.text(o) == "*"@) || t.is(later, "subscript_expression"@),
        t.field(later, "argument"@) == Some(c),
        stands_for(t, c, name),
    ensures
        says(
            c_scan(t, path),
            t,
            path,
            later,
            Severity::Critical,
            "null_dereference_confirmed"@,
            "Confirmed NULL dereference of '"@ + name + "'"@,
            "Add null check before dereferencing "@ + name,
            94,
        ),
{
    assignments_are_remembered(t, i, name, value, name);
    crate::dataflow::lemma_null_frees_nothing(value);
    knowledge_lasts(t, i + 1, later, name);
    dereferences_are_reported(t, path, later, c, name);
}

/// Any other pointer expression, such as one that takes an address, is not reported.
pub proof fn addresses_are_not_reported(t: TreeModel, path: Seq<char>, i: int)
    requires
        t.is(i, "pointer_expression"@),
        t.field(i, "operator"@) matches Some(o) ==> t.text(o) != "*"@,
    ensures
        flow_rule(t, path)(i).len() == 0,
{
    lemma_pointer_kind(t, i);
}

proof fn lemma_pointer_kind(t: TreeModel, i: int)
    requires
        t.is(i, "pointer_expression"@),
    ensures
        !t.is(i, "declaration"@),
        !t.is(i, "parameter_declaration"@),
        !t.is(i, "assignment_expression"@),
        !t.is(i, "call_expression"@),
        !t.is(i, "subscript_expression"@),
{
    reveal_strlit("pointer_expression");
    reveal_strlit("declaration");
    reveal_strlit("parameter_declaration");
    reveal_strlit("assignment_expression");
    reveal_strlit("call_expression");
    reveal_strlit("subscript_expression");
    assert("pointer_expression"@.len() == 18);
    assert("declaration"@.len() == 11);
    assert("parameter_declaration"@.len() == 21);
    assert("assignment_expression"@.len() == 21);
    assert("call_expression"@.len() == 15);
    assert("subscript_expression"@.len() == 20);
}

/// A declarator declares a pointer where it is a pointer to a name, or to such a declarator.
pub proof fn names_of_pointers(t: TreeModel, d: int, inner: int)
    requires
        0 <= d < t.len(),
    ensures
        t.is(d, "pointer_declarator"@) && t.field(d, "declarator"@) == Some(inner) ==> pointed_name(
            t,
            d,
        ) == if t.is(inner, "identifier"@) {
            Some(t.text(inner))
        } else {
            pointed_name(t, inner)
        },
        !t.is(d, "pointer_declarator"@) ==> pointed_name(t, d) is None,
{
}

/// What a declaration without a value says: that its variable is not initialized. A pointer is
/// known by what it points at, to whatever depth, except that a parameter is known by the name that
/// stands first.
pub proof fn declarations_are_remembered(
    t: TreeModel,
    i: int,
    d: int,
    name: Seq<char>,
    x: Seq<char>,
)
    requires
        0 <= i < t.len(),
        t.is(i, "declaration"@) || t.is(i, "parameter_declaration"@),
        t.field(i, "declarator"@) == Some(d),
        !t.is(d, "init_declarator"@),
        if t.is(i, "declaration"@) && pointed_name(t, d) is Some {
            pointed_name(t, d) == Some(name)
        } else {
            stands_for(t, d, name)
        },
    ensures
        leaves(t, i, name, VarState::Uninitialized),
        x != name ==> says_nothing_of(t, i, x),
{
    if !(t.is(i, "declaration"@) && pointed_name(t, d) is Some) {
        names_of_variables(t, d, name);
    }
    let vars = known_before(t, i);
    assert(writes(t, i) == seq![(name, VarState::Uninitialized)]);
    lemma_one_write(vars, name, VarState::Uninitialized);
    assert(known_before(t, i + 1) == after_writes(vars, writes(t, i)));
}

/// What a declaration with a value says: a plain variable counts as not initialized; a pointer is
/// null where the value is, and of a pointer with any other value nothing is said.
pub proof fn values_of_declarations_are_remembered(
    t: TreeModel,
    i: int,
    d: int,
    inner: int,
    value: int,
    x: Seq<char>,
)
    requires
        0 <= i < t.len(),
        t.is(i, "declaration"@) || t.is(i, "parameter_declaration"@),
        t.field(i, "declarator"@) == Some(d),
        t.is(d, "init_declarator"@),
        t.field(d, "declarator"@) == Some(inner),
        t.field(d, "value"@) == Some(value),
    ensures
        ({
            let null = trim(t.text(value)) == "NULL"@ || trim(t.text(value)) == "0"@;
            if t.is(inner, "identifier"@) && x == t.text(inner) {
                leaves(t, i, x, VarState::Uninitialized)
            } else if !t.is(inner, "identifier"@) && pointed_name(t, inner) == Some(x) && null {
                leaves(t, i, x, VarState::Null)
            } else {
                says_nothing_of(t, i, x)
            }
        }),
{
    let vars = known_before(t, i);
    assert(known_before(t, i + 1) == after_writes(vars, writes(t, i)));
    if t.is(inner, "identifier"@) {
        lemma_one_write(vars, t.text(inner), VarState::Uninitialized);
    } else if let Some(name) = pointed_name(t, inner) {
        if null_value(t.text(value)) {
            assert(writes(t, i) =~= seq![(name, VarState::Null)]);
            lemma_one_write(vars, name, VarState::Null);
        }
    }
}

/// Every pointer that is declared without a value is reported, and no other declaration. A star
/// in the type counts, and one in the declarator of anything but a parameter.
pub proof fn uninitialized_pointers_are_reported(
    t: TreeModel,
    path: Seq<char>,
    i: int,
    d: int,
    name: Seq<char>,
    starred: bool,
)
    requires
        0 <= i < t.len(),
        t.is(i, "declaration"@) || t.is(i, "parameter_declaration"@),
        t.field(i, "declarator"@) == Some(d),
        starred == (t.field(i, "type"@) matches Some(k) && mentions(t.text(k), "*"@)),
        starred ==> stands_for(t, d, name),
        !starred && pointed_name(t, d) is Some ==> pointed_name(t, d) == Some(name),
    ensures
        ({
            let pointer = starred || t.is(i, "declaration"@) && pointed_name(t, d) is Some;
            let valued = exists|k: int|
                0 <= k < t.children(i).len() && (t.is(#[trigger] t.children(i)[k], "="@) || t.is(
                    t.children(i)[k],
                    "init_declarator"@,
                ));
            &&& flow_rule(t, path)(i).len() == one_if(pointer && !valued)
            &&& pointer && !valued ==> says(
                c_scan(t, path),
                t,
                path,
                i,
                Severity::Medium,
                "uninitialized_pointer"@,
                "Pointer '"@ + name + "' declared without initialization"@,
                "Initialize "@ + name + " to NULL or valid address"@,
                82,
            )
        }),
{
    if starred {
        names_of_variables(t, d, name);
    }
    reveal_strlit("");
    reveal_strlit("*");
    assert(!mentions(""@, "*"@)) by {
        assert("*"@.len() == 1);
    }
    let all = flow_rule(t, path)(i);
    if all.len() > 0 {
        assert(all.contains(all[0]));
        lemma_flowed(t, path, i, all[0]);
    }
}

/// A condition that shows a variable not to be null leaves it checked; any other condition says
/// nothing.
pub proof fn conditions_are_remembered(t: TreeModel, i: int, c: int, x: Seq<char>)
    requires
        0 <= i < t.len(),
        t.is(i, "if_statement"@),
        t.field(i, "condition"@) == Some(c),
    ensures
        if crate::dataflow::checked_name(t.text(c)) == Some(x) {
            leaves(t, i, x, VarState::Checked)
        } else {
            says_nothing_of(t, i, x)
        },
{
    lemma_condition_kind(t, i);
    let vars = known_before(t, i);
    assert(known_before(t, i + 1) == after_writes(vars, writes(t, i)));
    if let Some(name) = crate::dataflow::checked_name(t.text(c)) {
        lemma_one_write(vars, name, VarState::Checked);
    }
}

proof fn lemma_condition_kind(t: TreeModel, i: int)
    requires
        t.is(i, "if_statement"@),
    ensures
        !t.is(i, "declaration"@),
        !t.is(i, "parameter_declaration"@),
        !t.is(i, "assignment_expression"@),
        !t.is(i, "call_expression"@),
        !t.is(i, "pointer_expression"@),
        !t.is(i, "subscript_expression"@),
{
    reveal_strlit("if_statement");
    reveal_strlit("pointer_expression");
    reveal_strlit("declaration");
    reveal_strlit("parameter_declaration");
    reveal_strlit("assignment_expression");
    reveal_strlit("call_expression");
    reveal_strlit("subscript_expression");
    assert("if_statement"@.len() == 12);
    assert("pointer_expression"@.len() == 18);
    assert("declaration"@.len() == 11);
    assert("parameter_declaration"@.len() == 21);
    assert("assignment_expression"@.len() == 21);
    assert("call_expression"@.len() == 15);
    assert("subscript_expression"@.len() == 20);
}

/// Which nodes cannot be read: assignments of a call of `free` in which a closing parenthesis comes
/// before the first opening one.
pub proof fn what_cannot_be_read(
    t: TreeModel,
    i: int,
    name: Seq<char>,
    a: Seq<char>,
    b: Seq<char>,
)
    requires
        assigns(t, i, name, a + b),
        !a.contains('('),
    ensures
        a.contains(')') && b.contains('(') && mentions(a + b, "free("@) ==> !readable(t, i),
        !a.contains(')') && b.len() > 0 && b[0] == '(' ==> readable(t, i),
        !mentions(a + b, "free("@) ==> readable(t, i),
{
    let text = a + b;
    lemma_find_char(text, '(');
    lemma_find_char(text, ')');
    let n = a.len() as int;
    assert forall|k: int| 0 <= k < n implies text[k] != '(' by {
        assert(a.contains(a[k]));
    }
    if a.contains(')') && b.contains('(') {
        let k = choose|k: int| 0 <= k < a.len() && a[k] == ')';
        let m = choose|m: int| 0 <= m < b.len() && b[m] == '(';
        assert(text[k] == ')');
        assert(text[n + m] == '(');
        assert(find_char(text, ')') <= k);
        assert(n <= find_char(text, '(') <= n + m);
    }
    if !a.contains(')') && b.len() > 0 && b[0] == '(' {
        assert(text[n] == '(');
        assert forall|k: int| 0 <= k < n implies text[k] != ')' by {
            assert(a.contains(a[k]));
        }
        assert(find_char(text, '(') == n);
    }
}

/// A node that is no assignment with two sides can be read.
pub proof fn other_nodes_can_be_read(t: TreeModel, i: int)
    requires
        !t.is(i, "assignment_expression"@) || t.field(i, "left"@) is None || t.field(i, "right"@)
            is None,
    ensures
        readable(t, i),
{
}

/// What is said of a node that is neither a declaration, an assignment, a call, a dereference nor a
/// subscript: nothing.
pub proof fn other_nodes_are_not_reported(t: TreeModel, path: Seq<char>, i: int)
    requires
        !t.is(i, "declaration"@),
        !t.is(i, "parameter_declaration"@),
        !t.is(i, "assignment_expression"@),
        !t.is(i, "call_expression"@),
        !t.is(i, "pointer_expression"@),
        !t.is(i, "subscript_expression"@),
    ensures
        flow_rule(t, path)(i).len() == 0,
{
}

} // verus!
