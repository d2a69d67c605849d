//! What a scan of a C or C++ source says of a place by what came before it.
use vstd::prelude::*;

use crate::advanced::{
    advanced_call_findings, advanced_rule, argument_findings, begins_after, closed_rule, comes_to,
    holds_product, product, product_argument, product_lasts, races,
    races_after, remembered, remembered_names, sets_before, size_findings, tainted_rule,
    use_after_check, uses_after_check,
};
use crate::c_laws::{argument_text, calls, lemma_parts, one_if, says};
use crate::dataflow::arguments;
use crate::finding::{lemma_gathered, lemma_in_left, lemma_in_right, FindingModel, Severity};
use crate::names::any_mentioned;
use crate::outside::lowercase;
use crate::scanner::c_scan;
use crate::syntax::{lemma_above, lemma_end_from, TreeModel};
use crate::text::mentions;

verus! {

/// What an analysis of a node finds, a scan holds.
proof fn lemma_said(t: TreeModel, path: Seq<char>, i: int, f: FindingModel)
    requires
        0 <= i < t.len(),
        advanced_rule(t, path)(i).contains(f),
    ensures
        c_scan(t, path).contains(f),
{
    lemma_gathered(advanced_rule(t, path), t.len(), i, f);
    lemma_parts(t, path, f);
}

/// What the arguments of a call are reported as, the call is.
proof fn lemma_said_of_arguments(
    t: TreeModel,
    path: Seq<char>,
    i: int,
    name: Seq<char>,
    args: Seq<char>,
    f: FindingModel,
)
    requires
        0 <= i < t.len(),
        calls(t, i, name),
        argument_text(t, i, args),
        argument_findings(
            t,
            path,
            i,
            name,
            lowercase(name),
            args,
            lowercase(args),
            remembered(t, i),
        ).contains(f),
    ensures
        c_scan(t, path).contains(f),
{
    broadcast use {lemma_in_left, lemma_in_right};

    assert(advanced_call_findings(t, path, i, remembered(t, i)).contains(f));
    assert(advanced_rule(t, path)(i).contains(f));
    lemma_said(t, path, i, f);
}

/// Whether the node `j` is a call that works on a file by its name.
pub open spec fn works_on(t: TreeModel, j: int, name: Seq<char>) -> bool {
    calls(t, j, name) && (mentions(lowercase(name), "open"@) || mentions(
        lowercase(name),
        "fopen"@,
    ) || mentions(lowercase(name), "chown"@) || mentions(lowercase(name), "chmod"@) || mentions(
        lowercase(name),
        "unlink"@,
    ) || mentions(lowercase(name), "rename"@))
}

/// Whether the node `i` is a call that inspects a file.
pub open spec fn inspects(t: TreeModel, i: int, name: Seq<char>) -> bool {
    calls(t, i, name) && (mentions(lowercase(name), "access"@) || mentions(
        lowercase(name),
        "stat"@,
    ) || mentions(lowercase(name), "lstat"@) || mentions(lowercase(name), "fstat"@))
}

/// Whether a search that begins at the parent of a node goes up through these nodes, each the
/// parent of the one before and all but the last of them parts of a statement.
pub open spec fn goes_up(t: TreeModel, check: int, ups: Seq<int>) -> bool {
    &&& ups.len() > 0
    &&& t.parent(check) == Some(ups[0])
    &&& forall|k: int| 0 <= k < ups.len() - 1 ==> #[trigger] goes_on(t, ups, k)
}

/// Whether such a search goes on from the node number `k`.
pub open spec fn goes_on(t: TreeModel, ups: Seq<int>, k: int) -> bool {
    &&& ups[k] > 0
    &&& t.parent(ups[k]) == Some(ups[k + 1])
    &&& t.is(ups[k], "binary_expression"@) || t.is(ups[k], "unary_expression"@) || t.is(
        ups[k],
        "assignment_expression"@,
    ) || t.is(ups[k], "parenthesized_expression"@)
}

proof fn lemma_goes_up(t: TreeModel, check: int, ups: Seq<int>, k: int)
    requires
        goes_up(t, check, ups),
        0 <= k < ups.len(),
    ensures
        comes_to(t, ups[k], ups.last()),
    decreases ups.len() - k,
{
    if k < ups.len() - 1 {
        lemma_goes_up(t, check, ups, k + 1);
        assert(goes_on(t, ups, k));
    }
}

/// A call that works on a file, below a node to which the search after a check goes up, is
/// reported as a race with it.
pub proof fn races_are_reported(
    t: TreeModel,
    path: Seq<char>,
    check: int,
    check_name: Seq<char>,
    ups: Seq<int>,
    j: int,
    name: Seq<char>,
)
    requires
        0 <= check < t.len(),
        inspects(t, check, check_name),
        goes_up(t, check, ups),
        0 <= ups.last() < j < t.subtree_end(ups.last()) <= t.len(),
        works_on(t, j, name),
        t.nodes[j].start > t.nodes[check].start,
        forall|k: int|
            ups.last() < k < j && j < #[trigger] t.subtree_end(k) ==> t.nodes[k].start
                > t.nodes[check].start,
    ensures
        says(
            c_scan(t, path),
            t,
            path,
            j,
            Severity::High,
            "toctou_race_condition"@,
            "TOCTOU: "@ + name + " after "@ + check_name
                + " - file may change between check and use"@,
            "Use fstat/fchown on file descriptor instead, or O_NOFOLLOW"@,
            85,
        ),
{
    broadcast use {lemma_in_left, lemma_in_right};

    lemma_goes_up(t, check, ups, 0);
    let at = t.nodes[check].start as int;
    let scope = ups.last();
    let found = use_after_check(t, path, j, check_name);
    let f = found[0];
    assert(found.contains(f));
    assert(begins_after(t, scope, j, at));
    lemma_use(t, path, check_name, at, scope, scope + 1, t.subtree_end(scope), j, f);
    lemma_race(t, path, check_name, at, ups[0], scope, f);
    assert(races_after(t, path, check, check_name).contains(f));
    assert(advanced_call_findings(t, path, check, remembered(t, check)).contains(f));
    assert(advanced_rule(t, path)(check).contains(f));
    lemma_said(t, path, check, f);
}

proof fn lemma_use(
    t: TreeModel,
    path: Seq<char>,
    check: Seq<char>,
    at: int,
    scope: int,
    from: int,
    end: int,
    j: int,
    f: FindingModel,
)
    requires
        0 <= scope < from <= j < end <= t.len(),
        begins_after(t, scope, j, at),
        use_after_check(t, path, j, check).contains(f),
    ensures
        uses_after_check(t, path, check, at, from, end).contains(f),
    decreases j - from,
{
    broadcast use {lemma_in_left, lemma_in_right};

    if from < j {
        if t.nodes[from].start > at {
            lemma_use(t, path, check, at, scope, from + 1, end, j, f);
        } else {
            lemma_end_from(t.nodes, t.nodes[from].depth, from + 1);
            lemma_use(t, path, check, at, scope, t.subtree_end(from), end, j, f);
        }
    }
}

proof fn lemma_race(
    t: TreeModel,
    path: Seq<char>,
    check: Seq<char>,
    at: int,
    from: int,
    scope: int,
    f: FindingModel,
)
    requires
        comes_to(t, from, scope),
        uses_after_check(t, path, check, at, scope + 1, t.subtree_end(scope)).contains(f),
    ensures
        races(t, path, check, at, from).contains(f),
    decreases from,
{
    broadcast use {lemma_in_left, lemma_in_right};

    if from != scope {
        let p = t.parent(from)->0;
        lemma_above(t.nodes, t.nodes[from].depth, from);
        lemma_race(t, path, check, at, p, scope, f);
    }
}

/// Whether a finding is a race of the node `j` with a check at the byte `at`.
pub open spec fn race_at(t: TreeModel, f: FindingModel, j: int, at: int) -> bool {
    &&& 0 <= j < t.len()
    &&& t.nodes[j].start > at
    &&& exists|name: Seq<char>| #[trigger] works_on(t, j, name)
    &&& f.line == t.place(j).0
    &&& f.column == t.place(j).1
    &&& f.category == "toctou_race_condition"@
}

proof fn lemma_uses_are_races(
    t: TreeModel,
    path: Seq<char>,
    check: Seq<char>,
    at: int,
    from: int,
    end: int,
    f: FindingModel,
)
    requires
        uses_after_check(t, path, check, at, from, end).contains(f),
    ensures
        exists|j: int| #[trigger] race_at(t, f, j, at),
    decreases t.len() - from,
{
    let all = uses_after_check(t, path, check, at, from, end);
    let k = choose|k: int| 0 <= k < all.len() && all[k] == f;
    if from >= end || end > t.len() || from < 0 {
    } else if t.nodes[from].start > at {
        let one = use_after_check(t, path, from, check);
        if k < one.len() {
            let name = t.text(t.field(from, "function"@)->0);
            assert(works_on(t, from, name));
            assert(race_at(t, f, from, at));
        } else {
            let rest = uses_after_check(t, path, check, at, from + 1, end);
            assert(rest[k - one.len()] == f);
            lemma_uses_are_races(t, path, check, at, from + 1, end, f);
        }
    } else {
        lemma_end_from(t.nodes, t.nodes[from].depth, from + 1);
        lemma_uses_are_races(t, path, check, at, t.subtree_end(from), end, f);
    }
}

/// What is reported as a race is a call, after the check, that works on a file.
pub proof fn only_races_are_reported(
    t: TreeModel,
    path: Seq<char>,
    check: Seq<char>,
    at: int,
    scope: int,
    f: FindingModel,
)
    requires
        races(t, path, check, at, scope).contains(f),
    ensures
        exists|j: int| #[trigger] race_at(t, f, j, at),
    decreases scope,
{
    let below = uses_after_check(t, path, check, at, scope + 1, t.subtree_end(scope));
    let all = races(t, path, check, at, scope);
    let k = choose|k: int| 0 <= k < all.len() && all[k] == f;
    if k < below.len() {
        assert(below[k] == f);
        lemma_uses_are_races(t, path, check, at, scope + 1, t.subtree_end(scope), f);
    } else {
        let p = t.parent(scope)->0;
        lemma_above(t.nodes, t.nodes[scope].depth, scope);
        assert(races(t, path, check, at, p)[k - below.len()] == f);
        only_races_are_reported(t, path, check, at, p, f);
    }
}

/// Whether a function, in capitals or not, is one of the three allocators.
pub open spec fn allocates_as(name: Seq<char>) -> bool {
    lowercase(name) == "malloc"@ || lowercase(name) == "calloc"@ || lowercase(name) == "realloc"@
}

/// Whether the node `j` sets `name`: it is a declaration of it, with a value or without, or an
/// assignment to it.
pub open spec fn gives_value(t: TreeModel, j: int, name: Seq<char>) -> bool {
    ||| (t.is(j, "init_declarator"@) || t.is(j, "declaration"@) || t.is(
        j,
        "parameter_declaration"@,
    )) && (t.field(j, "declarator"@) matches Some(d) && t.text(d) == name)
    ||| t.is(j, "assignment_expression"@) && (t.field(j, "left"@) matches Some(l) && t.text(l)
        == name)
}

/// Whether a node is a product or a shift to the left.
pub open spec fn multiplies(t: TreeModel, v: int) -> bool {
    t.is(v, "binary_expression"@) && (t.field(v, "operator"@) matches Some(o) && (t.text(o) == "*"@
        || t.text(o) == "<<"@))
}

/// Whether the node `j` sets `name` to a product or to a shift to the left.
pub open spec fn gives_product(t: TreeModel, j: int, name: Seq<char>) -> bool {
    ||| t.is(j, "init_declarator"@) && (t.field(j, "declarator"@) matches Some(d) && t.text(d)
        == name) && (t.field(j, "value"@) matches Some(v) && multiplies(t, v))
    ||| t.is(j, "assignment_expression"@) && (t.field(j, "left"@) matches Some(l) && t.text(l)
        == name) && (t.field(j, "right"@) matches Some(v) && multiplies(t, v))
}

proof fn lemma_setting_kinds()
    ensures
        "init_declarator"@ != "assignment_expression"@,
        "init_declarator"@ != "declaration"@,
        "init_declarator"@ != "parameter_declaration"@,
        "assignment_expression"@ != "declaration"@,
        "assignment_expression"@ != "parameter_declaration"@,
{
    reveal_strlit("init_declarator");
    reveal_strlit("assignment_expression");
    reveal_strlit("declaration");
    reveal_strlit("parameter_declaration");
    assert("init_declarator"@.len() == 15);
    assert("assignment_expression"@.len() == 21 && "assignment_expression"@[0] == 'a');
    assert("declaration"@.len() == 11);
    assert("parameter_declaration"@.len() == 21 && "parameter_declaration"@[0] == 'p');
}

proof fn lemma_sets(t: TreeModel, j: int, name: Seq<char>)
    ensures
        (crate::advanced::set_name(t, j) == Some(name)) == gives_value(t, j, name),
        (product(t, j) == Some(name)) == gives_product(t, j, name),
{
    lemma_setting_kinds();
}

/// Every allocation whose size is, or was set to, a product or a shift to the left is reported.
pub proof fn overflowing_sizes_are_reported(
    t: TreeModel,
    path: Seq<char>,
    i: int,
    name: Seq<char>,
    args: Seq<char>,
    list: int,
    j: int,
    k: int,
)
    requires
        0 <= i < t.len(),
        calls(t, i, name),
        allocates_as(name),
        t.field(i, "arguments"@) == Some(list),
        t.text(list) == args,
        mentions(args, "*"@) || mentions(args, "<<"@) || (0 <= j < i && 0 <= k < t.children(
            list,
        ).len() && gives_product(t, j, t.text(t.children(list)[k])) && t.subtree_end(j) <= i
            && forall|m: int|
            j < m < i && #[trigger] t.subtree_end(m) <= i ==> !gives_value(
                t,
                m,
                t.text(t.children(list)[k]),
            )),
    ensures
        says(
            c_scan(t, path),
            t,
            path,
            i,
            Severity::Critical,
            "integer_overflow_allocation"@,
            "Integer overflow risk in "@ + name + " size calculation"@,
            "Check for overflow: if (n > SIZE_MAX / size) return NULL"@,
            88,
        ),
{
    broadcast use {lemma_in_left, lemma_in_right};

    if !mentions(args, "*"@) && !mentions(args, "<<"@) {
        let v = t.text(t.children(list)[k]);
        lemma_sets(t, j, v);
        assert forall|m: int| j < m < i implies !#[trigger] sets_before(t, m, v, i) by {
            lemma_sets(t, m, v);
            assert(t.subtree_end(m) <= i ==> !gives_value(t, m, v));
        }
        product_lasts(t, v, j, i, i);
        assert(arguments(t, i)[k] == t.children(list)[k]);
        assert(product_argument(t, i));
    }
    let sizes = size_findings(t, path, i, name, args);
    let f = sizes[0];
    assert(sizes.contains(f));
    assert(argument_findings(
        t,
        path,
        i,
        name,
        lowercase(name),
        args,
        lowercase(args),
        remembered(t, i),
    ).contains(f));
    lemma_said_of_arguments(t, path, i, name, args, f);
}

/// A variable that was last set to something else does not make a size a product.
pub proof fn other_sizes_are_no_products(t: TreeModel, name: Seq<char>, j: int, i: int)
    requires
        0 <= j < i,
        gives_value(t, j, name),
        !gives_product(t, j, name),
        t.subtree_end(j) <= i,
        forall|m: int|
            j < m < i && #[trigger] t.subtree_end(m) <= i ==> !gives_value(t, m, name),
    ensures
        !holds_product(t, name, i, i),
{
    lemma_sets(t, j, name);
    assert forall|m: int| j < m < i implies !#[trigger] sets_before(t, m, name, i) by {
        lemma_sets(t, m, name);
        assert(t.subtree_end(m) <= i ==> !gives_value(t, m, name));
    }
    assert(sets_before(t, j, name, i));
    lemma_last_set(t, name, j, i, i);
}

proof fn lemma_last_set(t: TreeModel, name: Seq<char>, j: int, n: int, i: int)
    requires
        0 <= j < n <= i,
        sets_before(t, j, name, i),
        product(t, j) != Some(name),
        forall|m: int| j < m < n ==> !#[trigger] sets_before(t, m, name, i),
    ensures
        !holds_product(t, name, n, i),
    decreases n,
{
    if j < n - 1 {
        assert(!sets_before(t, n - 1, name, i));
        lemma_last_set(t, name, j, n - 1, i);
    }
}

/// A variable that nothing set before holds no product.
pub proof fn unset_variables_hold_no_product(t: TreeModel, name: Seq<char>, n: int, i: int)
    requires
        forall|m: int| 0 <= m < n ==> !#[trigger] gives_value(t, m, name),
    ensures
        !holds_product(t, name, n, i),
    decreases n,
{
    if n > 0 {
        lemma_sets(t, n - 1, name);
        assert(!gives_value(t, n - 1, name));
        unset_variables_hold_no_product(t, name, n - 1, i);
    }
}

/// Every allocation whose size is a difference, without `sizeof`, is reported.
pub proof fn signed_sizes_are_reported(
    t: TreeModel,
    path: Seq<char>,
    i: int,
    name: Seq<char>,
    args: Seq<char>,
)
    requires
        0 <= i < t.len(),
        calls(t, i, name),
        allocates_as(name),
        argument_text(t, i, args),
        mentions(args, "-"@),
        !mentions(args, "sizeof"@),
    ensures
        says(
            c_scan(t, path),
            t,
            path,
            i,
            Severity::High,
            "signed_size_calculation"@,
            "Signed arithmetic in "@ + name + " size may underflow"@,
            "Cast to size_t before arithmetic"@,
            75,
        ),
{
    broadcast use {lemma_in_left, lemma_in_right};

    let sizes = size_findings(t, path, i, name, args);
    let f = sizes[sizes.len() - 1];
    assert(sizes.contains(f));
    assert(argument_findings(
        t,
        path,
        i,
        name,
        lowercase(name),
        args,
        lowercase(args),
        remembered(t, i),
    ).contains(f));
    lemma_said_of_arguments(t, path, i, name, args, f);
}

/// Whether the node `j` closes what its arguments name.
pub open spec fn closes_handle(t: TreeModel, j: int, args: Seq<char>) -> bool {
    t.is(j, "call_expression"@) && (t.field(j, "function"@) matches Some(f) && (lowercase(t.text(f))
        == "fclose"@ || lowercase(t.text(f)) == "close"@)) && argument_text(t, j, args)
}

/// A handle is known to be closed exactly where a call before closed it.
pub proof fn closed_handles(t: TreeModel, i: int, args: Seq<char>)
    requires
        0 <= i,
    ensures
        remembered(t, i).closed.contains(args) <==> exists|j: int|
            0 <= j < i && #[trigger] closes_handle(t, j, args),
{
    remembered_names(t, i);
    if remembered(t, i).closed.contains(args) {
        let j = choose|j: int| 0 <= j < i && #[trigger] closed_rule(t)(j) == Some(args);
        assert(closes_handle(t, j, args));
    }
    if exists|j: int| 0 <= j < i && #[trigger] closes_handle(t, j, args) {
        let j = choose|j: int| 0 <= j < i && #[trigger] closes_handle(t, j, args);
        assert(closed_rule(t)(j) == Some(args));
    }
}

/// A handle that is closed again is reported.
pub proof fn double_closes_are_reported(
    t: TreeModel,
    path: Seq<char>,
    first: int,
    second: int,
    args: Seq<char>,
)
    requires
        0 <= first < second < t.len(),
        closes_handle(t, first, args),
        closes_handle(t, second, args),
    ensures
        says(
            c_scan(t, path),
            t,
            path,
            second,
            Severity::Critical,
            "double_close"@,
            "Resource "@ + args + " may be closed twice"@,
            "Set handle to NULL after close, check before closing"@,
            82,
        ),
{
    closed_handles(t, second, args);
    let name = t.text(t.field(second, "function"@)->0);
    let m = remembered(t, second);
    let all = argument_findings(
        t,
        path,
        second,
        name,
        lowercase(name),
        args,
        lowercase(args),
        m,
    );
    let sizes = if crate::rule::allocator(lowercase(name)) {
        size_findings(t, path, second, name, args)
    } else {
        Seq::empty()
    };
    let f = all[sizes.len() as int];
    assert(all.contains(f));
    lemma_said_of_arguments(t, path, second, name, args, f);
}

/// Whether the node `j` gives `name` something that a user controls.
pub open spec fn takes_input(t: TreeModel, j: int, name: Seq<char>) -> bool {
    &&& t.is(j, "parenthesized_expression"@) || t.is(j, "assignment_expression"@)
    &&& t.field(j, "left"@) matches Some(l) && t.text(l) == name
    &&& t.field(j, "right"@) matches Some(r) && gives_input(lowercase(t.text(r)))
}

/// Whether a text, in lower case, reads something that a user controls.
pub open spec fn gives_input(lower: Seq<char>) -> bool {
    mentions(lower, "argv["@) || mentions(lower, "getenv("@) || mentions(lower, "fgets("@)
        || mentions(lower, "scanf"@) || mentions(lower, "read("@) || mentions(lower, "recv("@)
}

/// A variable is known to be tainted exactly where a node before gave it user input.
pub proof fn tainted_variables(t: TreeModel, i: int, name: Seq<char>)
    requires
        0 <= i,
    ensures
        remembered(t, i).tainted.contains(name) <==> exists|j: int|
            0 <= j < i && #[trigger] takes_input(t, j, name),
{
    remembered_names(t, i);
    if remembered(t, i).tainted.contains(name) {
        let j = choose|j: int| 0 <= j < i && #[trigger] tainted_rule(t)(j) == Some(name);
        assert(takes_input(t, j, name));
    }
    if exists|j: int| 0 <= j < i && #[trigger] takes_input(t, j, name) {
        let j = choose|j: int| 0 <= j < i && #[trigger] takes_input(t, j, name);
        assert(tainted_rule(t)(j) == Some(name));
    }
}

/// Whether the arguments of a call at the node `i` hold user input: directly, or in a variable that
/// was given some before.
pub open spec fn input_in(t: TreeModel, i: int, args: Seq<char>) -> bool {
    let lower = lowercase(args);
    ||| mentions(lower, "argv["@)
    ||| mentions(lower, "getenv"@)
    ||| mentions(lower, "fgets"@)
    ||| mentions(lower, "scanf"@)
    ||| mentions(lower, "read("@)
    ||| exists|j: int, name: Seq<char>|
        0 <= j < i && #[trigger] takes_input(t, j, name) && mentions(args, name)
}

/// Every command that is run with user input is reported.
pub proof fn tainted_commands_are_reported(
    t: TreeModel,
    path: Seq<char>,
    i: int,
    name: Seq<char>,
    args: Seq<char>,
)
    requires
        0 <= i < t.len(),
        calls(t, i, name),
        lowercase(name) == "system"@ || lowercase(name) == "popen"@ || lowercase(name) == "execl"@,
        argument_text(t, i, args),
        input_in(t, i, args),
    ensures
        says(
            c_scan(t, path),
            t,
            path,
            i,
            Severity::Critical,
            "command_injection_tainted"@,
            name + " called with potentially tainted input"@,
            "Validate command against whitelist, use execve with full path"@,
            91,
        ),
{
    let m = remembered(t, i);
    lemma_input(t, i, args);
    let all = argument_findings(
        t,
        path,
        i,
        name,
        lowercase(name),
        args,
        lowercase(args),
        m,
    );
    let f = all[all.len() - 1];
    assert(all.contains(f));
    lemma_said_of_arguments(t, path, i, name, args, f);
}

proof fn lemma_input(t: TreeModel, i: int, args: Seq<char>)
    requires
        0 <= i,
    ensures
        input_in(t, i, args) == crate::advanced::externally_tainted(
            args,
            lowercase(args),
            remembered(t, i).tainted,
        ),
{
    let names = remembered(t, i).tainted;
    if any_mentioned(names, args) {
        let v = choose|v: Seq<char>| #[trigger] names.contains(v) && mentions(args, v);
        tainted_variables(t, i, v);
        let j = choose|j: int| 0 <= j < i && #[trigger] takes_input(t, j, v);
        assert(takes_input(t, j, v) && mentions(args, v));
    }
    if exists|j: int, v: Seq<char>|
        0 <= j < i && #[trigger] takes_input(t, j, v) && mentions(args, v) {
        let (j, v) = choose|j: int, v: Seq<char>|
            0 <= j < i && #[trigger] takes_input(t, j, v) && mentions(args, v);
        tainted_variables(t, i, v);
        assert(names.contains(v) && mentions(args, v));
    }
}

/// A call is reported for its arguments as often as these say, and no more.
pub proof fn calls_are_reported_for_nothing_else(
    t: TreeModel,
    path: Seq<char>,
    i: int,
    name: Seq<char>,
    args: Seq<char>,
)
    requires
        0 <= i < t.len(),
        calls(t, i, name),
        argument_text(t, i, args),
        !inspects(t, i, name),
    ensures
        advanced_rule(t, path)(i).len() == one_if(
            allocates_as(name) && (mentions(args, "*"@) || mentions(args, "<<"@)
                || product_argument(t, i)),
        ) + one_if(allocates_as(name) && mentions(args, "-"@) && !mentions(args, "sizeof"@))
            + one_if(
            closes_handle(t, i, args) && exists|j: int|
                0 <= j < i && #[trigger] closes_handle(t, j, args),
        ) + one_if(
            (lowercase(name) == "system"@ || lowercase(name) == "popen"@ || lowercase(name)
                == "execl"@) && input_in(t, i, args),
        ),
{
    closed_handles(t, i, args);
    lemma_input(t, i, args);
}

/// Every comparison with `<=` against a size, a length or a count is reported, and nothing else that
/// is no call.
pub proof fn comparisons_with_bounds_are_reported(t: TreeModel, path: Seq<char>, i: int)
    requires
        0 <= i < t.len(),
        !t.is(i, "call_expression"@),
    ensures
        ({
            let text = t.text(i);
            let suspicious = t.is(i, "binary_expression"@) && mentions(text, "<="@) && (mentions(
                text,
                "sizeof"@,
            ) || mentions(text, "len"@) || mentions(text, "count"@));
            &&& advanced_rule(t, path)(i).len() == one_if(suspicious)
            &&& suspicious ==> says(
                c_scan(t, path),
                t,
                path,
                i,
                Severity::Medium,
                "potential_off_by_one"@,
                "Check for off-by-one error: <= with array bounds"@,
                "Verify <= is correct, often should be <"@,
                65,
            )
        }),
{
    let all = advanced_rule(t, path)(i);
    if all.len() > 0 {
        assert(all.contains(all[0]));
        lemma_said(t, path, i, all[0]);
    }
}

/// The last check of a file is remembered, with its line.
pub proof fn checks_are_remembered(t: TreeModel, i: int, name: Seq<char>)
    requires
        0 <= i,
        inspects(t, i, name),
    ensures
        remembered(t, i + 1).checks == remembered(t, i).checks.push(name),
        remembered(t, i + 1).check_line == t.place(i).0,
{
}

/// Nothing but a check changes what is remembered of checks.
pub proof fn only_checks_are_remembered(t: TreeModel, i: int)
    requires
        0 <= i,
        forall|name: Seq<char>| !#[trigger] inspects(t, i, name),
    ensures
        remembered(t, i + 1).checks == remembered(t, i).checks,
        remembered(t, i + 1).check_line == remembered(t, i).check_line,
{
    if let Some(f) = t.field(i, "function"@) {
        assert(!inspects(t, i, t.text(f)));
    }
}

} // verus!
