//! How the nodes of a tree stand to each other, stated by their depths.
use vstd::prelude::*;
use vstd::utf8::*;

use crate::paint::{plain, sent, sent_line, sent_page, SpanModel};
use crate::symbolic::{argument_count, SymbolicValue};
use crate::syntax::{above, children_from, end_from, field_from, lemma_end_from, TreeModel};
use crate::text::{byte_len, lemma_encode_concat};

verus! {

/// Whether the node `c` stands somewhere below the node `i`.
pub open spec fn stands_below(t: TreeModel, i: int, c: int) -> bool {
    &&& 0 <= i < c < t.len()
    &&& forall|j: int| i < j <= c ==> (#[trigger] t.nodes[j]).depth > t.nodes[i].depth
}

proof fn lemma_children(t: TreeModel, i: int, from: int, c: int)
    requires
        0 <= i < from,
        from > i + 1 ==> stands_below(t, i, from - 1),
    ensures
        children_from(t.nodes, t.nodes[i].depth, from).contains(c) <==> from <= c && stands_below(
            t,
            i,
            c,
        ) && t.nodes[c].depth == t.nodes[i].depth + 1,
    decreases t.len() - from,
{
    let d = t.nodes[i].depth;
    let all = children_from(t.nodes, d, from);
    if from >= t.len() || t.nodes[from].depth <= d {
        if from <= c && stands_below(t, i, c) {
            assert(t.nodes[from].depth > d);
        }
    } else {
        assert(stands_below(t, i, from)) by {
            assert forall|j: int| i < j <= from implies (#[trigger] t.nodes[j]).depth
                > t.nodes[i].depth by {}
        }
        lemma_children(t, i, from + 1, c);
        let rest = children_from(t.nodes, d, from + 1);
        if t.nodes[from].depth == d + 1 {
            assert(all[0] == from);
            if rest.contains(c) {
                let k = choose|k: int| 0 <= k < rest.len() && rest[k] == c;
                assert(all[k + 1] == c);
            }
            if all.contains(c) && c != from {
                let k = choose|k: int| 0 <= k < all.len() && all[k] == c;
                assert(rest[k - 1] == c);
            }
        }
    }
}

/// The children of a node are the nodes below it that stand one level deeper.
pub proof fn children_stand_one_level_deeper(t: TreeModel, i: int, c: int)
    requires
        0 <= i < t.len(),
    ensures
        t.children(i).contains(c) <==> stands_below(t, i, c) && t.nodes[c].depth
            == t.nodes[i].depth + 1,
{
    lemma_children(t, i, i + 1, c);
}

proof fn lemma_children_rise(t: TreeModel, d: nat, from: int, a: int, b: int)
    requires
        0 <= a < b < children_from(t.nodes, d, from).len(),
    ensures
        from <= children_from(t.nodes, d, from)[a] < children_from(t.nodes, d, from)[b],
    decreases t.len() - from,
{
    let rest = children_from(t.nodes, d, from + 1);
    if t.nodes[from].depth == d + 1 {
        if a > 0 {
            lemma_children_rise(t, d, from + 1, a - 1, b - 1);
        } else {
            lemma_children_start(t, d, from + 1, b - 1);
        }
    } else {
        lemma_children_rise(t, d, from + 1, a, b);
    }
}

proof fn lemma_children_start(t: TreeModel, d: nat, from: int, a: int)
    requires
        0 <= a < children_from(t.nodes, d, from).len(),
    ensures
        from <= children_from(t.nodes, d, from)[a],
    decreases t.len() - from,
{
    if t.nodes[from].depth == d + 1 {
        if a > 0 {
            lemma_children_start(t, d, from + 1, a - 1);
        }
    } else {
        lemma_children_start(t, d, from + 1, a);
    }
}

/// The children of a node are listed in the order of the source, each once.
pub proof fn children_are_in_order(t: TreeModel, i: int, a: int, b: int)
    requires
        0 <= a < b < t.children(i).len(),
    ensures
        t.children(i)[a] < t.children(i)[b],
{
    lemma_children_rise(t, t.nodes[i].depth, i + 1, a, b);
}

proof fn lemma_field(t: TreeModel, i: int, from: int, name: Seq<char>, c: int)
    requires
        0 <= i < from,
        from > i + 1 ==> stands_below(t, i, from - 1),
        forall|k: int|
            from <= k < c && t.nodes[k].depth == t.nodes[i].depth + 1 ==> (
            #[trigger] t.nodes[k]).field != Some(name),
        from <= c,
        stands_below(t, i, c),
        t.nodes[c].depth == t.nodes[i].depth + 1,
        t.nodes[c].field == Some(name),
    ensures
        field_from(t.nodes, t.nodes[i].depth, from, name) == Some(c),
    decreases c - from,
{
    assert(t.nodes[from].depth > t.nodes[i].depth);
    if from < c {
        assert(stands_below(t, i, from)) by {
            assert forall|j: int| i < j <= from implies (#[trigger] t.nodes[j]).depth
                > t.nodes[i].depth by {}
        }
        lemma_field(t, i, from + 1, name, c);
    }
}

/// What fills a field is the first child that names it.
pub proof fn first_child_fills_a_field(t: TreeModel, i: int, name: Seq<char>, c: int)
    requires
        0 <= i < t.len(),
        stands_below(t, i, c),
        t.nodes[c].depth == t.nodes[i].depth + 1,
        t.nodes[c].field == Some(name),
        forall|k: int|
            i < k < c && t.nodes[k].depth == t.nodes[i].depth + 1 ==> (
            #[trigger] t.nodes[k]).field != Some(name),
    ensures
        t.field(i, name) == Some(c),
{
    lemma_field(t, i, i + 1, name, c);
}

proof fn lemma_filled(t: TreeModel, i: int, from: int, name: Seq<char>)
    requires
        0 <= i < from,
        from > i + 1 ==> stands_below(t, i, from - 1),
    ensures
        field_from(t.nodes, t.nodes[i].depth, from, name) matches Some(c) ==> from <= c
            && stands_below(t, i, c) && t.nodes[c].depth == t.nodes[i].depth + 1
            && t.nodes[c].field == Some(name),
    decreases t.len() - from,
{
    if from < t.len() && t.nodes[from].depth > t.nodes[i].depth {
        assert(stands_below(t, i, from)) by {
            assert forall|j: int| i < j <= from implies (#[trigger] t.nodes[j]).depth
                > t.nodes[i].depth by {}
        }
        lemma_filled(t, i, from + 1, name);
    }
}

/// What fills a field is a child that names it; where no child does, nothing fills it.
pub proof fn fields_are_filled_by_children(t: TreeModel, i: int, name: Seq<char>)
    requires
        0 <= i < t.len(),
    ensures
        t.field(i, name) matches Some(c) ==> stands_below(t, i, c) && t.nodes[c].depth
            == t.nodes[i].depth + 1 && t.nodes[c].field == Some(name),
{
    lemma_filled(t, i, i + 1, name);
}

proof fn lemma_end(t: TreeModel, i: int, from: int, j: int)
    requires
        0 <= i < from <= t.len(),
        from > i + 1 ==> stands_below(t, i, from - 1),
    ensures
        from <= j < end_from(t.nodes, t.nodes[i].depth, from) <==> from <= j && stands_below(
            t,
            i,
            j,
        ),
    decreases t.len() - from,
{
    if from < t.len() && t.nodes[from].depth > t.nodes[i].depth {
        assert(stands_below(t, i, from)) by {
            assert forall|j: int| i < j <= from implies (#[trigger] t.nodes[j]).depth
                > t.nodes[i].depth by {}
        }
        lemma_end(t, i, from + 1, j);
        lemma_end_from(t.nodes, t.nodes[i].depth, from + 1);
    } else if from <= j && stands_below(t, i, j) {
        assert(t.nodes[from].depth > t.nodes[i].depth);
    }
}

/// The subtree of a node holds the node itself and the nodes below it.
pub proof fn subtrees_hold_what_stands_below(t: TreeModel, i: int, j: int)
    requires
        0 <= i < t.len(),
    ensures
        i <= j < t.subtree_end(i) <==> j == i || stands_below(t, i, j),
{
    lemma_end(t, i, i + 1, j);
    lemma_end_from(t.nodes, t.nodes[i].depth, i + 1);
}

proof fn lemma_parent(t: TreeModel, d: nat, k: int, p: int)
    requires
        0 <= p < k,
        t.nodes[p].depth < d,
        forall|j: int| p < j < k ==> (#[trigger] t.nodes[j]).depth >= d,
    ensures
        above(t.nodes, d, k) == Some(p),
    decreases k,
{
    if p < k - 1 {
        assert(t.nodes[k - 1].depth >= d);
        lemma_parent(t, d, k - 1, p);
    }
}

proof fn lemma_no_parent(t: TreeModel, d: nat, k: int)
    requires
        forall|j: int| 0 <= j < k ==> (#[trigger] t.nodes[j]).depth >= d,
    ensures
        above(t.nodes, d, k) is None,
    decreases k,
{
    if k > 0 {
        assert(t.nodes[k - 1].depth >= d);
        lemma_no_parent(t, d, k - 1);
    }
}

/// The parent of a node is the last node before it that stands higher; where none does, it has no
/// parent.
pub proof fn parents_stand_higher(t: TreeModel, c: int, p: int)
    requires
        0 <= c < t.len(),
    ensures
        0 <= p < c && t.nodes[p].depth < t.nodes[c].depth && (forall|j: int|
            p < j < c ==> (#[trigger] t.nodes[j]).depth >= t.nodes[c].depth) ==> t.parent(c)
            == Some(p),
        (forall|j: int| 0 <= j < c ==> (#[trigger] t.nodes[j]).depth >= t.nodes[c].depth)
            ==> t.parent(c) is None,
{
    let d = t.nodes[c].depth;
    if 0 <= p < c && t.nodes[p].depth < d && (forall|j: int|
        p < j < c ==> (#[trigger] t.nodes[j]).depth >= d) {
        lemma_parent(t, d, c, p);
    }
    if forall|j: int| 0 <= j < c ==> (#[trigger] t.nodes[j]).depth >= d {
        lemma_no_parent(t, d, c);
    }
}

/// The next sibling of a node is the next node at its depth with nothing higher in between, and the
/// first child of a node is the node after it, where that stands below it.
pub proof fn siblings_and_first_children(t: TreeModel, i: int, k: int)
    requires
        0 <= i < t.len(),
    ensures
        i < k < t.len() && t.nodes[k].depth == t.nodes[i].depth && (forall|j: int|
            i < j < k ==> (#[trigger] t.nodes[j]).depth > t.nodes[i].depth) ==> t.next_sibling(i)
            == Some(k),
        t.first_child(i) == (if stands_below(t, i, i + 1) {
            Some(i + 1)
        } else {
            None
        }),
{
    if i < k < t.len() && t.nodes[k].depth == t.nodes[i].depth && (forall|j: int|
        i < j < k ==> (#[trigger] t.nodes[j]).depth > t.nodes[i].depth) {
        subtrees_hold_what_stands_below(t, i, k);
        subtrees_hold_what_stands_below(t, i, k - 1);
        if k > i + 1 {
            assert(stands_below(t, i, k - 1));
        }
    }
}

/// The text of a node is what stands in the source between its ends.
pub proof fn texts_stand_between_their_ends(
    t: TreeModel,
    i: int,
    a: Seq<char>,
    b: Seq<char>,
    c: Seq<char>,
)
    requires
        0 <= i < t.len(),
        t.source == a + b + c,
        t.nodes[i].start == byte_len(a),
        t.nodes[i].end == byte_len(a) + byte_len(b),
    ensures
        t.text(i) == b,
{
    lemma_encode_concat(a + b, c);
    lemma_encode_concat(a, b);
    let bytes = encode_utf8(t.source);
    assert(bytes.subrange(byte_len(a) as int, (byte_len(a) + byte_len(b)) as int) =~= encode_utf8(
        b,
    ));
    encode_utf8_decode_utf8(b);
}

/// How arguments are counted: a parenthesis or a comma does not count, and everything else does,
/// wherever it stands.
pub proof fn arguments_are_counted(t: TreeModel, before: Seq<int>, x: int, after: Seq<int>)
    ensures
        argument_count(t, Seq::empty()) == 0,
        argument_count(t, before + seq![x] + after) == argument_count(t, before + after) + (if t.is(
            x,
            "("@,
        ) || t.is(x, ")"@) || t.is(x, ","@) {
            0nat
        } else {
            1nat
        }),
    decreases after.len(),
{
    let all = before + seq![x] + after;
    let less = before + after;
    if after.len() == 0 {
        assert(all.drop_last() =~= before);
        assert(less =~= before);
    } else {
        arguments_are_counted(t, before, x, after.drop_last());
        assert(all.drop_last() =~= before + seq![x] + after.drop_last());
        assert(less.drop_last() =~= before + after.drop_last());
        assert(all.last() == after.last());
        assert(less.last() == after.last());
    }
}

/// What is known of a value: zero is null, any other number is not; what is no number may be null,
/// and may exceed anything unless it is the result of an operation other than a product, a sum or
/// a shift to the left.
pub proof fn values_are_judged(v: SymbolicValue, bound: int)
    ensures
        v matches SymbolicValue::Concrete(n) ==> v.null() == (n == 0) && v.maybe_null() == (n == 0)
            && v.may_exceed(bound) == (n > bound),
        v is Symbol || v is Unknown ==> !v.null() && v.maybe_null() && v.may_exceed(bound),
        v matches SymbolicValue::BinaryOp { op, left, right } ==> !v.null() && v.maybe_null()
            && v.may_exceed(bound) == (op@ == "*"@ || op@ == "+"@ || op@ == "<<"@),
{
}

/// What a terminal is sent: one text for each line, and in it its spans one after the other; a
/// plain span is sent as it stands.
pub proof fn spans_are_sent_in_order(
    page: Seq<Seq<SpanModel>>,
    k: int,
    line: Seq<SpanModel>,
    span: SpanModel,
)
    requires
        0 <= k < page.len(),
    ensures
        sent_page(page).len() == page.len(),
        sent_page(page)[k] == sent_line(page[k]),
        sent_line(Seq::empty()).len() == 0,
        sent_line(line.push(span)) == sent_line(line) + sent(span),
        span.style.fg is None && span.style.bg is None && !span.style.bold && !span.style.dimmed
            && !span.style.underline ==> sent(span) == span.text,
        span.style.fg is Some || span.style.bg is Some || span.style.bold || span.style.dimmed
            || span.style.underline ==> sent(span) == crate::outside::painted(
            span.style,
            span.text,
        ),
{
    assert(line.push(span).drop_last() =~= line);
    assert(plain().fg is None);
}

/// A next sibling stands at the same depth, with only deeper nodes in between.
pub proof fn siblings_stand_at_one_depth(t: TreeModel, i: int)
    requires
        0 <= i < t.len(),
    ensures
        t.next_sibling(i) matches Some(k) ==> {
            &&& i < k < t.len()
            &&& t.nodes[k].depth == t.nodes[i].depth
            &&& forall|j: int| i < j < k ==> (#[trigger] t.nodes[j]).depth > t.nodes[i].depth
        },
{
    if let Some(k) = t.next_sibling(i) {
        lemma_end_from(t.nodes, t.nodes[i].depth, i + 1);
        assert forall|j: int| i < j < k implies (#[trigger] t.nodes[j]).depth
            > t.nodes[i].depth by {
            subtrees_hold_what_stands_below(t, i, j);
        }
    }
}

/// What is no tree: no nodes at all, a first node below the top, a second one at the top, or a node
/// more than one level below the one before it.
pub proof fn what_is_no_tree(t: TreeModel, i: int)
    ensures
        t.len() == 0 ==> !t.well_formed(),
        t.len() > 0 && t.nodes[0].depth > 0 ==> !t.well_formed(),
        0 < i < t.len() && t.nodes[i].depth == 0 ==> !t.well_formed(),
        0 < i < t.len() && t.nodes[i].depth > t.nodes[i - 1].depth + 1 ==> !t.well_formed(),
        0 <= i < t.len() && t.nodes[i].start > t.nodes[i].end ==> !t.well_formed(),
        0 <= i < t.len() && t.nodes[i].end > byte_len(t.source) ==> !t.well_formed(),
{
    if 0 < i < t.len() && t.well_formed() {
        assert(t.one_level_at_most(i));
    }
    if 0 <= i < t.len() && t.well_formed() {
        assert(t.spans_text(t.nodes[i]));
    }
}

} // verus!
