//! Syntax trees as plain values: the nodes of a tree in the order in which a walk from the root
//! meets them, each with its depth, and the text that they span.
use vstd::prelude::*;
use vstd::string::*;
use vstd::utf8::*;

use crate::text::{byte_len, lines, lines_of, same, texts};

verus! {

/// The grammars that sources are parsed with.
#[derive(Clone, Copy, Debug, PartialEq, Eq, Structural)]
pub enum Grammar {
    C,
    Java,
    JavaScript,
    Python,
}

/// A node of a syntax tree.
#[derive(Debug)]
pub struct SyntaxNode {
    /// The kind that the grammar gives the node.
    pub kind: String,
    /// The field that the node fills in its parent.
    pub field: Option<String>,
    /// How far below the root the node stands.
    pub depth: usize,
    /// Where the node's text begins in the source, in bytes.
    pub start: usize,
    /// Where the node's text ends.
    pub end: usize,
}

/// The contents of a node.
#[verifier::ext_equal]
pub struct NodeModel {
    pub kind: Seq<char>,
    pub field: Option<Seq<char>>,
    pub depth: nat,
    pub start: nat,
    pub end: nat,
}

impl View for SyntaxNode {
    type V = NodeModel;

    open spec fn view(&self) -> NodeModel {
        NodeModel {
            kind: self.kind@,
            field: match self.field {
                Some(f) => Some(f@),
                None => None,
            },
            depth: self.depth as nat,
            start: self.start as nat,
            end: self.end as nat,
        }
    }
}

/// The contents of a list of nodes.
pub open spec fn node_views(v: Seq<SyntaxNode>) -> Seq<NodeModel> {
    Seq::new(v.len(), |i: int| v[i]@)
}

/// An optional index as a number.
pub open spec fn index_view(i: Option<usize>) -> Option<int> {
    match i {
        Some(k) => Some(k as int),
        None => None,
    }
}

/// A list of indices as numbers.
pub open spec fn indices(v: Seq<usize>) -> Seq<int> {
    Seq::new(v.len(), |i: int| v[i] as int)
}

/// The characters whose bytes begin at `from` in the encoding of `text` and end at `to`.
pub open spec fn slice(text: Seq<char>, from: int, to: int) -> Seq<char> {
    decode_utf8(encode_utf8(text).subrange(from, to))
}

/// Whether a character of `text` begins or ends at the byte `at`.
pub open spec fn boundary(text: Seq<char>, at: int) -> bool {
    0 <= at <= encode_utf8(text).len() && is_char_boundary(encode_utf8(text), at)
}

/// The number of lines before the byte `at`, and the number of bytes in the last of them.
pub open spec fn position(text: Seq<char>, at: int) -> (nat, nat) {
    let before = lines(slice(text, 0, at));
    (
        before.len(),
        if before.len() == 0 {
            0
        } else {
            byte_len(before.last())
        },
    )
}

/// A syntax tree: the source and the nodes, the root first.
#[verifier::ext_equal]
pub struct TreeModel {
    pub source: Seq<char>,
    pub nodes: Seq<NodeModel>,
}

/// The nodes from `k` on that stand one level below the depth `d`, up to the first node that
/// stands at that depth or above it.
pub open spec fn children_from(nodes: Seq<NodeModel>, d: nat, k: int) -> Seq<int>
    decreases nodes.len() - k,
{
    if k >= nodes.len() || nodes[k].depth <= d {
        Seq::empty()
    } else if nodes[k].depth == d + 1 {
        seq![k] + children_from(nodes, d, k + 1)
    } else {
        children_from(nodes, d, k + 1)
    }
}

/// The first of those nodes that fills the field `name`.
pub open spec fn field_from(
    nodes: Seq<NodeModel>,
    d: nat,
    k: int,
    name: Seq<char>,
) -> Option<int>
    decreases nodes.len() - k,
{
    if k >= nodes.len() || nodes[k].depth <= d {
        None
    } else if nodes[k].depth == d + 1 && nodes[k].field == Some(name) {
        Some(k)
    } else {
        field_from(nodes, d, k + 1, name)
    }
}

/// The first node from `k` on that stands at the depth `d` or above it, or the number of nodes.
pub open spec fn end_from(nodes: Seq<NodeModel>, d: nat, k: int) -> int
    decreases nodes.len() - k,
{
    if k >= nodes.len() {
        nodes.len() as int
    } else if nodes[k].depth <= d {
        k
    } else {
        end_from(nodes, d, k + 1)
    }
}

/// A subtree does not end before its nodes.
pub proof fn lemma_end_from(nodes: Seq<NodeModel>, d: nat, k: int)
    requires
        k <= nodes.len(),
    ensures
        k <= end_from(nodes, d, k) <= nodes.len(),
    decreases nodes.len() - k,
{
    if k < nodes.len() && nodes[k].depth > d {
        lemma_end_from(nodes, d, k + 1);
    }
}

/// What fills a field stands after its parent.
pub proof fn lemma_field_after(nodes: Seq<NodeModel>, d: nat, k: int, name: Seq<char>)
    ensures
        field_from(nodes, d, k, name) matches Some(c) ==> k <= c < nodes.len(),
    decreases nodes.len() - k,
{
    if k < nodes.len() && nodes[k].depth > d {
        lemma_field_after(nodes, d, k + 1, name);
    }
}

/// A parent stands before its children.
pub proof fn lemma_above(nodes: Seq<NodeModel>, d: nat, k: int)
    ensures
        above(nodes, d, k) matches Some(p) ==> 0 <= p < k,
    decreases k,
{
    if k > 0 && nodes[k - 1].depth >= d {
        lemma_above(nodes, d, k - 1);
    }
}

/// The last node before `k` that stands above the depth `d`.
pub open spec fn above(nodes: Seq<NodeModel>, d: nat, k: int) -> Option<int>
    decreases k,
{
    if k <= 0 {
        None
    } else if nodes[k - 1].depth < d {
        Some(k - 1)
    } else {
        above(nodes, d, k - 1)
    }
}

impl TreeModel {
    /// The number of nodes.
    pub open spec fn len(self) -> int {
        self.nodes.len() as int
    }

    /// The tree has a root, every node stands at most one level below the one before it, only
    /// the root stands at the top, and every node spans whole characters of the source.
    pub open spec fn well_formed(self) -> bool {
        &&& self.nodes.len() > 0
        &&& forall|i: int|
            0 <= i < self.nodes.len() ==> ((#[trigger] self.nodes[i]).depth == 0) == (i == 0)
        &&& forall|i: int| 1 <= i < self.nodes.len() ==> #[trigger] self.one_level_at_most(i)
        &&& forall|i: int|
            0 <= i < self.nodes.len() ==> self.spans_text(#[trigger] self.nodes[i])
    }

    /// Whether a node stands at most one level below the one before it.
    pub open spec fn one_level_at_most(self, i: int) -> bool {
        self.nodes[i].depth <= self.nodes[i - 1].depth + 1
    }

    /// Whether the node spans whole characters of the source.
    pub open spec fn spans_text(self, node: NodeModel) -> bool {
        &&& node.start <= node.end
        &&& boundary(self.source, node.start as int)
        &&& boundary(self.source, node.end as int)
    }

    /// The text of a node.
    pub open spec fn text(self, i: int) -> Seq<char> {
        slice(self.source, self.nodes[i].start as int, self.nodes[i].end as int)
    }

    /// Whether a node is of the kind `kind`.
    pub open spec fn is(self, i: int, kind: Seq<char>) -> bool {
        self.nodes[i].kind == kind
    }

    /// The children of a node, in order.
    pub open spec fn children(self, i: int) -> Seq<int> {
        children_from(self.nodes, self.nodes[i].depth, i + 1)
    }

    /// The first child of a node.
    pub open spec fn first_child(self, i: int) -> Option<int> {
        if i < self.nodes.len() - 1 && self.nodes[i + 1].depth > self.nodes[i].depth {
            Some(i + 1)
        } else {
            None
        }
    }

    /// The first child that fills the field `name`.
    pub open spec fn field(self, i: int, name: Seq<char>) -> Option<int> {
        field_from(self.nodes, self.nodes[i].depth, i + 1, name)
    }

    /// The node's subtree holds the nodes from `i` up to, and without, this one.
    pub open spec fn subtree_end(self, i: int) -> int {
        end_from(self.nodes, self.nodes[i].depth, i + 1)
    }

    /// The parent of a node; the root has none.
    pub open spec fn parent(self, i: int) -> Option<int> {
        above(self.nodes, self.nodes[i].depth, i)
    }

    /// The next child of the node's parent.
    pub open spec fn next_sibling(self, i: int) -> Option<int> {
        let k = self.subtree_end(i);
        if k < self.nodes.len() && self.nodes[k].depth == self.nodes[i].depth {
            Some(k)
        } else {
            None
        }
    }

    /// The line and the column of a node.
    pub open spec fn place(self, i: int) -> (nat, nat) {
        position(self.source, self.nodes[i].start as int)
    }
}

/// The part of a text between two character boundaries is a text, and the cuts that
/// `SyntaxTree::text` makes give it.
proof fn lemma_prefix_boundary(bytes: Seq<u8>, from: int, to: int)
    requires
        valid_utf8(bytes),
        0 <= from <= to <= bytes.len(),
        is_char_boundary(bytes, from),
        is_char_boundary(bytes, to),
    ensures
        valid_utf8(bytes.subrange(0, to)),
        is_char_boundary(bytes.subrange(0, to), from),
        bytes.subrange(0, to).subrange(from, to) == bytes.subrange(from, to),
{
    valid_utf8_split(bytes, to);
    let prefix = bytes.subrange(0, to);
    is_char_boundary_start_end_of_seq(prefix);
    if from < to {
        assert(prefix[from] == bytes[from]);
        is_char_boundary_iff_not_is_continuation_byte(prefix, from);
        is_char_boundary_iff_not_is_continuation_byte(bytes, from);
    }
    assert(prefix.subrange(from, to) =~= bytes.subrange(from, to));
}

/// The part of `text` from the byte `from` to the byte `to`.
pub fn slice_of<'a>(text: &'a str, from: usize, to: usize) -> (r: &'a str)
    requires
        from <= to,
        boundary(text@, from as int),
        boundary(text@, to as int),
    ensures
        r@ == slice(text@, from as int, to as int),
{
    let ghost bytes = encode_utf8(text@);
    proof {
        encode_utf8_valid_utf8(text@);
        lemma_prefix_boundary(bytes, from as int, to as int);
    }
    let (prefix, _rest) = text.split_at(to);
    let (_head, part) = prefix.split_at(from);
    proof {
        assert(encode_utf8(part@) =~= bytes.subrange(from as int, to as int));
        encode_utf8_decode_utf8(part@);
    }
    part
}

/// The line and the column of the byte `byte_offset`: the number of lines before it, and the
/// number of bytes in the last of them.
pub fn get_position(source: &str, byte_offset: usize) -> (r: (usize, usize))
    requires
        boundary(source@, byte_offset as int),
    ensures
        (r.0 as nat, r.1 as nat) == position(source@, byte_offset as int),
{
    proof {
        encode_utf8_valid_utf8(source@);
        is_char_boundary_start_end_of_seq(encode_utf8(source@));
    }
    let before = slice_of(source, 0, byte_offset);
    let found = lines_of(before);
    let n: usize = found.len();
    if n == 0 {
        (0, 0)
    } else {
        assert(texts(found@).last() == found@[n - 1]@);
        (n, found[n - 1].as_bytes().len())
    }
}

/// A syntax tree.
pub struct SyntaxTree<'a> {
    source: &'a str,
    nodes: Vec<SyntaxNode>,
}

impl<'a> View for SyntaxTree<'a> {
    type V = TreeModel;

    closed spec fn view(&self) -> TreeModel {
        TreeModel { source: self.source@, nodes: node_views(self.nodes@) }
    }
}

impl<'a> SyntaxTree<'a> {
    #[verifier::type_invariant]
    spec fn holds_together(self) -> bool {
        self@.well_formed()
    }

    /// A tree of the given nodes over `source`; `None` where they do not form one.
    pub fn new(source: &'a str, nodes: Vec<SyntaxNode>) -> (r: Option<SyntaxTree<'a>>)
        ensures
            r is Some <==> (TreeModel {
                source: source@,
                nodes: node_views(nodes@),
            }).well_formed(),
            r matches Some(t) ==> t@ == (TreeModel {
                source: source@,
                nodes: node_views(nodes@),
            }),
    {
        let ghost model = TreeModel { source: source@, nodes: node_views(nodes@) };
        let n: usize = nodes.len();
        if n == 0 {
            return None;
        }
        let size: usize = source.as_bytes().len();
        let mut i: usize = 0;
        while i < n
            invariant
                i <= n,
                n == nodes@.len(),
                n > 0,
                size == encode_utf8(source@).len(),
                model == (TreeModel { source: source@, nodes: node_views(nodes@) }),
                forall|j: int|
                    0 <= j < i ==> ((#[trigger] model.nodes[j]).depth == 0) == (j == 0),
                forall|j: int| 1 <= j < i ==> #[trigger] model.one_level_at_most(j),
                forall|j: int| 0 <= j < i ==> model.spans_text(#[trigger] model.nodes[j]),
            decreases n - i,
        {
            let node = &nodes[i];
            assert(model.nodes[i as int] == node@);
            if (node.depth == 0) != (i == 0) {
                return None;
            }
            if i > 0 && node.depth - 1 > nodes[i - 1].depth {
                assert(model.nodes[i - 1] == nodes@[i - 1]@);
                assert(!model.one_level_at_most(i as int));
                return None;
            }
            if node.start > node.end || node.end > size || !source.is_char_boundary(node.start)
                || !source.is_char_boundary(node.end) {
                assert(!model.spans_text(model.nodes[i as int]));
                return None;
            }
            assert(i > 0 ==> model.nodes[i - 1] == nodes@[i - 1]@);
            i = i + 1;
        }
        Some(SyntaxTree { source, nodes })
    }

    /// The number of nodes.
    pub fn len(&self) -> (r: usize)
        ensures
            r == self@.len(),
            r > 0,
    {
        proof {
            use_type_invariant(self);
        }
        self.nodes.len()
    }

    /// The root, which every tree has.
    pub fn root(&self) -> (r: usize)
        ensures
            r == 0,
            r < self@.len(),
    {
        proof {
            use_type_invariant(self);
        }
        0
    }

    /// The source that the tree spans.
    pub fn source(&self) -> (r: &'a str)
        ensures
            r@ == self@.source,
    {
        self.source
    }

    /// Whether a node is of the kind `kind`.
    pub fn is(&self, i: usize, kind: &str) -> (r: bool)
        requires
            i < self@.len(),
        ensures
            r == self@.is(i as int, kind@),
    {
        same(&self.nodes[i].kind, kind)
    }

    /// The byte at which a node begins.
    pub fn start_byte(&self, i: usize) -> (r: usize)
        requires
            i < self@.len(),
        ensures
            r == self@.nodes[i as int].start,
    {
        self.nodes[i].start
    }

    /// The text of a node.
    pub fn text(&self, i: usize) -> (r: &'a str)
        requires
            i < self@.len(),
        ensures
            r@ == self@.text(i as int),
    {
        proof {
            use_type_invariant(self);
            assert(self@.spans_text(self@.nodes[i as int]));
        }
        slice_of(self.source, self.nodes[i].start, self.nodes[i].end)
    }

    /// The line and the column of a node.
    pub fn place(&self, i: usize) -> (r: (usize, usize))
        requires
            i < self@.len(),
        ensures
            (r.0 as nat, r.1 as nat) == self@.place(i as int),
    {
        proof {
            use_type_invariant(self);
            assert(self@.spans_text(self@.nodes[i as int]));
        }
        get_position(self.source, self.nodes[i].start)
    }

    /// The children of a node, in order.
    pub fn children(&self, i: usize) -> (r: Vec<usize>)
        requires
            i < self@.len(),
        ensures
            indices(r@) == self@.children(i as int),
            forall|k: int| 0 <= k < r@.len() ==> i < #[trigger] r@[k] < self@.len(),
    {
        let d: usize = self.nodes[i].depth;
        let n: usize = self.nodes.len();
        let mut out: Vec<usize> = Vec::new();
        let mut k: usize = i + 1;
        assert(indices(out@) + children_from(self@.nodes, d as nat, k as int)
            =~= children_from(self@.nodes, d as nat, k as int));
        while k < n && self.nodes[k].depth > d
            invariant
                i < k <= n,
                n == self@.len(),
                n == self.nodes@.len(),
                self@.nodes == node_views(self.nodes@),
                d == self@.nodes[i as int].depth,
                indices(out@) + children_from(self@.nodes, d as nat, k as int)
                    == self@.children(i as int),
                forall|j: int| 0 <= j < out@.len() ==> i < #[trigger] out@[j] < n,
            decreases n - k,
        {
            assert(self@.nodes[k as int] == self.nodes@[k as int]@);
            let ghost before = indices(out@);
            let ghost rest = children_from(self@.nodes, d as nat, k + 1);
            if self.nodes[k].depth - 1 == d {
                out.push(k);
                assert(indices(out@) =~= before.push(k as int));
                assert(before + (seq![k as int] + rest) =~= indices(out@) + rest);
            }
            k = k + 1;
        }
        assert(k < n ==> self@.nodes[k as int] == self.nodes@[k as int]@);
        assert(children_from(self@.nodes, d as nat, k as int) =~= Seq::<int>::empty());
        assert(indices(out@) =~= self@.children(i as int));
        out
    }

    /// The first child of a node.
    pub fn first_child(&self, i: usize) -> (r: Option<usize>)
        requires
            i < self@.len(),
        ensures
            index_view(r) == self@.first_child(i as int),
            r matches Some(c) ==> i < c < self@.len(),
    {
        assert(i + 1 < self@.len() ==> self@.nodes[i + 1] == self.nodes@[i + 1]@);
        if i < self.nodes.len() - 1 && self.nodes[i + 1].depth > self.nodes[i].depth {
            Some(i + 1)
        } else {
            None
        }
    }

    /// The first child that fills the field `name`.
    pub fn child_by_field_name(&self, i: usize, name: &str) -> (r: Option<usize>)
        requires
            i < self@.len(),
        ensures
            index_view(r) == self@.field(i as int, name@),
            r matches Some(c) ==> i < c < self@.len(),
    {
        let d: usize = self.nodes[i].depth;
        let n: usize = self.nodes.len();
        let mut k: usize = i + 1;
        while k < n && self.nodes[k].depth > d
            invariant
                i < k <= n,
                n == self@.len(),
                n == self.nodes@.len(),
                self@.nodes == node_views(self.nodes@),
                d == self@.nodes[i as int].depth,
                self@.field(i as int, name@) == field_from(self@.nodes, d as nat, k as int, name@),
            decreases n - k,
        {
            assert(self@.nodes[k as int] == self.nodes@[k as int]@);
            if self.nodes[k].depth - 1 == d {
                if let Some(field) = &self.nodes[k].field {
                    if same(field, name) {
                        return Some(k);
                    }
                }
            }
            k = k + 1;
        }
        assert(k < n ==> self@.nodes[k as int] == self.nodes@[k as int]@);
        None
    }

    /// The end of a node's subtree: the first node behind it that does not belong to it.
    pub fn subtree_end(&self, i: usize) -> (r: usize)
        requires
            i < self@.len(),
        ensures
            r == self@.subtree_end(i as int),
            i < r <= self@.len(),
    {
        let d: usize = self.nodes[i].depth;
        let n: usize = self.nodes.len();
        let mut k: usize = i + 1;
        while k < n && self.nodes[k].depth > d
            invariant
                i < k <= n,
                n == self@.len(),
                n == self.nodes@.len(),
                self@.nodes == node_views(self.nodes@),
                d == self@.nodes[i as int].depth,
                self@.subtree_end(i as int) == end_from(self@.nodes, d as nat, k as int),
            decreases n - k,
        {
            assert(self@.nodes[k as int] == self.nodes@[k as int]@);
            k = k + 1;
        }
        assert(k < n ==> self@.nodes[k as int] == self.nodes@[k as int]@);
        k
    }

    /// The next child of the node's parent.
    pub fn next_sibling(&self, i: usize) -> (r: Option<usize>)
        requires
            i < self@.len(),
        ensures
            index_view(r) == self@.next_sibling(i as int),
            r matches Some(c) ==> i < c < self@.len(),
    {
        let k: usize = self.subtree_end(i);
        assert(k < self@.len() ==> self@.nodes[k as int] == self.nodes@[k as int]@);
        if k < self.nodes.len() && self.nodes[k].depth == self.nodes[i].depth {
            Some(k)
        } else {
            None
        }
    }

    /// The parent of a node; the root has none.
    pub fn parent(&self, i: usize) -> (r: Option<usize>)
        requires
            i < self@.len(),
        ensures
            index_view(r) == self@.parent(i as int),
            r matches Some(p) ==> p < i,
    {
        let d: usize = self.nodes[i].depth;
        let mut k: usize = i;
        while k > 0
            invariant
                k <= i,
                i < self.nodes@.len(),
                self@.nodes == node_views(self.nodes@),
                self@.parent(i as int) == above(self@.nodes, d as nat, k as int),
            decreases k,
        {
            assert(self@.nodes[k - 1] == self.nodes@[k - 1]@);
            if self.nodes[k - 1].depth < d {
                return Some(k - 1);
            }
            k = k - 1;
        }
        None
    }
}

/// The nodes below a node, up to its next sibling, stand deeper than it does.
proof fn lemma_above_child(nodes: Seq<NodeModel>, i: int, k: int, m: int)
    requires
        0 <= i < m <= k < nodes.len(),
        nodes[k].depth == nodes[i].depth + 1,
        forall|j: int| i < j < m ==> (#[trigger] nodes[j]).depth > nodes[i].depth,
    ensures
        above(nodes, nodes[k].depth, m) == Some(i),
    decreases m,
{
    if m > i + 1 {
        assert(nodes[m - 1].depth > nodes[i].depth);
        lemma_above_child(nodes, i, k, m - 1);
    }
}

proof fn lemma_children_from(nodes: Seq<NodeModel>, i: int, from: int, c: int)
    requires
        0 <= i < from,
        forall|j: int| i < j < from ==> (#[trigger] nodes[j]).depth > nodes[i].depth,
        children_from(nodes, nodes[i].depth, from).contains(c),
    ensures
        from <= c < nodes.len(),
        nodes[c].depth == nodes[i].depth + 1,
        forall|j: int| i < j < c ==> (#[trigger] nodes[j]).depth > nodes[i].depth,
    decreases nodes.len() - from,
{
    let d = nodes[i].depth;
    let all = children_from(nodes, d, from);
    let k = choose|k: int| 0 <= k < all.len() && all[k] == c;
    if nodes[from].depth == d + 1 {
        let rest = children_from(nodes, d, from + 1);
        if k == 0 {
            assert(c == from);
        } else {
            assert(rest[k - 1] == c);
            lemma_children_from(nodes, i, from + 1, c);
        }
    } else {
        lemma_children_from(nodes, i, from + 1, c);
    }
}

/// A node is the parent of its children.
pub proof fn children_know_their_parent(t: TreeModel, i: int, c: int)
    requires
        0 <= i < t.len(),
        t.children(i).contains(c),
    ensures
        i < c < t.len(),
        t.parent(c) == Some(i),
{
    lemma_children_from(t.nodes, i, i + 1, c);
    lemma_above_child(t.nodes, i, c, c);
}

/// What fills a field of a node is one of its children.
pub proof fn fields_are_children(t: TreeModel, i: int, name: Seq<char>)
    requires
        0 <= i < t.len(),
    ensures
        t.field(i, name) matches Some(c) ==> t.children(i).contains(c),
{
    lemma_field_from(t.nodes, t.nodes[i].depth, i + 1, name);
}

proof fn lemma_field_from(nodes: Seq<NodeModel>, d: nat, k: int, name: Seq<char>)
    ensures
        field_from(nodes, d, k, name) matches Some(c) ==> children_from(nodes, d, k).contains(c),
    decreases nodes.len() - k,
{
    if k < nodes.len() && nodes[k].depth > d {
        lemma_field_from(nodes, d, k + 1, name);
        let all = children_from(nodes, d, k);
        let rest = children_from(nodes, d, k + 1);
        if nodes[k].depth == d + 1 {
            assert(all[0] == k);
            if let Some(c) = field_from(nodes, d, k, name) {
                if c != k {
                    let j = choose|j: int| 0 <= j < rest.len() && rest[j] == c;
                    assert(all[j + 1] == c);
                }
            }
        }
    }
}

} // verus!
