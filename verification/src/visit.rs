//! The walk over the syntax tree that records what is marked `unsafe`.

use vstd::prelude::*;
use crate::ast::{Block, BlockCheckMode, Crate, Item, ItemKind, Mac, Node, Unsafety};
use crate::span::Span;

verus! {

/// Which of the two forms a recorded region is.
#[derive(Clone, Copy, Debug, PartialEq, Eq, Structural)]
pub enum UnsafeKind {
    /// A block with an `unsafe` mark of its own.
    Block,
    /// A function declared `unsafe`.
    Fn,
}

/// A recorded region: a block or a function, and where it stands.
#[derive(Clone, Copy, Debug, PartialEq, Eq, Structural)]
pub struct UnsafeNode {
    pub kind: UnsafeKind,
    pub span: Span,
}

/// Whether an item is a function declared `unsafe`.
pub open spec fn is_unsafe_fn(i: Item) -> bool {
    i.node matches ItemKind::Fn(header) && header.unsafety == Unsafety::Unsafe
}

/// Whether a block carries an `unsafe` mark of its own, whoever put it there.
pub open spec fn is_unsafe_block(b: Block) -> bool {
    b.rules is Unsafe
}

/// What an item contributes by itself: one entry with the item's whole span
/// if it is a function declared `unsafe`, nothing otherwise.
pub open spec fn item_entry(i: Item) -> Seq<UnsafeNode> {
    if is_unsafe_fn(i) {
        seq![UnsafeNode { kind: UnsafeKind::Fn, span: i.span }]
    } else {
        seq![]
    }
}

/// What a block contributes by itself: one entry with the block's span if it
/// carries the mark, nothing otherwise.
pub open spec fn block_entry(b: Block) -> Seq<UnsafeNode> {
    if is_unsafe_block(b) {
        seq![UnsafeNode { kind: UnsafeKind::Block, span: b.span }]
    } else {
        seq![]
    }
}

/// The regions under a node, the node itself included, in the order in which
/// a depth-first walk meets them: a node before what it holds, and what it
/// holds in source order.
pub open spec fn unsafe_in_node(n: Node) -> Seq<UnsafeNode>
    decreases n,
{
    match n {
        Node::Item(i) => item_entry(i) + unsafe_in_nodes(i.children@),
        Node::Block(b) => block_entry(b) + unsafe_in_nodes(b.stmts@),
        Node::Mac(m) => unsafe_in_nodes(m.children@),
        Node::Other(children) => unsafe_in_nodes(children@),
    }
}

/// The regions under a run of sibling nodes: those under the first, then
/// those under the second, and so on.
pub open spec fn unsafe_in_nodes(nodes: Seq<Node>) -> Seq<UnsafeNode>
    decreases nodes,
{
    if nodes.len() == 0 {
        seq![]
    } else {
        unsafe_in_nodes(nodes.drop_last()) + unsafe_in_node(nodes.last())
    }
}

/// The regions of a whole program.
pub open spec fn unsafe_in_crate(krate: Crate) -> Seq<UnsafeNode> {
    unsafe_in_nodes(krate.nodes@)
}

/// Law: siblings are met in source order. What is recorded under one run of
/// nodes followed by another is what is recorded under the first, then what
/// is recorded under the second.
pub proof fn lemma_siblings_in_order(first: Seq<Node>, second: Seq<Node>)
    ensures
        unsafe_in_nodes(first + second) == unsafe_in_nodes(first) + unsafe_in_nodes(second),
    decreases second.len(),
{
    if second.len() == 0 {
        assert(first + second =~= first);
    } else {
        assert((first + second).drop_last() =~= first + second.drop_last());
        lemma_siblings_in_order(first, second.drop_last());
    }
    assert(unsafe_in_nodes(first + second) =~= unsafe_in_nodes(first) + unsafe_in_nodes(second));
}

/// Law: the outer region comes first. A function declared `unsafe` is
/// recorded in front of everything recorded inside it, and so is a block that
/// carries the mark. What is inside is recorded as it would be without the
/// outer mark: nothing is left out because it stands in a region, and nothing
/// is added.
pub proof fn lemma_outer_before_inner(i: Item, b: Block)
    ensures
        is_unsafe_fn(i) ==> unsafe_in_node(Node::Item(i)) == seq![
            UnsafeNode { kind: UnsafeKind::Fn, span: i.span },
        ] + unsafe_in_nodes(i.children@),
        !is_unsafe_fn(i) ==> unsafe_in_node(Node::Item(i)) == unsafe_in_nodes(i.children@),
        is_unsafe_block(b) ==> unsafe_in_node(Node::Block(b)) == seq![
            UnsafeNode { kind: UnsafeKind::Block, span: b.span },
        ] + unsafe_in_nodes(b.stmts@),
        !is_unsafe_block(b) ==> unsafe_in_node(Node::Block(b)) == unsafe_in_nodes(b.stmts@),
{
    assert(Seq::<UnsafeNode>::empty() + unsafe_in_nodes(i.children@) =~= unsafe_in_nodes(
        i.children@,
    ));
    assert(Seq::<UnsafeNode>::empty() + unsafe_in_nodes(b.stmts@) =~= unsafe_in_nodes(b.stmts@));
}

/// How many blocks under a node, the node itself included, carry the mark.
/// This counts the tree; it does not look at what a walk records.
pub open spec fn unsafe_blocks_in_node(n: Node) -> nat
    decreases n,
{
    match n {
        Node::Item(i) => unsafe_blocks_in_nodes(i.children@),
        Node::Block(b) => (if is_unsafe_block(b) {
            1nat
        } else {
            0nat
        }) + unsafe_blocks_in_nodes(b.stmts@),
        Node::Mac(m) => unsafe_blocks_in_nodes(m.children@),
        Node::Other(children) => unsafe_blocks_in_nodes(children@),
    }
}

/// How many blocks under a run of sibling nodes carry the mark.
pub open spec fn unsafe_blocks_in_nodes(nodes: Seq<Node>) -> nat
    decreases nodes,
{
    if nodes.len() == 0 {
        0
    } else {
        unsafe_blocks_in_nodes(nodes.drop_last()) + unsafe_blocks_in_node(nodes.last())
    }
}

/// How many items under a node, the node itself included, are functions
/// declared `unsafe`.
pub open spec fn unsafe_fns_in_node(n: Node) -> nat
    decreases n,
{
    match n {
        Node::Item(i) => (if is_unsafe_fn(i) {
            1nat
        } else {
            0nat
        }) + unsafe_fns_in_nodes(i.children@),
        Node::Block(b) => unsafe_fns_in_nodes(b.stmts@),
        Node::Mac(m) => unsafe_fns_in_nodes(m.children@),
        Node::Other(children) => unsafe_fns_in_nodes(children@),
    }
}

/// How many items under a run of sibling nodes are functions declared
/// `unsafe`.
pub open spec fn unsafe_fns_in_nodes(nodes: Seq<Node>) -> nat
    decreases nodes,
{
    if nodes.len() == 0 {
        0
    } else {
        unsafe_fns_in_nodes(nodes.drop_last()) + unsafe_fns_in_node(nodes.last())
    }
}

/// How many entries of a list are of the given kind.
pub open spec fn count_kind(entries: Seq<UnsafeNode>, kind: UnsafeKind) -> nat
    decreases entries.len(),
{
    if entries.len() == 0 {
        0
    } else {
        count_kind(entries.drop_last(), kind) + if entries.last().kind == kind {
            1nat
        } else {
            0nat
        }
    }
}

/// Counting by kind goes through concatenation.
pub proof fn lemma_count_kind_add(a: Seq<UnsafeNode>, b: Seq<UnsafeNode>, kind: UnsafeKind)
    ensures
        count_kind(a + b, kind) == count_kind(a, kind) + count_kind(b, kind),
    decreases b.len(),
{
    if b.len() == 0 {
        assert(a + b =~= a);
    } else {
        assert((a + b).drop_last() =~= a + b.drop_last());
        lemma_count_kind_add(a, b.drop_last(), kind);
    }
}

/// Every entry is of one of the two kinds.
pub proof fn lemma_count_kind_total(entries: Seq<UnsafeNode>)
    ensures
        count_kind(entries, UnsafeKind::Block) + count_kind(entries, UnsafeKind::Fn)
            == entries.len(),
    decreases entries.len(),
{
    if entries.len() > 0 {
        lemma_count_kind_total(entries.drop_last());
    }
}

/// Law, for one node: the walk records one entry of kind `Block` for each
/// marked block and one of kind `Fn` for each function declared `unsafe`, no
/// more and no fewer, whether or not one stands inside another.
pub proof fn lemma_count_in_node(n: Node)
    ensures
        count_kind(unsafe_in_node(n), UnsafeKind::Block) == unsafe_blocks_in_node(n),
        count_kind(unsafe_in_node(n), UnsafeKind::Fn) == unsafe_fns_in_node(n),
        unsafe_in_node(n).len() == unsafe_blocks_in_node(n) + unsafe_fns_in_node(n),
    decreases n,
{
    match n {
        Node::Item(i) => {
            lemma_count_in_nodes(i.children@);
            lemma_count_kind_add(item_entry(i), unsafe_in_nodes(i.children@), UnsafeKind::Block);
            lemma_count_kind_add(item_entry(i), unsafe_in_nodes(i.children@), UnsafeKind::Fn);
            reveal_with_fuel(count_kind, 2);
        },
        Node::Block(b) => {
            lemma_count_in_nodes(b.stmts@);
            lemma_count_kind_add(block_entry(b), unsafe_in_nodes(b.stmts@), UnsafeKind::Block);
            lemma_count_kind_add(block_entry(b), unsafe_in_nodes(b.stmts@), UnsafeKind::Fn);
            reveal_with_fuel(count_kind, 2);
        },
        Node::Mac(m) => {
            lemma_count_in_nodes(m.children@);
        },
        Node::Other(children) => {
            lemma_count_in_nodes(children@);
        },
    }
    lemma_count_kind_total(unsafe_in_node(n));
}

/// Law, for a run of sibling nodes: as [`lemma_count_in_node`].
pub proof fn lemma_count_in_nodes(nodes: Seq<Node>)
    ensures
        count_kind(unsafe_in_nodes(nodes), UnsafeKind::Block) == unsafe_blocks_in_nodes(nodes),
        count_kind(unsafe_in_nodes(nodes), UnsafeKind::Fn) == unsafe_fns_in_nodes(nodes),
        unsafe_in_nodes(nodes).len() == unsafe_blocks_in_nodes(nodes) + unsafe_fns_in_nodes(
            nodes,
        ),
    decreases nodes,
{
    if nodes.len() > 0 {
        lemma_count_in_nodes(nodes.drop_last());
        lemma_count_in_node(nodes.last());
        lemma_count_kind_add(
            unsafe_in_nodes(nodes.drop_last()),
            unsafe_in_node(nodes.last()),
            UnsafeKind::Block,
        );
        lemma_count_kind_add(
            unsafe_in_nodes(nodes.drop_last()),
            unsafe_in_node(nodes.last()),
            UnsafeKind::Fn,
        );
    }
    lemma_count_kind_total(unsafe_in_nodes(nodes));
}

/// Law: the number of regions recorded for a program is the number of its
/// marked blocks plus the number of its functions declared `unsafe`, and the
/// entries of each kind are as many as the tree holds of that kind.
pub proof fn lemma_count_in_crate(krate: Crate)
    ensures
        count_kind(unsafe_in_crate(krate), UnsafeKind::Block) == unsafe_blocks_in_nodes(
            krate.nodes@,
        ),
        count_kind(unsafe_in_crate(krate), UnsafeKind::Fn) == unsafe_fns_in_nodes(krate.nodes@),
        unsafe_in_crate(krate).len() == unsafe_blocks_in_nodes(krate.nodes@)
            + unsafe_fns_in_nodes(krate.nodes@),
{
    lemma_count_in_nodes(krate.nodes@);
}

/// Law: a program without a marked block and without a function declared
/// `unsafe` has no regions.
pub proof fn lemma_nothing_marked(krate: Crate)
    requires
        unsafe_blocks_in_nodes(krate.nodes@) == 0,
        unsafe_fns_in_nodes(krate.nodes@) == 0,
    ensures
        unsafe_in_crate(krate) == Seq::<UnsafeNode>::empty(),
{
    lemma_count_in_crate(krate);
    assert(unsafe_in_crate(krate) =~= Seq::<UnsafeNode>::empty());
}

/// The collector: the list of regions met so far, in the order of the walk.
/// Entries are only ever added, at the end.
pub struct UnsafeVisitor {
    pub unsafe_nodes: Vec<UnsafeNode>,
}

impl UnsafeVisitor {
    /// A collector that has met nothing yet.
    pub fn new() -> (visitor: UnsafeVisitor)
        ensures
            visitor.unsafe_nodes@ == Seq::<UnsafeNode>::empty(),
    {
        UnsafeVisitor { unsafe_nodes: Vec::new() }
    }

    /// Visits a block: records it if it carries the mark, then walks its
    /// statements.
    pub fn visit_block(&mut self, b: &Block)
        ensures
            final(self).unsafe_nodes@ == old(self).unsafe_nodes@ + block_entry(*b)
                + unsafe_in_nodes(b.stmts@),
        decreases b, 1int,
    {
        match b.rules {
            BlockCheckMode::Unsafe(_) => {
                self.unsafe_nodes.push(UnsafeNode { kind: UnsafeKind::Block, span: b.span });
            },
            BlockCheckMode::Default => {},
        }
        walk_block(self, b);
    }

    /// Visits an item: records it if it is a function declared `unsafe`, then
    /// walks what it holds. The body of such a function is walked like any
    /// other, so a marked block inside it is recorded too.
    pub fn visit_item(&mut self, i: &Item)
        ensures
            final(self).unsafe_nodes@ == old(self).unsafe_nodes@ + item_entry(*i)
                + unsafe_in_nodes(i.children@),
        decreases i, 1int,
    {
        if let ItemKind::Fn(header) = i.node {
            if header.unsafety == Unsafety::Unsafe {
                self.unsafe_nodes.push(UnsafeNode { kind: UnsafeKind::Fn, span: i.span });
            }
        }
        walk_item(self, i)
    }

    /// Visits a macro invocation: records nothing for it, and walks the
    /// nodes that the tree holds under it.
    pub fn visit_mac(&mut self, mac: &Mac)
        ensures
            final(self).unsafe_nodes@ == old(self).unsafe_nodes@ + unsafe_in_nodes(
                mac.children@,
            ),
        decreases mac, 1int,
    {
        walk_mac(self, mac);
    }

    /// Visits a node of any form.
    pub fn visit_node(&mut self, n: &Node)
        ensures
            final(self).unsafe_nodes@ == old(self).unsafe_nodes@ + unsafe_in_node(*n),
        decreases n, 0int,
    {
        match n {
            Node::Item(i) => self.visit_item(i),
            Node::Block(b) => self.visit_block(b),
            Node::Mac(m) => self.visit_mac(m),
            Node::Other(children) => walk_nodes(self, children),
        }
    }
}

/// Visits each node of a run of siblings, in source order.
pub fn walk_nodes(visitor: &mut UnsafeVisitor, nodes: &Vec<Node>)
    ensures
        final(visitor).unsafe_nodes@ == old(visitor).unsafe_nodes@ + unsafe_in_nodes(nodes@),
    decreases nodes, 0int,
{
    let mut k: usize = 0;
    while k < nodes.len()
        invariant
            k <= nodes.len(),
            visitor.unsafe_nodes@ == old(visitor).unsafe_nodes@ + unsafe_in_nodes(
                nodes@.take(k as int),
            ),
        decreases nodes.len() - k,
    {
        assert(nodes@.take(k + 1).drop_last() == nodes@.take(k as int));
        visitor.visit_node(&nodes[k]);
        k = k + 1;
    }
    assert(nodes@.take(k as int) == nodes@);
}

/// Walks the statements of a block.
pub fn walk_block(visitor: &mut UnsafeVisitor, b: &Block)
    ensures
        final(visitor).unsafe_nodes@ == old(visitor).unsafe_nodes@ + unsafe_in_nodes(b.stmts@),
    decreases b, 0int,
{
    walk_nodes(visitor, &b.stmts);
}

/// Walks what an item holds.
pub fn walk_item(visitor: &mut UnsafeVisitor, i: &Item)
    ensures
        final(visitor).unsafe_nodes@ == old(visitor).unsafe_nodes@ + unsafe_in_nodes(
            i.children@,
        ),
    decreases i, 0int,
{
    walk_nodes(visitor, &i.children);
}

/// Walks the nodes under a macro invocation.
pub fn walk_mac(visitor: &mut UnsafeVisitor, mac: &Mac)
    ensures
        final(visitor).unsafe_nodes@ == old(visitor).unsafe_nodes@ + unsafe_in_nodes(
            mac.children@,
        ),
    decreases mac, 0int,
{
    walk_nodes(visitor, &mac.children);
}

/// Walks a whole program, from the root module down.
pub fn walk_crate(visitor: &mut UnsafeVisitor, krate: &Crate)
    ensures
        final(visitor).unsafe_nodes@ == old(visitor).unsafe_nodes@ + unsafe_in_crate(*krate),
{
    walk_nodes(visitor, &krate.nodes);
}

} // verus!
