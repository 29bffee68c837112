//! The syntax tree, reduced to what the analysis reads.
//!
//! A front end knows hundreds of syntactic forms. The analysis tells apart
//! only three of them (items, blocks and macro invocations) and, for every
//! form, needs the nodes nested in it, in source order. So the tree has one
//! variant for each of the three and one, [`Node::Other`], for all the rest:
//! statements, expressions, patterns, types.

use vstd::prelude::*;
use crate::span::Span;

verus! {

/// Whether a function is declared `unsafe`.
#[derive(Clone, Copy, Debug, PartialEq, Eq, Structural)]
pub enum Unsafety {
    Unsafe,
    Normal,
}

/// Who put the `unsafe` mark on a block.
#[derive(Clone, Copy, Debug, PartialEq, Eq, Structural)]
pub enum UnsafeSource {
    /// The front end, around code that it generated.
    CompilerGenerated,
    /// The author, in the source text.
    UserProvided,
}

/// Whether a block carries an `unsafe` mark of its own. A block inside an
/// `unsafe` function or another `unsafe` block does not inherit the mark.
#[derive(Clone, Copy, Debug, PartialEq, Eq, Structural)]
pub enum BlockCheckMode {
    Default,
    Unsafe(UnsafeSource),
}

/// The qualifiers in front of `fn`.
#[derive(Clone, Copy, Debug, PartialEq, Eq, Structural)]
pub struct FnHeader {
    pub unsafety: Unsafety,
}

/// What kind of item an [`Item`] is.
#[derive(Clone, Copy, Debug, PartialEq, Eq, Structural)]
pub enum ItemKind {
    /// A function.
    Fn(FnHeader),
    /// A module, a data declaration, an impl, or any other item.
    Other,
}

/// An item. Its span covers the whole item: for a function, the signature
/// and the body.
#[derive(Debug)]
pub struct Item {
    pub node: ItemKind,
    pub span: Span,
    /// What the item holds, in source order: the items of a module, the body
    /// of a function.
    pub children: Vec<Node>,
}

/// A block. Its span runs from the opening brace, or from the `unsafe` in
/// front of it, to the closing brace.
#[derive(Debug)]
pub struct Block {
    pub rules: BlockCheckMode,
    pub span: Span,
    /// The statements of the block, in source order.
    pub stmts: Vec<Node>,
}

/// A macro invocation. In a tree that was expanded, what the macro produced
/// stands in `children`. In one that was not, the arguments are tokens, not
/// syntax: `children` is empty, and nothing in the arguments is seen.
#[derive(Debug)]
pub struct Mac {
    pub span: Span,
    pub children: Vec<Node>,
}

/// A node of the syntax tree.
#[derive(Debug)]
pub enum Node {
    Item(Item),
    Block(Block),
    Mac(Mac),
    /// Any other form, with the nodes nested in it, in source order.
    Other(Vec<Node>),
}

/// A parsed program: the contents of its root module, in source order.
#[derive(Debug)]
pub struct Crate {
    pub nodes: Vec<Node>,
}

} // verus!
