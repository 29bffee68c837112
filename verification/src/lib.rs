//! Finds the regions of a parsed program that are marked `unsafe`.
//!
//! A front end hands over a syntax tree ([`Crate`]) and the text of the files
//! it was parsed from ([`CodeMap`]). [`UnsafeVisitor`] walks the tree once, in
//! source order, and records every block that carries its own `unsafe` mark and
//! every function that is declared `unsafe`. [`report`] then writes how many it
//! found and, for each, where it stands and its source text.
//! [`process_ast`] does both.

pub mod ast;
pub mod codemap;
pub mod driver;
pub mod paint;
pub mod report;
pub mod span;
pub mod text;
pub mod visit;

pub use ast::{
    Block, BlockCheckMode, Crate, FnHeader, Item, ItemKind, Mac, Node, UnsafeSource, Unsafety,
};
pub use codemap::{CodeMap, Loc, SourceFile, SpanSnippetError};
pub use driver::{Callback, Compilation, CompileController, PhaseController, UnsafeAnalyzer};
pub use report::{dump_snippet, process_ast, report, AnalysisError, CompileState, SnippetFailure};
pub use span::Span;
pub use visit::{
    walk_block, walk_crate, walk_item, walk_mac, walk_nodes, UnsafeKind, UnsafeNode, UnsafeVisitor,
};
