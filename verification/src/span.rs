//! Source locations.

use vstd::prelude::*;

verus! {

/// A contiguous range of source text: the characters at offsets `lo..hi` of
/// the file that a [`CodeMap`](crate::codemap::CodeMap) holds under the index
/// `file`. Offsets count characters, not bytes.
///
/// A span is a plain value. Nothing here ties it to a file that exists: the
/// code map decides, when the span is looked up, whether it lies inside one.
#[derive(Clone, Copy, Debug, PartialEq, Eq, Structural)]
pub struct Span {
    pub file: usize,
    pub lo: usize,
    pub hi: usize,
}

} // verus!
