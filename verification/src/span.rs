use vstd::prelude::*;

verus! {

/// A half-open byte range locating a node in the source text.
///
/// Every syntax-tree node and every intermediate-representation node
/// carries one; diagnostics point at these ranges.
#[derive(Clone, Copy, PartialEq, Eq, Structural, Debug)]
pub struct Span {
    pub start: usize,
    pub end: usize,
}

} // verus!
