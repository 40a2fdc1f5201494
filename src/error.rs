use vstd::prelude::*;

verus! {

/// Why a buffer was rejected.
#[derive(Debug, Clone, Copy, PartialEq, Eq, Structural)]
pub enum Error {
    /// A region exceeds the buffer end, or offset arithmetic overflows.
    OutOfBounds,
    /// A region's address violates the required alignment.
    Misaligned,
    /// A region starts behind the current high-water mark.
    BackwardOrOverlapping,
    /// A fixed-width tag matches no declared variant.
    InvalidDiscriminant,
    /// A bit pattern lies outside a leaf type's legal domain.
    InvalidScalarValue,
    /// A reference or slice carries the null offset.
    NullIndirection,
}

} // verus!
