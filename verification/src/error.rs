//! The conditions under which an operation of this library fails.

use vstd::prelude::*;

verus! {

/// Why a constructor or a query refused its input.
///
/// Every failure is final for the call that reports it: nothing is retried
/// and no partial result is produced.
#[derive(Clone, Copy, Debug, PartialEq, Eq)]
pub enum IndexError {
    /// The bounds of an interval do not satisfy `lower < upper`, or its
    /// number of points does not fit the index type.
    InvalidRange,
    /// A coordinate lies outside the interval it was checked against.
    OutOfBounds,
    /// A decomposition into zero tiles was requested.
    InvalidTileCount,
    /// The requested decomposition would leave a tile without any point.
    EmptyTile,
    /// A local offset does not belong to the tile it was given with.
    LocalIndexOutOfRange,
    /// A grid extent is zero.
    InvalidDimensions,
}

} // verus!
