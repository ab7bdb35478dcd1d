//! Layout constants shared by the padded arrays.
use vstd::prelude::*;

verus! {

/// Size of a cache line in bytes on the processors this crate is laid out for.
pub const CACHE_LINE_SIZE: usize = 64;

/// Size of a pointer in bytes on a 64-bit target.
pub const POINTER_SIZE: usize = 8;

/// Number of pointer-sized cells in one cache line. The slot array and the
/// availability buffer carry this many unused cells before the first live
/// cell and after the last one.
pub const ARRAY_PADDING: usize = CACHE_LINE_SIZE / POINTER_SIZE;

/// Largest number of binary digits a capacity can have: capacities are powers
/// of two that fit in an `i64`.
pub const MAX_CAPACITY_BITS: u32 = 63;

} // verus!
