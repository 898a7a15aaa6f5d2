//! Bounds-checked conversion of document indexes. The format stores indexes
//! as signed 64-bit integers; a table lookup is valid only when the index is
//! non-negative and within the table.

use vstd::prelude::*;

verus! {

/// Whether `i` selects a valid position in a table of length `len`.
pub open spec fn spec_index_ok(i: int, len: int) -> bool {
    0 <= i < len
}

/// Converts a document index to a table position, or nothing when it is out
/// of bounds.
pub fn checked_index(i: i64, len: usize) -> (r: Option<usize>)
    ensures
        match r {
            Some(j) => spec_index_ok(i as int, len as int) && j == i,
            None => !spec_index_ok(i as int, len as int),
        },
{
    if 0 <= i && (i as u128) < (len as u128) {
        Some(i as usize)
    } else {
        None
    }
}

} // verus!
