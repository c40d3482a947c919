//! Responsive column count for the bookmark grid.
//!
//! The composer lays bookmarks out in a grid whose column count follows the
//! viewport width (in device-independent units) through fixed breakpoints.

use vstd::prelude::*;

verus! {

/// Number of grid columns for a viewport of width `w` device-independent
/// units: below 520 one column, below 860 two, below 1180 three, else four.
pub open spec fn spec_columns_for_width(w: u32) -> u32 {
    if w < 520 {
        1u32
    } else if w < 860 {
        2u32
    } else if w < 1180 {
        3u32
    } else {
        4u32
    }
}

/// Computes the grid column count for a viewport width.
pub fn columns_for_width(w: u32) -> (c: u32)
    ensures
        c == spec_columns_for_width(w),
        1 <= c <= 4,
{
    if w < 520 {
        1
    } else if w < 860 {
        2
    } else if w < 1180 {
        3
    } else {
        4
    }
}

} // verus!
