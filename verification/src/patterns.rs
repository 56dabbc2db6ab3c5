//! Which of its two colors a banded pattern shows in a cell.
//!
//! Stripes, rings, checkers and the two-pattern blend number the cells they
//! cut space into (the floor of a coordinate, of a distance, or of a sum of
//! coordinates) and show their first color in the even cells.
use vstd::prelude::*;

verus! {

/// One of the two colors of a pattern.
#[derive(Debug, PartialEq, Eq, Structural, Clone, Copy)]
pub enum Band {
    First,
    Second,
}

/// The band of cell `cell`: the first in even cells, the second in odd ones.
pub open spec fn band(cell: int) -> Band {
    if cell % 2 == 0 {
        Band::First
    } else {
        Band::Second
    }
}

/// The band of cell `cell`.
pub fn band_of(cell: i64) -> (r: Band)
    ensures
        r == band(cell as int),
{
    if cell % 2 == 0 {
        Band::First
    } else {
        Band::Second
    }
}

/// A gradient runs backwards in cell `cell`: it does in odd cells.
pub fn runs_backwards(cell: i64) -> (r: bool)
    ensures
        r == (band(cell as int) == Band::Second),
{
    cell % 2 != 0
}

/// Neighbouring cells show different colors.
pub proof fn lemma_bands_alternate(cell: int)
    ensures
        band(cell) != band(cell + 1),
        band(cell) == band(cell + 2),
{
}

} // verus!
