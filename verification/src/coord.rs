//! Text coordinates.
//!
//! A coordinate is a `(column, row)` pair. Comparisons are row-major:
//! the row is compared first, then the column within the row.

use vstd::prelude::*;

verus! {

/// A `(column, row)` position in a text buffer or on the screen.
pub type Coord = (usize, usize);

/// `a` is strictly before `b` in row-major order.
pub open spec fn spec_before(a: Coord, b: Coord) -> bool {
    a.1 < b.1 || (a.1 == b.1 && a.0 < b.0)
}

/// `a` is strictly after `b` in row-major order.
pub open spec fn spec_after(a: Coord, b: Coord) -> bool {
    a.1 > b.1 || (a.1 == b.1 && a.0 > b.0)
}

/// `a` is not after `b`: `a` comes first or the two are equal.
pub open spec fn spec_le(a: Coord, b: Coord) -> bool {
    !spec_after(a, b)
}

/// Returns whether `a` is strictly before `b` in row-major order.
pub fn before(a: Coord, b: Coord) -> (r: bool)
    ensures
        r == spec_before(a, b),
{
    a.1 < b.1 || (a.1 == b.1 && a.0 < b.0)
}

/// Returns whether `a` is strictly after `b` in row-major order.
pub fn after(a: Coord, b: Coord) -> (r: bool)
    ensures
        r == spec_after(a, b),
{
    a.1 > b.1 || (a.1 == b.1 && a.0 > b.0)
}

/// Returns whether `a` lies strictly between `first` and `second`.
pub fn between(a: Coord, first: Coord, second: Coord) -> (r: bool)
    ensures
        r == (spec_after(a, first) && spec_before(a, second)),
{
    after(a, first) && before(a, second)
}

} // verus!
