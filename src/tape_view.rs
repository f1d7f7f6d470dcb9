//! How many tape cells fit in a view of a given width, on each side of the
//! current cell.
//!
//! The current cell sits in the middle; every other cell takes four
//! columns (three digits and a separator). Slots that would show a cell
//! left of the tape's start, or right of its end, are unused; columns cut
//! off at either edge are overflow.

use vstd::prelude::*;

verus! {

/// Relies on num_integer's `Integer::div_ceil` for `usize`, which computes
/// `x / y + (x % y != 0) as usize` and divides by `y`.
#[verifier::external_body]
fn div_ceil(x: usize, y: usize) -> (r: usize)
    requires
        y > 0,
    ensures
        r == x / y + (if x % y == 0 {
            0int
        } else {
            1int
        }),
{
    num_integer::Integer::div_ceil(&x, &y)
}

/// Number of four-column slots needed for `n` columns.
pub open spec fn slots(n: int) -> int {
    n / 4 + if n % 4 == 0 {
        0int
    } else {
        1int
    }
}

/// Columns left of the current cell in a view `width` wide: the larger
/// half of what remains beside the cell's three columns.
pub open spec fn left_columns(width: int) -> int {
    (width - 3) / 2 + (width - 3) % 2
}

/// Columns right of the current cell: the smaller half.
pub open spec fn right_columns(width: int) -> int {
    (width - 3) / 2
}

pub struct TapeSpace {
    /// Slots left of the current cell that show a cell of the tape.
    pub used_left_slots: usize,
    /// Slots left of the current cell before the tape's start.
    pub unused_left_slots: usize,
    /// Columns of the leftmost slot that do not fit.
    pub left_overflow: usize,
    /// Slots right of the current cell that show a cell of the tape.
    pub used_right_slots: usize,
    /// Slots right of the current cell past the tape's end.
    pub unused_right_slots: usize,
    /// Columns of the rightmost slot that do not fit.
    pub right_overflow: usize,
}

impl TapeSpace {
    pub fn new(width: usize, tape_pointer: usize, tape_length: usize) -> (r: TapeSpace)
        requires
            width >= 3,
            tape_pointer < tape_length,
        ensures
            r.used_left_slots == vstd::math::min(slots(left_columns(width as int)), tape_pointer as int),
            r.unused_left_slots == slots(left_columns(width as int)) - r.used_left_slots,
            r.left_overflow == 4 * slots(left_columns(width as int)) - left_columns(width as int),
            r.used_right_slots == vstd::math::min(
                slots(right_columns(width as int)),
                tape_length - tape_pointer - 1,
            ),
            r.unused_right_slots == slots(right_columns(width as int)) - r.used_right_slots,
            r.right_overflow == 4 * slots(right_columns(width as int)) - right_columns(width as int),
    {
        let available = width - 3;
        let half = available / 2;
        let remainder = available % 2;
        let left = half + remainder;
        let right = half;
        let left_slots = div_ceil(left, 4);
        let right_slots = div_ceil(right, 4);

        let used_left_slots = if left_slots < tape_pointer {
            left_slots
        } else {
            tape_pointer
        };
        let unused_left_slots = left_slots - used_left_slots;

        let beyond = tape_length - tape_pointer - 1;
        let used_right_slots = if right_slots < beyond {
            right_slots
        } else {
            beyond
        };
        let unused_right_slots = right_slots - used_right_slots;

        let left_overflow = left_slots * 4 - left;
        let right_overflow = right_slots * 4 - right;

        TapeSpace {
            used_left_slots,
            unused_left_slots,
            left_overflow,
            used_right_slots,
            unused_right_slots,
            right_overflow,
        }
    }
}

} // verus!
