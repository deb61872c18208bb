//! Colouring of an escape count: black for a point that never escaped, the
//! caller's colour ramp for every other count.
use vstd::prelude::*;

verus! {

/// The colour of every point that did not escape within the budget.
pub open spec fn black() -> (u8, u8, u8) {
    (0u8, 0u8, 0u8)
}

/// `rgb` is a colour of the count `iter` under the budget `max_iter`: black
/// when the budget was spent, and otherwise a value that `ramp` returns for
/// `(iter, max_iter)`.
pub open spec fn shaded<R: Fn(u32, u32) -> (u8, u8, u8)>(
    ramp: R,
    iter: u32,
    max_iter: u32,
    rgb: (u8, u8, u8),
) -> bool {
    if iter == max_iter {
        rgb == black()
    } else {
        call_ensures(ramp, (iter, max_iter), rgb)
    }
}

/// Colours the escape count `iter`. The ramp is not consulted for a point
/// that spent the whole budget.
pub fn shade<R>(iter: u32, max_iter: u32, ramp: &R) -> (rgb: (u8, u8, u8)) where
    R: Fn(u32, u32) -> (u8, u8, u8),

    requires
        iter != max_iter ==> call_requires(*ramp, (iter, max_iter)),
    ensures
        shaded(*ramp, iter, max_iter, rgb),
{
    if iter == max_iter {
        (0u8, 0u8, 0u8)
    } else {
        ramp(iter, max_iter)
    }
}

} // verus!
