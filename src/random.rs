use vstd::prelude::*;

use rand::Rng;

verus! {

/// Relies on `macroquad::rand::gen_range` (quad-rand): for integer bounds
/// `low < high` it scales a 32-bit draw in `[0, 1)` onto the range and
/// truncates, so the result lies in `[low, high)`.
#[verifier::external_body]
pub(crate) fn quad_below(n: usize) -> (r: usize)
    requires
        0 < n <= u32::MAX,
    ensures
        r < n,
{
    macroquad::rand::gen_range(0, n)
}

/// Relies on `rand::Rng::gen_range` over `rand::thread_rng()`: a value drawn
/// from the half-open range `0..n`, which must not be empty.
#[verifier::external_body]
pub(crate) fn thread_below(n: usize) -> (r: usize)
    requires
        0 < n,
    ensures
        r < n,
{
    rand::thread_rng().gen_range(0..n)
}

} // verus!
