//! The image album viewer's position.
use vstd::prelude::*;

verus! {

/// `x` held within `[lo, hi]`.
pub open spec fn clamp_int(x: int, lo: int, hi: int) -> int {
    if x < lo {
        lo
    } else if x > hi {
        hi
    } else {
        x
    }
}

/// The album's image after stepping `delta` from `active` among `len`
/// images: held at the first and last image; an empty album stays put. The
/// position and the count are taken as `i32` (`as`, truncating), as the
/// viewer computes in `i32`.
pub fn album_step(active: usize, delta: i32, len: usize) -> (r: usize)
    requires
        len == 0 || (len as i32) >= 1,
        len == 0 || i32::MIN <= (active as i32) + delta <= i32::MAX,
    ensures
        r == (if len == 0 {
            active as int
        } else {
            clamp_int((active as i32) + delta, 0, (len as i32) - 1)
        }),
{
    if len == 0 {
        return active;
    }
    let next: i32 = active as i32 + delta;
    let hi: i32 = len as i32 - 1;
    if next < 0 {
        0
    } else if next > hi {
        hi as usize
    } else {
        next as usize
    }
}

} // verus!
