//! Small color helpers shared by the editor around the import core.

use vstd::prelude::*;

verus! {

/// Scales a 5-bit channel value (0-31) to the full 8-bit range, so that 31
/// maps to 255.
pub fn scale_color(c: u8) -> (r: u8)
    ensures
        r == (c * 255 / 31) % 256,
        c <= 31 ==> r == c * 255 / 31,
{
    let x: u16 = (c as u16) * 255 / 31;
    proof {
        assert(x as u8 == x % 256) by (bit_vector);
    }
    x as u8
}

} // verus!
