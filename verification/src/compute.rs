use vstd::prelude::*;
use crate::setup::filled;

verus! {

/// The spacing of single-precision floats at a count `0 <= n < 2^32`: one
/// below 2^24, doubling with every further bit of `n`.
pub open spec fn f32_spacing(n: int) -> int {
    if n < 0x100_0000 {
        1
    } else if n < 0x200_0000 {
        2
    } else if n < 0x400_0000 {
        4
    } else if n < 0x800_0000 {
        8
    } else if n < 0x1000_0000 {
        16
    } else if n < 0x2000_0000 {
        32
    } else if n < 0x4000_0000 {
        64
    } else if n < 0x8000_0000 {
        128
    } else {
        256
    }
}

/// The single-precision float nearest to a count `0 <= n < 2^32`, ties
/// going to the even significand: the value the count takes when it is
/// converted to `f32`.
pub open spec fn nearest_f32(n: int) -> int {
    let u = f32_spacing(n);
    let q = n / u;
    let r = n % u;
    if 2 * r > u || (2 * r == u && q % 2 == 1) {
        (q + 1) * u
    } else {
        q * u
    }
}

/// The number of 256-invocation workgroups dispatched for the selection
/// pass over a `width` by `height` target: the pixel count, taken as a
/// single-precision float, divided by 256 and rounded up.  Up to 2^24 pixels
/// this is the pixel count divided by 256 rounded up; above, the pixel count
/// is first rounded to the nearest float.
pub fn selectangle_workgroups(width: u32, height: u32) -> (n: u32)
    requires
        width * height <= u32::MAX,
    ensures
        n == (nearest_f32(width * height) + 255) / 256,
        width * height < 0x100_0000 ==> n == (width * height + 255) / 256,
{
    let pixels = (width * height) as u64;
    let unit: u64 = if pixels < 0x100_0000 {
        1
    } else if pixels < 0x200_0000 {
        2
    } else if pixels < 0x400_0000 {
        4
    } else if pixels < 0x800_0000 {
        8
    } else if pixels < 0x1000_0000 {
        16
    } else if pixels < 0x2000_0000 {
        32
    } else if pixels < 0x4000_0000 {
        64
    } else if pixels < 0x8000_0000 {
        128
    } else {
        256
    };
    let q = pixels / unit;
    let r = pixels % unit;
    proof {
        assert(pixels == q * unit + r && 0 <= r < unit && q * unit <= pixels) by (nonlinear_arith)
            requires
                unit > 0,
                q == pixels / unit,
                r == pixels % unit,
        ;
        assert((q + 1) * unit == q * unit + unit) by (nonlinear_arith);
    }
    let rounded = if 2 * r > unit || (2 * r == unit && q % 2 == 1) {
        (q + 1) * unit
    } else {
        q * unit
    };
    ((rounded + 255) / 256) as u32
}

/// The initial contact buffers of `p` particles with room for
/// `max_contacts` contacts each: four words per contact slot, every word
/// holding the bits of -1, and one contact pointer per slot, all -1.
pub fn contact_buffers(max_contacts: usize, p: usize) -> (r: (Vec<i32>, Vec<i32>))
    requires
        4 * max_contacts * p <= usize::MAX,
    ensures
        r.0@ == Seq::new((4 * max_contacts * p) as nat, |k: int| -1i32),
        r.1@ == Seq::new((max_contacts * p) as nat, |k: int| -1i32),
{
    proof {
        assert(max_contacts * p <= 4 * max_contacts * p) by (nonlinear_arith);
        assert(4 * max_contacts * p == 4 * (max_contacts * p)) by (nonlinear_arith);
    }
    let slots = max_contacts * p;
    (filled(-1i32, 4 * slots), filled(-1i32, slots))
}

} // verus!
