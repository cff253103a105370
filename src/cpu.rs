//! CPU usage is an IEEE-754 single-precision value. The library holds it as
//! its bit pattern and compares such patterns exactly as `f32`'s `>` does.

use vstd::prelude::*;

verus! {

/// The bit pattern's sign bit.
pub const SIGN_BIT: u32 = 0x8000_0000;

/// Largest magnitude (sign bit cleared) that is not a NaN: positive infinity.
pub const INFINITY_BITS: u32 = 0x7f80_0000;

/// The pattern with its sign bit cleared.
pub open spec fn magnitude(bits: u32) -> int {
    (bits % SIGN_BIT) as int
}

/// All exponent bits set and a nonzero mantissa.
pub open spec fn is_nan_bits(bits: u32) -> bool {
    magnitude(bits) > INFINITY_BITS as int
}

/// For non-NaN patterns, an integer that orders them as the numbers they
/// encode: both zeros map to 0 and the magnitude grows with the value.
pub open spec fn order_key(bits: u32) -> int {
    if bits >= SIGN_BIT {
        -magnitude(bits)
    } else {
        magnitude(bits)
    }
}

/// `a > b` on the numbers the patterns encode; false if either is a NaN.
pub open spec fn gt_bits(a: u32, b: u32) -> bool {
    !is_nan_bits(a) && !is_nan_bits(b) && order_key(a) > order_key(b)
}

/// Compares two single-precision values, given as bit patterns, with `>`.
pub fn usage_gt(a: u32, b: u32) -> (r: bool)
    ensures
        r == gt_bits(a, b),
{
    let ma: u32 = a % SIGN_BIT;
    let mb: u32 = b % SIGN_BIT;
    if ma > INFINITY_BITS || mb > INFINITY_BITS {
        return false;
    }
    let a_neg = a >= SIGN_BIT;
    let b_neg = b >= SIGN_BIT;
    if !a_neg && !b_neg {
        ma > mb
    } else if a_neg && b_neg {
        ma < mb
    } else if !a_neg {
        ma != 0 || mb != 0
    } else {
        false
    }
}

} // verus!
