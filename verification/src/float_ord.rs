use vstd::prelude::*;

verus! {

// Scalars enter the archive as the 64-bit patterns of IEEE-754 doubles.
// The replacement rule only ever asks how two objectives are ordered, and
// that ordering is pure bit logic: fold the sign bit so that the pattern
// order agrees with the numeric order, and treat any NaN pattern as
// incomparable.  Everything here is integer code, verified end to end.

/// The sign bit of a double's pattern.
pub const SIGN_BIT: u64 = 0x8000_0000_0000_0000;

/// Pattern of positive infinity; anything with a strictly larger magnitude
/// field is a NaN.
pub const POS_INF_BITS: u64 = 0x7FF0_0000_0000_0000;

/// The magnitude field: the pattern with its sign bit cleared.
pub open spec fn magnitude(bits: u64) -> u64 {
    bits & 0x7FFF_FFFF_FFFF_FFFF
}

/// Whether `bits` is the pattern of a NaN: magnitude beyond infinity.
pub open spec fn is_nan_bits(bits: u64) -> bool {
    magnitude(bits) > POS_INF_BITS
}

/// Sign-folded key.  Over all non-NaN patterns the key is monotone in the
/// numeric value the pattern denotes, and it identifies the two zeros
/// (which are numerically equal); so comparing keys is exactly the numeric
/// comparison of the doubles.
pub open spec fn order_key(bits: u64) -> int {
    if bits >= SIGN_BIT {
        SIGN_BIT - (bits - SIGN_BIT)
    } else {
        bits + SIGN_BIT
    }
}

/// Numeric `>` on double patterns: both comparable and the key strictly
/// larger.  False whenever either side is a NaN, as IEEE-754 demands.
pub open spec fn f64_bits_gt(a: u64, b: u64) -> bool {
    !is_nan_bits(a) && !is_nan_bits(b) && order_key(a) > order_key(b)
}

/// Numeric `>=` on double patterns; false whenever either side is a NaN.
pub open spec fn f64_bits_ge(a: u64, b: u64) -> bool {
    !is_nan_bits(a) && !is_nan_bits(b) && order_key(a) >= order_key(b)
}

/// Runtime check for a NaN pattern.
pub fn nan_bits(bits: u64) -> (r: bool)
    ensures
        r == is_nan_bits(bits),
{
    (bits & 0x7FFF_FFFF_FFFF_FFFF) > POS_INF_BITS
}

/// Runtime sign-folded key; equal to the specification key for every
/// pattern (both branches stay within `u64`).
pub fn key_bits(bits: u64) -> (r: u64)
    ensures
        r == order_key(bits),
{
    if bits >= SIGN_BIT {
        SIGN_BIT - (bits - SIGN_BIT)
    } else {
        bits + SIGN_BIT
    }
}

/// Numeric `>` of the doubles whose patterns are given.
pub fn gt_bits(a: u64, b: u64) -> (r: bool)
    ensures
        r == f64_bits_gt(a, b),
{
    if nan_bits(a) || nan_bits(b) {
        false
    } else {
        key_bits(a) > key_bits(b)
    }
}

/// Numeric `>=` of the doubles whose patterns are given.
pub fn ge_bits(a: u64, b: u64) -> (r: bool)
    ensures
        r == f64_bits_ge(a, b),
{
    if nan_bits(a) || nan_bits(b) {
        false
    } else {
        key_bits(a) >= key_bits(b)
    }
}

/// The strict order never holds both ways, and never of a pattern against
/// itself.
pub proof fn lemma_gt_asymmetric(a: u64, b: u64)
    ensures
        !(f64_bits_gt(a, b) && f64_bits_gt(b, a)),
        !f64_bits_gt(a, a),
{
}

/// The strict order is transitive.
pub proof fn lemma_gt_transitive(a: u64, b: u64, c: u64)
    requires
        f64_bits_gt(a, b),
        f64_bits_gt(b, c),
    ensures
        f64_bits_gt(a, c),
{
}

} // verus!
