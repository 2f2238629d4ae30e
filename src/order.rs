//! Order keys for IEEE-754 single-precision bit patterns.
//!
//! A parameter along a ray is handed to this library as its bit pattern. The
//! key of a pattern is a `u32` whose unsigned order is the IEEE total order of
//! the values: negatives below positives, larger magnitudes farther from zero.
//! On non-NaN values this is the numeric order, except that `-0.0` comes just
//! before `+0.0`.
use vstd::prelude::*;

verus! {

/// The sign bit of a pattern is set.
pub open spec fn is_negative(bits: u32) -> bool {
    bits >= 0x8000_0000
}

/// The pattern without its sign bit.
pub open spec fn magnitude(bits: u32) -> int {
    bits as int % 0x8000_0000
}

/// The key: positives above `0x8000_0000` by their magnitude, negatives below
/// it, mirrored.
pub open spec fn key_spec(bits: u32) -> int {
    if is_negative(bits) {
        0x7FFF_FFFF - magnitude(bits)
    } else {
        0x8000_0000 + magnitude(bits)
    }
}

/// `a` comes before `b` in the IEEE total order of single-precision values.
pub open spec fn before(a: u32, b: u32) -> bool {
    if is_negative(a) != is_negative(b) {
        is_negative(a)
    } else if is_negative(a) {
        magnitude(a) > magnitude(b)
    } else {
        magnitude(a) < magnitude(b)
    }
}

/// The order key of a single-precision bit pattern.
pub fn order_key(bits: u32) -> (r: u32)
    ensures
        r == key_spec(bits),
{
    if bits >= 0x8000_0000 {
        0x7FFF_FFFFu32 - (bits - 0x8000_0000)
    } else {
        0x8000_0000u32 + bits
    }
}

/// Keys order as the values do: one key is below another exactly when its
/// value comes first, and distinct patterns have distinct keys.
pub proof fn lemma_key_order(a: u32, b: u32)
    ensures
        key_spec(a) < key_spec(b) <==> before(a, b),
        key_spec(a) == key_spec(b) <==> a == b,
{
}

} // verus!
