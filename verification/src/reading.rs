//! Sensor values.
//!
//! Temperatures travel as the bit pattern of an IEEE 754 single-precision
//! number, so that a value read from a sensor or from a configuration file is
//! carried without rounding. Ordering and truncation are defined on the bits.

use vstd::prelude::*;
use vstd::arithmetic::power2::*;

verus! {

/// Bit pattern with the sign bit set and nothing else.
pub const SIGN_BIT: u32 = 0x8000_0000;

/// Bit pattern of positive infinity; every larger magnitude is a NaN.
pub const INFINITY_BITS: u32 = 0x7f80_0000;

/// The bit just above the stored fraction: the weight of the exponent field,
/// and the bit that a normal number's significand has without storing it.
pub const HIDDEN_BIT: u32 = 0x80_0000;

/// Biased exponent from which on the number is at least `2^31`.
pub const OVERFLOW_EXPONENT: u32 = 158;

/// Biased exponent below which the number is less than 1.
pub const UNIT_EXPONENT: u32 = 127;

/// Biased exponent at which the significand is an integer already.
pub const INTEGER_EXPONENT: u32 = 150;

/// Exponent of the power of two by which every number is scaled to make it an
/// integer.
pub const VALUE_SHIFT: u32 = 149;

/// A temperature, held as the bits of a single-precision number.
#[derive(Clone, Copy, Debug, PartialEq, Eq, Hash)]
pub struct Temperature {
    pub bits: u32,
}

/// One sample of the room's sensors.
#[derive(Clone, Copy, Debug, PartialEq, Eq)]
pub struct Reading {
    pub temperature: Temperature,
    /// CO2 concentration in parts per million.
    pub co2: i32,
}

/// The bits without the sign.
pub open spec fn magnitude(bits: u32) -> int {
    if bits >= SIGN_BIT {
        bits - SIGN_BIT
    } else {
        bits as int
    }
}

/// Whether the sign bit is set.
pub open spec fn negative(bits: u32) -> bool {
    bits >= SIGN_BIT
}

/// Whether the bits encode a NaN.
pub open spec fn is_nan(bits: u32) -> bool {
    magnitude(bits) > INFINITY_BITS
}

/// An integer that orders the numbers which are not NaN as their values are
/// ordered. Both zeros map to 0.
pub open spec fn order_key(bits: u32) -> int {
    if negative(bits) {
        -magnitude(bits)
    } else {
        magnitude(bits)
    }
}

/// `a < b` on the encoded numbers: false as soon as either is a NaN.
pub open spec fn less_than(a: u32, b: u32) -> bool {
    !is_nan(a) && !is_nan(b) && order_key(a) < order_key(b)
}

/// The biased exponent field.
pub open spec fn exponent(bits: u32) -> int {
    magnitude(bits) / (HIDDEN_BIT as int)
}

/// The integer significand: the stored fraction, with the hidden bit for a
/// normal number.
pub open spec fn significand(bits: u32) -> int {
    let fraction = magnitude(bits) % (HIDDEN_BIT as int);
    if exponent(bits) == 0 {
        fraction
    } else {
        fraction + HIDDEN_BIT
    }
}

/// The exponent that scales the significand: the exponent field, or 1 for a
/// subnormal number.
pub open spec fn scale(bits: u32) -> int {
    if exponent(bits) == 0 {
        1
    } else {
        exponent(bits)
    }
}

/// The absolute value of the encoded number times `2^149`, which is an
/// integer: the number itself is `significand * 2^(scale - 150)`. An
/// infinity comes out above every finite number.
pub open spec fn scaled_magnitude(bits: u32) -> int {
    significand(bits) * pow2((scale(bits) - 1) as nat)
}

/// The encoded number times `2^149`.
pub open spec fn scaled_value(bits: u32) -> int {
    if negative(bits) {
        -scaled_magnitude(bits)
    } else {
        scaled_magnitude(bits)
    }
}

/// The absolute value of the encoded number, rounded down to an integer.
pub open spec fn whole_part(bits: u32) -> int {
    scaled_magnitude(bits) / (pow2(VALUE_SHIFT as nat) as int)
}

/// The encoded number as a 32-bit signed integer: the fraction is dropped, a
/// value out of range goes to the nearest bound, and a NaN gives 0.
pub open spec fn truncated(bits: u32) -> int {
    if is_nan(bits) {
        0
    } else if magnitude(bits) == INFINITY_BITS || whole_part(bits) > i32::MAX {
        if negative(bits) { i32::MIN as int } else { i32::MAX as int }
    } else if negative(bits) {
        -whole_part(bits)
    } else {
        whole_part(bits)
    }
}

/// The integer part written without the common scale: the significand is
/// shifted left for a large exponent and right for a small one.
proof fn lemma_whole_part(bits: u32)
    ensures
        scale(bits) >= INTEGER_EXPONENT ==> whole_part(bits) == significand(bits) * pow2(
            (scale(bits) - INTEGER_EXPONENT) as nat,
        ),
        scale(bits) < INTEGER_EXPONENT ==> whole_part(bits) == significand(bits) / (pow2(
            (INTEGER_EXPONENT - scale(bits)) as nat,
        ) as int),
{
    let e = scale(bits);
    let sig = significand(bits);
    let unit = pow2(VALUE_SHIFT as nat) as int;
    lemma_pow2_pos(VALUE_SHIFT as nat);
    if e >= INTEGER_EXPONENT {
        let up = pow2((e - INTEGER_EXPONENT) as nat) as int;
        lemma_pow2_adds((e - INTEGER_EXPONENT) as nat, VALUE_SHIFT as nat);
        assert(pow2((e - 1) as nat) == up * unit);
        assert(sig * (up * unit) == unit * (sig * up)) by (nonlinear_arith);
        vstd::arithmetic::div_mod::lemma_div_multiples_vanish(sig * up, unit);
    } else {
        let low = pow2((e - 1) as nat) as int;
        let down = pow2((INTEGER_EXPONENT - e) as nat) as int;
        lemma_pow2_pos((e - 1) as nat);
        lemma_pow2_pos((INTEGER_EXPONENT - e) as nat);
        lemma_pow2_adds((e - 1) as nat, (INTEGER_EXPONENT - e) as nat);
        assert(unit == low * down);
        vstd::arithmetic::div_mod::lemma_div_multiples_vanish_quotient(low, sig, down);
        assert(sig * low == low * sig) by (nonlinear_arith);
    }
}

/// A larger bit pattern without sign encodes a larger absolute value.
pub proof fn lemma_magnitude_orders_values(a: u32, b: u32)
    requires
        magnitude(a) < magnitude(b),
    ensures
        0 <= scaled_magnitude(a) < scaled_magnitude(b),
{
    let pa = pow2((scale(a) - 1) as nat) as int;
    let pb = pow2((scale(b) - 1) as nat) as int;
    let sa = significand(a);
    let sb = significand(b);
    lemma_pow2_pos((scale(a) - 1) as nat);
    lemma_pow2_pos((scale(b) - 1) as nat);
    assert(0 <= sa * pa) by (nonlinear_arith)
        requires
            0 <= sa,
            0 < pa,
    ;
    if exponent(a) == exponent(b) {
        assert(sa * pa < sb * pb) by (nonlinear_arith)
            requires
                sa < sb,
                pa == pb,
                0 < pa,
        ;
    } else if exponent(a) == 0 {
        lemma2_to64();
        assert(sa * pa < sb * pb) by (nonlinear_arith)
            requires
                sa < sb,
                pa == 1,
                1 <= pb,
                0 <= sa,
        ;
    } else {
        // Doubling the power makes up for any difference of the significands.
        lemma_pow2_unfold(scale(a) as nat);
        if scale(a) < scale(b) - 1 {
            lemma_pow2_strictly_increases(scale(a) as nat, (scale(b) - 1) as nat);
        }
        assert(sa * pa < sb * pb) by (nonlinear_arith)
            requires
                sa < 2 * HIDDEN_BIT,
                HIDDEN_BIT <= sb,
                2 * pa <= pb,
                0 < pa,
        ;
    }
}

/// The order on bit patterns is the order of the encoded numbers.
pub proof fn lemma_less_than_orders_values(a: u32, b: u32)
    ensures
        less_than(a, b) <==> !is_nan(a) && !is_nan(b) && scaled_value(a) < scaled_value(b),
        order_key(a) == order_key(b) <==> scaled_value(a) == scaled_value(b),
{
    if magnitude(a) < magnitude(b) {
        lemma_magnitude_orders_values(a, b);
    }
    if magnitude(b) < magnitude(a) {
        lemma_magnitude_orders_values(b, a);
    }
    if magnitude(a) == magnitude(b) {
        assert(scaled_magnitude(a) == scaled_magnitude(b));
    }
    lemma_magnitude_is_not_negative(a);
    lemma_magnitude_is_not_negative(b);
}

proof fn lemma_magnitude_is_not_negative(bits: u32)
    ensures
        0 <= scaled_magnitude(bits),
        scaled_magnitude(bits) == 0 <==> magnitude(bits) == 0,
{
    let p = pow2((scale(bits) - 1) as nat) as int;
    let sig = significand(bits);
    lemma_pow2_pos((scale(bits) - 1) as nat);
    assert(0 <= sig * p && (sig * p == 0 <==> sig == 0)) by (nonlinear_arith)
        requires
            0 <= sig,
            0 < p,
    ;
}

/// `less_than` is a strict order: nothing is below itself, and below is
/// passed on.
pub proof fn lemma_less_than_is_strict(a: u32, b: u32, c: u32)
    ensures
        !less_than(a, a),
        less_than(a, b) ==> !less_than(b, a),
        less_than(a, b) && less_than(b, c) ==> less_than(a, c),
{
}

/// Of two numbers, one is below the other unless they are the same number;
/// the two zeros are the same number. A NaN stands in no relation to
/// anything.
pub proof fn lemma_less_than_is_total(a: u32, b: u32)
    requires
        !is_nan(a),
        !is_nan(b),
    ensures
        less_than(a, b) || less_than(b, a) || a == b || (magnitude(a) == 0 && magnitude(b) == 0),
{
}

impl Temperature {
    pub fn from_bits(bits: u32) -> (t: Temperature)
        ensures
            t.bits == bits,
    {
        Temperature { bits }
    }

    pub fn to_bits(self) -> (bits: u32)
        ensures
            bits == self.bits,
    {
        self.bits
    }

    /// Whether this temperature is no number at all.
    pub fn is_nan(self) -> (r: bool)
        ensures
            r == is_nan(self.bits),
    {
        let mag: u32 = if self.bits >= SIGN_BIT { self.bits - SIGN_BIT } else { self.bits };
        mag > INFINITY_BITS
    }

    /// Whether this temperature is strictly below `other`.
    pub fn below(self, other: Temperature) -> (r: bool)
        ensures
            r == less_than(self.bits, other.bits),
    {
        if self.is_nan() || other.is_nan() {
            return false;
        }
        signed_key(self.bits) < signed_key(other.bits)
    }
}

/// `2^n` for a small `n`.
fn power_of_two(n: u32) -> (p: u64)
    requires
        n <= 32,
    ensures
        p == pow2(n as nat),
{
    let mut p: u64 = 1;
    let mut i: u32 = 0;
    proof {
        lemma2_to64();
    }
    while i < n
        invariant
            i <= n <= 32,
            p == pow2(i as nat),
            pow2(32) == 0x1_0000_0000,
        decreases n - i,
    {
        proof {
            lemma_pow2_unfold((i + 1) as nat);
            if i + 1 < 32 {
                lemma_pow2_strictly_increases((i + 1) as nat, 32);
            }
        }
        p = p * 2;
        i = i + 1;
    }
    p
}

/// The number encoded by `bits` as a 32-bit signed integer, the way a
/// conversion from floating point to integer truncates and saturates.
pub fn truncate(bits: u32) -> (r: i32)
    ensures
        r == truncated(bits),
{
    let neg: bool = bits >= SIGN_BIT;
    let mag: u32 = if neg { bits - SIGN_BIT } else { bits };
    if mag > INFINITY_BITS {
        return 0;
    }
    let e: u32 = mag / HIDDEN_BIT;
    let fraction: u32 = mag % HIDDEN_BIT;
    if e >= OVERFLOW_EXPONENT {
        proof {
            if mag != INFINITY_BITS {
                lemma2_to64();
                lemma_whole_part(bits);
                let shift = (e - INTEGER_EXPONENT) as nat;
                if shift > 8 {
                    lemma_pow2_strictly_increases(8, shift);
                }
                assert(significand(bits) * pow2(shift) >= 0x80_0000 * 256) by (nonlinear_arith)
                    requires
                        significand(bits) >= 0x80_0000,
                        pow2(shift) >= 256,
                ;
            }
        }
        return if neg { i32::MIN } else { i32::MAX };
    }
    if e < UNIT_EXPONENT {
        proof {
            lemma2_to64();
            lemma_whole_part(bits);
            let e1 = if e == 0 { 1 } else { e as int };
            let shift = (INTEGER_EXPONENT - e1) as nat;
            if shift > 24 {
                lemma_pow2_strictly_increases(24, shift);
            }
            vstd::arithmetic::div_mod::lemma_basic_div(significand(bits), pow2(shift) as int);
        }
        return 0;
    }
    let sig: u64 = fraction as u64 + HIDDEN_BIT as u64;
    proof {
        lemma_whole_part(bits);
    }
    let whole: u64 = if e >= INTEGER_EXPONENT {
        let p: u64 = power_of_two(e - INTEGER_EXPONENT);
        proof {
            lemma2_to64();
            let shift = (e - INTEGER_EXPONENT) as nat;
            if shift < 7 {
                lemma_pow2_strictly_increases(shift, 7);
            }
            assert(sig * p <= 0xff_ffff * 128) by (nonlinear_arith)
                requires
                    sig <= 0xff_ffff,
                    p <= 128,
            ;
        }
        sig * p
    } else {
        let p: u64 = power_of_two(INTEGER_EXPONENT - e);
        proof {
            lemma_pow2_pos((INTEGER_EXPONENT - e) as nat);
        }
        sig / p
    };
    if neg {
        -(whole as i64) as i32
    } else {
        whole as i32
    }
}

fn signed_key(bits: u32) -> (k: i64)
    ensures
        k == order_key(bits),
{
    if bits >= SIGN_BIT {
        -((bits - SIGN_BIT) as i64)
    } else {
        bits as i64
    }
}

} // verus!
