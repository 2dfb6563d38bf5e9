//! A 64-bit float that compares by its integer part.
//!
//! The float is held as its IEEE 754 bit pattern, so nothing is lost while it
//! is stored. Equality, ordering and hashing look only at the value truncated
//! toward zero to a 64-bit integer: two numbers that differ only in their
//! fractional part are equal.

use core::cmp::Ordering;
use core::hash::Hash;
use core::hash::Hasher;
use vstd::arithmetic::power2::lemma2_to64;
use vstd::arithmetic::power2::lemma2_to64_rest;
use vstd::arithmetic::power2::lemma_pow2_pos;
use vstd::arithmetic::power2::lemma_pow2_strictly_increases;
use vstd::arithmetic::power2::pow2;
use vstd::bits::lemma_u64_shl_is_mul;
use vstd::prelude::*;
use vstd::std_specs::cmp::PartialEqSpec;
use vstd::std_specs::cmp::PartialEqSpecImpl;
use vstd::std_specs::cmp::PartialOrdSpec;
use vstd::std_specs::cmp::PartialOrdSpecImpl;

verus! {

/// Two to the power 52: the weight of the implicit leading bit of a
/// binary64 significand, and the divisor that separates the fraction bits
/// from the exponent bits.
pub const FRACTION_RANGE: u64 = 0x10_0000_0000_0000;

/// The exponent field of infinities and NaNs.
pub const EXPONENT_SPECIAL: u64 = 0x7ff;

/// The exponent field of 1.0.
pub const EXPONENT_BIAS: u64 = 1023;

/// The exponent field at which the significand is an integer as it stands.
pub const EXPONENT_INTEGRAL: u64 = 1075;

/// The sign bit of a binary64 bit pattern.
pub const SIGN_BIT: u64 = 0x8000_0000_0000_0000;

/// Whether the sign bit of `bits` is set.
pub open spec fn is_negative(bits: u64) -> bool {
    bits >= SIGN_BIT
}

/// The 11-bit exponent field of `bits`.
pub open spec fn exponent_field(bits: u64) -> int {
    (bits / FRACTION_RANGE) as int % 0x800
}

/// The 52-bit fraction field of `bits`.
pub open spec fn fraction_field(bits: u64) -> int {
    (bits % FRACTION_RANGE) as int
}

/// Whether `bits` encodes a NaN.
pub open spec fn is_nan(bits: u64) -> bool {
    exponent_field(bits) == EXPONENT_SPECIAL && fraction_field(bits) != 0
}

/// The absolute value of the float encoded by `bits`, rounded down to an
/// integer. An infinity counts as a value far above every 64-bit integer.
/// Meaningful only when `bits` is not a NaN.
pub open spec fn magnitude(bits: u64) -> int {
    let exponent = exponent_field(bits);
    let significand = FRACTION_RANGE + fraction_field(bits);
    if exponent < EXPONENT_BIAS {
        0
    } else if exponent < EXPONENT_INTEGRAL {
        significand / (pow2((EXPONENT_INTEGRAL - exponent) as nat) as int)
    } else {
        significand * pow2((exponent - EXPONENT_INTEGRAL) as nat)
    }
}

/// The float encoded by `bits`, truncated toward zero to a 64-bit integer:
/// zero for a NaN, the nearest bound for a value out of range.
pub open spec fn whole_part(bits: u64) -> int {
    if is_nan(bits) {
        0
    } else if is_negative(bits) {
        if magnitude(bits) >= 0x8000_0000_0000_0000 {
            i64::MIN as int
        } else {
            -magnitude(bits)
        }
    } else {
        if magnitude(bits) >= 0x8000_0000_0000_0000 {
            i64::MAX as int
        } else {
            magnitude(bits)
        }
    }
}

/// A number of the language.
#[derive(Clone, Copy, Debug)]
pub struct Number {
    bits: u64,
}

impl View for Number {
    type V = u64;

    /// The bit pattern of the float.
    closed spec fn view(&self) -> u64 {
        self.bits
    }
}

impl Number {
    /// The integer by which this number is compared.
    pub open spec fn whole(self) -> int {
        whole_part(self@)
    }

    /// The number whose float has the bit pattern `bits`.
    pub fn from_bits(bits: u64) -> (r: Number)
        ensures
            r@ == bits,
    {
        Number { bits }
    }

    /// The bit pattern of the float, exactly as it was given.
    pub fn to_bits(&self) -> (r: u64)
        ensures
            r == self@,
    {
        self.bits
    }

    /// The float truncated toward zero to a 64-bit integer.
    pub fn truncated(&self) -> (r: i64)
        ensures
            r == self.whole(),
    {
        let bits = self.bits;
        let negative = bits >= SIGN_BIT;
        let exponent: u64 = (bits / FRACTION_RANGE) % 0x800;
        let fraction: u64 = bits % FRACTION_RANGE;
        if exponent == EXPONENT_SPECIAL && fraction != 0 {
            return 0;
        }
        if exponent < EXPONENT_BIAS {
            return 0;
        }
        let significand: u64 = FRACTION_RANGE + fraction;
        if exponent >= EXPONENT_INTEGRAL + 11 {
            proof {
                lemma_magnitude_large(bits);
            }
            return if negative {
                i64::MIN
            } else {
                i64::MAX
            };
        }
        let size: u64 = if exponent >= EXPONENT_INTEGRAL {
            let shift: u64 = exponent - EXPONENT_INTEGRAL;
            proof {
                lemma_small_pow2(shift);
                lemma_u64_shl_is_mul(1, shift);
                assert(significand * pow2(shift as nat) < 0x8000_0000_0000_0000) by (nonlinear_arith)
                    requires
                        significand < 0x20_0000_0000_0000,
                        pow2(shift as nat) <= 1024,
                ;
            }
            significand * (1u64 << shift)
        } else {
            let shift: u64 = EXPONENT_INTEGRAL - exponent;
            proof {
                lemma_pow2_pos(shift as nat);
                lemma_shift_pow2(shift);
            }
            significand / (1u64 << shift)
        };
        if negative {
            0 - (size as i64)
        } else {
            size as i64
        }
    }

    /// How this number stands to `other`, by their integer parts.
    pub fn compare(&self, other: &Number) -> (r: Ordering)
        ensures
            r == order_of(self.whole(), other.whole()),
    {
        let a = self.truncated();
        let b = other.truncated();
        if a < b {
            Ordering::Less
        } else if a == b {
            Ordering::Equal
        } else {
            Ordering::Greater
        }
    }
}

/// The ordering of two integers.
pub open spec fn order_of(a: int, b: int) -> Ordering {
    if a < b {
        Ordering::Less
    } else if a == b {
        Ordering::Equal
    } else {
        Ordering::Greater
    }
}

/// `1 << shift` is two to the power `shift`, for every shift up to 52.
proof fn lemma_shift_pow2(shift: u64)
    requires
        shift <= 52,
    ensures
        (1u64 << shift) == pow2(shift as nat),
        0 < pow2(shift as nat) <= 0x10_0000_0000_0000,
{
    lemma2_to64();
    lemma2_to64_rest();
    lemma_pow2_pos(shift as nat);
    if shift < 52 {
        lemma_pow2_strictly_increases(shift as nat, 52);
    }
    lemma_u64_shl_is_mul(1, shift);
}

/// Two to a power of at most ten is at most 1024.
proof fn lemma_small_pow2(shift: u64)
    requires
        shift <= 10,
    ensures
        0 < pow2(shift as nat) <= 1024,
{
    lemma2_to64();
    lemma_pow2_pos(shift as nat);
    if shift < 10 {
        lemma_pow2_strictly_increases(shift as nat, 10);
    }
}

/// From eleven places above the integral exponent on, the magnitude is out
/// of the range of a 64-bit integer.
proof fn lemma_magnitude_large(bits: u64)
    requires
        exponent_field(bits) >= EXPONENT_INTEGRAL + 11,
    ensures
        magnitude(bits) >= 0x8000_0000_0000_0000,
{
    let exponent = exponent_field(bits);
    let places = (exponent - EXPONENT_INTEGRAL) as nat;
    let significand = FRACTION_RANGE + fraction_field(bits);
    lemma2_to64();
    if places > 11 {
        lemma_pow2_strictly_increases(11, places);
    }
    assert(significand * pow2(places) >= 0x8000_0000_0000_0000) by (nonlinear_arith)
        requires
            significand >= 0x10_0000_0000_0000,
            pow2(places) >= 2048,
    ;
}

/// Two numbers with the same integer part are equal, whatever their
/// fractions.
pub proof fn law_equal_by_integer_part(a: Number, b: Number)
    requires
        a.whole() == b.whole(),
    ensures
        PartialEqSpec::eq_spec(&a, &b),
        PartialOrdSpec::partial_cmp_spec(&a, &b) == Some(Ordering::Equal),
{
}

/// The integer part of a number is a 64-bit integer.
pub proof fn law_whole_in_range(bits: u64)
    ensures
        i64::MIN <= whole_part(bits) <= i64::MAX,
{
    let exponent = exponent_field(bits);
    let significand = FRACTION_RANGE + fraction_field(bits);
    if exponent >= EXPONENT_BIAS {
        if exponent < EXPONENT_INTEGRAL {
            let divisor = pow2((EXPONENT_INTEGRAL - exponent) as nat) as int;
            lemma_pow2_pos((EXPONENT_INTEGRAL - exponent) as nat);
            assert(significand / divisor >= 0) by (nonlinear_arith)
                requires
                    significand >= 0,
                    divisor > 0,
            ;
        } else {
            let factor = pow2((exponent - EXPONENT_INTEGRAL) as nat) as int;
            assert(significand * factor >= 0) by (nonlinear_arith)
                requires
                    significand >= 0,
                    factor >= 0,
            ;
        }
    }
}

impl PartialEq for Number {
    /// Equal integer parts.
    fn eq(&self, other: &Number) -> (r: bool) {
        self.truncated() == other.truncated()
    }
}

impl Eq for Number {

}

impl PartialEqSpecImpl for Number {
    open spec fn obeys_eq_spec() -> bool {
        true
    }

    open spec fn eq_spec(&self, other: &Number) -> bool {
        self.whole() == other.whole()
    }
}

impl PartialOrd for Number {
    /// The order of the integer parts; always some.
    fn partial_cmp(&self, other: &Number) -> (r: Option<Ordering>) {
        Some(self.compare(other))
    }
}

impl PartialOrdSpecImpl for Number {
    open spec fn obeys_partial_cmp_spec() -> bool {
        true
    }

    open spec fn partial_cmp_spec(&self, other: &Number) -> Option<Ordering> {
        Some(order_of(self.whole(), other.whole()))
    }
}

/// `Hash::hash` of std for `i64`: feeds the integer to the hasher.
pub assume_specification<H: Hasher>[ <i64 as Hash>::hash ](value: &i64, state: &mut H);

impl Hash for Number {
    /// Hashes the integer part, so that equal numbers hash alike.
    fn hash<H: Hasher>(&self, state: &mut H) {
        self.truncated().hash(state)
    }
}

} // verus!
