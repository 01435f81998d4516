//! Binary32 quantities held by their bit patterns, and exact moisture fractions.
//!
//! The thresholds of a zone and the moisture values that the store hands
//! back are IEEE-754 binary32 numbers. Here such a number is its 32 bits, and
//! ordering and range tests are decided on those bits as integers.

use vstd::prelude::*;
use vstd::arithmetic::power2::{
    lemma2_to64, lemma2_to64_rest, lemma_pow2_adds, lemma_pow2_strictly_increases,
    lemma_pow2_unfold, pow2,
};
use crate::text::{decimal_nat, padded, push_nat, push_padded, push_str};

verus! {

/// A binary32 number, held by its IEEE-754 bit pattern.
#[derive(Clone, Copy, Debug)]
pub struct Level {
    pub bits: u32,
}

/// The bits of `bits` below the sign bit.
pub open spec fn magnitude(bits: u32) -> int {
    bits as int % 0x8000_0000
}

/// Whether the sign bit of `bits` is set.
pub open spec fn sign_set(bits: u32) -> bool {
    bits >= 0x8000_0000
}

/// Whether `bits` is a NaN: all exponent bits set and a fraction that is not zero.
pub open spec fn is_nan_bits(bits: u32) -> bool {
    magnitude(bits) > 0x7f80_0000
}

/// An integer that orders the numbers that are no NaN as IEEE-754 does:
/// both zeros get 0, and numbers of one sign are ordered by their magnitude bits.
pub open spec fn order_key(bits: u32) -> int {
    if sign_set(bits) {
        -magnitude(bits)
    } else {
        magnitude(bits)
    }
}

/// `a <= b` as IEEE-754 defines it: false as soon as one side is a NaN.
pub open spec fn le_bits(a: u32, b: u32) -> bool {
    !is_nan_bits(a) && !is_nan_bits(b) && order_key(a) <= order_key(b)
}

/// `a < b` as IEEE-754 defines it: false as soon as one side is a NaN.
pub open spec fn lt_bits(a: u32, b: u32) -> bool {
    !is_nan_bits(a) && !is_nan_bits(b) && order_key(a) < order_key(b)
}

/// The bit pattern of 1.0.
pub const ONE_BITS: u32 = 0x3f80_0000;

/// Whether the number lies in the closed interval from 0.0 to 1.0.
pub open spec fn in_unit_interval(bits: u32) -> bool {
    le_bits(0, bits) && le_bits(bits, ONE_BITS)
}

impl Level {
    /// The number with the given bit pattern.
    pub fn from_bits(bits: u32) -> (l: Level)
        ensures
            l.bits == bits,
    {
        Level { bits }
    }

    /// Whether the number is a NaN.
    pub fn is_nan(&self) -> (r: bool)
        ensures
            r == is_nan_bits(self.bits),
    {
        self.bits % 0x8000_0000 > 0x7f80_0000
    }

    fn key(&self) -> (k: i64)
        ensures
            k == order_key(self.bits),
    {
        let m: i64 = (self.bits % 0x8000_0000) as i64;
        if self.bits >= 0x8000_0000 {
            -m
        } else {
            m
        }
    }

    /// `self <= other`.
    pub fn le(&self, other: &Level) -> (r: bool)
        ensures
            r == le_bits(self.bits, other.bits),
    {
        !self.is_nan() && !other.is_nan() && self.key() <= other.key()
    }

    /// `self < other`.
    pub fn lt(&self, other: &Level) -> (r: bool)
        ensures
            r == lt_bits(self.bits, other.bits),
    {
        !self.is_nan() && !other.is_nan() && self.key() < other.key()
    }

    /// `self >= other`.
    pub fn ge(&self, other: &Level) -> (r: bool)
        ensures
            r == le_bits(other.bits, self.bits),
    {
        other.le(self)
    }

    /// Whether the number lies in the closed interval from 0.0 to 1.0.
    pub fn is_unit(&self) -> (r: bool)
        ensures
            r == in_unit_interval(self.bits),
    {
        let zero = Level { bits: 0 };
        let one = Level { bits: ONE_BITS };
        zero.le(self) && self.le(&one)
    }
}

/// A moisture fraction as an exact quotient: `num / den` with `den > 0`.
#[derive(Clone, Copy, Debug)]
pub struct Moisture {
    pub num: u64,
    pub den: u64,
}

/// The exponent field of a bit pattern.
pub open spec fn exponent_field(bits: u32) -> int {
    magnitude(bits) / 0x80_0000
}

/// The integer `m` for which the magnitude of the number is `m * 2^scale`:
/// the fraction field, with the hidden bit for a normal number.
pub open spec fn significand(bits: u32) -> nat {
    let fraction = (magnitude(bits) % 0x80_0000) as nat;
    if exponent_field(bits) == 0 {
        fraction
    } else {
        fraction + 0x80_0000
    }
}

/// The power of two by which the significand is scaled.
pub open spec fn scale(bits: u32) -> int {
    if exponent_field(bits) == 0 {
        -149
    } else {
        exponent_field(bits) - 150
    }
}

/// `n / d` rounded to the nearest integer, a tie to the even one.
pub open spec fn round_half_even(n: nat, d: nat) -> nat {
    let q = n / d;
    let r = n % d;
    if 2 * r > d || (2 * r == d && q % 2 == 1) {
        q + 1
    } else {
        q
    }
}

/// The magnitude of a finite number in units of `1 / unit`, rounded to the
/// nearest unit, a tie to the even one; only for a number with a negative scale.
pub open spec fn in_units(bits: u32, unit: nat) -> nat {
    round_half_even(significand(bits) * unit, pow2((-scale(bits)) as nat))
}

/// The whole part of a finite number that is rounded to units of `1 / unit`.
pub open spec fn whole_part(bits: u32, unit: nat) -> nat {
    if scale(bits) >= 0 {
        significand(bits) * pow2(scale(bits) as nat)
    } else {
        in_units(bits, unit) / unit
    }
}

/// What is left beside the whole part, as a number of units below `unit`.
pub open spec fn unit_part(bits: u32, unit: nat) -> nat {
    if scale(bits) >= 0 {
        0
    } else {
        in_units(bits, unit) % unit
    }
}

/// The sign of a number that is no NaN: a minus wherever the sign bit is set.
pub open spec fn sign_text(bits: u32) -> Seq<char> {
    if sign_set(bits) {
        seq!['-']
    } else {
        Seq::<char>::empty()
    }
}

/// The number written with exactly three decimals, correctly rounded: `NaN`
/// for a NaN, `inf` for an infinity, a minus sign wherever the sign bit is set.
pub open spec fn fixed3(bits: u32) -> Seq<char> {
    if is_nan_bits(bits) {
        "NaN"@
    } else if magnitude(bits) == 0x7f80_0000 {
        sign_text(bits) + "inf"@
    } else {
        sign_text(bits) + decimal_nat(whole_part(bits, 1000)) + seq!['.'] + padded(
            unit_part(bits, 1000) as int,
            3,
        )
    }
}

/// The decimals of `units / 10^width` without the zeros at the end; empty for zero.
pub open spec fn decimals(units: nat, width: nat) -> Seq<char>
    decreases units,
{
    if units == 0 {
        Seq::<char>::empty()
    } else if units % 10 == 0 {
        decimals(units / 10, (width - 1) as nat)
    } else {
        padded(units as int, width)
    }
}

/// Ten to the power `width`, for a width of at most six.
pub open spec fn ten_to(width: nat) -> nat {
    if width == 0 {
        1
    } else if width == 1 {
        10
    } else if width == 2 {
        100
    } else if width == 3 {
        1000
    } else if width == 4 {
        10_000
    } else if width == 5 {
        100_000
    } else {
        1_000_000
    }
}

/// The number rounded to six decimals and written without zeros at the end,
/// and without a point where no decimal is left: `NaN` for a NaN, `inf` for
/// an infinity, a minus sign wherever the sign bit is set.
pub open spec fn compact(bits: u32) -> Seq<char> {
    if is_nan_bits(bits) {
        "NaN"@
    } else if magnitude(bits) == 0x7f80_0000 {
        sign_text(bits) + "inf"@
    } else if unit_part(bits, 1_000_000) == 0 {
        sign_text(bits) + decimal_nat(whole_part(bits, 1_000_000))
    } else {
        sign_text(bits) + decimal_nat(whole_part(bits, 1_000_000)) + seq!['.'] + decimals(
            unit_part(bits, 1_000_000),
            6,
        )
    }
}

/// Two to the power `k`.
fn power_of_two(k: u32) -> (p: u128)
    requires
        k <= 104,
    ensures
        p == pow2(k as nat),
        p <= 0x1_0000_0000_0000_0000_0000_0000_00,
{
    proof {
        lemma2_to64();
        lemma2_to64_rest();
        lemma_pow2_adds(64, 40);
        assert(pow2(104) == 0x1_0000_0000_0000_0000_0000_0000_00) by {
            assert(pow2(64) == 0x1_0000_0000_0000_0000);
            assert(pow2(40) == 0x100_0000_0000);
            assert(0x1_0000_0000_0000_0000 * 0x100_0000_0000 == 0x1_0000_0000_0000_0000_0000_0000_00int);
        }
    }
    let mut p: u128 = 1;
    let mut i: u32 = 0;
    while i < k
        invariant
            i <= k <= 104,
            p == pow2(i as nat),
            pow2(104) == 0x1_0000_0000_0000_0000_0000_0000_00,
        decreases k - i,
    {
        proof {
            lemma_pow2_unfold((i + 1) as nat);
            if i + 1 < 104 {
                lemma_pow2_strictly_increases((i + 1) as nat, 104);
            }
        }
        p = p * 2;
        i += 1;
    }
    proof {
        if k < 104 {
            lemma_pow2_strictly_increases(k as nat, 104);
        }
    }
    p
}

/// The whole part and the units beside it of a finite number that is rounded
/// to units of `1 / unit`.
fn split(level: Level, unit: u32) -> (parts: (u128, u32))
    requires
        magnitude(level.bits) < 0x7f80_0000,
        0 < unit <= 1_000_000,
    ensures
        parts.0 == whole_part(level.bits, unit as nat),
        parts.1 == unit_part(level.bits, unit as nat),
        parts.1 < unit,
{
    let bits = level.bits;
    let mag: u32 = bits % 0x8000_0000;
    let e: u32 = mag / 0x80_0000;
    let f: u32 = mag % 0x80_0000;
    let sig: u128 = if e == 0 { f as u128 } else { f as u128 + 0x80_0000 };
    assert(sig == significand(bits));
    if e >= 150 {
        let p = power_of_two(e - 150);
        assert(sig * p <= 0xff_ffff * 0x1_0000_0000_0000_0000_0000_0000_00) by (nonlinear_arith)
            requires
                sig <= 0xff_ffff,
                p <= 0x1_0000_0000_0000_0000_0000_0000_00,
        ;
        (sig * p, 0)
    } else {
        let k: u32 = if e == 0 { 149 } else { 150 - e };
        assert(k == -scale(bits));
        assert(sig * unit <= 0xff_ffff * 1_000_000) by (nonlinear_arith)
            requires
                sig <= 0xff_ffff,
                unit <= 1_000_000,
        ;
        let n: u128 = sig * unit as u128;
        let t: u128;
        if k >= 46 {
            proof {
                lemma2_to64();
                lemma2_to64_rest();
                if k > 46 {
                    lemma_pow2_strictly_increases(46, k as nat);
                }
                let d = pow2(k as nat);
                let m = n as nat;
                assert(m < d);
                assert(m / d == 0 && m % d == m) by (nonlinear_arith)
                    requires
                        0 <= m < d,
                ;
            }
            t = 0;
        } else {
            let d = power_of_two(k);
            proof {
                lemma2_to64();
                lemma2_to64_rest();
                if k < 45 {
                    lemma_pow2_strictly_increases(k as nat, 45);
                }
                lemma_pow2_strictly_increases(0, k as nat);
            }
            let q = n / d;
            let r = n % d;
            t = if 2 * r > d || (2 * r == d && q % 2 == 1) {
                q + 1
            } else {
                q
            };
        }
        assert(t == in_units(bits, unit as nat));
        (t / unit as u128, (t % unit as u128) as u32)
    }
}

/// Appends `NaN`, or the sign and `inf`, for a number that is not finite;
/// the sign alone for one that is. Returns whether the number is finite.
fn push_head(s: &mut String, level: Level) -> (finite: bool)
    ensures
        finite == (magnitude(level.bits) < 0x7f80_0000),
        final(s)@ == old(s)@ + if is_nan_bits(level.bits) {
            "NaN"@
        } else if magnitude(level.bits) == 0x7f80_0000 {
            sign_text(level.bits) + "inf"@
        } else {
            sign_text(level.bits)
        },
{
    let mag: u32 = level.bits % 0x8000_0000;
    if mag > 0x7f80_0000 {
        push_str(s, "NaN");
        return false;
    }
    if level.bits >= 0x8000_0000 {
        s.push('-');
    }
    assert(s@ =~= old(s)@ + sign_text(level.bits));
    if mag == 0x7f80_0000 {
        push_str(s, "inf");
        assert(s@ =~= old(s)@ + (sign_text(level.bits) + "inf"@));
        return false;
    }
    true
}

/// Appends the number with exactly three decimals, correctly rounded.
pub fn push_fixed3(s: &mut String, level: Level)
    ensures
        final(s)@ == old(s)@ + fixed3(level.bits),
{
    if !push_head(s, level) {
        return ;
    }
    let (whole, milli) = split(level, 1000);
    push_nat(s, whole);
    s.push('.');
    push_padded(s, milli as i64, 3);
    assert(s@ =~= old(s)@ + fixed3(level.bits));
}

/// Appends the number rounded to six decimals, without zeros at the end.
pub fn push_compact(s: &mut String, level: Level)
    ensures
        final(s)@ == old(s)@ + compact(level.bits),
{
    if !push_head(s, level) {
        return ;
    }
    let (whole, micro) = split(level, 1_000_000);
    push_nat(s, whole);
    if micro == 0 {
        assert(s@ =~= old(s)@ + compact(level.bits));
        return ;
    }
    s.push('.');
    let ghost pointed = s@;
    let mut units: u32 = micro;
    let mut width: usize = 6;
    while units % 10 == 0
        invariant
            0 < units <= micro,
            width <= 6,
            units < ten_to(width as nat),
            decimals(units as nat, width as nat) == decimals(micro as nat, 6),
            s@ == pointed,
        decreases units,
    {
        units = units / 10;
        width = width - 1;
    }
    push_padded(s, units as i64, width);
    assert(s@ =~= old(s)@ + compact(level.bits));
}

} // verus!
