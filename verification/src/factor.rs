//! Single-precision multipliers and the byte scaling that the compositor applies to
//! every channel.
//!
//! A multiplier is kept as the 32 bits of its IEEE 754 binary32 encoding, so that the
//! product of a channel byte with it, rounded as the hardware rounds and then cut
//! back to a byte, is stated and computed over integers alone.

use vstd::prelude::*;
use vstd::arithmetic::power2::*;
use vstd::bits::lemma_u64_shr_is_div;

verus! {

/// A binary32 value, held by its encoding: one sign bit, eight exponent bits and
/// twenty-three fraction bits, from the most significant bit down.
#[derive(Clone, Copy, Debug, PartialEq, Eq, Structural)]
pub struct Factor {
    pub bits: u32,
}

impl Factor {
    /// The sign bit is set: the value is negative, a negative zero, or a NaN that
    /// carries the bit.
    pub open spec fn sign_set(self) -> bool {
        self.bits >= 0x8000_0000
    }

    /// The eight exponent bits, as a number.
    pub open spec fn exponent_field(self) -> nat {
        ((self.bits / 0x80_0000) % 256) as nat
    }

    /// The twenty-three fraction bits, as a number.
    pub open spec fn fraction_field(self) -> nat {
        (self.bits % 0x80_0000) as nat
    }

    pub open spec fn is_nan(self) -> bool {
        self.exponent_field() == 255 && self.fraction_field() != 0
    }

    pub open spec fn is_infinite(self) -> bool {
        self.exponent_field() == 255 && self.fraction_field() == 0
    }

    /// The integer `m` for which a finite value has magnitude `m / 2^fraction_bits()`.
    /// Subnormal values have no hidden leading bit.
    pub open spec fn significand(self) -> nat {
        if self.exponent_field() == 0 {
            self.fraction_field()
        } else {
            0x80_0000 + self.fraction_field()
        }
    }

    /// How many binary places of `significand()` lie behind the point. Negative
    /// when the value is a multiple of a power of two above one.
    pub open spec fn fraction_bits(self) -> int {
        if self.exponent_field() == 0 {
            149
        } else {
            150 - self.exponent_field()
        }
    }
}

/// The spacing of the values with twenty-four significant bits around `p`: one up
/// to `2^24`, doubling with every further bit of `p`.
pub open spec fn ulp(p: nat) -> nat
    decreases p,
{
    if p < 0x100_0000 {
        1
    } else {
        2 * ulp(p / 2)
    }
}

/// `p` rounded to twenty-four significant bits: the nearest multiple of `ulp(p)`,
/// and of two nearest ones the even multiple.
pub open spec fn round_to_precision(p: nat) -> nat {
    let u = ulp(p);
    let q = p / u;
    let rest = p % u;
    if 2 * rest > u || (2 * rest == u && q % 2 == 1) {
        (q + 1) * u
    } else {
        q * u
    }
}

/// The byte that a channel value becomes under a multiplier: the binary32 product
/// of the two, rounded to nearest with ties to even, then cut toward zero and held
/// to the range of a byte. A NaN product gives zero.
pub open spec fn scaled(chan: u8, f: Factor) -> u8 {
    if chan == 0 || f.sign_set() || f.is_nan() {
        // zero times anything is zero or NaN; a negative product is held at zero
        0
    } else if f.is_infinite() || f.fraction_bits() <= 0 {
        // the product is at least 2^23
        if f.significand() == 0 { 0 } else { 255 }
    } else {
        let whole = round_to_precision(chan as nat * f.significand()) / pow2(
            f.fraction_bits() as nat,
        );
        if whole > 255 {
            255
        } else {
            whole as u8
        }
    }
}

proof fn lemma_ulp_positive(p: nat)
    ensures
        ulp(p) >= 1,
    decreases p,
{
    if p >= 0x100_0000 {
        lemma_ulp_positive(p / 2);
    }
}

/// Rounds a product of a byte and a significand to twenty-four significant bits.
fn round_product(p: u64) -> (r: u64)
    requires
        p < 0x1_0000_0000,
    ensures
        r == round_to_precision(p as nat),
        r < 0x2_0000_0000,
{
    let mut unit: u64 = 1;
    let mut top: u64 = p;
    while top >= 0x100_0000
        invariant
            ulp(p as nat) == unit * ulp(top as nat),
            unit >= 1,
            unit * top <= p,
            unit == 1 || top >= 0x80_0000,
            p < 0x1_0000_0000,
        decreases top,
    {
        proof {
            let t = top as int;
            let u = unit as int;
            assert((2 * u) * (t / 2) <= u * t) by (nonlinear_arith)
                requires
                    u >= 1,
                    t >= 0,
            ;
            assert(u * t >= u * 0x100_0000) by (nonlinear_arith)
                requires
                    u >= 1,
                    t >= 0x100_0000,
            ;
            assert(u * (2 * ulp((t / 2) as nat)) == (2 * u) * ulp((t / 2) as nat))
                by (nonlinear_arith);
        }
        top = top / 2;
        unit = unit * 2;
    }
    proof {
        lemma_ulp_positive(p as nat);
        assert(unit * 1 == unit) by (nonlinear_arith);
        assert(unit < 0x200) by (nonlinear_arith)
            requires
                unit * top <= p,
                p < 0x1_0000_0000,
                unit == 1 || top >= 0x80_0000,
        ;
    }
    let q: u64 = p / unit;
    let rest: u64 = p % unit;
    proof {
        let pi = p as int;
        let ui = unit as int;
        assert(pi == ui * (pi / ui) + pi % ui && 0 <= pi % ui < ui) by (nonlinear_arith)
            requires
                ui >= 1,
                pi >= 0,
        ;
        assert((pi / ui) * ui <= pi) by (nonlinear_arith)
            requires
                pi == ui * (pi / ui) + pi % ui,
                0 <= pi % ui,
        ;
        assert((pi / ui + 1) * ui == (pi / ui) * ui + ui) by (nonlinear_arith);
    }
    if 2 * rest > unit || (2 * rest == unit && q % 2 == 1) {
        (q + 1) * unit
    } else {
        q * unit
    }
}

/// Scales one channel byte by a multiplier.
pub fn scale(chan: u8, f: Factor) -> (r: u8)
    ensures
        r == scaled(chan, f),
{
    let exponent: u32 = f.bits / 0x80_0000 % 256;
    let fraction: u32 = f.bits % 0x80_0000;
    if chan == 0 || f.bits >= 0x8000_0000 {
        return 0;
    }
    if exponent == 255 {
        return if fraction == 0 { 255 } else { 0 };
    }
    if exponent >= 150 {
        return 255;
    }
    let significand: u32 = if exponent == 0 { fraction } else { 0x80_0000 + fraction };
    let places: u32 = if exponent == 0 { 149 } else { 150 - exponent };
    assert(chan as int * significand as int <= 255 * 0xff_ffff) by (nonlinear_arith)
        requires
            chan <= 255,
            significand <= 0xff_ffff,
    ;
    let rounded: u64 = round_product(chan as u64 * significand as u64);
    if places >= 40 {
        proof {
            lemma2_to64_rest();
            if places > 40 {
                lemma_pow2_strictly_increases(40, places as nat);
            }
            assert(rounded as int / pow2(places as nat) as int == 0) by (nonlinear_arith)
                requires
                    0 <= rounded < pow2(places as nat),
            ;
        }
        return 0;
    }
    proof {
        lemma_u64_shr_is_div(rounded, places as u64);
    }
    let whole: u64 = rounded >> places;
    if whole > 255 {
        255
    } else {
        whole as u8
    }
}

/// The spacing around a number below `2^24 * 2^k` is a power of two, `2^k` at
/// most.
proof fn lemma_ulp_is_power(p: nat, k: nat) -> (j: nat)
    requires
        p < 0x100_0000 * pow2(k),
    ensures
        j <= k,
        ulp(p) == pow2(j),
    decreases p,
{
    lemma2_to64();
    if p >= 0x100_0000 {
        assert(k != 0);
        lemma_pow2_unfold(k);
        let below = lemma_ulp_is_power(p / 2, (k - 1) as nat);
        lemma_pow2_unfold(below + 1);
        below + 1
    } else {
        0
    }
}

/// The multiplier one, `0x3f80_0000`, keeps every byte.
pub proof fn one_keeps_the_byte(chan: u8)
    ensures
        scaled(chan, Factor { bits: 0x3f80_0000 }) == chan,
{
    let one = Factor { bits: 0x3f80_0000 };
    assert(one.exponent_field() == 127 && one.fraction_field() == 0);
    if chan != 0 {
        let p = chan as nat * 0x80_0000;
        lemma2_to64();
        let j = lemma_ulp_is_power(p, 8);
        lemma_pow2_adds(j, (23 - j) as nat);
        let u = pow2(j) as int;
        let rest = pow2((23 - j) as nat) as int;
        lemma_pow2_pos(j);
        let c = chan as int * rest;
        assert(p == c * u) by (nonlinear_arith)
            requires
                p == chan as int * 0x80_0000,
                0x80_0000 == u * rest,
                c == chan as int * rest,
        ;
        assert(p as int / u == c && p as int % u == 0) by (nonlinear_arith)
            requires
                p == c * u,
                u >= 1,
        ;
        assert(c * u == p);
        assert(round_to_precision(p) == p);
        assert(p as int / 0x80_0000 == chan) by (nonlinear_arith)
            requires
                p == chan as int * 0x80_0000,
        ;
    }
}

/// The multiplier zero clears every byte.
pub proof fn zero_clears_the_byte(chan: u8)
    ensures
        scaled(chan, Factor { bits: 0 }) == 0,
{
    let zero = Factor { bits: 0 };
    assert(zero.exponent_field() == 0 && zero.fraction_field() == 0);
    if chan != 0 {
        lemma_pow2_pos(149);
        assert(chan as nat * 0 == 0);
        assert(ulp(0) == 1);
        assert(round_to_precision(0) == 0);
        assert(0nat / pow2(149) == 0) by (nonlinear_arith)
            requires
                pow2(149) > 0,
        ;
    }
}

} // verus!
