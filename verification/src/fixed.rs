//! Saturating fixed-point arithmetic over 128-bit bit patterns.
//!
//! A fixed-point number with `F` fractional bits is stored as its raw bit
//! pattern: the rational value `v` is represented by the integer
//! `v * 2^F`.  Three unsigned layouts (18, 32 and 64 fractional bits) and
//! two signed layouts (32 and 64 fractional bits) cover every computation
//! in the engine.  Every operation rounds toward negative infinity and
//! saturates at the representable range instead of trapping, and division
//! by zero (or a quotient too large to represent) yields zero, so all
//! operations are total and reproducible bit for bit.

use vstd::prelude::*;
use vstd::arithmetic::div_mod::lemma_fundamental_div_mod;
use vstd::arithmetic::div_mod::lemma_fundamental_div_mod_converse;
use vstd::arithmetic::power2::pow2;
use vstd::arithmetic::power2::lemma_pow2_adds;
use vstd::arithmetic::power2::lemma_pow2_strictly_increases;
use vstd::arithmetic::power2::lemma2_to64;

verus! {

/// One whole unit at 18 fractional bits.
pub const SCALE18: u128 = 0x40000;

/// One whole unit at 32 fractional bits.
pub const SCALE32: u128 = 0x1_0000_0000;

/// One whole unit at 64 fractional bits.
pub const SCALE64: u128 = 0x1_0000_0000_0000_0000;

/// Cofactor of `SCALE18`: `SCALE18 * COSCALE18 == 2^128`.
pub const COSCALE18: u128 = 0x4000_0000_0000_0000_0000_0000_0000;

/// Cofactor of `SCALE32`: `SCALE32 * COSCALE32 == 2^128`.
pub const COSCALE32: u128 = 0x1_0000_0000_0000_0000_0000_0000;

/// Cofactor of `SCALE64`: `SCALE64 * COSCALE64 == 2^128`.
pub const COSCALE64: u128 = 0x1_0000_0000_0000_0000;

/// `2^128` as a mathematical integer, the weight of the high half of a
/// 256-bit product.
pub open spec fn two_128() -> int {
    0x1_0000_0000_0000_0000_0000_0000_0000_0000int
}

/// Clamp a mathematical integer into the `u128` range.
pub open spec fn sat_u128(x: int) -> int {
    if x < 0 {
        0
    } else if x > u128::MAX {
        u128::MAX as int
    } else {
        x
    }
}

/// Clamp a mathematical integer into the `u64` range.
pub open spec fn sat_u64(x: int) -> int {
    if x < 0 {
        0
    } else if x > u64::MAX {
        u64::MAX as int
    } else {
        x
    }
}

/// Clamp a mathematical integer into the `i128` range.
pub open spec fn sat_i128(x: int) -> int {
    if x < i128::MIN {
        i128::MIN as int
    } else if x > i128::MAX {
        i128::MAX as int
    } else {
        x
    }
}

/// Saturating product of two unsigned bit patterns sharing the unit `one`:
/// the exact product of the rationals, floored to the representation.
pub open spec fn fix_mul_spec(a: int, b: int, one: int) -> int {
    sat_u128((a * b) / one)
}

/// Division of unsigned bit patterns sharing the unit `one`.  A zero
/// divisor and a quotient beyond the range both yield zero (the engine
/// never traps on a division).
pub open spec fn fix_div_spec(a: int, b: int, one: int) -> int {
    if b == 0 {
        0
    } else if (a * one) / b > u128::MAX {
        0
    } else {
        (a * one) / b
    }
}

/// Saturating product of two signed bit patterns sharing the unit `one`,
/// rounding toward negative infinity as a two's-complement shift does.
pub open spec fn sfix_mul_spec(a: int, b: int, one: int) -> int {
    sat_i128((a * b) / one)
}

/// Unsigned addition with an explicit carry bit.
fn add_carry(x: u128, y: u128) -> (r: (u128, u128))
    ensures
        x + y == r.1 * two_128() + r.0,
        r.1 <= 1,
{
    if x > u128::MAX - y {
        (x - (u128::MAX - y) - 1, 1)
    } else {
        (x + y, 0)
    }
}

/// Full 256-bit product of two 128-bit integers, returned as (high, low)
/// 128-bit halves.
pub(crate) fn wide_mul(a: u128, b: u128) -> (r: (u128, u128))
    ensures
        a * b == r.0 * two_128() + r.1,
{
    let ah: u128 = a / SCALE64;
    let al: u128 = a % SCALE64;
    let bh: u128 = b / SCALE64;
    let bl: u128 = b % SCALE64;
    proof {
        lemma_fundamental_div_mod(a as int, SCALE64 as int);
        lemma_fundamental_div_mod(b as int, SCALE64 as int);
        assert(ah < SCALE64 && bh < SCALE64) by (nonlinear_arith)
            requires
                ah == a / SCALE64,
                bh == b / SCALE64,
                a <= u128::MAX,
                b <= u128::MAX,
        ;
    }
    assert(al * bl <= u128::MAX && al * bh <= u128::MAX && ah * bl <= u128::MAX && ah * bh
        <= u128::MAX) by (nonlinear_arith)
        requires
            al < SCALE64 && bl < SCALE64 && ah < SCALE64 && bh < SCALE64,
    ;
    let pll: u128 = al * bl;
    let plh: u128 = al * bh;
    let phl: u128 = ah * bl;
    let phh: u128 = ah * bh;
    let plh_hi: u128 = plh / SCALE64;
    let plh_lo: u128 = plh % SCALE64;
    let phl_hi: u128 = phl / SCALE64;
    let phl_lo: u128 = phl % SCALE64;
    proof {
        lemma_fundamental_div_mod(plh as int, SCALE64 as int);
        lemma_fundamental_div_mod(phl as int, SCALE64 as int);
        assert(plh_lo * SCALE64 <= u128::MAX && phl_lo * SCALE64 <= u128::MAX) by (nonlinear_arith)
            requires
                plh_lo < SCALE64 && phl_lo < SCALE64,
        ;
        assert(plh_hi < SCALE64 && phl_hi < SCALE64) by (nonlinear_arith)
            requires
                plh <= u128::MAX,
                phl <= u128::MAX,
                plh_hi == plh / SCALE64,
                phl_hi == phl / SCALE64,
        ;
    }
    let (lo1, c1) = add_carry(pll, plh_lo * SCALE64);
    let (lo, c2) = add_carry(lo1, phl_lo * SCALE64);
    proof {
        // Each cross-term high half is at most SCALE64 - 2, which leaves
        // room for both carries next to the top product.
        assert(plh_hi <= SCALE64 - 2 && phl_hi <= SCALE64 - 2) by (nonlinear_arith)
            requires
                plh == al * bh,
                phl == ah * bl,
                al < SCALE64 && bh < SCALE64 && ah < SCALE64 && bl < SCALE64,
                plh_hi == plh / SCALE64,
                phl_hi == phl / SCALE64,
        ;
        assert(phh + plh_hi + phl_hi + 2 < two_128()) by (nonlinear_arith)
            requires
                phh == ah * bh,
                ah < SCALE64 && bh < SCALE64,
                plh_hi <= SCALE64 - 2 && phl_hi <= SCALE64 - 2,
                two_128() == SCALE64 * SCALE64,
        ;
    }
    let hi: u128 = phh + plh_hi + phl_hi + c1 + c2;
    proof {
        let two128: int = two_128();
        assert(a * b == phh * two128 + plh * SCALE64 + phl * SCALE64 + pll) by (nonlinear_arith)
            requires
                a == ah * SCALE64 + al,
                b == bh * SCALE64 + bl,
                pll == al * bl,
                plh == al * bh,
                phl == ah * bl,
                phh == ah * bh,
                two128 == SCALE64 * SCALE64,
        ;
        assert(plh * SCALE64 == plh_hi * two128 + plh_lo * SCALE64) by (nonlinear_arith)
            requires
                plh == plh_hi * SCALE64 + plh_lo,
                two128 == SCALE64 * SCALE64,
        ;
        assert(phl * SCALE64 == phl_hi * two128 + phl_lo * SCALE64) by (nonlinear_arith)
            requires
                phl == phl_hi * SCALE64 + phl_lo,
                two128 == SCALE64 * SCALE64,
        ;
    }
    (hi, lo)
}

/// Saturating `(a * b) / d` where `d * e == 2^128`; the core of every
/// unsigned fixed-point multiplication.
pub(crate) fn mul_div_sat(a: u128, b: u128, d: u128, e: u128) -> (r: u128)
    requires
        1 <= d,
        d * e == two_128(),
    ensures
        r == fix_mul_spec(a as int, b as int, d as int),
{
    let (hi, lo) = wide_mul(a, b);
    if hi >= d {
        proof {
            assert((a * b) / (d as int) > u128::MAX) by (nonlinear_arith)
                requires
                    a * b == hi * two_128() + lo,
                    hi >= d,
                    1 <= d,
                    lo >= 0,
            ;
        }
        u128::MAX
    } else {
        proof {
            assert(hi * e <= two_128() - e && lo / d <= e - 1 && e >= 1) by (nonlinear_arith)
                requires
                    hi < d,
                    1 <= d,
                    d * e == two_128(),
                    lo <= u128::MAX,
            ;
            lemma_fundamental_div_mod(lo as int, d as int);
            assert(a * b == (hi * e + lo / d) * d + lo % d) by (nonlinear_arith)
                requires
                    a * b == hi * two_128() + lo,
                    d * e == two_128(),
                    lo == (lo / d) * d + lo % d,
            ;
            lemma_fundamental_div_mod_converse(
                (a * b) as int,
                d as int,
                (hi * e + lo / d) as int,
                (lo % d) as int,
            );
        }
        hi * e + lo / d
    }
}

/// Quotient `(r0 * d) / b` for `r0 < b` and `d == 2^f`, by binary long
/// division, one quotient bit per iteration.
fn rem_scale_div(r0: u128, b: u128, d: u128, f: u32) -> (r: u128)
    requires
        1 <= b,
        r0 < b,
        1 <= f <= 64,
        d == pow2(f as nat),
    ensures
        r == (r0 * d) / (b as int),
        r < d,
{
    proof {
        lemma2_to64();
        if f < 64 {
            lemma_pow2_strictly_increases(f as nat, 64);
        }
    }
    let mut q: u128 = 0;
    let mut r: u128 = r0;
    let mut i: u32 = 0;
    while i < f
        invariant
            i <= f <= 64,
            1 <= b,
            r < b,
            r0 < b,
            d == pow2(f as nat),
            d <= 0x1_0000_0000_0000_0000,
            q * b + r == r0 * pow2(i as nat),
            q < pow2(i as nat),
        decreases f - i,
    {
        proof {
            lemma2_to64();
            lemma_pow2_adds(i as nat, 1);
            lemma_pow2_strictly_increases(i as nat, f as nat);
            assert(r0 * pow2((i + 1) as nat) == 2 * (r0 * pow2(i as nat))) by (nonlinear_arith)
                requires
                    pow2((i + 1) as nat) == 2 * pow2(i as nat),
            ;
            assert((2 * q + 1) * b == 2 * (q * b) + b && (2 * q) * b == 2 * (q * b))
                by (nonlinear_arith);
        }
        if r >= b - r {
            q = 2 * q + 1;
            r = r - (b - r);
        } else {
            q = 2 * q;
            r = 2 * r;
        }
        i = i + 1;
    }
    proof {
        assert(q < d) by (nonlinear_arith)
            requires
                q * b + r == r0 * d,
                r0 < b,
                r >= 0,
                1 <= b,
                1 <= d,
        ;
        lemma_fundamental_div_mod_converse((r0 * d) as int, b as int, q as int, r as int);
    }
    q
}

/// Saturating-to-zero `(a * d) / b` where `d == 2^f`; the core of every
/// unsigned fixed-point division.  A zero divisor or an unrepresentable
/// quotient yields zero.
pub(crate) fn scale_div(a: u128, b: u128, d: u128, f: u32) -> (r: u128)
    requires
        1 <= f <= 64,
        d == pow2(f as nat),
    ensures
        r == fix_div_spec(a as int, b as int, d as int),
{
    proof {
        lemma2_to64();
        if f < 64 {
            lemma_pow2_strictly_increases(f as nat, 64);
        }
    }
    if b == 0 {
        return 0;
    }
    let q0: u128 = a / b;
    let r0: u128 = a % b;
    proof {
        vstd::arithmetic::power2::lemma_pow2_pos(f as nat);
        lemma_fundamental_div_mod(a as int, b as int);
        lemma_fundamental_div_mod(u128::MAX as int, d as int);
    }
    if q0 > u128::MAX / d {
        proof {
            assert(q0 * d > u128::MAX) by (nonlinear_arith)
                requires
                    q0 > u128::MAX / d,
                    u128::MAX / d * d + u128::MAX % d == u128::MAX,
                    0 <= u128::MAX % d < d,
                    1 <= d,
            ;
            assert((a * d) / (b as int) > u128::MAX) by (nonlinear_arith)
                requires
                    a == q0 * b + r0,
                    0 <= r0 < b,
                    1 <= b,
                    1 <= d,
                    q0 * d > u128::MAX,
            ;
        }
        return 0;
    }
    proof {
        assert(q0 * d <= u128::MAX) by (nonlinear_arith)
            requires
                q0 <= u128::MAX / d,
                u128::MAX / d * d + u128::MAX % d == u128::MAX,
                0 <= u128::MAX % d,
                1 <= d,
        ;
    }
    let high: u128 = q0 * d;
    let qf: u128 = rem_scale_div(r0, b, d, f);
    proof {
        lemma_fundamental_div_mod((r0 * d) as int, b as int);
        let bd: int = b as int;
        assert(a * d == (q0 * d + (r0 * d) / bd) * bd + (r0 * d) % bd) by (nonlinear_arith)
            requires
                a == q0 * b + r0,
                bd == b as int,
                r0 * d == ((r0 * d) / bd) * bd + (r0 * d) % bd,
        ;
        lemma_fundamental_div_mod_converse(
            a * d,
            bd,
            q0 * d + (r0 * d) / bd,
            (r0 * d) % bd,
        );
    }
    if qf > u128::MAX - high {
        return 0;
    }
    high + qf
}

/// Signed division of nonnegative bit patterns sharing the unit `one`.
/// A zero divisor and a quotient beyond the signed range both yield zero.
pub open spec fn sfix_div_spec(a: int, b: int, one: int) -> int {
    if b == 0 {
        0
    } else if (a * one) / b > i128::MAX {
        0
    } else {
        (a * one) / b
    }
}

/// Unsigned fixed point, 18 fractional bits; the layout of the pool
/// reserve arithmetic.
#[derive(Clone, Copy, PartialEq, Eq, Structural, Debug)]
pub struct UFix18 {
    pub bits: u128,
}

/// Unsigned fixed point, 32 fractional bits; the layout of prices,
/// smoothing factors and proportion weights.
#[derive(Clone, Copy, PartialEq, Eq, Structural, Debug)]
pub struct UFix32 {
    pub bits: u128,
}

/// Unsigned fixed point, 64 fractional bits; the layout of share-ledger
/// shares and denominators.
#[derive(Clone, Copy, PartialEq, Eq, Structural, Debug)]
pub struct UFix64 {
    pub bits: u128,
}

/// Signed fixed point, 32 fractional bits; the layout of the moving-price
/// smoothing curve.
#[derive(Clone, Copy, PartialEq, Eq, Structural, Debug)]
pub struct IFix32 {
    pub bits: i128,
}

/// Signed fixed point, 64 fractional bits; the layout of combined stake
/// weights.
#[derive(Clone, Copy, PartialEq, Eq, Structural, Debug)]
pub struct IFix64 {
    pub bits: i128,
}

impl UFix18 {
    /// Exact conversion from a whole token amount.
    pub fn from_u64(v: u64) -> (r: Self)
        ensures
            r.bits == v * SCALE18,
    {
        UFix18 { bits: (v as u128) * SCALE18 }
    }

    /// Raw bit pattern, for tests and callers that know the layout.
    pub fn from_bits(bits: u128) -> (r: Self)
        ensures
            r.bits == bits,
    {
        UFix18 { bits }
    }

    /// Whole part, clamped into `u64`.
    pub fn to_u64_sat(self) -> (r: u64)
        ensures
            r == sat_u64(self.bits as int / SCALE18 as int),
    {
        let q: u128 = self.bits / SCALE18;
        if q > u64::MAX as u128 {
            u64::MAX
        } else {
            q as u64
        }
    }

    pub fn saturating_mul(self, o: Self) -> (r: Self)
        ensures
            r.bits == fix_mul_spec(self.bits as int, o.bits as int, SCALE18 as int),
    {
        UFix18 { bits: mul_div_sat(self.bits, o.bits, SCALE18, COSCALE18) }
    }

    pub fn safe_div(self, o: Self) -> (r: Self)
        ensures
            r.bits == fix_div_spec(self.bits as int, o.bits as int, SCALE18 as int),
    {
        proof {
            lemma2_to64();
        }
        UFix18 { bits: scale_div(self.bits, o.bits, SCALE18, 18) }
    }

    pub fn saturating_add(self, o: Self) -> (r: Self)
        ensures
            r.bits == sat_u128(self.bits + o.bits),
    {
        UFix18 { bits: self.bits.saturating_add(o.bits) }
    }

    pub fn saturating_sub(self, o: Self) -> (r: Self)
        ensures
            r.bits == sat_u128(self.bits - o.bits),
    {
        UFix18 { bits: self.bits.saturating_sub(o.bits) }
    }
}

impl UFix32 {
    /// Exact conversion from a whole token amount.
    pub fn from_u64(v: u64) -> (r: Self)
        ensures
            r.bits == v * SCALE32,
    {
        UFix32 { bits: (v as u128) * SCALE32 }
    }

    /// Raw bit pattern, for tests and callers that know the layout.
    pub fn from_bits(bits: u128) -> (r: Self)
        ensures
            r.bits == bits,
    {
        UFix32 { bits }
    }

    /// Whole part, clamped into `u64`.
    pub fn to_u64_sat(self) -> (r: u64)
        ensures
            r == sat_u64(self.bits as int / SCALE32 as int),
    {
        let q: u128 = self.bits / SCALE32;
        if q > u64::MAX as u128 {
            u64::MAX
        } else {
            q as u64
        }
    }

    pub fn saturating_mul(self, o: Self) -> (r: Self)
        ensures
            r.bits == fix_mul_spec(self.bits as int, o.bits as int, SCALE32 as int),
    {
        UFix32 { bits: mul_div_sat(self.bits, o.bits, SCALE32, COSCALE32) }
    }

    pub fn safe_div(self, o: Self) -> (r: Self)
        ensures
            r.bits == fix_div_spec(self.bits as int, o.bits as int, SCALE32 as int),
    {
        proof {
            lemma2_to64();
        }
        UFix32 { bits: scale_div(self.bits, o.bits, SCALE32, 32) }
    }

    pub fn saturating_add(self, o: Self) -> (r: Self)
        ensures
            r.bits == sat_u128(self.bits + o.bits),
    {
        UFix32 { bits: self.bits.saturating_add(o.bits) }
    }

    pub fn saturating_sub(self, o: Self) -> (r: Self)
        ensures
            r.bits == sat_u128(self.bits - o.bits),
    {
        UFix32 { bits: self.bits.saturating_sub(o.bits) }
    }

    /// Floor square root in the fixed layout: the largest representable
    /// value whose square does not exceed this one.
    pub fn fixed_sqrt(self) -> (r: UFix32)
        ensures
            r.bits * r.bits <= self.bits * SCALE32,
            (r.bits + 1) * (r.bits + 1) > self.bits * SCALE32,
    {
        let v: u128 = self.bits;
        let ghost target: int = v as int * SCALE32 as int;
        let th: u128 = v / COSCALE32;
        let tl: u128 = (v % COSCALE32) * SCALE32;
        proof {
            lemma_fundamental_div_mod(v as int, COSCALE32 as int);
            assert(tl <= u128::MAX && target == th * two_128() + tl) by (nonlinear_arith)
                requires
                    target == v * SCALE32,
                    v == (v / COSCALE32) * COSCALE32 + v % COSCALE32,
                    0 <= v % COSCALE32 < COSCALE32,
                    th == v / COSCALE32,
                    tl == (v % COSCALE32) * SCALE32,
                    two_128() == COSCALE32 * SCALE32,
                    SCALE32 * COSCALE32 == two_128(),
            ;
        }
        let mut low: u128 = 0;
        let mut high: u128 = 0x1_0000_0000_0000_0000_0000;
        proof {
            assert(high * high > target) by (nonlinear_arith)
                requires
                    high == 0x1_0000_0000_0000_0000_0000u128,
                    target == v * SCALE32,
                    v <= u128::MAX,
                    SCALE32 == 0x1_0000_0000,
            ;
        }
        while high - low > 1
            invariant
                low < high <= 0x1_0000_0000_0000_0000_0000u128,
                low * low <= target,
                high * high > target,
                target == v * SCALE32,
                target == th * two_128() + tl,
                tl <= u128::MAX,
                th == v / COSCALE32,
            decreases high - low,
        {
            let mid: u128 = low + (high - low) / 2;
            let (ph, pl) = wide_mul(mid, mid);
            if ph < th || (ph == th && pl <= tl) {
                low = mid;
            } else {
                high = mid;
            }
        }
        UFix32 { bits: low }
    }

    /// Clamping conversion into the signed layout with the same unit.
    pub fn to_ifix32_sat(self) -> (r: IFix32)
        ensures
            r.bits == sat_i128(self.bits as int),
    {
        if self.bits > i128::MAX as u128 {
            IFix32 { bits: i128::MAX }
        } else {
            IFix32 { bits: self.bits as i128 }
        }
    }
}

impl UFix64 {
    /// Exact conversion from a whole token amount.
    pub fn from_u64(v: u64) -> (r: Self)
        ensures
            r.bits == v * SCALE64,
    {
        UFix64 { bits: (v as u128) * SCALE64 }
    }

    /// Raw bit pattern, for tests and callers that know the layout.
    pub fn from_bits(bits: u128) -> (r: Self)
        ensures
            r.bits == bits,
    {
        UFix64 { bits }
    }

    /// Whole part; at 64 fractional bits it always fits in `u64`.
    pub fn to_u64_sat(self) -> (r: u64)
        ensures
            r == self.bits as int / SCALE64 as int,
    {
        let q: u128 = self.bits / SCALE64;
        proof {
            assert(q <= u64::MAX) by (nonlinear_arith)
                requires
                    q == self.bits / SCALE64,
                    self.bits <= u128::MAX,
            ;
        }
        q as u64
    }

    pub fn saturating_mul(self, o: Self) -> (r: Self)
        ensures
            r.bits == fix_mul_spec(self.bits as int, o.bits as int, SCALE64 as int),
    {
        UFix64 { bits: mul_div_sat(self.bits, o.bits, SCALE64, COSCALE64) }
    }

    pub fn safe_div(self, o: Self) -> (r: Self)
        ensures
            r.bits == fix_div_spec(self.bits as int, o.bits as int, SCALE64 as int),
    {
        proof {
            lemma2_to64();
        }
        UFix64 { bits: scale_div(self.bits, o.bits, SCALE64, 64) }
    }

    pub fn saturating_add(self, o: Self) -> (r: Self)
        ensures
            r.bits == sat_u128(self.bits + o.bits),
    {
        UFix64 { bits: self.bits.saturating_add(o.bits) }
    }

    pub fn saturating_sub(self, o: Self) -> (r: Self)
        ensures
            r.bits == sat_u128(self.bits - o.bits),
    {
        UFix64 { bits: self.bits.saturating_sub(o.bits) }
    }
}

impl IFix32 {
    /// Exact conversion from a small signed whole number.
    pub fn from_i64(v: i64) -> (r: Self)
        ensures
            r.bits == v * SCALE32,
    {
        proof {
            assert(i128::MIN <= v * SCALE32 <= i128::MAX) by (nonlinear_arith)
                requires
                    i64::MIN <= v <= i64::MAX,
                    SCALE32 == 0x1_0000_0000,
            ;
        }
        IFix32 { bits: (v as i128) * (SCALE32 as i128) }
    }

    /// Raw bit pattern, for tests and callers that know the layout.
    pub fn from_bits(bits: i128) -> (r: Self)
        ensures
            r.bits == bits,
    {
        IFix32 { bits }
    }

    /// Whole part, clamped into `u64`; negative values clamp to zero.
    pub fn to_u64_sat(self) -> (r: u64)
        ensures
            r == sat_u64(if self.bits >= 0 {
                self.bits as int / SCALE32 as int
            } else {
                self.bits as int
            }),
    {
        if self.bits < 0 {
            return 0;
        }
        let q: i128 = self.bits / (SCALE32 as i128);
        if q > u64::MAX as i128 {
            u64::MAX
        } else {
            q as u64
        }
    }

    /// Clamping conversion into the unsigned layout with the same unit;
    /// negative values clamp to zero.
    pub fn to_ufix32_sat(self) -> (r: UFix32)
        ensures
            r.bits == sat_u128(self.bits as int),
    {
        if self.bits < 0 {
            UFix32 { bits: 0 }
        } else {
            UFix32 { bits: self.bits as u128 }
        }
    }

    /// Magnitude of the bit pattern as an unsigned integer.
    fn magnitude(self) -> (r: u128)
        ensures
            r == if self.bits >= 0 {
                self.bits as int
            } else {
                -(self.bits as int)
            },
    {
        if self.bits >= 0 {
            self.bits as u128
        } else {
            ((-1 - self.bits) as u128) + 1
        }
    }

    pub fn saturating_mul(self, o: Self) -> (r: Self)
        ensures
            r.bits == sfix_mul_spec(self.bits as int, o.bits as int, SCALE32 as int),
    {
        let neg: bool = (self.bits < 0) != (o.bits < 0);
        let ma: u128 = self.magnitude();
        let mb: u128 = o.magnitude();
        let (hi, lo) = wide_mul(ma, mb);
        let ghost prod: int = ma as int * mb as int;
        proof {
            lemma_fundamental_div_mod(lo as int, SCALE32 as int);
            assert(self.bits as int * o.bits as int == if neg {
                -prod
            } else {
                prod
            }) by (nonlinear_arith)
                requires
                    prod == ma as int * mb as int,
                    ma == if self.bits >= 0 {
                        self.bits as int
                    } else {
                        -(self.bits as int)
                    },
                    mb == if o.bits >= 0 {
                        o.bits as int
                    } else {
                        -(o.bits as int)
                    },
                    neg == ((self.bits < 0) != (o.bits < 0)),
            ;
        }
        // Magnitude of the floored quotient, saturated high.
        let q: u128 = if hi >= SCALE32 {
            proof {
                assert(prod / (SCALE32 as int) > u128::MAX) by (nonlinear_arith)
                    requires
                        prod == hi * two_128() + lo,
                        hi >= SCALE32,
                        lo >= 0,
                        two_128() == SCALE32 * COSCALE32,
                ;
            }
            u128::MAX
        } else {
            proof {
                assert(hi * COSCALE32 <= two_128() - COSCALE32 && lo / SCALE32 < COSCALE32)
                    by (nonlinear_arith)
                    requires
                        hi < SCALE32,
                        lo <= u128::MAX,
                        two_128() == SCALE32 * COSCALE32,
                ;
                assert(prod == (hi * COSCALE32 + lo / SCALE32) * SCALE32 + lo % SCALE32)
                    by (nonlinear_arith)
                    requires
                        prod == hi * two_128() + lo,
                        two_128() == SCALE32 * COSCALE32,
                        lo == (lo / SCALE32) * SCALE32 + lo % SCALE32,
                ;
                lemma_fundamental_div_mod_converse(
                    prod,
                    SCALE32 as int,
                    hi as int * COSCALE32 as int + lo as int / SCALE32 as int,
                    (lo % SCALE32) as int,
                );
            }
            hi * COSCALE32 + lo / SCALE32
        };
        if !neg {
            if q > i128::MAX as u128 {
                IFix32 { bits: i128::MAX }
            } else {
                IFix32 { bits: q as i128 }
            }
        } else {
            // Floor of a negative quotient: negate, rounding away from zero
            // when the division was inexact.
            let rem_nonzero: bool = lo % SCALE32 != 0;
            proof {
                assert((-prod) / (SCALE32 as int) == if prod % (SCALE32 as int) == 0 {
                    -(prod / (SCALE32 as int))
                } else {
                    -(prod / (SCALE32 as int)) - 1
                }) by (nonlinear_arith)
                    requires
                        prod >= 0,
                        prod == (prod / (SCALE32 as int)) * SCALE32 + prod % (SCALE32 as int),
                        0 <= prod % (SCALE32 as int) < SCALE32,
                ;
                lemma_fundamental_div_mod(prod, SCALE32 as int);
            }
            if q >= 0x8000_0000_0000_0000_0000_0000_0000_0000u128 {
                IFix32 { bits: i128::MIN }
            } else if rem_nonzero {
                IFix32 { bits: -(q as i128) - 1 }
            } else {
                IFix32 { bits: -(q as i128) }
            }
        }
    }

    pub fn saturating_add(self, o: Self) -> (r: Self)
        ensures
            r.bits == sat_i128(self.bits + o.bits),
    {
        match self.bits.checked_add(o.bits) {
            Some(v) => IFix32 { bits: v },
            None => {
                if self.bits > 0 {
                    IFix32 { bits: i128::MAX }
                } else {
                    IFix32 { bits: i128::MIN }
                }
            },
        }
    }

    /// Division for nonnegative operands; zero divisor and overflow yield
    /// zero.
    pub fn safe_div(self, o: Self) -> (r: Self)
        requires
            self.bits >= 0,
            o.bits >= 0,
        ensures
            r.bits == sfix_div_spec(self.bits as int, o.bits as int, SCALE32 as int),
    {
        proof {
            lemma2_to64();
        }
        let q: u128 = scale_div(self.bits as u128, o.bits as u128, SCALE32, 32);
        if q > i128::MAX as u128 {
            IFix32 { bits: 0 }
        } else {
            IFix32 { bits: q as i128 }
        }
    }

    /// Absolute value, saturating at the top of the range.
    pub fn saturating_abs(self) -> (r: Self)
        ensures
            r.bits == sat_i128(if self.bits >= 0 {
                self.bits as int
            } else {
                -(self.bits as int)
            }),
    {
        if self.bits >= 0 {
            self
        } else if self.bits == i128::MIN {
            IFix32 { bits: i128::MAX }
        } else {
            IFix32 { bits: -self.bits }
        }
    }

    /// Ceiling of a nonnegative value, as a whole number.
    pub fn ceil_to_u32(self) -> (r: u32)
        requires
            0 <= self.bits,
            self.bits as int + SCALE32 <= i128::MAX,
            (self.bits as int + SCALE32 - 1) / SCALE32 as int <= u32::MAX,
        ensures
            r == (self.bits as int + SCALE32 - 1) / SCALE32 as int,
    {
        let q: i128 = (self.bits + (SCALE32 as i128) - 1) / (SCALE32 as i128);
        q as u32
    }

    /// The smaller of two values.
    pub fn min_with(self, o: Self) -> (r: Self)
        ensures
            r.bits == if self.bits <= o.bits {
                self.bits
            } else {
                o.bits
            },
    {
        if self.bits <= o.bits {
            self
        } else {
            o
        }
    }
}

impl IFix64 {
    /// Clamping conversion from a whole token amount.
    pub fn from_u64_sat(v: u64) -> (r: Self)
        ensures
            r.bits == sat_i128(v * SCALE64),
    {
        let wide: u128 = (v as u128) * SCALE64;
        if wide > i128::MAX as u128 {
            IFix64 { bits: i128::MAX }
        } else {
            IFix64 { bits: wide as i128 }
        }
    }

    /// Raw bit pattern, for tests and callers that know the layout.
    pub fn from_bits(bits: i128) -> (r: Self)
        ensures
            r.bits == bits,
    {
        IFix64 { bits }
    }

    /// Clamping conversion from the 32-fractional-bit unsigned layout.
    pub fn from_ufix32_sat(v: UFix32) -> (r: Self)
        ensures
            r.bits == sat_i128(v.bits * SCALE32),
    {
        if v.bits > (i128::MAX as u128) / SCALE32 {
            proof {
                lemma_fundamental_div_mod(i128::MAX as int, SCALE32 as int);
                assert(v.bits * SCALE32 > i128::MAX) by (nonlinear_arith)
                    requires
                        v.bits > (i128::MAX as u128) / SCALE32,
                        i128::MAX as int == ((i128::MAX as u128) / SCALE32) * SCALE32 + (
                        i128::MAX as u128) % SCALE32,
                        0 <= (i128::MAX as u128) % SCALE32 < SCALE32,
                ;
            }
            IFix64 { bits: i128::MAX }
        } else {
            proof {
                lemma_fundamental_div_mod(i128::MAX as int, SCALE32 as int);
                assert(v.bits * SCALE32 <= i128::MAX) by (nonlinear_arith)
                    requires
                        v.bits <= (i128::MAX as u128) / SCALE32,
                        i128::MAX as int == ((i128::MAX as u128) / SCALE32) * SCALE32 + (
                        i128::MAX as u128) % SCALE32,
                        0 <= (i128::MAX as u128) % SCALE32,
                ;
            }
            IFix64 { bits: (v.bits * SCALE32) as i128 }
        }
    }

    pub fn saturating_add(self, o: Self) -> (r: Self)
        ensures
            r.bits == sat_i128(self.bits + o.bits),
    {
        match self.bits.checked_add(o.bits) {
            Some(v) => IFix64 { bits: v },
            None => {
                if self.bits > 0 {
                    IFix64 { bits: i128::MAX }
                } else {
                    IFix64 { bits: i128::MIN }
                }
            },
        }
    }

    /// Saturating product for nonnegative operands.
    pub fn saturating_mul(self, o: Self) -> (r: Self)
        requires
            self.bits >= 0,
            o.bits >= 0,
        ensures
            r.bits == sfix_mul_spec(self.bits as int, o.bits as int, SCALE64 as int),
    {
        let (hi, lo) = wide_mul(self.bits as u128, o.bits as u128);
        let ghost prod: int = self.bits as int * o.bits as int;
        if hi >= SCALE64 {
            proof {
                assert(prod / (SCALE64 as int) > i128::MAX) by (nonlinear_arith)
                    requires
                        prod == hi * two_128() + lo,
                        hi >= SCALE64,
                        lo >= 0,
                        two_128() == SCALE64 * COSCALE64,
                ;
            }
            IFix64 { bits: i128::MAX }
        } else {
            proof {
                lemma_fundamental_div_mod(lo as int, SCALE64 as int);
                assert(hi * COSCALE64 <= two_128() - COSCALE64 && lo / SCALE64 < COSCALE64)
                    by (nonlinear_arith)
                    requires
                        hi < SCALE64,
                        lo <= u128::MAX,
                        two_128() == SCALE64 * COSCALE64,
                ;
                assert(prod == (hi * COSCALE64 + lo / SCALE64) * SCALE64 + lo % SCALE64)
                    by (nonlinear_arith)
                    requires
                        prod == hi * two_128() + lo,
                        two_128() == SCALE64 * COSCALE64,
                        lo == (lo / SCALE64) * SCALE64 + lo % SCALE64,
                ;
                lemma_fundamental_div_mod_converse(
                    prod,
                    SCALE64 as int,
                    hi as int * COSCALE64 as int + lo as int / SCALE64 as int,
                    (lo % SCALE64) as int,
                );
            }
            let q: u128 = hi * COSCALE64 + lo / SCALE64;
            if q > i128::MAX as u128 {
                IFix64 { bits: i128::MAX }
            } else {
                IFix64 { bits: q as i128 }
            }
        }
    }
}

} // verus!
