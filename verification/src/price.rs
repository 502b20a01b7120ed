//! Spot price and the exponential moving average of it.
//!
//! The spot price of a subnet's token is the ratio of its reserves; the
//! root subnet and Stable subnets are pegged at one.  The cached moving
//! price chases the spot price with a smoothing factor that is itself a
//! function of pool liquidity through a bounded cubic curve: deep pools
//! barely move the average, shallow pools track the spot price almost
//! immediately.  The refreshed average is clamped to never exceed the
//! spot price, so the cache is a one-sided lag.

use vstd::prelude::*;
use crate::fixed::IFix32;
use crate::fixed::UFix32;
use crate::fixed::SCALE32;
use crate::fixed::fix_div_spec;
use crate::fixed::fix_mul_spec;
use crate::fixed::sat_i128;
use crate::fixed::sat_u128;
use crate::fixed::sfix_div_spec;
use crate::fixed::sfix_mul_spec;
use crate::pallet::Mechanism;
use crate::pallet::Pallet;
use crate::pallet::ROOT_NETUID;
use crate::store::subnet_key;

verus! {

/// Reserves are scaled down by this many base units per token before
/// the liquidity measure is taken.
pub const RAO_PER_TAO: u64 = 1_000_000_000;

/// `7/2` at 32 fractional bits: the leading cubic coefficient.
pub const CUBIC_A_BITS: i128 = 15032385536;

/// `3/2` at 32 fractional bits: the linear-term coefficient.
pub const CUBIC_C_BITS: i128 = 6442450944;

/// The spot price of a subnet in fixed-point bits: reserves ratio for a
/// Dynamic subnet, parity for the root subnet and Stable subnets, zero
/// for an empty pool.
pub open spec fn alpha_price_spec(p: Pallet, netuid: u16) -> int {
    if netuid == ROOT_NETUID {
        SCALE32 as int
    } else if p.mechanism(netuid) != Mechanism::Dynamic {
        SCALE32 as int
    } else if p.alpha_in(netuid) == 0 {
        0
    } else {
        fix_div_spec(
            p.tao_reserve(netuid) * SCALE32,
            p.alpha_in(netuid) * SCALE32,
            SCALE32 as int,
        )
    }
}

/// The displayed moving price in fixed-point bits: parity for the root
/// subnet and Stable subnets, the stored average (clamped to be
/// nonnegative) otherwise.
pub open spec fn moving_price_shown_spec(p: Pallet, netuid: u16) -> int {
    if netuid == ROOT_NETUID {
        SCALE32 as int
    } else if p.mechanism(netuid) != Mechanism::Dynamic {
        SCALE32 as int
    } else {
        sat_u128(p.moving_price(netuid).bits as int)
    }
}

/// One fixed-point division of the factor by ten, iterated: the factor
/// after `n` decades.
pub open spec fn div10_iter(n: nat) -> int
    decreases n,
{
    if n == 0 {
        SCALE32 as int
    } else {
        sfix_div_spec(div10_iter((n - 1) as nat), 10 * SCALE32, SCALE32 as int)
    }
}

/// The smoothing factor for liquidity `l` against the saturation level
/// `m`, both in fixed-point bits.  At or above the level the factor is
/// one; below it, the normalized position `x = 2*l/m - 1` runs through
/// the cubic `((7/2*x^3 - 1)*x^3 + 3/2)*x - 4`, whose magnitude is
/// ceiled to a decade count `n`, and the factor is `10^-n`.
pub open spec fn ema_alpha_spec(l: int, m: int) -> int {
    if l >= m {
        SCALE32 as int
    } else {
        let il = sat_i128(l);
        let im = sat_i128(m);
        let q = sfix_div_spec(sat_i128(2 * il), im, SCALE32 as int);
        let x = sat_i128(q - SCALE32);
        let x2 = sfix_mul_spec(x, x, SCALE32 as int);
        let x3 = sfix_mul_spec(x2, x, SCALE32 as int);
        let t1 = sfix_mul_spec(CUBIC_A_BITS as int, x3, SCALE32 as int);
        let t2 = sat_i128(t1 - SCALE32);
        let t3 = sfix_mul_spec(t2, x3, SCALE32 as int);
        let t4 = sat_i128(t3 + CUBIC_C_BITS);
        let t5 = sfix_mul_spec(t4, x, SCALE32 as int);
        let f = sat_i128(t5 - 4 * SCALE32);
        let abs_f = sat_i128(if f >= 0 { f } else { -f });
        let n = (abs_f + SCALE32 - 1) / SCALE32 as int;
        sat_u128(div10_iter(n as nat))
    }
}

/// The refreshed moving price in fixed-point bits: the factor-weighted
/// blend of spot and previous moving price, clamped to the spot price.
pub open spec fn moving_update_spec(p: Pallet, netuid: u16) -> int {
    let tao_scaled = fix_div_spec(
        p.tao_reserve(netuid) * SCALE32,
        RAO_PER_TAO * SCALE32,
        SCALE32 as int,
    );
    let alpha_scaled = fix_div_spec(
        p.alpha_in(netuid) * SCALE32,
        RAO_PER_TAO * SCALE32,
        SCALE32 as int,
    );
    let k = fix_mul_spec(tao_scaled, alpha_scaled, SCALE32 as int);
    let l = sqrt_bits_spec(k);
    let factor = ema_alpha_spec(l, p.scale_max(netuid) * SCALE32);
    let one_minus = sat_u128(SCALE32 - factor);
    let weighted_current = fix_mul_spec(factor, alpha_price_spec(p, netuid), SCALE32 as int);
    let weighted_moving = fix_mul_spec(one_minus, moving_price_shown_spec(p, netuid), SCALE32 as int);
    let blend = sat_i128(sat_u128(weighted_current + weighted_moving));
    let cur = sat_i128(alpha_price_spec(p, netuid));
    if blend <= cur {
        blend
    } else {
        cur
    }
}

/// The floor square root of a fixed-point bit pattern: the unique
/// nonnegative `r` with `r^2 <= v * SCALE32 < (r+1)^2`.
pub open spec fn sqrt_bits_spec(v: int) -> int {
    choose|r: int| 0 <= r && #[trigger] (r * r) <= v * SCALE32 && (r + 1) * (r + 1) > v * SCALE32
}

/// The square-root bounds pin the root: any witness equals the chosen
/// value.
pub proof fn lemma_sqrt_bits_unique(v: int, r: int)
    requires
        0 <= r,
        r * r <= v * SCALE32,
        (r + 1) * (r + 1) > v * SCALE32,
    ensures
        r == sqrt_bits_spec(v),
{
    let w = sqrt_bits_spec(v);
    assert(0 <= w && w * w <= v * SCALE32 && (w + 1) * (w + 1) > v * SCALE32) by {
        assert(0 <= r && r * r <= v * SCALE32 && (r + 1) * (r + 1) > v * SCALE32);
    }
    if r < w {
        assert((r + 1) * (r + 1) <= w * w) by (nonlinear_arith)
            requires
                0 <= r,
                r + 1 <= w,
        ;
    }
    if w < r {
        assert((w + 1) * (w + 1) <= r * r) by (nonlinear_arith)
            requires
                0 <= w,
                w + 1 <= r,
        ;
    }
}

impl Pallet {
    /// The spot price of a subnet's token against tao: the reserves
    /// ratio, with the root subnet and Stable subnets pegged at one and
    /// an empty pool priced at zero rather than trapping.
    pub fn get_alpha_price(&self, netuid: u16) -> (r: UFix32)
        ensures
            r.bits == alpha_price_spec(*self, netuid),
    {
        if netuid == ROOT_NETUID {
            return UFix32::from_u64(1);
        }
        let mech: Mechanism = match self.subnet_mechanism.get(subnet_key(netuid)) {
            Some(m) => *m,
            None => Mechanism::Stable,
        };
        if mech != Mechanism::Dynamic {
            return UFix32::from_u64(1);
        }
        let alpha: u64 = self.alpha_in_read(netuid);
        if alpha == 0 {
            UFix32::from_u64(0)
        } else {
            UFix32::from_u64(self.tao_reserve_read(netuid)).safe_div(UFix32::from_u64(alpha))
        }
    }

    /// The cached moving price, pegged at one for the root subnet and
    /// Stable subnets.
    pub fn get_moving_alpha_price(&self, netuid: u16) -> (r: UFix32)
        ensures
            r.bits == moving_price_shown_spec(*self, netuid),
    {
        if netuid == ROOT_NETUID {
            return UFix32::from_u64(1);
        }
        let mech: Mechanism = match self.subnet_mechanism.get(subnet_key(netuid)) {
            Some(m) => *m,
            None => Mechanism::Stable,
        };
        if mech != Mechanism::Dynamic {
            return UFix32::from_u64(1);
        }
        let stored: IFix32 = match self.subnet_moving_price.get(subnet_key(netuid)) {
            Some(v) => *v,
            None => IFix32 { bits: 0 },
        };
        stored.to_ufix32_sat()
    }

    /// The EMA smoothing factor for liquidity `l` against the
    /// saturation level `liquidity_scale_max`: one at or above the
    /// level, and a power of ten below one otherwise, shrinking as
    /// liquidity grows.
    pub fn compute_alpha_for_ema(l: UFix32, liquidity_scale_max: UFix32) -> (r: UFix32)
        ensures
            r.bits == ema_alpha_spec(l.bits as int, liquidity_scale_max.bits as int),
            r.bits <= SCALE32,
    {
        if l.bits >= liquidity_scale_max.bits {
            return UFix32::from_u64(1);
        }
        let i_l_max: IFix32 = liquidity_scale_max.to_ifix32_sat();
        let i_l: IFix32 = l.to_ifix32_sat();
        let neg_one: IFix32 = IFix32::from_i64(-1);
        let two: IFix32 = IFix32::from_i64(2);
        let a: IFix32 = IFix32::from_i64(7).safe_div(two);
        let b: IFix32 = neg_one;
        let c: IFix32 = IFix32::from_i64(3).safe_div(two);
        let d: IFix32 = neg_one.saturating_mul(IFix32::from_i64(4));
        proof {
            assert(a.bits == CUBIC_A_BITS && c.bits == CUBIC_C_BITS && d.bits == -4 * SCALE32
                && i_l_max.bits >= 1 && i_l.bits <= i_l_max.bits && i_l.bits >= 0);
        }
        let doubled: IFix32 = two.saturating_mul(i_l);
        proof {
            vstd::arithmetic::div_mod::lemma_div_multiples_vanish(
                2 * i_l.bits as int,
                SCALE32 as int,
            );
            assert(doubled.bits == sat_i128(2 * i_l.bits));
        }
        let q: IFix32 = doubled.safe_div(i_l_max);
        proof {
            assert(0 <= q.bits <= 2 * SCALE32) by (nonlinear_arith)
                requires
                    q.bits == sfix_div_spec(doubled.bits as int, i_l_max.bits as int, SCALE32 as int),
                    doubled.bits == sat_i128(2 * i_l.bits),
                    0 <= i_l.bits <= i_l_max.bits,
                    1 <= i_l_max.bits,
                    SCALE32 == 0x1_0000_0000,
            ;
        }
        let x: IFix32 = q.saturating_add(neg_one);
        let x_sq: IFix32 = x.saturating_mul(x);
        let x_cubed: IFix32 = x_sq.saturating_mul(x);
        proof {
            assert(-(SCALE32 as int) <= x.bits <= SCALE32);
            assert(0 <= x_sq.bits <= SCALE32) by (nonlinear_arith)
                requires
                    x_sq.bits == sfix_mul_spec(x.bits as int, x.bits as int, SCALE32 as int),
                    -(SCALE32 as int) <= x.bits <= SCALE32,
                    SCALE32 == 0x1_0000_0000,
            ;
            assert(-(SCALE32 as int) <= x_cubed.bits <= SCALE32) by (nonlinear_arith)
                requires
                    x_cubed.bits == sfix_mul_spec(x_sq.bits as int, x.bits as int, SCALE32 as int),
                    0 <= x_sq.bits <= SCALE32,
                    -(SCALE32 as int) <= x.bits <= SCALE32,
                    SCALE32 == 0x1_0000_0000,
            ;
        }
        let t1: IFix32 = a.saturating_mul(x_cubed);
        let t2: IFix32 = t1.saturating_add(b);
        let t3: IFix32 = t2.saturating_mul(x_cubed);
        let t4: IFix32 = t3.saturating_add(c);
        let t5: IFix32 = t4.saturating_mul(x);
        let f_x: IFix32 = t5.saturating_add(d);
        proof {
            assert(-4 * SCALE32 <= t1.bits <= 4 * SCALE32) by (nonlinear_arith)
                requires
                    t1.bits == sfix_mul_spec(a.bits as int, x_cubed.bits as int, SCALE32 as int),
                    a.bits == CUBIC_A_BITS,
                    -(SCALE32 as int) <= x_cubed.bits <= SCALE32,
                    SCALE32 == 0x1_0000_0000,
                    CUBIC_A_BITS == 15032385536,
            ;
            assert(-5 * SCALE32 <= t2.bits <= 3 * SCALE32);
            assert(-6 * SCALE32 <= t3.bits <= 6 * SCALE32) by (nonlinear_arith)
                requires
                    t3.bits == sfix_mul_spec(t2.bits as int, x_cubed.bits as int, SCALE32 as int),
                    -5 * SCALE32 <= t2.bits <= 5 * SCALE32,
                    -(SCALE32 as int) <= x_cubed.bits <= SCALE32,
                    SCALE32 == 0x1_0000_0000,
            ;
            assert(-8 * SCALE32 <= t4.bits <= 8 * SCALE32);
            assert(-9 * SCALE32 <= t5.bits <= 9 * SCALE32) by (nonlinear_arith)
                requires
                    t5.bits == sfix_mul_spec(t4.bits as int, x.bits as int, SCALE32 as int),
                    -8 * SCALE32 <= t4.bits <= 8 * SCALE32,
                    -(SCALE32 as int) <= x.bits <= SCALE32,
                    SCALE32 == 0x1_0000_0000,
            ;
            assert(-13 * SCALE32 <= f_x.bits <= 5 * SCALE32);
        }
        let abs_f_x: IFix32 = f_x.saturating_abs();
        proof {
            assert(0 <= abs_f_x.bits <= 13 * SCALE32);
            assert((abs_f_x.bits as int + SCALE32 - 1) / SCALE32 as int <= 14) by (nonlinear_arith)
                requires
                    0 <= abs_f_x.bits <= 13 * SCALE32,
                    SCALE32 == 0x1_0000_0000,
            ;
        }
        let exp_int: u32 = abs_f_x.ceil_to_u32();
        let ten: IFix32 = IFix32::from_i64(10);
        let mut alpha: IFix32 = IFix32::from_i64(1);
        let mut i: u32 = 0;
        while i < exp_int
            invariant
                i <= exp_int,
                ten.bits == 10 * SCALE32,
                alpha.bits == div10_iter(i as nat),
                0 <= alpha.bits <= SCALE32,
            decreases exp_int - i,
        {
            let prev: IFix32 = alpha;
            alpha = prev.safe_div(ten);
            proof {
                assert(0 <= alpha.bits <= SCALE32) by (nonlinear_arith)
                    requires
                        alpha.bits == sfix_div_spec(prev.bits as int, 10 * SCALE32, SCALE32 as int),
                        0 <= prev.bits <= SCALE32,
                        SCALE32 == 0x1_0000_0000,
                ;
            }
            i = i + 1;
        }
        alpha.to_ufix32_sat()
    }

    /// Refresh the cached moving price of a subnet: measure liquidity
    /// as the square root of the scaled reserve product, derive the
    /// smoothing factor, blend spot and previous moving price, and
    /// clamp the result so the average never exceeds the spot price.
    pub fn update_moving_price(&mut self, netuid: u16)
        ensures
            final(self).subnet_moving_price@ == old(self).subnet_moving_price@.insert(
                subnet_key(netuid),
                IFix32 { bits: moving_update_spec(*old(self), netuid) as i128 },
            ),
            *final(self) == (Pallet {
                subnet_moving_price: final(self).subnet_moving_price,
                ..*old(self)
            }),
            moving_price_shown_spec(*final(self), netuid) <= alpha_price_spec(*final(self), netuid),
    {
        let tao_reserves_rao: UFix32 = UFix32::from_u64(self.tao_reserve_read(netuid));
        let alpha_reserves_rao: UFix32 = UFix32::from_u64(self.alpha_in_read(netuid));
        let scale_unit: UFix32 = UFix32::from_u64(RAO_PER_TAO);
        let tao_reserves: UFix32 = tao_reserves_rao.safe_div(scale_unit);
        let alpha_reserves: UFix32 = alpha_reserves_rao.safe_div(scale_unit);
        let k: UFix32 = tao_reserves.saturating_mul(alpha_reserves);
        let l: UFix32 = k.fixed_sqrt();
        proof {
            lemma_sqrt_bits_unique(k.bits as int, l.bits as int);
        }
        let scale_max: u64 = match self.liquidity_scale_max.get(subnet_key(netuid)) {
            Some(v) => *v,
            None => 0,
        };
        let liquidity_scale_max: UFix32 = UFix32::from_u64(scale_max);
        let factor: UFix32 = Pallet::compute_alpha_for_ema(l, liquidity_scale_max);
        let one_minus_alpha: UFix32 = UFix32::from_u64(1).saturating_sub(factor);
        let moving_price: UFix32 = self.get_moving_alpha_price(netuid);
        let current_price: UFix32 = self.get_alpha_price(netuid);
        let weighted_current_price: UFix32 = factor.saturating_mul(current_price);
        let weighted_current_moving: UFix32 = one_minus_alpha.saturating_mul(moving_price);
        let new_moving: IFix32 = weighted_current_price.saturating_add(
            weighted_current_moving,
        ).to_ifix32_sat();
        let clamped: IFix32 = new_moving.min_with(current_price.to_ifix32_sat());
        proof {
            // The spot price always fits the signed layout: at most the
            // tao reserve scaled up once.
            if netuid != ROOT_NETUID && self.mechanism(netuid) == Mechanism::Dynamic && self.alpha_in(
                netuid,
            ) != 0 {
                assert(alpha_price_spec(*self, netuid) <= self.tao_reserve(netuid) * SCALE32)
                    by (nonlinear_arith)
                    requires
                        alpha_price_spec(*self, netuid) == fix_div_spec(
                            self.tao_reserve(netuid) * SCALE32,
                            self.alpha_in(netuid) * SCALE32,
                            SCALE32 as int,
                        ),
                        self.alpha_in(netuid) >= 1,
                        self.tao_reserve(netuid) <= u64::MAX,
                        SCALE32 == 0x1_0000_0000,
                ;
            }
        }
        self.subnet_moving_price.insert(subnet_key(netuid), clamped);
    }
}

} // verus!
