//! The fractional-ownership share ledger.
//!
//! One pool exists per (hotkey, subnet) pair.  The pool's total value is
//! a whole token amount; ownership is tracked as fixed-point shares per
//! coldkey against a fixed-point denominator.  An owner's imputed value
//! is the share of the total value that its shares represent — the
//! price per share times the owner's share count — rounded toward
//! zero.  Adding value mints shares at the current price per share (an
//! empty pool seeds one share per token); removing value burns the
//! matching shares.  Cells that reach exactly zero are pruned, and the
//! two totals are zeroed together so neither is ever zero alone after a
//! removal.

use vstd::prelude::*;
use crate::fixed::UFix64;
use crate::fixed::SCALE64;
use crate::fixed::fix_div_spec;
use crate::fixed::fix_mul_spec;
use crate::fixed::sat_u64;
use crate::fixed::sat_u128;
use crate::pallet::Pallet;
use crate::pallet::cell_or;
use crate::store::hotkey_coldkey_subnet_key;
use crate::store::hotkey_subnet_key;

verus! {

/// An owner's imputed value: the price per share (total value over
/// total shares) times the owner's share, rounded toward zero at each
/// fixed-point step; zero when the pool has no shares.
pub open spec fn imputed_value_spec(sv: u64, denom: u128, share: u128) -> u64 {
    (fix_mul_spec(
        fix_div_spec(sv as int * SCALE64, denom as int, SCALE64 as int),
        share as int,
        SCALE64 as int,
    ) / SCALE64 as int) as u64
}

/// Shares minted (or burned) for `amount` tokens at the current price
/// per share: `amount * total_shares / total_value`, floored.
pub open spec fn minted_shares_spec(sv: u64, denom: u128, amount: u64) -> u128 {
    fix_div_spec(
        fix_mul_spec(amount as int * SCALE64, denom as int, SCALE64 as int),
        sv as int * SCALE64,
        SCALE64 as int,
    ) as u128
}

/// Pool state after minting `amount` into it for one owner:
/// (total value, denominator, owner share).
pub open spec fn pool_add_spec(sv: u64, denom: u128, share: u128, amount: u64) -> (u64, u128, u128) {
    let sv2 = sat_u64(sv + amount) as u64;
    if denom == 0 {
        (sv2, (amount * SCALE64) as u128, (amount * SCALE64) as u128)
    } else {
        let minted = minted_shares_spec(sv, denom, amount);
        (sv2, sat_u128(denom + minted) as u128, sat_u128(share + minted) as u128)
    }
}

/// Pool state after burning `amount` out of it for one owner; when
/// either total reaches zero, both are zeroed together.
pub open spec fn pool_remove_spec(sv: u64, denom: u128, share: u128, amount: u64) -> (
    u64,
    u128,
    u128,
) {
    let burn = minted_shares_spec(sv, denom, amount);
    let sv2 = sat_u64(sv - amount) as u64;
    let d2 = sat_u128(denom - burn) as u128;
    let s2 = sat_u128(share - burn) as u128;
    if sv2 == 0 || d2 == 0 {
        (0, 0, s2)
    } else {
        (sv2, d2, s2)
    }
}


/// The whole pool belongs to an owner whose share equals the
/// denominator (of at least one whole share): the imputed value is the
/// pool's total value, up to one unit lost to price truncation.
pub proof fn lemma_sole_owner_value(sv: u64, d: u128)
    requires
        SCALE64 <= d,
    ensures
        sv - 1 <= imputed_value_spec(sv, d, d) <= sv,
{
    let svi = sv as int;
    let dd = d as int;
    let num = svi * SCALE64 * SCALE64;
    vstd::arithmetic::div_mod::lemma_fundamental_div_mod(num, dd);
    let q = num / dd;
    assert(q * dd <= num && q * dd > num - dd && q >= 0) by (nonlinear_arith)
        requires
            num == (num / dd) * dd + num % dd,
            q == num / dd,
            0 <= num % dd < dd,
            0 <= num,
            1 <= dd,
    ;
    assert(q <= svi * SCALE64 && q <= u128::MAX) by (nonlinear_arith)
        requires
            q * dd <= num,
            num == svi * SCALE64 * SCALE64,
            SCALE64 <= dd,
            0 <= q,
            0 <= svi <= u64::MAX,
            SCALE64 == 0x1_0000_0000_0000_0000,
    ;
    assert(fix_div_spec(svi * SCALE64, dd, SCALE64 as int) == q);
    let prod_shift = (q * dd) / SCALE64 as int;
    assert(0 <= q * dd) by (nonlinear_arith)
        requires
            0 <= q,
            1 <= dd,
    ;
    vstd::arithmetic::div_mod::lemma_div_is_ordered(q * dd, num, SCALE64 as int);
    vstd::arithmetic::div_mod::lemma_div_multiples_vanish(svi * SCALE64, SCALE64 as int);
    assert(num / SCALE64 as int == svi * SCALE64) by {
        assert(num == (svi * SCALE64) * SCALE64) by (nonlinear_arith)
            requires
                num == svi * SCALE64 * SCALE64,
        ;
        assert(SCALE64 as int * (svi * SCALE64) == (svi * SCALE64) * SCALE64) by (nonlinear_arith);
    }
    assert(prod_shift <= svi * SCALE64 && prod_shift <= u128::MAX) by (nonlinear_arith)
        requires
            prod_shift <= svi * SCALE64,
            0 <= svi <= u64::MAX,
            SCALE64 == 0x1_0000_0000_0000_0000,
    ;
    assert(fix_mul_spec(q, dd, SCALE64 as int) == prod_shift);
    let v = prod_shift / SCALE64 as int;
    // Two right shifts compose: v == floor(q * d / 2^128).
    vstd::arithmetic::div_mod::lemma_div_denominator(q * dd, SCALE64 as int, SCALE64 as int);
    assert(v == (q * dd) / (SCALE64 as int * SCALE64));
    assert(svi - 1 <= v <= svi) by (nonlinear_arith)
        requires
            v == (q * dd) / (SCALE64 as int * SCALE64),
            q * dd <= num,
            q * dd > num - dd,
            num == svi * SCALE64 * SCALE64,
            SCALE64 <= dd <= u128::MAX,
            0 <= svi,
            SCALE64 == 0x1_0000_0000_0000_0000,
    ;
}

/// Share-pool round trip.  For a pool wholly owned by one owner (share
/// equal to a denominator of at least one whole share), adding an
/// amount and then removing the same amount restores the owner's
/// imputed value to within one unit of rounding, and the owner still
/// owns the whole pool.  The bounds keep every intermediate product
/// inside the fixed-point range, so no step saturates.
pub proof fn lemma_share_pool_round_trip(sv: u64, d: u128, amount: u64)
    ensures
        ({
            let grown = pool_add_spec(sv, d, d, amount);
            let back = pool_remove_spec(grown.0, grown.1, grown.2, amount);
            (1 <= sv && SCALE64 <= d && 1 <= amount <= sv && sv + amount <= u64::MAX && 2 * amount
                * d <= u128::MAX) ==> {
                &&& grown.1 == grown.2
                &&& grown.0 == sv + amount
                &&& sv + amount - 1 <= imputed_value_spec(grown.0, grown.1, grown.2) <= sv + amount
                &&& back.1 == back.2
                &&& back.0 == sv
                &&& sv - 1 <= imputed_value_spec(back.0, back.1, back.2) <= sv
            }
        }),
{
    if 1 <= sv && SCALE64 <= d && 1 <= amount && amount <= sv && sv + amount <= u64::MAX && 2
        * amount * d <= u128::MAX {
        let x = amount as int;
        let dd = d as int;
        let svi = sv as int;
        // The minted shares: exactly floor(amount * d / sv), unsaturated.
        assert(x * SCALE64 * dd / SCALE64 as int == x * dd) by (nonlinear_arith)
            requires
                SCALE64 == 0x1_0000_0000_0000_0000,
                0 <= x,
                0 <= dd,
        ;
        assert(x * dd <= u128::MAX) by (nonlinear_arith)
            requires
                2 * x * dd <= u128::MAX,
                1 <= x,
                1 <= dd,
        ;
        assert(fix_mul_spec(x * SCALE64, dd, SCALE64 as int) == x * dd);
        assert((x * dd * SCALE64) / (svi * SCALE64) == (x * dd) / svi) by (nonlinear_arith)
            requires
                0 <= x * dd,
                1 <= svi,
                SCALE64 == 0x1_0000_0000_0000_0000,
        ;
        vstd::arithmetic::div_mod::lemma_fundamental_div_mod(x * dd, svi);
        assert((x * dd) / svi <= dd && 0 <= (x * dd) / svi && (x * dd) / svi > (x * dd) / (
        svi as int) - 1) by (nonlinear_arith)
            requires
                x * dd == ((x * dd) / svi) * svi + (x * dd) % svi,
                0 <= (x * dd) % svi < svi,
                1 <= svi,
                x <= svi,
                1 <= dd,
                0 <= x,
        ;
        let minted = minted_shares_spec(sv, d, amount);
        assert(minted == (x * dd) / svi);
        assert(dd + minted <= u128::MAX) by (nonlinear_arith)
            requires
                minted <= dd,
                2 * x * dd <= u128::MAX,
                1 <= x,
                1 <= dd,
        ;
        let grown = pool_add_spec(sv, d, d, amount);
        assert(grown.0 == sv + amount && grown.1 == dd + minted && grown.2 == dd + minted);
        lemma_sole_owner_value((sv + amount) as u64, (dd + minted) as u128);

        // The burned shares of the removal: again unsaturated.
        let d2 = dd + minted;
        assert(x * SCALE64 * d2 / SCALE64 as int == x * d2) by (nonlinear_arith)
            requires
                SCALE64 == 0x1_0000_0000_0000_0000,
                0 <= x,
                0 <= d2,
        ;
        assert(x * d2 <= u128::MAX) by (nonlinear_arith)
            requires
                2 * x * dd <= u128::MAX,
                d2 <= 2 * dd,
                0 <= x,
                0 <= dd,
        ;
        assert(fix_mul_spec(x * SCALE64, d2, SCALE64 as int) == x * d2);
        let sv2 = svi + x;
        assert((x * d2 * SCALE64) / (sv2 * SCALE64) == (x * d2) / sv2) by (nonlinear_arith)
            requires
                0 <= x * d2,
                1 <= sv2,
                SCALE64 == 0x1_0000_0000_0000_0000,
        ;
        vstd::arithmetic::div_mod::lemma_fundamental_div_mod(x * d2, sv2);
        assert((x * d2) / sv2 < d2 && 0 <= (x * d2) / sv2) by (nonlinear_arith)
            requires
                x * d2 == ((x * d2) / sv2) * sv2 + (x * d2) % sv2,
                0 <= (x * d2) % sv2 < sv2,
                1 <= svi,
                sv2 == svi + x,
                1 <= x,
                1 <= d2,
        ;
        let burn = minted_shares_spec((svi + x) as u64, d2 as u128, amount);
        assert(burn == (x * d2) / sv2);
        // What remains still holds at least one whole share: burning
        // the fraction x/(sv+x) of d2 leaves more than d - 1 shares.
        assert(d2 - burn >= dd) by (nonlinear_arith)
            requires
                x * d2 == burn * sv2 + (x * d2) % sv2,
                0 <= (x * d2) % sv2 < sv2,
                x * dd == minted * svi + (x * dd) % svi,
                0 <= (x * dd) % svi < svi,
                d2 == dd + minted,
                sv2 == svi + x,
                1 <= svi,
                1 <= x,
                1 <= dd,
        ;
        let back = pool_remove_spec(grown.0, grown.1, grown.2, amount);
        assert(back.0 == sv && back.1 == d2 - burn && back.2 == d2 - burn);
        lemma_sole_owner_value(sv, (d2 - burn) as u128);
    }
}

/// Binding of the share-ledger cells of one (hotkey, subnet) pair.
#[derive(Clone, Copy, PartialEq, Eq, Structural, Debug)]
pub struct HotkeyAlphaSharePoolDataOperations {
    pub hotkey: u64,
    pub netuid: u16,
}

impl HotkeyAlphaSharePoolDataOperations {
    pub fn new(hotkey: u64, netuid: u16) -> (r: Self)
        ensures
            r.hotkey == hotkey,
            r.netuid == netuid,
    {
        HotkeyAlphaSharePoolDataOperations { hotkey, netuid }
    }

    /// The pool's total value, as a fixed-point number.
    pub fn get_shared_value(&self, p: &Pallet) -> (r: UFix64)
        ensures
            r.bits == p.hotkey_alpha(self.hotkey, self.netuid) * SCALE64,
    {
        UFix64::from_u64(p.get_stake_for_hotkey_on_subnet(self.hotkey, self.netuid))
    }

    /// One owner's share count.
    pub fn get_share(&self, p: &Pallet, key: u64) -> (r: UFix64)
        ensures
            r == cell_or(
                p.alpha_shares@,
                hotkey_coldkey_subnet_key(self.hotkey, key, self.netuid),
                UFix64 { bits: 0 },
            ),
    {
        match p.alpha_shares.get(hotkey_coldkey_subnet_key(self.hotkey, key, self.netuid)) {
            Some(v) => *v,
            None => UFix64 { bits: 0 },
        }
    }

    /// One owner's share count, or an error where no cell exists.
    pub fn try_get_share(&self, p: &Pallet, key: u64) -> (r: Result<UFix64, ()>)
        ensures
            r == (if p.alpha_shares@.contains_key(
                hotkey_coldkey_subnet_key(self.hotkey, key, self.netuid),
            ) {
                Result::<UFix64, ()>::Ok(
                    p.alpha_shares@[hotkey_coldkey_subnet_key(self.hotkey, key, self.netuid)],
                )
            } else {
                Result::<UFix64, ()>::Err(())
            }),
    {
        match p.alpha_shares.get(hotkey_coldkey_subnet_key(self.hotkey, key, self.netuid)) {
            Some(v) => Ok(*v),
            None => Err(()),
        }
    }

    /// The pool's share denominator.
    pub fn get_denominator(&self, p: &Pallet) -> (r: UFix64)
        ensures
            r == p.hotkey_shares(self.hotkey, self.netuid),
    {
        match p.total_hotkey_shares.get(hotkey_subnet_key(self.hotkey, self.netuid)) {
            Some(v) => *v,
            None => UFix64 { bits: 0 },
        }
    }

    /// Store the pool's total value, pruning a zero.
    pub fn set_shared_value(&self, p: &mut Pallet, value: u64)
        ensures
            final(p).total_hotkey_alpha@ == (if value != 0 {
                old(p).total_hotkey_alpha@.insert(hotkey_subnet_key(self.hotkey, self.netuid), value)
            } else {
                old(p).total_hotkey_alpha@.remove(hotkey_subnet_key(self.hotkey, self.netuid))
            }),
            *final(p) == (Pallet { total_hotkey_alpha: final(p).total_hotkey_alpha, ..*old(p) }),
    {
        if value != 0 {
            p.total_hotkey_alpha.insert(hotkey_subnet_key(self.hotkey, self.netuid), value);
        } else {
            p.total_hotkey_alpha.remove(hotkey_subnet_key(self.hotkey, self.netuid));
        }
    }

    /// Store one owner's share count, pruning a zero.
    pub fn set_share(&self, p: &mut Pallet, key: u64, share: UFix64)
        ensures
            final(p).alpha_shares@ == (if share.bits != 0 {
                old(p).alpha_shares@.insert(
                    hotkey_coldkey_subnet_key(self.hotkey, key, self.netuid),
                    share,
                )
            } else {
                old(p).alpha_shares@.remove(hotkey_coldkey_subnet_key(self.hotkey, key, self.netuid))
            }),
            *final(p) == (Pallet { alpha_shares: final(p).alpha_shares, ..*old(p) }),
    {
        if share.bits != 0 {
            p.alpha_shares.insert(hotkey_coldkey_subnet_key(self.hotkey, key, self.netuid), share);
        } else {
            p.alpha_shares.remove(hotkey_coldkey_subnet_key(self.hotkey, key, self.netuid));
        }
    }

    /// Store the pool's denominator, pruning a zero.
    pub fn set_denominator(&self, p: &mut Pallet, update: UFix64)
        ensures
            final(p).total_hotkey_shares@ == (if update.bits != 0 {
                old(p).total_hotkey_shares@.insert(
                    hotkey_subnet_key(self.hotkey, self.netuid),
                    update,
                )
            } else {
                old(p).total_hotkey_shares@.remove(hotkey_subnet_key(self.hotkey, self.netuid))
            }),
            *final(p) == (Pallet { total_hotkey_shares: final(p).total_hotkey_shares, ..*old(p) }),
    {
        if update.bits != 0 {
            p.total_hotkey_shares.insert(hotkey_subnet_key(self.hotkey, self.netuid), update);
        } else {
            p.total_hotkey_shares.remove(hotkey_subnet_key(self.hotkey, self.netuid));
        }
    }
}

/// The fractional-ownership ledger of one (hotkey, subnet) pair,
/// working through its cell binding.
pub struct SharePool {
    pub state_ops: HotkeyAlphaSharePoolDataOperations,
}

impl SharePool {
    pub fn new(ops: HotkeyAlphaSharePoolDataOperations) -> (r: Self)
        ensures
            r.state_ops == ops,
    {
        SharePool { state_ops: ops }
    }

    /// The pool this ledger is bound to, as seen in `p`:
    /// (total value, denominator bits, owner-share bits).
    pub open spec fn snapshot(self, p: Pallet, key: u64) -> (u64, u128, u128) {
        (
            p.hotkey_alpha(self.state_ops.hotkey, self.state_ops.netuid),
            p.hotkey_shares(self.state_ops.hotkey, self.state_ops.netuid).bits,
            cell_or(
                p.alpha_shares@,
                hotkey_coldkey_subnet_key(self.state_ops.hotkey, key, self.state_ops.netuid),
                UFix64 { bits: 0 },
            ).bits,
        )
    }

    /// An owner's imputed value, rounded toward zero.
    pub fn get_value(&self, p: &Pallet, key: u64) -> (r: u64)
        ensures
            r == imputed_value_spec(
                self.snapshot(*p, key).0,
                self.snapshot(*p, key).1,
                self.snapshot(*p, key).2,
            ),
    {
        let sv: UFix64 = self.state_ops.get_shared_value(p);
        let d: UFix64 = self.state_ops.get_denominator(p);
        let s: UFix64 = self.state_ops.get_share(p, key);
        sv.safe_div(d).saturating_mul(s).to_u64_sat()
    }

    /// An owner's imputed value, or an error where the owner has no
    /// share cell at all.
    pub fn try_get_value(&self, p: &Pallet, key: u64) -> (r: Result<u64, ()>)
        ensures
            r == (if p.alpha_shares@.contains_key(
                hotkey_coldkey_subnet_key(self.state_ops.hotkey, key, self.state_ops.netuid),
            ) {
                Result::<u64, ()>::Ok(
                    imputed_value_spec(
                        self.snapshot(*p, key).0,
                        self.snapshot(*p, key).1,
                        self.snapshot(*p, key).2,
                    ),
                )
            } else {
                Result::<u64, ()>::Err(())
            }),
    {
        match self.state_ops.try_get_share(p, key) {
            Ok(_) => Ok(self.get_value(p, key)),
            Err(_) => Err(()),
        }
    }

    /// Grow the pool's total value without touching shares: every
    /// owner's value scales up with the pool.
    pub fn add_value_for_all(&self, p: &mut Pallet, amount: u64)
        ensures
            final(p).total_hotkey_alpha@ == (if sat_u64(
                old(p).hotkey_alpha(self.state_ops.hotkey, self.state_ops.netuid) + amount,
            ) != 0 {
                old(p).total_hotkey_alpha@.insert(
                    hotkey_subnet_key(self.state_ops.hotkey, self.state_ops.netuid),
                    sat_u64(
                        old(p).hotkey_alpha(self.state_ops.hotkey, self.state_ops.netuid) + amount,
                    ) as u64,
                )
            } else {
                old(p).total_hotkey_alpha@.remove(
                    hotkey_subnet_key(self.state_ops.hotkey, self.state_ops.netuid),
                )
            }),
            *final(p) == (Pallet { total_hotkey_alpha: final(p).total_hotkey_alpha, ..*old(p) }),
    {
        let sv: u64 = p.get_stake_for_hotkey_on_subnet(self.state_ops.hotkey, self.state_ops.netuid);
        self.state_ops.set_shared_value(p, sv.saturating_add(amount));
    }

    /// Shrink the pool's total value without touching shares: every
    /// owner's value scales down with the pool.
    pub fn remove_value_for_all(&self, p: &mut Pallet, amount: u64)
        ensures
            final(p).total_hotkey_alpha@ == (if sat_u64(
                old(p).hotkey_alpha(self.state_ops.hotkey, self.state_ops.netuid) - amount,
            ) != 0 {
                old(p).total_hotkey_alpha@.insert(
                    hotkey_subnet_key(self.state_ops.hotkey, self.state_ops.netuid),
                    sat_u64(
                        old(p).hotkey_alpha(self.state_ops.hotkey, self.state_ops.netuid) - amount,
                    ) as u64,
                )
            } else {
                old(p).total_hotkey_alpha@.remove(
                    hotkey_subnet_key(self.state_ops.hotkey, self.state_ops.netuid),
                )
            }),
            *final(p) == (Pallet { total_hotkey_alpha: final(p).total_hotkey_alpha, ..*old(p) }),
    {
        let sv: u64 = p.get_stake_for_hotkey_on_subnet(self.state_ops.hotkey, self.state_ops.netuid);
        self.state_ops.set_shared_value(p, sv.saturating_sub(amount));
    }

    /// Mint `amount` into the pool for one owner, distributing new
    /// shares at the current price per share (an empty pool seeds one
    /// share per token).  Returns the owner's actual value gain, which
    /// can round below `amount` — or to zero when the pool is too
    /// coarse for the contribution.
    pub fn add_value(&self, p: &mut Pallet, key: u64, amount: u64) -> (r: u64)
        ensures
            ({
                let snap = self.snapshot(*old(p), key);
                let t = pool_add_spec(snap.0, snap.1, snap.2, amount);
                &&& final(p).total_hotkey_alpha@ == (if t.0 != 0 {
                    old(p).total_hotkey_alpha@.insert(
                        hotkey_subnet_key(self.state_ops.hotkey, self.state_ops.netuid),
                        t.0,
                    )
                } else {
                    old(p).total_hotkey_alpha@.remove(
                        hotkey_subnet_key(self.state_ops.hotkey, self.state_ops.netuid),
                    )
                })
                &&& final(p).total_hotkey_shares@ == (if t.1 != 0 {
                    old(p).total_hotkey_shares@.insert(
                        hotkey_subnet_key(self.state_ops.hotkey, self.state_ops.netuid),
                        UFix64 { bits: t.1 },
                    )
                } else {
                    old(p).total_hotkey_shares@.remove(
                        hotkey_subnet_key(self.state_ops.hotkey, self.state_ops.netuid),
                    )
                })
                &&& final(p).alpha_shares@ == (if t.2 != 0 {
                    old(p).alpha_shares@.insert(
                        hotkey_coldkey_subnet_key(
                            self.state_ops.hotkey,
                            key,
                            self.state_ops.netuid,
                        ),
                        UFix64 { bits: t.2 },
                    )
                } else {
                    old(p).alpha_shares@.remove(
                        hotkey_coldkey_subnet_key(
                            self.state_ops.hotkey,
                            key,
                            self.state_ops.netuid,
                        ),
                    )
                })
                &&& r == (if imputed_value_spec(t.0, t.1, t.2) >= imputed_value_spec(
                    snap.0,
                    snap.1,
                    snap.2,
                ) {
                    imputed_value_spec(t.0, t.1, t.2) - imputed_value_spec(snap.0, snap.1, snap.2)
                } else {
                    0
                })
            }),
            *final(p) == (Pallet {
                total_hotkey_alpha: final(p).total_hotkey_alpha,
                total_hotkey_shares: final(p).total_hotkey_shares,
                alpha_shares: final(p).alpha_shares,
                ..*old(p)
            }),
    {
        let before: u64 = self.get_value(p, key);
        let sv: u64 = p.get_stake_for_hotkey_on_subnet(self.state_ops.hotkey, self.state_ops.netuid);
        let d: UFix64 = self.state_ops.get_denominator(p);
        let s: UFix64 = self.state_ops.get_share(p, key);
        if d.bits == 0 {
            let seed: UFix64 = UFix64::from_u64(amount);
            self.state_ops.set_share(p, key, seed);
            self.state_ops.set_denominator(p, seed);
        } else {
            let minted: UFix64 = UFix64::from_u64(amount).saturating_mul(d).safe_div(
                UFix64::from_u64(sv),
            );
            self.state_ops.set_share(p, key, s.saturating_add(minted));
            self.state_ops.set_denominator(p, d.saturating_add(minted));
        }
        self.state_ops.set_shared_value(p, sv.saturating_add(amount));
        let after: u64 = self.get_value(p, key);
        if after >= before {
            after - before
        } else {
            0
        }
    }

    /// Burn `amount` of one owner's value out of the pool.  The
    /// operation has no effect and returns zero when the owner has no
    /// share cell or an imputed value below `amount`; otherwise the
    /// matching shares are burned, the totals are zeroed together when
    /// either reaches zero, and the owner's actual value loss is
    /// returned.
    pub fn remove_value(&self, p: &mut Pallet, key: u64, amount: u64) -> (r: u64)
        ensures
            ({
                let snap = self.snapshot(*old(p), key);
                let allowed = old(p).alpha_shares@.contains_key(
                    hotkey_coldkey_subnet_key(self.state_ops.hotkey, key, self.state_ops.netuid),
                ) && imputed_value_spec(snap.0, snap.1, snap.2) >= amount;
                let t = pool_remove_spec(snap.0, snap.1, snap.2, amount);
                &&& !allowed ==> *final(p) == *old(p) && r == 0
                &&& allowed ==> {
                    &&& final(p).total_hotkey_alpha@ == (if t.0 != 0 {
                        old(p).total_hotkey_alpha@.insert(
                            hotkey_subnet_key(self.state_ops.hotkey, self.state_ops.netuid),
                            t.0,
                        )
                    } else {
                        old(p).total_hotkey_alpha@.remove(
                            hotkey_subnet_key(self.state_ops.hotkey, self.state_ops.netuid),
                        )
                    })
                    &&& final(p).total_hotkey_shares@ == (if t.1 != 0 {
                        old(p).total_hotkey_shares@.insert(
                            hotkey_subnet_key(self.state_ops.hotkey, self.state_ops.netuid),
                            UFix64 { bits: t.1 },
                        )
                    } else {
                        old(p).total_hotkey_shares@.remove(
                            hotkey_subnet_key(self.state_ops.hotkey, self.state_ops.netuid),
                        )
                    })
                    &&& final(p).alpha_shares@ == (if t.2 != 0 {
                        old(p).alpha_shares@.insert(
                            hotkey_coldkey_subnet_key(
                                self.state_ops.hotkey,
                                key,
                                self.state_ops.netuid,
                            ),
                            UFix64 { bits: t.2 },
                        )
                    } else {
                        old(p).alpha_shares@.remove(
                            hotkey_coldkey_subnet_key(
                                self.state_ops.hotkey,
                                key,
                                self.state_ops.netuid,
                            ),
                        )
                    })
                    &&& r == (if imputed_value_spec(snap.0, snap.1, snap.2) >= imputed_value_spec(
                        t.0,
                        t.1,
                        t.2,
                    ) {
                        imputed_value_spec(snap.0, snap.1, snap.2) - imputed_value_spec(
                            t.0,
                            t.1,
                            t.2,
                        )
                    } else {
                        0
                    })
                }
            }),
            *final(p) == (Pallet {
                total_hotkey_alpha: final(p).total_hotkey_alpha,
                total_hotkey_shares: final(p).total_hotkey_shares,
                alpha_shares: final(p).alpha_shares,
                ..*old(p)
            }),
    {
        let held: bool = match self.try_get_value(p, key) {
            Ok(v) => v >= amount,
            Err(_) => false,
        };
        if !held {
            return 0;
        }
        let before: u64 = self.get_value(p, key);
        let sv: u64 = p.get_stake_for_hotkey_on_subnet(self.state_ops.hotkey, self.state_ops.netuid);
        let d: UFix64 = self.state_ops.get_denominator(p);
        let s: UFix64 = self.state_ops.get_share(p, key);
        let burn: UFix64 = UFix64::from_u64(amount).saturating_mul(d).safe_div(
            UFix64::from_u64(sv),
        );
        let mut new_sv: u64 = sv.saturating_sub(amount);
        let mut new_d: UFix64 = d.saturating_sub(burn);
        let new_s: UFix64 = s.saturating_sub(burn);
        if new_sv == 0 || new_d.bits == 0 {
            new_sv = 0;
            new_d = UFix64 { bits: 0 };
        }
        self.state_ops.set_share(p, key, new_s);
        self.state_ops.set_denominator(p, new_d);
        self.state_ops.set_shared_value(p, new_sv);
        let after: u64 = self.get_value(p, key);
        if before >= after {
            before - after
        } else {
            0
        }
    }

    /// Precision probe: whether a fresh single owner contributing
    /// `amount` would receive any shares at all.  Validation rejects
    /// operations for which this is false, so no stake can vanish into
    /// a pool too coarse to record it.
    pub fn sim_update_value_for_one(&self, p: &Pallet, amount: u64) -> (r: bool)
        ensures
            r == precision_ok_spec(
                p.hotkey_alpha(self.state_ops.hotkey, self.state_ops.netuid),
                p.hotkey_shares(self.state_ops.hotkey, self.state_ops.netuid).bits,
                amount,
            ),
    {
        let sv: u64 = p.get_stake_for_hotkey_on_subnet(self.state_ops.hotkey, self.state_ops.netuid);
        let d: UFix64 = self.state_ops.get_denominator(p);
        if amount == 0 {
            false
        } else if d.bits == 0 {
            true
        } else {
            let minted: UFix64 = UFix64::from_u64(amount).saturating_mul(d).safe_div(
                UFix64::from_u64(sv),
            );
            minted.bits > 0
        }
    }
}

/// Whether a fresh single owner contributing `amount` would receive any
/// shares: an empty pool seeds exactly, any other pool must mint at
/// least one share unit.
pub open spec fn precision_ok_spec(sv: u64, denom: u128, amount: u64) -> bool {
    if amount == 0 {
        false
    } else if denom == 0 {
        true
    } else {
        minted_shares_spec(sv, denom, amount) > 0
    }
}

impl Pallet {
    /// The share ledger of a (hotkey, subnet) pair.
    pub fn get_alpha_share_pool(hotkey: u64, netuid: u16) -> (r: SharePool)
        ensures
            r.state_ops == (HotkeyAlphaSharePoolDataOperations { hotkey, netuid }),
    {
        let ops = HotkeyAlphaSharePoolDataOperations::new(hotkey, netuid);
        SharePool::new(ops)
    }

    /// The imputed stake of one (hotkey, coldkey) pair on a subnet;
    /// zero where the pair holds no share cell.
    pub fn get_stake_for_hotkey_and_coldkey_on_subnet(
        &self,
        hotkey: u64,
        coldkey: u64,
        netuid: u16,
    ) -> (r: u64)
        ensures
            r == self.pair_stake(hotkey, coldkey, netuid),
    {
        let pool: SharePool = Pallet::get_alpha_share_pool(hotkey, netuid);
        match pool.try_get_value(self, coldkey) {
            Ok(v) => v,
            Err(_) => 0,
        }
    }

    /// Whether a (hotkey, coldkey) pair holds at least `decrement` on a
    /// subnet.
    pub fn has_enough_stake_on_subnet(
        &self,
        hotkey: u64,
        coldkey: u64,
        netuid: u16,
        decrement: u64,
    ) -> (r: bool)
        ensures
            r == (self.pair_stake(hotkey, coldkey, netuid) >= decrement),
    {
        let current_stake: u64 = self.get_stake_for_hotkey_and_coldkey_on_subnet(
            hotkey,
            coldkey,
            netuid,
        );
        current_stake >= decrement
    }

    /// The imputed stake of a (hotkey, coldkey) pair on a subnet.
    pub open spec fn pair_stake(self, hotkey: u64, coldkey: u64, netuid: u16) -> u64 {
        if self.alpha_shares@.contains_key(hotkey_coldkey_subnet_key(hotkey, coldkey, netuid)) {
            imputed_value_spec(
                self.hotkey_alpha(hotkey, netuid),
                self.hotkey_shares(hotkey, netuid).bits,
                self.alpha_shares@[hotkey_coldkey_subnet_key(hotkey, coldkey, netuid)].bits,
            )
        } else {
            0
        }
    }

    /// Grow a hotkey's pooled stake without touching ownership, as
    /// emissions do: every owner's value scales up.
    pub fn increase_stake_for_hotkey_on_subnet(&mut self, hotkey: u64, netuid: u16, amount: u64)
        ensures
            final(self).total_hotkey_alpha@ == (if sat_u64(
                old(self).hotkey_alpha(hotkey, netuid) + amount,
            ) != 0 {
                old(self).total_hotkey_alpha@.insert(
                    hotkey_subnet_key(hotkey, netuid),
                    sat_u64(old(self).hotkey_alpha(hotkey, netuid) + amount) as u64,
                )
            } else {
                old(self).total_hotkey_alpha@.remove(hotkey_subnet_key(hotkey, netuid))
            }),
            *final(self) == (Pallet { total_hotkey_alpha: final(self).total_hotkey_alpha, ..*old(
                self,
            ) }),
    {
        let pool: SharePool = Pallet::get_alpha_share_pool(hotkey, netuid);
        pool.add_value_for_all(self, amount);
    }

    /// Shrink a hotkey's pooled stake without touching ownership:
    /// every owner's value scales down.
    pub fn decrease_stake_for_hotkey_on_subnet(&mut self, hotkey: u64, netuid: u16, amount: u64)
        ensures
            final(self).total_hotkey_alpha@ == (if sat_u64(
                old(self).hotkey_alpha(hotkey, netuid) - amount,
            ) != 0 {
                old(self).total_hotkey_alpha@.insert(
                    hotkey_subnet_key(hotkey, netuid),
                    sat_u64(old(self).hotkey_alpha(hotkey, netuid) - amount) as u64,
                )
            } else {
                old(self).total_hotkey_alpha@.remove(hotkey_subnet_key(hotkey, netuid))
            }),
            *final(self) == (Pallet { total_hotkey_alpha: final(self).total_hotkey_alpha, ..*old(
                self,
            ) }),
    {
        let pool: SharePool = Pallet::get_alpha_share_pool(hotkey, netuid);
        pool.remove_value_for_all(self, amount);
    }

    /// Buy shares in a hotkey's pool for a coldkey.  Returns the
    /// coldkey's actual value gain: zero where the pool is too coarse
    /// to record the contribution.
    pub fn increase_stake_for_hotkey_and_coldkey_on_subnet(
        &mut self,
        hotkey: u64,
        coldkey: u64,
        netuid: u16,
        amount: u64,
    ) -> (r: u64)
        ensures
            ({
                let pool = SharePool {
                    state_ops: HotkeyAlphaSharePoolDataOperations { hotkey, netuid },
                };
                let snap = pool.snapshot(*old(self), coldkey);
                let t = pool_add_spec(snap.0, snap.1, snap.2, amount);
                &&& final(self).total_hotkey_alpha@ == (if t.0 != 0 {
                    old(self).total_hotkey_alpha@.insert(hotkey_subnet_key(hotkey, netuid), t.0)
                } else {
                    old(self).total_hotkey_alpha@.remove(hotkey_subnet_key(hotkey, netuid))
                })
                &&& final(self).total_hotkey_shares@ == (if t.1 != 0 {
                    old(self).total_hotkey_shares@.insert(
                        hotkey_subnet_key(hotkey, netuid),
                        UFix64 { bits: t.1 },
                    )
                } else {
                    old(self).total_hotkey_shares@.remove(hotkey_subnet_key(hotkey, netuid))
                })
                &&& final(self).alpha_shares@ == (if t.2 != 0 {
                    old(self).alpha_shares@.insert(
                        hotkey_coldkey_subnet_key(hotkey, coldkey, netuid),
                        UFix64 { bits: t.2 },
                    )
                } else {
                    old(self).alpha_shares@.remove(
                        hotkey_coldkey_subnet_key(hotkey, coldkey, netuid),
                    )
                })
                &&& r == (if imputed_value_spec(t.0, t.1, t.2) >= imputed_value_spec(
                    snap.0,
                    snap.1,
                    snap.2,
                ) {
                    imputed_value_spec(t.0, t.1, t.2) - imputed_value_spec(snap.0, snap.1, snap.2)
                } else {
                    0
                })
            }),
            *final(self) == (Pallet {
                total_hotkey_alpha: final(self).total_hotkey_alpha,
                total_hotkey_shares: final(self).total_hotkey_shares,
                alpha_shares: final(self).alpha_shares,
                ..*old(self)
            }),
    {
        let pool: SharePool = Pallet::get_alpha_share_pool(hotkey, netuid);
        pool.add_value(self, coldkey, amount)
    }

    /// Precision probe used by validation: whether a contribution of
    /// `amount` to this hotkey's pool would be recorded at all.
    pub fn try_increase_stake_for_hotkey_and_coldkey_on_subnet(
        &self,
        hotkey: u64,
        netuid: u16,
        amount: u64,
    ) -> (r: bool)
        ensures
            r == precision_ok_spec(
                self.hotkey_alpha(hotkey, netuid),
                self.hotkey_shares(hotkey, netuid).bits,
                amount,
            ),
    {
        let pool: SharePool = Pallet::get_alpha_share_pool(hotkey, netuid);
        pool.sim_update_value_for_one(self, amount)
    }

    /// Sell shares in a hotkey's pool for a coldkey.  Has no effect and
    /// returns zero unless the pair's imputed value covers `amount`;
    /// otherwise returns the actual value removed.
    pub fn decrease_stake_for_hotkey_and_coldkey_on_subnet(
        &mut self,
        hotkey: u64,
        coldkey: u64,
        netuid: u16,
        amount: u64,
    ) -> (r: u64)
        ensures
            ({
                let pool = SharePool {
                    state_ops: HotkeyAlphaSharePoolDataOperations { hotkey, netuid },
                };
                let snap = pool.snapshot(*old(self), coldkey);
                let allowed = old(self).alpha_shares@.contains_key(
                    hotkey_coldkey_subnet_key(hotkey, coldkey, netuid),
                ) && imputed_value_spec(snap.0, snap.1, snap.2) >= amount;
                let t = pool_remove_spec(snap.0, snap.1, snap.2, amount);
                &&& !allowed ==> *final(self) == *old(self) && r == 0
                &&& allowed ==> {
                    &&& final(self).total_hotkey_alpha@ == (if t.0 != 0 {
                        old(self).total_hotkey_alpha@.insert(hotkey_subnet_key(hotkey, netuid), t.0)
                    } else {
                        old(self).total_hotkey_alpha@.remove(hotkey_subnet_key(hotkey, netuid))
                    })
                    &&& final(self).total_hotkey_shares@ == (if t.1 != 0 {
                        old(self).total_hotkey_shares@.insert(
                            hotkey_subnet_key(hotkey, netuid),
                            UFix64 { bits: t.1 },
                        )
                    } else {
                        old(self).total_hotkey_shares@.remove(hotkey_subnet_key(hotkey, netuid))
                    })
                    &&& final(self).alpha_shares@ == (if t.2 != 0 {
                        old(self).alpha_shares@.insert(
                            hotkey_coldkey_subnet_key(hotkey, coldkey, netuid),
                            UFix64 { bits: t.2 },
                        )
                    } else {
                        old(self).alpha_shares@.remove(
                            hotkey_coldkey_subnet_key(hotkey, coldkey, netuid),
                        )
                    })
                    &&& r == (if imputed_value_spec(snap.0, snap.1, snap.2) >= imputed_value_spec(
                        t.0,
                        t.1,
                        t.2,
                    ) {
                        imputed_value_spec(snap.0, snap.1, snap.2) - imputed_value_spec(
                            t.0,
                            t.1,
                            t.2,
                        )
                    } else {
                        0
                    })
                }
            }),
            *final(self) == (Pallet {
                total_hotkey_alpha: final(self).total_hotkey_alpha,
                total_hotkey_shares: final(self).total_hotkey_shares,
                alpha_shares: final(self).alpha_shares,
                ..*old(self)
            }),
    {
        let pool: SharePool = Pallet::get_alpha_share_pool(hotkey, netuid);
        pool.remove_value(self, coldkey, amount)
    }
}

} // verus!
