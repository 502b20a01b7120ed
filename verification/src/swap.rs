//! The per-subnet liquidity pool: constant-product swaps between the
//! native asset (tao) and the subnet token (alpha).
//!
//! A Stable subnet swaps one to one.  A Dynamic subnet holds the
//! product of its reserves constant: swapping `x` in computes the new
//! opposite reserve as `k / (reserve_in + x)` and pays out the
//! difference — after first checking that the shrinking reserve would
//! stay above the configured liquidity floor, so a pool can never be
//! drained or inverted.  A rejected swap changes nothing and reports
//! "no liquidity" instead.

use vstd::prelude::*;
use crate::fixed::UFix18;
use crate::fixed::UFix64;
use crate::fixed::SCALE18;
use crate::fixed::fix_div_spec;
use crate::fixed::fix_mul_spec;
use crate::fixed::sat_u128;
use crate::fixed::sat_u64;
use crate::pallet::Mechanism;
use crate::pallet::Pallet;
use crate::share_pool::HotkeyAlphaSharePoolDataOperations;
use crate::share_pool::SharePool;
use crate::share_pool::imputed_value_spec;
use crate::share_pool::pool_add_spec;
use crate::share_pool::pool_remove_spec;
use crate::store::account_key;
use crate::store::coldkey_hotkey_key;
use crate::store::hotkey_coldkey_subnet_key;
use crate::store::hotkey_subnet_key;
use crate::store::subnet_key;

verus! {

/// The alpha paid out by a Dynamic subnet for `tao` paid in, or `None`
/// where the pool's alpha reserve would sink below the liquidity floor.
pub open spec fn sim_swap_tao_for_alpha_spec(p: Pallet, netuid: u16, tao: u64) -> Option<u64> {
    if p.mechanism(netuid) == Mechanism::Dynamic {
        let t_bits = p.tao_reserve(netuid) * SCALE18;
        let a_bits = p.alpha_in(netuid) * SCALE18;
        let k_bits = fix_mul_spec(a_bits, t_bits, SCALE18 as int);
        let new_a_bits = fix_div_spec(k_bits, sat_u128(t_bits + tao * SCALE18), SCALE18 as int);
        if new_a_bits >= p.min_pool_liquidity * SCALE18 {
            Some(sat_u64(sat_u128(a_bits - new_a_bits) / SCALE18 as int) as u64)
        } else {
            None
        }
    } else {
        Some(tao)
    }
}

/// The tao paid out by a Dynamic subnet for `alpha` paid in, or `None`
/// where the pool's tao reserve would sink below the liquidity floor.
pub open spec fn sim_swap_alpha_for_tao_spec(p: Pallet, netuid: u16, alpha: u64) -> Option<u64> {
    if p.mechanism(netuid) == Mechanism::Dynamic {
        let t_bits = p.tao_reserve(netuid) * SCALE18;
        let a_bits = p.alpha_in(netuid) * SCALE18;
        let k_bits = fix_mul_spec(a_bits, t_bits, SCALE18 as int);
        let new_t_bits = fix_div_spec(k_bits, sat_u128(a_bits + alpha * SCALE18), SCALE18 as int);
        if new_t_bits >= p.min_pool_liquidity * SCALE18 {
            Some(sat_u64(sat_u128(t_bits - new_t_bits) / SCALE18 as int) as u64)
        } else {
            None
        }
    } else {
        Some(alpha)
    }
}

impl Pallet {
    /// Simulate staking `tao` into a subnet's pool: the alpha that a
    /// swap would return, or `None` where liquidity forbids it.  Reads
    /// only; a Stable subnet returns the amount unchanged.
    pub fn sim_swap_tao_for_alpha(&self, netuid: u16, tao: u64) -> (r: Option<u64>)
        ensures
            r == sim_swap_tao_for_alpha_spec(*self, netuid, tao),
    {
        let mech: Mechanism = match self.subnet_mechanism.get(subnet_key(netuid)) {
            Some(m) => *m,
            None => Mechanism::Stable,
        };
        if mech == Mechanism::Dynamic {
            let tao_reserves: UFix18 = UFix18::from_u64(self.tao_reserve_read(netuid));
            let alpha_reserves: UFix18 = UFix18::from_u64(self.alpha_in_read(netuid));
            let k: UFix18 = alpha_reserves.saturating_mul(tao_reserves);
            let new_alpha_reserves: UFix18 = k.safe_div(
                tao_reserves.saturating_add(UFix18::from_u64(tao)),
            );
            if new_alpha_reserves.bits >= (self.min_pool_liquidity as u128) * SCALE18 {
                Some(alpha_reserves.saturating_sub(new_alpha_reserves).to_u64_sat())
            } else {
                None
            }
        } else {
            Some(tao)
        }
    }

    /// Simulate unstaking `alpha` out of a subnet's pool: the tao that
    /// a swap would return, or `None` where liquidity forbids it.
    pub fn sim_swap_alpha_for_tao(&self, netuid: u16, alpha: u64) -> (r: Option<u64>)
        ensures
            r == sim_swap_alpha_for_tao_spec(*self, netuid, alpha),
    {
        let mech: Mechanism = match self.subnet_mechanism.get(subnet_key(netuid)) {
            Some(m) => *m,
            None => Mechanism::Stable,
        };
        if mech == Mechanism::Dynamic {
            let tao_reserves: UFix18 = UFix18::from_u64(self.tao_reserve_read(netuid));
            let alpha_reserves: UFix18 = UFix18::from_u64(self.alpha_in_read(netuid));
            let k: UFix18 = alpha_reserves.saturating_mul(tao_reserves);
            let new_tao_reserves: UFix18 = k.safe_div(
                alpha_reserves.saturating_add(UFix18::from_u64(alpha)),
            );
            if new_tao_reserves.bits >= (self.min_pool_liquidity as u128) * SCALE18 {
                Some(tao_reserves.saturating_sub(new_tao_reserves).to_u64_sat())
            } else {
                None
            }
        } else {
            Some(alpha)
        }
    }

    /// Exec read of the tao reserve.
    pub fn tao_reserve_read(&self, netuid: u16) -> (r: u64)
        ensures
            r == self.tao_reserve(netuid),
    {
        match self.subnet_tao.get(subnet_key(netuid)) {
            Some(v) => *v,
            None => 0,
        }
    }

    /// Exec read of the pool-held alpha reserve.
    pub fn alpha_in_read(&self, netuid: u16) -> (r: u64)
        ensures
            r == self.alpha_in(netuid),
    {
        match self.subnet_alpha_in.get(subnet_key(netuid)) {
            Some(v) => *v,
            None => 0,
        }
    }

    /// Swap tao into a subnet for alpha.  On success the four pool
    /// counters and the network total move together, atomically; a
    /// rejected swap changes nothing and returns zero.
    pub fn swap_tao_for_alpha(&mut self, netuid: u16, tao: u64) -> (r: u64)
        ensures
            ({
                let sim = sim_swap_tao_for_alpha_spec(*old(self), netuid, tao);
                match sim {
                    Some(alpha) => {
                        &&& r == alpha
                        &&& final(self).subnet_alpha_in@ == old(self).subnet_alpha_in@.insert(
                            subnet_key(netuid),
                            sat_u64(old(self).alpha_in(netuid) - alpha) as u64,
                        )
                        &&& final(self).subnet_alpha_out@ == old(self).subnet_alpha_out@.insert(
                            subnet_key(netuid),
                            sat_u64(old(self).alpha_out(netuid) + alpha) as u64,
                        )
                        &&& final(self).subnet_tao@ == old(self).subnet_tao@.insert(
                            subnet_key(netuid),
                            sat_u64(old(self).tao_reserve(netuid) + tao) as u64,
                        )
                        &&& final(self).total_stake == sat_u64(old(self).total_stake + tao)
                        &&& final(self).subnet_volume@ == old(self).subnet_volume@.insert(
                            subnet_key(netuid),
                            sat_u128(old(self).volume(netuid) + tao) as u128,
                        )
                        &&& *final(self) == (Pallet {
                            subnet_alpha_in: final(self).subnet_alpha_in,
                            subnet_alpha_out: final(self).subnet_alpha_out,
                            subnet_tao: final(self).subnet_tao,
                            total_stake: final(self).total_stake,
                            subnet_volume: final(self).subnet_volume,
                            ..*old(self)
                        })
                    },
                    None => r == 0 && *final(self) == *old(self),
                }
            }),
    {
        match self.sim_swap_tao_for_alpha(netuid, tao) {
            Some(alpha) => {
                let a: u64 = self.alpha_in_read(netuid);
                self.subnet_alpha_in.insert(subnet_key(netuid), a.saturating_sub(alpha));
                let ao: u64 = match self.subnet_alpha_out.get(subnet_key(netuid)) {
                    Some(v) => *v,
                    None => 0,
                };
                self.subnet_alpha_out.insert(subnet_key(netuid), ao.saturating_add(alpha));
                let t: u64 = self.tao_reserve_read(netuid);
                self.subnet_tao.insert(subnet_key(netuid), t.saturating_add(tao));
                self.total_stake = self.total_stake.saturating_add(tao);
                let vol: u128 = match self.subnet_volume.get(subnet_key(netuid)) {
                    Some(v) => *v,
                    None => 0,
                };
                self.subnet_volume.insert(subnet_key(netuid), vol.saturating_add(tao as u128));
                alpha
            },
            None => 0,
        }
    }

    /// Swap a subnet's alpha back into tao.  On success the four pool
    /// counters and the network total move together, atomically; a
    /// rejected swap changes nothing and returns zero.
    pub fn swap_alpha_for_tao(&mut self, netuid: u16, alpha: u64) -> (r: u64)
        ensures
            ({
                let sim = sim_swap_alpha_for_tao_spec(*old(self), netuid, alpha);
                match sim {
                    Some(tao) => {
                        &&& r == tao
                        &&& final(self).subnet_alpha_in@ == old(self).subnet_alpha_in@.insert(
                            subnet_key(netuid),
                            sat_u64(old(self).alpha_in(netuid) + alpha) as u64,
                        )
                        &&& final(self).subnet_alpha_out@ == old(self).subnet_alpha_out@.insert(
                            subnet_key(netuid),
                            sat_u64(old(self).alpha_out(netuid) - alpha) as u64,
                        )
                        &&& final(self).subnet_tao@ == old(self).subnet_tao@.insert(
                            subnet_key(netuid),
                            sat_u64(old(self).tao_reserve(netuid) - tao) as u64,
                        )
                        &&& final(self).total_stake == sat_u64(old(self).total_stake - tao)
                        &&& final(self).subnet_volume@ == old(self).subnet_volume@.insert(
                            subnet_key(netuid),
                            sat_u128(old(self).volume(netuid) + tao) as u128,
                        )
                        &&& *final(self) == (Pallet {
                            subnet_alpha_in: final(self).subnet_alpha_in,
                            subnet_alpha_out: final(self).subnet_alpha_out,
                            subnet_tao: final(self).subnet_tao,
                            total_stake: final(self).total_stake,
                            subnet_volume: final(self).subnet_volume,
                            ..*old(self)
                        })
                    },
                    None => r == 0 && *final(self) == *old(self),
                }
            }),
    {
        match self.sim_swap_alpha_for_tao(netuid, alpha) {
            Some(tao) => {
                let a: u64 = self.alpha_in_read(netuid);
                self.subnet_alpha_in.insert(subnet_key(netuid), a.saturating_add(alpha));
                let ao: u64 = match self.subnet_alpha_out.get(subnet_key(netuid)) {
                    Some(v) => *v,
                    None => 0,
                };
                self.subnet_alpha_out.insert(subnet_key(netuid), ao.saturating_sub(alpha));
                let t: u64 = self.tao_reserve_read(netuid);
                self.subnet_tao.insert(subnet_key(netuid), t.saturating_sub(tao));
                self.total_stake = self.total_stake.saturating_sub(tao);
                let vol: u128 = match self.subnet_volume.get(subnet_key(netuid)) {
                    Some(v) => *v,
                    None => 0,
                };
                self.subnet_volume.insert(subnet_key(netuid), vol.saturating_add(tao as u128));
                tao
            },
            None => 0,
        }
    }

    /// Stake tao into a subnet for a (hotkey, coldkey) pair: deduct the
    /// fee, swap the rest for alpha, credit the pair's share-ledger
    /// cell, and credit the fee back to the pool.  Returns the alpha
    /// actually recorded for the pair — zero when the swap was refused
    /// or the pool too coarse to record the contribution.
    pub fn stake_into_subnet(
        &mut self,
        hotkey: u64,
        coldkey: u64,
        netuid: u16,
        tao: u64,
        fee: u64,
    ) -> (r: u64)
        ensures
            ({
                let tao_staked = sat_u64(tao - fee) as u64;
                let actual_fee = (tao - tao_staked) as u64;
                let sim = sim_swap_tao_for_alpha_spec(*old(self), netuid, tao_staked);
                let pool = SharePool {
                    state_ops: HotkeyAlphaSharePoolDataOperations { hotkey, netuid },
                };
                let snap = pool.snapshot(*old(self), coldkey);
                match sim {
                    Some(alpha) => {
                        let staked = tao_staked > 0 && alpha > 0;
                        let t = pool_add_spec(snap.0, snap.1, snap.2, alpha);
                        &&& final(self).subnet_tao@ == old(self).subnet_tao@.insert(
                            subnet_key(netuid),
                            sat_u64(
                                sat_u64(old(self).tao_reserve(netuid) + tao_staked) + actual_fee,
                            ) as u64,
                        )
                        &&& final(self).subnet_alpha_in@ == old(self).subnet_alpha_in@.insert(
                            subnet_key(netuid),
                            sat_u64(old(self).alpha_in(netuid) - alpha) as u64,
                        )
                        &&& final(self).subnet_alpha_out@ == old(self).subnet_alpha_out@.insert(
                            subnet_key(netuid),
                            sat_u64(old(self).alpha_out(netuid) + alpha) as u64,
                        )
                        &&& final(self).subnet_volume@ == old(self).subnet_volume@.insert(
                            subnet_key(netuid),
                            sat_u128(old(self).volume(netuid) + tao_staked) as u128,
                        )
                        &&& final(self).total_stake == sat_u64(
                            sat_u64(old(self).total_stake + tao_staked) + actual_fee,
                        )
                        &&& staked ==> {
                            &&& final(self).total_hotkey_alpha@ == (if t.0 != 0 {
                                old(self).total_hotkey_alpha@.insert(
                                    hotkey_subnet_key(hotkey, netuid),
                                    t.0,
                                )
                            } else {
                                old(self).total_hotkey_alpha@.remove(
                                    hotkey_subnet_key(hotkey, netuid),
                                )
                            })
                            &&& final(self).total_hotkey_shares@ == (if t.1 != 0 {
                                old(self).total_hotkey_shares@.insert(
                                    hotkey_subnet_key(hotkey, netuid),
                                    UFix64 { bits: t.1 },
                                )
                            } else {
                                old(self).total_hotkey_shares@.remove(
                                    hotkey_subnet_key(hotkey, netuid),
                                )
                            })
                            &&& final(self).alpha_shares@ == (if t.2 != 0 {
                                old(self).alpha_shares@.insert(
                                    hotkey_coldkey_subnet_key(hotkey, coldkey, netuid),
                                    UFix64 { bits: t.2 },
                                )
                            } else {
                                old(self).alpha_shares@.remove(
                                    hotkey_coldkey_subnet_key(hotkey, coldkey, netuid),
                                )
                            })
                            &&& r == (if imputed_value_spec(t.0, t.1, t.2) >= imputed_value_spec(
                                snap.0,
                                snap.1,
                                snap.2,
                            ) {
                                imputed_value_spec(t.0, t.1, t.2) - imputed_value_spec(
                                    snap.0,
                                    snap.1,
                                    snap.2,
                                )
                            } else {
                                0
                            })
                            &&& !cell_or_list(old(self).staking_hotkeys@, account_key(coldkey))
                                .contains(hotkey) ==> final(self).staking_hotkeys@
                                == old(self).staking_hotkeys@.insert(
                                account_key(coldkey),
                                final(self).staking_hotkeys@[account_key(coldkey)],
                            ) && final(self).staking_hotkeys@.contains_key(account_key(coldkey))
                                && final(self).staking_hotkeys@[account_key(coldkey)]@
                                == cell_or_list(
                                old(self).staking_hotkeys@,
                                account_key(coldkey),
                            ).push(hotkey)
                            &&& cell_or_list(old(self).staking_hotkeys@, account_key(coldkey))
                                .contains(hotkey) ==> final(self).staking_hotkeys@ == old(
                                self,
                            ).staking_hotkeys@
                        }
                        &&& !staked ==> r == 0 && final(self).staking_hotkeys@ == old(
                            self,
                        ).staking_hotkeys@ && final(self).total_hotkey_alpha@ == old(
                            self,
                        ).total_hotkey_alpha@ && final(self).total_hotkey_shares@ == old(
                            self,
                        ).total_hotkey_shares@ && final(self).alpha_shares@ == old(
                            self,
                        ).alpha_shares@
                    },
                    None => {
                        &&& r == 0
                        &&& final(self).subnet_tao@ == old(self).subnet_tao@.insert(
                            subnet_key(netuid),
                            sat_u64(old(self).tao_reserve(netuid) + actual_fee) as u64,
                        )
                        &&& final(self).total_stake == sat_u64(old(self).total_stake + actual_fee)
                        &&& final(self).subnet_alpha_in@ == old(self).subnet_alpha_in@
                        &&& final(self).subnet_alpha_out@ == old(self).subnet_alpha_out@
                        &&& final(self).subnet_volume@ == old(self).subnet_volume@
                        &&& final(self).staking_hotkeys@ == old(self).staking_hotkeys@
                        &&& final(self).total_hotkey_alpha@ == old(self).total_hotkey_alpha@
                        &&& final(self).total_hotkey_shares@ == old(self).total_hotkey_shares@
                        &&& final(self).alpha_shares@ == old(self).alpha_shares@
                    },
                }
            }),
            final(self).last_stake_block@ == old(self).last_stake_block@.insert(
                coldkey_hotkey_key(coldkey, hotkey),
                old(self).current_block,
            ),
            *final(self) == (Pallet {
                subnet_tao: final(self).subnet_tao,
                subnet_alpha_in: final(self).subnet_alpha_in,
                subnet_alpha_out: final(self).subnet_alpha_out,
                subnet_volume: final(self).subnet_volume,
                total_stake: final(self).total_stake,
                total_hotkey_alpha: final(self).total_hotkey_alpha,
                total_hotkey_shares: final(self).total_hotkey_shares,
                alpha_shares: final(self).alpha_shares,
                staking_hotkeys: final(self).staking_hotkeys,
                last_stake_block: final(self).last_stake_block,
                ..*old(self)
            }),
    {
        let tao_staked: u64 = tao.saturating_sub(fee);
        let actual_fee: u64 = tao - tao_staked;
        let alpha: u64 = self.swap_tao_for_alpha(netuid, tao_staked);
        let mut actual_alpha: u64 = 0;
        if tao_staked > 0 && alpha > 0 {
            actual_alpha = self.increase_stake_for_hotkey_and_coldkey_on_subnet(
                hotkey,
                coldkey,
                netuid,
                alpha,
            );
            let list: Vec<u64> = match self.staking_hotkeys.get(account_key(coldkey)) {
                Some(v) => copy_u64s(v),
                None => Vec::new(),
            };
            if !contains_u64(&list, hotkey) {
                let mut grown: Vec<u64> = list;
                grown.push(hotkey);
                self.staking_hotkeys.insert(account_key(coldkey), grown);
            }
        }
        let t: u64 = self.tao_reserve_read(netuid);
        self.subnet_tao.insert(subnet_key(netuid), t.saturating_add(actual_fee));
        self.total_stake = self.total_stake.saturating_add(actual_fee);
        let block: u64 = self.current_block;
        self.last_stake_block.insert(coldkey_hotkey_key(coldkey, hotkey), block);
        actual_alpha
    }

    /// Unstake alpha from a subnet for a (hotkey, coldkey) pair: burn
    /// the pair's shares, swap the removed alpha back to tao, and
    /// credit the fee to the pool.  Returns the tao paid out after the
    /// fee.
    pub fn unstake_from_subnet(
        &mut self,
        hotkey: u64,
        coldkey: u64,
        netuid: u16,
        alpha: u64,
        fee: u64,
    ) -> (r: u64)
        ensures
            ({
                let pool = SharePool {
                    state_ops: HotkeyAlphaSharePoolDataOperations { hotkey, netuid },
                };
                let snap = pool.snapshot(*old(self), coldkey);
                let allowed = old(self).alpha_shares@.contains_key(
                    hotkey_coldkey_subnet_key(hotkey, coldkey, netuid),
                ) && imputed_value_spec(snap.0, snap.1, snap.2) >= alpha;
                let t = pool_remove_spec(snap.0, snap.1, snap.2, alpha);
                let burned = (if !allowed {
                    0
                } else if imputed_value_spec(snap.0, snap.1, snap.2) >= imputed_value_spec(
                    t.0,
                    t.1,
                    t.2,
                ) {
                    imputed_value_spec(snap.0, snap.1, snap.2) - imputed_value_spec(t.0, t.1, t.2)
                } else {
                    0
                });
                let sim = sim_swap_alpha_for_tao_spec(*old(self), netuid, burned as u64);
                &&& allowed ==> {
                    &&& final(self).total_hotkey_alpha@ == (if t.0 != 0 {
                        old(self).total_hotkey_alpha@.insert(hotkey_subnet_key(hotkey, netuid), t.0)
                    } else {
                        old(self).total_hotkey_alpha@.remove(hotkey_subnet_key(hotkey, netuid))
                    })
                    &&& final(self).total_hotkey_shares@ == (if t.1 != 0 {
                        old(self).total_hotkey_shares@.insert(
                            hotkey_subnet_key(hotkey, netuid),
                            UFix64 { bits: t.1 },
                        )
                    } else {
                        old(self).total_hotkey_shares@.remove(hotkey_subnet_key(hotkey, netuid))
                    })
                    &&& final(self).alpha_shares@ == (if t.2 != 0 {
                        old(self).alpha_shares@.insert(
                            hotkey_coldkey_subnet_key(hotkey, coldkey, netuid),
                            UFix64 { bits: t.2 },
                        )
                    } else {
                        old(self).alpha_shares@.remove(
                            hotkey_coldkey_subnet_key(hotkey, coldkey, netuid),
                        )
                    })
                }
                &&& !allowed ==> {
                    &&& final(self).total_hotkey_alpha@ == old(self).total_hotkey_alpha@
                    &&& final(self).total_hotkey_shares@ == old(self).total_hotkey_shares@
                    &&& final(self).alpha_shares@ == old(self).alpha_shares@
                }
                &&& match sim {
                    Some(tao) => {
                        let tao_unstaked = sat_u64(tao - fee) as u64;
                        let actual_fee = (tao - tao_unstaked) as u64;
                        &&& r == tao_unstaked
                        &&& final(self).subnet_tao@ == old(self).subnet_tao@.insert(
                            subnet_key(netuid),
                            sat_u64(
                                sat_u64(old(self).tao_reserve(netuid) - tao) + actual_fee,
                            ) as u64,
                        )
                        &&& final(self).subnet_alpha_in@ == old(self).subnet_alpha_in@.insert(
                            subnet_key(netuid),
                            sat_u64(old(self).alpha_in(netuid) + burned) as u64,
                        )
                        &&& final(self).subnet_alpha_out@ == old(self).subnet_alpha_out@.insert(
                            subnet_key(netuid),
                            sat_u64(old(self).alpha_out(netuid) - burned) as u64,
                        )
                        &&& final(self).subnet_volume@ == old(self).subnet_volume@.insert(
                            subnet_key(netuid),
                            sat_u128(old(self).volume(netuid) + tao) as u128,
                        )
                        &&& final(self).total_stake == sat_u64(
                            sat_u64(old(self).total_stake - tao) + actual_fee,
                        )
                    },
                    None => {
                        // A refused swap pays nothing; the fee credit
                        // still rewrites the tao cell with its old
                        // value.
                        &&& r == 0
                        &&& final(self).subnet_tao@ == old(self).subnet_tao@.insert(
                            subnet_key(netuid),
                            old(self).tao_reserve(netuid),
                        )
                        &&& final(self).subnet_alpha_in@ == old(self).subnet_alpha_in@
                        &&& final(self).subnet_alpha_out@ == old(self).subnet_alpha_out@
                        &&& final(self).subnet_volume@ == old(self).subnet_volume@
                        &&& final(self).total_stake == old(self).total_stake
                    },
                }
            }),
            final(self).last_stake_block@ == old(self).last_stake_block@.insert(
                coldkey_hotkey_key(coldkey, hotkey),
                old(self).current_block,
            ),
            *final(self) == (Pallet {
                subnet_tao: final(self).subnet_tao,
                subnet_alpha_in: final(self).subnet_alpha_in,
                subnet_alpha_out: final(self).subnet_alpha_out,
                subnet_volume: final(self).subnet_volume,
                total_stake: final(self).total_stake,
                total_hotkey_alpha: final(self).total_hotkey_alpha,
                total_hotkey_shares: final(self).total_hotkey_shares,
                alpha_shares: final(self).alpha_shares,
                last_stake_block: final(self).last_stake_block,
                ..*old(self)
            }),
    {
        let actual_alpha_decrease: u64 = self.decrease_stake_for_hotkey_and_coldkey_on_subnet(
            hotkey,
            coldkey,
            netuid,
            alpha,
        );
        let tao: u64 = self.swap_alpha_for_tao(netuid, actual_alpha_decrease);
        let tao_unstaked: u64 = tao.saturating_sub(fee);
        let actual_fee: u64 = tao - tao_unstaked;
        let t: u64 = self.tao_reserve_read(netuid);
        self.subnet_tao.insert(subnet_key(netuid), t.saturating_add(actual_fee));
        self.total_stake = self.total_stake.saturating_add(actual_fee);
        let block: u64 = self.current_block;
        self.last_stake_block.insert(coldkey_hotkey_key(coldkey, hotkey), block);
        tao_unstaked
    }
}


/// Arithmetic core of the constant-product invariant: for reserves
/// `o` (paid out) and `i` (paid in) and input `x`, the floor-computed
/// new out-reserve keeps the reserve product within one unit of the new
/// in-reserve, and respects the liquidity floor.
proof fn lemma_amm_formula(i: int, o: int, x: int, min_liq: int, m: int, out: int)
    requires
        0 <= i,
        0 <= o,
        0 <= x,
        0 <= min_liq,
        i + x > 0,
        o * i * SCALE18 <= u128::MAX,
        m == (o * i * SCALE18) / (i + x),
        m >= min_liq * SCALE18,
        out == (o * SCALE18 - m) / SCALE18 as int,
    ensures
        0 <= out <= o,
        o - out >= min_liq,
        (i + x) * (o - out) <= i * o + (i + x),
        (i + x) * (o - out) + (i + x) > i * o,
{
    let c = o - out;
    vstd::arithmetic::div_mod::lemma_fundamental_div_mod(o * i * SCALE18, i + x);
    assert(m * (i + x) <= o * i * SCALE18 && m >= 0) by (nonlinear_arith)
        requires
            o * i * SCALE18 == ((o * i * SCALE18) / (i + x)) * (i + x) + (o * i * SCALE18) % (i
                + x),
            m == (o * i * SCALE18) / (i + x),
            0 <= (o * i * SCALE18) % (i + x) < i + x,
            0 <= o,
            0 <= i,
            i + x > 0,
            SCALE18 == 0x40000,
    ;
    assert(m <= o * SCALE18) by (nonlinear_arith)
        requires
            m * (i + x) <= o * i * SCALE18,
            0 <= o,
            0 <= i,
            0 <= x,
            m >= 0,
            i + x > 0,
            SCALE18 == 0x40000,
    ;
    // out = o - ceil(m / SCALE18): the floored payout leaves the
    // ceiling of the fractional reserve behind.
    assert(c * SCALE18 >= m && (c - 1) * SCALE18 < m || (m == 0 && c == 0)) by (nonlinear_arith)
        requires
            out == (o * SCALE18 - m) / SCALE18 as int,
            c == o - out,
            0 <= m <= o * SCALE18,
            SCALE18 == 0x40000,
    ;
    assert(0 <= out <= o) by (nonlinear_arith)
        requires
            out == (o * SCALE18 - m) / SCALE18 as int,
            0 <= m <= o * SCALE18,
            SCALE18 == 0x40000,
            0 <= o,
    ;
    assert(c >= min_liq) by (nonlinear_arith)
        requires
            c * SCALE18 >= m || (m == 0 && c == 0),
            m >= min_liq * SCALE18,
            0 <= min_liq,
            SCALE18 == 0x40000,
    ;
    vstd::arithmetic::div_mod::lemma_fundamental_div_mod(o * i * SCALE18, i + x);
    assert((i + x) * m <= o * i * SCALE18 && (i + x) * (m + 1) > o * i * SCALE18)
        by (nonlinear_arith)
        requires
            o * i * SCALE18 == ((o * i * SCALE18) / (i + x)) * (i + x) + (o * i * SCALE18) % (i
                + x),
            m == (o * i * SCALE18) / (i + x),
            0 <= (o * i * SCALE18) % (i + x) < i + x,
            i + x > 0,
    ;
    assert((i + x) * c <= i * o + (i + x) && (i + x) * c + (i + x) > i * o) by (nonlinear_arith)
        requires
            c * SCALE18 >= m && (c - 1) * SCALE18 < m || (m == 0 && c == 0),
            (i + x) * m <= o * i * SCALE18,
            (i + x) * (m + 1) > o * i * SCALE18,
            i + x > 0,
            0 <= c,
            SCALE18 == 0x40000,
    ;
}

/// The pool invariant for a successful tao-to-alpha swap on a Dynamic
/// subnet whose reserve product does not saturate the pool layout: the
/// product of the new reserves equals the old product up to one unit of
/// the grown reserve, and the shrunken alpha reserve stays at or above
/// the liquidity floor.
pub proof fn lemma_swap_preserves_product(p: Pallet, netuid: u16, tao: u64)
    requires
        p.mechanism(netuid) == Mechanism::Dynamic,
        p.tao_reserve(netuid) * p.alpha_in(netuid) * SCALE18 <= u128::MAX,
        p.tao_reserve(netuid) + tao > 0,
        sim_swap_tao_for_alpha_spec(p, netuid, tao) is Some,
    ensures
        ({
            let t = p.tao_reserve(netuid) as int;
            let a = p.alpha_in(netuid) as int;
            let out = sim_swap_tao_for_alpha_spec(p, netuid, tao)->Some_0 as int;
            &&& 0 <= out <= a
            &&& a - out >= p.min_pool_liquidity
            &&& (t + tao) * (a - out) <= t * a + (t + tao)
            &&& (t + tao) * (a - out) + (t + tao) > t * a
        }),
{
    let t = p.tao_reserve(netuid) as int;
    let a = p.alpha_in(netuid) as int;
    let ml = p.min_pool_liquidity as int;
    let t_bits = t * SCALE18;
    let a_bits = a * SCALE18;
    let divisor = sat_u128(t_bits + tao * SCALE18);
    assert(t_bits + tao * SCALE18 <= u128::MAX) by (nonlinear_arith)
        requires
            0 <= t <= u64::MAX,
            0 <= tao <= u64::MAX,
            t_bits == t * SCALE18,
            SCALE18 == 0x40000,
    ;
    assert(divisor == (t + tao) * SCALE18) by (nonlinear_arith)
        requires
            divisor == sat_u128(t_bits + tao * SCALE18),
            t_bits + tao * SCALE18 <= u128::MAX,
            t_bits == t * SCALE18,
            0 <= t,
            0 <= tao,
            SCALE18 == 0x40000,
    ;
    let k_bits = fix_mul_spec(a_bits, t_bits, SCALE18 as int);
    assert((a_bits * t_bits) / SCALE18 as int == a * t * SCALE18) by (nonlinear_arith)
        requires
            a_bits == a * SCALE18,
            t_bits == t * SCALE18,
            SCALE18 == 0x40000,
    ;
    assert(k_bits == a * t * SCALE18);
    let m = fix_div_spec(k_bits, divisor, SCALE18 as int);
    assert((k_bits * SCALE18) / ((t + tao) * SCALE18) == k_bits / (t + tao)) by (nonlinear_arith)
        requires
            k_bits >= 0,
            t + tao > 0,
            SCALE18 == 0x40000,
    ;
    assert(k_bits / (t + tao) <= u128::MAX) by (nonlinear_arith)
        requires
            0 <= k_bits <= u128::MAX,
            t + tao > 0,
    ;
    assert(m == (a * t * SCALE18) / (t + tao));
    assert(m >= ml * SCALE18);
    let out_wide = sat_u128(a_bits - m);
    assert(m <= a_bits) by (nonlinear_arith)
        requires
            m == (a * t * SCALE18) / (t + tao),
            a_bits == a * SCALE18,
            0 <= a,
            0 <= t,
            t + tao > 0,
            tao >= 0,
            SCALE18 == 0x40000,
    ;
    assert(out_wide == a_bits - m);
    let out_q = out_wide / SCALE18 as int;
    assert(out_q <= a && out_q >= 0) by (nonlinear_arith)
        requires
            out_q == (a_bits - m) / SCALE18 as int,
            a_bits == a * SCALE18,
            0 <= m <= a_bits,
            SCALE18 == 0x40000,
            0 <= a,
    ;
    assert(sat_u64(out_q) == out_q);
    lemma_amm_formula(t, a, tao as int, ml, m, out_q);
}

/// The pool invariant for a successful alpha-to-tao swap on a Dynamic
/// subnet whose reserve product does not saturate the pool layout: the
/// mirror image of the staking direction, with the tao reserve
/// shrinking against the liquidity floor.
pub proof fn lemma_unstake_preserves_product(p: Pallet, netuid: u16, alpha: u64)
    requires
        p.mechanism(netuid) == Mechanism::Dynamic,
        p.tao_reserve(netuid) * p.alpha_in(netuid) * SCALE18 <= u128::MAX,
        p.alpha_in(netuid) + alpha > 0,
        sim_swap_alpha_for_tao_spec(p, netuid, alpha) is Some,
    ensures
        ({
            let t = p.tao_reserve(netuid) as int;
            let a = p.alpha_in(netuid) as int;
            let out = sim_swap_alpha_for_tao_spec(p, netuid, alpha)->Some_0 as int;
            &&& 0 <= out <= t
            &&& t - out >= p.min_pool_liquidity
            &&& (a + alpha) * (t - out) <= a * t + (a + alpha)
            &&& (a + alpha) * (t - out) + (a + alpha) > a * t
        }),
{
    let t = p.tao_reserve(netuid) as int;
    let a = p.alpha_in(netuid) as int;
    let ml = p.min_pool_liquidity as int;
    let t_bits = t * SCALE18;
    let a_bits = a * SCALE18;
    let divisor = sat_u128(a_bits + alpha * SCALE18);
    assert(a_bits + alpha * SCALE18 <= u128::MAX) by (nonlinear_arith)
        requires
            0 <= a <= u64::MAX,
            0 <= alpha <= u64::MAX,
            a_bits == a * SCALE18,
            SCALE18 == 0x40000,
    ;
    assert(divisor == (a + alpha) * SCALE18) by (nonlinear_arith)
        requires
            divisor == sat_u128(a_bits + alpha * SCALE18),
            a_bits + alpha * SCALE18 <= u128::MAX,
            a_bits == a * SCALE18,
            0 <= a,
            0 <= alpha,
            SCALE18 == 0x40000,
    ;
    let k_bits = fix_mul_spec(a_bits, t_bits, SCALE18 as int);
    assert((a_bits * t_bits) / SCALE18 as int == t * a * SCALE18) by (nonlinear_arith)
        requires
            a_bits == a * SCALE18,
            t_bits == t * SCALE18,
            SCALE18 == 0x40000,
    ;
    assert(k_bits == t * a * SCALE18);
    let m = fix_div_spec(k_bits, divisor, SCALE18 as int);
    assert((k_bits * SCALE18) / ((a + alpha) * SCALE18) == k_bits / (a + alpha)) by (nonlinear_arith)
        requires
            k_bits >= 0,
            a + alpha > 0,
            SCALE18 == 0x40000,
    ;
    assert(k_bits / (a + alpha) <= u128::MAX) by (nonlinear_arith)
        requires
            0 <= k_bits <= u128::MAX,
            a + alpha > 0,
    ;
    assert(m == (t * a * SCALE18) / (a + alpha));
    assert(m >= ml * SCALE18);
    let out_wide = sat_u128(t_bits - m);
    assert(m <= t_bits) by (nonlinear_arith)
        requires
            m == (t * a * SCALE18) / (a + alpha),
            t_bits == t * SCALE18,
            0 <= t,
            0 <= a,
            a + alpha > 0,
            alpha >= 0,
            SCALE18 == 0x40000,
    ;
    assert(out_wide == t_bits - m);
    let out_q = out_wide / SCALE18 as int;
    assert(out_q <= t && out_q >= 0) by (nonlinear_arith)
        requires
            out_q == (t_bits - m) / SCALE18 as int,
            t_bits == t * SCALE18,
            0 <= m <= t_bits,
            SCALE18 == 0x40000,
            0 <= t,
    ;
    assert(sat_u64(out_q) == out_q);
    lemma_amm_formula(a, t, alpha as int, ml, m, out_q);
}

/// Read of a defaulting list cell.
pub open spec fn cell_or_list(
    m: Map<crate::store::LedgerKey, Vec<u64>>,
    k: crate::store::LedgerKey,
) -> Seq<u64> {
    if m.contains_key(k) {
        m[k]@
    } else {
        Seq::empty()
    }
}

/// An owned copy of a key list.
fn copy_u64s(v: &Vec<u64>) -> (out: Vec<u64>)
    ensures
        out@ == v@,
{
    let mut out: Vec<u64> = Vec::new();
    let mut i: usize = 0;
    while i < v.len()
        invariant
            i <= v.len(),
            out@ == v@.take(i as int),
        decreases v.len() - i,
    {
        out.push(v[i]);
        proof {
            assert(v@.take(i + 1) =~= v@.take(i as int).push(v@[i as int]));
        }
        i = i + 1;
    }
    proof {
        assert(v@.take(v@.len() as int) =~= v@);
    }
    out
}

/// Whether a key list holds a key.
fn contains_u64(v: &Vec<u64>, x: u64) -> (r: bool)
    ensures
        r == v@.contains(x),
{
    let mut i: usize = 0;
    while i < v.len()
        invariant
            i <= v.len(),
            forall|j: int| 0 <= j < i ==> v@[j] != x,
        decreases v.len() - i,
    {
        if v[i] == x {
            return true;
        }
        i = i + 1;
    }
    false
}

} // verus!
