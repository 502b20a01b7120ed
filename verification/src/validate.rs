//! Pre-mutation validation and fee calculation.
//!
//! Each check is a pure read of current state that either passes or
//! names the exact failure; nothing is mutated, so a caller re-checks
//! immediately before acting.  The checks run in a fixed order and the
//! first failure wins, so the reported error is deterministic.

use vstd::prelude::*;
use crate::fixed::UFix32;
use crate::fixed::SCALE32;
use crate::fixed::fix_div_spec;
use crate::fixed::fix_mul_spec;
use crate::fixed::sat_u64;
use crate::pallet::Mechanism;
use crate::pallet::Pallet;
use crate::pallet::ROOT_NETUID;
use crate::share_pool::precision_ok_spec;
use crate::store::account_key;
use crate::store::hotkey_subnet_key;
use crate::store::subnet_key;
use crate::swap::sim_swap_alpha_for_tao_spec;
use crate::swap::sim_swap_tao_for_alpha_spec;

verus! {

/// `0.00005` at 32 fractional bits, rounded to nearest: the per-epoch
/// fee floor that matches a compounding annual rate.
pub const APR_FLOOR_BITS: u128 = 214748;

/// Why a staking operation was refused.  Every validation failure is
/// one of these, reported before any state changes.
#[derive(Clone, Copy, PartialEq, Eq, Structural, Debug)]
pub enum StakeError {
    SubnetNotExists,
    AmountTooLow,
    SlippageTooHigh,
    NotEnoughBalanceToStake,
    HotKeyAccountNotExists,
    InsufficientLiquidity,
    NotEnoughStakeToWithdraw,
    TransferDisallowed,
    SubtokenDisabled,
}

/// The add-stake checks, in order: the subnet exists, the amount
/// strictly exceeds the minimum stake plus fee, the slippage ceiling
/// holds unless partial fills are allowed, the coldkey can pay, the
/// hotkey exists, the swap has liquidity, and the pool is precise
/// enough to record the result.
pub open spec fn validate_add_stake_spec(
    p: Pallet,
    coldkey: u64,
    hotkey: u64,
    netuid: u16,
    stake_to_be_added: u64,
    max_amount: u64,
    allow_partial: bool,
) -> Result<(), StakeError> {
    let min_amount = sat_u64(p.default_min_stake + p.default_staking_fee);
    if !p.subnet_exists(netuid) {
        Err(StakeError::SubnetNotExists)
    } else if stake_to_be_added <= min_amount {
        Err(StakeError::AmountTooLow)
    } else if !allow_partial && stake_to_be_added > max_amount {
        Err(StakeError::SlippageTooHigh)
    } else if p.balance_of(coldkey) < stake_to_be_added {
        Err(StakeError::NotEnoughBalanceToStake)
    } else if !p.hotkey_exists(hotkey) {
        Err(StakeError::HotKeyAccountNotExists)
    } else if sim_swap_tao_for_alpha_spec(p, netuid, stake_to_be_added) is None {
        Err(StakeError::InsufficientLiquidity)
    } else if !precision_ok_spec(
        p.hotkey_alpha(hotkey, netuid),
        p.hotkey_shares(hotkey, netuid).bits,
        sim_swap_tao_for_alpha_spec(p, netuid, stake_to_be_added)->Some_0,
    ) {
        Err(StakeError::InsufficientLiquidity)
    } else {
        Ok(())
    }
}

/// The remove-stake checks, in order: the subnet exists, the amount
/// converts above the minimum (with liquidity), the slippage ceiling
/// holds unless partial fills are allowed, the hotkey exists, and the
/// pair holds at least the requested stake.
pub open spec fn validate_remove_stake_spec(
    p: Pallet,
    coldkey: u64,
    hotkey: u64,
    netuid: u16,
    alpha_unstaked: u64,
    max_amount: u64,
    allow_partial: bool,
) -> Result<(), StakeError> {
    if !p.subnet_exists(netuid) {
        Err(StakeError::SubnetNotExists)
    } else if sim_swap_alpha_for_tao_spec(p, netuid, alpha_unstaked) is None {
        Err(StakeError::InsufficientLiquidity)
    } else if sim_swap_alpha_for_tao_spec(p, netuid, alpha_unstaked)->Some_0
        <= p.default_min_stake {
        Err(StakeError::AmountTooLow)
    } else if !allow_partial && alpha_unstaked > max_amount {
        Err(StakeError::SlippageTooHigh)
    } else if !p.hotkey_exists(hotkey) {
        Err(StakeError::HotKeyAccountNotExists)
    } else if p.pair_stake(hotkey, coldkey, netuid) < alpha_unstaked {
        Err(StakeError::NotEnoughStakeToWithdraw)
    } else {
        Ok(())
    }
}

/// The stake-transition checks for moves, transfers and swaps across
/// hotkeys and subnets, in order.
pub open spec fn validate_stake_transition_spec(
    p: Pallet,
    origin_coldkey: u64,
    origin_hotkey: u64,
    destination_hotkey: u64,
    origin_netuid: u16,
    destination_netuid: u16,
    alpha_amount: u64,
    max_amount: u64,
    maybe_allow_partial: Option<bool>,
    check_transfer_toggle: bool,
) -> Result<(), StakeError> {
    let tao_equivalent_result = sim_swap_alpha_for_tao_spec(p, origin_netuid, alpha_amount);
    let expected_alpha = (match sim_swap_tao_for_alpha_spec(
        p,
        destination_netuid,
        (if tao_equivalent_result is Some {
            tao_equivalent_result->Some_0
        } else {
            0
        }),
    ) {
        Some(a) => a,
        None => 0,
    });
    if !p.subnet_exists(origin_netuid) {
        Err(StakeError::SubnetNotExists)
    } else if origin_netuid != destination_netuid && !p.subnet_exists(destination_netuid) {
        Err(StakeError::SubnetNotExists)
    } else if !p.subtoken_on(origin_netuid) {
        Err(StakeError::SubtokenDisabled)
    } else if !p.subtoken_on(destination_netuid) {
        Err(StakeError::SubtokenDisabled)
    } else if !p.hotkey_exists(origin_hotkey) {
        Err(StakeError::HotKeyAccountNotExists)
    } else if !p.hotkey_exists(destination_hotkey) {
        Err(StakeError::HotKeyAccountNotExists)
    } else if alpha_amount > p.pair_stake(origin_hotkey, origin_coldkey, origin_netuid) {
        Err(StakeError::NotEnoughStakeToWithdraw)
    } else if tao_equivalent_result is None {
        Err(StakeError::InsufficientLiquidity)
    } else if tao_equivalent_result->Some_0 <= p.default_min_stake {
        Err(StakeError::AmountTooLow)
    } else if maybe_allow_partial == Some(false) && alpha_amount > max_amount {
        Err(StakeError::SlippageTooHigh)
    } else if !precision_ok_spec(
        p.hotkey_alpha(destination_hotkey, destination_netuid),
        p.hotkey_shares(destination_hotkey, destination_netuid).bits,
        expected_alpha,
    ) {
        Err(StakeError::InsufficientLiquidity)
    } else if check_transfer_toggle && !p.transfer_on(origin_netuid) {
        Err(StakeError::TransferDisallowed)
    } else if check_transfer_toggle && !p.transfer_on(destination_netuid) {
        Err(StakeError::TransferDisallowed)
    } else {
        Ok(())
    }
}

/// The staking fee, in tao: flat for deposits, same-subnet moves, root
/// and Stable origins; for a Dynamic origin, the dividend-proportional
/// fee on the converted estimate, floored by the compounding-rate
/// minimum and by the flat fee.
pub open spec fn staking_fee_spec(
    p: Pallet,
    origin: Option<(u64, u16)>,
    destination: Option<(u64, u16)>,
    alpha_estimate_bits: int,
) -> int {
    match origin {
        Some((origin_hotkey, origin_netuid)) => {
            if destination is Some && destination->Some_0.1 == origin_netuid {
                p.default_staking_fee as int
            } else if origin_netuid == ROOT_NETUID || p.mechanism(origin_netuid)
                != Mechanism::Dynamic {
                p.default_staking_fee as int
            } else {
                let tao_estimate = (match sim_swap_alpha_for_tao_spec(
                    p,
                    origin_netuid,
                    sat_u64(alpha_estimate_bits / SCALE32 as int) as u64,
                ) {
                    Some(t) => t,
                    None => 0,
                });
                let dividend_ratio = fix_div_spec(
                    crate::pallet::cell_or(
                        p.alpha_dividends@,
                        hotkey_subnet_key(origin_hotkey, origin_netuid),
                        0,
                    ) * SCALE32,
                    crate::pallet::cell_or(
                        p.total_hotkey_alpha_last_epoch@,
                        hotkey_subnet_key(origin_hotkey, origin_netuid),
                        0,
                    ) * SCALE32,
                    SCALE32 as int,
                );
                let fee = sat_u64(
                    fix_mul_spec(tao_estimate * SCALE32, dividend_ratio, SCALE32 as int)
                        / SCALE32 as int,
                );
                let floor_fee = sat_u64(
                    fix_mul_spec(tao_estimate * SCALE32, APR_FLOOR_BITS as int, SCALE32 as int)
                        / SCALE32 as int,
                );
                let raised = (if fee >= floor_fee {
                    fee
                } else {
                    floor_fee
                });
                if raised >= p.default_staking_fee {
                    raised
                } else {
                    p.default_staking_fee as int
                }
            }
        },
        None => p.default_staking_fee as int,
    }
}

impl Pallet {
    /// Validate an add-stake request; the first failing check names the
    /// error, and success means every check passed.
    pub fn validate_add_stake(
        &self,
        coldkey: u64,
        hotkey: u64,
        netuid: u16,
        stake_to_be_added: u64,
        max_amount: u64,
        allow_partial: bool,
    ) -> (r: Result<(), StakeError>)
        ensures
            r == validate_add_stake_spec(
                *self,
                coldkey,
                hotkey,
                netuid,
                stake_to_be_added,
                max_amount,
                allow_partial,
            ),
    {
        if !self.subnet_exists_read(netuid) {
            return Err(StakeError::SubnetNotExists);
        }
        let min_amount: u64 = self.default_min_stake.saturating_add(self.default_staking_fee);
        if stake_to_be_added <= min_amount {
            return Err(StakeError::AmountTooLow);
        }
        if !allow_partial && stake_to_be_added > max_amount {
            return Err(StakeError::SlippageTooHigh);
        }
        if !self.can_remove_balance_from_coldkey_account(coldkey, stake_to_be_added) {
            return Err(StakeError::NotEnoughBalanceToStake);
        }
        if !self.hotkey_account_exists(hotkey) {
            return Err(StakeError::HotKeyAccountNotExists);
        }
        let expected_alpha: Option<u64> = self.sim_swap_tao_for_alpha(netuid, stake_to_be_added);
        let expected: u64 = match expected_alpha {
            Some(a) => a,
            None => {
                return Err(StakeError::InsufficientLiquidity);
            },
        };
        let try_stake_result: bool = self.try_increase_stake_for_hotkey_and_coldkey_on_subnet(
            hotkey,
            netuid,
            expected,
        );
        if !try_stake_result {
            return Err(StakeError::InsufficientLiquidity);
        }
        Ok(())
    }

    /// Validate a remove-stake request; the first failing check names
    /// the error, and success means every check passed.
    pub fn validate_remove_stake(
        &self,
        coldkey: u64,
        hotkey: u64,
        netuid: u16,
        alpha_unstaked: u64,
        max_amount: u64,
        allow_partial: bool,
    ) -> (r: Result<(), StakeError>)
        ensures
            r == validate_remove_stake_spec(
                *self,
                coldkey,
                hotkey,
                netuid,
                alpha_unstaked,
                max_amount,
                allow_partial,
            ),
    {
        if !self.subnet_exists_read(netuid) {
            return Err(StakeError::SubnetNotExists);
        }
        match self.sim_swap_alpha_for_tao(netuid, alpha_unstaked) {
            Some(tao_equivalent) => {
                if tao_equivalent <= self.default_min_stake {
                    return Err(StakeError::AmountTooLow);
                }
            },
            None => {
                return Err(StakeError::InsufficientLiquidity);
            },
        }
        if !allow_partial && alpha_unstaked > max_amount {
            return Err(StakeError::SlippageTooHigh);
        }
        if !self.hotkey_account_exists(hotkey) {
            return Err(StakeError::HotKeyAccountNotExists);
        }
        if !self.has_enough_stake_on_subnet(hotkey, coldkey, netuid, alpha_unstaked) {
            return Err(StakeError::NotEnoughStakeToWithdraw);
        }
        Ok(())
    }

    /// Validate a stake move, transfer or swap across hotkeys and/or
    /// subnets; the first failing check names the error.
    pub fn validate_stake_transition(
        &self,
        origin_coldkey: u64,
        destination_coldkey: u64,
        origin_hotkey: u64,
        destination_hotkey: u64,
        origin_netuid: u16,
        destination_netuid: u16,
        alpha_amount: u64,
        max_amount: u64,
        maybe_allow_partial: Option<bool>,
        check_transfer_toggle: bool,
    ) -> (r: Result<(), StakeError>)
        ensures
            r == validate_stake_transition_spec(
                *self,
                origin_coldkey,
                origin_hotkey,
                destination_hotkey,
                origin_netuid,
                destination_netuid,
                alpha_amount,
                max_amount,
                maybe_allow_partial,
                check_transfer_toggle,
            ),
    {
        if !self.subnet_exists_read(origin_netuid) {
            return Err(StakeError::SubnetNotExists);
        }
        if origin_netuid != destination_netuid && !self.subnet_exists_read(destination_netuid) {
            return Err(StakeError::SubnetNotExists);
        }
        if !self.subtoken_enabled_read(origin_netuid) {
            return Err(StakeError::SubtokenDisabled);
        }
        if !self.subtoken_enabled_read(destination_netuid) {
            return Err(StakeError::SubtokenDisabled);
        }
        if !self.hotkey_account_exists(origin_hotkey) {
            return Err(StakeError::HotKeyAccountNotExists);
        }
        if !self.hotkey_account_exists(destination_hotkey) {
            return Err(StakeError::HotKeyAccountNotExists);
        }
        let origin_alpha: u64 = self.get_stake_for_hotkey_and_coldkey_on_subnet(
            origin_hotkey,
            origin_coldkey,
            origin_netuid,
        );
        if alpha_amount > origin_alpha {
            return Err(StakeError::NotEnoughStakeToWithdraw);
        }
        let tao_equivalent_result: Option<u64> = self.sim_swap_alpha_for_tao(
            origin_netuid,
            alpha_amount,
        );
        let tao_equivalent: u64 = match tao_equivalent_result {
            Some(t) => t,
            None => {
                return Err(StakeError::InsufficientLiquidity);
            },
        };
        if tao_equivalent <= self.default_min_stake {
            return Err(StakeError::AmountTooLow);
        }
        if let Some(allow_partial) = maybe_allow_partial {
            if !allow_partial && alpha_amount > max_amount {
                return Err(StakeError::SlippageTooHigh);
            }
        }
        let expected_alpha: u64 = match self.sim_swap_tao_for_alpha(
            destination_netuid,
            tao_equivalent,
        ) {
            Some(a) => a,
            None => 0,
        };
        let try_stake_result: bool = self.try_increase_stake_for_hotkey_and_coldkey_on_subnet(
            destination_hotkey,
            destination_netuid,
            expected_alpha,
        );
        if !try_stake_result {
            return Err(StakeError::InsufficientLiquidity);
        }
        if check_transfer_toggle {
            if !self.transfer_toggle_read(origin_netuid) {
                return Err(StakeError::TransferDisallowed);
            }
            if !self.transfer_toggle_read(destination_netuid) {
                return Err(StakeError::TransferDisallowed);
            }
        }
        Ok(())
    }

    /// The fee for a staking operation: flat for deposits, same-subnet
    /// moves and non-Dynamic origins; otherwise proportional to the
    /// origin hotkey's dividends over its last-epoch stake (a zero
    /// last-epoch stake falls back to the flat fee), floored by the
    /// compounding-rate minimum.
    pub fn calculate_staking_fee(
        &self,
        origin: Option<(u64, u16)>,
        origin_coldkey: u64,
        destination: Option<(u64, u16)>,
        destination_coldkey: u64,
        alpha_estimate: UFix32,
    ) -> (r: u64)
        ensures
            r == staking_fee_spec(*self, origin, destination, alpha_estimate.bits as int),
    {
        let (origin_hotkey, origin_netuid): (u64, u16) = match origin {
            Some(pair) => pair,
            None => {
                return self.default_staking_fee;
            },
        };
        if let Some((_destination_hotkey, destination_netuid)) = destination {
            if destination_netuid == origin_netuid {
                return self.default_staking_fee;
            }
        }
        let mech: Mechanism = match self.subnet_mechanism.get(subnet_key(origin_netuid)) {
            Some(m) => *m,
            None => Mechanism::Stable,
        };
        if origin_netuid == ROOT_NETUID || mech != Mechanism::Dynamic {
            return self.default_staking_fee;
        }
        let tao_estimate: UFix32 = UFix32::from_u64(
            match self.sim_swap_alpha_for_tao(origin_netuid, alpha_estimate.to_u64_sat()) {
                Some(t) => t,
                None => 0,
            },
        );
        let dividends: u64 = match self.alpha_dividends.get(
            hotkey_subnet_key(origin_hotkey, origin_netuid),
        ) {
            Some(v) => *v,
            None => 0,
        };
        let last_epoch: u64 = match self.total_hotkey_alpha_last_epoch.get(
            hotkey_subnet_key(origin_hotkey, origin_netuid),
        ) {
            Some(v) => *v,
            None => 0,
        };
        let ratio: UFix32 = UFix32::from_u64(dividends).safe_div(UFix32::from_u64(last_epoch));
        let mut fee: u64 = tao_estimate.saturating_mul(ratio).to_u64_sat();
        let apr_floor: UFix32 = UFix32::from_bits(APR_FLOOR_BITS);
        let floor_fee: u64 = tao_estimate.saturating_mul(apr_floor).to_u64_sat();
        if floor_fee > fee {
            fee = floor_fee;
        }
        if fee >= self.default_staking_fee {
            fee
        } else {
            self.default_staking_fee
        }
    }

    /// Exec read of subnet existence.
    pub fn subnet_exists_read(&self, netuid: u16) -> (r: bool)
        ensures
            r == self.subnet_exists(netuid),
    {
        match self.networks_added.get(subnet_key(netuid)) {
            Some(b) => *b,
            None => false,
        }
    }

    /// Exec read of the subtoken flag.
    pub fn subtoken_enabled_read(&self, netuid: u16) -> (r: bool)
        ensures
            r == self.subtoken_on(netuid),
    {
        match self.subtoken_enabled.get(subnet_key(netuid)) {
            Some(b) => *b,
            None => false,
        }
    }

    /// Exec read of the transfer flag.
    pub fn transfer_toggle_read(&self, netuid: u16) -> (r: bool)
        ensures
            r == self.transfer_on(netuid),
    {
        match self.transfer_toggle.get(subnet_key(netuid)) {
            Some(b) => *b,
            None => false,
        }
    }

    /// Whether a coldkey's spendable balance covers an amount.
    pub fn can_remove_balance_from_coldkey_account(&self, coldkey: u64, amount: u64) -> (r: bool)
        ensures
            r == (self.balance_of(coldkey) >= amount),
    {
        let balance: u64 = match self.balances.get(account_key(coldkey)) {
            Some(b) => *b,
            None => 0,
        };
        balance >= amount
    }

    /// Whether a hotkey account exists.
    pub fn hotkey_account_exists(&self, hotkey: u64) -> (r: bool)
        ensures
            r == self.hotkey_exists(hotkey),
    {
        match self.hotkey_accounts.get(account_key(hotkey)) {
            Some(b) => *b,
            None => false,
        }
    }
}

} // verus!
