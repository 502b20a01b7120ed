use stake_engine::fixed::UFix32;
use stake_engine::pallet::{Mechanism, Pallet};
use stake_engine::store::{account_key, subnet_key};
use stake_engine::validate::StakeError;

fn ready_subnet(netuid: u16) -> Pallet {
    let mut p = Pallet::new();
    p.networks_added.insert(subnet_key(netuid), true);
    p.subnet_mechanism.insert(subnet_key(netuid), Mechanism::Dynamic);
    p.subnet_tao.insert(subnet_key(netuid), 1_000_000);
    p.subnet_alpha_in.insert(subnet_key(netuid), 1_000_000);
    p.hotkey_accounts.insert(account_key(1), true);
    p.balances.insert(account_key(100), 1_000_000);
    p
}

#[test]
fn add_stake_passes_on_a_ready_subnet() {
    let p = ready_subnet(1);
    assert_eq!(p.validate_add_stake(100, 1, 1, 10_000, 10_000, false), Ok(()));
}

#[test]
fn add_stake_requires_an_existing_subnet() {
    let p = ready_subnet(1);
    assert_eq!(
        p.validate_add_stake(100, 1, 9, 10_000, 10_000, false),
        Err(StakeError::SubnetNotExists)
    );
}

#[test]
fn add_stake_enforces_the_minimum_amount() {
    let mut p = ready_subnet(1);
    p.default_min_stake = 500;
    p.default_staking_fee = 100;
    // The amount must strictly exceed minimum stake plus fee: equality
    // is still too low.
    assert_eq!(
        p.validate_add_stake(100, 1, 1, 600, 10_000, false),
        Err(StakeError::AmountTooLow)
    );
    assert_eq!(p.validate_add_stake(100, 1, 1, 601, 10_000, false), Ok(()));
}

#[test]
fn add_stake_enforces_the_slippage_ceiling() {
    let p = ready_subnet(1);
    assert_eq!(
        p.validate_add_stake(100, 1, 1, 10_000, 9_999, false),
        Err(StakeError::SlippageTooHigh)
    );
    // Partial fills ignore the ceiling.
    assert_eq!(p.validate_add_stake(100, 1, 1, 10_000, 9_999, true), Ok(()));
}

#[test]
fn add_stake_requires_balance_and_hotkey() {
    let p = ready_subnet(1);
    assert_eq!(
        p.validate_add_stake(100, 1, 1, 1_000_001, 2_000_000, false),
        Err(StakeError::NotEnoughBalanceToStake)
    );
    assert_eq!(
        p.validate_add_stake(100, 2, 1, 10_000, 10_000, false),
        Err(StakeError::HotKeyAccountNotExists)
    );
}

#[test]
fn add_stake_requires_liquidity() {
    let mut p = ready_subnet(1);
    p.min_pool_liquidity = 999_999;
    assert_eq!(
        p.validate_add_stake(100, 1, 1, 10_000, 10_000, false),
        Err(StakeError::InsufficientLiquidity)
    );
}

#[test]
fn remove_stake_checks_holding_and_conversion() {
    let mut p = ready_subnet(1);
    p.increase_stake_for_hotkey_and_coldkey_on_subnet(1, 100, 1, 5_000);
    assert_eq!(p.validate_remove_stake(100, 1, 1, 5_000, 5_000, false), Ok(()));
    assert_eq!(
        p.validate_remove_stake(100, 1, 1, 5_001, 6_000, false),
        Err(StakeError::NotEnoughStakeToWithdraw)
    );
    p.default_min_stake = 5_000;
    assert_eq!(
        p.validate_remove_stake(100, 1, 1, 5_000, 5_000, false),
        Err(StakeError::AmountTooLow)
    );
}

#[test]
fn stake_transition_checks_toggles_and_precision() {
    let mut p = ready_subnet(1);
    p.networks_added.insert(subnet_key(2), true);
    p.subnet_mechanism.insert(subnet_key(2), Mechanism::Dynamic);
    p.subnet_tao.insert(subnet_key(2), 1_000_000);
    p.subnet_alpha_in.insert(subnet_key(2), 1_000_000);
    p.hotkey_accounts.insert(account_key(3), true);
    p.increase_stake_for_hotkey_and_coldkey_on_subnet(1, 100, 1, 5_000);

    assert_eq!(
        p.validate_stake_transition(100, 100, 1, 3, 1, 2, 5_000, 5_000, None, false),
        Err(StakeError::SubtokenDisabled)
    );
    p.subtoken_enabled.insert(subnet_key(1), true);
    p.subtoken_enabled.insert(subnet_key(2), true);
    assert_eq!(
        p.validate_stake_transition(100, 100, 1, 3, 1, 2, 5_000, 5_000, None, false),
        Ok(())
    );
    assert_eq!(
        p.validate_stake_transition(100, 100, 1, 3, 1, 2, 5_000, 5_000, None, true),
        Err(StakeError::TransferDisallowed)
    );
    p.transfer_toggle.insert(subnet_key(1), true);
    p.transfer_toggle.insert(subnet_key(2), true);
    assert_eq!(
        p.validate_stake_transition(100, 100, 1, 3, 1, 2, 5_000, 5_000, None, true),
        Ok(())
    );
    assert_eq!(
        p.validate_stake_transition(100, 100, 1, 3, 1, 2, 5_000, 4_999, Some(false), false),
        Err(StakeError::SlippageTooHigh)
    );
}

#[test]
fn deposit_fee_is_the_flat_fee() {
    let mut p = ready_subnet(1);
    p.default_staking_fee = 7;
    assert_eq!(
        p.calculate_staking_fee(None, 100, Some((1, 1)), 100, UFix32::from_u64(1_000)),
        7
    );
    // Same-subnet moves use the flat fee too.
    assert_eq!(
        p.calculate_staking_fee(Some((1, 1)), 100, Some((2, 1)), 100, UFix32::from_u64(1_000)),
        7
    );
}

#[test]
fn dynamic_origin_fee_follows_dividends() {
    let mut p = ready_subnet(1);
    p.default_staking_fee = 7;
    p.alpha_dividends
        .insert(stake_engine::store::hotkey_subnet_key(1, 1), 50);
    p.total_hotkey_alpha_last_epoch
        .insert(stake_engine::store::hotkey_subnet_key(1, 1), 1_000);
    // 1_000 alpha converts to 999 tao; 5% of it is 49, above both
    // floors.
    assert_eq!(
        p.calculate_staking_fee(Some((1, 1)), 100, None, 100, UFix32::from_u64(1_000)),
        49
    );
}

#[test]
fn zero_epoch_stake_falls_back_to_the_flat_fee() {
    let mut p = ready_subnet(1);
    p.default_staking_fee = 7;
    p.alpha_dividends
        .insert(stake_engine::store::hotkey_subnet_key(1, 1), 50);
    assert_eq!(
        p.calculate_staking_fee(Some((1, 1)), 100, None, 100, UFix32::from_u64(1_000)),
        7
    );
}
