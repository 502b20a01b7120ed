use stake_engine::pallet::{Mechanism, Pallet};
use stake_engine::store::subnet_key;

fn dynamic_subnet(netuid: u16, tao: u64, alpha_in: u64) -> Pallet {
    let mut p = Pallet::new();
    p.networks_added.insert(subnet_key(netuid), true);
    p.subnet_mechanism.insert(subnet_key(netuid), Mechanism::Dynamic);
    p.subnet_tao.insert(subnet_key(netuid), tao);
    p.subnet_alpha_in.insert(subnet_key(netuid), alpha_in);
    p
}

#[test]
fn stake_unstake_round_trip_with_slippage() {
    // A Dynamic pool with k = 10^12: staking 1_000 tao yields 999 alpha
    // (rounded down), and unstaking those 999 alpha returns 999 tao.
    let mut p = dynamic_subnet(1, 1_000_000, 1_000_000);
    assert_eq!(p.sim_swap_tao_for_alpha(1, 1_000), Some(999));
    let alpha = p.swap_tao_for_alpha(1, 1_000);
    assert_eq!(alpha, 999);
    assert_eq!(p.tao_reserve_read(1), 1_001_000);
    assert_eq!(p.alpha_in_read(1), 999_001);
    let tao_back = p.swap_alpha_for_tao(1, 999);
    assert_eq!(tao_back, 999);
}

#[test]
fn stable_subnet_swaps_one_to_one() {
    let mut p = Pallet::new();
    p.networks_added.insert(subnet_key(2), true);
    p.subnet_mechanism.insert(subnet_key(2), Mechanism::Stable);
    assert_eq!(p.sim_swap_tao_for_alpha(2, 12345), Some(12345));
    assert_eq!(p.sim_swap_alpha_for_tao(2, 777), Some(777));
    assert_eq!(p.swap_tao_for_alpha(2, 10), 10);
}

#[test]
fn liquidity_floor_rejects_draining_swap() {
    let mut p = dynamic_subnet(3, 1_000_000, 1_000_000);
    p.min_pool_liquidity = 999_500;
    // The swap would push the alpha reserve below the floor.
    assert_eq!(p.sim_swap_tao_for_alpha(3, 1_000), None);
    let before_tao = p.tao_reserve_read(3);
    let before_alpha = p.alpha_in_read(3);
    assert_eq!(p.swap_tao_for_alpha(3, 1_000), 0);
    assert_eq!(p.tao_reserve_read(3), before_tao);
    assert_eq!(p.alpha_in_read(3), before_alpha);
}

#[test]
fn swap_moves_all_counters_atomically() {
    let mut p = dynamic_subnet(4, 1_000_000, 1_000_000);
    let alpha = p.swap_tao_for_alpha(4, 1_000);
    assert_eq!(p.get_alpha_issuance(4), 999_001 + alpha);
    assert_eq!(p.total_stake, 1_000);
}

#[test]
fn stake_into_subnet_credits_pair_and_fee() {
    let mut p = dynamic_subnet(5, 1_000_000, 1_000_000);
    p.current_block = 7;
    let actual = p.stake_into_subnet(10, 20, 5, 1_000, 0);
    assert_eq!(actual, 999);
    assert_eq!(p.get_stake_for_hotkey_and_coldkey_on_subnet(10, 20, 5), 999);
    assert_eq!(p.get_stake_for_hotkey_on_subnet(10, 5), 999);
    assert_eq!(p.tao_reserve_read(5), 1_001_000);
}

#[test]
fn stake_into_subnet_takes_fee_first() {
    let mut p = dynamic_subnet(6, 1_000_000, 1_000_000);
    // Fee of 100 leaves 900 to swap; the fee is credited to the pool.
    let actual = p.stake_into_subnet(10, 20, 6, 1_000, 100);
    assert!(actual < 999 && actual > 0);
    assert_eq!(p.tao_reserve_read(6), 1_001_000);
}

#[test]
fn unstake_from_subnet_returns_tao_minus_fee() {
    let mut p = dynamic_subnet(7, 1_000_000, 1_000_000);
    let staked = p.stake_into_subnet(10, 20, 7, 1_000, 0);
    assert_eq!(staked, 999);
    let tao_out = p.unstake_from_subnet(10, 20, 7, 999, 9);
    assert_eq!(tao_out, 999 - 9);
    assert_eq!(p.get_stake_for_hotkey_and_coldkey_on_subnet(10, 20, 7), 0);
}

#[test]
fn unstake_without_stake_is_a_no_op() {
    let mut p = dynamic_subnet(8, 1_000_000, 1_000_000);
    let tao_out = p.unstake_from_subnet(10, 20, 8, 500, 0);
    assert_eq!(tao_out, 0);
    assert_eq!(p.tao_reserve_read(8), 1_000_000);
}
