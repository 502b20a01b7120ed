use stake_engine::fixed::{UFix32, SCALE32};
use stake_engine::pallet::{Mechanism, Pallet};
use stake_engine::store::subnet_key;

fn dynamic_subnet(netuid: u16, tao: u64, alpha_in: u64) -> Pallet {
    let mut p = Pallet::new();
    p.networks_added.insert(subnet_key(netuid), true);
    p.subnet_mechanism.insert(subnet_key(netuid), Mechanism::Dynamic);
    p.subnet_tao.insert(subnet_key(netuid), tao);
    p.subnet_alpha_in.insert(subnet_key(netuid), alpha_in);
    p
}

#[test]
fn root_and_stable_subnets_are_pegged_at_one() {
    let p = Pallet::new();
    assert_eq!(p.get_alpha_price(0).bits, SCALE32);
    assert_eq!(p.get_alpha_price(9).bits, SCALE32);
    assert_eq!(p.get_moving_alpha_price(0).bits, SCALE32);
}

#[test]
fn dynamic_price_is_the_reserve_ratio() {
    let p = dynamic_subnet(1, 3_000_000, 1_000_000);
    assert_eq!(p.get_alpha_price(1).bits, 3 * SCALE32);
    let half = dynamic_subnet(2, 1, 2);
    assert_eq!(half.get_alpha_price(2).bits, SCALE32 / 2);
}

#[test]
fn empty_pool_is_priced_at_zero() {
    let p = dynamic_subnet(1, 5, 0);
    assert_eq!(p.get_alpha_price(1).bits, 0);
}

#[test]
fn smoothing_factor_saturates_at_deep_liquidity() {
    let l = UFix32::from_u64(1_000);
    let m = UFix32::from_u64(1_000);
    assert_eq!(Pallet::compute_alpha_for_ema(l, m).bits, SCALE32);
    let deeper = UFix32::from_u64(2_000);
    assert_eq!(Pallet::compute_alpha_for_ema(deeper, m).bits, SCALE32);
}

#[test]
fn smoothing_factor_at_zero_liquidity_vanishes() {
    // x = -1 puts the cubic at -10, so the factor is 10^-10, which is
    // below one representable unit at 32 fractional bits.
    let l = UFix32::from_u64(0);
    let m = UFix32::from_u64(1_000);
    assert_eq!(Pallet::compute_alpha_for_ema(l, m).bits, 0);
}

#[test]
fn smoothing_factor_at_half_liquidity_is_ten_to_minus_four() {
    // x = 0 puts the cubic at -4: four decades of division by ten.
    let l = UFix32::from_u64(500);
    let m = UFix32::from_u64(1_000);
    assert_eq!(Pallet::compute_alpha_for_ema(l, m).bits, 429_496);
}

#[test]
fn fixed_sqrt_exact_values() {
    assert_eq!(UFix32::from_u64(4).fixed_sqrt().bits, 2 * SCALE32);
    assert_eq!(UFix32::from_u64(2).fixed_sqrt().bits, 6_074_000_999);
    assert_eq!(UFix32::from_u64(0).fixed_sqrt().bits, 0);
}

#[test]
fn moving_price_never_exceeds_spot_price() {
    let mut p = dynamic_subnet(1, 3_000_000_000_000, 1_000_000_000_000);
    p.liquidity_scale_max.insert(subnet_key(1), 10_000);
    p.update_moving_price(1);
    let moving = p.get_moving_alpha_price(1);
    let spot = p.get_alpha_price(1);
    assert!(moving.bits <= spot.bits);
    // Repeated refreshes keep the bound.
    p.update_moving_price(1);
    p.update_moving_price(1);
    assert!(p.get_moving_alpha_price(1).bits <= p.get_alpha_price(1).bits);
}

#[test]
fn shallow_pool_tracks_spot_price_immediately() {
    // Liquidity at or above the scale maximum gives factor one: the
    // moving price lands exactly on the spot price.
    let mut p = dynamic_subnet(1, 5_000_000_000, 5_000_000_000);
    p.liquidity_scale_max.insert(subnet_key(1), 1);
    p.update_moving_price(1);
    assert_eq!(p.get_moving_alpha_price(1).bits, p.get_alpha_price(1).bits);
}
