use stake_engine::fixed::UFix64;
use stake_engine::pallet::Pallet;
use stake_engine::store::hotkey_subnet_key;

#[test]
fn two_equal_owners_split_the_pool() {
    // Two coldkeys each add 500 to an empty pool: each owns exactly
    // half; one withdrawing 250 reduces only its own share.
    let mut p = Pallet::new();
    let a1 = p.increase_stake_for_hotkey_and_coldkey_on_subnet(1, 100, 1, 500);
    let a2 = p.increase_stake_for_hotkey_and_coldkey_on_subnet(1, 200, 1, 500);
    assert_eq!(a1, 500);
    assert_eq!(a2, 500);
    assert_eq!(p.get_stake_for_hotkey_on_subnet(1, 1), 1_000);
    assert_eq!(p.get_stake_for_hotkey_and_coldkey_on_subnet(1, 100, 1), 500);
    assert_eq!(p.get_stake_for_hotkey_and_coldkey_on_subnet(1, 200, 1), 500);
    let removed = p.decrease_stake_for_hotkey_and_coldkey_on_subnet(1, 200, 1, 250);
    assert_eq!(removed, 250);
    assert_eq!(p.get_stake_for_hotkey_and_coldkey_on_subnet(1, 200, 1), 250);
    assert_eq!(p.get_stake_for_hotkey_and_coldkey_on_subnet(1, 100, 1), 500);
}

#[test]
fn removal_beyond_holding_has_no_effect() {
    let mut p = Pallet::new();
    p.increase_stake_for_hotkey_and_coldkey_on_subnet(1, 100, 1, 500);
    let removed = p.decrease_stake_for_hotkey_and_coldkey_on_subnet(1, 100, 1, 501);
    assert_eq!(removed, 0);
    assert_eq!(p.get_stake_for_hotkey_and_coldkey_on_subnet(1, 100, 1), 500);
}

#[test]
fn removal_by_unknown_owner_has_no_effect() {
    let mut p = Pallet::new();
    p.increase_stake_for_hotkey_and_coldkey_on_subnet(1, 100, 1, 500);
    let removed = p.decrease_stake_for_hotkey_and_coldkey_on_subnet(1, 999, 1, 1);
    assert_eq!(removed, 0);
}

#[test]
fn single_owner_round_trip_is_exact() {
    let mut p = Pallet::new();
    p.increase_stake_for_hotkey_and_coldkey_on_subnet(7, 100, 3, 1_000);
    let gained = p.increase_stake_for_hotkey_and_coldkey_on_subnet(7, 100, 3, 333);
    assert_eq!(gained, 333);
    let removed = p.decrease_stake_for_hotkey_and_coldkey_on_subnet(7, 100, 3, 333);
    assert_eq!(removed, 333);
    assert_eq!(p.get_stake_for_hotkey_and_coldkey_on_subnet(7, 100, 3), 1_000);
}

#[test]
fn round_trip_at_a_fractional_price_stays_within_one_unit() {
    // Emissions push the price per share to 7/3, so the price
    // truncation costs exactly one unit on the imputed value; adding
    // and removing the same amount still round-trips to the same
    // value.
    let mut p = Pallet::new();
    p.increase_stake_for_hotkey_and_coldkey_on_subnet(7, 100, 3, 300);
    p.increase_stake_for_hotkey_on_subnet(7, 3, 400);
    let v0 = p.get_stake_for_hotkey_and_coldkey_on_subnet(7, 100, 3);
    assert_eq!(v0, 699);
    assert_eq!(p.get_stake_for_hotkey_on_subnet(7, 3), 700);
    let gained = p.increase_stake_for_hotkey_and_coldkey_on_subnet(7, 100, 3, 100);
    assert_eq!(gained, 100);
    let removed = p.decrease_stake_for_hotkey_and_coldkey_on_subnet(7, 100, 3, 100);
    assert_eq!(removed, 100);
    assert_eq!(p.get_stake_for_hotkey_and_coldkey_on_subnet(7, 100, 3), v0);
}

#[test]
fn emission_scales_every_owner() {
    let mut p = Pallet::new();
    p.increase_stake_for_hotkey_and_coldkey_on_subnet(1, 100, 1, 500);
    p.increase_stake_for_hotkey_and_coldkey_on_subnet(1, 200, 1, 500);
    p.increase_stake_for_hotkey_on_subnet(1, 1, 1_000);
    assert_eq!(p.get_stake_for_hotkey_on_subnet(1, 1), 2_000);
    assert_eq!(p.get_stake_for_hotkey_and_coldkey_on_subnet(1, 100, 1), 1_000);
    assert_eq!(p.get_stake_for_hotkey_and_coldkey_on_subnet(1, 200, 1), 1_000);
    p.decrease_stake_for_hotkey_on_subnet(1, 1, 1_000);
    assert_eq!(p.get_stake_for_hotkey_and_coldkey_on_subnet(1, 100, 1), 500);
}

#[test]
fn precision_probe_accepts_seed_and_normal_pools() {
    let mut p = Pallet::new();
    // Empty pool: any positive contribution seeds exactly.
    assert!(p.try_increase_stake_for_hotkey_and_coldkey_on_subnet(1, 1, 10));
    assert!(!p.try_increase_stake_for_hotkey_and_coldkey_on_subnet(1, 1, 0));
    p.increase_stake_for_hotkey_and_coldkey_on_subnet(1, 100, 1, 500);
    assert!(p.try_increase_stake_for_hotkey_and_coldkey_on_subnet(1, 1, 10));
}

#[test]
fn precision_probe_rejects_a_pool_too_coarse() {
    let mut p = Pallet::new();
    // A pool with a huge value behind a dust denominator mints no
    // shares for a one-token contribution.
    p.total_hotkey_alpha
        .insert(hotkey_subnet_key(1, 1), 1_000_000_000);
    p.total_hotkey_shares
        .insert(hotkey_subnet_key(1, 1), UFix64::from_bits(1));
    assert!(!p.try_increase_stake_for_hotkey_and_coldkey_on_subnet(1, 1, 1));
}

#[test]
fn coarse_pool_contribution_reports_zero() {
    let mut p = Pallet::new();
    p.total_hotkey_alpha
        .insert(hotkey_subnet_key(1, 1), 1_000_000_000);
    p.total_hotkey_shares
        .insert(hotkey_subnet_key(1, 1), UFix64::from_bits(1));
    let gained = p.increase_stake_for_hotkey_and_coldkey_on_subnet(1, 100, 1, 1);
    assert_eq!(gained, 0);
}
