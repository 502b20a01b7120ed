use stake_engine::pallet::Pallet;
use stake_engine::store::{hotkey_subnet_key, uid_key};

#[test]
fn child_edge_halves_the_effective_stake() {
    let mut p = Pallet::new();
    p.total_hotkey_alpha.insert(hotkey_subnet_key(1, 5), 1_000);
    p.children
        .insert(hotkey_subnet_key(1, 5), vec![(u64::MAX / 2, 2)]);
    assert_eq!(p.get_inherited_for_hotkey_on_subnet(1, 5), 500);
}

#[test]
fn parent_edge_adds_the_parent_raw_stake() {
    let mut p = Pallet::new();
    p.total_hotkey_alpha.insert(hotkey_subnet_key(1, 5), 1_000);
    p.total_hotkey_alpha.insert(hotkey_subnet_key(9, 5), 2_000);
    p.parents.insert(hotkey_subnet_key(1, 5), vec![(u64::MAX, 9)]);
    assert_eq!(p.get_inherited_for_hotkey_on_subnet(1, 5), 3_000);
}

#[test]
fn children_only_never_gain_parents_only_never_lose() {
    let mut p = Pallet::new();
    p.total_hotkey_alpha.insert(hotkey_subnet_key(1, 5), 1_000);
    p.children
        .insert(hotkey_subnet_key(1, 5), vec![(u64::MAX / 3, 2), (u64::MAX / 3, 3)]);
    assert!(p.get_inherited_for_hotkey_on_subnet(1, 5) <= 1_000);

    let mut q = Pallet::new();
    q.total_hotkey_alpha.insert(hotkey_subnet_key(4, 5), 1_000);
    q.total_hotkey_alpha.insert(hotkey_subnet_key(9, 5), 500);
    q.parents.insert(hotkey_subnet_key(4, 5), vec![(u64::MAX / 4, 9)]);
    assert!(q.get_inherited_for_hotkey_on_subnet(4, 5) >= 1_000);
}

#[test]
fn root_subnet_does_not_redistribute() {
    let mut p = Pallet::new();
    p.total_hotkey_alpha.insert(hotkey_subnet_key(1, 0), 1_000);
    p.children.insert(hotkey_subnet_key(1, 0), vec![(u64::MAX, 2)]);
    assert_eq!(p.get_inherited_for_hotkey_on_subnet(1, 0), 1_000);
}

#[test]
fn tao_inheritance_reads_root_stakes_through_subnet_edges() {
    let mut p = Pallet::new();
    p.total_hotkey_alpha.insert(hotkey_subnet_key(1, 0), 4_000);
    p.total_hotkey_alpha.insert(hotkey_subnet_key(9, 0), 1_000);
    p.parents.insert(hotkey_subnet_key(1, 5), vec![(u64::MAX, 9)]);
    assert_eq!(p.get_tao_inherited_for_hotkey_on_subnet(1, 5), 5_000);
}

#[test]
fn tao_weight_is_normalized_against_u64_max() {
    let mut p = Pallet::new();
    p.set_tao_weight(1 << 63);
    assert_eq!(p.get_tao_weight().bits, 2_147_483_648);
    p.set_tao_weight(u64::MAX);
    assert_eq!(p.get_tao_weight().bits, 1 << 32);
    p.set_tao_weight(0);
    assert_eq!(p.get_tao_weight().bits, 0);
}

#[test]
fn stake_weights_combine_alpha_and_weighted_tao() {
    let mut p = Pallet::new();
    p.set_tao_weight(u64::MAX);
    p.total_hotkey_alpha.insert(hotkey_subnet_key(1, 5), 100);
    p.total_hotkey_alpha.insert(hotkey_subnet_key(1, 0), 40);
    let (total, alpha, tao) = p.get_stake_weights_for_hotkey_on_subnet(1, 5);
    assert_eq!(alpha.bits, 100i128 << 64);
    assert_eq!(tao.bits, 40i128 << 64);
    assert_eq!(total.bits, 140i128 << 64);
}

#[test]
fn network_weights_run_in_slot_order() {
    let mut p = Pallet::new();
    p.set_tao_weight(0);
    p.subnetwork_n.insert(stake_engine::store::subnet_key(5), 3);
    p.keys_present.insert(uid_key(5, 0), true);
    p.keys.insert(uid_key(5, 0), 11);
    p.keys_present.insert(uid_key(5, 2), true);
    p.keys.insert(uid_key(5, 2), 12);
    p.total_hotkey_alpha.insert(hotkey_subnet_key(11, 5), 7);
    p.total_hotkey_alpha.insert(hotkey_subnet_key(12, 5), 9);
    let (total, alpha, _tao) = p.get_stake_weights_for_network(5);
    assert_eq!(alpha.len(), 3);
    assert_eq!(alpha[0].bits, 7i128 << 64);
    assert_eq!(alpha[1].bits, 0);
    assert_eq!(alpha[2].bits, 9i128 << 64);
    assert_eq!(total[0].bits, 7i128 << 64);
}

#[test]
fn has_enough_stake_checks_the_exact_pair() {
    let mut p = Pallet::new();
    p.increase_stake_for_hotkey_and_coldkey_on_subnet(1, 100, 5, 600);
    assert!(p.has_enough_stake_on_subnet(1, 100, 5, 600));
    assert!(!p.has_enough_stake_on_subnet(1, 100, 5, 601));
    assert!(!p.has_enough_stake_on_subnet(1, 999, 5, 1));
}
