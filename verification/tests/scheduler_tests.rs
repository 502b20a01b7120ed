use stake_engine::pallet::Pallet;
use stake_engine::scheduler::StakeJob;
use stake_engine::store::block_key;

fn add(coldkey: u64) -> StakeJob {
    StakeJob::AddStake {
        hotkey: 1,
        coldkey,
        netuid: 1,
        stake_to_be_added: 10,
    }
}

fn remove(coldkey: u64) -> StakeJob {
    StakeJob::RemoveStake {
        hotkey: 1,
        coldkey,
        netuid: 1,
        alpha_unstaked: 10,
    }
}

fn queued(jobs: Vec<StakeJob>) -> Pallet {
    let mut p = Pallet::new();
    p.stake_jobs.insert(block_key(5), jobs);
    p
}

#[test]
fn withdrawals_run_before_deposits_sorted_by_coldkey() {
    let mut p = queued(vec![add(3), remove(1), add(1), remove(2)]);
    let order = p.do_on_finalize(6, 0x00);
    // Withdrawals ascending by coldkey, then deposits descending.
    assert_eq!(order, vec![remove(1), remove(2), add(3), add(1)]);
}

#[test]
fn the_entropy_bit_reverses_everything() {
    let mut p = queued(vec![add(3), remove(1), add(1), remove(2)]);
    let order = p.do_on_finalize(6, 0x80);
    // Deposits first, ascending; withdrawals last, descending.
    assert_eq!(order, vec![add(1), add(3), remove(2), remove(1)]);
}

#[test]
fn only_the_high_bit_matters() {
    let mut a = queued(vec![add(3), remove(1)]);
    let mut b = queued(vec![add(3), remove(1)]);
    assert_eq!(a.do_on_finalize(6, 0x7f), b.do_on_finalize(6, 0x00));
}

#[test]
fn identical_inputs_give_identical_order() {
    let jobs = vec![add(9), remove(4), add(4), remove(9), add(9)];
    let mut a = queued(jobs.clone());
    let mut b = queued(jobs);
    assert_eq!(a.do_on_finalize(6, 0x80), b.do_on_finalize(6, 0x80));
}

#[test]
fn equal_coldkeys_keep_their_arrival_order() {
    let first = StakeJob::RemoveStake {
        hotkey: 1,
        coldkey: 5,
        netuid: 1,
        alpha_unstaked: 10,
    };
    let second = StakeJob::RemoveStake {
        hotkey: 2,
        coldkey: 5,
        netuid: 1,
        alpha_unstaked: 20,
    };
    let mut p = queued(vec![first, second]);
    assert_eq!(p.do_on_finalize(6, 0x00), vec![first, second]);
    let mut q = queued(vec![first, second]);
    // Reversing the comparator does not swap equal keys: the sort is
    // stable in both directions.
    assert_eq!(q.do_on_finalize(6, 0x80), vec![first, second]);
}

#[test]
fn jobs_are_drained_exactly_once() {
    let mut p = queued(vec![add(1), remove(2)]);
    let first = p.do_on_finalize(6, 0x00);
    assert_eq!(first.len(), 2);
    let second = p.do_on_finalize(6, 0x00);
    assert!(second.is_empty());
}

#[test]
fn jobs_wait_for_their_block() {
    let mut p = queued(vec![add(1)]);
    // The queue is keyed to run at block 6; finalizing block 5 drains
    // nothing and leaves the queue.
    assert!(p.do_on_finalize(5, 0x00).is_empty());
    assert_eq!(p.do_on_finalize(6, 0x00).len(), 1);
}

#[test]
fn all_six_kinds_land_in_their_buckets() {
    let rsl = StakeJob::RemoveStakeLimit {
        hotkey: 1,
        coldkey: 1,
        netuid: 1,
        alpha_unstaked: 1,
        limit_price: 5,
        allow_partial: true,
    };
    let asl = StakeJob::AddStakeLimit {
        hotkey: 1,
        coldkey: 2,
        netuid: 1,
        stake_to_be_added: 1,
        limit_price: 5,
        allow_partial: false,
    };
    let ua = StakeJob::UnstakeAll {
        hotkey: 1,
        coldkey: 3,
    };
    let uaa = StakeJob::UnstakeAllAlpha {
        hotkey: 1,
        coldkey: 4,
    };
    let mut p = queued(vec![add(5), asl, uaa, remove(6), ua, rsl]);
    let order = p.do_on_finalize(6, 0x00);
    assert_eq!(order, vec![rsl, remove(6), ua, uaa, asl, add(5)]);
}
