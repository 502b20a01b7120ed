//! Deferred staking jobs and their deterministic per-block ordering.
//!
//! Jobs queued during a block are keyed to run one block later.  At
//! finalization the due jobs are drained, split into six buckets by
//! kind, each bucket is stably sorted by coldkey (withdrawals ascending,
//! deposits descending), and the bucket sequence is fixed — except that
//! one bit of entropy, the high bit of the previous block hash's first
//! byte, reverses every comparison and the bucket sequence, so no actor
//! can predict its own position before the prior block is sealed.
//!
//! The drained, ordered jobs are returned to the caller, which replays
//! each through the same entry point a live transaction would use; a
//! failure of one job never affects its siblings.

use vstd::prelude::*;
use crate::pallet::Pallet;
use crate::store::block_key;

verus! {

/// How many blocks a queued job waits before it runs.
pub const DELAY_IN_BLOCKS: u64 = 1;

/// A staking intent deferred to a later block, carrying exactly the
/// fields needed to replay the matching immediate operation.
#[derive(Clone, Copy, PartialEq, Eq, Structural, Debug)]
pub enum StakeJob {
    AddStake { hotkey: u64, coldkey: u64, netuid: u16, stake_to_be_added: u64 },
    RemoveStake { hotkey: u64, coldkey: u64, netuid: u16, alpha_unstaked: u64 },
    AddStakeLimit {
        hotkey: u64,
        coldkey: u64,
        netuid: u16,
        stake_to_be_added: u64,
        limit_price: u64,
        allow_partial: bool,
    },
    RemoveStakeLimit {
        hotkey: u64,
        coldkey: u64,
        netuid: u16,
        alpha_unstaked: u64,
        limit_price: u64,
        allow_partial: bool,
    },
    UnstakeAll { hotkey: u64, coldkey: u64 },
    UnstakeAllAlpha { hotkey: u64, coldkey: u64 },
}

/// The coldkey that owns a job: the sort key of the scheduler.
pub open spec fn job_coldkey(j: StakeJob) -> u64 {
    match j {
        StakeJob::AddStake { coldkey, .. } => coldkey,
        StakeJob::RemoveStake { coldkey, .. } => coldkey,
        StakeJob::AddStakeLimit { coldkey, .. } => coldkey,
        StakeJob::RemoveStakeLimit { coldkey, .. } => coldkey,
        StakeJob::UnstakeAll { coldkey, .. } => coldkey,
        StakeJob::UnstakeAllAlpha { coldkey, .. } => coldkey,
    }
}

/// Bucket index of a job's kind.
pub open spec fn job_tag(j: StakeJob) -> int {
    match j {
        StakeJob::AddStake { .. } => 0,
        StakeJob::RemoveStake { .. } => 1,
        StakeJob::AddStakeLimit { .. } => 2,
        StakeJob::RemoveStakeLimit { .. } => 3,
        StakeJob::UnstakeAll { .. } => 4,
        StakeJob::UnstakeAllAlpha { .. } => 5,
    }
}

/// The subsequence of jobs of one kind, in arrival order.
pub open spec fn select_kind(s: Seq<StakeJob>, tag: int) -> Seq<StakeJob>
    decreases s.len(),
{
    if s.len() == 0 {
        s
    } else if job_tag(s.last()) == tag {
        select_kind(s.drop_last(), tag).push(s.last())
    } else {
        select_kind(s.drop_last(), tag)
    }
}

/// Whether `a` must come strictly after `j` under the given direction.
pub open spec fn comes_after(a: StakeJob, j: StakeJob, asc: bool) -> bool {
    if asc {
        job_coldkey(a) > job_coldkey(j)
    } else {
        job_coldkey(a) < job_coldkey(j)
    }
}

/// Stable insertion of a job into an already sorted sequence: the job
/// lands after every element it does not strictly precede, so equal
/// coldkeys keep their arrival order.
pub open spec fn insert_sorted(j: StakeJob, s: Seq<StakeJob>, asc: bool) -> Seq<StakeJob>
    decreases s.len(),
{
    if s.len() == 0 {
        seq![j]
    } else if !comes_after(s.last(), j, asc) {
        s.push(j)
    } else {
        insert_sorted(j, s.drop_last(), asc).push(s.last())
    }
}

/// Stable sort of a job sequence by coldkey, ascending or descending.
pub open spec fn sort_jobs(s: Seq<StakeJob>, asc: bool) -> Seq<StakeJob>
    decreases s.len(),
{
    if s.len() == 0 {
        s
    } else {
        insert_sorted(s.last(), sort_jobs(s.drop_last(), asc), asc)
    }
}

/// The full execution order of one block's drained jobs: each bucket
/// stably sorted (withdrawals ascending by coldkey, deposits
/// descending), withdrawal buckets before deposit buckets; the entropy
/// bit flips every comparison and reverses the bucket sequence.
pub open spec fn schedule_spec(jobs: Seq<StakeJob>, altered: bool) -> Seq<StakeJob> {
    let remove_stake_limit = sort_jobs(select_kind(jobs, 3), !altered);
    let remove_stake = sort_jobs(select_kind(jobs, 1), !altered);
    let unstake_all = sort_jobs(select_kind(jobs, 4), !altered);
    let unstake_all_alpha = sort_jobs(select_kind(jobs, 5), !altered);
    let add_stake_limit = sort_jobs(select_kind(jobs, 2), altered);
    let add_stake = sort_jobs(select_kind(jobs, 0), altered);
    if !altered {
        remove_stake_limit + remove_stake + unstake_all + unstake_all_alpha + add_stake_limit
            + add_stake
    } else {
        add_stake + add_stake_limit + unstake_all_alpha + unstake_all + remove_stake
            + remove_stake_limit
    }
}

/// Inserting at the position found by a right-to-left scan realizes the
/// stable insertion.
proof fn lemma_insert_sorted_position(s: Seq<StakeJob>, j: StakeJob, p: int, asc: bool)
    requires
        0 <= p <= s.len(),
        forall|q: int| p <= q < s.len() ==> comes_after(#[trigger] s[q], j, asc),
        p > 0 ==> !comes_after(s[p - 1], j, asc),
    ensures
        insert_sorted(j, s, asc) == s.insert(p, j),
    decreases s.len(),
{
    if s.len() == 0 {
        assert(insert_sorted(j, s, asc) =~= s.insert(0, j));
    } else if p == s.len() {
        assert(insert_sorted(j, s, asc) =~= s.insert(p, j));
    } else {
        assert(comes_after(s[s.len() - 1], j, asc));
        lemma_insert_sorted_position(s.drop_last(), j, p, asc);
        assert(insert_sorted(j, s.drop_last(), asc).push(s.last()) =~= s.insert(p, j));
    }
}

/// Stable insertion adds exactly the inserted job to the bag of jobs.
proof fn lemma_insert_sorted_multiset(j: StakeJob, s: Seq<StakeJob>, asc: bool)
    ensures
        insert_sorted(j, s, asc).to_multiset() == s.to_multiset().insert(j),
    decreases s.len(),
{
    broadcast use vstd::seq_lib::group_to_multiset_ensures;

    if s.len() == 0 {
        assert(seq![j] =~= Seq::<StakeJob>::empty().push(j));
        assert(Seq::<StakeJob>::empty().push(j).to_multiset() =~= s.to_multiset().insert(j));
    } else if !comes_after(s.last(), j, asc) {
    } else {
        lemma_insert_sorted_multiset(j, s.drop_last(), asc);
        assert(s.drop_last().push(s.last()) =~= s);
        assert(s.drop_last().push(s.last()).to_multiset() == s.drop_last().to_multiset().insert(
            s.last(),
        ));
        assert(insert_sorted(j, s.drop_last(), asc).push(s.last()).to_multiset()
            == insert_sorted(j, s.drop_last(), asc).to_multiset().insert(s.last()));
        assert(s.to_multiset().insert(j) =~= s.drop_last().to_multiset().insert(s.last()).insert(
            j,
        ));
        assert(s.drop_last().to_multiset().insert(j).insert(s.last()) =~= s.drop_last().to_multiset().insert(
            s.last(),
        ).insert(j));
    }
}

/// Sorting keeps exactly the bag of jobs: nothing is lost, duplicated
/// or invented.
pub proof fn lemma_sort_jobs_multiset(s: Seq<StakeJob>, asc: bool)
    ensures
        sort_jobs(s, asc).to_multiset() == s.to_multiset(),
    decreases s.len(),
{
    broadcast use vstd::seq_lib::group_to_multiset_ensures;

    if s.len() > 0 {
        lemma_sort_jobs_multiset(s.drop_last(), asc);
        lemma_insert_sorted_multiset(s.last(), sort_jobs(s.drop_last(), asc), asc);
        assert(s.drop_last().push(s.last()) =~= s);
        assert(s.drop_last().push(s.last()).to_multiset() == s.drop_last().to_multiset().insert(
            s.last(),
        ));
    }
}

/// A sorted bucket really is ordered by coldkey in the requested
/// direction.
pub proof fn lemma_sort_jobs_sorted(s: Seq<StakeJob>, asc: bool)
    ensures
        forall|x: int, y: int|
            0 <= x < y < sort_jobs(s, asc).len() ==> !comes_after(
                #[trigger] sort_jobs(s, asc)[x],
                #[trigger] sort_jobs(s, asc)[y],
                asc,
            ),
    decreases s.len(),
{
    if s.len() > 0 {
        lemma_sort_jobs_sorted(s.drop_last(), asc);
        lemma_insert_sorted_order(s.last(), sort_jobs(s.drop_last(), asc), asc);
    }
}

/// Helper: inserting into an ordered sequence keeps it ordered.
proof fn lemma_insert_sorted_order(j: StakeJob, s: Seq<StakeJob>, asc: bool)
    requires
        forall|x: int, y: int|
            0 <= x < y < s.len() ==> !comes_after(#[trigger] s[x], #[trigger] s[y], asc),
    ensures
        forall|x: int, y: int|
            0 <= x < y < insert_sorted(j, s, asc).len() ==> !comes_after(
                #[trigger] insert_sorted(j, s, asc)[x],
                #[trigger] insert_sorted(j, s, asc)[y],
                asc,
            ),
    decreases s.len(),
{
    if s.len() == 0 {
    } else if !comes_after(s.last(), j, asc) {
        let out = s.push(j);
        assert forall|x: int, y: int| 0 <= x < y < out.len() implies !comes_after(
            out[x],
            out[y],
            asc,
        ) by {
            if y == out.len() - 1 {
                if x < s.len() - 1 {
                    assert(!comes_after(s[x], s[s.len() - 1], asc));
                }
            }
        }
    } else {
        assert(forall|x: int, y: int|
            0 <= x < y < s.drop_last().len() ==> !comes_after(
                #[trigger] s.drop_last()[x],
                #[trigger] s.drop_last()[y],
                asc,
            ));
        lemma_insert_sorted_order(j, s.drop_last(), asc);
        let inner = insert_sorted(j, s.drop_last(), asc);
        let out = inner.push(s.last());
        assert forall|x: int, y: int| 0 <= x < y < out.len() implies !comes_after(
            out[x],
            out[y],
            asc,
        ) by {
            if y == out.len() - 1 {
                lemma_insert_sorted_members(j, s.drop_last(), asc, x);
                if out[x] == j {
                    assert(!comes_after(j, s.last(), asc));
                } else {
                    let w = choose|w: int|
                        0 <= w < s.drop_last().len() && s.drop_last()[w] == inner[x];
                    assert(!comes_after(s[w], s[s.len() - 1], asc));
                }
            }
        }
    }
}

/// Helper: every element of a stable insertion is the new job or an
/// element of the old sequence.
proof fn lemma_insert_sorted_members(j: StakeJob, s: Seq<StakeJob>, asc: bool, x: int)
    requires
        0 <= x < insert_sorted(j, s, asc).len(),
    ensures
        insert_sorted(j, s, asc)[x] == j || exists|w: int|
            0 <= w < s.len() && s[w] == insert_sorted(j, s, asc)[x],
    decreases s.len(),
{
    if s.len() == 0 {
    } else if !comes_after(s.last(), j, asc) {
        if x < s.len() {
            assert(s[x] == insert_sorted(j, s, asc)[x]);
        }
    } else {
        if x < insert_sorted(j, s, asc).len() - 1 {
            lemma_insert_sorted_members(j, s.drop_last(), asc, x);
            if insert_sorted(j, s.drop_last(), asc)[x] != j {
                let w = choose|w: int|
                    0 <= w < s.drop_last().len() && s.drop_last()[w] == insert_sorted(
                        j,
                        s.drop_last(),
                        asc,
                    )[x];
                assert(s[w] == insert_sorted(j, s, asc)[x]);
            }
        } else {
            assert(s[s.len() - 1] == insert_sorted(j, s, asc)[x]);
        }
    }
}

/// The block whose jobs fall due when `current` is finalized.
pub open spec fn due_block(current: u64) -> u64 {
    if current >= DELAY_IN_BLOCKS {
        (current - DELAY_IN_BLOCKS) as u64
    } else {
        0
    }
}

/// The jobs queued for a block, in arrival order.
pub open spec fn pending_jobs(p: Pallet, block: u64) -> Seq<StakeJob> {
    if p.stake_jobs@.contains_key(block_key(block)) {
        p.stake_jobs@[block_key(block)]@
    } else {
        Seq::empty()
    }
}

/// The entropy bit: the high bit of the previous block hash's first
/// byte.
pub open spec fn altered_bit(first_byte: u8) -> bool {
    first_byte & 0x80 != 0
}

/// The coldkey that owns a job.
fn coldkey_of(j: &StakeJob) -> (r: u64)
    ensures
        r == job_coldkey(*j),
{
    match j {
        StakeJob::AddStake { coldkey, .. } => *coldkey,
        StakeJob::RemoveStake { coldkey, .. } => *coldkey,
        StakeJob::AddStakeLimit { coldkey, .. } => *coldkey,
        StakeJob::RemoveStakeLimit { coldkey, .. } => *coldkey,
        StakeJob::UnstakeAll { coldkey, .. } => *coldkey,
        StakeJob::UnstakeAllAlpha { coldkey, .. } => *coldkey,
    }
}

/// Whether `a` must come strictly after `j` under the given direction.
fn comes_after_exec(a: &StakeJob, j: &StakeJob, asc: bool) -> (r: bool)
    ensures
        r == comes_after(*a, *j, asc),
{
    let ka: u64 = coldkey_of(a);
    let kj: u64 = coldkey_of(j);
    if asc {
        ka > kj
    } else {
        ka < kj
    }
}

/// Stable insertion sort of one bucket by coldkey.
fn sort_bucket(v: &Vec<StakeJob>, asc: bool) -> (out: Vec<StakeJob>)
    ensures
        out@ == sort_jobs(v@, asc),
{
    let mut out: Vec<StakeJob> = Vec::new();
    let mut i: usize = 0;
    while i < v.len()
        invariant
            i <= v.len(),
            out@ == sort_jobs(v@.take(i as int), asc),
        decreases v.len() - i,
    {
        let j: StakeJob = v[i];
        let ghost before: Seq<StakeJob> = out@;
        let mut p: usize = out.len();
        while p > 0 && comes_after_exec(&out[p - 1], &j, asc)
            invariant
                p <= out.len(),
                out@ == before,
                forall|q: int| p <= q < out.len() ==> comes_after(#[trigger] out@[q], j, asc),
            decreases p,
        {
            p = p - 1;
        }
        out.insert(p, j);
        proof {
            lemma_insert_sorted_position(before, j, p as int, asc);
            assert(v@.take(i + 1).drop_last() =~= v@.take(i as int));
            assert(v@.take(i + 1).last() == v@[i as int]);
        }
        i = i + 1;
    }
    proof {
        assert(v@.take(v@.len() as int) =~= v@);
    }
    out
}

/// An owned copy of a job list.
fn copy_jobs(v: &Vec<StakeJob>) -> (out: Vec<StakeJob>)
    ensures
        out@ == v@,
{
    let mut out: Vec<StakeJob> = Vec::new();
    let mut i: usize = 0;
    while i < v.len()
        invariant
            i <= v.len(),
            out@ == v@.take(i as int),
        decreases v.len() - i,
    {
        out.push(v[i]);
        proof {
            assert(v@.take(i + 1) =~= v@.take(i as int).push(v@[i as int]));
        }
        i = i + 1;
    }
    proof {
        assert(v@.take(v@.len() as int) =~= v@);
    }
    out
}

impl Pallet {
    /// Drain the jobs due at this block and return them in their
    /// deterministic execution order.  The caller replays each returned
    /// job through the matching immediate entry point; failures are
    /// reported per job and never affect the others.
    pub fn do_on_finalize(&mut self, current_block_number: u64, prev_hash_first_byte: u8) -> (r:
        Vec<StakeJob>)
        ensures
            r@ == schedule_spec(
                pending_jobs(*old(self), due_block(current_block_number)),
                altered_bit(prev_hash_first_byte),
            ),
            final(self).stake_jobs@ == old(self).stake_jobs@.remove(
                block_key(due_block(current_block_number)),
            ),
            *final(self) == (Pallet { stake_jobs: final(self).stake_jobs, ..*old(self) }),
    {
        let due: u64 = if current_block_number >= DELAY_IN_BLOCKS {
            current_block_number - DELAY_IN_BLOCKS
        } else {
            0
        };
        let pending: Vec<StakeJob> = match self.stake_jobs.get(block_key(due)) {
            Some(v) => copy_jobs(v),
            None => Vec::new(),
        };
        self.stake_jobs.remove(block_key(due));
        let altered: bool = prev_hash_first_byte & 0x80 != 0;

        let ghost s: Seq<StakeJob> = pending@;
        let mut add_stake: Vec<StakeJob> = Vec::new();
        let mut remove_stake: Vec<StakeJob> = Vec::new();
        let mut add_stake_limit: Vec<StakeJob> = Vec::new();
        let mut remove_stake_limit: Vec<StakeJob> = Vec::new();
        let mut unstake_all: Vec<StakeJob> = Vec::new();
        let mut unstake_all_alpha: Vec<StakeJob> = Vec::new();
        let mut i: usize = 0;
        while i < pending.len()
            invariant
                i <= pending.len(),
                s == pending@,
                add_stake@ == select_kind(s.take(i as int), 0),
                remove_stake@ == select_kind(s.take(i as int), 1),
                add_stake_limit@ == select_kind(s.take(i as int), 2),
                remove_stake_limit@ == select_kind(s.take(i as int), 3),
                unstake_all@ == select_kind(s.take(i as int), 4),
                unstake_all_alpha@ == select_kind(s.take(i as int), 5),
            decreases pending.len() - i,
        {
            let j: StakeJob = pending[i];
            proof {
                assert(s.take(i + 1).drop_last() =~= s.take(i as int));
                assert(s.take(i + 1).last() == s[i as int]);
            }
            match j {
                StakeJob::AddStake { .. } => add_stake.push(j),
                StakeJob::RemoveStake { .. } => remove_stake.push(j),
                StakeJob::AddStakeLimit { .. } => add_stake_limit.push(j),
                StakeJob::RemoveStakeLimit { .. } => remove_stake_limit.push(j),
                StakeJob::UnstakeAll { .. } => unstake_all.push(j),
                StakeJob::UnstakeAllAlpha { .. } => unstake_all_alpha.push(j),
            }
            i = i + 1;
        }
        proof {
            assert(s.take(s.len() as int) =~= s);
        }

        let mut rsl: Vec<StakeJob> = sort_bucket(&remove_stake_limit, !altered);
        let mut rs: Vec<StakeJob> = sort_bucket(&remove_stake, !altered);
        let mut ua: Vec<StakeJob> = sort_bucket(&unstake_all, !altered);
        let mut uaa: Vec<StakeJob> = sort_bucket(&unstake_all_alpha, !altered);
        let mut asl: Vec<StakeJob> = sort_bucket(&add_stake_limit, altered);
        let mut a: Vec<StakeJob> = sort_bucket(&add_stake, altered);

        let mut out: Vec<StakeJob> = Vec::new();
        if !altered {
            out.append(&mut rsl);
            out.append(&mut rs);
            out.append(&mut ua);
            out.append(&mut uaa);
            out.append(&mut asl);
            out.append(&mut a);
        } else {
            out.append(&mut a);
            out.append(&mut asl);
            out.append(&mut uaa);
            out.append(&mut ua);
            out.append(&mut rs);
            out.append(&mut rsl);
        }
        out
    }
}

/// Scheduler determinism: the execution order is a function of the
/// drained job sequence and the entropy bit alone.  Two nodes that
/// drain the same jobs under the same previous-block hash execute them
/// in the same order.
pub proof fn lemma_schedule_deterministic(
    jobs1: Seq<StakeJob>,
    altered1: bool,
    jobs2: Seq<StakeJob>,
    altered2: bool,
)
    requires
        jobs1 == jobs2,
        altered1 == altered2,
    ensures
        schedule_spec(jobs1, altered1) == schedule_spec(jobs2, altered2),
{
}

/// Exactly-once replay: the scheduled order is a permutation of the
/// drained jobs — every deferred job runs once, none is duplicated and
/// none is dropped.
pub proof fn lemma_schedule_permutation(jobs: Seq<StakeJob>, altered: bool)
    ensures
        schedule_spec(jobs, altered).to_multiset() == select_kind(jobs, 3).to_multiset().add(
            select_kind(jobs, 1).to_multiset(),
        ).add(select_kind(jobs, 4).to_multiset()).add(select_kind(jobs, 5).to_multiset()).add(
            select_kind(jobs, 2).to_multiset(),
        ).add(select_kind(jobs, 0).to_multiset()),
{
    broadcast use vstd::seq_lib::group_to_multiset_ensures;

    lemma_sort_jobs_multiset(select_kind(jobs, 3), !altered);
    lemma_sort_jobs_multiset(select_kind(jobs, 1), !altered);
    lemma_sort_jobs_multiset(select_kind(jobs, 4), !altered);
    lemma_sort_jobs_multiset(select_kind(jobs, 5), !altered);
    lemma_sort_jobs_multiset(select_kind(jobs, 2), altered);
    lemma_sort_jobs_multiset(select_kind(jobs, 0), altered);
    let a = sort_jobs(select_kind(jobs, 3), !altered);
    let b = sort_jobs(select_kind(jobs, 1), !altered);
    let c = sort_jobs(select_kind(jobs, 4), !altered);
    let d = sort_jobs(select_kind(jobs, 5), !altered);
    let e = sort_jobs(select_kind(jobs, 2), altered);
    let f = sort_jobs(select_kind(jobs, 0), altered);
    broadcast use vstd::seq_lib::lemma_multiset_commutative;

    if !altered {
        assert(schedule_spec(jobs, altered).to_multiset() =~= a.to_multiset().add(
            b.to_multiset(),
        ).add(c.to_multiset()).add(d.to_multiset()).add(e.to_multiset()).add(f.to_multiset()));
    } else {
        assert(schedule_spec(jobs, altered).to_multiset() =~= f.to_multiset().add(
            e.to_multiset(),
        ).add(d.to_multiset()).add(c.to_multiset()).add(b.to_multiset()).add(a.to_multiset()));
        assert(f.to_multiset().add(e.to_multiset()).add(d.to_multiset()).add(c.to_multiset()).add(
            b.to_multiset(),
        ).add(a.to_multiset()) =~= a.to_multiset().add(b.to_multiset()).add(c.to_multiset()).add(
            d.to_multiset(),
        ).add(e.to_multiset()).add(f.to_multiset()));
    }
}

} // verus!
