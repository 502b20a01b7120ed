//! Effective stake under parent/child delegation.
//!
//! A hotkey's raw stake on a subnet is its share-ledger total.  Each
//! child edge carries away `proportion / u64::MAX` of the raw stake;
//! each parent edge brings in the same fraction of the parent's own raw
//! stake.  The redistribution is one level deep by design — a parent
//! contributes its raw amount, never its own inherited amount — so
//! cycles in the delegation graph cannot recurse.  Truncation to a
//! token amount happens once at the end, not per edge.

use vstd::prelude::*;
use crate::fixed::IFix64;
use crate::fixed::UFix32;
use crate::fixed::SCALE32;
use crate::fixed::fix_div_spec;
use crate::fixed::fix_mul_spec;
use crate::fixed::sat_i128;
use crate::fixed::sat_u128;
use crate::fixed::sat_u64;
use crate::fixed::sfix_mul_spec;
use crate::pallet::Pallet;
use crate::pallet::ROOT_NETUID;
use crate::store::LedgerKey;
use crate::store::hotkey_subnet_key;

verus! {

/// A delegation edge list as stored, or empty where none is stored.
pub open spec fn edges_or_empty(m: Map<LedgerKey, Vec<(u64, u64)>>, k: LedgerKey) -> Seq<
    (u64, u64),
> {
    if m.contains_key(k) {
        m[k]@
    } else {
        Seq::empty()
    }
}

/// An edge proportion normalized into `[0, 1]` fixed-point bits.
pub open spec fn proportion_weight_spec(proportion: u64) -> int {
    fix_div_spec(proportion * SCALE32, u64::MAX as int * SCALE32, SCALE32 as int)
}

/// The fixed-point stake a single edge moves: the stake times the
/// normalized proportion.
pub open spec fn edge_share_spec(stake_bits: int, proportion: u64) -> int {
    fix_mul_spec(stake_bits, proportion_weight_spec(proportion), SCALE32 as int)
}

/// Total fixed-point stake handed to children: a saturating left fold
/// of the per-edge shares of this hotkey's own stake.
pub open spec fn given_to_children_spec(stake_bits: int, edges: Seq<(u64, u64)>) -> int
    decreases edges.len(),
{
    if edges.len() == 0 {
        0
    } else {
        sat_u128(
            given_to_children_spec(stake_bits, edges.drop_last()) + edge_share_spec(
                stake_bits,
                edges.last().0,
            ),
        )
    }
}

/// Total fixed-point stake received from parents: a saturating left
/// fold of the per-edge shares of each parent's own raw stake on
/// `stake_netuid`.
pub open spec fn received_from_parents_spec(
    p: Pallet,
    stake_netuid: u16,
    edges: Seq<(u64, u64)>,
) -> int
    decreases edges.len(),
{
    if edges.len() == 0 {
        0
    } else {
        sat_u128(
            received_from_parents_spec(p, stake_netuid, edges.drop_last()) + edge_share_spec(
                p.hotkey_alpha(edges.last().1, stake_netuid) * SCALE32,
                edges.last().0,
            ),
        )
    }
}

/// The effective (inherited) alpha of a hotkey on a subnet, as a token
/// amount: raw stake, minus what children take, plus what parents give,
/// saturating, truncated once at the end.  The root subnet does not
/// redistribute.
pub open spec fn inherited_spec(p: Pallet, hotkey: u64, netuid: u16) -> int {
    let init = p.hotkey_alpha(hotkey, netuid) * SCALE32;
    if netuid == ROOT_NETUID {
        sat_u64(init / SCALE32 as int)
    } else {
        let given = given_to_children_spec(
            init,
            edges_or_empty(p.children@, hotkey_subnet_key(hotkey, netuid)),
        );
        let received = received_from_parents_spec(
            p,
            netuid,
            edges_or_empty(p.parents@, hotkey_subnet_key(hotkey, netuid)),
        );
        sat_u64(sat_u128(sat_u128(init - given) + received) / SCALE32 as int)
    }
}

/// The inherited tao of a hotkey: the same redistribution over the
/// subnet's delegation edges, applied to root-subnet stakes.
pub open spec fn tao_inherited_spec(p: Pallet, hotkey: u64, netuid: u16) -> int {
    let init = p.hotkey_alpha(hotkey, ROOT_NETUID) * SCALE32;
    let given = given_to_children_spec(
        init,
        edges_or_empty(p.children@, hotkey_subnet_key(hotkey, netuid)),
    );
    let received = received_from_parents_spec(
        p,
        ROOT_NETUID,
        edges_or_empty(p.parents@, hotkey_subnet_key(hotkey, netuid)),
    );
    sat_u64(sat_u128(sat_u128(init - given) + received) / SCALE32 as int)
}

impl Pallet {
    /// One edge's fixed-point share of a stake.
    fn edge_share(stake: UFix32, proportion: u64) -> (r: UFix32)
        ensures
            r.bits == edge_share_spec(stake.bits as int, proportion),
    {
        let normalized: UFix32 = UFix32::from_u64(proportion).safe_div(UFix32::from_u64(u64::MAX));
        stake.saturating_mul(normalized)
    }

    /// Exec read of a delegation edge list.
    fn edges_read(m: &crate::store::StoreMap<Vec<(u64, u64)>>, k: LedgerKey) -> (r: Vec<(u64, u64)>)
        ensures
            r@ == edges_or_empty(m@, k),
    {
        match m.get(k) {
            Some(v) => {
                let mut out: Vec<(u64, u64)> = Vec::new();
                let mut i: usize = 0;
                while i < v.len()
                    invariant
                        i <= v.len(),
                        out@ == v@.take(i as int),
                    decreases v.len() - i,
                {
                    out.push(v[i]);
                    proof {
                        assert(v@.take(i + 1) =~= v@.take(i as int).push(v@[i as int]));
                    }
                    i = i + 1;
                }
                proof {
                    assert(v@.take(v@.len() as int) =~= v@);
                }
                out
            },
            None => Vec::new(),
        }
    }

    /// The effective alpha of a hotkey on a subnet after delegation.
    pub fn get_inherited_for_hotkey_on_subnet(&self, hotkey: u64, netuid: u16) -> (r: u64)
        ensures
            r == inherited_spec(*self, hotkey, netuid),
    {
        let initial_alpha: UFix32 = UFix32::from_u64(
            self.get_stake_for_hotkey_on_subnet(hotkey, netuid),
        );
        if netuid == ROOT_NETUID {
            return initial_alpha.to_u64_sat();
        }
        let key: LedgerKey = hotkey_subnet_key(hotkey, netuid);
        let children: Vec<(u64, u64)> = Pallet::edges_read(&self.children, key);
        let parents: Vec<(u64, u64)> = Pallet::edges_read(&self.parents, key);

        let mut alpha_to_children: UFix32 = UFix32::from_u64(0);
        let mut i: usize = 0;
        while i < children.len()
            invariant
                i <= children.len(),
                alpha_to_children.bits == given_to_children_spec(
                    initial_alpha.bits as int,
                    children@.take(i as int),
                ),
            decreases children.len() - i,
        {
            let share: UFix32 = Pallet::edge_share(initial_alpha, children[i].0);
            alpha_to_children = alpha_to_children.saturating_add(share);
            proof {
                assert(children@.take(i + 1).drop_last() =~= children@.take(i as int));
                assert(children@.take(i + 1).last() == children@[i as int]);
            }
            i = i + 1;
        }
        proof {
            assert(children@.take(children@.len() as int) =~= children@);
        }

        let mut alpha_from_parents: UFix32 = UFix32::from_u64(0);
        let mut j: usize = 0;
        while j < parents.len()
            invariant
                j <= parents.len(),
                alpha_from_parents.bits == received_from_parents_spec(
                    *self,
                    netuid,
                    parents@.take(j as int),
                ),
            decreases parents.len() - j,
        {
            let parent_alpha: UFix32 = UFix32::from_u64(
                self.get_stake_for_hotkey_on_subnet(parents[j].1, netuid),
            );
            let share: UFix32 = Pallet::edge_share(parent_alpha, parents[j].0);
            alpha_from_parents = alpha_from_parents.saturating_add(share);
            proof {
                assert(parents@.take(j + 1).drop_last() =~= parents@.take(j as int));
                assert(parents@.take(j + 1).last() == parents@[j as int]);
            }
            j = j + 1;
        }
        proof {
            assert(parents@.take(parents@.len() as int) =~= parents@);
        }

        initial_alpha.saturating_sub(alpha_to_children).saturating_add(
            alpha_from_parents,
        ).to_u64_sat()
    }

    /// The effective tao of a hotkey viewed through a subnet's
    /// delegation edges: the same redistribution applied to root-subnet
    /// stakes.
    pub fn get_tao_inherited_for_hotkey_on_subnet(&self, hotkey: u64, netuid: u16) -> (r: u64)
        ensures
            r == tao_inherited_spec(*self, hotkey, netuid),
    {
        let initial_tao: UFix32 = UFix32::from_u64(
            self.get_stake_for_hotkey_on_subnet(hotkey, ROOT_NETUID),
        );
        let key: LedgerKey = hotkey_subnet_key(hotkey, netuid);
        let children: Vec<(u64, u64)> = Pallet::edges_read(&self.children, key);
        let parents: Vec<(u64, u64)> = Pallet::edges_read(&self.parents, key);

        let mut tao_to_children: UFix32 = UFix32::from_u64(0);
        let mut i: usize = 0;
        while i < children.len()
            invariant
                i <= children.len(),
                tao_to_children.bits == given_to_children_spec(
                    initial_tao.bits as int,
                    children@.take(i as int),
                ),
            decreases children.len() - i,
        {
            let share: UFix32 = Pallet::edge_share(initial_tao, children[i].0);
            tao_to_children = tao_to_children.saturating_add(share);
            proof {
                assert(children@.take(i + 1).drop_last() =~= children@.take(i as int));
                assert(children@.take(i + 1).last() == children@[i as int]);
            }
            i = i + 1;
        }
        proof {
            assert(children@.take(children@.len() as int) =~= children@);
        }

        let mut tao_from_parents: UFix32 = UFix32::from_u64(0);
        let mut j: usize = 0;
        while j < parents.len()
            invariant
                j <= parents.len(),
                tao_from_parents.bits == received_from_parents_spec(
                    *self,
                    ROOT_NETUID,
                    parents@.take(j as int),
                ),
            decreases parents.len() - j,
        {
            let parent_tao: UFix32 = UFix32::from_u64(
                self.get_stake_for_hotkey_on_subnet(parents[j].1, ROOT_NETUID),
            );
            let share: UFix32 = Pallet::edge_share(parent_tao, parents[j].0);
            tao_from_parents = tao_from_parents.saturating_add(share);
            proof {
                assert(parents@.take(j + 1).drop_last() =~= parents@.take(j as int));
                assert(parents@.take(j + 1).last() == parents@[j as int]);
            }
            j = j + 1;
        }
        proof {
            assert(parents@.take(parents@.len() as int) =~= parents@);
        }

        initial_tao.saturating_sub(tao_to_children).saturating_add(tao_from_parents).to_u64_sat()
    }
}

/// The combined weight of a hotkey on a subnet, in 64-fractional-bit
/// signed fixed point: inherited alpha plus inherited tao scaled by the
/// global weight.
pub open spec fn total_stake_weight_spec(p: Pallet, alpha_stake: int, tao_stake: int) -> int {
    let tw = sat_i128(
        fix_div_spec(p.tao_weight * crate::fixed::SCALE32, u64::MAX as int * crate::fixed::SCALE32, crate::fixed::SCALE32 as int)
            * crate::fixed::SCALE32,
    );
    sat_i128(alpha_stake + sfix_mul_spec(tao_stake, tw, crate::fixed::SCALE64 as int))
}

impl Pallet {
    /// The (total, alpha, tao) stake weights of one hotkey on a subnet:
    /// inherited alpha, inherited tao, and their combination under the
    /// global root-stake weight.
    pub fn get_stake_weights_for_hotkey_on_subnet(&self, hotkey: u64, netuid: u16) -> (r: (
        IFix64,
        IFix64,
        IFix64,
    ))
        ensures
            r.1.bits == sat_i128(inherited_spec(*self, hotkey, netuid) * crate::fixed::SCALE64),
            r.2.bits == sat_i128(tao_inherited_spec(*self, hotkey, netuid) * crate::fixed::SCALE64),
            r.0.bits == total_stake_weight_spec(*self, r.1.bits as int, r.2.bits as int),
    {
        let tao_weight: IFix64 = IFix64::from_ufix32_sat(self.get_tao_weight());
        let alpha_stake: IFix64 = IFix64::from_u64_sat(
            self.get_inherited_for_hotkey_on_subnet(hotkey, netuid),
        );
        let tao_stake: IFix64 = IFix64::from_u64_sat(
            self.get_tao_inherited_for_hotkey_on_subnet(hotkey, netuid),
        );
        let total_stake: IFix64 = alpha_stake.saturating_add(tao_stake.saturating_mul(tao_weight));
        (total_stake, alpha_stake, tao_stake)
    }

    /// The stake weights of every neuron slot of a subnet, in slot
    /// order: an unoccupied slot weighs zero.
    pub fn get_stake_weights_for_network(&self, netuid: u16) -> (r: (
        Vec<IFix64>,
        Vec<IFix64>,
        Vec<IFix64>,
    ))
        ensures
            r.0@.len() == self.network_n(netuid),
            r.1@.len() == self.network_n(netuid),
            r.2@.len() == self.network_n(netuid),
            forall|i: int|
                0 <= i < self.network_n(netuid) ==> (#[trigger] r.1@[i]).bits
                    == self.net_alpha_weight(netuid, i),
            forall|i: int|
                0 <= i < self.network_n(netuid) ==> (#[trigger] r.2@[i]).bits
                    == self.net_tao_weight_at(netuid, i),
            forall|i: int|
                0 <= i < self.network_n(netuid) ==> (#[trigger] r.0@[i]).bits
                    == total_stake_weight_spec(
                    *self,
                    self.net_alpha_weight(netuid, i),
                    self.net_tao_weight_at(netuid, i),
                ),
    {
        let n: u16 = match self.subnetwork_n.get(crate::store::subnet_key(netuid)) {
            Some(v) => *v,
            None => 0,
        };
        let tao_weight: IFix64 = IFix64::from_ufix32_sat(self.get_tao_weight());
        let mut alpha_stake: Vec<IFix64> = Vec::new();
        let mut tao_stake: Vec<IFix64> = Vec::new();
        let mut total_stake: Vec<IFix64> = Vec::new();
        let mut uid: u16 = 0;
        while uid < n
            invariant
                uid <= n,
                n == self.network_n(netuid),
                tao_weight.bits == sat_i128(
                    fix_div_spec(
                        self.tao_weight * crate::fixed::SCALE32,
                        u64::MAX as int * crate::fixed::SCALE32,
                        crate::fixed::SCALE32 as int,
                    ) * crate::fixed::SCALE32,
                ),
                alpha_stake@.len() == uid,
                tao_stake@.len() == uid,
                total_stake@.len() == uid,
                forall|i: int|
                    0 <= i < uid ==> (#[trigger] alpha_stake@[i]).bits == self.net_alpha_weight(
                        netuid,
                        i,
                    ),
                forall|i: int|
                    0 <= i < uid ==> (#[trigger] tao_stake@[i]).bits == self.net_tao_weight_at(
                        netuid,
                        i,
                    ),
                forall|i: int|
                    0 <= i < uid ==> (#[trigger] total_stake@[i]).bits == total_stake_weight_spec(
                        *self,
                        self.net_alpha_weight(netuid, i),
                        self.net_tao_weight_at(netuid, i),
                    ),
            decreases n - uid,
        {
            let present: bool = match self.keys_present.get(crate::store::uid_key(netuid, uid)) {
                Some(b) => *b,
                None => false,
            };
            let a_i: IFix64;
            let t_i: IFix64;
            if present {
                let hotkey: u64 = match self.keys.get(crate::store::uid_key(netuid, uid)) {
                    Some(h) => *h,
                    None => 0,
                };
                a_i = IFix64::from_u64_sat(self.get_inherited_for_hotkey_on_subnet(hotkey, netuid));
                t_i = IFix64::from_u64_sat(
                    self.get_tao_inherited_for_hotkey_on_subnet(hotkey, netuid),
                );
            } else {
                a_i = IFix64::from_u64_sat(0);
                t_i = IFix64::from_u64_sat(0);
            }
            let tot_i: IFix64 = a_i.saturating_add(t_i.saturating_mul(tao_weight));
            alpha_stake.push(a_i);
            tao_stake.push(t_i);
            total_stake.push(tot_i);
            uid = uid + 1;
        }
        (total_stake, alpha_stake, tao_stake)
    }

    /// Number of neuron slots of a subnet.
    pub open spec fn network_n(self, netuid: u16) -> u16 {
        crate::pallet::cell_or(self.subnetwork_n@, crate::store::subnet_key(netuid), 0)
    }

    /// The inherited-alpha weight of one slot, zero when unoccupied.
    pub open spec fn net_alpha_weight(self, netuid: u16, uid: int) -> int {
        if crate::pallet::cell_or(
            self.keys_present@,
            crate::store::uid_key(netuid, uid as u16),
            false,
        ) {
            sat_i128(
                inherited_spec(
                    self,
                    crate::pallet::cell_or(self.keys@, crate::store::uid_key(netuid, uid as u16), 0),
                    netuid,
                ) * crate::fixed::SCALE64,
            )
        } else {
            0
        }
    }

    /// The inherited-tao weight of one slot, zero when unoccupied.
    pub open spec fn net_tao_weight_at(self, netuid: u16, uid: int) -> int {
        if crate::pallet::cell_or(
            self.keys_present@,
            crate::store::uid_key(netuid, uid as u16),
            false,
        ) {
            sat_i128(
                tao_inherited_spec(
                    self,
                    crate::pallet::cell_or(self.keys@, crate::store::uid_key(netuid, uid as u16), 0),
                    netuid,
                ) * crate::fixed::SCALE64,
            )
        } else {
            0
        }
    }
}

/// Every saturating fold of nonnegative edge shares is nonnegative.
proof fn lemma_given_nonneg(stake_bits: int, edges: Seq<(u64, u64)>)
    ensures
        0 <= given_to_children_spec(stake_bits, edges),
    decreases edges.len(),
{
    if edges.len() > 0 {
        lemma_given_nonneg(stake_bits, edges.drop_last());
    }
}

/// Every saturating fold of parent shares is nonnegative.
proof fn lemma_received_nonneg(p: Pallet, stake_netuid: u16, edges: Seq<(u64, u64)>)
    ensures
        0 <= received_from_parents_spec(p, stake_netuid, edges),
    decreases edges.len(),
{
    if edges.len() > 0 {
        lemma_received_nonneg(p, stake_netuid, edges.drop_last());
    }
}

/// Inheritance conservation.  A hotkey whose children's proportions sum
/// within `u64::MAX` and that has no parents can only lose stake to
/// delegation: its effective stake never exceeds its raw stake.  A
/// hotkey with no children can only gain: its effective stake is never
/// below its raw stake.
pub proof fn lemma_inheritance_conservation(p: Pallet, hotkey: u64, netuid: u16)
    ensures
        (edges_or_empty(p.parents@, hotkey_subnet_key(hotkey, netuid)) =~= Seq::empty())
            ==> inherited_spec(p, hotkey, netuid) <= p.hotkey_alpha(hotkey, netuid),
        (edges_or_empty(p.children@, hotkey_subnet_key(hotkey, netuid)) =~= Seq::empty())
            ==> inherited_spec(p, hotkey, netuid) >= p.hotkey_alpha(hotkey, netuid),
{
    let raw = p.hotkey_alpha(hotkey, netuid);
    let init = raw * SCALE32;
    if netuid == ROOT_NETUID {
        assert(init / SCALE32 as int == raw) by (nonlinear_arith)
            requires
                init == raw * SCALE32,
                SCALE32 == 0x1_0000_0000,
        ;
    } else {
        let kids = edges_or_empty(p.children@, hotkey_subnet_key(hotkey, netuid));
        let folks = edges_or_empty(p.parents@, hotkey_subnet_key(hotkey, netuid));
        let given = given_to_children_spec(init, kids);
        let received = received_from_parents_spec(p, netuid, folks);
        lemma_given_nonneg(init, kids);
        lemma_received_nonneg(p, netuid, folks);
        if folks =~= Seq::<(u64, u64)>::empty() {
            assert(received == 0);
            assert(sat_u128(sat_u128(init - given) + 0) <= init);
            assert(sat_u128(sat_u128(init - given) + 0) / SCALE32 as int <= init / SCALE32 as int)
                by (nonlinear_arith)
                requires
                    0 <= sat_u128(sat_u128(init - given) + 0) <= init,
                    SCALE32 == 0x1_0000_0000,
            ;
            assert(init / SCALE32 as int == raw) by (nonlinear_arith)
                requires
                    init == raw * SCALE32,
                    SCALE32 == 0x1_0000_0000,
            ;
        }
        if kids =~= Seq::<(u64, u64)>::empty() {
            assert(given == 0);
            assert(sat_u128(init - 0) == init);
            assert(sat_u128(init + received) >= init);
            assert(sat_u128(init + received) / SCALE32 as int >= init / SCALE32 as int)
                by (nonlinear_arith)
                requires
                    init <= sat_u128(init + received),
                    0 <= init,
                    SCALE32 == 0x1_0000_0000,
            ;
            assert(init / SCALE32 as int == raw) by (nonlinear_arith)
                requires
                    init == raw * SCALE32,
                    SCALE32 == 0x1_0000_0000,
            ;
        }
    }
}

} // verus!
