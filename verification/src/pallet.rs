//! The engine's state and its elementary reads and writes.
//!
//! Every ledger cell the staking engine touches is held here explicitly:
//! per-subnet reserves and prices, per-hotkey share-ledger cells,
//! delegation edges, balances, deferred jobs and the global
//! configuration.  Absent cells read as zero (or false), mirroring a
//! key-value store with default values.

use vstd::prelude::*;
use crate::fixed::IFix32;
use crate::fixed::UFix32;
use crate::fixed::UFix64;
use crate::fixed::SCALE32;
use crate::fixed::fix_div_spec;
use crate::fixed::sat_u64;
use crate::scheduler::StakeJob;
use crate::store::LedgerKey;
use crate::store::StoreMap;
use crate::store::account_key;
use crate::store::hotkey_subnet_key;
use crate::store::subnet_key;

verus! {

/// Pricing mechanism of a subnet: `Stable` pools swap one to one,
/// `Dynamic` pools follow the constant-product curve.
#[derive(Clone, Copy, PartialEq, Eq, Structural, Debug)]
pub enum Mechanism {
    Stable,
    Dynamic,
}

/// The reserved root subnet, priced at parity forever.
pub const ROOT_NETUID: u16 = 0;

/// Read of a defaulting cell: the stored value, or the default where no
/// cell exists.
pub open spec fn cell_or<V>(m: Map<LedgerKey, V>, k: LedgerKey, d: V) -> V {
    if m.contains_key(k) {
        m[k]
    } else {
        d
    }
}

/// The whole engine state: one value per ledger cell the staking engine
/// reads or writes, plus the global configuration.
pub struct Pallet {
    /// Tao reserve per subnet.
    pub subnet_tao: StoreMap<u64>,
    /// Alpha held by the pool, per subnet.
    pub subnet_alpha_in: StoreMap<u64>,
    /// Alpha issued and outstanding, per subnet.
    pub subnet_alpha_out: StoreMap<u64>,
    /// Cumulative tao volume per subnet.
    pub subnet_volume: StoreMap<u128>,
    /// Pricing mechanism per subnet.
    pub subnet_mechanism: StoreMap<Mechanism>,
    /// Cached moving price per subnet.
    pub subnet_moving_price: StoreMap<IFix32>,
    /// Liquidity level at which the moving price stops smoothing.
    pub liquidity_scale_max: StoreMap<u64>,
    /// Which subnets exist.
    pub networks_added: StoreMap<bool>,
    /// Whether subnet tokens are enabled, per subnet.
    pub subtoken_enabled: StoreMap<bool>,
    /// Whether stake transfer is enabled, per subnet.
    pub transfer_toggle: StoreMap<bool>,
    /// Number of neuron slots per subnet.
    pub subnetwork_n: StoreMap<u16>,
    /// Hotkey registered in a neuron slot, keyed by (subnet, index).
    pub keys: StoreMap<u64>,
    /// Whether a slot under `keys` is occupied.
    pub keys_present: StoreMap<bool>,
    /// Share-ledger total value, keyed by (hotkey, subnet).
    pub total_hotkey_alpha: StoreMap<u64>,
    /// Share-ledger denominator, keyed by (hotkey, subnet).
    pub total_hotkey_shares: StoreMap<UFix64>,
    /// Share-ledger per-owner share, keyed by (hotkey, coldkey, subnet).
    pub alpha_shares: StoreMap<UFix64>,
    /// Which hotkey accounts exist.
    pub hotkey_accounts: StoreMap<bool>,
    /// Spendable balance per coldkey.
    pub balances: StoreMap<u64>,
    /// Hotkeys a coldkey stakes through.
    pub staking_hotkeys: StoreMap<Vec<u64>>,
    /// Last block a (coldkey, hotkey) pair staked or unstaked.
    pub last_stake_block: StoreMap<u64>,
    /// Delegation edges toward parents, keyed by (hotkey, subnet); each
    /// entry is (proportion of `u64::MAX`, parent hotkey).
    pub parents: StoreMap<Vec<(u64, u64)>>,
    /// Delegation edges toward children, keyed by (hotkey, subnet).
    pub children: StoreMap<Vec<(u64, u64)>>,
    /// Alpha dividends of the last epoch, keyed by (hotkey, subnet).
    pub alpha_dividends: StoreMap<u64>,
    /// Share-ledger total value at the last epoch boundary, keyed by
    /// (hotkey, subnet).
    pub total_hotkey_alpha_last_epoch: StoreMap<u64>,
    /// Deferred staking jobs, keyed by target block.
    pub stake_jobs: StoreMap<Vec<StakeJob>>,
    /// Total tao staked across all subnets.
    pub total_stake: u64,
    /// Global weight of root stake, as a fraction of `u64::MAX`.
    pub tao_weight: u64,
    /// Minimum stake amount.
    pub default_min_stake: u64,
    /// Flat staking fee.
    pub default_staking_fee: u64,
    /// Floor under which no swap may push a reserve.
    pub min_pool_liquidity: u64,
    /// The block being executed.
    pub current_block: u64,
}

impl Pallet {
    /// Tao reserve of a subnet.
    pub open spec fn tao_reserve(self, netuid: u16) -> u64 {
        cell_or(self.subnet_tao@, subnet_key(netuid), 0)
    }

    /// Alpha held by a subnet's pool.
    pub open spec fn alpha_in(self, netuid: u16) -> u64 {
        cell_or(self.subnet_alpha_in@, subnet_key(netuid), 0)
    }

    /// Alpha outstanding on a subnet.
    pub open spec fn alpha_out(self, netuid: u16) -> u64 {
        cell_or(self.subnet_alpha_out@, subnet_key(netuid), 0)
    }

    /// Cumulative swap volume of a subnet.
    pub open spec fn volume(self, netuid: u16) -> u128 {
        cell_or(self.subnet_volume@, subnet_key(netuid), 0)
    }

    /// Pricing mechanism of a subnet; an unconfigured subnet is Stable.
    pub open spec fn mechanism(self, netuid: u16) -> Mechanism {
        cell_or(self.subnet_mechanism@, subnet_key(netuid), Mechanism::Stable)
    }

    /// Stored moving price of a subnet.
    pub open spec fn moving_price(self, netuid: u16) -> IFix32 {
        cell_or(self.subnet_moving_price@, subnet_key(netuid), IFix32 { bits: 0 })
    }

    /// Smoothing saturation level of a subnet.
    pub open spec fn scale_max(self, netuid: u16) -> u64 {
        cell_or(self.liquidity_scale_max@, subnet_key(netuid), 0)
    }

    /// Whether a subnet exists.
    pub open spec fn subnet_exists(self, netuid: u16) -> bool {
        cell_or(self.networks_added@, subnet_key(netuid), false)
    }

    /// Whether a subnet's token is enabled.
    pub open spec fn subtoken_on(self, netuid: u16) -> bool {
        cell_or(self.subtoken_enabled@, subnet_key(netuid), false)
    }

    /// Whether transfers are enabled on a subnet.
    pub open spec fn transfer_on(self, netuid: u16) -> bool {
        cell_or(self.transfer_toggle@, subnet_key(netuid), false)
    }

    /// Share-ledger total value of a hotkey on a subnet.
    pub open spec fn hotkey_alpha(self, hotkey: u64, netuid: u16) -> u64 {
        cell_or(self.total_hotkey_alpha@, hotkey_subnet_key(hotkey, netuid), 0)
    }

    /// Share-ledger denominator of a hotkey on a subnet.
    pub open spec fn hotkey_shares(self, hotkey: u64, netuid: u16) -> UFix64 {
        cell_or(self.total_hotkey_shares@, hotkey_subnet_key(hotkey, netuid), UFix64 { bits: 0 })
    }

    /// Whether a hotkey account exists.
    pub open spec fn hotkey_exists(self, hotkey: u64) -> bool {
        cell_or(self.hotkey_accounts@, account_key(hotkey), false)
    }

    /// Spendable balance of a coldkey.
    pub open spec fn balance_of(self, coldkey: u64) -> u64 {
        cell_or(self.balances@, account_key(coldkey), 0)
    }

    /// A fresh engine over an empty ledger.
    pub fn new() -> (r: Pallet)
        ensures
            r.subnet_tao@ == Map::<LedgerKey, u64>::empty(),
            r.subnet_alpha_in@ == Map::<LedgerKey, u64>::empty(),
            r.subnet_alpha_out@ == Map::<LedgerKey, u64>::empty(),
            r.subnet_volume@ == Map::<LedgerKey, u128>::empty(),
            r.subnet_mechanism@ == Map::<LedgerKey, Mechanism>::empty(),
            r.subnet_moving_price@ == Map::<LedgerKey, IFix32>::empty(),
            r.liquidity_scale_max@ == Map::<LedgerKey, u64>::empty(),
            r.networks_added@ == Map::<LedgerKey, bool>::empty(),
            r.subtoken_enabled@ == Map::<LedgerKey, bool>::empty(),
            r.transfer_toggle@ == Map::<LedgerKey, bool>::empty(),
            r.subnetwork_n@ == Map::<LedgerKey, u16>::empty(),
            r.keys@ == Map::<LedgerKey, u64>::empty(),
            r.keys_present@ == Map::<LedgerKey, bool>::empty(),
            r.total_hotkey_alpha@ == Map::<LedgerKey, u64>::empty(),
            r.total_hotkey_shares@ == Map::<LedgerKey, UFix64>::empty(),
            r.alpha_shares@ == Map::<LedgerKey, UFix64>::empty(),
            r.hotkey_accounts@ == Map::<LedgerKey, bool>::empty(),
            r.balances@ == Map::<LedgerKey, u64>::empty(),
            r.staking_hotkeys@ == Map::<LedgerKey, Vec<u64>>::empty(),
            r.last_stake_block@ == Map::<LedgerKey, u64>::empty(),
            r.parents@ == Map::<LedgerKey, Vec<(u64, u64)>>::empty(),
            r.children@ == Map::<LedgerKey, Vec<(u64, u64)>>::empty(),
            r.alpha_dividends@ == Map::<LedgerKey, u64>::empty(),
            r.total_hotkey_alpha_last_epoch@ == Map::<LedgerKey, u64>::empty(),
            r.stake_jobs@ == Map::<LedgerKey, Vec<StakeJob>>::empty(),
            r.total_stake == 0,
            r.tao_weight == 0,
            r.default_min_stake == 0,
            r.default_staking_fee == 0,
            r.min_pool_liquidity == 0,
            r.current_block == 0,
    {
        Pallet {
            subnet_tao: StoreMap::new(),
            subnet_alpha_in: StoreMap::new(),
            subnet_alpha_out: StoreMap::new(),
            subnet_volume: StoreMap::new(),
            subnet_mechanism: StoreMap::new(),
            subnet_moving_price: StoreMap::new(),
            liquidity_scale_max: StoreMap::new(),
            networks_added: StoreMap::new(),
            subtoken_enabled: StoreMap::new(),
            transfer_toggle: StoreMap::new(),
            subnetwork_n: StoreMap::new(),
            keys: StoreMap::new(),
            keys_present: StoreMap::new(),
            total_hotkey_alpha: StoreMap::new(),
            total_hotkey_shares: StoreMap::new(),
            alpha_shares: StoreMap::new(),
            hotkey_accounts: StoreMap::new(),
            balances: StoreMap::new(),
            staking_hotkeys: StoreMap::new(),
            last_stake_block: StoreMap::new(),
            parents: StoreMap::new(),
            children: StoreMap::new(),
            alpha_dividends: StoreMap::new(),
            total_hotkey_alpha_last_epoch: StoreMap::new(),
            stake_jobs: StoreMap::new(),
            total_stake: 0,
            tao_weight: 0,
            default_min_stake: 0,
            default_staking_fee: 0,
            min_pool_liquidity: 0,
            current_block: 0,
        }
    }

    /// Total alpha issuance of a subnet: pool-held plus outstanding,
    /// saturating.
    pub fn get_alpha_issuance(&self, netuid: u16) -> (r: u64)
        ensures
            r == sat_u64(self.alpha_in(netuid) + self.alpha_out(netuid)),
    {
        let a: u64 = match self.subnet_alpha_in.get(subnet_key(netuid)) {
            Some(v) => *v,
            None => 0,
        };
        let b: u64 = match self.subnet_alpha_out.get(subnet_key(netuid)) {
            Some(v) => *v,
            None => 0,
        };
        a.saturating_add(b)
    }

    /// The global root-stake weight, normalized from a fraction of
    /// `u64::MAX` into `[0, 1]`.
    pub fn get_tao_weight(&self) -> (r: UFix32)
        ensures
            r.bits == fix_div_spec(
                self.tao_weight * SCALE32,
                u64::MAX as int * SCALE32,
                SCALE32 as int,
            ),
    {
        let w: UFix32 = UFix32::from_u64(self.tao_weight);
        let m: UFix32 = UFix32::from_u64(u64::MAX);
        w.safe_div(m)
    }

    /// Install a new global root-stake weight.
    pub fn set_tao_weight(&mut self, weight: u64)
        ensures
            *final(self) == (Pallet { tao_weight: weight, ..*old(self) }),
    {
        self.tao_weight = weight;
    }

    /// Share-ledger total stake of a hotkey on a subnet: the sum over
    /// all coldkeys staking through it.
    pub fn get_stake_for_hotkey_on_subnet(&self, hotkey: u64, netuid: u16) -> (r: u64)
        ensures
            r == self.hotkey_alpha(hotkey, netuid),
    {
        match self.total_hotkey_alpha.get(hotkey_subnet_key(hotkey, netuid)) {
            Some(v) => *v,
            None => 0,
        }
    }
}

} // verus!
