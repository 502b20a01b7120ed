//! The ledger store: an association from composite numeric keys to
//! values, with the map semantics the engine's contracts are written
//! against.
//!
//! Entries live in insertion order in a vector; a write removes every
//! entry under the key before appending the new one, so a key occurs at
//! most once and the view below is the ordinary mathematical map.

use vstd::prelude::*;

verus! {

/// Composite key into the ledger store: up to three numeric components,
/// zero-padded when fewer are needed.
#[derive(Clone, Copy, PartialEq, Eq, Structural, Debug)]
pub struct LedgerKey {
    pub a: u64,
    pub b: u64,
    pub c: u64,
}

/// Key of a per-subnet cell.
#[verifier::allow_in_spec]
pub fn subnet_key(netuid: u16) -> (k: LedgerKey)
    returns
        (LedgerKey { a: netuid as u64, b: 0, c: 0 }),
{
    LedgerKey { a: netuid as u64, b: 0, c: 0 }
}

/// Key of a per-(hotkey, subnet) cell.
#[verifier::allow_in_spec]
pub fn hotkey_subnet_key(hotkey: u64, netuid: u16) -> (k: LedgerKey)
    returns
        (LedgerKey { a: hotkey, b: netuid as u64, c: 1 }),
{
    LedgerKey { a: hotkey, b: netuid as u64, c: 1 }
}

/// Key of a per-(hotkey, coldkey, subnet) cell.
#[verifier::allow_in_spec]
pub fn hotkey_coldkey_subnet_key(hotkey: u64, coldkey: u64, netuid: u16) -> (k: LedgerKey)
    returns
        (LedgerKey { a: hotkey, b: coldkey, c: (netuid as u64 + 0x1_0000) as u64 }),
{
    LedgerKey { a: hotkey, b: coldkey, c: (netuid as u64) + 0x1_0000 }
}

/// Key of a per-(coldkey, hotkey) cell.
#[verifier::allow_in_spec]
pub fn coldkey_hotkey_key(coldkey: u64, hotkey: u64) -> (k: LedgerKey)
    returns
        (LedgerKey { a: coldkey, b: hotkey, c: 2 }),
{
    LedgerKey { a: coldkey, b: hotkey, c: 2 }
}

/// Key of a per-(subnet, neuron-index) cell.
#[verifier::allow_in_spec]
pub fn uid_key(netuid: u16, uid: u16) -> (k: LedgerKey)
    returns
        (LedgerKey { a: netuid as u64, b: uid as u64, c: 4 }),
{
    LedgerKey { a: netuid as u64, b: uid as u64, c: 4 }
}

/// Key of a per-account cell.
#[verifier::allow_in_spec]
pub fn account_key(account: u64) -> (k: LedgerKey)
    returns
        (LedgerKey { a: account, b: 0, c: 5 }),
{
    LedgerKey { a: account, b: 0, c: 5 }
}

/// Key of a per-block cell.
#[verifier::allow_in_spec]
pub fn block_key(block: u64) -> (k: LedgerKey)
    returns
        (LedgerKey { a: block, b: 0, c: 3 }),
{
    LedgerKey { a: block, b: 0, c: 3 }
}

/// The mathematical map an entry sequence denotes: later entries
/// override earlier ones.
pub open spec fn map_of<V>(s: Seq<(LedgerKey, V)>) -> Map<LedgerKey, V>
    decreases s.len(),
{
    if s.len() == 0 {
        Map::empty()
    } else {
        map_of(s.drop_last()).insert(s.last().0, s.last().1)
    }
}

/// The entry sequence with every entry under `k` removed, in order.
pub open spec fn strip_key<V>(s: Seq<(LedgerKey, V)>, k: LedgerKey) -> Seq<(LedgerKey, V)>
    decreases s.len(),
{
    if s.len() == 0 {
        s
    } else if s.last().0 == k {
        strip_key(s.drop_last(), k)
    } else {
        strip_key(s.drop_last(), k).push(s.last())
    }
}

/// Stripping a key removes exactly that key from the denoted map.
proof fn lemma_strip_key_map<V>(s: Seq<(LedgerKey, V)>, k: LedgerKey)
    ensures
        map_of(strip_key(s, k)) == map_of(s).remove(k),
    decreases s.len(),
{
    if s.len() == 0 {
        assert(map_of(strip_key(s, k)) =~= map_of(s).remove(k));
    } else {
        lemma_strip_key_map(s.drop_last(), k);
        if s.last().0 == k {
            assert(map_of(strip_key(s, k)) =~= map_of(s).remove(k));
        } else {
            let t = strip_key(s.drop_last(), k).push(s.last());
            assert(t.drop_last() =~= strip_key(s.drop_last(), k));
            assert(t.last() == s.last());
            assert(map_of(strip_key(s, k)) =~= map_of(s).remove(k));
        }
    }
}

/// An entry at `i` whose key has no later occurrence gives the key's
/// value in the denoted map.
proof fn lemma_last_match<V>(s: Seq<(LedgerKey, V)>, k: LedgerKey, i: int)
    requires
        0 <= i < s.len(),
        s[i].0 == k,
        forall|j: int| i < j < s.len() ==> (#[trigger] s[j]).0 != k,
    ensures
        map_of(s).contains_key(k),
        map_of(s)[k] == s[i].1,
    decreases s.len(),
{
    if i == s.len() - 1 {
    } else {
        assert(s.drop_last()[i] == s[i]);
        lemma_last_match(s.drop_last(), k, i);
    }
}

/// A key that occurs nowhere is absent from the denoted map.
proof fn lemma_no_match<V>(s: Seq<(LedgerKey, V)>, k: LedgerKey)
    requires
        forall|j: int| 0 <= j < s.len() ==> (#[trigger] s[j]).0 != k,
    ensures
        !map_of(s).contains_key(k),
    decreases s.len(),
{
    if s.len() > 0 {
        assert(forall|j: int| 0 <= j < s.len() - 1 ==> (#[trigger] s.drop_last()[j]).0 != k);
        lemma_no_match(s.drop_last(), k);
    }
}

/// Keyed storage cell map backing the engine's state.
pub struct StoreMap<V> {
    entries: Vec<(LedgerKey, V)>,
}

impl<V> View for StoreMap<V> {
    type V = Map<LedgerKey, V>;

    closed spec fn view(&self) -> Map<LedgerKey, V> {
        map_of(self.entries@)
    }
}

impl<V> StoreMap<V> {
    /// The empty store.
    pub fn new() -> (r: Self)
        ensures
            r@ == Map::<LedgerKey, V>::empty(),
    {
        StoreMap { entries: Vec::new() }
    }

    /// Read the cell under `k`, if present.
    pub fn get(&self, k: LedgerKey) -> (r: Option<&V>)
        ensures
            match r {
                Some(v) => self@.contains_key(k) && self@[k] == *v,
                None => !self@.contains_key(k),
            },
    {
        let n: usize = self.entries.len();
        let mut found: Option<usize> = None;
        let mut i: usize = 0;
        while i < n
            invariant
                n == self.entries.len(),
                i <= n,
                match found {
                    Some(fi) => fi < i && self.entries@[fi as int].0 == k && forall|j: int|
                        fi < j < i ==> (#[trigger] self.entries@[j]).0 != k,
                    None => forall|j: int| 0 <= j < i ==> (#[trigger] self.entries@[j]).0 != k,
                },
            decreases n - i,
        {
            if self.entries[i].0 == k {
                found = Some(i);
            }
            i = i + 1;
        }
        match found {
            Some(fi) => {
                proof {
                    lemma_last_match(self.entries@, k, fi as int);
                }
                Some(&self.entries[fi].1)
            },
            None => {
                proof {
                    lemma_no_match(self.entries@, k);
                }
                None
            },
        }
    }

    /// Remove every entry under `k`, keeping the others in order.
    fn strip(&mut self, k: LedgerKey)
        ensures
            final(self).entries@ == strip_key(old(self).entries@, k),
    {
        let ghost s: Seq<(LedgerKey, V)> = self.entries@;
        let mut kept: Vec<(LedgerKey, V)> = Vec::new();
        let ghost mut i: int = 0;
        while self.entries.len() > 0
            invariant
                0 <= i <= s.len(),
                self.entries@ == s.skip(i),
                kept@ == strip_key(s.take(i), k),
            decreases self.entries.len(),
        {
            let e: (LedgerKey, V) = self.entries.remove(0);
            proof {
                assert(e == s[i]);
                assert(self.entries@ =~= s.skip(i + 1));
                assert(s.take(i + 1).drop_last() =~= s.take(i));
                assert(s.take(i + 1).last() == s[i]);
            }
            if e.0 == k {
                proof {
                    assert(kept@ == strip_key(s.take(i + 1), k));
                }
            } else {
                kept.push(e);
            }
            proof {
                i = i + 1;
            }
        }
        proof {
            assert(s.take(s.len() as int) =~= s);
        }
        self.entries = kept;
    }

    /// Write the cell under `k`.
    pub fn insert(&mut self, k: LedgerKey, v: V)
        ensures
            final(self)@ == old(self)@.insert(k, v),
    {
        self.strip(k);
        proof {
            lemma_strip_key_map(old(self).entries@, k);
        }
        self.entries.push((k, v));
        proof {
            assert(self.entries@.drop_last() =~= strip_key(old(self).entries@, k));
            assert(map_of(self.entries@) =~= old(self)@.insert(k, v));
        }
    }

    /// Delete the cell under `k` (pruning: absent cells read as their
    /// defaults).
    pub fn remove(&mut self, k: LedgerKey)
        ensures
            final(self)@ == old(self)@.remove(k),
    {
        self.strip(k);
        proof {
            lemma_strip_key_map(old(self).entries@, k);
        }
    }
}

} // verus!
