use vstd::prelude::*;
use crate::felt::Felt;

verus! {

/// Namespace tag of a wrapped backing-store key.
#[derive(Clone, Copy, PartialEq, Eq, Structural, Debug)]
pub enum Prefix {
    /// A contract storage cell, keyed by address and slot.
    Storage,
    /// The nonce of an address.
    Nonce,
    /// The class hash bound to a deployed address.
    DeployedClass,
    /// The payload of a declared class, keyed by class hash.
    DeclaredClass,
    /// The compiled-class hash of a declared class.
    CompiledClassHash,
    /// A compiled class payload, keyed by compiled-class hash.
    CompiledClass,
}

/// A wrapped key of the backing store: a namespace tag plus up to two felts.
/// Namespaces that need a single felt leave `secondary` at zero.
#[derive(Clone, Copy, PartialEq, Eq, Structural, Debug)]
pub struct StoreKey {
    pub prefix: Prefix,
    pub primary: Felt,
    pub secondary: Felt,
}

/// The map denoted by a record log: later records overwrite earlier ones.
pub open spec fn log_map(s: Seq<(StoreKey, Vec<u8>)>) -> Map<StoreKey, Seq<u8>>
    decreases s.len(),
{
    if s.len() == 0 {
        Map::empty()
    } else {
        log_map(s.drop_last()).insert(s.last().0, s.last().1@)
    }
}

/// In-memory backing store: an append-only log of (key, value) records in
/// which the latest record for a key wins. Viewed as a map from wrapped
/// keys to stored byte strings.
#[derive(Debug)]
pub struct DictStorage {
    entries: Vec<(StoreKey, Vec<u8>)>,
}

impl View for DictStorage {
    type V = Map<StoreKey, Seq<u8>>;

    closed spec fn view(&self) -> Map<StoreKey, Seq<u8>> {
        log_map(self.entries@)
    }
}

/// Byte-for-byte copy of a byte vector.
pub fn clone_bytes(v: &Vec<u8>) -> (r: Vec<u8>)
    ensures
        r@ == v@,
{
    let mut out: Vec<u8> = Vec::new();
    let mut i: usize = 0;
    while i < v.len()
        invariant
            i <= v@.len(),
            out@ == v@.take(i as int),
        decreases v@.len() - i,
    {
        out.push(v[i]);
        proof {
            assert(v@.take(i as int).push(v@[i as int]) =~= v@.take(i as int + 1));
        }
        i += 1;
    }
    proof {
        assert(v@.take(v@.len() as int) =~= v@);
    }
    out
}

impl DictStorage {
    pub fn new() -> (r: DictStorage)
        ensures
            r@ == Map::<StoreKey, Seq<u8>>::empty(),
    {
        DictStorage { entries: Vec::new() }
    }

    /// Records `value` under `key`, overwriting any earlier record.
    pub fn insert(&mut self, key: StoreKey, value: Vec<u8>)
        ensures
            final(self)@ == old(self)@.insert(key, value@),
    {
        let ghost pre = self.entries@;
        self.entries.push((key, value));
        proof {
            assert(self.entries@.drop_last() =~= pre);
        }
    }

    /// Looks the latest record for `key` up.
    pub fn get(&self, key: &StoreKey) -> (r: Option<Vec<u8>>)
        ensures
            match r {
                Some(v) => self@.contains_key(*key) && v@ == self@[*key],
                None => !self@.contains_key(*key),
            },
    {
        let mut i: usize = self.entries.len();
        proof {
            assert(self.entries@.take(i as int) =~= self.entries@);
        }
        while i > 0
            invariant
                i <= self.entries@.len(),
                log_map(self.entries@).contains_key(*key) == log_map(
                    self.entries@.take(i as int),
                ).contains_key(*key),
                log_map(self.entries@).contains_key(*key) ==> log_map(
                    self.entries@.take(i as int),
                )[*key] == log_map(self.entries@)[*key],
            decreases i,
        {
            i = i - 1;
            proof {
                assert(self.entries@.take(i as int + 1).drop_last() =~= self.entries@.take(
                    i as int,
                ));
                assert(self.entries@.take(i as int + 1).last() == self.entries@[i as int]);
            }
            let hit = self.entries[i].0 == *key;
            if hit {
                let v = clone_bytes(&self.entries[i].1);
                return Some(v);
            }
        }
        proof {
            assert(self.entries@.take(0) =~= Seq::<(StoreKey, Vec<u8>)>::empty());
        }
        None
    }
}

impl Default for DictStorage {
    fn default() -> (r: DictStorage)
        ensures
            r@ == Map::<StoreKey, Seq<u8>>::empty(),
    {
        DictStorage::new()
    }
}

} // verus!
