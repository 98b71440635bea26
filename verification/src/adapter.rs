use vstd::prelude::*;
use crate::bytes::{bytes_eq, le_bytes, from_le, lemma_le_bytes_len, lemma_from_le_le_bytes, lemma_from_le_bound, lemma_pow256_16, u128_to_le_bytes, u128_from_le_bytes};
use crate::felt::{Felt, felt_bytes, dec_felt, encode_felt, decode_felt, lemma_felt_round_trip};
use crate::class::{ContractClass, ClassView, enc_class, dec_class, encode_class, decode_class, lemma_class_round_trip};
use crate::store::{DictStorage, StoreKey, Prefix};

verus! {

/// Why a state operation was refused.
#[derive(Clone, Copy, PartialEq, Eq, Structural, Debug)]
pub enum StateError {
    /// An address, key or hash does not fit the field.
    InvalidKey,
    /// The class hash was never declared.
    UndeclaredClass,
    /// The address already has a class bound to it.
    AddressAlreadyDeployed,
    /// A re-declaration of a class hash with a different payload.
    ClassHashCollision,
    /// A value cannot be put into its stored form.
    EncodeError,
    /// A stored byte string is not a valid class.
    DecodeError,
}

/// One recorded storage write: which cell, and the value written last.
#[derive(Clone, Copy, PartialEq, Eq, Structural, Debug)]
pub struct StorageWrite {
    pub address: Felt,
    pub key: Felt,
    pub value: Felt,
}

/// Snapshot of everything the change tracker recorded so far.
#[derive(Debug)]
pub struct StateDiff {
    /// Storage writes in issue order; a cell written twice appears twice.
    pub storage_updates: Vec<StorageWrite>,
    /// Addresses whose nonce was incremented, in issue order.
    pub nonce_updates: Vec<Felt>,
    /// Class hashes declared, in issue order.
    pub declared_classes: Vec<Felt>,
}

pub open spec fn sk_storage(address: Felt, key: Felt) -> StoreKey {
    StoreKey { prefix: Prefix::Storage, primary: address, secondary: key }
}

pub open spec fn sk_nonce(address: Felt) -> StoreKey {
    StoreKey { prefix: Prefix::Nonce, primary: address, secondary: Felt::zero_spec() }
}

pub open spec fn sk_deployed(address: Felt) -> StoreKey {
    StoreKey { prefix: Prefix::DeployedClass, primary: address, secondary: Felt::zero_spec() }
}

pub open spec fn sk_class(hash: Felt) -> StoreKey {
    StoreKey { prefix: Prefix::DeclaredClass, primary: hash, secondary: Felt::zero_spec() }
}

pub open spec fn sk_compiled_hash(hash: Felt) -> StoreKey {
    StoreKey { prefix: Prefix::CompiledClassHash, primary: hash, secondary: Felt::zero_spec() }
}

pub open spec fn sk_compiled_class(hash: Felt) -> StoreKey {
    StoreKey { prefix: Prefix::CompiledClass, primary: hash, secondary: Felt::zero_spec() }
}

/// What a stored nonce record denotes.
pub open spec fn dec_u64(s: Seq<u8>) -> Option<u64> {
    if s.len() == 8 {
        Some(from_le(s) as u64)
    } else {
        None
    }
}

/// The felt a store holds under `key`: absent or undecodable records read
/// as the zero sentinel.
pub open spec fn felt_in(m: Map<StoreKey, Seq<u8>>, key: StoreKey) -> Felt {
    if m.contains_key(key) {
        match dec_felt(m[key]) {
            Option::Some(f) => f,
            Option::None => Felt::zero_spec(),
        }
    } else {
        Felt::zero_spec()
    }
}

/// The storage cell (address, key), zero when never written.
pub open spec fn storage_in(m: Map<StoreKey, Seq<u8>>, address: Felt, key: Felt) -> Felt {
    felt_in(m, sk_storage(address, key))
}

/// The nonce of `address`, zero when it never transacted.
pub open spec fn nonce_in(m: Map<StoreKey, Seq<u8>>, address: Felt) -> u64 {
    if m.contains_key(sk_nonce(address)) {
        match dec_u64(m[sk_nonce(address)]) {
            Option::Some(n) => n,
            Option::None => 0,
        }
    } else {
        0
    }
}

/// The class hash bound to `address`; zero is the "undeployed" sentinel.
pub open spec fn class_hash_in(m: Map<StoreKey, Seq<u8>>, address: Felt) -> Felt {
    felt_in(m, sk_deployed(address))
}

/// Whether `hash` was ever declared.
pub open spec fn declared_in(m: Map<StoreKey, Seq<u8>>, hash: Felt) -> bool {
    m.contains_key(sk_class(hash))
}

/// The class declared under `hash`, if the stored record is a valid class.
pub open spec fn class_in(m: Map<StoreKey, Seq<u8>>, hash: Felt) -> Option<ClassView> {
    if m.contains_key(sk_class(hash)) {
        dec_class(m[sk_class(hash)])
    } else {
        None
    }
}

/// The compiled-class hash of `hash`, zero while not compiled.
pub open spec fn compiled_hash_in(m: Map<StoreKey, Seq<u8>>, hash: Felt) -> Felt {
    felt_in(m, sk_compiled_hash(hash))
}

/// The store after one nonce increment for `address`.
pub open spec fn bump_nonce(m: Map<StoreKey, Seq<u8>>, address: Felt) -> Map<StoreKey, Seq<u8>> {
    m.insert(sk_nonce(address), le_bytes((nonce_in(m, address) + 1) as nat, 8))
}

/// The cell a write touched.
pub open spec fn cell_of(w: StorageWrite) -> (Felt, Felt) {
    (w.address, w.key)
}

/// The distinct cells among the recorded writes.
pub open spec fn cell_set(s: Seq<StorageWrite>) -> Set<(Felt, Felt)>
    decreases s.len(),
{
    if s.len() == 0 {
        Set::empty()
    } else {
        cell_set(s.drop_last()).insert(cell_of(s.last()))
    }
}

/// The distinct addresses among the recorded writes.
pub open spec fn addr_set(s: Seq<StorageWrite>) -> Set<Felt>
    decreases s.len(),
{
    if s.len() == 0 {
        Set::empty()
    } else {
        addr_set(s.drop_last()).insert(s.last().address)
    }
}

pub proof fn lemma_cell_set_finite(s: Seq<StorageWrite>)
    ensures
        cell_set(s).finite(),
    decreases s.len(),
{
    broadcast use vstd::set::group_set_axioms;

    if s.len() > 0 {
        lemma_cell_set_finite(s.drop_last());
    }
}

pub proof fn lemma_addr_set_finite(s: Seq<StorageWrite>)
    ensures
        addr_set(s).finite(),
    decreases s.len(),
{
    broadcast use vstd::set::group_set_axioms;

    if s.len() > 0 {
        lemma_addr_set_finite(s.drop_last());
    }
}

/// A cell is in the set exactly when some recorded write touched it.
pub proof fn lemma_cell_set_contains(s: Seq<StorageWrite>, p: (Felt, Felt))
    ensures
        cell_set(s).contains(p) <==> exists|t: int| 0 <= t < s.len() && cell_of(s[t]) == p,
    decreases s.len(),
{
    broadcast use vstd::set::group_set_axioms;

    if s.len() > 0 {
        lemma_cell_set_contains(s.drop_last(), p);
        assert(forall|t: int| 0 <= t < s.len() - 1 ==> #[trigger] s.drop_last()[t] == s[t]);
        if cell_set(s).contains(p) {
            if p == cell_of(s.last()) {
                assert(cell_of(s[s.len() - 1]) == p);
            } else {
                let t = choose|t: int| 0 <= t < s.len() - 1 && cell_of(s.drop_last()[t]) == p;
                assert(cell_of(s[t]) == p);
            }
        }
        if exists|t: int| 0 <= t < s.len() && cell_of(s[t]) == p {
            let t = choose|t: int| 0 <= t < s.len() && cell_of(s[t]) == p;
            if t < s.len() - 1 {
                assert(cell_of(s.drop_last()[t]) == p);
            } else {
                assert(p == cell_of(s.last()));
            }
        }
    }
}

/// An address is in the set exactly when some recorded write touched it.
pub proof fn lemma_addr_set_contains(s: Seq<StorageWrite>, p: Felt)
    ensures
        addr_set(s).contains(p) <==> exists|t: int| 0 <= t < s.len() && s[t].address == p,
    decreases s.len(),
{
    broadcast use vstd::set::group_set_axioms;

    if s.len() > 0 {
        lemma_addr_set_contains(s.drop_last(), p);
        assert(forall|t: int| 0 <= t < s.len() - 1 ==> #[trigger] s.drop_last()[t] == s[t]);
        if addr_set(s).contains(p) {
            if p == s.last().address {
                assert(s[s.len() - 1].address == p);
            } else {
                let t = choose|t: int| 0 <= t < s.len() - 1 && s.drop_last()[t].address == p;
                assert(s[t].address == p);
            }
        }
        if exists|t: int| 0 <= t < s.len() && s[t].address == p {
            let t = choose|t: int| 0 <= t < s.len() && s[t].address == p;
            if t < s.len() - 1 {
                assert(s.drop_last()[t].address == p);
            } else {
                assert(p == s.last().address);
            }
        }
    }
}

/// State adapter between an execution engine and a backing store.
///
/// Reads answer from the backing store alone; writes go straight through
/// to it and are recorded in the change tracker on the side.
pub struct StateAdapter {
    /// The injected backing store; the sole source of durable state.
    pub store: DictStorage,
    /// Change tracker: every storage write issued in this scope.
    pub storage_update: Vec<StorageWrite>,
    /// Change tracker: every nonce increment issued in this scope.
    pub nonce_update: Vec<Felt>,
    /// Change tracker: every class declaration issued in this scope.
    pub declared_update: Vec<Felt>,
    /// Running count of class-hash assignments, one per billable event.
    pub class_hash_update: u64,
}

impl StateAdapter {
    /// The adapter leaves the backing store and its own records untouched.
    pub open spec fn same_state(self, other: StateAdapter) -> bool {
        &&& self.store@ == other.store@
        &&& self.storage_update@ == other.storage_update@
        &&& self.nonce_update@ == other.nonce_update@
        &&& self.declared_update@ == other.declared_update@
        &&& self.class_hash_update == other.class_hash_update
    }

    /// A fresh adapter over an injected backing store, with an empty
    /// change tracker.
    pub fn new(store: DictStorage) -> (r: StateAdapter)
        ensures
            r.store@ == store@,
            r.storage_update@ == Seq::<StorageWrite>::empty(),
            r.nonce_update@ == Seq::<Felt>::empty(),
            r.declared_update@ == Seq::<Felt>::empty(),
            r.class_hash_update == 0,
    {
        StateAdapter {
            store,
            storage_update: Vec::new(),
            nonce_update: Vec::new(),
            declared_update: Vec::new(),
            class_hash_update: 0,
        }
    }

    /// Hands the backing store back when the execution scope ends.
    pub fn into_store(self) -> (r: DictStorage)
        ensures
            r@ == self.store@,
    {
        self.store
    }

    fn read_felt(&self, key: &StoreKey) -> (r: Felt)
        ensures
            r == felt_in(self.store@, *key),
            r.wf(),
    {
        match self.store.get(key) {
            Option::Some(bytes) => match decode_felt(&bytes) {
                Option::Some(f) => f,
                Option::None => Felt::zero(),
            },
            Option::None => Felt::zero(),
        }
    }

    fn read_nonce(&self, address: &Felt) -> (r: u64)
        ensures
            r == nonce_in(self.store@, *address),
    {
        let k = StoreKey {
            prefix: Prefix::Nonce,
            primary: *address,
            secondary: Felt::zero(),
        };
        match self.store.get(&k) {
            Option::Some(bytes) => {
                if bytes.len() == 8 {
                    proof {
                        lemma_from_le_bound(bytes@);
                        lemma_pow256_16();
                        assert(bytes@.subrange(0, 8) =~= bytes@);
                    }
                    u128_from_le_bytes(&bytes, 0, 8) as u64
                } else {
                    0
                }
            },
            Option::None => 0,
        }
    }

    /// The value of storage cell (address, key); zero when unset.
    pub fn get_storage_at(&self, address: &Felt, key: &Felt) -> (r: Result<Felt, StateError>)
        ensures
            match r {
                Ok(v) => address.wf() && key.wf() && v == storage_in(
                    self.store@,
                    *address,
                    *key,
                ),
                Err(e) => !(address.wf() && key.wf()) && e == StateError::InvalidKey,
            },
    {
        if !address.is_wf() || !key.is_wf() {
            return Err(StateError::InvalidKey);
        }
        let k = StoreKey { prefix: Prefix::Storage, primary: *address, secondary: *key };
        Ok(self.read_felt(&k))
    }

    /// The nonce of `address`; zero when it never transacted.
    pub fn get_nonce_at(&self, address: &Felt) -> (r: Result<u64, StateError>)
        ensures
            match r {
                Ok(n) => address.wf() && n == nonce_in(self.store@, *address),
                Err(e) => !address.wf() && e == StateError::InvalidKey,
            },
    {
        if !address.is_wf() {
            return Err(StateError::InvalidKey);
        }
        Ok(self.read_nonce(address))
    }

    /// The class hash deployed at `address`; the zero sentinel when none.
    pub fn get_class_hash_at(&self, address: &Felt) -> (r: Result<Felt, StateError>)
        ensures
            match r {
                Ok(h) => address.wf() && h == class_hash_in(self.store@, *address),
                Err(e) => !address.wf() && e == StateError::InvalidKey,
            },
    {
        if !address.is_wf() {
            return Err(StateError::InvalidKey);
        }
        let k = StoreKey {
            prefix: Prefix::DeployedClass,
            primary: *address,
            secondary: Felt::zero(),
        };
        Ok(self.read_felt(&k))
    }

    /// The class declared under `class_hash`, decoded from its stored form.
    pub fn get_contract_class(&self, class_hash: &Felt) -> (r: Result<ContractClass, StateError>)
        ensures
            match r {
                Ok(c) => class_hash.wf() && class_in(self.store@, *class_hash) == Some(c@)
                    && c.wf(),
                Err(e) => {
                    ||| (e == StateError::InvalidKey && !class_hash.wf())
                    ||| (e == StateError::UndeclaredClass && class_hash.wf() && !declared_in(
                        self.store@,
                        *class_hash,
                    ))
                    ||| (e == StateError::DecodeError && class_hash.wf() && declared_in(
                        self.store@,
                        *class_hash,
                    ) && class_in(self.store@, *class_hash) is None)
                },
            },
    {
        if !class_hash.is_wf() {
            return Err(StateError::InvalidKey);
        }
        let k = StoreKey {
            prefix: Prefix::DeclaredClass,
            primary: *class_hash,
            secondary: Felt::zero(),
        };
        match self.store.get(&k) {
            Option::None => Err(StateError::UndeclaredClass),
            Option::Some(bytes) => match decode_class(&bytes) {
                Option::None => Err(StateError::DecodeError),
                Option::Some(c) => Ok(c),
            },
        }
    }

    /// The compiled-class hash of a declared class; the zero sentinel while
    /// the class is not compiled.
    pub fn get_compiled_class_hash(&self, class_hash: &Felt) -> (r: Result<Felt, StateError>)
        ensures
            match r {
                Ok(h) => class_hash.wf() && declared_in(self.store@, *class_hash) && h
                    == compiled_hash_in(self.store@, *class_hash),
                Err(e) => {
                    ||| (e == StateError::InvalidKey && !class_hash.wf())
                    ||| (e == StateError::UndeclaredClass && class_hash.wf() && !declared_in(
                        self.store@,
                        *class_hash,
                    ))
                },
            },
    {
        if !class_hash.is_wf() {
            return Err(StateError::InvalidKey);
        }
        let probe = StoreKey {
            prefix: Prefix::DeclaredClass,
            primary: *class_hash,
            secondary: Felt::zero(),
        };
        match self.store.get(&probe) {
            Option::None => Err(StateError::UndeclaredClass),
            Option::Some(_bytes) => {
                let k = StoreKey {
                    prefix: Prefix::CompiledClassHash,
                    primary: *class_hash,
                    secondary: Felt::zero(),
                };
                Ok(self.read_felt(&k))
            },
        }
    }

    /// Writes a storage cell through to the backing store and records the
    /// write in the change tracker.
    pub fn set_storage_at(&mut self, address: Felt, key: Felt, value: Felt)
        requires
            address.wf(),
            key.wf(),
            value.wf(),
        ensures
            final(self).store@ == old(self).store@.insert(
                sk_storage(address, key),
                felt_bytes(value),
            ),
            storage_in(final(self).store@, address, key) == value,
            final(self).storage_update@ == old(self).storage_update@.push(
                StorageWrite { address, key, value },
            ),
            final(self).nonce_update@ == old(self).nonce_update@,
            final(self).declared_update@ == old(self).declared_update@,
            final(self).class_hash_update == old(self).class_hash_update,
    {
        self.storage_update.push(StorageWrite { address, key, value });
        let k = StoreKey { prefix: Prefix::Storage, primary: address, secondary: key };
        let bytes = encode_felt(&value);
        self.store.insert(k, bytes);
        proof {
            lemma_felt_round_trip(value);
        }
    }

    /// Reads the current nonce of `address` and writes the successor back,
    /// recording the increment.
    pub fn increment_nonce(&mut self, address: &Felt) -> (r: Result<(), StateError>)
        requires
            address.wf() ==> nonce_in(old(self).store@, *address) < u64::MAX,
        ensures
            match r {
                Ok(_) => address.wf() && final(self).store@ == bump_nonce(
                    old(self).store@,
                    *address,
                ) && nonce_in(final(self).store@, *address) == nonce_in(
                    old(self).store@,
                    *address,
                ) + 1 && final(self).nonce_update@ == old(self).nonce_update@.push(*address)
                    && final(self).storage_update@ == old(self).storage_update@
                    && final(self).declared_update@ == old(self).declared_update@
                    && final(self).class_hash_update == old(self).class_hash_update,
                Err(e) => !address.wf() && e == StateError::InvalidKey && final(self).same_state(
                    *old(self),
                ),
            },
    {
        if !address.is_wf() {
            return Err(StateError::InvalidKey);
        }
        let current = self.read_nonce(address);
        let k = StoreKey {
            prefix: Prefix::Nonce,
            primary: *address,
            secondary: Felt::zero(),
        };
        let bytes = u128_to_le_bytes((current + 1) as u128, 8);
        self.nonce_update.push(*address);
        self.store.insert(k, bytes);
        proof {
            lemma_le_bytes_len((current + 1) as nat, 8);
            lemma_pow256_16();
            lemma_from_le_le_bytes((current + 1) as nat, 8);
        }
        Ok(())
    }

    /// Binds `class_hash` to `address`, overwriting any prior binding, and
    /// bills one class-hash assignment.
    pub fn set_class_hash_at(&mut self, address: Felt, class_hash: Felt) -> (r: Result<
        (),
        StateError,
    >)
        requires
            old(self).class_hash_update < u64::MAX,
        ensures
            match r {
                Ok(_) => address.wf() && class_hash.wf() && final(self).store@ == old(self).store@.insert(sk_deployed(address), felt_bytes(class_hash)) && class_hash_in(
                    final(self).store@,
                    address,
                ) == class_hash && final(self).class_hash_update == old(self).class_hash_update
                    + 1 && final(self).storage_update@ == old(self).storage_update@ && final(self).nonce_update@ == old(self).nonce_update@ && final(self).declared_update@ == old(self).declared_update@,
                Err(e) => !(address.wf() && class_hash.wf()) && e == StateError::InvalidKey
                    && final(self).same_state(*old(self)),
            },
    {
        if !address.is_wf() || !class_hash.is_wf() {
            return Err(StateError::InvalidKey);
        }
        self.class_hash_update = self.class_hash_update + 1;
        let k = StoreKey {
            prefix: Prefix::DeployedClass,
            primary: address,
            secondary: Felt::zero(),
        };
        let bytes = encode_felt(&class_hash);
        self.store.insert(k, bytes);
        proof {
            lemma_felt_round_trip(class_hash);
        }
        Ok(())
    }

    /// Declares a class: encodes the payload and persists it under its
    /// hash. Exact re-declaration is accepted and changes nothing durable;
    /// a conflicting re-declaration is refused.
    pub fn set_contract_class(&mut self, class_hash: &Felt, contract_class: &ContractClass) -> (r:
        Result<(), StateError>)
        ensures
            match r {
                Ok(_) => class_hash.wf() && contract_class.wf() && final(self).store@ == old(self).store@.insert(sk_class(*class_hash), enc_class(contract_class@)) && class_in(
                    final(self).store@,
                    *class_hash,
                ) == Some(contract_class@) && final(self).declared_update@ == old(self).declared_update@.push(*class_hash) && final(self).storage_update@ == old(self).storage_update@ && final(self).nonce_update@ == old(self).nonce_update@ && final(self).class_hash_update == old(self).class_hash_update && (declared_in(
                    old(self).store@,
                    *class_hash,
                ) ==> old(self).store@[sk_class(*class_hash)] == enc_class(contract_class@)),
                Err(e) => final(self).same_state(*old(self)) && {
                    ||| (e == StateError::InvalidKey && !class_hash.wf())
                    ||| (e == StateError::EncodeError && class_hash.wf() && !contract_class.wf())
                    ||| (e == StateError::ClassHashCollision && class_hash.wf()
                        && contract_class.wf() && declared_in(old(self).store@, *class_hash) && old(self).store@[sk_class(*class_hash)] != enc_class(contract_class@))
                },
            },
    {
        if !class_hash.is_wf() {
            return Err(StateError::InvalidKey);
        }
        let encoded = match encode_class(contract_class) {
            Option::Some(v) => v,
            Option::None => {
                return Err(StateError::EncodeError);
            },
        };
        let k = StoreKey {
            prefix: Prefix::DeclaredClass,
            primary: *class_hash,
            secondary: Felt::zero(),
        };
        match self.store.get(&k) {
            Option::Some(stored) => {
                if !bytes_eq(&stored, &encoded) {
                    return Err(StateError::ClassHashCollision);
                }
            },
            Option::None => {},
        }
        self.declared_update.push(*class_hash);
        let prog_len: usize = contract_class.program.len();
        self.store.insert(k, encoded);
        proof {
            assert(contract_class@.program.len() == prog_len);
            lemma_class_round_trip(contract_class@);
        }
        Ok(())
    }

    /// Records the compiled-class hash of an already declared class.
    pub fn set_compiled_class_hash(&mut self, class_hash: &Felt, compiled_class_hash: &Felt) -> (r:
        Result<(), StateError>)
        ensures
            match r {
                Ok(_) => class_hash.wf() && compiled_class_hash.wf() && declared_in(
                    old(self).store@,
                    *class_hash,
                ) && final(self).store@ == old(self).store@.insert(
                    sk_compiled_hash(*class_hash),
                    felt_bytes(*compiled_class_hash),
                ) && compiled_hash_in(final(self).store@, *class_hash) == *compiled_class_hash
                    && final(self).storage_update@ == old(self).storage_update@ && final(self).nonce_update@ == old(self).nonce_update@ && final(self).declared_update@ == old(self).declared_update@ && final(self).class_hash_update == old(self).class_hash_update,
                Err(e) => final(self).same_state(*old(self)) && {
                    ||| (e == StateError::InvalidKey && !class_hash.wf())
                    ||| (e == StateError::EncodeError && class_hash.wf()
                        && !compiled_class_hash.wf())
                    ||| (e == StateError::UndeclaredClass && class_hash.wf()
                        && compiled_class_hash.wf() && !declared_in(old(self).store@, *class_hash))
                },
            },
    {
        if !class_hash.is_wf() {
            return Err(StateError::InvalidKey);
        }
        if !compiled_class_hash.is_wf() {
            return Err(StateError::EncodeError);
        }
        let probe = StoreKey {
            prefix: Prefix::DeclaredClass,
            primary: *class_hash,
            secondary: Felt::zero(),
        };
        match self.store.get(&probe) {
            Option::None => Err(StateError::UndeclaredClass),
            Option::Some(_stored) => {
                let k = StoreKey {
                    prefix: Prefix::CompiledClassHash,
                    primary: *class_hash,
                    secondary: Felt::zero(),
                };
                let bytes = encode_felt(compiled_class_hash);
                self.store.insert(k, bytes);
                proof {
                    lemma_felt_round_trip(*compiled_class_hash);
                }
                Ok(())
            },
        }
    }

    /// Stores a compiled class payload under its compiled-class hash.
    pub fn set_compiled_class(&mut self, compiled_class_hash: &Felt, casm_class: Vec<u8>) -> (r:
        Result<(), StateError>)
        ensures
            match r {
                Ok(_) => compiled_class_hash.wf() && final(self).store@ == old(self).store@.insert(sk_compiled_class(*compiled_class_hash), casm_class@) && final(self).storage_update@ == old(self).storage_update@ && final(self).nonce_update@ == old(self).nonce_update@ && final(self).declared_update@ == old(self).declared_update@
                    && final(self).class_hash_update == old(self).class_hash_update,
                Err(e) => !compiled_class_hash.wf() && e == StateError::InvalidKey && final(self).same_state(*old(self)),
            },
    {
        if !compiled_class_hash.is_wf() {
            return Err(StateError::InvalidKey);
        }
        let k = StoreKey {
            prefix: Prefix::CompiledClass,
            primary: *compiled_class_hash,
            secondary: Felt::zero(),
        };
        self.store.insert(k, casm_class);
        Ok(())
    }

    /// Deploys `class_hash` at a fresh address; an address already bound to
    /// a non-sentinel class hash cannot be deployed again.
    pub fn deploy_contract(&mut self, address: Felt, class_hash: Felt) -> (r: Result<
        (),
        StateError,
    >)
        requires
            old(self).class_hash_update < u64::MAX,
        ensures
            match r {
                Ok(_) => address.wf() && class_hash.wf() && class_hash_in(
                    old(self).store@,
                    address,
                ) == Felt::zero_spec() && final(self).store@ == old(self).store@.insert(
                    sk_deployed(address),
                    felt_bytes(class_hash),
                ) && class_hash_in(final(self).store@, address) == class_hash && final(self).class_hash_update == old(self).class_hash_update + 1 && final(self).storage_update@ == old(self).storage_update@ && final(self).nonce_update@ == old(self).nonce_update@ && final(self).declared_update@ == old(self).declared_update@,
                Err(e) => final(self).same_state(*old(self)) && {
                    ||| (e == StateError::InvalidKey && !(address.wf() && class_hash.wf()))
                    ||| (e == StateError::AddressAlreadyDeployed && address.wf() && class_hash.wf()
                        && class_hash_in(old(self).store@, address) != Felt::zero_spec())
                },
            },
    {
        if !address.is_wf() || !class_hash.is_wf() {
            return Err(StateError::InvalidKey);
        }
        let probe = StoreKey {
            prefix: Prefix::DeployedClass,
            primary: address,
            secondary: Felt::zero(),
        };
        let bound = self.read_felt(&probe);
        if !bound.is_zero() {
            return Err(StateError::AddressAlreadyDeployed);
        }
        self.set_class_hash_at(address, class_hash)
    }

    /// The change counts: distinct contracts touched by storage writes,
    /// distinct storage cells touched, and class-hash assignments billed.
    pub fn count_state_changes(&self) -> (r: (usize, usize, u64))
        ensures
            r.0 == addr_set(self.storage_update@).len(),
            r.1 == cell_set(self.storage_update@).len(),
            r.2 == self.class_hash_update,
    {
        let contracts = count_distinct_addrs(&self.storage_update);
        let cells = count_distinct_cells(&self.storage_update);
        (contracts, cells, self.class_hash_update)
    }

    /// The storage part of the change counts: distinct contracts and
    /// distinct cells touched.
    pub fn count_actual_storage_changes(&self) -> (r: (usize, usize))
        ensures
            r.0 == addr_set(self.storage_update@).len(),
            r.1 == cell_set(self.storage_update@).len(),
    {
        let contracts = count_distinct_addrs(&self.storage_update);
        let cells = count_distinct_cells(&self.storage_update);
        (contracts, cells)
    }

    /// A snapshot of the change tracker; taking it clears nothing, so
    /// successive snapshots grow monotonically with the writes issued.
    pub fn to_state_diff(&self) -> (r: StateDiff)
        ensures
            r.storage_updates@ == self.storage_update@,
            r.nonce_updates@ == self.nonce_update@,
            r.declared_classes@ == self.declared_update@,
    {
        StateDiff {
            storage_updates: copy_writes(&self.storage_update),
            nonce_updates: copy_felts(&self.nonce_update),
            declared_classes: copy_felts(&self.declared_update),
        }
    }

    /// Writes are applied the moment they are issued, so an externally
    /// produced diff has nothing left to replay: the call changes nothing.
    pub fn apply_state_update(&mut self, _state_updates: &StateDiff) -> (r: Result<
        (),
        StateError,
    >)
        ensures
            r == Ok::<(), StateError>(()),
            final(self).same_state(*old(self)),
    {
        Ok(())
    }
}

impl Default for StateAdapter {
    fn default() -> (r: StateAdapter)
        ensures
            r.store@ == Map::<StoreKey, Seq<u8>>::empty(),
            r.storage_update@ == Seq::<StorageWrite>::empty(),
            r.nonce_update@ == Seq::<Felt>::empty(),
            r.declared_update@ == Seq::<Felt>::empty(),
            r.class_hash_update == 0,
    {
        StateAdapter::new(DictStorage::new())
    }
}

fn copy_writes(v: &Vec<StorageWrite>) -> (r: Vec<StorageWrite>)
    ensures
        r@ == v@,
{
    let mut out: Vec<StorageWrite> = Vec::new();
    let mut i: usize = 0;
    while i < v.len()
        invariant
            i <= v@.len(),
            out@ == v@.take(i as int),
        decreases v@.len() - i,
    {
        out.push(v[i]);
        proof {
            assert(v@.take(i as int).push(v@[i as int]) =~= v@.take(i as int + 1));
        }
        i += 1;
    }
    proof {
        assert(v@.take(v@.len() as int) =~= v@);
    }
    out
}

fn copy_felts(v: &Vec<Felt>) -> (r: Vec<Felt>)
    ensures
        r@ == v@,
{
    let mut out: Vec<Felt> = Vec::new();
    let mut i: usize = 0;
    while i < v.len()
        invariant
            i <= v@.len(),
            out@ == v@.take(i as int),
        decreases v@.len() - i,
    {
        out.push(v[i]);
        proof {
            assert(v@.take(i as int).push(v@[i as int]) =~= v@.take(i as int + 1));
        }
        i += 1;
    }
    proof {
        assert(v@.take(v@.len() as int) =~= v@);
    }
    out
}

/// Whether the cell of `v[i]` already occurs among the first `i` writes.
fn cell_seen(v: &Vec<StorageWrite>, i: usize) -> (r: bool)
    requires
        i < v@.len(),
    ensures
        r == cell_set(v@.take(i as int)).contains(cell_of(v@[i as int])),
{
    let mut j: usize = 0;
    let mut found = false;
    while j < i
        invariant
            j <= i,
            i < v@.len(),
            found == exists|t: int|
                0 <= t < j && cell_of(v@[t]) == cell_of(v@[i as int]),
        decreases i - j,
    {
        if v[j].address == v[i].address && v[j].key == v[i].key {
            found = true;
            proof {
                assert(cell_of(v@[j as int]) == cell_of(v@[i as int]));
            }
        }
        j += 1;
    }
    proof {
        let p = cell_of(v@[i as int]);
        let pre = v@.take(i as int);
        lemma_cell_set_contains(pre, p);
        assert(forall|t: int| 0 <= t < i ==> #[trigger] pre[t] == v@[t]);
        if found {
            let t = choose|t: int| 0 <= t < i && cell_of(v@[t]) == p;
            assert(cell_of(pre[t]) == p);
        } else {
            assert(forall|t: int| 0 <= t < i ==> cell_of(#[trigger] pre[t]) != p);
        }
    }
    found
}

/// Whether the address of `v[i]` already occurs among the first `i` writes.
fn addr_seen(v: &Vec<StorageWrite>, i: usize) -> (r: bool)
    requires
        i < v@.len(),
    ensures
        r == addr_set(v@.take(i as int)).contains(v@[i as int].address),
{
    let mut j: usize = 0;
    let mut found = false;
    while j < i
        invariant
            j <= i,
            i < v@.len(),
            found == exists|t: int| 0 <= t < j && v@[t].address == v@[i as int].address,
        decreases i - j,
    {
        if v[j].address == v[i].address {
            found = true;
        }
        j += 1;
    }
    proof {
        let p = v@[i as int].address;
        let pre = v@.take(i as int);
        lemma_addr_set_contains(pre, p);
        assert(forall|t: int| 0 <= t < i ==> #[trigger] pre[t] == v@[t]);
        if found {
            let t = choose|t: int| 0 <= t < i && v@[t].address == p;
            assert(pre[t].address == p);
        } else {
            assert(forall|t: int| 0 <= t < i ==> (#[trigger] pre[t]).address != p);
        }
    }
    found
}

/// Counts the distinct storage cells among the recorded writes.
fn count_distinct_cells(v: &Vec<StorageWrite>) -> (r: usize)
    ensures
        r == cell_set(v@).len(),
{
    broadcast use vstd::set::group_set_axioms;

    let mut count: usize = 0;
    let mut i: usize = 0;
    proof {
        assert(v@.take(0) =~= Seq::<StorageWrite>::empty());
    }
    while i < v.len()
        invariant
            i <= v@.len(),
            count <= i,
            count == cell_set(v@.take(i as int)).len(),
        decreases v@.len() - i,
    {
        let seen = cell_seen(v, i);
        proof {
            broadcast use vstd::set::group_set_axioms;

            let pre = v@.take(i as int);
            let cur = v@.take(i as int + 1);
            assert(cur.drop_last() =~= pre);
            assert(cur.last() == v@[i as int]);
            lemma_cell_set_finite(pre);
        }
        if !seen {
            count += 1;
        }
        i += 1;
    }
    proof {
        assert(v@.take(v@.len() as int) =~= v@);
    }
    count
}

/// Counts the distinct addresses among the recorded writes.
fn count_distinct_addrs(v: &Vec<StorageWrite>) -> (r: usize)
    ensures
        r == addr_set(v@).len(),
{
    broadcast use vstd::set::group_set_axioms;

    let mut count: usize = 0;
    let mut i: usize = 0;
    proof {
        assert(v@.take(0) =~= Seq::<StorageWrite>::empty());
    }
    while i < v.len()
        invariant
            i <= v@.len(),
            count <= i,
            count == addr_set(v@.take(i as int)).len(),
        decreases v@.len() - i,
    {
        let seen = addr_seen(v, i);
        proof {
            broadcast use vstd::set::group_set_axioms;

            let pre = v@.take(i as int);
            let cur = v@.take(i as int + 1);
            assert(cur.drop_last() =~= pre);
            assert(cur.last() == v@[i as int]);
            lemma_addr_set_finite(pre);
        }
        if !seen {
            count += 1;
        }
        i += 1;
    }
    proof {
        assert(v@.take(v@.len() as int) =~= v@);
    }
    count
}

} // verus!
