use vstd::prelude::*;
use vstd::arithmetic::div_mod::lemma_fundamental_div_mod;
use crate::adapter::{StateAdapter, StateError, StorageWrite, StateDiff, storage_in, nonce_in, class_hash_in, declared_in, class_in, compiled_hash_in, addr_set, cell_set, bump_nonce, sk_storage, sk_deployed, sk_class, sk_compiled_hash, sk_compiled_class};
use crate::class::{ContractClass, enc_class};
use crate::felt::{Felt, felt_bytes};
use crate::store::DictStorage;

verus! {

/// A field element as four 64-bit limbs, little endian: the native value
/// form of the second engine surface.
#[derive(Clone, Copy, PartialEq, Eq, Structural, Debug)]
pub struct Felt252 {
    pub l0: u64,
    pub l1: u64,
    pub l2: u64,
    pub l3: u64,
}

/// The canonical felt a limb vector denotes.
pub open spec fn canon(f: Felt252) -> Felt {
    Felt {
        hi: (f.l2 + f.l3 * 0x10000000000000000) as u128,
        lo: (f.l0 + f.l1 * 0x10000000000000000) as u128,
    }
}

impl Felt252 {
    /// A limb vector is well formed when its value fits in 252 bits.
    pub open spec fn wf(self) -> bool {
        self.l3 < 0x1000000000000000
    }

    pub fn zero() -> (r: Felt252)
        ensures
            canon(r) == Felt::zero_spec(),
            r.wf(),
    {
        Felt252 { l0: 0, l1: 0, l2: 0, l3: 0 }
    }

    pub fn from_u64(x: u64) -> (r: Felt252)
        ensures
            canon(r) == (Felt { hi: 0, lo: x as u128 }),
            r.wf(),
    {
        Felt252 { l0: x, l1: 0, l2: 0, l3: 0 }
    }
}

/// A limb vector is in the field exactly when its canonical form is.
pub proof fn lemma_canon_wf(f: Felt252)
    ensures
        canon(f).wf() <==> f.wf(),
{
    assert(f.l2 + f.l3 * 0x10000000000000000 < 0x100000000000000000000000000000000);
    if f.wf() {
        assert(f.l3 * 0x10000000000000000 <= 0x0FFFFFFFFFFFFFFF * 0x10000000000000000);
    } else {
        assert(f.l3 * 0x10000000000000000 >= 0x1000000000000000 * 0x10000000000000000);
    }
}

/// Converts a limb vector to its canonical felt.
pub fn to_felt(f: &Felt252) -> (r: Felt)
    ensures
        r == canon(*f),
{
    proof {
        assert((f.l1 as u128) * 0x10000000000000000 <= 0xFFFFFFFFFFFFFFFF * 0x10000000000000000);
        assert((f.l3 as u128) * 0x10000000000000000 <= 0xFFFFFFFFFFFFFFFF * 0x10000000000000000);
    }
    let lo: u128 = f.l0 as u128 + (f.l1 as u128) * 0x10000000000000000;
    let hi: u128 = f.l2 as u128 + (f.l3 as u128) * 0x10000000000000000;
    Felt { hi, lo }
}

/// Converts a canonical felt to limbs; the canonical reading of the
/// result is the felt itself.
pub fn from_felt(x: &Felt) -> (r: Felt252)
    ensures
        canon(r) == *x,
        r.wf() <==> x.wf(),
{
    proof {
        lemma_fundamental_div_mod(x.lo as int, 0x10000000000000000);
        lemma_fundamental_div_mod(x.hi as int, 0x10000000000000000);
    }
    let r = Felt252 {
        l0: (x.lo % 0x10000000000000000) as u64,
        l1: (x.lo / 0x10000000000000000) as u64,
        l2: (x.hi % 0x10000000000000000) as u64,
        l3: (x.hi / 0x10000000000000000) as u64,
    };
    proof {
        lemma_canon_wf(r);
    }
    r
}

/// The engine surface whose native values are four-limb felts. It
/// translates at the boundary and defers every operation to the
/// canonical adapter, sharing its backing store and change tracker.
pub struct StarknetStateAdapter {
    pub inner: StateAdapter,
}

impl StarknetStateAdapter {
    pub fn new(store: DictStorage) -> (r: StarknetStateAdapter)
        ensures
            r.inner.store@ == store@,
            r.inner.storage_update@ == Seq::<StorageWrite>::empty(),
            r.inner.nonce_update@ == Seq::<Felt>::empty(),
            r.inner.declared_update@ == Seq::<Felt>::empty(),
            r.inner.class_hash_update == 0,
    {
        StarknetStateAdapter { inner: StateAdapter::new(store) }
    }

    /// The value of a storage cell, given as an (address, key) entry.
    pub fn get_storage_at(&self, storage_entry: &(Felt252, Felt252)) -> (r: Result<
        Felt252,
        StateError,
    >)
        ensures
            match r {
                Ok(v) => canon(storage_entry.0).wf() && canon(storage_entry.1).wf() && canon(v)
                    == storage_in(self.inner.store@, canon(storage_entry.0), canon(storage_entry.1)),
                Err(e) => !(canon(storage_entry.0).wf() && canon(storage_entry.1).wf()) && e
                    == StateError::InvalidKey,
            },
    {
        let a = to_felt(&storage_entry.0);
        let k = to_felt(&storage_entry.1);
        match self.inner.get_storage_at(&a, &k) {
            Ok(v) => Ok(from_felt(&v)),
            Err(e) => Err(e),
        }
    }

    pub fn get_nonce_at(&self, address: &Felt252) -> (r: Result<u64, StateError>)
        ensures
            match r {
                Ok(n) => canon(*address).wf() && n == nonce_in(self.inner.store@, canon(*address)),
                Err(e) => !canon(*address).wf() && e == StateError::InvalidKey,
            },
    {
        let a = to_felt(address);
        self.inner.get_nonce_at(&a)
    }

    pub fn get_class_hash_at(&self, address: &Felt252) -> (r: Result<Felt252, StateError>)
        ensures
            match r {
                Ok(h) => canon(*address).wf() && canon(h) == class_hash_in(
                    self.inner.store@,
                    canon(*address),
                ),
                Err(e) => !canon(*address).wf() && e == StateError::InvalidKey,
            },
    {
        let a = to_felt(address);
        match self.inner.get_class_hash_at(&a) {
            Ok(h) => Ok(from_felt(&h)),
            Err(e) => Err(e),
        }
    }

    pub fn get_contract_class(&self, class_hash: &Felt252) -> (r: Result<
        ContractClass,
        StateError,
    >)
        ensures
            match r {
                Ok(c) => canon(*class_hash).wf() && class_in(self.inner.store@, canon(*class_hash))
                    == Some(c@) && c.wf(),
                Err(e) => {
                    ||| (e == StateError::InvalidKey && !canon(*class_hash).wf())
                    ||| (e == StateError::UndeclaredClass && canon(*class_hash).wf()
                        && !declared_in(self.inner.store@, canon(*class_hash)))
                    ||| (e == StateError::DecodeError && canon(*class_hash).wf() && declared_in(
                        self.inner.store@,
                        canon(*class_hash),
                    ) && class_in(self.inner.store@, canon(*class_hash)) is None)
                },
            },
    {
        let h = to_felt(class_hash);
        self.inner.get_contract_class(&h)
    }

    pub fn get_compiled_class_hash(&self, class_hash: &Felt252) -> (r: Result<
        Felt252,
        StateError,
    >)
        ensures
            match r {
                Ok(h) => canon(*class_hash).wf() && declared_in(self.inner.store@, canon(*class_hash))
                    && canon(h) == compiled_hash_in(self.inner.store@, canon(*class_hash)),
                Err(e) => {
                    ||| (e == StateError::InvalidKey && !canon(*class_hash).wf())
                    ||| (e == StateError::UndeclaredClass && canon(*class_hash).wf()
                        && !declared_in(self.inner.store@, canon(*class_hash)))
                },
            },
    {
        let h = to_felt(class_hash);
        match self.inner.get_compiled_class_hash(&h) {
            Ok(c) => Ok(from_felt(&c)),
            Err(e) => Err(e),
        }
    }

    pub fn set_storage_at(&mut self, storage_entry: &(Felt252, Felt252), value: Felt252)
        requires
            canon(storage_entry.0).wf(),
            canon(storage_entry.1).wf(),
            canon(value).wf(),
        ensures
            final(self).inner.store@ == old(self).inner.store@.insert(
                sk_storage(canon(storage_entry.0), canon(storage_entry.1)),
                felt_bytes(canon(value)),
            ),
            storage_in(final(self).inner.store@, canon(storage_entry.0), canon(storage_entry.1))
                == canon(value),
            final(self).inner.storage_update@ == old(self).inner.storage_update@.push(
                StorageWrite {
                    address: canon(storage_entry.0),
                    key: canon(storage_entry.1),
                    value: canon(value),
                },
            ),
            final(self).inner.nonce_update@ == old(self).inner.nonce_update@,
            final(self).inner.declared_update@ == old(self).inner.declared_update@,
            final(self).inner.class_hash_update == old(self).inner.class_hash_update,
    {
        let a = to_felt(&storage_entry.0);
        let k = to_felt(&storage_entry.1);
        let v = to_felt(&value);
        self.inner.set_storage_at(a, k, v);
    }

    pub fn increment_nonce(&mut self, address: &Felt252) -> (r: Result<(), StateError>)
        requires
            canon(*address).wf() ==> nonce_in(old(self).inner.store@, canon(*address)) < u64::MAX,
        ensures
            match r {
                Ok(_) => canon(*address).wf() && final(self).inner.store@ == bump_nonce(
                    old(self).inner.store@,
                    canon(*address),
                ) && nonce_in(final(self).inner.store@, canon(*address)) == nonce_in(
                    old(self).inner.store@,
                    canon(*address),
                ) + 1 && final(self).inner.nonce_update@ == old(self).inner.nonce_update@.push(
                    canon(*address),
                ) && final(self).inner.storage_update@ == old(self).inner.storage_update@ && final(self).inner.declared_update@ == old(self).inner.declared_update@ && final(self).inner.class_hash_update == old(self).inner.class_hash_update,
                Err(e) => !canon(*address).wf() && e == StateError::InvalidKey && final(self).inner.same_state(old(self).inner),
            },
    {
        let a = to_felt(address);
        self.inner.increment_nonce(&a)
    }

    pub fn set_class_hash_at(&mut self, contract_address: Felt252, class_hash: Felt252) -> (r:
        Result<(), StateError>)
        requires
            old(self).inner.class_hash_update < u64::MAX,
        ensures
            match r {
                Ok(_) => canon(contract_address).wf() && canon(class_hash).wf() && final(self).inner.store@ == old(self).inner.store@.insert(
                    sk_deployed(canon(contract_address)),
                    felt_bytes(canon(class_hash)),
                ) && class_hash_in(final(self).inner.store@, canon(contract_address)) == canon(
                    class_hash,
                ) && final(self).inner.class_hash_update == old(self).inner.class_hash_update + 1
                    && final(self).inner.storage_update@ == old(self).inner.storage_update@
                    && final(self).inner.nonce_update@ == old(self).inner.nonce_update@ && final(self).inner.declared_update@ == old(self).inner.declared_update@,
                Err(e) => !(canon(contract_address).wf() && canon(class_hash).wf()) && e
                    == StateError::InvalidKey && final(self).inner.same_state(old(self).inner),
            },
    {
        let a = to_felt(&contract_address);
        let h = to_felt(&class_hash);
        self.inner.set_class_hash_at(a, h)
    }

    pub fn set_contract_class(&mut self, class_hash: &Felt252, contract_class: &ContractClass) -> (
        r: Result<(), StateError>)
        ensures
            match r {
                Ok(_) => canon(*class_hash).wf() && contract_class.wf() && final(self).inner.store@ == old(self).inner.store@.insert(
                    sk_class(canon(*class_hash)),
                    enc_class(contract_class@),
                ) && class_in(final(self).inner.store@, canon(*class_hash)) == Some(
                    contract_class@,
                ) && final(self).inner.declared_update@ == old(self).inner.declared_update@.push(
                    canon(*class_hash),
                ) && final(self).inner.storage_update@ == old(self).inner.storage_update@ && final(self).inner.nonce_update@ == old(self).inner.nonce_update@ && final(self).inner.class_hash_update == old(self).inner.class_hash_update,
                Err(e) => final(self).inner.same_state(old(self).inner) && {
                    ||| (e == StateError::InvalidKey && !canon(*class_hash).wf())
                    ||| (e == StateError::EncodeError && canon(*class_hash).wf()
                        && !contract_class.wf())
                    ||| (e == StateError::ClassHashCollision && canon(*class_hash).wf()
                        && contract_class.wf() && declared_in(
                        old(self).inner.store@,
                        canon(*class_hash),
                    ) && old(self).inner.store@[sk_class(canon(*class_hash))] != enc_class(
                        contract_class@,
                    ))
                },
            },
    {
        let h = to_felt(class_hash);
        self.inner.set_contract_class(&h, contract_class)
    }

    pub fn set_compiled_class_hash(&mut self, class_hash: &Felt252, compiled_class_hash: &Felt252)
        -> (r: Result<(), StateError>)
        ensures
            match r {
                Ok(_) => canon(*class_hash).wf() && canon(*compiled_class_hash).wf() && declared_in(
                    old(self).inner.store@,
                    canon(*class_hash),
                ) && final(self).inner.store@ == old(self).inner.store@.insert(
                    sk_compiled_hash(canon(*class_hash)),
                    felt_bytes(canon(*compiled_class_hash)),
                ) && compiled_hash_in(final(self).inner.store@, canon(*class_hash)) == canon(
                    *compiled_class_hash,
                ) && final(self).inner.storage_update@ == old(self).inner.storage_update@ && final(self).inner.nonce_update@ == old(self).inner.nonce_update@ && final(self).inner.declared_update@ == old(self).inner.declared_update@ && final(self).inner.class_hash_update == old(self).inner.class_hash_update,
                Err(e) => final(self).inner.same_state(old(self).inner) && {
                    ||| (e == StateError::InvalidKey && !canon(*class_hash).wf())
                    ||| (e == StateError::EncodeError && canon(*class_hash).wf() && !canon(
                        *compiled_class_hash,
                    ).wf())
                    ||| (e == StateError::UndeclaredClass && canon(*class_hash).wf() && canon(
                        *compiled_class_hash,
                    ).wf() && !declared_in(old(self).inner.store@, canon(*class_hash)))
                },
            },
    {
        let h = to_felt(class_hash);
        let ch = to_felt(compiled_class_hash);
        self.inner.set_compiled_class_hash(&h, &ch)
    }

    pub fn set_compiled_class(&mut self, compiled_class_hash: &Felt252, casm_class: Vec<u8>) -> (r:
        Result<(), StateError>)
        ensures
            match r {
                Ok(_) => canon(*compiled_class_hash).wf() && final(self).inner.store@ == old(self).inner.store@.insert(
                    sk_compiled_class(canon(*compiled_class_hash)),
                    casm_class@,
                ) && final(self).inner.storage_update@ == old(self).inner.storage_update@ && final(self).inner.nonce_update@ == old(self).inner.nonce_update@ && final(self).inner.declared_update@ == old(self).inner.declared_update@ && final(self).inner.class_hash_update == old(self).inner.class_hash_update,
                Err(e) => !canon(*compiled_class_hash).wf() && e == StateError::InvalidKey && final(self).inner.same_state(old(self).inner),
            },
    {
        let h = to_felt(compiled_class_hash);
        self.inner.set_compiled_class(&h, casm_class)
    }

    pub fn deploy_contract(&mut self, contract_address: Felt252, class_hash: Felt252) -> (r: Result<
        (),
        StateError,
    >)
        requires
            old(self).inner.class_hash_update < u64::MAX,
        ensures
            match r {
                Ok(_) => canon(contract_address).wf() && canon(class_hash).wf() && class_hash_in(
                    old(self).inner.store@,
                    canon(contract_address),
                ) == Felt::zero_spec() && final(self).inner.store@ == old(self).inner.store@.insert(
                    sk_deployed(canon(contract_address)),
                    felt_bytes(canon(class_hash)),
                ) && class_hash_in(final(self).inner.store@, canon(contract_address)) == canon(
                    class_hash,
                ) && final(self).inner.class_hash_update == old(self).inner.class_hash_update + 1
                    && final(self).inner.storage_update@ == old(self).inner.storage_update@
                    && final(self).inner.nonce_update@ == old(self).inner.nonce_update@ && final(self).inner.declared_update@ == old(self).inner.declared_update@,
                Err(e) => final(self).inner.same_state(old(self).inner) && {
                    ||| (e == StateError::InvalidKey && !(canon(contract_address).wf() && canon(
                        class_hash,
                    ).wf()))
                    ||| (e == StateError::AddressAlreadyDeployed && canon(contract_address).wf()
                        && canon(class_hash).wf() && class_hash_in(
                        old(self).inner.store@,
                        canon(contract_address),
                    ) != Felt::zero_spec())
                },
            },
    {
        let a = to_felt(&contract_address);
        let h = to_felt(&class_hash);
        self.inner.deploy_contract(a, h)
    }

    pub fn apply_state_update(&mut self, state_updates: &StateDiff) -> (r: Result<(), StateError>)
        ensures
            r == Ok::<(), StateError>(()),
            final(self).inner.same_state(old(self).inner),
    {
        self.inner.apply_state_update(state_updates)
    }

    pub fn count_state_changes(&self) -> (r: (usize, usize, u64))
        ensures
            r.0 == addr_set(self.inner.storage_update@).len(),
            r.1 == cell_set(self.inner.storage_update@).len(),
            r.2 == self.inner.class_hash_update,
    {
        self.inner.count_state_changes()
    }

    pub fn count_actual_storage_changes(&self) -> (r: (usize, usize))
        ensures
            r.0 == addr_set(self.inner.storage_update@).len(),
            r.1 == cell_set(self.inner.storage_update@).len(),
    {
        self.inner.count_actual_storage_changes()
    }

    pub fn to_state_diff(&self) -> (r: StateDiff)
        ensures
            r.storage_updates@ == self.inner.storage_update@,
            r.nonce_updates@ == self.inner.nonce_update@,
            r.declared_classes@ == self.inner.declared_update@,
    {
        self.inner.to_state_diff()
    }
}

impl Default for StarknetStateAdapter {
    fn default() -> (r: StarknetStateAdapter)
        ensures
            r.inner.store@ == Map::<crate::store::StoreKey, Seq<u8>>::empty(),
            r.inner.storage_update@ == Seq::<StorageWrite>::empty(),
            r.inner.nonce_update@ == Seq::<Felt>::empty(),
            r.inner.declared_update@ == Seq::<Felt>::empty(),
            r.inner.class_hash_update == 0,
    {
        StarknetStateAdapter { inner: StateAdapter::new(DictStorage::new()) }
    }
}

} // verus!
