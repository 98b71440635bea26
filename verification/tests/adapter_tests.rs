use state_adapter::adapter::{StateAdapter, StateError};
use state_adapter::class::ContractClass;
use state_adapter::felt::Felt;
use state_adapter::store::{DictStorage, Prefix, StoreKey};

fn felt(x: u64) -> Felt {
    Felt::from_u64(x)
}

fn sample_class(tag: u64) -> ContractClass {
    ContractClass {
        program: vec![felt(tag), felt(tag + 1), felt(7)],
        abi: vec![1, 2, 3, tag as u8],
    }
}

#[test]
fn undeclared_class_fails() {
    let adapter = StateAdapter::default();
    let h = felt(1234);
    assert!(matches!(
        adapter.get_contract_class(&h),
        Err(StateError::UndeclaredClass)
    ));
    assert!(matches!(
        adapter.get_compiled_class_hash(&h),
        Err(StateError::UndeclaredClass)
    ));
}

#[test]
fn fresh_account_reads_zero() {
    let adapter = StateAdapter::default();
    let a = felt(55);
    assert_eq!(adapter.get_nonce_at(&a), Ok(0));
    assert_eq!(adapter.get_class_hash_at(&a), Ok(Felt::zero()));
}

#[test]
fn declare_class_idempotent() {
    let mut adapter = StateAdapter::default();
    let h = felt(9);
    let c = sample_class(40);
    assert_eq!(adapter.set_contract_class(&h, &c), Ok(()));
    let read1 = adapter.get_contract_class(&h).unwrap();
    assert_eq!(read1.program, c.program);
    assert_eq!(read1.abi, c.abi);
    assert_eq!(adapter.set_contract_class(&h, &sample_class(40)), Ok(()));
    let read2 = adapter.get_contract_class(&h).unwrap();
    assert_eq!(read2.program, c.program);
    assert_eq!(read2.abi, c.abi);
}

#[test]
fn declare_conflicting_class_rejected() {
    let mut adapter = StateAdapter::default();
    let h = felt(9);
    assert_eq!(adapter.set_contract_class(&h, &sample_class(40)), Ok(()));
    assert_eq!(
        adapter.set_contract_class(&h, &sample_class(41)),
        Err(StateError::ClassHashCollision)
    );
    let read = adapter.get_contract_class(&h).unwrap();
    assert_eq!(read.program, sample_class(40).program);
}

#[test]
fn nonce_monotonic() {
    let mut adapter = StateAdapter::default();
    let a = felt(77);
    for expected in 0..5u64 {
        assert_eq!(adapter.get_nonce_at(&a), Ok(expected));
        assert_eq!(adapter.increment_nonce(&a), Ok(()));
    }
    assert_eq!(adapter.get_nonce_at(&a), Ok(5));
    let other = felt(78);
    assert_eq!(adapter.get_nonce_at(&other), Ok(0));
}

#[test]
fn diff_accumulation_counts() {
    let mut adapter = StateAdapter::default();
    let a1 = felt(1);
    let a2 = felt(2);
    // three distinct cells over two distinct addresses; one cell rewritten
    adapter.set_storage_at(a1, felt(10), felt(100));
    adapter.set_storage_at(a1, felt(11), felt(101));
    adapter.set_storage_at(a2, felt(10), felt(102));
    adapter.set_storage_at(a1, felt(10), felt(103));
    // two class-hash assignments, one address repeated: both are billed
    assert_eq!(adapter.set_class_hash_at(felt(3), felt(30)), Ok(()));
    assert_eq!(adapter.set_class_hash_at(felt(3), felt(31)), Ok(()));
    assert_eq!(adapter.count_state_changes(), (2, 3, 2));
    assert_eq!(adapter.count_actual_storage_changes(), (2, 3));
}

#[test]
fn deploy_scenario() {
    let mut adapter = StateAdapter::default();
    let a = felt(500);
    let h1 = felt(61);
    let h2 = felt(62);
    assert_eq!(adapter.set_contract_class(&h1, &sample_class(1)), Ok(()));
    assert_eq!(adapter.deploy_contract(a, h1), Ok(()));
    assert_eq!(adapter.get_class_hash_at(&a), Ok(h1));
    assert_eq!(
        adapter.deploy_contract(a, h2),
        Err(StateError::AddressAlreadyDeployed)
    );
    assert_eq!(adapter.get_class_hash_at(&a), Ok(h1));
}

#[test]
fn storage_scenario() {
    let mut adapter = StateAdapter::default();
    let a = felt(900);
    let k = felt(4);
    let k2 = felt(5);
    adapter.set_storage_at(a, k, felt(5));
    assert_eq!(adapter.get_storage_at(&a, &k), Ok(felt(5)));
    assert_eq!(adapter.get_storage_at(&a, &k2), Ok(Felt::zero()));
}

#[test]
fn invalid_key_rejected() {
    let mut adapter = StateAdapter::default();
    let bad = Felt::from_raw(u128::MAX, 0);
    let good = felt(1);
    assert_eq!(
        adapter.get_storage_at(&bad, &good),
        Err(StateError::InvalidKey)
    );
    assert_eq!(
        adapter.get_storage_at(&good, &bad),
        Err(StateError::InvalidKey)
    );
    assert_eq!(adapter.get_nonce_at(&bad), Err(StateError::InvalidKey));
    assert_eq!(adapter.get_class_hash_at(&bad), Err(StateError::InvalidKey));
    assert!(matches!(
        adapter.get_contract_class(&bad),
        Err(StateError::InvalidKey)
    ));
    assert_eq!(
        adapter.get_compiled_class_hash(&bad),
        Err(StateError::InvalidKey)
    );
    assert_eq!(adapter.increment_nonce(&bad), Err(StateError::InvalidKey));
    assert_eq!(
        adapter.set_class_hash_at(bad, good),
        Err(StateError::InvalidKey)
    );
    assert_eq!(
        adapter.deploy_contract(bad, good),
        Err(StateError::InvalidKey)
    );
    assert_eq!(
        adapter.set_compiled_class(&bad, vec![1]),
        Err(StateError::InvalidKey)
    );
}

#[test]
fn encode_error_on_oversized_program_word() {
    let mut adapter = StateAdapter::default();
    let h = felt(8);
    let bad_class = ContractClass {
        program: vec![Felt::from_raw(u128::MAX, 3)],
        abi: vec![],
    };
    assert_eq!(
        adapter.set_contract_class(&h, &bad_class),
        Err(StateError::EncodeError)
    );
    assert!(matches!(
        adapter.get_contract_class(&h),
        Err(StateError::UndeclaredClass)
    ));
}

#[test]
fn encode_error_on_oversized_compiled_hash() {
    let mut adapter = StateAdapter::default();
    let h = felt(8);
    assert_eq!(adapter.set_contract_class(&h, &sample_class(3)), Ok(()));
    assert_eq!(
        adapter.set_compiled_class_hash(&h, &Felt::from_raw(u128::MAX, 0)),
        Err(StateError::EncodeError)
    );
}

#[test]
fn decode_error_on_corrupt_class_record() {
    let mut store = DictStorage::new();
    let key = StoreKey {
        prefix: Prefix::DeclaredClass,
        primary: felt(12),
        secondary: Felt::zero(),
    };
    store.insert(key, vec![1, 2, 3]);
    let adapter = StateAdapter::new(store);
    assert!(matches!(
        adapter.get_contract_class(&felt(12)),
        Err(StateError::DecodeError)
    ));
}

#[test]
fn compiled_class_hash_lifecycle() {
    let mut adapter = StateAdapter::default();
    let h = felt(21);
    let ch = felt(210);
    assert_eq!(
        adapter.set_compiled_class_hash(&h, &ch),
        Err(StateError::UndeclaredClass)
    );
    assert_eq!(adapter.set_contract_class(&h, &sample_class(2)), Ok(()));
    // declared but not yet compiled: the zero sentinel
    assert_eq!(adapter.get_compiled_class_hash(&h), Ok(Felt::zero()));
    assert_eq!(adapter.set_compiled_class_hash(&h, &ch), Ok(()));
    assert_eq!(adapter.get_compiled_class_hash(&h), Ok(ch));
    assert_eq!(adapter.set_compiled_class(&ch, vec![9, 9, 9]), Ok(()));
}

#[test]
fn state_diff_snapshot_grows() {
    let mut adapter = StateAdapter::default();
    let a = felt(1);
    adapter.set_storage_at(a, felt(10), felt(100));
    assert_eq!(adapter.increment_nonce(&a), Ok(()));
    assert_eq!(adapter.set_contract_class(&felt(6), &sample_class(5)), Ok(()));
    let d1 = adapter.to_state_diff();
    assert_eq!(d1.storage_updates.len(), 1);
    assert_eq!(d1.storage_updates[0].address, a);
    assert_eq!(d1.storage_updates[0].key, felt(10));
    assert_eq!(d1.storage_updates[0].value, felt(100));
    assert_eq!(d1.nonce_updates, vec![a]);
    assert_eq!(d1.declared_classes, vec![felt(6)]);
    // a snapshot clears nothing: the next one reflects everything so far
    adapter.set_storage_at(a, felt(11), felt(101));
    let d2 = adapter.to_state_diff();
    assert_eq!(d2.storage_updates.len(), 2);
    assert_eq!(d2.nonce_updates, vec![a]);
}

#[test]
fn apply_state_update_changes_nothing() {
    let mut adapter = StateAdapter::default();
    let a = felt(1);
    adapter.set_storage_at(a, felt(10), felt(100));
    let diff = adapter.to_state_diff();
    assert_eq!(adapter.apply_state_update(&diff), Ok(()));
    assert_eq!(adapter.get_storage_at(&a, &felt(10)), Ok(felt(100)));
    assert_eq!(adapter.count_state_changes(), (1, 1, 0));
}

#[test]
fn store_outlives_adapter() {
    let mut adapter = StateAdapter::new(DictStorage::new());
    let a = felt(42);
    adapter.set_storage_at(a, felt(1), felt(5));
    assert_eq!(adapter.increment_nonce(&a), Ok(()));
    let store = adapter.into_store();
    // a later scope over the same backing store sees the durable writes,
    // but starts with an empty change tracker
    let next = StateAdapter::new(store);
    assert_eq!(next.get_storage_at(&a, &felt(1)), Ok(felt(5)));
    assert_eq!(next.get_nonce_at(&a), Ok(1));
    assert_eq!(next.count_state_changes(), (0, 0, 0));
}

#[test]
fn dict_storage_overwrites() {
    let mut store = DictStorage::new();
    let key = StoreKey {
        prefix: Prefix::Storage,
        primary: felt(1),
        secondary: felt(2),
    };
    assert_eq!(store.get(&key), None);
    store.insert(key, vec![1]);
    assert_eq!(store.get(&key), Some(vec![1]));
    store.insert(key, vec![2, 3]);
    assert_eq!(store.get(&key), Some(vec![2, 3]));
    let other = StoreKey {
        prefix: Prefix::Nonce,
        primary: felt(1),
        secondary: felt(2),
    };
    assert_eq!(store.get(&other), None);
}
