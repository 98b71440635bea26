use state_adapter::adapter::StateError;
use state_adapter::class::ContractClass;
use state_adapter::felt::Felt;
use state_adapter::starknet_adapter::{Felt252, StarknetStateAdapter};
use state_adapter::store::DictStorage;

fn felt252(x: u64) -> Felt252 {
    Felt252::from_u64(x)
}

#[test]
fn surface_storage_round_trip() {
    let mut adapter = StarknetStateAdapter::new(DictStorage::new());
    let entry = (felt252(7), felt252(8));
    adapter.set_storage_at(&entry, felt252(99));
    assert_eq!(adapter.get_storage_at(&entry), Ok(felt252(99)));
    let other = (felt252(7), felt252(9));
    assert_eq!(adapter.get_storage_at(&other), Ok(Felt252::zero()));
}

#[test]
fn surface_nonce_and_classes() {
    let mut adapter = StarknetStateAdapter::default();
    let a = felt252(3);
    assert_eq!(adapter.get_nonce_at(&a), Ok(0));
    assert_eq!(adapter.increment_nonce(&a), Ok(()));
    assert_eq!(adapter.get_nonce_at(&a), Ok(1));

    let h = felt252(40);
    let class = ContractClass {
        program: vec![Felt::from_u64(11)],
        abi: vec![5],
    };
    assert!(matches!(
        adapter.get_contract_class(&h),
        Err(StateError::UndeclaredClass)
    ));
    assert_eq!(adapter.set_contract_class(&h, &class), Ok(()));
    let read = adapter.get_contract_class(&h).unwrap();
    assert_eq!(read.program, class.program);

    assert_eq!(adapter.deploy_contract(a, h), Ok(()));
    assert_eq!(adapter.get_class_hash_at(&a), Ok(h));
    assert_eq!(
        adapter.deploy_contract(a, felt252(41)),
        Err(StateError::AddressAlreadyDeployed)
    );

    assert_eq!(adapter.get_compiled_class_hash(&h), Ok(Felt252::zero()));
    assert_eq!(adapter.set_compiled_class_hash(&h, &felt252(400)), Ok(()));
    assert_eq!(adapter.get_compiled_class_hash(&h), Ok(felt252(400)));
}

#[test]
fn surface_change_accounting() {
    let mut adapter = StarknetStateAdapter::default();
    adapter.set_storage_at(&(felt252(1), felt252(1)), felt252(10));
    adapter.set_storage_at(&(felt252(1), felt252(2)), felt252(11));
    adapter.set_storage_at(&(felt252(2), felt252(1)), felt252(12));
    assert_eq!(adapter.set_class_hash_at(felt252(5), felt252(50)), Ok(()));
    assert_eq!(adapter.count_state_changes(), (2, 3, 1));
    assert_eq!(adapter.count_actual_storage_changes(), (2, 3));
    let diff = adapter.to_state_diff();
    assert_eq!(diff.storage_updates.len(), 3);
    assert_eq!(adapter.apply_state_update(&diff), Ok(()));
    assert_eq!(adapter.count_state_changes(), (2, 3, 1));
}

#[test]
fn surface_rejects_out_of_field_values() {
    let adapter = StarknetStateAdapter::default();
    let bad = Felt252 { l0: 0, l1: 0, l2: 0, l3: u64::MAX };
    assert_eq!(adapter.get_nonce_at(&bad), Err(StateError::InvalidKey));
    assert_eq!(
        adapter.get_storage_at(&(bad, felt252(1))),
        Err(StateError::InvalidKey)
    );
}
