use state_adapter::bytes::{u128_from_le_bytes, u128_to_le_bytes};
use state_adapter::class::{decode_class, encode_class, ContractClass};
use state_adapter::felt::{decode_felt, encode_felt, Felt};
use state_adapter::starknet_adapter::{from_felt, to_felt, Felt252};

#[test]
fn le_bytes_exact_values() {
    assert_eq!(u128_to_le_bytes(0x0102, 2), vec![0x02, 0x01]);
    assert_eq!(u128_to_le_bytes(0, 4), vec![0, 0, 0, 0]);
    let v = u128_to_le_bytes(0xDEADBEEF, 8);
    assert_eq!(v, vec![0xEF, 0xBE, 0xAD, 0xDE, 0, 0, 0, 0]);
    assert_eq!(u128_from_le_bytes(&v, 0, 8), 0xDEADBEEF);
    assert_eq!(u128_from_le_bytes(&v, 1, 3), 0xDEADBE);
}

#[test]
fn felt_codec_round_trip() {
    let f = Felt { hi: 0x0123456789ABCDEF, lo: u128::MAX - 7 };
    let bytes = encode_felt(&f);
    assert_eq!(bytes.len(), 32);
    assert_eq!(decode_felt(&bytes), Some(f));
}

#[test]
fn felt_decode_rejects_bad_input() {
    // wrong length
    assert_eq!(decode_felt(&vec![0; 31]), None);
    assert_eq!(decode_felt(&vec![0; 33]), None);
    // a value that does not fit in 252 bits: all bytes set
    assert_eq!(decode_felt(&vec![0xFF; 32]), None);
    // all zero decodes to the zero felt
    assert_eq!(decode_felt(&vec![0; 32]), Some(Felt::zero()));
}

#[test]
fn class_codec_round_trip() {
    let c = ContractClass {
        program: vec![Felt::from_u64(1), Felt { hi: 3, lo: 4 }, Felt::zero()],
        abi: vec![10, 20, 30],
    };
    let encoded = encode_class(&c).unwrap();
    // 8 length bytes + 3 felts of 32 bytes + 3 abi bytes
    assert_eq!(encoded.len(), 8 + 96 + 3);
    let back = decode_class(&encoded).unwrap();
    assert_eq!(back.program, c.program);
    assert_eq!(back.abi, c.abi);
}

#[test]
fn class_codec_empty_round_trip() {
    let c = ContractClass { program: vec![], abi: vec![] };
    let encoded = encode_class(&c).unwrap();
    assert_eq!(encoded.len(), 8);
    let back = decode_class(&encoded).unwrap();
    assert!(back.program.is_empty());
    assert!(back.abi.is_empty());
}

#[test]
fn class_encode_rejects_oversized_word() {
    let c = ContractClass {
        program: vec![Felt::from_raw(u128::MAX, 0)],
        abi: vec![],
    };
    assert!(encode_class(&c).is_none());
}

#[test]
fn class_decode_rejects_bad_input() {
    // shorter than the length header
    assert!(decode_class(&vec![1, 2, 3]).is_none());
    // header promises more felts than there are bytes
    let mut v = vec![0u8; 8];
    v[0] = 2;
    assert!(decode_class(&v).is_none());
    // a program word out of field range
    let mut v = vec![0u8; 8 + 32];
    v[0] = 1;
    for i in 8..40 {
        v[i] = 0xFF;
    }
    assert!(decode_class(&v).is_none());
}

#[test]
fn felt252_translation_round_trip() {
    let x = Felt252 { l0: 5, l1: 6, l2: 7, l3: 8 };
    let f = to_felt(&x);
    assert_eq!(f.lo, 5u128 + (6u128 << 64));
    assert_eq!(f.hi, 7u128 + (8u128 << 64));
    assert_eq!(from_felt(&f), x);

    let y = Felt { hi: 0xABCD, lo: u128::MAX };
    assert_eq!(to_felt(&from_felt(&y)), y);
}

#[test]
fn contract_class_equality() {
    let a = ContractClass { program: vec![Felt::from_u64(1)], abi: vec![2] };
    let b = ContractClass { program: vec![Felt::from_u64(1)], abi: vec![2] };
    let c = ContractClass { program: vec![Felt::from_u64(1)], abi: vec![3] };
    let d = ContractClass { program: vec![Felt::from_u64(9)], abi: vec![2] };
    assert!(a == b);
    assert!(a != c);
    assert!(a != d);
}
