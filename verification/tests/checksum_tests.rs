use state_adapter::checksum::{check_md5, hex_encode, md5_hex};
use state_adapter::configs::{validate_file_content, Configs, File};

#[test]
fn hex_encode_exact() {
    assert_eq!(hex_encode(&vec![]), Vec::<u8>::new());
    assert_eq!(hex_encode(&vec![0x00, 0x0F, 0xA5, 0xFF]), b"000fa5ff".to_vec());
}

#[test]
fn md5_hex_known_digests() {
    // the digest differs from the input, so a pass-through would fail here
    assert_eq!(
        md5_hex(&b"abc".to_vec()),
        b"900150983cd24fb0d6963f7d28e17f72".to_vec()
    );
    assert_eq!(
        md5_hex(&Vec::new()),
        b"d41d8cd98f00b204e9800998ecf8427e".to_vec()
    );
}

#[test]
fn md5_hex_matches_md5_crate() {
    let data = b"state adapter checksum".to_vec();
    let expected = format!("{:x}", md5::compute(&data));
    assert_eq!(md5_hex(&data), expected.into_bytes());
}

#[test]
fn check_md5_accepts_and_rejects() {
    let data = b"abc".to_vec();
    assert!(check_md5(&data, &b"900150983cd24fb0d6963f7d28e17f72".to_vec()));
    assert!(!check_md5(&data, &b"900150983cd24fb0d6963f7d28e17f73".to_vec()));
    assert!(!check_md5(&data, &b"short".to_vec()));
}

#[test]
fn validate_file_content_cases() {
    let data = b"abc".to_vec();
    assert!(validate_file_content(
        &data,
        &Some(b"900150983cd24fb0d6963f7d28e17f72".to_vec())
    ));
    assert!(!validate_file_content(&data, &Some(b"00".to_vec())));
    assert!(validate_file_content(&data, &None));
}

#[test]
fn configs_hold_declared_files() {
    let configs = Configs {
        remote_base_path: String::from("https://example.invalid/assets/"),
        chain_specs: vec![File {
            name: String::from("chain.json"),
            md5: Some(String::from("900150983cd24fb0d6963f7d28e17f72")),
            url: None,
        }],
        genesis_assets: vec![File {
            name: String::from("genesis.json"),
            md5: None,
            url: Some(String::from("https://example.invalid/genesis.json")),
        }],
    };
    assert_eq!(configs.chain_specs.len(), 1);
    let expected = configs.chain_specs[0].md5.clone().map(String::into_bytes);
    assert!(validate_file_content(&b"abc".to_vec(), &expected));
    assert_eq!(configs.genesis_assets[0].md5, None);
}
