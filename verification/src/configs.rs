use vstd::prelude::*;
use crate::checksum::{check_md5, hex_of, md5_of};

verus! {

/// One declared asset file: its name, its expected md5 checksum in hex
/// (when one is published), and an explicit source url (when fixed).
pub struct File {
    pub name: String,
    pub md5: Option<String>,
    pub url: Option<String>,
}

/// Chain and genesis asset declarations, as read from the node's
/// configuration.
pub struct Configs {
    pub remote_base_path: String,
    pub chain_specs: Vec<File>,
    pub genesis_assets: Vec<File>,
}

/// Whether fetched file content matches an expected md5 checksum; content
/// with no published checksum passes.
pub fn validate_file_content(content: &Vec<u8>, expected_md5_hex: &Option<Vec<u8>>) -> (r: bool)
    ensures
        match expected_md5_hex {
            Some(e) => r == (hex_of(md5_of(content@)) == e@),
            None => r == true,
        },
{
    match expected_md5_hex {
        Option::Some(e) => check_md5(content, e),
        Option::None => true,
    }
}

} // verus!
