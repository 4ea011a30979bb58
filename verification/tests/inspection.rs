use token_pipeline::errors::ProvisionError;
use token_pipeline::identity::Address;
use token_pipeline::inspect::inspect_mint_bytes;
use token_pipeline::metadata::encode_metadata;
use token_pipeline::metadata::MetadataPair;
use token_pipeline::metadata::MetadataRecord;

fn push_entry(image: &mut Vec<u8>, tag: u16, value: &[u8]) {
    image.extend_from_slice(&tag.to_le_bytes());
    image.extend_from_slice(&(value.len() as u16).to_le_bytes());
    image.extend_from_slice(value);
}

/// An account image as the ledger stores an extended mint: the padded
/// base layout with the precision byte, the account-type byte, then the
/// type-length-value region.
fn extended_mint_image(decimals: u8) -> Vec<u8> {
    let mut image = vec![0u8; 166];
    image[44] = decimals;
    image[45] = 1; // base layout marked initialized
    image[165] = 1; // account type: mint
    image
}

#[test]
fn inspect_reports_metadata_pointer_and_record() {
    let record = MetadataRecord {
        update_authority: Some(Address::from_bytes([7u8; 32])),
        mint: Address::from_bytes([9u8; 32]),
        name: b"DAVDAV".to_vec(),
        symbol: b"DAV".to_vec(),
        uri: b"https://example.invalid/meta.json".to_vec(),
        additional: vec![],
    };
    let mut image = extended_mint_image(9);
    let mut pointer_value = [7u8; 32].to_vec();
    pointer_value.extend_from_slice(&[9u8; 32]);
    push_entry(&mut image, 18, &pointer_value);
    let packed = encode_metadata(&record);
    push_entry(&mut image, 19, &packed);

    let decoded = inspect_mint_bytes(&image).expect("image decodes");
    assert_eq!(decoded.decimals, 9);
    assert_eq!(decoded.extension_tags, vec![18]);
    let back = decoded.metadata.expect("metadata record present");
    assert_eq!(back.name, b"DAVDAV".to_vec());
    assert_eq!(back.symbol, b"DAV".to_vec());
    assert_eq!(back.uri, b"https://example.invalid/meta.json".to_vec());
}

#[test]
fn inspect_plain_mint_reports_no_extensions() {
    let mut image = vec![0u8; 82];
    image[44] = 6;
    let decoded = inspect_mint_bytes(&image).expect("plain image decodes");
    assert_eq!(decoded.decimals, 6);
    assert!(decoded.extension_tags.is_empty());
    assert!(decoded.metadata.is_none());
}

#[test]
fn inspect_rejects_truncated_account() {
    let image = vec![0u8; 40];
    assert!(matches!(
        inspect_mint_bytes(&image),
        Err(ProvisionError::MalformedResource)
    ));
}

#[test]
fn inspect_rejects_torn_region() {
    let mut image = extended_mint_image(9);
    // A tag that promises more value bytes than the account holds.
    push_entry(&mut image, 18, &[0u8; 10]);
    let last = image.len() - 1;
    image[last - 11] = 64; // length field claims 64 bytes
    assert!(matches!(
        inspect_mint_bytes(&image),
        Err(ProvisionError::MalformedResource)
    ));
}

#[test]
fn metadata_with_empty_fields_round_trips() {
    let record = MetadataRecord {
        update_authority: None,
        mint: Address::from_bytes([1u8; 32]),
        name: vec![],
        symbol: vec![],
        uri: vec![],
        additional: vec![
            MetadataPair { key: vec![], value: vec![] },
            MetadataPair { key: b"k".to_vec(), value: b"v".to_vec() },
        ],
    };
    let bytes = encode_metadata(&record);
    let back = token_pipeline::metadata::decode_metadata(&bytes).expect("decodes");
    assert!(back.update_authority.is_none());
    assert_eq!(back.name, Vec::<u8>::new());
    assert_eq!(back.additional.len(), 2);
    assert_eq!(back.additional[1].key, b"k".to_vec());
}
