use solana_sdk::pubkey::Pubkey;

use spl_type_length_value::variable_len_pack::VariableLenPack;

use token_pipeline::amounts::to_base_units;
use token_pipeline::amounts::MAX_PRECISION;
use token_pipeline::assembler::assemble_unit;
use token_pipeline::effects::apply_mint;
use token_pipeline::effects::apply_transfer;
use token_pipeline::effects::register_derived;
use token_pipeline::errors::classify_failure;
use token_pipeline::errors::ExecutionOutcome;
use token_pipeline::errors::FailureClass;
use token_pipeline::errors::ProvisionError;
use token_pipeline::extensions::ExtensionKind;
use token_pipeline::extensions::ExtensionSet;
use token_pipeline::funder::FaucetFunder;
use token_pipeline::funder::FunderAction;
use token_pipeline::funder::FundingEvent;
use token_pipeline::identity::Address;
use token_pipeline::identity::SignerIdentity;
use token_pipeline::operations::build_create_resource;
use token_pipeline::operations::build_mint_units;
use token_pipeline::operations::OpKind;
use token_pipeline::sizing::calculate_layout_with_metadata;
use token_pipeline::sizing::calculate_mint_len;
use token_pipeline::workflow::plan_derived_account;
use token_pipeline::workflow::plan_metadata_mint;
use token_pipeline::workflow::plan_plain_mint;

fn sample_set(kinds: &[ExtensionKind]) -> ExtensionSet {
    let mut set = ExtensionSet::new();
    for k in kinds {
        set.select(*k);
    }
    set
}

#[test]
fn plain_base_length_without_extensions() {
    let set = sample_set(&[]);
    assert_eq!(calculate_mint_len(&set), Ok(82));
}

#[test]
fn metadata_pointer_extension_length() {
    let set = sample_set(&[ExtensionKind::MetadataPointer]);
    // 165 base + 1 type byte + 2 tag + 2 length + 64 value
    assert_eq!(calculate_mint_len(&set), Ok(234));
}

#[test]
fn account_len_matches_protocol_calculation() {
    let set = sample_set(&[ExtensionKind::MintCloseAuthority, ExtensionKind::PermanentDelegate]);
    let expected = spl_token_2022::extension::ExtensionType::try_calculate_account_len::<
        spl_token_2022::state::Mint,
    >(&[
        spl_token_2022::extension::ExtensionType::MintCloseAuthority,
        spl_token_2022::extension::ExtensionType::PermanentDelegate,
    ])
    .unwrap();
    assert_eq!(calculate_mint_len(&set), Ok(expected));
}

#[test]
fn adding_extension_never_decreases_size() {
    let smaller = sample_set(&[ExtensionKind::MintCloseAuthority]);
    let larger = sample_set(&[
        ExtensionKind::MintCloseAuthority,
        ExtensionKind::MetadataPointer,
    ]);
    assert!(calculate_mint_len(&larger).unwrap() >= calculate_mint_len(&smaller).unwrap());
}

#[test]
fn exclusive_extension_combination_is_surfaced() {
    let set = sample_set(&[
        ExtensionKind::TransferFeeConfig,
        ExtensionKind::ConfidentialTransferMint,
    ]);
    assert_eq!(
        calculate_mint_len(&set),
        Err(ProvisionError::UnsupportedExtensionCombination)
    );
    let full = sample_set(&[
        ExtensionKind::TransferFeeConfig,
        ExtensionKind::ConfidentialTransferMint,
        ExtensionKind::ConfidentialTransferFeeConfig,
    ]);
    assert!(calculate_mint_len(&full).is_ok());
}

fn sample_record() -> token_pipeline::metadata::MetadataRecord {
    token_pipeline::metadata::MetadataRecord {
        update_authority: Some(Address::from_bytes([7u8; 32])),
        mint: Address::from_bytes([9u8; 32]),
        name: b"DAVDAV".to_vec(),
        symbol: b"DAV".to_vec(),
        uri: b"https://example.invalid/meta.json".to_vec(),
        additional: vec![token_pipeline::metadata::MetadataPair {
            key: b"tier".to_vec(),
            value: b"gold".to_vec(),
        }],
    }
}

#[test]
fn metadata_round_trip() {
    let record = sample_record();
    let bytes = token_pipeline::metadata::encode_metadata(&record);
    let back = token_pipeline::metadata::decode_metadata(&bytes).expect("decodes");
    assert_eq!(back.update_authority.map(|a| a.to_bytes()), Some([7u8; 32]));
    assert_eq!(back.mint.to_bytes(), [9u8; 32]);
    assert_eq!(back.name, record.name);
    assert_eq!(back.symbol, record.symbol);
    assert_eq!(back.uri, record.uri);
    assert_eq!(back.additional.len(), 1);
    assert_eq!(back.additional[0].key, b"tier".to_vec());
    assert_eq!(back.additional[0].value, b"gold".to_vec());
}

#[test]
fn measured_packed_len_matches_interface_crate() {
    let record = sample_record();
    let interface_record = spl_token_metadata_interface::state::TokenMetadata {
        update_authority: Some(Pubkey::new_from_array([7u8; 32])).try_into().unwrap(),
        mint: Pubkey::new_from_array([9u8; 32]),
        name: "DAVDAV".to_string(),
        symbol: "DAV".to_string(),
        uri: "https://example.invalid/meta.json".to_string(),
        additional_metadata: vec![("tier".to_string(), "gold".to_string())],
    };
    assert_eq!(
        token_pipeline::metadata::measured_packed_len(&record),
        interface_record.get_packed_len().unwrap()
    );
}

#[test]
fn layout_with_metadata_adds_header_and_payload() {
    let set = sample_set(&[ExtensionKind::MetadataPointer]);
    let record = sample_record();
    let packed = token_pipeline::metadata::measured_packed_len(&record);
    let layout = calculate_layout_with_metadata(&set, &record).unwrap();
    assert_eq!(layout.account_len, 234);
    assert_eq!(layout.rent_target_len, 234 + 4 + packed);
    assert!(layout.rent_target_len >= 166 + 4 + packed);
}

#[test]
fn unit_conversion_scales_by_precision_exponent() {
    assert_eq!(to_base_units(10, 9), Ok(10_000_000_000));
    assert_eq!(to_base_units(0, 9), Ok(0));
    assert_eq!(to_base_units(7, 0), Ok(7));
}

#[test]
fn unit_conversion_rejects_excess_precision() {
    assert_eq!(
        to_base_units(1, MAX_PRECISION + 1),
        Err(ProvisionError::InvalidPrecision)
    );
}

#[test]
fn unit_conversion_rejects_overflow() {
    assert_eq!(
        to_base_units(u64::MAX, 3),
        Err(ProvisionError::AmountOverflow)
    );
}

#[test]
fn funder_succeeds_only_after_confirmation() {
    let mut funder = FaucetFunder::new();
    assert!(!funder.is_funded());
    assert_eq!(
        funder.observe(FundingEvent::SubmissionAccepted),
        FunderAction::Poll
    );
    assert_eq!(funder.observe(FundingEvent::Pending), FunderAction::Poll);
    assert_eq!(funder.observe(FundingEvent::QueryFailed), FunderAction::Poll);
    assert!(!funder.is_funded());
    assert_eq!(funder.observe(FundingEvent::Confirmed), FunderAction::Succeed);
    assert!(funder.is_funded());
}

#[test]
fn funder_surfaces_rejected_submission() {
    let mut funder = FaucetFunder::new();
    assert_eq!(
        funder.observe(FundingEvent::SubmissionRejected),
        FunderAction::Fail
    );
    assert!(!funder.is_funded());
    assert_eq!(
        funder.rejection_error(),
        ProvisionError::FundingRequestRejected
    );
}

#[test]
fn assembler_rejects_missing_authority() {
    let payer = SignerIdentity::generate();
    let other = SignerIdentity::generate();
    let ops = vec![build_create_resource(
        &payer.address,
        &other.address,
        1_000_000,
        82,
    )];
    // `other` must sign the creation of its own account but is absent.
    let signers = vec![payer];
    let payer_address = signers[0].address;
    let outcome = assemble_unit(&ops, &payer_address, &signers, &solana_sdk::hash::Hash::default());
    assert!(matches!(outcome, Err(ProvisionError::MissingAuthority)));
}

#[test]
fn assembler_rejects_out_of_order_sequence() {
    let payer = SignerIdentity::generate();
    let mint = SignerIdentity::generate();
    let mut ops = plan_plain_mint(&payer.address, &mint.address, 1_000_000, 82, 9).unwrap();
    ops.reverse();
    let payer_address = payer.address;
    let signers = vec![payer, mint];
    let outcome = assemble_unit(&ops, &payer_address, &signers, &solana_sdk::hash::Hash::default());
    assert!(matches!(outcome, Err(ProvisionError::OrderingViolation)));
}

#[test]
fn assembler_signs_complete_sequence() {
    let payer = SignerIdentity::generate();
    let mint = SignerIdentity::generate();
    let ops = plan_plain_mint(&payer.address, &mint.address, 1_000_000, 82, 9).unwrap();
    let payer_address = payer.address;
    let signers = vec![payer, mint];
    let tx = assemble_unit(&ops, &payer_address, &signers, &solana_sdk::hash::Hash::default()).unwrap();
    assert_eq!(tx.message.instructions.len(), 2);
    assert!(tx.is_signed());
}

#[test]
fn mint_operation_carries_converted_amount() {
    let mint = Address::from_bytes([1u8; 32]);
    let dest = Address::from_bytes([2u8; 32]);
    let authority = Address::from_bytes([3u8; 32]);
    let op = build_mint_units(&mint, &dest, &authority, 10, 9).unwrap();
    assert_eq!(op.kind, OpKind::MintUnits);
    assert_eq!(op.amount, Some(10_000_000_000));
    assert_eq!(op.stated_precision, Some(9));
    let expected = spl_token_2022::instruction::mint_to_checked(
        &spl_token_2022::ID,
        &Pubkey::new_from_array([1u8; 32]),
        &Pubkey::new_from_array([2u8; 32]),
        &Pubkey::new_from_array([3u8; 32]),
        &[&Pubkey::new_from_array([3u8; 32])],
        10_000_000_000,
        9,
    )
    .unwrap();
    assert_eq!(op.ix, expected);
}

#[test]
fn mint_operation_rejects_bad_precision_and_overflow() {
    let a = Address::from_bytes([1u8; 32]);
    assert!(matches!(
        build_mint_units(&a, &a, &a, 1, 20),
        Err(ProvisionError::InvalidPrecision)
    ));
    assert!(matches!(
        build_mint_units(&a, &a, &a, u64::MAX, 9),
        Err(ProvisionError::AmountOverflow)
    ));
}

#[test]
fn metadata_plan_orders_operations_exactly() {
    let authority = Address::from_bytes([4u8; 32]);
    let mint = Address::from_bytes([5u8; 32]);
    let record = sample_record();
    let ops = plan_metadata_mint(&authority, &mint, &record, 2_000_000, 234, 9).unwrap();
    let kinds: Vec<OpKind> = ops.iter().map(|o| o.kind).collect();
    assert_eq!(
        kinds,
        vec![
            OpKind::CreateResource,
            OpKind::AttachMetadataPointer,
            OpKind::InitializeBase,
            OpKind::InitializeMetadata,
        ]
    );
}

#[test]
fn derived_address_matches_protocol_derivation() {
    let owner = SignerIdentity::generate();
    let mint = SignerIdentity::generate();
    let (ops, derived) = plan_derived_account(&owner.address, &owner.address, &mint.address);
    assert_eq!(ops.len(), 1);
    assert_eq!(ops[0].kind, OpKind::CreateDerivedAccount);
    let expected = spl_associated_token_account::get_associated_token_address_with_program_id(
        &Pubkey::new_from_array(owner.address.to_bytes()),
        &Pubkey::new_from_array(mint.address.to_bytes()),
        &spl_token_2022::ID,
    );
    assert_eq!(derived.to_bytes(), expected.to_bytes());
}

#[test]
fn plain_provisioning_conserves_supply() {
    let mint_amount = to_base_units(100, 9).unwrap();
    let transfer_amount = to_base_units(10, 9).unwrap();
    let (sender_balance, supply) = apply_mint(0, 0, mint_amount).unwrap();
    assert_eq!(supply, 100_000_000_000);
    let (sender_after, recipient_after) =
        apply_transfer(sender_balance, 0, transfer_amount).unwrap();
    assert_eq!(sender_balance - sender_after, transfer_amount);
    assert_eq!(recipient_after, transfer_amount);
    assert_eq!(sender_after + recipient_after, supply);
}

#[test]
fn transfer_rejects_insufficient_funds() {
    assert_eq!(
        apply_transfer(5, 0, 6),
        Err(ProvisionError::InsufficientFunds)
    );
}

#[test]
fn repeated_derived_account_creation_is_idempotent() {
    let mut accounts: Vec<Address> = Vec::new();
    let a = Address::from_bytes([8u8; 32]);
    assert!(register_derived(&mut accounts, &a));
    let after_first: Vec<[u8; 32]> = accounts.iter().map(|x| x.to_bytes()).collect();
    assert!(!register_derived(&mut accounts, &a));
    let after_second: Vec<[u8; 32]> = accounts.iter().map(|x| x.to_bytes()).collect();
    assert_eq!(after_first, after_second);
    assert_eq!(accounts.len(), 1);
}

#[test]
fn metadata_operation_requires_valid_text() {
    let a = Address::from_bytes([1u8; 32]);
    let mut record = sample_record();
    record.name = vec![0xff, 0xfe, 0x00];
    let refused = token_pipeline::operations::build_initialize_metadata(&a, &a, &a, &record);
    assert!(matches!(refused, Err(ProvisionError::MetadataNotUtf8)));

    let ok = token_pipeline::operations::build_initialize_metadata(&a, &a, &a, &sample_record())
        .unwrap();
    assert_eq!(ok.kind, OpKind::InitializeMetadata);
    assert_eq!(ok.required_signers.len(), 1);
}

#[test]
fn fund_transfer_carries_sender_signature() {
    let from = Address::from_bytes([1u8; 32]);
    let to = Address::from_bytes([2u8; 32]);
    let op = token_pipeline::operations::build_fund_transfer(&from, &to, 1_000);
    assert_eq!(op.kind, OpKind::FundTransfer);
    assert_eq!(op.amount, Some(1_000));
    let expected = solana_sdk::system_instruction::transfer(
        &Pubkey::new_from_array([1u8; 32]),
        &Pubkey::new_from_array([2u8; 32]),
        1_000,
    );
    assert_eq!(op.ix, expected);
}

#[test]
fn staleness_is_the_only_retriable_failure() {
    let stale = ExecutionOutcome::Failed { class: FailureClass::StaleFreshnessToken };
    let rejected = ExecutionOutcome::Failed { class: FailureClass::ProtocolRejection };
    let confirmed = ExecutionOutcome::Confirmed { receipt: vec![1, 2, 3] };
    assert!(stale.is_retriable());
    assert!(!rejected.is_retriable());
    assert!(!confirmed.is_retriable());
    assert!(confirmed.is_confirmed());
}

#[test]
fn plain_plan_names_rent_size_and_authorities() {
    let authority = Address::from_bytes([4u8; 32]);
    let mint = Address::from_bytes([5u8; 32]);
    let ops = plan_plain_mint(&authority, &mint, 2_039_280, 82, 9).unwrap();
    let expected_create = solana_sdk::system_instruction::create_account(
        &Pubkey::new_from_array([4u8; 32]),
        &Pubkey::new_from_array([5u8; 32]),
        2_039_280,
        82,
        &spl_token_2022::ID,
    );
    assert_eq!(ops[0].ix, expected_create);
    let expected_init = spl_token_2022::instruction::initialize_mint2(
        &spl_token_2022::ID,
        &Pubkey::new_from_array([5u8; 32]),
        &Pubkey::new_from_array([4u8; 32]),
        Some(&Pubkey::new_from_array([4u8; 32])),
        9,
    )
    .unwrap();
    assert_eq!(ops[1].ix, expected_init);
    assert_eq!(ops[1].stated_precision, Some(9));
}

#[test]
fn metadata_plan_points_at_the_mint_itself() {
    let authority = Address::from_bytes([4u8; 32]);
    let mint = Address::from_bytes([5u8; 32]);
    let record = sample_record();
    let ops = plan_metadata_mint(&authority, &mint, &record, 2_000_000, 234, 9).unwrap();
    let expected_pointer = spl_token_2022::extension::metadata_pointer::instruction::initialize(
        &spl_token_2022::ID,
        &Pubkey::new_from_array([5u8; 32]),
        Some(Pubkey::new_from_array([4u8; 32])),
        Some(Pubkey::new_from_array([5u8; 32])),
    )
    .unwrap();
    assert_eq!(ops[1].ix, expected_pointer);
    let expected_populate = spl_token_metadata_interface::instruction::initialize(
        &spl_token_2022::ID,
        &Pubkey::new_from_array([5u8; 32]),
        &Pubkey::new_from_array([7u8; 32]),
        &Pubkey::new_from_array([5u8; 32]),
        &Pubkey::new_from_array([4u8; 32]),
        "DAVDAV".to_string(),
        "DAV".to_string(),
        "https://example.invalid/meta.json".to_string(),
    );
    assert_eq!(ops[3].ix, expected_populate);
}

#[test]
fn failure_classification_matches_retry_policy() {
    assert_eq!(
        classify_failure(true, true),
        FailureClass::StaleFreshnessToken
    );
    assert_eq!(
        classify_failure(false, true),
        FailureClass::ProtocolRejection
    );
    assert_eq!(classify_failure(false, false), FailureClass::Transport);
}

#[test]
fn assembler_surfaces_stray_signer_without_panicking() {
    let payer = SignerIdentity::generate();
    let mint = SignerIdentity::generate();
    let stray = SignerIdentity::generate();
    let ops = plan_plain_mint(&payer.address, &mint.address, 1_000_000, 82, 9).unwrap();
    let payer_address = payer.address;
    // `stray` is not required by any operation of the unit.
    let signers = vec![payer, mint, stray];
    let outcome = assemble_unit(&ops, &payer_address, &signers, &solana_sdk::hash::Hash::default());
    assert!(matches!(outcome, Err(ProvisionError::SigningFailed)));
}
