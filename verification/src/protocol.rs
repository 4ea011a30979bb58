//! Trusted bindings to the ledger SDK and the token protocol crates. Every
//! item here is believed, not proved: each doc comment names the outside
//! function relied on. All verified logic speaks of these contracts only.

use vstd::prelude::*;

use solana_sdk::instruction::Instruction;
use solana_sdk::pubkey::Pubkey;
use solana_sdk::signature::Keypair;
use solana_sdk::signer::Signer;
use solana_sdk::transaction::Transaction;

use crate::errors::ProvisionError;
use crate::extensions::spec_account_len;
use crate::extensions::combination_allowed;
use crate::extensions::distinct_kinds;
use crate::extensions::ExtensionSet;
use crate::identity::Address;
use crate::identity::SignerIdentity;

verus! {

#[verifier::external_type_specification]
#[verifier::external_body]
pub struct ExPubkey(Pubkey);

#[verifier::external_type_specification]
#[verifier::external_body]
pub struct ExKeypair(Keypair);

#[verifier::external_type_specification]
#[verifier::external_body]
pub struct ExInstruction(Instruction);

#[verifier::external_type_specification]
#[verifier::external_body]
pub struct ExTransaction(Transaction);

#[verifier::external_type_specification]
#[verifier::external_body]
pub struct ExHash(solana_sdk::hash::Hash);

/// Relies on the derived `Clone` of `solana_sdk::instruction::Instruction`,
/// which duplicates the program id, account list and data bytes.
pub assume_specification[ <Instruction as Clone>::clone ](i: &Instruction) -> (r: Instruction)
    ensures
        r == *i,
;

/// The deterministic derived holding-account address of an owner and a
/// mint under the token protocol.
pub uninterp spec fn derived_address_of(owner: Seq<u8>, mint: Seq<u8>) -> Seq<u8>;

/// The "create empty account" instruction for the given payer, new
/// account, rent balance and byte size, owned by the token program.
pub uninterp spec fn create_account_ix_of(payer: Seq<u8>, account: Seq<u8>, rent: u64, space: u64) -> solana_sdk::instruction::Instruction;

/// The "initialize base layout" instruction with the given authorities
/// and precision.
pub uninterp spec fn initialize_mint_ix_of(mint: Seq<u8>, mint_authority: Seq<u8>, freeze_authority: Option<Seq<u8>>, decimals: u8) -> solana_sdk::instruction::Instruction;

/// The "attach metadata pointer" instruction with the given authority and
/// metadata location.
pub uninterp spec fn metadata_pointer_ix_of(mint: Seq<u8>, authority: Seq<u8>, metadata_address: Seq<u8>) -> solana_sdk::instruction::Instruction;

/// The "initialize metadata record" instruction carrying the given
/// addresses and text bytes.
pub uninterp spec fn metadata_init_ix_of(metadata: Seq<u8>, update_authority: Seq<u8>, mint: Seq<u8>, mint_authority: Seq<u8>, name: Seq<u8>, symbol: Seq<u8>, uri: Seq<u8>) -> solana_sdk::instruction::Instruction;

/// Whether a byte string is valid text in the encoding the interface
/// expects of its string fields.
pub uninterp spec fn utf8_ok(s: Seq<u8>) -> bool;

/// The "mint units" instruction naming the given amount and precision.
pub uninterp spec fn mint_to_ix_of(mint: Seq<u8>, destination: Seq<u8>, authority: Seq<u8>, amount: u64, decimals: u8) -> solana_sdk::instruction::Instruction;

/// The "transfer units" instruction naming the given amount and precision.
pub uninterp spec fn transfer_ix_of(source: Seq<u8>, mint: Seq<u8>, destination: Seq<u8>, authority: Seq<u8>, amount: u64, decimals: u8) -> solana_sdk::instruction::Instruction;

/// The "create derived holding account" instruction for (owner, mint),
/// paid by `payer`.
pub uninterp spec fn derived_account_ix_of(payer: Seq<u8>, owner: Seq<u8>, mint: Seq<u8>) -> solana_sdk::instruction::Instruction;

/// The native-balance transfer instruction.
pub uninterp spec fn transfer_lamports_ix_of(from: Seq<u8>, to: Seq<u8>, lamports: u64) -> solana_sdk::instruction::Instruction;

/// How many account references an instruction value holds: its account
/// list plus its program id. Bounds the distinct keys a unit built from
/// such instructions can reference.
pub uninterp spec fn ix_account_count(i: solana_sdk::instruction::Instruction) -> nat;

/// The ordered instruction list an atomic unit references.
pub uninterp spec fn tx_instructions_of(t: solana_sdk::transaction::Transaction) -> Seq<solana_sdk::instruction::Instruction>;

/// Whether every required signature position of the unit is filled.
pub uninterp spec fn fully_signed(t: solana_sdk::transaction::Transaction) -> bool;

/// Relies on `solana_sdk::signature::Keypair::new`: a fresh key pair from
/// a cryptographically secure source. Nothing is promised of its value.
#[verifier::external_body]
pub fn new_keypair() -> Keypair {
    Keypair::new()
}

/// Relies on `solana_sdk::signer::Signer::pubkey` for `Keypair`: the
/// public key of the pair, converted to its 32 bytes.
#[verifier::external_body]
pub fn keypair_address(k: &Keypair) -> (r: Address)
    ensures
        r@.len() == 32,
{
    Address::from_bytes(k.pubkey().to_bytes())
}

/// Relies on `spl_associated_token_account::get_associated_token_address_with_program_id`:
/// the derived holding-account address is a function of the owner, the
/// mint and the (fixed) token program alone.
#[verifier::external_body]
pub fn derived_address(owner: &Address, mint: &Address) -> (r: Address)
    ensures
        r@ == derived_address_of(owner@, mint@),
        r@.len() == 32,
{
    let a = spl_associated_token_account::get_associated_token_address_with_program_id(
        &Pubkey::new_from_array(owner.to_bytes()),
        &Pubkey::new_from_array(mint.to_bytes()),
        &spl_token_2022::ID,
    );
    Address::from_bytes(a.to_bytes())
}

/// Relies on `spl_token_2022::extension::ExtensionType::try_calculate_account_len`
/// for the mint base state: the plain base length for no extensions,
/// otherwise the extended base plus each distinct extension's tagged
/// value, stepping over the multisignature length. Every supported kind
/// has a fixed-length value, so the calculation cannot fail.
#[verifier::external_body]
pub fn mint_account_len(exts: &ExtensionSet) -> (r: usize)
    requires
        distinct_kinds(exts@),
    ensures
        r == spec_account_len(exts@),
{
    let mut tys = Vec::new();
    for i in 0..exts.len() {
        tys.push(
            spl_token_2022::extension::ExtensionType::try_from(
                crate::extensions::kind_code(exts.kind_at(i)),
            ).unwrap(),
        );
    }
    spl_token_2022::extension::ExtensionType::try_calculate_account_len::<
        spl_token_2022::state::Mint,
    >(&tys).unwrap()
}

/// Relies on `spl_token_2022::extension::ExtensionType::check_for_invalid_mint_extension_combinations`:
/// the confidential fee configuration must come with both the transfer
/// fee and the confidential transfer configurations, and those two
/// together must bring it.
#[verifier::external_body]
pub fn combination_ok(exts: &ExtensionSet) -> (r: bool)
    ensures
        r == combination_allowed(exts@),
{
    let mut tys = Vec::new();
    for i in 0..exts.len() {
        tys.push(
            spl_token_2022::extension::ExtensionType::try_from(
                crate::extensions::kind_code(exts.kind_at(i)),
            ).unwrap(),
        );
    }
    spl_token_2022::extension::ExtensionType::check_for_invalid_mint_extension_combinations(&tys)
        .is_ok()
}

/// Relies on `solana_sdk::system_instruction::create_account`: encodes the
/// operation that creates the empty account `account`, funded by `payer`
/// with `rent` and `space` bytes, owned by the token program.
#[verifier::external_body]
pub fn create_account_ix(payer: &Address, account: &Address, rent: u64, space: u64) -> (r:
    Instruction)
    ensures
        r == create_account_ix_of(payer@, account@, rent, space),
        ix_account_count(r) == 3,
{
    solana_sdk::system_instruction::create_account(
        &Pubkey::new_from_array(payer.to_bytes()),
        &Pubkey::new_from_array(account.to_bytes()),
        rent,
        space,
        &spl_token_2022::ID,
    )
}

/// Relies on `spl_token_2022::instruction::initialize_mint2`: encodes the
/// base-layout initialization with the given authorities and precision.
/// The program id is the crate's own constant, so the builder's program
/// check cannot fail.
#[verifier::external_body]
pub fn initialize_mint_ix(
    mint: &Address,
    mint_authority: &Address,
    freeze_authority: Option<&Address>,
    decimals: u8,
) -> (r: Instruction)
    ensures
        r == initialize_mint_ix_of(mint@, mint_authority@, match freeze_authority {
            Some(a) => Some(a@),
            None => None,
        }, decimals),
        ix_account_count(r) == 2,
{
    let freeze = freeze_authority.map(|a| Pubkey::new_from_array(a.to_bytes()));
    spl_token_2022::instruction::initialize_mint2(
        &spl_token_2022::ID,
        &Pubkey::new_from_array(mint.to_bytes()),
        &Pubkey::new_from_array(mint_authority.to_bytes()),
        freeze.as_ref(),
        decimals,
    ).unwrap()
}

/// Relies on `spl_token_2022::extension::metadata_pointer::instruction::initialize`:
/// encodes the extension declaration that points the mint's metadata at
/// `metadata_address`. The program id is the crate's own constant, and the
/// protocol reserves the all-zero address to mean "absent", so a zero
/// authority or metadata location is refused by the builder and excluded
/// here.
#[verifier::external_body]
pub fn metadata_pointer_ix(
    mint: &Address,
    authority: &Address,
    metadata_address: &Address,
) -> (r: Instruction)
    requires
        !authority.spec_is_zero(),
        !metadata_address.spec_is_zero(),
    ensures
        r == metadata_pointer_ix_of(mint@, authority@, metadata_address@),
        ix_account_count(r) == 2,
{
    spl_token_2022::extension::metadata_pointer::instruction::initialize(
        &spl_token_2022::ID,
        &Pubkey::new_from_array(mint.to_bytes()),
        Some(Pubkey::new_from_array(authority.to_bytes())),
        Some(Pubkey::new_from_array(metadata_address.to_bytes())),
    ).unwrap()
}

/// Relies on `spl_token_metadata_interface::instruction::initialize` and
/// on `String::from_utf8`: encodes the population of the metadata record.
/// The interface takes the texts as strings, so it succeeds exactly when
/// every field holds valid text; fields are bounded by their four-byte
/// length prefix so the interface's own packing cannot fail.
#[verifier::external_body]
pub fn metadata_init_ix(
    metadata: &Address,
    update_authority: &Address,
    mint: &Address,
    mint_authority: &Address,
    name: &Vec<u8>,
    symbol: &Vec<u8>,
    uri: &Vec<u8>,
) -> (r: Result<Instruction, ProvisionError>)
    requires
        name@.len() <= u32::MAX,
        symbol@.len() <= u32::MAX,
        uri@.len() <= u32::MAX,
    ensures
        r matches Ok(ix) ==> utf8_ok(name@) && utf8_ok(symbol@) && utf8_ok(uri@) && ix
            == metadata_init_ix_of(
            metadata@,
            update_authority@,
            mint@,
            mint_authority@,
            name@,
            symbol@,
            uri@,
        ) && ix_account_count(ix) == 5,
        r matches Err(e) ==> e == ProvisionError::MetadataNotUtf8 && !(utf8_ok(name@) && utf8_ok(
            symbol@,
        ) && utf8_ok(uri@)),
{
    let name = String::from_utf8(name.clone()).map_err(|_| ProvisionError::MetadataNotUtf8)?;
    let symbol = String::from_utf8(symbol.clone()).map_err(|_| ProvisionError::MetadataNotUtf8)?;
    let uri = String::from_utf8(uri.clone()).map_err(|_| ProvisionError::MetadataNotUtf8)?;
    Ok(spl_token_metadata_interface::instruction::initialize(
        &spl_token_2022::ID,
        &Pubkey::new_from_array(metadata.to_bytes()),
        &Pubkey::new_from_array(update_authority.to_bytes()),
        &Pubkey::new_from_array(mint.to_bytes()),
        &Pubkey::new_from_array(mint_authority.to_bytes()),
        name,
        symbol,
        uri,
    ))
}

/// Relies on `spl_token_2022::instruction::mint_to_checked`: encodes the
/// issuance of `amount` smallest units, stating `decimals` so the
/// protocol can refuse a stale precision. The program id is the crate's
/// own constant.
#[verifier::external_body]
pub fn mint_to_ix(
    mint: &Address,
    destination: &Address,
    authority: &Address,
    amount: u64,
    decimals: u8,
) -> (r: Instruction)
    ensures
        r == mint_to_ix_of(mint@, destination@, authority@, amount, decimals),
        ix_account_count(r) == 5,
{
    spl_token_2022::instruction::mint_to_checked(
        &spl_token_2022::ID,
        &Pubkey::new_from_array(mint.to_bytes()),
        &Pubkey::new_from_array(destination.to_bytes()),
        &Pubkey::new_from_array(authority.to_bytes()),
        &[&Pubkey::new_from_array(authority.to_bytes())],
        amount,
        decimals,
    ).unwrap()
}

/// Relies on `spl_token_2022::instruction::transfer_checked`: encodes the
/// movement of `amount` smallest units from `source` to `destination`,
/// stating `decimals`. The program id is the crate's own constant.
#[verifier::external_body]
pub fn transfer_ix(
    source: &Address,
    mint: &Address,
    destination: &Address,
    authority: &Address,
    amount: u64,
    decimals: u8,
) -> (r: Instruction)
    ensures
        r == transfer_ix_of(source@, mint@, destination@, authority@, amount, decimals),
        ix_account_count(r) == 6,
{
    spl_token_2022::instruction::transfer_checked(
        &spl_token_2022::ID,
        &Pubkey::new_from_array(source.to_bytes()),
        &Pubkey::new_from_array(mint.to_bytes()),
        &Pubkey::new_from_array(destination.to_bytes()),
        &Pubkey::new_from_array(authority.to_bytes()),
        &[&Pubkey::new_from_array(authority.to_bytes())],
        amount,
        decimals,
    ).unwrap()
}

/// Relies on `spl_associated_token_account::instruction::create_associated_token_account_idempotent`:
/// encodes the creation of the derived holding account for (owner, mint),
/// a no-op on the ledger when the account already exists.
#[verifier::external_body]
pub fn create_derived_account_ix(payer: &Address, owner: &Address, mint: &Address) -> (r:
    Instruction)
    ensures
        r == derived_account_ix_of(payer@, owner@, mint@),
        ix_account_count(r) == 7,
{
    spl_associated_token_account::instruction::create_associated_token_account_idempotent(
        &Pubkey::new_from_array(payer.to_bytes()),
        &Pubkey::new_from_array(owner.to_bytes()),
        &Pubkey::new_from_array(mint.to_bytes()),
        &spl_token_2022::ID,
    )
}

/// Relies on `solana_sdk::system_instruction::transfer`: encodes the
/// movement of `lamports` of the native balance from `from` to `to`.
#[verifier::external_body]
pub fn transfer_lamports_ix(from: &Address, to: &Address, lamports: u64) -> (r: Instruction)
    ensures
        r == transfer_lamports_ix_of(from@, to@, lamports),
        ix_account_count(r) == 3,
{
    solana_sdk::system_instruction::transfer(
        &Pubkey::new_from_array(from.to_bytes()),
        &Pubkey::new_from_array(to.to_bytes()),
        lamports,
    )
}

/// Relies on `solana_sdk::transaction::Transaction::new_with_payer`: one
/// atomic unit referencing the instructions in the given order, paying
/// fees from `payer`. Compiling the unit refuses more than 255 distinct
/// account keys by panicking, so the inputs are bounded: at most 31
/// instructions of at most 7 account references each, plus the payer,
/// stay under that limit.
#[verifier::external_body]
pub fn new_transaction(instructions: &Vec<Instruction>, payer: &Address) -> (r: Transaction)
    requires
        instructions@.len() <= 31,
        forall|i: int|
            0 <= i < instructions@.len() ==> ix_account_count(#[trigger] instructions@[i]) <= 7,
    ensures
        tx_instructions_of(r) == instructions@,
{
    Transaction::new_with_payer(
        instructions,
        Some(&Pubkey::new_from_array(payer.to_bytes())),
    )
}

/// Relies on `solana_sdk::transaction::Transaction::try_sign`: signs the
/// unit with every given key pair over the freshness token `recent`. On
/// success every required signature position is filled and the referenced
/// instructions are unchanged; a stray or missing key pair is surfaced as
/// an error, never a panic.
#[verifier::external_body]
pub fn sign_transaction(
    tx: &mut Transaction,
    signers: &Vec<SignerIdentity>,
    recent: &solana_sdk::hash::Hash,
) -> (r: Result<(), ProvisionError>)
    ensures
        r is Ok ==> fully_signed(*final(tx)) && tx_instructions_of(*final(tx))
            == tx_instructions_of(*old(tx)),
        r matches Err(e) ==> e == ProvisionError::SigningFailed,
{
    let keys: Vec<&Keypair> = signers.iter().map(|s| &s.keypair).collect();
    tx.try_sign(&keys, *recent).map_err(|_| ProvisionError::SigningFailed)
}

} // verus!
