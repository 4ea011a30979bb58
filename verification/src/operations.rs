//! Construction of the individual protocol operations. Each builder is
//! pure apart from the trusted instruction encoding: it validates its
//! inputs, converts amounts, and records beside the opaque instruction
//! which kind of operation it is, which authorities must sign it, and
//! which smallest-unit amount it carries.

use vstd::prelude::*;

use solana_sdk::instruction::Instruction;

use crate::amounts;
use crate::amounts::base_units;
use crate::amounts::MAX_PRECISION;
use crate::errors::ProvisionError;
use crate::identity::Address;
use crate::metadata::MetadataRecord;
use crate::protocol;

verus! {

/// The kinds of operation this pipeline assembles.
#[derive(Clone, Copy, Debug, PartialEq, Eq, Structural)]
pub enum OpKind {
    /// Create the empty account that will hold the resource.
    CreateResource,
    /// Declare the metadata-pointer extension, before base initialization.
    AttachMetadataPointer,
    /// Initialize the base layout: authorities and precision.
    InitializeBase,
    /// Populate the metadata record, after base initialization.
    InitializeMetadata,
    /// Create the derived holding account for an owner; idempotent.
    CreateDerivedAccount,
    /// Fund an account with native balance from a sender.
    FundTransfer,
    /// Issue smallest units to a holding account.
    MintUnits,
    /// Move smallest units between holding accounts.
    TransferUnits,
}

/// One well-formed operation: the encoded instruction, together with the
/// model the verified logic reasons over.
pub struct Operation {
    pub kind: OpKind,
    pub ix: Instruction,
    pub required_signers: Vec<Address>,
    /// The smallest-unit amount an issuance or transfer carries.
    pub amount: Option<u64>,
    /// The precision the operation states to the protocol, where it
    /// states one, so a stale precision is refused on execution.
    pub stated_precision: Option<u8>,
}

/// Every operation this library builds references at most seven accounts,
/// which keeps an assembled unit within the ledger's key limit.
pub open spec fn op_wf(op: Operation) -> bool {
    protocol::ix_account_count(op.ix) <= 7
}

/// The addresses of a signer list, as byte sequences.
pub open spec fn addr_views(addrs: Seq<Address>) -> Seq<Seq<u8>> {
    addrs.map_values(|a: Address| a@)
}

/// A "create empty account" operation: payer funds `resource` with the
/// rent-exempt balance for `space` bytes. Both the payer and the new
/// account must sign.
pub fn build_create_resource(payer: &Address, resource: &Address, rent: u64, space: u64) -> (r:
    Operation)
    ensures
        r.kind == OpKind::CreateResource,
        r.ix == protocol::create_account_ix_of(payer@, resource@, rent, space),
        addr_views(r.required_signers@) == seq![payer@, resource@],
        r.amount is None,
        r.stated_precision is None,
        op_wf(r),
{
    let ix = protocol::create_account_ix(payer, resource, rent, space);
    let mut required_signers: Vec<Address> = Vec::new();
    required_signers.push(*payer);
    required_signers.push(*resource);
    proof {
        assert(addr_views(required_signers@) =~= seq![payer@, resource@]);
    }
    Operation { kind: OpKind::CreateResource, ix, required_signers, amount: None, stated_precision: None }
}

/// An "initialize base layout" operation: sets the mint authority, the
/// optional freeze authority and the value precision. Rejects a precision
/// beyond the protocol maximum. No extra signature is required.
pub fn build_initialize_base(
    mint: &Address,
    mint_authority: &Address,
    freeze_authority: Option<&Address>,
    decimals: u8,
) -> (r: Result<Operation, ProvisionError>)
    ensures
        match r {
            Ok(op) => decimals <= MAX_PRECISION && op.kind == OpKind::InitializeBase && op.ix
                == protocol::initialize_mint_ix_of(mint@, mint_authority@, match freeze_authority {
                Some(a) => Some(a@),
                None => None,
            }, decimals) && addr_views(op.required_signers@) == Seq::<Seq<u8>>::empty()
                && op.amount is None && op.stated_precision == Some(decimals) && op_wf(op),
            Err(e) => e == ProvisionError::InvalidPrecision && decimals > MAX_PRECISION,
        },
{
    if decimals > MAX_PRECISION {
        return Err(ProvisionError::InvalidPrecision);
    }
    let ix = protocol::initialize_mint_ix(mint, mint_authority, freeze_authority, decimals);
    let required_signers: Vec<Address> = Vec::new();
    proof {
        assert(addr_views(required_signers@) =~= Seq::<Seq<u8>>::empty());
    }
    Ok(
        Operation {
            kind: OpKind::InitializeBase,
            ix,
            required_signers,
            amount: None,
            stated_precision: Some(decimals),
        },
    )
}

/// An "attach metadata-pointer extension" operation, pointing the mint's
/// metadata at `metadata_address`. Must precede base initialization. The
/// protocol reserves the all-zero address for "absent", so the stated
/// authority and location must not be zero.
pub fn build_attach_metadata_pointer(
    mint: &Address,
    authority: &Address,
    metadata_address: &Address,
) -> (r: Operation)
    requires
        !authority.spec_is_zero(),
        !metadata_address.spec_is_zero(),
    ensures
        r.kind == OpKind::AttachMetadataPointer,
        r.ix == protocol::metadata_pointer_ix_of(mint@, authority@, metadata_address@),
        addr_views(r.required_signers@) == Seq::<Seq<u8>>::empty(),
        r.amount is None,
        r.stated_precision is None,
        op_wf(r),
{
    let ix = protocol::metadata_pointer_ix(mint, authority, metadata_address);
    let required_signers: Vec<Address> = Vec::new();
    proof {
        assert(addr_views(required_signers@) =~= Seq::<Seq<u8>>::empty());
    }
    Operation {
        kind: OpKind::AttachMetadataPointer,
        ix,
        required_signers,
        amount: None,
        stated_precision: None,
    }
}

/// Every text field of the record is valid text for the interface.
pub open spec fn metadata_text_ok(record: MetadataRecord) -> bool {
    &&& protocol::utf8_ok(record.name@)
    &&& protocol::utf8_ok(record.symbol@)
    &&& protocol::utf8_ok(record.uri@)
}

/// An "initialize metadata record" operation: populates the record held
/// in `metadata_address` (the mint itself under a metadata pointer). The
/// mint authority must sign. Refuses text fields that are not valid text.
pub fn build_initialize_metadata(
    metadata_address: &Address,
    mint: &Address,
    mint_authority: &Address,
    record: &MetadataRecord,
) -> (r: Result<Operation, ProvisionError>)
    requires
        record.wf(),
    ensures
        match r {
            Ok(op) => metadata_text_ok(*record) && op.kind == OpKind::InitializeMetadata && op.ix
                == protocol::metadata_init_ix_of(
                metadata_address@,
                match record.update_authority {
                    Some(a) => a@,
                    None => mint_authority@,
                },
                mint@,
                mint_authority@,
                record.name@,
                record.symbol@,
                record.uri@,
            ) && addr_views(op.required_signers@) == seq![mint_authority@] && op.amount is None
                && op.stated_precision is None && op_wf(op),
            Err(e) => e == ProvisionError::MetadataNotUtf8 && !metadata_text_ok(*record),
        },
{
    let update_authority = match &record.update_authority {
        Some(a) => *a,
        None => *mint_authority,
    };
    let ix = match protocol::metadata_init_ix(
        metadata_address,
        &update_authority,
        mint,
        mint_authority,
        &record.name,
        &record.symbol,
        &record.uri,
    ) {
        Ok(ix) => ix,
        Err(e) => {
            return Err(e);
        },
    };
    let mut required_signers: Vec<Address> = Vec::new();
    required_signers.push(*mint_authority);
    proof {
        assert(addr_views(required_signers@) =~= seq![mint_authority@]);
    }
    Ok(
        Operation {
            kind: OpKind::InitializeMetadata,
            ix,
            required_signers,
            amount: None,
            stated_precision: None,
        },
    )
}

/// A "create derived holding account" operation for (owner, mint), paid
/// by `payer`; succeeds on the ledger whether or not the account already
/// exists. Returns the derived address beside the operation.
pub fn build_create_derived_account(payer: &Address, owner: &Address, mint: &Address) -> (r: (
    Operation,
    Address,
))
    ensures
        r.0.kind == OpKind::CreateDerivedAccount,
        r.0.ix == protocol::derived_account_ix_of(payer@, owner@, mint@),
        addr_views(r.0.required_signers@) == seq![payer@],
        r.0.amount is None,
        r.0.stated_precision is None,
        op_wf(r.0),
        r.1@ == protocol::derived_address_of(owner@, mint@),
{
    let derived = protocol::derived_address(owner, mint);
    let ix = protocol::create_derived_account_ix(payer, owner, mint);
    let mut required_signers: Vec<Address> = Vec::new();
    required_signers.push(*payer);
    proof {
        assert(addr_views(required_signers@) =~= seq![payer@]);
    }
    (
        Operation {
            kind: OpKind::CreateDerivedAccount,
            ix,
            required_signers,
            amount: None,
            stated_precision: None,
        },
        derived,
    )
}

/// A "fund account" operation moving `lamports` of the native balance
/// from `from` to `to`, signed by the sender.
pub fn build_fund_transfer(from: &Address, to: &Address, lamports: u64) -> (r: Operation)
    ensures
        r.kind == OpKind::FundTransfer,
        r.ix == protocol::transfer_lamports_ix_of(from@, to@, lamports),
        addr_views(r.required_signers@) == seq![from@],
        r.amount == Some(lamports),
        r.stated_precision is None,
        op_wf(r),
{
    let ix = protocol::transfer_lamports_ix(from, to, lamports);
    let mut required_signers: Vec<Address> = Vec::new();
    required_signers.push(*from);
    proof {
        assert(addr_views(required_signers@) =~= seq![from@]);
    }
    Operation {
        kind: OpKind::FundTransfer,
        ix,
        required_signers,
        amount: Some(lamports),
        stated_precision: None,
    }
}

/// A "mint units" operation issuing `whole_units` whole units, converted
/// to smallest units at the resource's declared precision, which the
/// operation restates so the protocol can refuse a stale precision.
pub fn build_mint_units(
    mint: &Address,
    destination: &Address,
    authority: &Address,
    whole_units: u64,
    decimals: u8,
) -> (r: Result<Operation, ProvisionError>)
    ensures
        match r {
            Ok(op) => op.kind == OpKind::MintUnits && op.amount == Some(
                (whole_units as nat * amounts::pow10(decimals as nat)) as u64,
            ) && base_units(whole_units, decimals) <= u64::MAX && op.ix == protocol::mint_to_ix_of(
                mint@,
                destination@,
                authority@,
                (whole_units as nat * amounts::pow10(decimals as nat)) as u64,
                decimals,
            ) && op.stated_precision == Some(decimals) && addr_views(op.required_signers@)
                == seq![authority@] && op_wf(op),
            Err(e) => (e == ProvisionError::InvalidPrecision && decimals > MAX_PRECISION) || (e
                == ProvisionError::AmountOverflow && decimals <= MAX_PRECISION && base_units(
                whole_units,
                decimals,
            ) > u64::MAX),
        },
{
    let amount = match amounts::to_base_units(whole_units, decimals) {
        Ok(a) => a,
        Err(e) => {
            return Err(e);
        },
    };
    let ix = protocol::mint_to_ix(mint, destination, authority, amount, decimals);
    let mut required_signers: Vec<Address> = Vec::new();
    required_signers.push(*authority);
    proof {
        assert(addr_views(required_signers@) =~= seq![authority@]);
    }
    Ok(
        Operation {
            kind: OpKind::MintUnits,
            ix,
            required_signers,
            amount: Some(amount),
            stated_precision: Some(decimals),
        },
    )
}

/// A "transfer units" operation moving `whole_units` whole units from
/// `source` to `destination`, converted at and restating the declared
/// precision.
pub fn build_transfer_units(
    source: &Address,
    mint: &Address,
    destination: &Address,
    authority: &Address,
    whole_units: u64,
    decimals: u8,
) -> (r: Result<Operation, ProvisionError>)
    ensures
        match r {
            Ok(op) => op.kind == OpKind::TransferUnits && op.amount == Some(
                (whole_units as nat * amounts::pow10(decimals as nat)) as u64,
            ) && base_units(whole_units, decimals) <= u64::MAX && op.ix == protocol::transfer_ix_of(
                source@,
                mint@,
                destination@,
                authority@,
                (whole_units as nat * amounts::pow10(decimals as nat)) as u64,
                decimals,
            ) && op.stated_precision == Some(decimals) && addr_views(op.required_signers@)
                == seq![authority@] && op_wf(op),
            Err(e) => (e == ProvisionError::InvalidPrecision && decimals > MAX_PRECISION) || (e
                == ProvisionError::AmountOverflow && decimals <= MAX_PRECISION && base_units(
                whole_units,
                decimals,
            ) > u64::MAX),
        },
{
    let amount = match amounts::to_base_units(whole_units, decimals) {
        Ok(a) => a,
        Err(e) => {
            return Err(e);
        },
    };
    let ix = protocol::transfer_ix(source, mint, destination, authority, amount, decimals);
    let mut required_signers: Vec<Address> = Vec::new();
    required_signers.push(*authority);
    proof {
        assert(addr_views(required_signers@) =~= seq![authority@]);
    }
    Ok(
        Operation {
            kind: OpKind::TransferUnits,
            ix,
            required_signers,
            amount: Some(amount),
            stated_precision: Some(decimals),
        },
    )
}

} // verus!
