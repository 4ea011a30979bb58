//! The provisioning scenarios as ordered operation sequences. Each plan
//! builds exactly the operations one atomic unit must carry, in the order
//! the protocol requires; the surrounding driver funds the payer, fetches
//! a freshness token, has the assembler sign the unit, and submits it.

use vstd::prelude::*;

use crate::assembler::kinds_of;
use crate::assembler::sequence_ok;
use crate::operations::addr_views;
use crate::operations::metadata_text_ok;
use crate::operations::op_wf;
use crate::protocol;
use crate::errors::ProvisionError;
use crate::identity::Address;
use crate::metadata::MetadataRecord;
use crate::operations;
use crate::operations::OpKind;
use crate::operations::Operation;

verus! {

/// The unit that realizes a plain mint: create the resource account with
/// the computed rent and size, then initialize its base layout with the
/// authority as mint and freeze authority and the requested precision, in
/// that order.
pub fn plan_plain_mint(
    authority: &Address,
    mint: &Address,
    rent: u64,
    space: u64,
    decimals: u8,
) -> (r: Result<Vec<Operation>, ProvisionError>)
    ensures
        match r {
            Ok(ops) => {
                &&& kinds_of(ops@) == seq![OpKind::CreateResource, OpKind::InitializeBase]
                &&& sequence_ok(kinds_of(ops@))
                &&& forall|i: int| 0 <= i < ops@.len() ==> op_wf(#[trigger] ops@[i])
                &&& ops@[0].ix == protocol::create_account_ix_of(authority@, mint@, rent, space)
                &&& addr_views(ops@[0].required_signers@) == seq![authority@, mint@]
                &&& ops@[1].ix == protocol::initialize_mint_ix_of(
                    mint@,
                    authority@,
                    Some(authority@),
                    decimals,
                )
                &&& ops@[1].stated_precision == Some(decimals)
                &&& decimals <= crate::amounts::MAX_PRECISION
            },
            Err(e) => e == ProvisionError::InvalidPrecision && decimals
                > crate::amounts::MAX_PRECISION,
        },
{
    let create = operations::build_create_resource(authority, mint, rent, space);
    let init = match operations::build_initialize_base(mint, authority, Some(authority), decimals) {
        Ok(op) => op,
        Err(e) => {
            return Err(e);
        },
    };
    let mut ops: Vec<Operation> = Vec::new();
    ops.push(create);
    ops.push(init);
    proof {
        assert(kinds_of(ops@) =~= seq![OpKind::CreateResource, OpKind::InitializeBase]);
    }
    Ok(ops)
}

/// The single atomic unit that realizes a metadata-attached mint: create
/// the resource account, declare the metadata-pointer extension naming
/// the mint itself as the metadata location, then initialize the base
/// layout, then populate the metadata record with the submitted name,
/// symbol and URI — in exactly that order, which the protocol's
/// constraint table demands. The authority and the mint must not be the
/// reserved all-zero address.
pub fn plan_metadata_mint(
    authority: &Address,
    mint: &Address,
    record: &MetadataRecord,
    rent: u64,
    space: u64,
    decimals: u8,
) -> (r: Result<Vec<Operation>, ProvisionError>)
    requires
        !authority.spec_is_zero(),
        !mint.spec_is_zero(),
        record.wf(),
    ensures
        match r {
            Ok(ops) => {
                &&& kinds_of(ops@) == seq![
                    OpKind::CreateResource,
                    OpKind::AttachMetadataPointer,
                    OpKind::InitializeBase,
                    OpKind::InitializeMetadata,
                ]
                &&& sequence_ok(kinds_of(ops@))
                &&& forall|i: int| 0 <= i < ops@.len() ==> op_wf(#[trigger] ops@[i])
                &&& ops@[0].ix == protocol::create_account_ix_of(authority@, mint@, rent, space)
                &&& addr_views(ops@[0].required_signers@) == seq![authority@, mint@]
                &&& ops@[1].ix == protocol::metadata_pointer_ix_of(mint@, authority@, mint@)
                &&& ops@[2].ix == protocol::initialize_mint_ix_of(
                    mint@,
                    authority@,
                    Some(authority@),
                    decimals,
                )
                &&& ops@[2].stated_precision == Some(decimals)
                &&& ops@[3].ix == protocol::metadata_init_ix_of(
                    mint@,
                    match record.update_authority {
                        Some(a) => a@,
                        None => authority@,
                    },
                    mint@,
                    authority@,
                    record.name@,
                    record.symbol@,
                    record.uri@,
                )
                &&& addr_views(ops@[3].required_signers@) == seq![authority@]
                &&& decimals <= crate::amounts::MAX_PRECISION
                &&& metadata_text_ok(*record)
            },
            Err(e) => (e == ProvisionError::InvalidPrecision && decimals
                > crate::amounts::MAX_PRECISION) || (e == ProvisionError::MetadataNotUtf8
                && decimals <= crate::amounts::MAX_PRECISION && !metadata_text_ok(*record)),
        },
        decimals > crate::amounts::MAX_PRECISION ==> r == Err::<Vec<Operation>, ProvisionError>(
            ProvisionError::InvalidPrecision,
        ),
        decimals <= crate::amounts::MAX_PRECISION && !metadata_text_ok(*record) ==> r == Err::<
            Vec<Operation>,
            ProvisionError,
        >(ProvisionError::MetadataNotUtf8),
{
    let create = operations::build_create_resource(authority, mint, rent, space);
    let attach = operations::build_attach_metadata_pointer(mint, authority, mint);
    let init = match operations::build_initialize_base(mint, authority, Some(authority), decimals) {
        Ok(op) => op,
        Err(e) => {
            return Err(e);
        },
    };
    let populate = match operations::build_initialize_metadata(mint, mint, authority, record) {
        Ok(op) => op,
        Err(e) => {
            return Err(e);
        },
    };
    let mut ops: Vec<Operation> = Vec::new();
    ops.push(create);
    ops.push(attach);
    ops.push(init);
    ops.push(populate);
    proof {
        assert(kinds_of(ops@) =~= seq![
            OpKind::CreateResource,
            OpKind::AttachMetadataPointer,
            OpKind::InitializeBase,
            OpKind::InitializeMetadata,
        ]);
    }
    Ok(ops)
}

/// The unit that gives `owner` a derived holding account for `mint`,
/// idempotently, and the derived address it will live at.
pub fn plan_derived_account(payer: &Address, owner: &Address, mint: &Address) -> (r: (
    Vec<Operation>,
    Address,
))
    ensures
        kinds_of(r.0@) == seq![OpKind::CreateDerivedAccount],
        sequence_ok(kinds_of(r.0@)),
        forall|i: int| 0 <= i < r.0@.len() ==> op_wf(#[trigger] r.0@[i]),
        r.0@[0].ix == protocol::derived_account_ix_of(payer@, owner@, mint@),
        addr_views(r.0@[0].required_signers@) == seq![payer@],
        r.1@ == crate::protocol::derived_address_of(owner@, mint@),
{
    let (op, derived) = operations::build_create_derived_account(payer, owner, mint);
    let mut ops: Vec<Operation> = Vec::new();
    ops.push(op);
    proof {
        assert(kinds_of(ops@) =~= seq![OpKind::CreateDerivedAccount]);
    }
    (ops, derived)
}

} // verus!
