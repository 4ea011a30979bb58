//! The size calculator: the exact storage footprint of a mint resource
//! once its extension set is fixed, and the larger footprint that must be
//! rent-funded when a measured metadata record will live in the account.

use vstd::prelude::*;

use crate::errors::ProvisionError;
use crate::extensions::combination_allowed;
use crate::extensions::spec_account_len;
use crate::extensions::ExtensionSet;
use crate::extensions::EXTENDED_BASE_LEN;
use crate::metadata::spec_packed_len;
use crate::metadata::MetadataRecord;
use crate::metadata::MetadataView;
use crate::protocol;

verus! {

/// Bytes a variable-length metadata entry spends beside its payload: a
/// two-byte type tag and a two-byte length field.
pub const METADATA_ENTRY_OVERHEAD: usize = 4;

/// The storage footprint of a mint resource, fixed once computed. The
/// account is allocated at `account_len`; rent must cover
/// `rent_target_len`, which reserves room for a measured metadata record
/// when one will be attached.
pub struct ResourceLayout {
    pub account_len: usize,
    pub rent_target_len: usize,
}

/// Computes the byte length a mint with the given extensions requires.
/// Surfaces the protocol's exclusion rule instead of ignoring it.
pub fn calculate_mint_len(exts: &ExtensionSet) -> (r: Result<usize, ProvisionError>)
    requires
        exts.wf(),
    ensures
        match r {
            Ok(n) => combination_allowed(exts@) && n == spec_account_len(exts@),
            Err(e) => e == ProvisionError::UnsupportedExtensionCombination && !combination_allowed(
                exts@,
            ),
        },
{
    if !protocol::combination_ok(exts) {
        return Err(ProvisionError::UnsupportedExtensionCombination);
    }
    Ok(protocol::mint_account_len(exts))
}

/// Computes the layout of a mint that will also host a measured metadata
/// record: the account itself, and the rent target that adds the record's
/// entry overhead plus its measured packed length.
pub fn calculate_layout_with_metadata(exts: &ExtensionSet, record: &MetadataRecord) -> (r: Result<
    ResourceLayout,
    ProvisionError,
>)
    requires
        exts.wf(),
        record.wf(),
    ensures
        match r {
            Ok(l) => combination_allowed(exts@) && l.account_len == spec_account_len(exts@)
                && l.rent_target_len == spec_account_len(exts@) + METADATA_ENTRY_OVERHEAD
                + spec_packed_len(record@),
            Err(e) => (e == ProvisionError::UnsupportedExtensionCombination
                && !combination_allowed(exts@)) || (e == ProvisionError::AmountOverflow
                && combination_allowed(exts@) && spec_account_len(exts@) + METADATA_ENTRY_OVERHEAD
                + spec_packed_len(record@) > usize::MAX),
        },
{
    let account_len = match calculate_mint_len(exts) {
        Ok(n) => n,
        Err(e) => {
            return Err(e);
        },
    };
    let packed = crate::metadata::measured_packed_len(record);
    let with_entry = match packed.checked_add(METADATA_ENTRY_OVERHEAD) {
        Some(n) => n,
        None => {
            return Err(ProvisionError::AmountOverflow);
        },
    };
    let rent_target_len = match account_len.checked_add(with_entry) {
        Some(n) => n,
        None => {
            return Err(ProvisionError::AmountOverflow);
        },
    };
    Ok(ResourceLayout { account_len, rent_target_len })
}

/// A layout that hosts a metadata record reserves at least the extended
/// base, the record's entry header, and its full measured packed length.
pub proof fn lemma_metadata_footprint_lower_bound(exts: Seq<crate::extensions::ExtensionKind>, m: MetadataView)
    requires
        exts.len() > 0,
    ensures
        spec_account_len(exts) + METADATA_ENTRY_OVERHEAD + spec_packed_len(m) >= EXTENDED_BASE_LEN
            + 4 + spec_packed_len(m),
{
}

} // verus!
