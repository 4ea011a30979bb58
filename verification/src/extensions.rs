//! The extension model of a mint resource: which optional extensions are
//! selected, how many bytes each occupies, and the total account length
//! the protocol requires once they are attached.

use vstd::prelude::*;

verus! {

/// The optional extensions this pipeline can declare on a mint resource.
/// Each occupies a fixed-length value in the resource's type-length-value
/// region.
#[derive(Clone, Copy, Debug, PartialEq, Eq, Structural)]
pub enum ExtensionKind {
    /// Points at the account that holds the resource's metadata record.
    MetadataPointer,
    /// An authority allowed to close the mint.
    MintCloseAuthority,
    /// A delegate with permanent transfer and burn rights.
    PermanentDelegate,
    /// Fee configuration applied to every transfer.
    TransferFeeConfig,
    /// Configuration for confidential transfers.
    ConfidentialTransferMint,
    /// Fee configuration for confidential transfers.
    ConfidentialTransferFeeConfig,
}

/// Packed byte length of the extension's fixed-length value.
pub open spec fn value_len(k: ExtensionKind) -> nat {
    match k {
        ExtensionKind::MetadataPointer => 64,
        ExtensionKind::MintCloseAuthority => 32,
        ExtensionKind::PermanentDelegate => 32,
        ExtensionKind::TransferFeeConfig => 108,
        ExtensionKind::ConfidentialTransferMint => 65,
        ExtensionKind::ConfidentialTransferFeeConfig => 129,
    }
}

/// The protocol's numeric tag for each extension kind, as written in the
/// type field of its type-length-value entry.
pub open spec fn spec_kind_code(k: ExtensionKind) -> u16 {
    match k {
        ExtensionKind::MetadataPointer => 18,
        ExtensionKind::MintCloseAuthority => 3,
        ExtensionKind::PermanentDelegate => 12,
        ExtensionKind::TransferFeeConfig => 1,
        ExtensionKind::ConfidentialTransferMint => 4,
        ExtensionKind::ConfidentialTransferFeeConfig => 16,
    }
}

pub fn kind_code(k: ExtensionKind) -> (r: u16)
    ensures
        r == spec_kind_code(k),
{
    match k {
        ExtensionKind::MetadataPointer => 18,
        ExtensionKind::MintCloseAuthority => 3,
        ExtensionKind::PermanentDelegate => 12,
        ExtensionKind::TransferFeeConfig => 1,
        ExtensionKind::ConfidentialTransferMint => 4,
        ExtensionKind::ConfidentialTransferFeeConfig => 16,
    }
}

/// Per-extension overhead in the account: a two-byte type tag, a two-byte
/// length field, then the value itself.
pub open spec fn tlv_len(k: ExtensionKind) -> nat {
    4 + value_len(k)
}

/// Total bytes the selected extensions occupy.
pub open spec fn tlv_sum(exts: Seq<ExtensionKind>) -> nat
    decreases exts.len(),
{
    if exts.len() == 0 {
        0
    } else {
        tlv_len(exts[0]) + tlv_sum(exts.drop_first())
    }
}

/// Byte length of a mint resource without extensions.
pub const MINT_BASE_LEN: usize = 82;

/// Byte length an extended resource reserves before its first extension:
/// the padded base record plus the account-type byte.
pub const EXTENDED_BASE_LEN: usize = 166;

/// Byte length of a multisignature record; an extended account is never
/// left at exactly this length, so two more bytes are reserved there.
pub const MULTISIG_LEN: usize = 355;

/// The account length the protocol requires for a mint with the given
/// extensions: the plain base record when none is selected, otherwise the
/// extended base plus every extension's tagged value, avoiding the
/// multisignature length.
pub open spec fn spec_account_len(exts: Seq<ExtensionKind>) -> nat {
    if exts.len() == 0 {
        MINT_BASE_LEN as nat
    } else if EXTENDED_BASE_LEN + tlv_sum(exts) == MULTISIG_LEN {
        MULTISIG_LEN as nat + 2
    } else {
        EXTENDED_BASE_LEN as nat + tlv_sum(exts)
    }
}

/// No extension tag occurs twice.
pub open spec fn distinct_kinds(exts: Seq<ExtensionKind>) -> bool {
    forall|i: int, j: int| 0 <= i < j < exts.len() ==> exts[i] != exts[j]
}

/// The protocol's rule for mutually exclusive mint extensions: the
/// confidential fee configuration requires both the transfer fee and the
/// confidential transfer configurations, and conversely those two together
/// require it.
pub open spec fn combination_allowed(exts: Seq<ExtensionKind>) -> bool {
    let fee = exts.contains(ExtensionKind::TransferFeeConfig);
    let conf = exts.contains(ExtensionKind::ConfidentialTransferMint);
    let conf_fee = exts.contains(ExtensionKind::ConfidentialTransferFeeConfig);
    &&& (conf_fee ==> fee && conf)
    &&& (fee && conf ==> conf_fee)
}

/// An ordered set of extension tags, fixed before the base size of the
/// resource is computed. No tag occurs twice.
pub struct ExtensionSet {
    kinds: Vec<ExtensionKind>,
}

impl ExtensionSet {
    pub closed spec fn view(&self) -> Seq<ExtensionKind> {
        self.kinds@
    }

    pub open spec fn wf(&self) -> bool {
        distinct_kinds(self@)
    }

    pub fn new() -> (r: ExtensionSet)
        ensures
            r.wf(),
            r@ == Seq::<ExtensionKind>::empty(),
    {
        ExtensionSet { kinds: Vec::new() }
    }

    pub fn contains(&self, k: ExtensionKind) -> (r: bool)
        ensures
            r == self@.contains(k),
    {
        let mut i: usize = 0;
        while i < self.kinds.len()
            invariant
                i <= self.kinds.len(),
                forall|j: int| 0 <= j < i ==> self.kinds@[j] != k,
            decreases self.kinds.len() - i,
        {
            if self.kinds[i] == k {
                return true;
            }
            i = i + 1;
        }
        false
    }

    /// Adds a tag; selecting a tag twice leaves the set unchanged.
    pub fn select(&mut self, k: ExtensionKind)
        requires
            old(self).wf(),
        ensures
            final(self).wf(),
            final(self)@ == if old(self)@.contains(k) {
                old(self)@
            } else {
                old(self)@.push(k)
            },
    {
        if !self.contains(k) {
            self.kinds.push(k);
        }
    }

    pub fn len(&self) -> (r: usize)
        ensures
            r == self@.len(),
    {
        self.kinds.len()
    }

    pub fn kind_at(&self, i: usize) -> (r: ExtensionKind)
        requires
            i < self@.len(),
        ensures
            r == self@[i as int],
    {
        self.kinds[i]
    }
}

/// Appending one more extension adds exactly that extension's tagged
/// length to the running total.
pub proof fn lemma_tlv_sum_push(exts: Seq<ExtensionKind>, k: ExtensionKind)
    ensures
        tlv_sum(exts.push(k)) == tlv_sum(exts) + tlv_len(k),
    decreases exts.len(),
{
    if exts.len() == 0 {
        assert(exts.push(k)[0] == k);
        assert(exts.push(k).drop_first() =~= Seq::<ExtensionKind>::empty());
    } else {
        assert(exts.push(k)[0] == exts[0]);
        assert(exts.push(k).drop_first() =~= exts.drop_first().push(k));
        lemma_tlv_sum_push(exts.drop_first(), k);
    }
}

/// The computed account length of a nonempty extension set is exactly the
/// extended base length plus the sum of the per-extension overheads,
/// except at the reserved multisignature length.
pub proof fn lemma_account_len_is_base_plus_overheads(exts: Seq<ExtensionKind>)
    requires
        exts.len() > 0,
        EXTENDED_BASE_LEN + tlv_sum(exts) != MULTISIG_LEN,
    ensures
        spec_account_len(exts) == EXTENDED_BASE_LEN + tlv_sum(exts),
{
}


/// Splitting out one element splits the sum.
proof fn lemma_tlv_sum_remove(s: Seq<ExtensionKind>, i: int)
    requires
        0 <= i < s.len(),
    ensures
        tlv_sum(s) == tlv_len(s[i]) + tlv_sum(s.remove(i)),
    decreases i,
{
    if i == 0 {
        assert(s.remove(0) =~= s.drop_first());
    } else {
        assert(s.remove(i)[0] == s[0]);
        assert(s.remove(i).drop_first() =~= s.drop_first().remove(i - 1));
        lemma_tlv_sum_remove(s.drop_first(), i - 1);
        assert(s.drop_first()[i - 1] == s[i]);
    }
}

/// A duplicate-free selection that only draws from `larger` occupies at
/// most as many bytes.
pub proof fn lemma_tlv_sum_subset(smaller: Seq<ExtensionKind>, larger: Seq<ExtensionKind>)
    requires
        distinct_kinds(smaller),
        distinct_kinds(larger),
        forall|i: int| 0 <= i < smaller.len() ==> larger.contains(#[trigger] smaller[i]),
    ensures
        tlv_sum(smaller) <= tlv_sum(larger),
    decreases smaller.len(),
{
    if smaller.len() > 0 {
        let x = smaller[0];
        assert(larger.contains(x));
        let j = choose|j: int| 0 <= j < larger.len() && larger[j] == x;
        lemma_tlv_sum_remove(larger, j);
        let rest = smaller.drop_first();
        let shrunk = larger.remove(j);
        assert forall|a: int, b: int| 0 <= a < b < shrunk.len() implies shrunk[a] != shrunk[b] by {
            let a0 = if a < j {
                a
            } else {
                a + 1
            };
            let b0 = if b < j {
                b
            } else {
                b + 1
            };
            assert(shrunk[a] == larger[a0]);
            assert(shrunk[b] == larger[b0]);
        }
        assert forall|i: int| 0 <= i < rest.len() implies shrunk.contains(#[trigger] rest[i]) by {
            let y = rest[i];
            assert(y == smaller[i + 1]);
            assert(y != x);
            assert(larger.contains(y));
            let m = choose|m: int| 0 <= m < larger.len() && larger[m] == y;
            assert(m != j);
            if m < j {
                assert(shrunk[m] == y);
            } else {
                assert(shrunk[m - 1] == y);
            }
        }
        lemma_tlv_sum_subset(rest, shrunk);
    }
}

/// Any duplicate-free extension set drawn from another never needs more
/// bytes than the larger set, so selecting further extensions never
/// decreases the computed account length; the one exception left out is a
/// smaller set that lands exactly on the reserved multisignature length,
/// where the protocol steps two bytes further.
pub proof fn lemma_account_len_subset_monotone(
    smaller: Seq<ExtensionKind>,
    larger: Seq<ExtensionKind>,
)
    requires
        distinct_kinds(smaller),
        distinct_kinds(larger),
        forall|i: int| 0 <= i < smaller.len() ==> larger.contains(#[trigger] smaller[i]),
        EXTENDED_BASE_LEN + tlv_sum(smaller) != MULTISIG_LEN,
    ensures
        spec_account_len(smaller) <= spec_account_len(larger),
{
    lemma_tlv_sum_subset(smaller, larger);
    if smaller.len() > 0 {
        assert(larger.contains(smaller[0]));
        assert(larger.len() > 0);
    }
}

/// Selecting one more extension never decreases the computed account
/// length.
pub proof fn lemma_account_len_monotone(exts: Seq<ExtensionKind>, k: ExtensionKind)
    ensures
        spec_account_len(exts.push(k)) >= spec_account_len(exts),
{
    lemma_tlv_sum_push(exts, k);
}

} // verus!
