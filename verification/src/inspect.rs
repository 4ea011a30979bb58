//! Decoding a mint resource read back from the ledger: the base layout's
//! precision, the declared extension tags in its type-length-value
//! region, and the metadata record when one is stored there.

use vstd::prelude::*;

use crate::errors::ProvisionError;
use crate::extensions::EXTENDED_BASE_LEN;
use crate::extensions::MINT_BASE_LEN;
use crate::metadata;
use crate::metadata::MetadataRecord;

verus! {

/// The numeric tag under which the metadata record itself is stored.
pub const METADATA_RECORD_TAG: u16 = 19;

/// Offset of the precision byte in the base mint layout.
pub const DECIMALS_OFFSET: usize = 44;

/// One entry of the type-length-value region: its tag and value bytes.
pub struct TlvEntry {
    pub tag: u16,
    pub value: Vec<u8>,
}

impl View for TlvEntry {
    type V = (u16, Seq<u8>);

    open spec fn view(&self) -> (u16, Seq<u8>) {
        (self.tag, self.value@)
    }
}

/// The value of two little-endian bytes.
pub open spec fn le16_val(b0: u8, b1: u8) -> u16 {
    (b0 as u16) | ((b1 as u16) << 8)
}

/// The entries of the type-length-value region of `s` from `pos` on. The
/// walk ends at the end of the data or at an uninitialized (zero) tag,
/// which pads the region.
pub open spec fn tlv_entries(s: Seq<u8>, pos: int) -> Option<Seq<(u16, Seq<u8>)>>
    decreases s.len() - pos,
{
    if pos == s.len() {
        Some(Seq::empty())
    } else if pos + 4 <= s.len() {
        let tag = le16_val(s[pos], s[pos + 1]);
        if tag == 0 {
            Some(Seq::empty())
        } else {
            let vlen = le16_val(s[pos + 2], s[pos + 3]) as int;
            if pos + 4 + vlen <= s.len() {
                match tlv_entries(s, pos + 4 + vlen) {
                    Some(rest) => Some(seq![(tag, s.subrange(pos + 4, pos + 4 + vlen))] + rest),
                    None => None,
                }
            } else {
                None
            }
        }
    } else {
        None
    }
}

/// Reads two little-endian bytes.
fn read_u16(data: &Vec<u8>, pos: usize) -> (r: u16)
    requires
        pos + 2 <= data@.len(),
    ensures
        r == le16_val(data@[pos as int], data@[pos as int + 1]),
{
    let dlen = data.len();
    proof {
        assert(pos + 2 <= dlen);
    }
    let b0 = data[pos];
    let b1 = data[pos + 1];
    (b0 as u16) | ((b1 as u16) << 8u16)
}

/// Walks the type-length-value region from `pos`.
fn read_tlv_entries(data: &Vec<u8>, pos: usize) -> (r: Option<Vec<TlvEntry>>)
    requires
        pos <= data@.len(),
    ensures
        match r {
            Some(es) => tlv_entries(data@, pos as int) == Some(
                es@.map_values(|e: TlvEntry| e@),
            ),
            None => tlv_entries(data@, pos as int) is None,
        },
    decreases data@.len() - pos,
{
    let dlen = data.len();
    if pos == dlen {
        let empty: Vec<TlvEntry> = Vec::new();
        proof {
            assert(empty@.map_values(|e: TlvEntry| e@) =~= Seq::<(u16, Seq<u8>)>::empty());
        }
        return Some(empty);
    }
    if dlen - pos < 4 {
        return None;
    }
    let tag = read_u16(data, pos);
    if tag == 0 {
        let empty: Vec<TlvEntry> = Vec::new();
        proof {
            assert(empty@.map_values(|e: TlvEntry| e@) =~= Seq::<(u16, Seq<u8>)>::empty());
        }
        return Some(empty);
    }
    let vlen = read_u16(data, pos + 2) as usize;
    if dlen - (pos + 4) < vlen {
        return None;
    }
    let mut value: Vec<u8> = Vec::new();
    let start = pos + 4;
    let mut i: usize = 0;
    while i < vlen
        invariant
            i <= vlen,
            start + vlen <= dlen,
            dlen == data@.len(),
            value@ == data@.subrange(start as int, start as int + i),
        decreases vlen - i,
    {
        value.push(data[start + i]);
        proof {
            assert(data@.subrange(start as int, start as int + i + 1) =~= data@.subrange(
                start as int,
                start as int + i,
            ).push(data@[start + i]));
        }
        i = i + 1;
    }
    match read_tlv_entries(data, start + vlen) {
        Some(rest) => {
            let ghost head = (tag, value@);
            let mut es = rest;
            es.insert(0, TlvEntry { tag, value });
            proof {
                assert(es@.map_values(|e: TlvEntry| e@) =~= seq![head]
                    + es@.drop_first().map_values(|e: TlvEntry| e@));
            }
            Some(es)
        },
        None => None,
    }
}

/// The declared extension tags of a region: every entry's tag except the
/// metadata record's own, which carries content rather than a declaration.
pub open spec fn declared_tags(es: Seq<(u16, Seq<u8>)>) -> Seq<u16>
    decreases es.len(),
{
    if es.len() == 0 {
        Seq::empty()
    } else {
        let head: Seq<u16> = if es[0].0 == METADATA_RECORD_TAG {
            Seq::empty()
        } else {
            seq![es[0].0]
        };
        head + declared_tags(es.drop_first())
    }
}

pub proof fn lemma_declared_tags_push(es: Seq<(u16, Seq<u8>)>, e: (u16, Seq<u8>))
    ensures
        declared_tags(es.push(e)) == declared_tags(es) + (if e.0 == METADATA_RECORD_TAG {
            Seq::<u16>::empty()
        } else {
            seq![e.0]
        }),
    decreases es.len(),
{
    let tail: Seq<u16> = if e.0 == METADATA_RECORD_TAG {
        Seq::empty()
    } else {
        seq![e.0]
    };
    if es.len() == 0 {
        assert(es.push(e)[0] == e);
        assert(es.push(e).drop_first() =~= es);
        assert(declared_tags(es) == Seq::<u16>::empty());
        assert(declared_tags(es.push(e)) =~= declared_tags(es) + tail);
    } else {
        assert(es.push(e)[0] == es[0]);
        assert(es.push(e).drop_first() =~= es.drop_first().push(e));
        lemma_declared_tags_push(es.drop_first(), e);
        assert(declared_tags(es.push(e)) =~= declared_tags(es) + tail);
    }
}

/// The metadata record a region stores: the first entry under the
/// record's tag whose payload is a well-formed packed record, if any.
pub open spec fn stored_metadata(es: Seq<(u16, Seq<u8>)>) -> Option<metadata::MetadataView>
    decreases es.len(),
{
    if es.len() == 0 {
        None
    } else if es[0].0 == METADATA_RECORD_TAG && metadata::spec_decode(es[0].1) is Some {
        metadata::spec_decode(es[0].1)
    } else {
        stored_metadata(es.drop_first())
    }
}

pub proof fn lemma_stored_metadata_push(es: Seq<(u16, Seq<u8>)>, e: (u16, Seq<u8>))
    ensures
        stored_metadata(es.push(e)) == if stored_metadata(es) is Some {
            stored_metadata(es)
        } else if e.0 == METADATA_RECORD_TAG && metadata::spec_decode(e.1) is Some {
            metadata::spec_decode(e.1)
        } else {
            None::<metadata::MetadataView>
        },
    decreases es.len(),
{
    if es.len() == 0 {
        assert(es.push(e)[0] == e);
        assert(es.push(e).drop_first() =~= es);
        assert(stored_metadata(es) is None);
    } else {
        assert(es.push(e)[0] == es[0]);
        assert(es.push(e).drop_first() =~= es.drop_first().push(e));
        lemma_stored_metadata_push(es.drop_first(), e);
    }
}

/// What an inspection of a mint resource reports: the declared precision,
/// every declared extension tag in order, and the stored metadata record
/// when the region holds one.
pub struct DecodedMint {
    pub decimals: u8,
    pub extension_tags: Vec<u16>,
    pub metadata: Option<MetadataRecord>,
}

/// Decodes raw mint account bytes: the precision from the base layout,
/// the extension tags declared in the type-length-value region (empty for
/// a plain base-length account), and the metadata record stored under its
/// own tag, if any. Fails exactly on bytes that are shorter than the base
/// layout or whose region does not parse, with the structured error.
pub fn inspect_mint_bytes(data: &Vec<u8>) -> (r: Result<DecodedMint, ProvisionError>)
    ensures
        r is Ok <==> data@.len() >= MINT_BASE_LEN && (data@.len() <= EXTENDED_BASE_LEN
            || tlv_entries(data@, EXTENDED_BASE_LEN as int) is Some),
        r matches Err(e) ==> e == ProvisionError::MalformedResource,
        r matches Ok(d) ==> {
            &&& d.decimals == data@[DECIMALS_OFFSET as int]
            &&& (data@.len() <= EXTENDED_BASE_LEN ==> d.extension_tags@ =~= Seq::<u16>::empty()
                && d.metadata is None)
            &&& (data@.len() > EXTENDED_BASE_LEN ==> {
                let es = tlv_entries(data@, EXTENDED_BASE_LEN as int).unwrap();
                &&& d.extension_tags@ == declared_tags(es)
                &&& (match d.metadata {
                    Some(rec) => stored_metadata(es) == Some(rec@),
                    None => stored_metadata(es) is None,
                })
            })
        },
{
    if data.len() < MINT_BASE_LEN {
        return Err(ProvisionError::MalformedResource);
    }
    let decimals = data[DECIMALS_OFFSET];
    if data.len() <= EXTENDED_BASE_LEN {
        return Ok(
            DecodedMint { decimals, extension_tags: Vec::new(), metadata: None },
        );
    }
    let entries = match read_tlv_entries(data, EXTENDED_BASE_LEN) {
        Some(es) => es,
        None => {
            return Err(ProvisionError::MalformedResource);
        },
    };
    let mut extension_tags: Vec<u16> = Vec::new();
    let mut metadata_record: Option<MetadataRecord> = None;
    let ghost es = entries@.map_values(|e: TlvEntry| e@);
    let mut i: usize = 0;
    while i < entries.len()
        invariant
            i <= entries@.len(),
            es == entries@.map_values(|e: TlvEntry| e@),
            extension_tags@ == declared_tags(es.take(i as int)),
            match metadata_record {
                Some(rec) => stored_metadata(es.take(i as int)) == Some(rec@),
                None => stored_metadata(es.take(i as int)) is None,
            },
        decreases entries.len() - i,
    {
        let entry = &entries[i];
        proof {
            assert(es[i as int] == entries@[i as int]@);
            assert(es.take((i + 1) as int) =~= es.take(i as int).push(es[i as int]));
            lemma_declared_tags_push(es.take(i as int), es[i as int]);
            lemma_stored_metadata_push(es.take(i as int), es[i as int]);
        }
        if entry.tag != METADATA_RECORD_TAG {
            extension_tags.push(entry.tag);
        }
        proof {
            assert(extension_tags@ =~= declared_tags(es.take((i + 1) as int)));
        }
        if entry.tag == METADATA_RECORD_TAG && matches!(metadata_record, None) {
            match metadata::decode_metadata(&entry.value) {
                Some(rec) => {
                    proof {
                        assert(es[i as int].1 == entry.value@);
                    }
                    metadata_record = Some(rec);
                },
                None => {},
            }
        }
        i = i + 1;
    }
    proof {
        assert(es.take(es.len() as int) =~= es);
        assert(tlv_entries(data@, EXTENDED_BASE_LEN as int) == Some(es));
    }
    Ok(DecodedMint { decimals, extension_tags, metadata: metadata_record })
}

} // verus!
