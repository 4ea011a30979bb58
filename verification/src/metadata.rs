//! The variable-length metadata record attached to a mint resource, and
//! its packed byte form: a 32-byte optional update authority (all zero
//! when absent), the 32-byte owning mint, three length-prefixed text
//! fields, and a counted list of length-prefixed key/value pairs. Packed
//! lengths are measured from this encoding, never assumed.

use vstd::prelude::*;

use crate::identity::Address;

verus! {

/// One free-form key/value entry of a metadata record.
pub struct MetadataPair {
    pub key: Vec<u8>,
    pub value: Vec<u8>,
}

impl View for MetadataPair {
    type V = (Seq<u8>, Seq<u8>);

    open spec fn view(&self) -> (Seq<u8>, Seq<u8>) {
        (self.key@, self.value@)
    }
}

/// A metadata record: update authority (absent encodes as zero), owning
/// mint, name, symbol, URI and additional key/value pairs. The text
/// fields are byte strings; the interface layer checks them for valid
/// text when an operation is built from them.
pub struct MetadataRecord {
    pub update_authority: Option<Address>,
    pub mint: Address,
    pub name: Vec<u8>,
    pub symbol: Vec<u8>,
    pub uri: Vec<u8>,
    pub additional: Vec<MetadataPair>,
}

/// The mathematical content of a metadata record.
pub ghost struct MetadataView {
    pub update_authority: Option<Seq<u8>>,
    pub mint: Seq<u8>,
    pub name: Seq<u8>,
    pub symbol: Seq<u8>,
    pub uri: Seq<u8>,
    pub additional: Seq<(Seq<u8>, Seq<u8>)>,
}

impl View for MetadataRecord {
    type V = MetadataView;

    open spec fn view(&self) -> MetadataView {
        MetadataView {
            update_authority: match self.update_authority {
                Some(a) => Some(a@),
                None => None,
            },
            mint: self.mint@,
            name: self.name@,
            symbol: self.symbol@,
            uri: self.uri@,
            additional: self.additional@.map_values(|p: MetadataPair| p@),
        }
    }
}

/// The all-zero 32-byte field that stands for an absent authority.
pub open spec fn zero32() -> Seq<u8> {
    Seq::new(32, |i: int| 0u8)
}

pub open spec fn wf_view(m: MetadataView) -> bool {
    &&& (m.update_authority matches Some(a) ==> a.len() == 32 && a != zero32())
    &&& m.name.len() <= u32::MAX
    &&& m.symbol.len() <= u32::MAX
    &&& m.uri.len() <= u32::MAX
    &&& m.additional.len() <= u32::MAX
    &&& forall|i: int|
        0 <= i < m.additional.len() ==> (#[trigger] m.additional[i]).0.len() <= u32::MAX
            && m.additional[i].1.len() <= u32::MAX
}

impl MetadataRecord {
    /// A record fit for encoding: a stated update authority is not the
    /// reserved zero value, and every variable-length field fits its
    /// four-byte length prefix.
    pub open spec fn wf(&self) -> bool {
        wf_view(self@)
    }
}

/// Byte `k` of the little-endian form of `n`. Kept opaque so that
/// reasoning about encoded layouts stays symbolic; revealed only where
/// byte values matter.
#[verifier::opaque]
pub open spec fn le_byte(n: u32, k: int) -> u8 {
    if k == 0 {
        (n & 0xff) as u8
    } else if k == 1 {
        ((n >> 8) & 0xff) as u8
    } else if k == 2 {
        ((n >> 16) & 0xff) as u8
    } else {
        ((n >> 24) & 0xff) as u8
    }
}

/// The four little-endian bytes of `n`.
pub open spec fn le_bytes(n: u32) -> Seq<u8> {
    seq![le_byte(n, 0), le_byte(n, 1), le_byte(n, 2), le_byte(n, 3)]
}

/// The value of four little-endian bytes.
pub open spec fn le_val(b0: u8, b1: u8, b2: u8, b3: u8) -> u32 {
    (b0 as u32) | ((b1 as u32) << 8) | ((b2 as u32) << 16) | ((b3 as u32) << 24)
}

pub proof fn lemma_le_roundtrip(n: u32)
    ensures
        le_val(
            (n & 0xff) as u8,
            ((n >> 8) & 0xff) as u8,
            ((n >> 16) & 0xff) as u8,
            ((n >> 24) & 0xff) as u8,
        ) == n,
{
    assert(((n & 0xff) as u8 as u32) | (((n >> 8) & 0xff) as u8 as u32) << 8 | (((n >> 16)
        & 0xff) as u8 as u32) << 16 | (((n >> 24) & 0xff) as u8 as u32) << 24 == n)
        by (bit_vector);
}

/// A byte field as encoded: its length, then its bytes.
pub open spec fn enc_field(b: Seq<u8>) -> Seq<u8> {
    le_bytes(b.len() as u32) + b
}

/// The key/value pairs as encoded, in order.
pub open spec fn enc_pairs(ps: Seq<(Seq<u8>, Seq<u8>)>) -> Seq<u8>
    decreases ps.len(),
{
    if ps.len() == 0 {
        Seq::empty()
    } else {
        enc_field(ps[0].0) + enc_field(ps[0].1) + enc_pairs(ps.drop_first())
    }
}

pub open spec fn auth_field(a: Option<Seq<u8>>) -> Seq<u8> {
    match a {
        Some(s) => s,
        None => zero32(),
    }
}

/// The packed byte form of a metadata record.
pub open spec fn spec_encode(m: MetadataView) -> Seq<u8> {
    auth_field(m.update_authority) + m.mint + enc_field(m.name) + enc_field(m.symbol) + enc_field(
        m.uri,
    ) + le_bytes(m.additional.len() as u32) + enc_pairs(m.additional)
}

/// The measured packed length of a record is its encoding's length.
pub open spec fn spec_packed_len(m: MetadataView) -> nat {
    spec_encode(m).len()
}

pub proof fn lemma_enc_pairs_push(ps: Seq<(Seq<u8>, Seq<u8>)>, p: (Seq<u8>, Seq<u8>))
    ensures
        enc_pairs(ps.push(p)) == enc_pairs(ps) + enc_field(p.0) + enc_field(p.1),
    decreases ps.len(),
{
    if ps.len() == 0 {
        assert(ps.push(p)[0] == p);
        assert(ps.push(p).drop_first() =~= ps);
        assert(enc_pairs(ps) == Seq::<u8>::empty());
        assert(enc_pairs(ps.push(p)) == enc_field(p.0) + enc_field(p.1) + enc_pairs(ps));
        assert(enc_pairs(ps.push(p)) =~= enc_pairs(ps) + enc_field(p.0) + enc_field(p.1));
    } else {
        assert(ps.push(p)[0] == ps[0]);
        assert(ps.push(p).drop_first() =~= ps.drop_first().push(p));
        lemma_enc_pairs_push(ps.drop_first(), p);
        assert(enc_pairs(ps.push(p)) =~= enc_pairs(ps) + enc_field(p.0) + enc_field(p.1));
    }
}

/// Appends the four little-endian bytes of `n`.
fn push_u32(out: &mut Vec<u8>, n: u32)
    ensures
        final(out)@ == old(out)@ + le_bytes(n),
{
    out.push((n & 0xff) as u8);
    out.push(((n >> 8) & 0xff) as u8);
    out.push(((n >> 16) & 0xff) as u8);
    out.push(((n >> 24) & 0xff) as u8);
    proof {
        reveal(le_byte);
        assert(out@ =~= old(out)@ + le_bytes(n));
    }
}

/// Appends a length-prefixed byte field.
fn push_field(out: &mut Vec<u8>, b: &Vec<u8>)
    requires
        b@.len() <= u32::MAX,
    ensures
        final(out)@ == old(out)@ + enc_field(b@),
{
    push_u32(out, b.len() as u32);
    let mut i: usize = 0;
    while i < b.len()
        invariant
            i <= b.len(),
            out@ == old(out)@ + le_bytes(b@.len() as u32) + b@.take(i as int),
        decreases b.len() - i,
    {
        out.push(b[i]);
        proof {
            assert(b@.take((i + 1) as int) =~= b@.take(i as int).push(b@[i as int]));
            assert(out@ =~= old(out)@ + le_bytes(b@.len() as u32) + b@.take((i + 1) as int));
        }
        i = i + 1;
    }
    proof {
        assert(b@.take(b@.len() as int) =~= b@);
        assert(out@ =~= old(out)@ + enc_field(b@));
    }
}

/// Appends the 32 bytes of the authority field.
fn push_auth(out: &mut Vec<u8>, a: &Option<Address>)
    ensures
        final(out)@ == old(out)@ + auth_field(match a {
            Some(ad) => Some(ad@),
            None => None,
        }),
{
    match a {
        Some(ad) => {
            let bytes = ad.to_bytes();
            let mut i: usize = 0;
            while i < 32
                invariant
                    i <= 32,
                    bytes@ == ad@,
                    out@ == old(out)@ + ad@.take(i as int),
                decreases 32 - i,
            {
                out.push(bytes[i]);
                proof {
                    assert(ad@.take((i + 1) as int) =~= ad@.take(i as int).push(ad@[i as int]));
                    assert(out@ =~= old(out)@ + ad@.take((i + 1) as int));
                }
                i = i + 1;
            }
            proof {
                assert(ad@.take(32) =~= ad@);
            }
        }
        None => {
            let mut i: usize = 0;
            while i < 32
                invariant
                    i <= 32,
                    out@ == old(out)@ + zero32().take(i as int),
                decreases 32 - i,
            {
                out.push(0u8);
                proof {
                    assert(zero32().take((i + 1) as int) =~= zero32().take(i as int).push(0u8));
                    assert(out@ =~= old(out)@ + zero32().take((i + 1) as int));
                }
                i = i + 1;
            }
            proof {
                assert(zero32().take(32) =~= zero32());
            }
        }
    }
}

/// Serializes a record into its packed byte form.
pub fn encode_metadata(m: &MetadataRecord) -> (r: Vec<u8>)
    requires
        m.wf(),
    ensures
        r@ == spec_encode(m@),
{
    let mut out: Vec<u8> = Vec::new();
    push_auth(&mut out, &m.update_authority);
    let mint_bytes = m.mint.to_bytes();
    let mut i: usize = 0;
    while i < 32
        invariant
            i <= 32,
            mint_bytes@ == m.mint@,
            out@ == auth_field(m@.update_authority) + m.mint@.take(i as int),
        decreases 32 - i,
    {
        out.push(mint_bytes[i]);
        proof {
            assert(m.mint@.take((i + 1) as int) =~= m.mint@.take(i as int).push(m.mint@[i as int]));
            assert(out@ =~= auth_field(m@.update_authority) + m.mint@.take((i + 1) as int));
        }
        i = i + 1;
    }
    proof {
        assert(m.mint@.take(32) =~= m.mint@);
    }
    push_field(&mut out, &m.name);
    push_field(&mut out, &m.symbol);
    push_field(&mut out, &m.uri);
    push_u32(&mut out, m.additional.len() as u32);
    let ghost prefix = out@;
    let mut j: usize = 0;
    while j < m.additional.len()
        invariant
            j <= m.additional.len(),
            m.wf(),
            out@ == prefix + enc_pairs(m@.additional.take(j as int)),
        decreases m.additional.len() - j,
    {
        proof {
            assert(m@.additional[j as int] == m.additional@[j as int]@);
            assert(m@.additional.take((j + 1) as int) =~= m@.additional.take(j as int).push(
                m@.additional[j as int],
            ));
            lemma_enc_pairs_push(m@.additional.take(j as int), m@.additional[j as int]);
        }
        push_field(&mut out, &m.additional[j].key);
        push_field(&mut out, &m.additional[j].value);
        proof {
            assert(out@ =~= prefix + enc_pairs(m@.additional.take((j + 1) as int)));
        }
        j = j + 1;
    }
    proof {
        assert(m@.additional.take(m.additional@.len() as int) =~= m@.additional);
        assert(out@ =~= spec_encode(m@));
    }
    out
}

/// Measures the packed length of a record from its actual encoding.
pub fn measured_packed_len(m: &MetadataRecord) -> (r: usize)
    requires
        m.wf(),
    ensures
        r == spec_packed_len(m@),
{
    let bytes = encode_metadata(m);
    bytes.len()
}


/// A four-byte little-endian value read at `pos`.
pub open spec fn dec_u32_at(s: Seq<u8>, pos: int) -> Option<(u32, int)> {
    if 0 <= pos && pos + 4 <= s.len() {
        Some((le_val(s[pos], s[pos + 1], s[pos + 2], s[pos + 3]), pos + 4))
    } else {
        None
    }
}

/// A length-prefixed byte field read at `pos`.
pub open spec fn dec_field_at(s: Seq<u8>, pos: int) -> Option<(Seq<u8>, int)> {
    match dec_u32_at(s, pos) {
        Some((n, p)) => if p + n <= s.len() {
            Some((s.subrange(p, p + n), p + n))
        } else {
            None
        },
        None => None,
    }
}

/// `count` key/value pairs read at `pos`.
pub open spec fn dec_pairs_at(s: Seq<u8>, pos: int, count: nat) -> Option<
    (Seq<(Seq<u8>, Seq<u8>)>, int),
>
    decreases count,
{
    if count == 0 {
        Some((Seq::empty(), pos))
    } else {
        match dec_field_at(s, pos) {
            Some((k, p1)) => match dec_field_at(s, p1) {
                Some((v, p2)) => match dec_pairs_at(s, p2, (count - 1) as nat) {
                    Some((rest, p3)) => Some((seq![(k, v)] + rest, p3)),
                    None => None,
                },
                None => None,
            },
            None => None,
        }
    }
}

/// The record whose packed form is exactly `s`, if any.
pub open spec fn spec_decode(s: Seq<u8>) -> Option<MetadataView> {
    if s.len() < 64 {
        None
    } else {
        let auth = s.subrange(0, 32);
        let mint = s.subrange(32, 64);
        match dec_field_at(s, 64) {
            Some((name, p1)) => match dec_field_at(s, p1) {
                Some((symbol, p2)) => match dec_field_at(s, p2) {
                    Some((uri, p3)) => match dec_u32_at(s, p3) {
                        Some((count, p4)) => match dec_pairs_at(s, p4, count as nat) {
                            Some((pairs, p5)) => if p5 == s.len() {
                                Some(
                                    MetadataView {
                                        update_authority: if auth == zero32() {
                                            None
                                        } else {
                                            Some(auth)
                                        },
                                        mint,
                                        name,
                                        symbol,
                                        uri,
                                        additional: pairs,
                                    },
                                )
                            } else {
                                None
                            },
                            None => None,
                        },
                        None => None,
                    },
                    None => None,
                },
                None => None,
            },
            None => None,
        }
    }
}

proof fn lemma_dec_u32_after(pre: Seq<u8>, n: u32, suf: Seq<u8>)
    ensures
        dec_u32_at(pre + le_bytes(n) + suf, pre.len() as int) == Some::<(u32, int)>(
            (n, pre.len() + 4int),
        ),
{
    reveal(le_byte);
    let s = pre + le_bytes(n) + suf;
    assert(s[pre.len() as int] == (n & 0xff) as u8);
    assert(s[pre.len() + 1int] == ((n >> 8) & 0xff) as u8);
    assert(s[pre.len() + 2int] == ((n >> 16) & 0xff) as u8);
    assert(s[pre.len() + 3int] == ((n >> 24) & 0xff) as u8);
    lemma_le_roundtrip(n);
    assert(dec_u32_at(s, pre.len() as int) == Some::<(u32, int)>((n, pre.len() + 4int)));
}

proof fn lemma_dec_field_after(pre: Seq<u8>, b: Seq<u8>, suf: Seq<u8>)
    requires
        b.len() <= u32::MAX,
    ensures
        dec_field_at(pre + enc_field(b) + suf, pre.len() as int) == Some::<(Seq<u8>, int)>(
            (b, pre.len() + 4int + b.len()),
        ),
{
    let s = pre + enc_field(b) + suf;
    assert(s =~= pre + le_bytes(b.len() as u32) + (b + suf));
    lemma_dec_u32_after(pre, b.len() as u32, b + suf);
    assert((b.len() as u32) as int == b.len() as int);
    let p = pre.len() + 4int;
    assert(p + b.len() as int <= s.len());
    assert(s.subrange(p, p + b.len() as int) =~= b);
}

#[verifier::rlimit(100)]
#[verifier::spinoff_prover]
proof fn lemma_dec_pairs_after(pre: Seq<u8>, ps: Seq<(Seq<u8>, Seq<u8>)>, suf: Seq<u8>)
    requires
        forall|i: int|
            0 <= i < ps.len() ==> (#[trigger] ps[i]).0.len() <= u32::MAX && ps[i].1.len()
                <= u32::MAX,
    ensures
        dec_pairs_at(pre + enc_pairs(ps) + suf, pre.len() as int, ps.len()) == Some::<
            (Seq<(Seq<u8>, Seq<u8>)>, int),
        >((ps, pre.len() as int + enc_pairs(ps).len())),
    decreases ps.len(),
{
    let s = pre + enc_pairs(ps) + suf;
    if ps.len() == 0 {
        assert(enc_pairs(ps) == Seq::<u8>::empty());
        assert(s =~= pre + suf);
    } else {
        let k = ps[0].0;
        let v = ps[0].1;
        let rest = ps.drop_first();
        assert(enc_pairs(ps) == enc_field(k) + enc_field(v) + enc_pairs(rest));
        assert(s =~= pre + enc_field(k) + (enc_field(v) + enc_pairs(rest) + suf));
        lemma_dec_field_after(pre, k, enc_field(v) + enc_pairs(rest) + suf);
        let pre1 = pre + enc_field(k);
        assert(s =~= pre1 + enc_field(v) + (enc_pairs(rest) + suf));
        lemma_dec_field_after(pre1, v, enc_pairs(rest) + suf);
        let pre2 = pre1 + enc_field(v);
        assert(s =~= pre2 + enc_pairs(rest) + suf);
        lemma_dec_pairs_after(pre2, rest, suf);
        assert(dec_field_at(s, pre.len() as int) == Some::<(Seq<u8>, int)>(
            (k, pre1.len() as int),
        ));
        assert(dec_field_at(s, pre1.len() as int) == Some::<(Seq<u8>, int)>(
            (v, pre2.len() as int),
        ));
        assert((k, v) == ps[0]);
        assert(seq![(k, v)] + rest =~= ps);
        assert(pre2.len() + enc_pairs(rest).len() == pre.len() + enc_pairs(ps).len());
    }
}

/// Round trip: decoding the packed form of a well-formed record gives the
/// record back.
#[verifier::rlimit(100)]
#[verifier::spinoff_prover]
pub proof fn lemma_decode_encode(m: MetadataView)
    requires
        wf_view(m),
        m.mint.len() == 32,
    ensures
        spec_decode(spec_encode(m)) == Some(m),
{
    let s = spec_encode(m);
    let a = auth_field(m.update_authority);
    assert(a.len() == 32);
    assert(s.len() >= 64);
    assert(s.subrange(0, 32) =~= a);
    assert(s.subrange(32, 64) =~= m.mint);
    let pre1 = a + m.mint;
    let cnt = le_bytes(m.additional.len() as u32);
    let tail1 = enc_field(m.symbol) + enc_field(m.uri) + cnt + enc_pairs(m.additional);
    assert(s =~= pre1 + enc_field(m.name) + tail1);
    lemma_dec_field_after(pre1, m.name, tail1);
    let pre2 = pre1 + enc_field(m.name);
    let tail2 = enc_field(m.uri) + cnt + enc_pairs(m.additional);
    assert(s =~= pre2 + enc_field(m.symbol) + tail2);
    lemma_dec_field_after(pre2, m.symbol, tail2);
    let pre3 = pre2 + enc_field(m.symbol);
    let tail3 = cnt + enc_pairs(m.additional);
    assert(s =~= pre3 + enc_field(m.uri) + tail3);
    lemma_dec_field_after(pre3, m.uri, tail3);
    let pre4 = pre3 + enc_field(m.uri);
    assert(s =~= pre4 + cnt + enc_pairs(m.additional));
    lemma_dec_u32_after(pre4, m.additional.len() as u32, enc_pairs(m.additional));
    let pre5 = pre4 + cnt;
    assert(s =~= pre5 + enc_pairs(m.additional) + Seq::<u8>::empty());
    lemma_dec_pairs_after(pre5, m.additional, Seq::<u8>::empty());
    assert((m.additional.len() as u32) as nat == m.additional.len());
    assert(pre5.len() + enc_pairs(m.additional).len() == s.len());
    match m.update_authority {
        Some(ua) => {
            assert(a == ua);
            assert(a != zero32());
        }
        None => {
            assert(a == zero32());
        }
    }
    assert(spec_decode(s) == Some(m));
}


/// Reads a four-byte little-endian value.
fn read_u32_at(data: &Vec<u8>, pos: usize) -> (r: Option<(u32, usize)>)
    ensures
        match r {
            Some((n, p)) => dec_u32_at(data@, pos as int) == Some::<(u32, int)>((n, p as int)),
            None => dec_u32_at(data@, pos as int) is None,
        },
{
    if pos > data.len() || data.len() - pos < 4 {
        return None;
    }
    let b0 = data[pos];
    let b1 = data[pos + 1];
    let b2 = data[pos + 2];
    let b3 = data[pos + 3];
    let n: u32 = (b0 as u32) | ((b1 as u32) << 8u32) | ((b2 as u32) << 16u32) | ((b3 as u32)
        << 24u32);
    Some((n, pos + 4))
}

/// Reads a length-prefixed byte field.
fn read_field_at(data: &Vec<u8>, pos: usize) -> (r: Option<(Vec<u8>, usize)>)
    ensures
        match r {
            Some((b, p)) => dec_field_at(data@, pos as int) == Some::<(Seq<u8>, int)>(
                (b@, p as int),
            ),
            None => dec_field_at(data@, pos as int) is None,
        },
{
    let (n, p) = match read_u32_at(data, pos) {
        Some(x) => x,
        None => {
            return None;
        },
    };
    let n = n as usize;
    let dlen = data.len();
    if dlen - p < n {
        return None;
    }
    let mut out: Vec<u8> = Vec::new();
    let mut i: usize = 0;
    while i < n
        invariant
            i <= n,
            p + n <= dlen,
            dlen == data@.len(),
            out@ == data@.subrange(p as int, p as int + i),
        decreases n - i,
    {
        out.push(data[p + i]);
        proof {
            assert(data@.subrange(p as int, p as int + i + 1) =~= data@.subrange(
                p as int,
                p as int + i,
            ).push(data@[p + i]));
        }
        i = i + 1;
    }
    Some((out, p + n))
}

/// Reads `count` key/value pairs.
fn read_pairs_at(data: &Vec<u8>, pos: usize, count: u32) -> (r: Option<(Vec<MetadataPair>, usize)>)
    ensures
        match r {
            Some((ps, p)) => dec_pairs_at(data@, pos as int, count as nat) == Some::<
                (Seq<(Seq<u8>, Seq<u8>)>, int),
            >((ps@.map_values(|q: MetadataPair| q@), p as int)),
            None => dec_pairs_at(data@, pos as int, count as nat) is None,
        },
    decreases count,
{
    if count == 0 {
        let empty: Vec<MetadataPair> = Vec::new();
        proof {
            assert(empty@.map_values(|q: MetadataPair| q@) =~= Seq::<(Seq<u8>, Seq<u8>)>::empty());
        }
        return Some((empty, pos));
    }
    let (k, p1) = match read_field_at(data, pos) {
        Some(x) => x,
        None => {
            return None;
        },
    };
    let (v, p2) = match read_field_at(data, p1) {
        Some(x) => x,
        None => {
            return None;
        },
    };
    match read_pairs_at(data, p2, count - 1) {
        Some((rest, p3)) => {
            let ghost kv = (k@, v@);
            let mut ps = rest;
            ps.insert(0, MetadataPair { key: k, value: v });
            proof {
                assert(ps@.map_values(|q: MetadataPair| q@) =~= seq![kv]
                    + ps@.drop_first().map_values(|q: MetadataPair| q@));
            }
            Some((ps, p3))
        },
        None => None,
    }
}

/// Parses a packed metadata record; answers exactly where the packed form
/// is exactly `data`.
pub fn decode_metadata(data: &Vec<u8>) -> (r: Option<MetadataRecord>)
    ensures
        match r {
            Some(rec) => spec_decode(data@) == Some(rec@),
            None => spec_decode(data@) is None,
        },
{
    if data.len() < 64 {
        return None;
    }
    let auth = crate::identity::address_from_slice(data, 0);
    let mint = crate::identity::address_from_slice(data, 32);
    let (name, p1) = match read_field_at(data, 64) {
        Some(x) => x,
        None => {
            return None;
        },
    };
    let (symbol, p2) = match read_field_at(data, p1) {
        Some(x) => x,
        None => {
            return None;
        },
    };
    let (uri, p3) = match read_field_at(data, p2) {
        Some(x) => x,
        None => {
            return None;
        },
    };
    let (count, p4) = match read_u32_at(data, p3) {
        Some(x) => x,
        None => {
            return None;
        },
    };
    let (additional, p5) = match read_pairs_at(data, p4, count) {
        Some(x) => x,
        None => {
            return None;
        },
    };
    if p5 != data.len() {
        return None;
    }
    let update_authority = if auth.is_zero() {
        proof {
            assert(auth@ =~= zero32());
        }
        None
    } else {
        proof {
            assert(auth@ != zero32());
        }
        Some(auth)
    };
    let rec = MetadataRecord { update_authority, mint, name, symbol, uri, additional };
    proof {
        assert(spec_decode(data@) == Some(rec@));
    }
    Some(rec)
}

} // verus!
