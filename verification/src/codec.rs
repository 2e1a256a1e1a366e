//! The durable encoding of catalog records: a length-prefixed binary layout
//! owned entirely by this crate. `encode_metadata` renders a record to
//! bytes, `decode_metadata` reads them back, and the round-trip law — for
//! any record, decoding its encoding yields an equal record — is proved
//! here over the layout's specification.
//!
//! Layout: integers are eight bytes little-endian; strings are a byte
//! length followed by UTF-8 bytes; options and enum variants carry a
//! leading tag byte; lists carry a leading count.
use vstd::prelude::*;
use vstd::slice::{slice_subrange, slice_to_vec};
use vstd::utf8::*;

use crate::archive_info::{ArchiveInfo, ArchiveInfoView};
use crate::content_info::{
    ContentInfo, ContentInfoView, DLSiteDistributionData, GameData, GameDataView,
    GameDistribution, GameDistributionView, GameSysPlatform, GameType, OtherDistributionData,
    SteamDistributionData,
};
use crate::deploy_info::{DeployInfo, DeployInfoView};
use crate::dl_site::DLContentType;
use crate::metadata::{Metadata, MetadataView};

verus! {

// ---------------------------------------------------------------------------
// Unsigned 64-bit integers: eight bytes, little-endian.
// ---------------------------------------------------------------------------
/// Byte `k` (little-endian) of `x`.
pub open spec fn spec_byte_of(x: u64, k: int) -> u8 {
    (x >> (8 * k as u64)) as u8
}

/// The eight little-endian bytes of `x`.
pub open spec fn spec_enc_u64(x: u64) -> Seq<u8> {
    seq![
        spec_byte_of(x, 0), spec_byte_of(x, 1), spec_byte_of(x, 2), spec_byte_of(x, 3),
        spec_byte_of(x, 4), spec_byte_of(x, 5), spec_byte_of(x, 6), spec_byte_of(x, 7),
    ]
}

/// The value held by the first eight bytes of `b`, little-endian.
pub open spec fn spec_comb_u64(b: Seq<u8>) -> u64
    recommends
        b.len() >= 8,
{
    (b[0] as u64) | ((b[1] as u64) << 8u64) | ((b[2] as u64) << 16u64) | ((b[3] as u64) << 24u64)
        | ((b[4] as u64) << 32u64) | ((b[5] as u64) << 40u64) | ((b[6] as u64) << 48u64) | ((
    b[7] as u64) << 56u64)
}

/// Reads a 64-bit integer: the first eight bytes, little-endian.
pub open spec fn spec_dec_u64(b: Seq<u8>) -> Option<(u64, int)> {
    if b.len() >= 8 {
        Some((spec_comb_u64(b), 8int))
    } else {
        None
    }
}

/// Reading the encoding of `x` yields `x` and consumes eight bytes.
pub proof fn lemma_dec_u64(x: u64, rest: Seq<u8>)
    ensures
        spec_dec_u64(spec_enc_u64(x) + rest) == Some((x, 8int)),
{
    let b = spec_enc_u64(x) + rest;
    assert(b.len() >= 8);
    assert(b[0] == spec_byte_of(x, 0) && b[1] == spec_byte_of(x, 1) && b[2] == spec_byte_of(x, 2)
        && b[3] == spec_byte_of(x, 3) && b[4] == spec_byte_of(x, 4) && b[5] == spec_byte_of(x, 5)
        && b[6] == spec_byte_of(x, 6) && b[7] == spec_byte_of(x, 7));
    assert(((((x >> 0u64) as u8) as u64) | ((((x >> 8u64) as u8) as u64) << 8u64) | ((((x
        >> 16u64) as u8) as u64) << 16u64) | ((((x >> 24u64) as u8) as u64) << 24u64) | ((((x
        >> 32u64) as u8) as u64) << 32u64) | ((((x >> 40u64) as u8) as u64) << 40u64) | ((((x
        >> 48u64) as u8) as u64) << 48u64) | ((((x >> 56u64) as u8) as u64) << 56u64)) == x)
        by (bit_vector);
}

fn enc_u64(x: u64, out: &mut Vec<u8>)
    ensures
        final(out)@ == old(out)@ + spec_enc_u64(x),
{
    let ghost start = out@;
    out.push(#[verifier::truncate] ((x >> 0u64) as u8));
    out.push(#[verifier::truncate] ((x >> 8u64) as u8));
    out.push(#[verifier::truncate] ((x >> 16u64) as u8));
    out.push(#[verifier::truncate] ((x >> 24u64) as u8));
    out.push(#[verifier::truncate] ((x >> 32u64) as u8));
    out.push(#[verifier::truncate] ((x >> 40u64) as u8));
    out.push(#[verifier::truncate] ((x >> 48u64) as u8));
    out.push(#[verifier::truncate] ((x >> 56u64) as u8));
    assert(out@ =~= start + spec_enc_u64(x));
}

fn dec_u64(bytes: &Vec<u8>, pos: usize) -> (r: Option<(u64, usize)>)
    requires
        pos <= bytes@.len(),
    ensures
        match r {
            Some((x, p)) => {
                &&& pos <= p <= bytes@.len()
                &&& spec_dec_u64(bytes@.skip(pos as int)) == Some((x, p - pos))
            },
            None => spec_dec_u64(bytes@.skip(pos as int)) is None,
        },
{
    if bytes.len() - pos < 8 {
        return None;
    }
    let b0 = bytes[pos] as u64;
    let b1 = bytes[pos + 1] as u64;
    let b2 = bytes[pos + 2] as u64;
    let b3 = bytes[pos + 3] as u64;
    let b4 = bytes[pos + 4] as u64;
    let b5 = bytes[pos + 5] as u64;
    let b6 = bytes[pos + 6] as u64;
    let b7 = bytes[pos + 7] as u64;
    let x = b0 | (b1 << 8u64) | (b2 << 16u64) | (b3 << 24u64) | (b4 << 32u64) | (b5 << 40u64) | (
    b6 << 48u64) | (b7 << 56u64);
    proof {
        let t = bytes@.skip(pos as int);
        assert(t[0] == bytes@[pos as int] && t[1] == bytes@[pos + 1] && t[2] == bytes@[pos + 2]
            && t[3] == bytes@[pos + 3] && t[4] == bytes@[pos + 4] && t[5] == bytes@[pos + 5] && t[6]
            == bytes@[pos + 6] && t[7] == bytes@[pos + 7]);
    }
    Some((x, pos + 8))
}

// ---------------------------------------------------------------------------
// Strings: a byte length, then UTF-8 bytes.
// ---------------------------------------------------------------------------
/// Whether a string's UTF-8 length fits the length prefix.
pub open spec fn spec_encodable_str(s: Seq<char>) -> bool {
    encode_utf8(s).len() <= u64::MAX
}

/// A string: its UTF-8 byte length, then its UTF-8 bytes.
#[verifier::opaque]
pub open spec fn spec_enc_str(s: Seq<char>) -> Seq<u8> {
    spec_enc_u64(encode_utf8(s).len() as u64) + encode_utf8(s)
}

/// Reads a string: a byte length, then that many UTF-8 bytes.
#[verifier::opaque]
pub open spec fn spec_dec_str(b: Seq<u8>) -> Option<(Seq<char>, int)> {
    match spec_dec_u64(b) {
        Some((n, k)) => {
            if n + k <= b.len() && valid_utf8(b.subrange(k, k + n)) {
                Some((decode_utf8(b.subrange(k, k + n)), k + n))
            } else {
                None
            }
        },
        None => None,
    }
}

/// Reading the encoding of `s` yields `s` back.
pub proof fn lemma_dec_str(s: Seq<char>, rest: Seq<u8>)
    requires
        spec_encodable_str(s),
    ensures
        spec_dec_str(spec_enc_str(s) + rest) == Some((s, spec_enc_str(s).len() as int)),
{
    broadcast use encode_utf8_valid_utf8, encode_utf8_decode_utf8;

    reveal(spec_enc_str);
    reveal(spec_dec_str);
    let u = encode_utf8(s);
    let n = u.len() as u64;
    let b = spec_enc_str(s) + rest;
    assert(b =~= spec_enc_u64(n) + (u + rest));
    lemma_dec_u64(n, u + rest);
    assert(spec_dec_u64(b) == Some((n, 8int)));
    assert(b.subrange(8, 8 + n as int) =~= u);
}

/// Relies on `String::from_utf8`: it returns `Ok` exactly on valid UTF-8
/// input, and the returned string's UTF-8 bytes are the input bytes.
#[verifier::external_body]
fn string_from_utf8(v: Vec<u8>) -> (r: Option<String>)
    ensures
        r is Some <==> valid_utf8(v@),
        r is Some ==> encode_utf8(r.unwrap()@) == v@,
{
    String::from_utf8(v).ok()
}

fn enc_str(s: &str, out: &mut Vec<u8>)
    ensures
        final(out)@ == old(out)@ + spec_enc_str(s@),
        spec_encodable_str(s@),
{
    proof {
        reveal(spec_enc_str);
    }
    let bytes: Vec<u8> = s.as_bytes_vec();
    enc_u64(bytes.len() as u64, out);
    let ghost mid = out@;
    let mut i: usize = 0;
    while i < bytes.len()
        invariant
            i <= bytes@.len(),
            out@ == mid + bytes@.take(i as int),
        decreases bytes@.len() - i,
    {
        out.push(bytes[i]);
        proof {
            assert(out@ =~= mid + bytes@.take(i + 1));
        }
        i += 1;
    }
    proof {
        assert(bytes@.take(bytes@.len() as int) =~= bytes@);
        assert(out@ =~= old(out)@ + spec_enc_str(s@));
    }
}

fn dec_str(bytes: &Vec<u8>, pos: usize) -> (r: Option<(String, usize)>)
    requires
        pos <= bytes@.len(),
    ensures
        match r {
            Some((s, p)) => {
                &&& pos <= p <= bytes@.len()
                &&& spec_dec_str(bytes@.skip(pos as int)) matches Some((v, k)) && v == s@ && k == p
                    - pos
            },
            None => spec_dec_str(bytes@.skip(pos as int)) is None,
        },
{
    broadcast use decode_utf8_encode_utf8, encode_utf8_decode_utf8;

    proof {
        reveal(spec_dec_str);
    }
    let t = dec_u64(bytes, pos);
    match t {
        None => None,
        Some((n, k)) => {
            if n > (bytes.len() - k) as u64 {
                proof {
                    let tail = bytes@.skip(pos as int);
                    assert(spec_dec_u64(tail) == Some((n, k - pos)));
                    assert(n + (k - pos) > tail.len());
                }
                return None;
            }
            let n_us: usize = n as usize;
            let sub: &[u8] = slice_subrange(bytes.as_slice(), k, k + n_us);
            let piece: Vec<u8> = slice_to_vec(sub);
            proof {
                let tail = bytes@.skip(pos as int);
                assert(piece@ =~= tail.subrange(k - pos + 0, (k - pos) + n as int));
            }
            match string_from_utf8(piece) {
                Some(s) => {
                    proof {
                        let tail = bytes@.skip(pos as int);
                        let sub_s = tail.subrange(k - pos + 0, (k - pos) + n as int);
                        assert(encode_utf8(s@) == sub_s);
                        assert(decode_utf8(sub_s) == s@);
                    }
                    Some((s, k + n_us))
                },
                None => {
                    proof {
                        let tail = bytes@.skip(pos as int);
                        assert(!valid_utf8(tail.subrange(k - pos + 0, (k - pos) + n as int)));
                    }
                    None
                },
            }
        },
    }
}

// ---------------------------------------------------------------------------
// Optional strings: a tag byte, then the string when present.
// ---------------------------------------------------------------------------
/// Whether an optional string fits its length prefix.
pub open spec fn spec_encodable_opt_str(o: Option<Seq<char>>) -> bool {
    match o {
        Some(s) => spec_encodable_str(s),
        None => true,
    }
}

/// An optional string: tag 0 for absent, tag 1 then the string.
pub open spec fn spec_enc_opt_str(o: Option<Seq<char>>) -> Seq<u8> {
    match o {
        None => seq![0u8],
        Some(s) => seq![1u8] + spec_enc_str(s),
    }
}

/// Reads an optional string.
pub open spec fn spec_dec_opt_str(b: Seq<u8>) -> Option<(Option<Seq<char>>, int)> {
    if b.len() < 1 {
        None
    } else if b[0] == 0u8 {
        Some((None, 1int))
    } else if b[0] == 1u8 {
        match spec_dec_str(b.skip(1)) {
            Some((s, k)) => Some((Some(s), 1 + k)),
            None => None,
        }
    } else {
        None
    }
}

/// Reading the encoding of `o` yields `o` back.
pub proof fn lemma_dec_opt_str(o: Option<Seq<char>>, rest: Seq<u8>)
    requires
        spec_encodable_opt_str(o),
    ensures
        spec_dec_opt_str(spec_enc_opt_str(o) + rest) == Some((o, spec_enc_opt_str(o).len() as int)),
{
    let b = spec_enc_opt_str(o) + rest;
    match o {
        None => {
            assert(b[0] == 0u8);
        },
        Some(s) => {
            assert(b[0] == 1u8);
            assert(b.skip(1) =~= spec_enc_str(s) + rest);
            lemma_dec_str(s, rest);
        },
    }
}

fn enc_opt_str(o: &Option<String>, out: &mut Vec<u8>)
    ensures
        final(out)@ == old(out)@ + spec_enc_opt_str(o.deep_view()),
        spec_encodable_opt_str(o.deep_view()),
{
    match o {
        None => {
            out.push(0u8);
            assert(out@ =~= old(out)@ + spec_enc_opt_str(o.deep_view()));
        },
        Some(s) => {
            out.push(1u8);
            let ghost mid = out@;
            enc_str(s.as_str(), out);
            assert(out@ =~= old(out)@ + spec_enc_opt_str(o.deep_view()));
        },
    }
}

fn dec_opt_str(bytes: &Vec<u8>, pos: usize) -> (r: Option<(Option<String>, usize)>)
    requires
        pos <= bytes@.len(),
    ensures
        match r {
            Some((s, p)) => {
                &&& pos <= p <= bytes@.len()
                &&& spec_dec_opt_str(bytes@.skip(pos as int)) matches Some((v, k)) && v
                    == s.deep_view() && k == p - pos
            },
            None => spec_dec_opt_str(bytes@.skip(pos as int)) is None,
        },
{
    if pos >= bytes.len() {
        return None;
    }
    let tag = bytes[pos];
    proof {
        assert(bytes@.skip(pos as int)[0] == bytes@[pos as int]);
    }
    if tag == 0u8 {
        Some((None, pos + 1))
    } else if tag == 1u8 {
        proof {
            assert(bytes@.skip(pos as int).skip(1) =~= bytes@.skip(pos + 1));
        }
        match dec_str(bytes, pos + 1) {
            Some((s, p)) => Some((Some(s), p)),
            None => None,
        }
    } else {
        None
    }
}

// ---------------------------------------------------------------------------
// String lists: a count, then each string in order.
// ---------------------------------------------------------------------------
/// Whether every string of a list, and the list's count, fit their
/// prefixes.
pub open spec fn spec_encodable_strs(l: Seq<Seq<char>>) -> bool {
    l.len() <= u64::MAX && forall|i: int| 0 <= i < l.len() ==> spec_encodable_str(#[trigger] l[i])
}

/// The strings of a list, encoded in order.
pub open spec fn spec_enc_str_seq(l: Seq<Seq<char>>) -> Seq<u8>
    decreases l.len(),
{
    if l.len() == 0 {
        Seq::empty()
    } else {
        spec_enc_str(l[0]) + spec_enc_str_seq(l.drop_first())
    }
}

/// A string list: its count, then its strings in order.
pub open spec fn spec_enc_strs(l: Seq<Seq<char>>) -> Seq<u8> {
    spec_enc_u64(l.len() as u64) + spec_enc_str_seq(l)
}

/// Appending one string to a list appends its encoding.
pub proof fn lemma_enc_str_seq_push(l: Seq<Seq<char>>, x: Seq<char>)
    ensures
        spec_enc_str_seq(l.push(x)) == spec_enc_str_seq(l) + spec_enc_str(x),
    decreases l.len(),
{
    if l.len() == 0 {
        assert(l.push(x)[0] == x);
        assert(l.push(x).drop_first() =~= Seq::<Seq<char>>::empty());
        assert(spec_enc_str_seq(Seq::<Seq<char>>::empty()) == Seq::<u8>::empty());
        assert(spec_enc_str_seq(l.push(x)) == spec_enc_str(x) + Seq::<u8>::empty());
        assert(spec_enc_str_seq(l) == Seq::<u8>::empty());
        assert(spec_enc_str(x) + Seq::<u8>::empty() =~= Seq::<u8>::empty() + spec_enc_str(x));
    } else {
        assert(l.push(x)[0] == l[0]);
        assert(l.push(x).drop_first() =~= l.drop_first().push(x));
        lemma_enc_str_seq_push(l.drop_first(), x);
        assert(spec_enc_str_seq(l.push(x)) == spec_enc_str(l[0]) + spec_enc_str_seq(
            l.drop_first().push(x),
        ));
        assert(spec_enc_str_seq(l.push(x)) == spec_enc_str(l[0]) + (spec_enc_str_seq(
            l.drop_first(),
        ) + spec_enc_str(x)));
        assert(spec_enc_str(l[0]) + (spec_enc_str_seq(l.drop_first()) + spec_enc_str(x)) =~= (
        spec_enc_str(l[0]) + spec_enc_str_seq(l.drop_first())) + spec_enc_str(x));
        assert(spec_enc_str_seq(l) == spec_enc_str(l[0]) + spec_enc_str_seq(l.drop_first()));
    }
}

/// Reads `count` consecutive strings.
pub open spec fn spec_dec_str_seq(b: Seq<u8>, count: nat) -> Option<(Seq<Seq<char>>, int)>
    decreases count,
{
    if count == 0 {
        Some((Seq::empty(), 0int))
    } else {
        match spec_dec_str(b) {
            Some((s, k)) => match spec_dec_str_seq(b.skip(k), (count - 1) as nat) {
                Some((l, k2)) => Some((seq![s] + l, k + k2)),
                None => None,
            },
            None => None,
        }
    }
}

/// Reads a string list: a count, then that many strings.
pub open spec fn spec_dec_strs(b: Seq<u8>) -> Option<(Seq<Seq<char>>, int)> {
    match spec_dec_u64(b) {
        Some((n, k)) => match spec_dec_str_seq(b.skip(k), n as nat) {
            Some((l, k2)) => Some((l, k + k2)),
            None => None,
        },
        None => None,
    }
}

/// Reading the encodings of the strings of `l` yields `l` back.
pub proof fn lemma_dec_str_seq(l: Seq<Seq<char>>, rest: Seq<u8>)
    requires
        forall|i: int| 0 <= i < l.len() ==> spec_encodable_str(#[trigger] l[i]),
    ensures
        spec_dec_str_seq(spec_enc_str_seq(l) + rest, l.len() as nat) == Some((
            l,
            spec_enc_str_seq(l).len() as int,
        )),
    decreases l.len(),
{
    if l.len() == 0 {
        assert(spec_enc_str_seq(l) =~= Seq::<u8>::empty());
        assert(l =~= Seq::<Seq<char>>::empty());
    } else {
        let b = spec_enc_str_seq(l) + rest;
        let tail_enc = spec_enc_str_seq(l.drop_first());
        assert(b =~= spec_enc_str(l[0]) + (tail_enc + rest));
        lemma_dec_str(l[0], tail_enc + rest);
        let k = spec_enc_str(l[0]).len() as int;
        assert(b.skip(k) =~= tail_enc + rest);
        lemma_dec_str_seq(l.drop_first(), rest);
        assert(seq![l[0]] + l.drop_first() =~= l);
    }
}

/// Reading the encoding of a string list yields the list back.
pub proof fn lemma_dec_strs(l: Seq<Seq<char>>, rest: Seq<u8>)
    requires
        spec_encodable_strs(l),
    ensures
        spec_dec_strs(spec_enc_strs(l) + rest) == Some((l, spec_enc_strs(l).len() as int)),
{
    let b = spec_enc_strs(l) + rest;
    assert(b =~= spec_enc_u64(l.len() as u64) + (spec_enc_str_seq(l) + rest));
    lemma_dec_u64(l.len() as u64, spec_enc_str_seq(l) + rest);
    assert(b.skip(8) =~= spec_enc_str_seq(l) + rest);
    lemma_dec_str_seq(l, rest);
}

fn enc_strs(l: &Vec<String>, out: &mut Vec<u8>)
    ensures
        final(out)@ == old(out)@ + spec_enc_strs(l.deep_view()),
        spec_encodable_strs(l.deep_view()),
{
    enc_u64(l.len() as u64, out);
    let ghost mid = out@;
    let mut i: usize = 0;
    while i < l.len()
        invariant
            i <= l@.len(),
            out@ == mid + spec_enc_str_seq(l.deep_view().take(i as int)),
            forall|j: int| 0 <= j < i ==> spec_encodable_str(#[trigger] l.deep_view()[j]),
        decreases l@.len() - i,
    {
        proof {
            assert(l.deep_view()[i as int] == l@[i as int]@);
            lemma_enc_str_seq_push(l.deep_view().take(i as int), l.deep_view()[i as int]);
            assert(l.deep_view().take(i as int).push(l.deep_view()[i as int]) =~= l.deep_view()
                .take(i + 1));
        }
        enc_str(l[i].as_str(), out);
        i += 1;
    }
    proof {
        assert(l.deep_view().take(l@.len() as int) =~= l.deep_view());
        assert(out@ =~= old(out)@ + spec_enc_strs(l.deep_view()));
    }
}

fn dec_str_seq(bytes: &Vec<u8>, pos: usize, count: u64, acc: &mut Vec<String>) -> (r: Option<
    usize,
>)
    requires
        pos <= bytes@.len(),
    ensures
        match r {
            Some(p) => {
                &&& pos <= p <= bytes@.len()
                &&& spec_dec_str_seq(bytes@.skip(pos as int), count as nat) matches Some((l, k))
                    && final(acc).deep_view() == old(acc).deep_view() + l && k == p - pos
            },
            None => spec_dec_str_seq(bytes@.skip(pos as int), count as nat) is None,
        },
    decreases count,
{
    if count == 0 {
        proof {
            assert(acc.deep_view() =~= acc.deep_view() + Seq::<Seq<char>>::empty());
        }
        return Some(pos);
    }
    match dec_str(bytes, pos) {
        None => None,
        Some((s, p1)) => {
            acc.push(s);
            let ghost acc_mid = acc.deep_view();
            proof {
                assert(acc_mid =~= old(acc).deep_view() + seq![s@]);
                assert(bytes@.skip(pos as int).skip(p1 - pos) =~= bytes@.skip(p1 as int));
            }
            match dec_str_seq(bytes, p1, count - 1, acc) {
                None => None,
                Some(p2) => {
                    proof {
                        let tail = bytes@.skip(pos as int);
                        let first = spec_dec_str(tail).unwrap();
                        let restl = spec_dec_str_seq(
                            bytes@.skip(p1 as int),
                            (count - 1) as nat,
                        ).unwrap();
                        assert(acc.deep_view() =~= old(acc).deep_view() + (seq![s@] + restl.0));
                    }
                    Some(p2)
                },
            }
        },
    }
}

fn dec_strs(bytes: &Vec<u8>, pos: usize) -> (r: Option<(Vec<String>, usize)>)
    requires
        pos <= bytes@.len(),
    ensures
        match r {
            Some((l, p)) => {
                &&& pos <= p <= bytes@.len()
                &&& spec_dec_strs(bytes@.skip(pos as int)) matches Some((v, k)) && v
                    == l.deep_view() && k == p - pos
            },
            None => spec_dec_strs(bytes@.skip(pos as int)) is None,
        },
{
    match dec_u64(bytes, pos) {
        None => None,
        Some((n, p1)) => {
            proof {
                assert(bytes@.skip(pos as int).skip(p1 - pos) =~= bytes@.skip(p1 as int));
            }
            let mut acc: Vec<String> = Vec::new();
            match dec_str_seq(bytes, p1, n, &mut acc) {
                None => None,
                Some(p2) => {
                    proof {
                        assert(acc.deep_view() =~= Seq::<Seq<char>>::empty() + acc.deep_view());
                    }
                    Some((acc, p2))
                },
            }
        },
    }
}

// ---------------------------------------------------------------------------
// Tag-only enums: one byte each.
// ---------------------------------------------------------------------------
/// The tag byte of a game type.
pub open spec fn spec_enc_game_type(g: GameType) -> Seq<u8> {
    match g {
        GameType::Unspecified => seq![0u8],
        GameType::RPG => seq![1u8],
        GameType::SLG => seq![2u8],
        GameType::AVG => seq![3u8],
    }
}

/// Reads a game type tag.
pub open spec fn spec_dec_game_type(b: Seq<u8>) -> Option<(GameType, int)> {
    if b.len() < 1 {
        None
    } else if b[0] == 0u8 {
        Some((GameType::Unspecified, 1int))
    } else if b[0] == 1u8 {
        Some((GameType::RPG, 1int))
    } else if b[0] == 2u8 {
        Some((GameType::SLG, 1int))
    } else if b[0] == 3u8 {
        Some((GameType::AVG, 1int))
    } else {
        None
    }
}

fn enc_game_type(g: &GameType, out: &mut Vec<u8>)
    ensures
        final(out)@ == old(out)@ + spec_enc_game_type(*g),
{
    let tag: u8 = match g {
        GameType::Unspecified => 0,
        GameType::RPG => 1,
        GameType::SLG => 2,
        GameType::AVG => 3,
    };
    out.push(tag);
    assert(out@ =~= old(out)@ + spec_enc_game_type(*g));
}

fn dec_game_type(bytes: &Vec<u8>, pos: usize) -> (r: Option<(GameType, usize)>)
    requires
        pos <= bytes@.len(),
    ensures
        match r {
            Some((g, p)) => {
                &&& pos <= p <= bytes@.len()
                &&& spec_dec_game_type(bytes@.skip(pos as int)) == Some((g, p - pos))
            },
            None => spec_dec_game_type(bytes@.skip(pos as int)) is None,
        },
{
    if pos >= bytes.len() {
        return None;
    }
    proof {
        assert(bytes@.skip(pos as int)[0] == bytes@[pos as int]);
    }
    let tag = bytes[pos];
    if tag == 0u8 {
        Some((GameType::Unspecified, pos + 1))
    } else if tag == 1u8 {
        Some((GameType::RPG, pos + 1))
    } else if tag == 2u8 {
        Some((GameType::SLG, pos + 1))
    } else if tag == 3u8 {
        Some((GameType::AVG, pos + 1))
    } else {
        None
    }
}

/// The tag byte of a platform.
pub open spec fn spec_enc_platform(p: GameSysPlatform) -> Seq<u8> {
    match p {
        GameSysPlatform::Windows => seq![0u8],
        GameSysPlatform::Linux => seq![1u8],
        GameSysPlatform::MacOS => seq![2u8],
        GameSysPlatform::Android => seq![3u8],
        GameSysPlatform::IOS => seq![4u8],
        GameSysPlatform::Web => seq![5u8],
    }
}

/// Reads a platform tag.
pub open spec fn spec_dec_platform(b: Seq<u8>) -> Option<(GameSysPlatform, int)> {
    if b.len() < 1 {
        None
    } else if b[0] == 0u8 {
        Some((GameSysPlatform::Windows, 1int))
    } else if b[0] == 1u8 {
        Some((GameSysPlatform::Linux, 1int))
    } else if b[0] == 2u8 {
        Some((GameSysPlatform::MacOS, 1int))
    } else if b[0] == 3u8 {
        Some((GameSysPlatform::Android, 1int))
    } else if b[0] == 4u8 {
        Some((GameSysPlatform::IOS, 1int))
    } else if b[0] == 5u8 {
        Some((GameSysPlatform::Web, 1int))
    } else {
        None
    }
}

fn enc_platform(p: &GameSysPlatform, out: &mut Vec<u8>)
    ensures
        final(out)@ == old(out)@ + spec_enc_platform(*p),
{
    let tag: u8 = match p {
        GameSysPlatform::Windows => 0,
        GameSysPlatform::Linux => 1,
        GameSysPlatform::MacOS => 2,
        GameSysPlatform::Android => 3,
        GameSysPlatform::IOS => 4,
        GameSysPlatform::Web => 5,
    };
    out.push(tag);
    assert(out@ =~= old(out)@ + spec_enc_platform(*p));
}

fn dec_platform(bytes: &Vec<u8>, pos: usize) -> (r: Option<(GameSysPlatform, usize)>)
    requires
        pos <= bytes@.len(),
    ensures
        match r {
            Some((g, p)) => {
                &&& pos <= p <= bytes@.len()
                &&& spec_dec_platform(bytes@.skip(pos as int)) == Some((g, p - pos))
            },
            None => spec_dec_platform(bytes@.skip(pos as int)) is None,
        },
{
    if pos >= bytes.len() {
        return None;
    }
    proof {
        assert(bytes@.skip(pos as int)[0] == bytes@[pos as int]);
    }
    let tag = bytes[pos];
    if tag == 0u8 {
        Some((GameSysPlatform::Windows, pos + 1))
    } else if tag == 1u8 {
        Some((GameSysPlatform::Linux, pos + 1))
    } else if tag == 2u8 {
        Some((GameSysPlatform::MacOS, pos + 1))
    } else if tag == 3u8 {
        Some((GameSysPlatform::Android, pos + 1))
    } else if tag == 4u8 {
        Some((GameSysPlatform::IOS, pos + 1))
    } else if tag == 5u8 {
        Some((GameSysPlatform::Web, pos + 1))
    } else {
        None
    }
}

/// The tag byte of a DLSite content category.
pub open spec fn spec_enc_dl_content_type(c: DLContentType) -> Seq<u8> {
    match c {
        DLContentType::Doujin => seq![0u8],
        DLContentType::Comics => seq![1u8],
        DLContentType::PcGames => seq![2u8],
        DLContentType::SmartphoneGames => seq![3u8],
        DLContentType::DoujinR18 => seq![4u8],
        DLContentType::ComicsR18 => seq![5u8],
        DLContentType::HGames => seq![6u8],
        DLContentType::SmartphoneGamesR18 => seq![7u8],
    }
}

/// Reads a DLSite content category tag.
pub open spec fn spec_dec_dl_content_type(b: Seq<u8>) -> Option<(DLContentType, int)> {
    if b.len() < 1 {
        None
    } else if b[0] == 0u8 {
        Some((DLContentType::Doujin, 1int))
    } else if b[0] == 1u8 {
        Some((DLContentType::Comics, 1int))
    } else if b[0] == 2u8 {
        Some((DLContentType::PcGames, 1int))
    } else if b[0] == 3u8 {
        Some((DLContentType::SmartphoneGames, 1int))
    } else if b[0] == 4u8 {
        Some((DLContentType::DoujinR18, 1int))
    } else if b[0] == 5u8 {
        Some((DLContentType::ComicsR18, 1int))
    } else if b[0] == 6u8 {
        Some((DLContentType::HGames, 1int))
    } else if b[0] == 7u8 {
        Some((DLContentType::SmartphoneGamesR18, 1int))
    } else {
        None
    }
}

fn enc_dl_content_type(c: &DLContentType, out: &mut Vec<u8>)
    ensures
        final(out)@ == old(out)@ + spec_enc_dl_content_type(*c),
{
    let tag: u8 = match c {
        DLContentType::Doujin => 0,
        DLContentType::Comics => 1,
        DLContentType::PcGames => 2,
        DLContentType::SmartphoneGames => 3,
        DLContentType::DoujinR18 => 4,
        DLContentType::ComicsR18 => 5,
        DLContentType::HGames => 6,
        DLContentType::SmartphoneGamesR18 => 7,
    };
    out.push(tag);
    assert(out@ =~= old(out)@ + spec_enc_dl_content_type(*c));
}

fn dec_dl_content_type(bytes: &Vec<u8>, pos: usize) -> (r: Option<(DLContentType, usize)>)
    requires
        pos <= bytes@.len(),
    ensures
        match r {
            Some((c, p)) => {
                &&& pos <= p <= bytes@.len()
                &&& spec_dec_dl_content_type(bytes@.skip(pos as int)) == Some((c, p - pos))
            },
            None => spec_dec_dl_content_type(bytes@.skip(pos as int)) is None,
        },
{
    if pos >= bytes.len() {
        return None;
    }
    proof {
        assert(bytes@.skip(pos as int)[0] == bytes@[pos as int]);
    }
    let tag = bytes[pos];
    if tag == 0u8 {
        Some((DLContentType::Doujin, pos + 1))
    } else if tag == 1u8 {
        Some((DLContentType::Comics, pos + 1))
    } else if tag == 2u8 {
        Some((DLContentType::PcGames, pos + 1))
    } else if tag == 3u8 {
        Some((DLContentType::SmartphoneGames, pos + 1))
    } else if tag == 4u8 {
        Some((DLContentType::DoujinR18, pos + 1))
    } else if tag == 5u8 {
        Some((DLContentType::ComicsR18, pos + 1))
    } else if tag == 6u8 {
        Some((DLContentType::HGames, pos + 1))
    } else if tag == 7u8 {
        Some((DLContentType::SmartphoneGamesR18, pos + 1))
    } else {
        None
    }
}

// ---------------------------------------------------------------------------
// Platform lists: a count, then one tag byte per platform.
// ---------------------------------------------------------------------------
/// The platforms of a list, encoded in order.
pub open spec fn spec_enc_platform_seq(l: Seq<GameSysPlatform>) -> Seq<u8>
    decreases l.len(),
{
    if l.len() == 0 {
        Seq::empty()
    } else {
        spec_enc_platform(l[0]) + spec_enc_platform_seq(l.drop_first())
    }
}

/// A platform list: its count, then its platforms in order.
pub open spec fn spec_enc_platforms(l: Seq<GameSysPlatform>) -> Seq<u8> {
    spec_enc_u64(l.len() as u64) + spec_enc_platform_seq(l)
}

/// Appending one platform to a list appends its encoding.
pub proof fn lemma_enc_platform_seq_push(l: Seq<GameSysPlatform>, x: GameSysPlatform)
    ensures
        spec_enc_platform_seq(l.push(x)) == spec_enc_platform_seq(l) + spec_enc_platform(x),
    decreases l.len(),
{
    if l.len() == 0 {
        assert(l.push(x)[0] == x);
        assert(l.push(x).drop_first() =~= Seq::<GameSysPlatform>::empty());
        assert(spec_enc_platform_seq(Seq::<GameSysPlatform>::empty()) == Seq::<u8>::empty());
        assert(spec_enc_platform_seq(l) == Seq::<u8>::empty());
        assert(spec_enc_platform(x) + Seq::<u8>::empty() =~= Seq::<u8>::empty()
            + spec_enc_platform(x));
    } else {
        assert(l.push(x)[0] == l[0]);
        assert(l.push(x).drop_first() =~= l.drop_first().push(x));
        lemma_enc_platform_seq_push(l.drop_first(), x);
        assert(spec_enc_platform(l[0]) + (spec_enc_platform_seq(l.drop_first())
            + spec_enc_platform(x)) =~= (spec_enc_platform(l[0]) + spec_enc_platform_seq(
            l.drop_first(),
        )) + spec_enc_platform(x));
    }
}

/// Reads `count` consecutive platform tags.
pub open spec fn spec_dec_platform_seq(b: Seq<u8>, count: nat) -> Option<(
    Seq<GameSysPlatform>,
    int,
)>
    decreases count,
{
    if count == 0 {
        Some((Seq::empty(), 0int))
    } else {
        match spec_dec_platform(b) {
            Some((p, k)) => match spec_dec_platform_seq(b.skip(k), (count - 1) as nat) {
                Some((l, k2)) => Some((seq![p] + l, k + k2)),
                None => None,
            },
            None => None,
        }
    }
}

/// Reads a platform list.
pub open spec fn spec_dec_platforms(b: Seq<u8>) -> Option<(Seq<GameSysPlatform>, int)> {
    match spec_dec_u64(b) {
        Some((n, k)) => match spec_dec_platform_seq(b.skip(k), n as nat) {
            Some((l, k2)) => Some((l, k + k2)),
            None => None,
        },
        None => None,
    }
}

/// Reading the encodings of the platforms of `l` yields `l` back.
pub proof fn lemma_dec_platform_seq(l: Seq<GameSysPlatform>, rest: Seq<u8>)
    ensures
        spec_dec_platform_seq(spec_enc_platform_seq(l) + rest, l.len() as nat) == Some((
            l,
            spec_enc_platform_seq(l).len() as int,
        )),
    decreases l.len(),
{
    if l.len() == 0 {
        assert(spec_enc_platform_seq(l) =~= Seq::<u8>::empty());
        assert(l =~= Seq::<GameSysPlatform>::empty());
    } else {
        let b = spec_enc_platform_seq(l) + rest;
        let tail_enc = spec_enc_platform_seq(l.drop_first());
        assert(b =~= spec_enc_platform(l[0]) + (tail_enc + rest));
        assert(b[0] == spec_enc_platform(l[0])[0]);
        let k = spec_enc_platform(l[0]).len() as int;
        assert(k == 1);
        assert(spec_dec_platform(b) == Some((l[0], 1int)));
        assert(b.skip(k) =~= tail_enc + rest);
        lemma_dec_platform_seq(l.drop_first(), rest);
        assert(seq![l[0]] + l.drop_first() =~= l);
    }
}

/// Reading the encoding of a platform list yields the list back.
pub proof fn lemma_dec_platforms(l: Seq<GameSysPlatform>, rest: Seq<u8>)
    requires
        l.len() <= u64::MAX,
    ensures
        spec_dec_platforms(spec_enc_platforms(l) + rest) == Some((
            l,
            spec_enc_platforms(l).len() as int,
        )),
{
    let b = spec_enc_platforms(l) + rest;
    assert(b =~= spec_enc_u64(l.len() as u64) + (spec_enc_platform_seq(l) + rest));
    lemma_dec_u64(l.len() as u64, spec_enc_platform_seq(l) + rest);
    assert(b.skip(8) =~= spec_enc_platform_seq(l) + rest);
    lemma_dec_platform_seq(l, rest);
}

fn enc_platforms(l: &Vec<GameSysPlatform>, out: &mut Vec<u8>)
    ensures
        final(out)@ == old(out)@ + spec_enc_platforms(l@),
        l@.len() <= u64::MAX,
{
    enc_u64(l.len() as u64, out);
    let ghost mid = out@;
    let mut i: usize = 0;
    while i < l.len()
        invariant
            i <= l@.len(),
            out@ == mid + spec_enc_platform_seq(l@.take(i as int)),
        decreases l@.len() - i,
    {
        proof {
            lemma_enc_platform_seq_push(l@.take(i as int), l@[i as int]);
            assert(l@.take(i as int).push(l@[i as int]) =~= l@.take(i + 1));
        }
        enc_platform(&l[i], out);
        i += 1;
    }
    proof {
        assert(l@.take(l@.len() as int) =~= l@);
        assert(out@ =~= old(out)@ + spec_enc_platforms(l@));
    }
}

fn dec_platform_seq(bytes: &Vec<u8>, pos: usize, count: u64, acc: &mut Vec<GameSysPlatform>) -> (r:
    Option<usize>)
    requires
        pos <= bytes@.len(),
    ensures
        match r {
            Some(p) => {
                &&& pos <= p <= bytes@.len()
                &&& spec_dec_platform_seq(bytes@.skip(pos as int), count as nat) matches Some(
                    (l, k),
                ) && final(acc)@ == old(acc)@ + l && k == p - pos
            },
            None => spec_dec_platform_seq(bytes@.skip(pos as int), count as nat) is None,
        },
    decreases count,
{
    if count == 0 {
        proof {
            assert(acc@ =~= acc@ + Seq::<GameSysPlatform>::empty());
        }
        return Some(pos);
    }
    match dec_platform(bytes, pos) {
        None => None,
        Some((x, p1)) => {
            acc.push(x);
            proof {
                assert(bytes@.skip(pos as int).skip(p1 - pos) =~= bytes@.skip(p1 as int));
            }
            match dec_platform_seq(bytes, p1, count - 1, acc) {
                None => None,
                Some(p2) => {
                    proof {
                        let restl = spec_dec_platform_seq(
                            bytes@.skip(p1 as int),
                            (count - 1) as nat,
                        ).unwrap();
                        assert(acc@ =~= old(acc)@ + (seq![x] + restl.0));
                    }
                    Some(p2)
                },
            }
        },
    }
}

fn dec_platforms(bytes: &Vec<u8>, pos: usize) -> (r: Option<(Vec<GameSysPlatform>, usize)>)
    requires
        pos <= bytes@.len(),
    ensures
        match r {
            Some((l, p)) => {
                &&& pos <= p <= bytes@.len()
                &&& spec_dec_platforms(bytes@.skip(pos as int)) == Some((l@, (p - pos) as int))
            },
            None => spec_dec_platforms(bytes@.skip(pos as int)) is None,
        },
{
    match dec_u64(bytes, pos) {
        None => None,
        Some((n, p1)) => {
            proof {
                assert(bytes@.skip(pos as int).skip(p1 - pos) =~= bytes@.skip(p1 as int));
            }
            let mut acc: Vec<GameSysPlatform> = Vec::new();
            match dec_platform_seq(bytes, p1, n, &mut acc) {
                None => None,
                Some(p2) => {
                    proof {
                        assert(acc@ =~= Seq::<GameSysPlatform>::empty() + acc@);
                    }
                    Some((acc, p2))
                },
            }
        },
    }
}

// ---------------------------------------------------------------------------
// Distributions.
// ---------------------------------------------------------------------------
/// Whether a distribution's strings fit their length prefixes.
pub open spec fn spec_encodable_distribution(d: GameDistributionView) -> bool {
    match d {
        GameDistributionView::Unknown => true,
        GameDistributionView::Steam(s) => spec_encodable_str(s.app_id),
        GameDistributionView::DLSite(s) => spec_encodable_str(s.id),
        GameDistributionView::Other(s) => spec_encodable_str(s.name) && spec_encodable_str(s.id),
    }
}

/// A distribution: a variant tag, then its fields.
#[verifier::opaque]
pub open spec fn spec_enc_distribution(d: GameDistributionView) -> Seq<u8> {
    match d {
        GameDistributionView::Unknown => seq![0u8],
        GameDistributionView::Steam(s) => seq![1u8] + spec_enc_str(s.app_id),
        GameDistributionView::DLSite(s) => seq![2u8] + spec_enc_str(s.id)
            + spec_enc_dl_content_type(s.content_type),
        GameDistributionView::Other(s) => seq![3u8] + spec_enc_str(s.name) + spec_enc_str(s.id),
    }
}

/// Reads a distribution.
#[verifier::opaque]
pub open spec fn spec_dec_distribution(b: Seq<u8>) -> Option<(GameDistributionView, int)> {
    if b.len() < 1 {
        None
    } else if b[0] == 0u8 {
        Some((GameDistributionView::Unknown, 1int))
    } else if b[0] == 1u8 {
        match spec_dec_str(b.skip(1)) {
            Some((app_id, k)) => Some(
                (GameDistributionView::Steam(crate::content_info::SteamDistributionDataView {
                    app_id,
                }), 1 + k),
            ),
            None => None,
        }
    } else if b[0] == 2u8 {
        match spec_dec_str(b.skip(1)) {
            Some((id, k1)) => match spec_dec_dl_content_type(b.skip(1 + k1)) {
                Some((content_type, k2)) => Some(
                    (GameDistributionView::DLSite(
                        crate::content_info::DLSiteDistributionDataView { id, content_type },
                    ), 1 + k1 + k2),
                ),
                None => None,
            },
            None => None,
        }
    } else if b[0] == 3u8 {
        match spec_dec_str(b.skip(1)) {
            Some((name, k1)) => match spec_dec_str(b.skip(1 + k1)) {
                Some((id, k2)) => Some(
                    (GameDistributionView::Other(crate::content_info::OtherDistributionDataView {
                        name,
                        id,
                    }), 1 + k1 + k2),
                ),
                None => None,
            },
            None => None,
        }
    } else {
        None
    }
}

/// Reading the encoding of `d` yields `d` back.
#[verifier::spinoff_prover]
#[verifier::rlimit(100)]
pub proof fn lemma_dec_distribution(d: GameDistributionView, rest: Seq<u8>)
    requires
        spec_encodable_distribution(d),
    ensures
        spec_dec_distribution(spec_enc_distribution(d) + rest) == Some((
            d,
            spec_enc_distribution(d).len() as int,
        )),
{
    reveal(spec_enc_distribution);
    reveal(spec_dec_distribution);
    let b = spec_enc_distribution(d) + rest;
    match d {
        GameDistributionView::Unknown => {
            assert(b[0] == 0u8);
        },
        GameDistributionView::Steam(s) => {
            assert(b[0] == 1u8);
            assert(b.skip(1) =~= spec_enc_str(s.app_id) + rest);
            lemma_dec_str(s.app_id, rest);
        },
        GameDistributionView::DLSite(s) => {
            assert(b[0] == 2u8);
            let e1 = spec_enc_str(s.id);
            let e2 = spec_enc_dl_content_type(s.content_type);
            assert(b.skip(1) =~= e1 + (e2 + rest));
            lemma_dec_str(s.id, e2 + rest);
            assert(b.skip(1 + e1.len() as int) =~= e2 + rest);
            assert((e2 + rest)[0] == e2[0]);
        },
        GameDistributionView::Other(s) => {
            assert(b[0] == 3u8);
            let e1 = spec_enc_str(s.name);
            let e2 = spec_enc_str(s.id);
            assert(b.skip(1) =~= e1 + (e2 + rest));
            lemma_dec_str(s.name, e2 + rest);
            assert(b.skip(1 + e1.len() as int) =~= e2 + rest);
            lemma_dec_str(s.id, rest);
        },
    }
}

fn enc_distribution(d: &GameDistribution, out: &mut Vec<u8>)
    ensures
        final(out)@ == old(out)@ + spec_enc_distribution(d@),
        spec_encodable_distribution(d@),
{
    proof {
        reveal(spec_enc_distribution);
    }
    match d {
        GameDistribution::Unknown => {
            out.push(0u8);
            assert(out@ =~= old(out)@ + spec_enc_distribution(d@));
        },
        GameDistribution::Steam(s) => {
            out.push(1u8);
            enc_str(s.app_id.as_str(), out);
            assert(out@ =~= old(out)@ + spec_enc_distribution(d@));
        },
        GameDistribution::DLSite(s) => {
            out.push(2u8);
            enc_str(s.id.as_str(), out);
            enc_dl_content_type(&s.content_type, out);
            assert(out@ =~= old(out)@ + spec_enc_distribution(d@));
        },
        GameDistribution::Other(s) => {
            out.push(3u8);
            enc_str(s.name.as_str(), out);
            enc_str(s.id.as_str(), out);
            assert(out@ =~= old(out)@ + spec_enc_distribution(d@));
        },
    }
}

fn dec_distribution(bytes: &Vec<u8>, pos: usize) -> (r: Option<(GameDistribution, usize)>)
    requires
        pos <= bytes@.len(),
    ensures
        match r {
            Some((d, p)) => {
                &&& pos <= p <= bytes@.len()
                &&& spec_dec_distribution(bytes@.skip(pos as int)) matches Some((v, k)) && v == d@
                    && k == p - pos
            },
            None => spec_dec_distribution(bytes@.skip(pos as int)) is None,
        },
{
    proof {
        reveal(spec_dec_distribution);
    }
    if pos >= bytes.len() {
        return None;
    }
    proof {
        assert(bytes@.skip(pos as int)[0] == bytes@[pos as int]);
    }
    let tag = bytes[pos];
    if tag == 0u8 {
        Some((GameDistribution::Unknown, pos + 1))
    } else if tag == 1u8 {
        proof {
            assert(bytes@.skip(pos as int).skip(1) =~= bytes@.skip(pos + 1));
        }
        match dec_str(bytes, pos + 1) {
            Some((app_id, p1)) => Some(
                (GameDistribution::Steam(SteamDistributionData { app_id }), p1),
            ),
            None => None,
        }
    } else if tag == 2u8 {
        proof {
            assert(bytes@.skip(pos as int).skip(1) =~= bytes@.skip(pos + 1));
        }
        match dec_str(bytes, pos + 1) {
            Some((id, p1)) => {
                proof {
                    assert(bytes@.skip(pos as int).skip(p1 - pos) =~= bytes@.skip(p1 as int));
                }
                match dec_dl_content_type(bytes, p1) {
                    Some((content_type, p2)) => Some(
                        (GameDistribution::DLSite(DLSiteDistributionData { id, content_type }), p2),
                    ),
                    None => None,
                }
            },
            None => None,
        }
    } else if tag == 3u8 {
        proof {
            assert(bytes@.skip(pos as int).skip(1) =~= bytes@.skip(pos + 1));
        }
        match dec_str(bytes, pos + 1) {
            Some((name, p1)) => {
                proof {
                    assert(bytes@.skip(pos as int).skip(p1 - pos) =~= bytes@.skip(p1 as int));
                }
                match dec_str(bytes, p1) {
                    Some((id, p2)) => Some(
                        (GameDistribution::Other(OtherDistributionData { name, id }), p2),
                    ),
                    None => None,
                }
            },
            None => None,
        }
    } else {
        None
    }
}

// ---------------------------------------------------------------------------
// Game data.
// ---------------------------------------------------------------------------
/// Whether a game record's strings fit their length prefixes.
pub open spec fn spec_encodable_game_data(g: GameDataView) -> bool {
    &&& spec_encodable_str(g.version)
    &&& spec_encodable_opt_str(g.developer)
    &&& spec_encodable_opt_str(g.publisher)
    &&& g.sys_platform.len() <= u64::MAX
    &&& spec_encodable_distribution(g.distribution)
}

/// A game record: version, game type, developer, publisher, platforms,
/// distribution, in that order.
#[verifier::opaque]
pub open spec fn spec_enc_game_data(g: GameDataView) -> Seq<u8> {
    spec_enc_str(g.version) + spec_enc_game_type(g.game_type) + spec_enc_opt_str(g.developer)
        + spec_enc_opt_str(g.publisher) + spec_enc_platforms(g.sys_platform)
        + spec_enc_distribution(g.distribution)
}

/// Reads a game record.
#[verifier::opaque]
pub open spec fn spec_dec_game_data(b: Seq<u8>) -> Option<(GameDataView, int)> {
    match spec_dec_str(b) {
        None => None,
        Some((version, k1)) => match spec_dec_game_type(b.skip(k1)) {
            None => None,
            Some((game_type, k2)) => match spec_dec_opt_str(b.skip(k1 + k2)) {
                None => None,
                Some((developer, k3)) => match spec_dec_opt_str(b.skip(k1 + k2 + k3)) {
                    None => None,
                    Some((publisher, k4)) => match spec_dec_platforms(b.skip(k1 + k2 + k3 + k4)) {
                        None => None,
                        Some((sys_platform, k5)) => match spec_dec_distribution(
                            b.skip(k1 + k2 + k3 + k4 + k5),
                        ) {
                            None => None,
                            Some((distribution, k6)) => Some(
                                (GameDataView {
                                    version,
                                    game_type,
                                    developer,
                                    publisher,
                                    sys_platform,
                                    distribution,
                                }, k1 + k2 + k3 + k4 + k5 + k6),
                            ),
                        },
                    },
                },
            },
        },
    }
}

/// Concatenation of byte sequences is associative.
proof fn lemma_concat_assoc(a: Seq<u8>, b: Seq<u8>, c: Seq<u8>)
    ensures
        (a + b) + c == a + (b + c),
{
    assert((a + b) + c =~= a + (b + c));
}

/// Skipping past the first part of a concatenation leaves the second.
proof fn lemma_skip_concat(a: Seq<u8>, b: Seq<u8>)
    ensures
        (a + b).skip(a.len() as int) == b,
{
    assert((a + b).skip(a.len() as int) =~= b);
}

/// Reading the encoding of `g` yields `g` back.
#[verifier::spinoff_prover]
#[verifier::rlimit(100)]
pub proof fn lemma_dec_game_data(g: GameDataView, rest: Seq<u8>)
    requires
        spec_encodable_game_data(g),
    ensures
        spec_dec_game_data(spec_enc_game_data(g) + rest) == Some((
            g,
            spec_enc_game_data(g).len() as int,
        )),
{
    reveal(spec_enc_game_data);
    reveal(spec_dec_game_data);
    let e1 = spec_enc_str(g.version);
    let e2 = spec_enc_game_type(g.game_type);
    let e3 = spec_enc_opt_str(g.developer);
    let e4 = spec_enc_opt_str(g.publisher);
    let e5 = spec_enc_platforms(g.sys_platform);
    let e6 = spec_enc_distribution(g.distribution);
    let t6 = e6 + rest;
    let t5 = e5 + t6;
    let t4 = e4 + t5;
    let t3 = e3 + t4;
    let t2 = e2 + t3;
    let t1 = e1 + t2;
    let b = spec_enc_game_data(g) + rest;
    assert(b == t1) by {
        lemma_concat_assoc(e1 + e2 + e3 + e4 + e5, e6, rest);
        lemma_concat_assoc(e1 + e2 + e3 + e4, e5, t6);
        lemma_concat_assoc(e1 + e2 + e3, e4, t5);
        lemma_concat_assoc(e1 + e2, e3, t4);
        lemma_concat_assoc(e1, e2, t3);
    }
    lemma_dec_str(g.version, t2);
    let o1 = e1.len() as int;
    lemma_skip_concat(e1, t2);
    assert(b.skip(o1) == t2);
    assert(t2[0] == e2[0]);
    assert(spec_dec_game_type(t2) == Some((g.game_type, 1int)));
    let o2 = o1 + 1;
    assert(b.skip(o2) == t3) by {
        lemma_skip_concat(e2, t3);
        assert(b.skip(o2) =~= t2.skip(1));
        assert(t2.skip(1) =~= t3);
    }
    lemma_dec_opt_str(g.developer, t4);
    let o3 = o2 + e3.len() as int;
    assert(b.skip(o3) == t4) by {
        lemma_skip_concat(e3, t4);
        assert(b.skip(o3) =~= t3.skip(e3.len() as int));
    }
    lemma_dec_opt_str(g.publisher, t5);
    let o4 = o3 + e4.len() as int;
    assert(b.skip(o4) == t5) by {
        lemma_skip_concat(e4, t5);
        assert(b.skip(o4) =~= t4.skip(e4.len() as int));
    }
    lemma_dec_platforms(g.sys_platform, t6);
    let o5 = o4 + e5.len() as int;
    assert(b.skip(o5) == t6) by {
        lemma_skip_concat(e5, t6);
        assert(b.skip(o5) =~= t5.skip(e5.len() as int));
    }
    lemma_dec_distribution(g.distribution, rest);
}

fn enc_game_data(g: &GameData, out: &mut Vec<u8>)
    ensures
        final(out)@ == old(out)@ + spec_enc_game_data(g@),
        spec_encodable_game_data(g@),
{
    proof {
        reveal(spec_enc_game_data);
    }
    enc_str(g.version.as_str(), out);
    enc_game_type(&g.game_type, out);
    enc_opt_str(&g.developer, out);
    enc_opt_str(&g.publisher, out);
    enc_platforms(&g.sys_platform, out);
    enc_distribution(&g.distribution, out);
    proof {
        assert(out@ =~= old(out)@ + spec_enc_game_data(g@));
    }
}

#[verifier::rlimit(100)]
fn dec_game_data(bytes: &Vec<u8>, pos: usize) -> (r: Option<(GameData, usize)>)
    requires
        pos <= bytes@.len(),
    ensures
        match r {
            Some((g, p)) => {
                &&& pos <= p <= bytes@.len()
                &&& spec_dec_game_data(bytes@.skip(pos as int)) matches Some((v, k)) && v == g@
                    && k == p - pos
            },
            None => spec_dec_game_data(bytes@.skip(pos as int)) is None,
        },
{
    proof {
        reveal(spec_dec_game_data);
    }
    let t1 = dec_str(bytes, pos);
    match t1 {
        None => None,
        Some((version, p1)) => {
            proof {
                assert(bytes@.skip(pos as int).skip(p1 - pos) =~= bytes@.skip(p1 as int));
            }
            match dec_game_type(bytes, p1) {
                None => None,
                Some((game_type, p2)) => {
                    proof {
                        assert(bytes@.skip(pos as int).skip(p2 - pos) =~= bytes@.skip(p2 as int));
                    }
                    match dec_opt_str(bytes, p2) {
                        None => None,
                        Some((developer, p3)) => {
                            proof {
                                assert(bytes@.skip(pos as int).skip(p3 - pos) =~= bytes@.skip(
                                    p3 as int,
                                ));
                            }
                            match dec_opt_str(bytes, p3) {
                                None => None,
                                Some((publisher, p4)) => {
                                    proof {
                                        assert(bytes@.skip(pos as int).skip(p4 - pos)
                                            =~= bytes@.skip(p4 as int));
                                    }
                                    match dec_platforms(bytes, p4) {
                                        None => None,
                                        Some((sys_platform, p5)) => {
                                            proof {
                                                assert(bytes@.skip(pos as int).skip(p5 - pos)
                                                    =~= bytes@.skip(p5 as int));
                                            }
                                            match dec_distribution(bytes, p5) {
                                                None => None,
                                                Some((distribution, p6)) => {
                                                    let g = GameData {
                                                        version,
                                                        game_type,
                                                        developer,
                                                        publisher,
                                                        sys_platform,
                                                        distribution,
                                                    };
                                                    proof {
                                                        let v = spec_dec_game_data(
                                                            bytes@.skip(pos as int),
                                                        ).unwrap().0;
                                                        assert(v =~= g@);
                                                    }
                                                    Some((g, p6))
                                                },
                                            }
                                        },
                                    }
                                },
                            }
                        },
                    }
                },
            }
        },
    }
}

// ---------------------------------------------------------------------------
// Content info.
// ---------------------------------------------------------------------------
/// Whether a content classification's strings fit their length prefixes.
pub open spec fn spec_encodable_content(c: ContentInfoView) -> bool {
    match c {
        ContentInfoView::Undefined => true,
        ContentInfoView::Game(g) => spec_encodable_game_data(g),
    }
}

/// A content classification: a variant tag, then the game record if any.
#[verifier::opaque]
pub open spec fn spec_enc_content(c: ContentInfoView) -> Seq<u8> {
    match c {
        ContentInfoView::Undefined => seq![0u8],
        ContentInfoView::Game(g) => seq![1u8] + spec_enc_game_data(g),
    }
}

/// Reads a content classification.
#[verifier::opaque]
pub open spec fn spec_dec_content(b: Seq<u8>) -> Option<(ContentInfoView, int)> {
    if b.len() < 1 {
        None
    } else if b[0] == 0u8 {
        Some((ContentInfoView::Undefined, 1int))
    } else if b[0] == 1u8 {
        match spec_dec_game_data(b.skip(1)) {
            Some((g, k)) => Some((ContentInfoView::Game(g), 1 + k)),
            None => None,
        }
    } else {
        None
    }
}

/// Reading the encoding of `c` yields `c` back.
pub proof fn lemma_dec_content(c: ContentInfoView, rest: Seq<u8>)
    requires
        spec_encodable_content(c),
    ensures
        spec_dec_content(spec_enc_content(c) + rest) == Some((
            c,
            spec_enc_content(c).len() as int,
        )),
{
    reveal(spec_enc_content);
    reveal(spec_dec_content);
    let b = spec_enc_content(c) + rest;
    match c {
        ContentInfoView::Undefined => {
            assert(b[0] == 0u8);
        },
        ContentInfoView::Game(g) => {
            assert(b[0] == 1u8);
            assert(b.skip(1) =~= spec_enc_game_data(g) + rest);
            lemma_dec_game_data(g, rest);
        },
    }
}

fn enc_content(c: &ContentInfo, out: &mut Vec<u8>)
    ensures
        final(out)@ == old(out)@ + spec_enc_content(c@),
        spec_encodable_content(c@),
{
    proof {
        reveal(spec_enc_content);
    }
    match c {
        ContentInfo::Undefined => {
            out.push(0u8);
            assert(out@ =~= old(out)@ + spec_enc_content(c@));
        },
        ContentInfo::Game(g) => {
            out.push(1u8);
            enc_game_data(g, out);
            assert(out@ =~= old(out)@ + spec_enc_content(c@));
        },
    }
}

fn dec_content(bytes: &Vec<u8>, pos: usize) -> (r: Option<(ContentInfo, usize)>)
    requires
        pos <= bytes@.len(),
    ensures
        match r {
            Some((c, p)) => {
                &&& pos <= p <= bytes@.len()
                &&& spec_dec_content(bytes@.skip(pos as int)) matches Some((v, k)) && v == c@ && k
                    == p - pos
            },
            None => spec_dec_content(bytes@.skip(pos as int)) is None,
        },
{
    proof {
        reveal(spec_dec_content);
    }
    if pos >= bytes.len() {
        return None;
    }
    proof {
        assert(bytes@.skip(pos as int)[0] == bytes@[pos as int]);
    }
    let tag = bytes[pos];
    if tag == 0u8 {
        Some((ContentInfo::Undefined, pos + 1))
    } else if tag == 1u8 {
        proof {
            assert(bytes@.skip(pos as int).skip(1) =~= bytes@.skip(pos + 1));
        }
        match dec_game_data(bytes, pos + 1) {
            Some((g, p1)) => Some((ContentInfo::Game(g), p1)),
            None => None,
        }
    } else {
        None
    }
}

// ---------------------------------------------------------------------------
// Archive info.
// ---------------------------------------------------------------------------
/// Whether an archive state's strings fit their length prefixes.
pub open spec fn spec_encodable_archive(a: ArchiveInfoView) -> bool {
    match a {
        ArchiveInfoView::Absent => true,
        ArchiveInfoView::ArchiveFile { path, password, .. } => spec_encodable_str(path)
            && spec_encodable_opt_str(password),
        ArchiveInfoView::CommonFile { path, .. } => spec_encodable_str(path),
        ArchiveInfoView::Directory { path, .. } => spec_encodable_str(path),
    }
}

/// An archive state: a variant tag, then its fields.
#[verifier::opaque]
pub open spec fn spec_enc_archive(a: ArchiveInfoView) -> Seq<u8> {
    match a {
        ArchiveInfoView::Absent => seq![0u8],
        ArchiveInfoView::ArchiveFile { size, path, password } => seq![1u8] + spec_enc_u64(size)
            + spec_enc_str(path) + spec_enc_opt_str(password),
        ArchiveInfoView::CommonFile { size, path } => seq![2u8] + spec_enc_u64(size)
            + spec_enc_str(path),
        ArchiveInfoView::Directory { size, path } => seq![3u8] + spec_enc_u64(size)
            + spec_enc_str(path),
    }
}

/// Reads an archive state.
#[verifier::opaque]
pub open spec fn spec_dec_archive(b: Seq<u8>) -> Option<(ArchiveInfoView, int)> {
    if b.len() < 1 {
        None
    } else if b[0] == 0u8 {
        Some((ArchiveInfoView::Absent, 1int))
    } else if b[0] == 1u8 {
        match spec_dec_u64(b.skip(1)) {
            Some((size, k1)) => match spec_dec_str(b.skip(1 + k1)) {
                Some((path, k2)) => match spec_dec_opt_str(b.skip(1 + k1 + k2)) {
                    Some((password, k3)) => Some(
                        (ArchiveInfoView::ArchiveFile { size, path, password }, 1 + k1 + k2 + k3),
                    ),
                    None => None,
                },
                None => None,
            },
            None => None,
        }
    } else if b[0] == 2u8 {
        match spec_dec_u64(b.skip(1)) {
            Some((size, k1)) => match spec_dec_str(b.skip(1 + k1)) {
                Some((path, k2)) => Some(
                    (ArchiveInfoView::CommonFile { size, path }, 1 + k1 + k2),
                ),
                None => None,
            },
            None => None,
        }
    } else if b[0] == 3u8 {
        match spec_dec_u64(b.skip(1)) {
            Some((size, k1)) => match spec_dec_str(b.skip(1 + k1)) {
                Some((path, k2)) => Some((ArchiveInfoView::Directory { size, path }, 1 + k1 + k2)),
                None => None,
            },
            None => None,
        }
    } else {
        None
    }
}

/// Reading the encoding of `a` yields `a` back.
#[verifier::spinoff_prover]
#[verifier::rlimit(100)]
pub proof fn lemma_dec_archive(a: ArchiveInfoView, rest: Seq<u8>)
    requires
        spec_encodable_archive(a),
    ensures
        spec_dec_archive(spec_enc_archive(a) + rest) == Some((
            a,
            spec_enc_archive(a).len() as int,
        )),
{
    reveal(spec_enc_archive);
    reveal(spec_dec_archive);
    let b = spec_enc_archive(a) + rest;
    match a {
        ArchiveInfoView::Absent => {
            assert(b[0] == 0u8);
        },
        ArchiveInfoView::ArchiveFile { size, path, password } => {
            assert(b[0] == 1u8);
            let e1 = spec_enc_u64(size);
            let e2 = spec_enc_str(path);
            let e3 = spec_enc_opt_str(password);
            let t3 = e3 + rest;
            let t2 = e2 + t3;
            let t1 = e1 + t2;
            assert(b.skip(1) == t1) by {
                lemma_concat_assoc(seq![1u8] + e1 + e2, e3, rest);
                lemma_concat_assoc(seq![1u8] + e1, e2, t3);
                lemma_concat_assoc(seq![1u8], e1, t2);
                lemma_skip_concat(seq![1u8], t1);
                assert(b == seq![1u8] + t1);
            }
            lemma_dec_u64(size, t2);
            lemma_skip_concat(e1, t2);
            assert(b.skip(1).skip(8) =~= b.skip(9));
            assert(b.skip(9) == t2);
            lemma_dec_str(path, t3);
            lemma_skip_concat(e2, t3);
            assert(b.skip(9).skip(e2.len() as int) =~= b.skip(9 + e2.len() as int));
            assert(b.skip(9 + e2.len() as int) == t3);
            lemma_dec_opt_str(password, rest);
        },
        ArchiveInfoView::CommonFile { size, path } => {
            assert(b[0] == 2u8);
            let e1 = spec_enc_u64(size);
            let e2 = spec_enc_str(path);
            let t2 = e2 + rest;
            let t1 = e1 + t2;
            assert(b.skip(1) == t1) by {
                lemma_concat_assoc(seq![2u8] + e1, e2, rest);
                lemma_concat_assoc(seq![2u8], e1, t2);
                lemma_skip_concat(seq![2u8], t1);
                assert(b == seq![2u8] + t1);
            }
            lemma_dec_u64(size, t2);
            lemma_skip_concat(e1, t2);
            assert(b.skip(1).skip(8) =~= b.skip(9));
            assert(b.skip(9) == t2);
            lemma_dec_str(path, rest);
        },
        ArchiveInfoView::Directory { size, path } => {
            assert(b[0] == 3u8);
            let e1 = spec_enc_u64(size);
            let e2 = spec_enc_str(path);
            let t2 = e2 + rest;
            let t1 = e1 + t2;
            assert(b.skip(1) == t1) by {
                lemma_concat_assoc(seq![3u8] + e1, e2, rest);
                lemma_concat_assoc(seq![3u8], e1, t2);
                lemma_skip_concat(seq![3u8], t1);
                assert(b == seq![3u8] + t1);
            }
            lemma_dec_u64(size, t2);
            lemma_skip_concat(e1, t2);
            assert(b.skip(1).skip(8) =~= b.skip(9));
            assert(b.skip(9) == t2);
            lemma_dec_str(path, rest);
        },
    }
}

fn enc_archive(a: &ArchiveInfo, out: &mut Vec<u8>)
    ensures
        final(out)@ == old(out)@ + spec_enc_archive(a@),
        spec_encodable_archive(a@),
{
    proof {
        reveal(spec_enc_archive);
    }
    match a {
        ArchiveInfo::Absent => {
            out.push(0u8);
            assert(out@ =~= old(out)@ + spec_enc_archive(a@));
        },
        ArchiveInfo::ArchiveFile { size, path, password } => {
            out.push(1u8);
            enc_u64(*size, out);
            enc_str(path.as_str(), out);
            enc_opt_str(password, out);
            assert(out@ =~= old(out)@ + spec_enc_archive(a@));
        },
        ArchiveInfo::CommonFile { size, path } => {
            out.push(2u8);
            enc_u64(*size, out);
            enc_str(path.as_str(), out);
            assert(out@ =~= old(out)@ + spec_enc_archive(a@));
        },
        ArchiveInfo::Directory { size, path } => {
            out.push(3u8);
            enc_u64(*size, out);
            enc_str(path.as_str(), out);
            assert(out@ =~= old(out)@ + spec_enc_archive(a@));
        },
    }
}

#[verifier::rlimit(60)]
fn dec_archive(bytes: &Vec<u8>, pos: usize) -> (r: Option<(ArchiveInfo, usize)>)
    requires
        pos <= bytes@.len(),
    ensures
        match r {
            Some((a, p)) => {
                &&& pos <= p <= bytes@.len()
                &&& spec_dec_archive(bytes@.skip(pos as int)) matches Some((v, k)) && v == a@ && k
                    == p - pos
            },
            None => spec_dec_archive(bytes@.skip(pos as int)) is None,
        },
{
    proof {
        reveal(spec_dec_archive);
    }
    if pos >= bytes.len() {
        return None;
    }
    proof {
        assert(bytes@.skip(pos as int)[0] == bytes@[pos as int]);
    }
    let tag = bytes[pos];
    if tag == 0u8 {
        Some((ArchiveInfo::Absent, pos + 1))
    } else if tag == 1u8 {
        proof {
            assert(bytes@.skip(pos as int).skip(1) =~= bytes@.skip(pos + 1));
        }
        match dec_u64(bytes, pos + 1) {
            None => None,
            Some((size, p1)) => {
                proof {
                    assert(bytes@.skip(pos as int).skip(p1 - pos) =~= bytes@.skip(p1 as int));
                }
                match dec_str(bytes, p1) {
                    None => None,
                    Some((path, p2)) => {
                        proof {
                            assert(bytes@.skip(pos as int).skip(p2 - pos) =~= bytes@.skip(
                                p2 as int,
                            ));
                        }
                        match dec_opt_str(bytes, p2) {
                            None => None,
                            Some((password, p3)) => Some(
                                (ArchiveInfo::ArchiveFile { size, path, password }, p3),
                            ),
                        }
                    },
                }
            },
        }
    } else if tag == 2u8 {
        proof {
            assert(bytes@.skip(pos as int).skip(1) =~= bytes@.skip(pos + 1));
        }
        match dec_u64(bytes, pos + 1) {
            None => None,
            Some((size, p1)) => {
                proof {
                    assert(bytes@.skip(pos as int).skip(p1 - pos) =~= bytes@.skip(p1 as int));
                }
                match dec_str(bytes, p1) {
                    None => None,
                    Some((path, p2)) => Some((ArchiveInfo::CommonFile { size, path }, p2)),
                }
            },
        }
    } else if tag == 3u8 {
        proof {
            assert(bytes@.skip(pos as int).skip(1) =~= bytes@.skip(pos + 1));
        }
        match dec_u64(bytes, pos + 1) {
            None => None,
            Some((size, p1)) => {
                proof {
                    assert(bytes@.skip(pos as int).skip(p1 - pos) =~= bytes@.skip(p1 as int));
                }
                match dec_str(bytes, p1) {
                    None => None,
                    Some((path, p2)) => Some((ArchiveInfo::Directory { size, path }, p2)),
                }
            },
        }
    } else {
        None
    }
}

// ---------------------------------------------------------------------------
// Deploy info.
// ---------------------------------------------------------------------------
/// Whether a deployment state's path fits its length prefix.
pub open spec fn spec_encodable_deploy(d: DeployInfoView) -> bool {
    match d {
        DeployInfoView::Absent => true,
        DeployInfoView::File { path } => spec_encodable_str(path),
        DeployInfoView::Directory { path } => spec_encodable_str(path),
    }
}

/// A deployment state: a variant tag, then the recorded path if any.
pub open spec fn spec_enc_deploy(d: DeployInfoView) -> Seq<u8> {
    match d {
        DeployInfoView::Absent => seq![0u8],
        DeployInfoView::File { path } => seq![1u8] + spec_enc_str(path),
        DeployInfoView::Directory { path } => seq![2u8] + spec_enc_str(path),
    }
}

/// Reads a deployment state.
pub open spec fn spec_dec_deploy(b: Seq<u8>) -> Option<(DeployInfoView, int)> {
    if b.len() < 1 {
        None
    } else if b[0] == 0u8 {
        Some((DeployInfoView::Absent, 1int))
    } else if b[0] == 1u8 {
        match spec_dec_str(b.skip(1)) {
            Some((path, k)) => Some((DeployInfoView::File { path }, 1 + k)),
            None => None,
        }
    } else if b[0] == 2u8 {
        match spec_dec_str(b.skip(1)) {
            Some((path, k)) => Some((DeployInfoView::Directory { path }, 1 + k)),
            None => None,
        }
    } else {
        None
    }
}

/// Reading the encoding of `d` yields `d` back.
pub proof fn lemma_dec_deploy(d: DeployInfoView, rest: Seq<u8>)
    requires
        spec_encodable_deploy(d),
    ensures
        spec_dec_deploy(spec_enc_deploy(d) + rest) == Some((d, spec_enc_deploy(d).len() as int)),
{
    let b = spec_enc_deploy(d) + rest;
    match d {
        DeployInfoView::Absent => {
            assert(b[0] == 0u8);
        },
        DeployInfoView::File { path } => {
            assert(b[0] == 1u8);
            assert(b.skip(1) =~= spec_enc_str(path) + rest);
            lemma_dec_str(path, rest);
        },
        DeployInfoView::Directory { path } => {
            assert(b[0] == 2u8);
            assert(b.skip(1) =~= spec_enc_str(path) + rest);
            lemma_dec_str(path, rest);
        },
    }
}

fn enc_deploy(d: &DeployInfo, out: &mut Vec<u8>)
    ensures
        final(out)@ == old(out)@ + spec_enc_deploy(d@),
        spec_encodable_deploy(d@),
{
    match d {
        DeployInfo::Absent => {
            out.push(0u8);
            assert(out@ =~= old(out)@ + spec_enc_deploy(d@));
        },
        DeployInfo::File { path } => {
            out.push(1u8);
            enc_str(path.as_str(), out);
            assert(out@ =~= old(out)@ + spec_enc_deploy(d@));
        },
        DeployInfo::Directory { path } => {
            out.push(2u8);
            enc_str(path.as_str(), out);
            assert(out@ =~= old(out)@ + spec_enc_deploy(d@));
        },
    }
}

fn dec_deploy(bytes: &Vec<u8>, pos: usize) -> (r: Option<(DeployInfo, usize)>)
    requires
        pos <= bytes@.len(),
    ensures
        match r {
            Some((d, p)) => {
                &&& pos <= p <= bytes@.len()
                &&& spec_dec_deploy(bytes@.skip(pos as int)) matches Some((v, k)) && v == d@ && k
                    == p - pos
            },
            None => spec_dec_deploy(bytes@.skip(pos as int)) is None,
        },
{
    if pos >= bytes.len() {
        return None;
    }
    proof {
        assert(bytes@.skip(pos as int)[0] == bytes@[pos as int]);
    }
    let tag = bytes[pos];
    if tag == 0u8 {
        Some((DeployInfo::Absent, pos + 1))
    } else if tag == 1u8 {
        proof {
            assert(bytes@.skip(pos as int).skip(1) =~= bytes@.skip(pos + 1));
        }
        match dec_str(bytes, pos + 1) {
            Some((path, p1)) => Some((DeployInfo::File { path }, p1)),
            None => None,
        }
    } else if tag == 2u8 {
        proof {
            assert(bytes@.skip(pos as int).skip(1) =~= bytes@.skip(pos + 1));
        }
        match dec_str(bytes, pos + 1) {
            Some((path, p1)) => Some((DeployInfo::Directory { path }, p1)),
            None => None,
        }
    } else {
        None
    }
}

// ---------------------------------------------------------------------------
// The record.
// ---------------------------------------------------------------------------
/// Whether a record's strings and lists fit their length prefixes. Every
/// record held in memory satisfies this; the bound only matters for the
/// specification, whose sequences are unbounded.
pub open spec fn spec_encodable_record(m: MetadataView) -> bool {
    &&& spec_encodable_str(m.id)
    &&& spec_encodable_str(m.title)
    &&& spec_encodable_strs(m.alias)
    &&& spec_encodable_strs(m.tags)
    &&& spec_encodable_opt_str(m.collection)
    &&& spec_encodable_opt_str(m.description)
    &&& spec_encodable_opt_str(m.image)
    &&& spec_encodable_content(m.content_info)
    &&& spec_encodable_archive(m.archive_info)
    &&& spec_encodable_deploy(m.deploy_info)
}

/// The trailing fields of a record: description, image, content
/// classification, archive state, deployment state, and the two instants.
pub open spec fn spec_enc_record_tail(m: MetadataView) -> Seq<u8> {
    spec_enc_opt_str(m.description) + spec_enc_opt_str(m.image) + spec_enc_content(m.content_info)
        + spec_enc_archive(m.archive_info) + spec_enc_deploy(m.deploy_info) + spec_enc_u64(
        m.create_time,
    ) + spec_enc_u64(m.update_time)
}

/// A record: id, title, alias list, tag list, collection, then the
/// trailing fields of `spec_enc_record_tail`.
pub open spec fn spec_enc_record(m: MetadataView) -> Seq<u8> {
    spec_enc_str(m.id) + spec_enc_str(m.title) + spec_enc_strs(m.alias) + spec_enc_strs(m.tags)
        + spec_enc_opt_str(m.collection) + spec_enc_record_tail(m)
}

/// The trailing fields read back, as one tuple.
pub open spec fn spec_dec_record_tail(b: Seq<u8>) -> Option<
    ((Option<Seq<char>>, Option<Seq<char>>, ContentInfoView, ArchiveInfoView, DeployInfoView, u64, u64), int),
> {
    match spec_dec_opt_str(b) {
        None => None,
        Some((description, k6)) => match spec_dec_opt_str(b.skip(k6)) {
            None => None,
            Some((image, k7)) => match spec_dec_content(b.skip(k6 + k7)) {
                None => None,
                Some((content_info, k8)) => match spec_dec_archive(b.skip(k6 + k7 + k8)) {
                    None => None,
                    Some((archive_info, k9)) => match spec_dec_deploy(b.skip(k6 + k7 + k8 + k9)) {
                        None => None,
                        Some((deploy_info, k10)) => match spec_dec_u64(
                            b.skip(k6 + k7 + k8 + k9 + k10),
                        ) {
                            None => None,
                            Some((create_time, k11)) => match spec_dec_u64(
                                b.skip(k6 + k7 + k8 + k9 + k10 + k11),
                            ) {
                                None => None,
                                Some((update_time, k12)) => Some(
                                    ((
                                        description,
                                        image,
                                        content_info,
                                        archive_info,
                                        deploy_info,
                                        create_time,
                                        update_time,
                                    ), k6 + k7 + k8 + k9 + k10 + k11 + k12),
                                ),
                            },
                        },
                    },
                },
            },
        },
    }
}

/// Reads a record.
pub open spec fn spec_dec_record(b: Seq<u8>) -> Option<(MetadataView, int)> {
    match spec_dec_str(b) {
        None => None,
        Some((id, k1)) => match spec_dec_str(b.skip(k1)) {
            None => None,
            Some((title, k2)) => match spec_dec_strs(b.skip(k1 + k2)) {
                None => None,
                Some((alias, k3)) => match spec_dec_strs(b.skip(k1 + k2 + k3)) {
                    None => None,
                    Some((tags, k4)) => match spec_dec_opt_str(b.skip(k1 + k2 + k3 + k4)) {
                        None => None,
                        Some((collection, k5)) => match spec_dec_record_tail(
                            b.skip(k1 + k2 + k3 + k4 + k5),
                        ) {
                            None => None,
                            Some((tail, kt)) => Some(
                                (MetadataView {
                                    id,
                                    title,
                                    alias,
                                    tags,
                                    collection,
                                    description: tail.0,
                                    image: tail.1,
                                    content_info: tail.2,
                                    archive_info: tail.3,
                                    deploy_info: tail.4,
                                    create_time: tail.5,
                                    update_time: tail.6,
                                }, k1 + k2 + k3 + k4 + k5 + kt),
                            ),
                        },
                    },
                },
            },
        },
    }
}

/// Reading the encoding of a record's trailing fields yields them back.
#[verifier::spinoff_prover]
#[verifier::rlimit(100)]
pub proof fn lemma_dec_record_tail(m: MetadataView, rest: Seq<u8>)
    requires
        spec_encodable_record(m),
    ensures
        spec_dec_record_tail(spec_enc_record_tail(m) + rest) == Some(
            ((
                m.description,
                m.image,
                m.content_info,
                m.archive_info,
                m.deploy_info,
                m.create_time,
                m.update_time,
            ), spec_enc_record_tail(m).len() as int),
        ),
{
    let e6 = spec_enc_opt_str(m.description);
    let e7 = spec_enc_opt_str(m.image);
    let e8 = spec_enc_content(m.content_info);
    let e9 = spec_enc_archive(m.archive_info);
    let e10 = spec_enc_deploy(m.deploy_info);
    let e11 = spec_enc_u64(m.create_time);
    let e12 = spec_enc_u64(m.update_time);
    let t12 = e12 + rest;
    let t11 = e11 + t12;
    let t10 = e10 + t11;
    let t9 = e9 + t10;
    let t8 = e8 + t9;
    let t7 = e7 + t8;
    let t6 = e6 + t7;
    let b = spec_enc_record_tail(m) + rest;
    assert(b == t6) by {
        lemma_concat_assoc(e6 + e7 + e8 + e9 + e10 + e11, e12, rest);
        lemma_concat_assoc(e6 + e7 + e8 + e9 + e10, e11, t12);
        lemma_concat_assoc(e6 + e7 + e8 + e9, e10, t11);
        lemma_concat_assoc(e6 + e7 + e8, e9, t10);
        lemma_concat_assoc(e6 + e7, e8, t9);
        lemma_concat_assoc(e6, e7, t8);
    }
    lemma_dec_opt_str(m.description, t7);
    let o6 = e6.len() as int;
    lemma_skip_concat(e6, t7);
    assert(b.skip(o6) == t7);
    lemma_dec_opt_str(m.image, t8);
    let o7 = o6 + e7.len() as int;
    assert(b.skip(o7) == t8) by {
        lemma_skip_concat(e7, t8);
        assert(b.skip(o7) =~= t7.skip(e7.len() as int));
    }
    lemma_dec_content(m.content_info, t9);
    let o8 = o7 + e8.len() as int;
    assert(b.skip(o8) == t9) by {
        lemma_skip_concat(e8, t9);
        assert(b.skip(o8) =~= t8.skip(e8.len() as int));
    }
    lemma_dec_archive(m.archive_info, t10);
    let o9 = o8 + e9.len() as int;
    assert(b.skip(o9) == t10) by {
        lemma_skip_concat(e9, t10);
        assert(b.skip(o9) =~= t9.skip(e9.len() as int));
    }
    lemma_dec_deploy(m.deploy_info, t11);
    let o10 = o9 + e10.len() as int;
    assert(b.skip(o10) == t11) by {
        lemma_skip_concat(e10, t11);
        assert(b.skip(o10) =~= t10.skip(e10.len() as int));
    }
    lemma_dec_u64(m.create_time, t12);
    let o11 = o10 + 8;
    assert(b.skip(o11) == t12) by {
        lemma_skip_concat(e11, t12);
        assert(b.skip(o11) =~= t11.skip(8));
    }
    lemma_dec_u64(m.update_time, rest);
}

/// The round-trip law of the record codec: reading the encoding of any
/// encodable record yields that record, exactly, consuming exactly its
/// encoding.
#[verifier::spinoff_prover]
#[verifier::rlimit(100)]
pub proof fn lemma_record_round_trip(m: MetadataView, rest: Seq<u8>)
    requires
        spec_encodable_record(m),
    ensures
        spec_dec_record(spec_enc_record(m) + rest) == Some((
            m,
            spec_enc_record(m).len() as int,
        )),
{
    let e1 = spec_enc_str(m.id);
    let e2 = spec_enc_str(m.title);
    let e3 = spec_enc_strs(m.alias);
    let e4 = spec_enc_strs(m.tags);
    let e5 = spec_enc_opt_str(m.collection);
    let etail = spec_enc_record_tail(m);
    let t6 = etail + rest;
    let t5 = e5 + t6;
    let t4 = e4 + t5;
    let t3 = e3 + t4;
    let t2 = e2 + t3;
    let t1 = e1 + t2;
    let b = spec_enc_record(m) + rest;
    assert(b == t1) by {
        lemma_concat_assoc(e1 + e2 + e3 + e4 + e5, etail, rest);
        lemma_concat_assoc(e1 + e2 + e3 + e4, e5, t6);
        lemma_concat_assoc(e1 + e2 + e3, e4, t5);
        lemma_concat_assoc(e1 + e2, e3, t4);
        lemma_concat_assoc(e1, e2, t3);
    }
    lemma_dec_str(m.id, t2);
    let o1 = e1.len() as int;
    lemma_skip_concat(e1, t2);
    assert(b.skip(o1) == t2);
    lemma_dec_str(m.title, t3);
    let o2 = o1 + e2.len() as int;
    assert(b.skip(o2) == t3) by {
        lemma_skip_concat(e2, t3);
        assert(b.skip(o2) =~= t2.skip(e2.len() as int));
    }
    lemma_dec_strs(m.alias, t4);
    let o3 = o2 + e3.len() as int;
    assert(b.skip(o3) == t4) by {
        lemma_skip_concat(e3, t4);
        assert(b.skip(o3) =~= t3.skip(e3.len() as int));
    }
    lemma_dec_strs(m.tags, t5);
    let o4 = o3 + e4.len() as int;
    assert(b.skip(o4) == t5) by {
        lemma_skip_concat(e4, t5);
        assert(b.skip(o4) =~= t4.skip(e4.len() as int));
    }
    lemma_dec_opt_str(m.collection, t6);
    let o5 = o4 + e5.len() as int;
    assert(b.skip(o5) == t6) by {
        lemma_skip_concat(e5, t6);
        assert(b.skip(o5) =~= t5.skip(e5.len() as int));
    }
    lemma_dec_record_tail(m, rest);
    assert(spec_dec_record(b) matches Some((v, k)) && v =~= m && k == spec_enc_record(
        m,
    ).len() as int);
}

/// Renders a record in the catalog's durable binary layout. Every record
/// held in memory is encodable, so the round-trip law
/// (`lemma_record_round_trip`) applies to every encoding this produces.
pub fn encode_metadata(m: &Metadata) -> (out: Vec<u8>)
    ensures
        out@ == spec_enc_record(m@),
        spec_encodable_record(m@),
{
    let mut out: Vec<u8> = Vec::new();
    enc_str(m.id.as_str(), &mut out);
    enc_str(m.title.as_str(), &mut out);
    enc_strs(&m.alias, &mut out);
    enc_strs(&m.tags, &mut out);
    enc_opt_str(&m.collection, &mut out);
    enc_opt_str(&m.description, &mut out);
    enc_opt_str(&m.image, &mut out);
    enc_content(&m.content_info, &mut out);
    enc_archive(&m.archive_info, &mut out);
    enc_deploy(&m.deploy_info, &mut out);
    enc_u64(m.create_time, &mut out);
    enc_u64(m.update_time, &mut out);
    proof {
        assert(spec_enc_record(m@) == spec_enc_str(m@.id) + spec_enc_str(m@.title) + spec_enc_strs(
            m@.alias,
        ) + spec_enc_strs(m@.tags) + spec_enc_opt_str(m@.collection) + (spec_enc_opt_str(
            m@.description,
        ) + spec_enc_opt_str(m@.image) + spec_enc_content(m@.content_info) + spec_enc_archive(
            m@.archive_info,
        ) + spec_enc_deploy(m@.deploy_info) + spec_enc_u64(m@.create_time) + spec_enc_u64(
            m@.update_time,
        )));
        assert(out@ =~= spec_enc_record(m@));
    }
    out
}

/// Reads the trailing fields of a record.
#[verifier::spinoff_prover]
#[verifier::rlimit(100)]
fn dec_record_tail(bytes: &Vec<u8>, pos: usize) -> (r: Option<
    ((Option<String>, Option<String>, ContentInfo, ArchiveInfo, DeployInfo, u64, u64), usize),
>)
    requires
        pos <= bytes@.len(),
    ensures
        match r {
            Some((t, p)) => {
                &&& pos <= p <= bytes@.len()
                &&& spec_dec_record_tail(bytes@.skip(pos as int)) matches Some((v, k)) && v == (
                    t.0.deep_view(),
                    t.1.deep_view(),
                    t.2@,
                    t.3@,
                    t.4@,
                    t.5,
                    t.6,
                ) && k == p - pos
            },
            None => spec_dec_record_tail(bytes@.skip(pos as int)) is None,
        },
{
    match dec_opt_str(bytes, pos) {
        None => None,
        Some((description, p6)) => {
            proof {
                assert(bytes@.skip(pos as int).skip(p6 - pos) =~= bytes@.skip(p6 as int));
            }
            match dec_opt_str(bytes, p6) {
                None => None,
                Some((image, p7)) => {
                    proof {
                        assert(bytes@.skip(pos as int).skip(p7 - pos) =~= bytes@.skip(p7 as int));
                    }
                    match dec_content(bytes, p7) {
                        None => None,
                        Some((content_info, p8)) => {
                            proof {
                                assert(bytes@.skip(pos as int).skip(p8 - pos) =~= bytes@.skip(
                                    p8 as int,
                                ));
                            }
                            match dec_archive(bytes, p8) {
                                None => None,
                                Some((archive_info, p9)) => {
                                    proof {
                                        assert(bytes@.skip(pos as int).skip(p9 - pos)
                                            =~= bytes@.skip(p9 as int));
                                    }
                                    match dec_deploy(bytes, p9) {
                                        None => None,
                                        Some((deploy_info, p10)) => {
                                            proof {
                                                assert(bytes@.skip(pos as int).skip(p10 - pos)
                                                    =~= bytes@.skip(p10 as int));
                                            }
                                            match dec_u64(bytes, p10) {
                                                None => None,
                                                Some((create_time, p11)) => {
                                                    proof {
                                                        assert(bytes@.skip(pos as int).skip(
                                                            p11 - pos,
                                                        ) =~= bytes@.skip(p11 as int));
                                                    }
                                                    match dec_u64(bytes, p11) {
                                                        None => None,
                                                        Some((update_time, p12)) => Some(
                                                            ((
                                                                description,
                                                                image,
                                                                content_info,
                                                                archive_info,
                                                                deploy_info,
                                                                create_time,
                                                                update_time,
                                                            ), p12),
                                                        ),
                                                    }
                                                },
                                            }
                                        },
                                    }
                                },
                            }
                        },
                    }
                },
            }
        },
    }
}

/// Reads a record from the catalog's durable binary layout. The whole
/// input must be one encoded record; anything else yields `None` (a decode
/// failure, surfaced by the store as a serialization error).
#[verifier::spinoff_prover]
#[verifier::rlimit(100)]
pub fn decode_metadata(bytes: &Vec<u8>) -> (r: Option<Metadata>)
    ensures
        match r {
            Some(m) => spec_dec_record(bytes@) matches Some((v, k)) && v == m@ && k
                == bytes@.len(),
            None => match spec_dec_record(bytes@) {
                Some((v, k)) => k != bytes@.len(),
                None => true,
            },
        },
{
    proof {
        assert(bytes@.skip(0) =~= bytes@);
    }
    let r1 = dec_str(bytes, 0);
    match r1 {
        None => None,
        Some((id, p1)) => {
            proof {
                assert(bytes@.skip(0).skip(p1 as int) =~= bytes@.skip(p1 as int));
            }
            match dec_str(bytes, p1) {
                None => None,
                Some((title, p2)) => {
                    proof {
                        assert(bytes@.skip(0).skip(p2 as int) =~= bytes@.skip(p2 as int));
                    }
                    match dec_strs(bytes, p2) {
                        None => None,
                        Some((alias, p3)) => {
                            proof {
                                assert(bytes@.skip(0).skip(p3 as int) =~= bytes@.skip(p3 as int));
                            }
                            match dec_strs(bytes, p3) {
                                None => None,
                                Some((tags, p4)) => {
                                    proof {
                                        assert(bytes@.skip(0).skip(p4 as int) =~= bytes@.skip(
                                            p4 as int,
                                        ));
                                    }
                                    match dec_opt_str(bytes, p4) {
                                        None => None,
                                        Some((collection, p5)) => {
                                            proof {
                                                assert(bytes@.skip(0).skip(p5 as int)
                                                    =~= bytes@.skip(p5 as int));
                                            }
                                            match dec_record_tail(bytes, p5) {
                                                None => None,
                                                Some((tail, p12)) => {
                                                    if p12 != bytes.len() {
                                                        return None;
                                                    }
                                                    let (
                                                        description,
                                                        image,
                                                        content_info,
                                                        archive_info,
                                                        deploy_info,
                                                        create_time,
                                                        update_time,
                                                    ) = tail;
                                                    let m = Metadata {
                                                        id,
                                                        title,
                                                        alias,
                                                        tags,
                                                        collection,
                                                        description,
                                                        image,
                                                        content_info,
                                                        archive_info,
                                                        deploy_info,
                                                        create_time,
                                                        update_time,
                                                    };
                                                    proof {
                                                        let v = spec_dec_record(
                                                            bytes@,
                                                        ).unwrap().0;
                                                        assert(v =~= m@);
                                                    }
                                                    Some(m)
                                                },
                                            }
                                        },
                                    }
                                },
                            }
                        },
                    }
                },
            }
        },
    }
}

} // verus!
