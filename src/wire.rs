//! The binary layout of instruction payloads: little-endian integers, one byte per
//! boolean, fixed 32-byte keys, and `u32`-length-prefixed strings and sequences.
use vstd::prelude::*;
use vstd::slice::slice_subrange;
use vstd::utf8::{decode_utf8, encode_utf8, valid_utf8};

verus! {

/// Width of a public key on the wire.
pub const KEY_LEN: usize = 32;

/// A little-endian `u16`.
pub open spec fn u16_from_le(b: Seq<u8>) -> u16 {
    (b[0] as u16) | ((b[1] as u16) << 8u16)
}

/// A little-endian `u32`.
pub open spec fn u32_from_le(b: Seq<u8>) -> u32 {
    (b[0] as u32) | ((b[1] as u32) << 8u32) | ((b[2] as u32) << 16u32) | ((b[3] as u32) << 24u32)
}

/// A little-endian `u64`.
pub open spec fn u64_from_le(b: Seq<u8>) -> u64 {
    (b[0] as u64) | ((b[1] as u64) << 8u64) | ((b[2] as u64) << 16u64) | ((b[3] as u64) << 24u64)
        | ((b[4] as u64) << 32u64) | ((b[5] as u64) << 40u64) | ((b[6] as u64) << 48u64)
        | ((b[7] as u64) << 56u64)
}

/// The little-endian bytes of a `u16`.
pub open spec fn u16_to_le(v: u16) -> Seq<u8> {
    seq![v as u8, (v >> 8u16) as u8]
}

/// The little-endian bytes of a `u32`.
pub open spec fn u32_to_le(v: u32) -> Seq<u8> {
    seq![v as u8, (v >> 8u32) as u8, (v >> 16u32) as u8, (v >> 24u32) as u8]
}

/// The little-endian bytes of a `u64`.
pub open spec fn u64_to_le(v: u64) -> Seq<u8> {
    seq![
        v as u8,
        (v >> 8u64) as u8,
        (v >> 16u64) as u8,
        (v >> 24u64) as u8,
        (v >> 32u64) as u8,
        (v >> 40u64) as u8,
        (v >> 48u64) as u8,
        (v >> 56u64) as u8,
    ]
}

/// The byte of a boolean.
pub open spec fn bool_to_byte(b: bool) -> Seq<u8> {
    if b { seq![1u8] } else { seq![0u8] }
}

/// The bytes of a string: its UTF-8 length as a `u32`, then its UTF-8 encoding.
pub open spec fn string_to_wire(s: Seq<char>) -> Seq<u8> {
    u32_to_le(encode_utf8(s).len() as u32) + encode_utf8(s)
}

/// Whether a string's UTF-8 length fits its `u32` prefix.
pub open spec fn string_fits(s: Seq<char>) -> bool {
    encode_utf8(s).len() <= u32::MAX
}

pub open spec fn parse_u8(s: Seq<u8>) -> Option<(u8, Seq<u8>)> {
    if s.len() < 1 { None } else { Some((s[0], s.skip(1))) }
}

pub open spec fn parse_u16(s: Seq<u8>) -> Option<(u16, Seq<u8>)> {
    if s.len() < 2 { None } else { Some((u16_from_le(s), s.skip(2))) }
}

pub open spec fn parse_u32(s: Seq<u8>) -> Option<(u32, Seq<u8>)> {
    if s.len() < 4 { None } else { Some((u32_from_le(s), s.skip(4))) }
}

pub open spec fn parse_u64(s: Seq<u8>) -> Option<(u64, Seq<u8>)> {
    if s.len() < 8 { None } else { Some((u64_from_le(s), s.skip(8))) }
}

/// A boolean is the byte 0 or 1; any other byte is malformed.
pub open spec fn parse_bool(s: Seq<u8>) -> Option<(bool, Seq<u8>)> {
    if s.len() < 1 || s[0] > 1 { None } else { Some((s[0] == 1, s.skip(1))) }
}

pub open spec fn parse_key(s: Seq<u8>) -> Option<(Seq<u8>, Seq<u8>)> {
    if s.len() < KEY_LEN { None } else { Some((s.take(32), s.skip(32))) }
}

/// A string is a `u32` byte count, then that many bytes of valid UTF-8.
pub open spec fn parse_string(s: Seq<u8>) -> Option<(Seq<char>, Seq<u8>)> {
    match parse_u32(s) {
        None => None,
        Some((n, r)) => {
            if r.len() < n || !valid_utf8(r.take(n as int)) {
                None
            } else {
                Some((decode_utf8(r.take(n as int)), r.skip(n as int)))
            }
        },
    }
}

proof fn lemma_u16_bits(v: u16, b0: u8, b1: u8)
    requires
        b0 == v as u8,
        b1 == (v >> 8u16) as u8,
    ensures
        ((b0 as u16) | ((b1 as u16) << 8u16)) == v,
{
    assert(((b0 as u16) | ((b1 as u16) << 8u16)) == v) by (bit_vector)
        requires
            b0 == v as u8,
            b1 == (v >> 8u16) as u8,
    ;
}

proof fn lemma_u32_bits(v: u32, b0: u8, b1: u8, b2: u8, b3: u8)
    requires
        b0 == v as u8,
        b1 == (v >> 8u32) as u8,
        b2 == (v >> 16u32) as u8,
        b3 == (v >> 24u32) as u8,
    ensures
        ((b0 as u32) | ((b1 as u32) << 8u32) | ((b2 as u32) << 16u32) | ((b3 as u32) << 24u32))
            == v,
{
    assert(((b0 as u32) | ((b1 as u32) << 8u32) | ((b2 as u32) << 16u32) | ((b3 as u32)
        << 24u32)) == v) by (bit_vector)
        requires
            b0 == v as u8,
            b1 == (v >> 8u32) as u8,
            b2 == (v >> 16u32) as u8,
            b3 == (v >> 24u32) as u8,
    ;
}

proof fn lemma_u64_bits(v: u64, b: Seq<u8>)
    requires
        b.len() >= 8,
        b[0] == v as u8,
        b[1] == (v >> 8u64) as u8,
        b[2] == (v >> 16u64) as u8,
        b[3] == (v >> 24u64) as u8,
        b[4] == (v >> 32u64) as u8,
        b[5] == (v >> 40u64) as u8,
        b[6] == (v >> 48u64) as u8,
        b[7] == (v >> 56u64) as u8,
    ensures
        u64_from_le(b) == v,
{
    let (b0, b1, b2, b3, b4, b5, b6, b7) = (b[0], b[1], b[2], b[3], b[4], b[5], b[6], b[7]);
    assert((b0 as u64) | ((b1 as u64) << 8u64) | ((b2 as u64) << 16u64) | ((b3 as u64) << 24u64)
        | ((b4 as u64) << 32u64) | ((b5 as u64) << 40u64) | ((b6 as u64) << 48u64) | ((
    b7 as u64) << 56u64) == v) by (bit_vector)
        requires
            b0 == v as u8,
            b1 == (v >> 8u64) as u8,
            b2 == (v >> 16u64) as u8,
            b3 == (v >> 24u64) as u8,
            b4 == (v >> 32u64) as u8,
            b5 == (v >> 40u64) as u8,
            b6 == (v >> 48u64) as u8,
            b7 == (v >> 56u64) as u8,
    ;
}

pub proof fn lemma_u8_round_trip(v: u8, rest: Seq<u8>)
    ensures
        parse_u8(seq![v] + rest) == Some((v, rest)),
{
    assert((seq![v] + rest).skip(1) =~= rest);
}

pub proof fn lemma_u16_round_trip(v: u16, rest: Seq<u8>)
    ensures
        parse_u16(u16_to_le(v) + rest) == Some((v, rest)),
{
    let b = u16_to_le(v) + rest;
    lemma_u16_bits(v, b[0], b[1]);
    assert(b.skip(2) =~= rest);
}

pub proof fn lemma_u32_round_trip(v: u32, rest: Seq<u8>)
    ensures
        parse_u32(u32_to_le(v) + rest) == Some((v, rest)),
{
    let b = u32_to_le(v) + rest;
    lemma_u32_bits(v, b[0], b[1], b[2], b[3]);
    assert(b.skip(4) =~= rest);
}

pub proof fn lemma_u64_round_trip(v: u64, rest: Seq<u8>)
    ensures
        parse_u64(u64_to_le(v) + rest) == Some((v, rest)),
{
    let b = u64_to_le(v) + rest;
    lemma_u64_bits(v, b);
    assert(b.skip(8) =~= rest);
}

pub proof fn lemma_bool_round_trip(v: bool, rest: Seq<u8>)
    ensures
        parse_bool(bool_to_byte(v) + rest) == Some((v, rest)),
{
    assert((bool_to_byte(v) + rest).skip(1) =~= rest);
}

pub proof fn lemma_key_round_trip(k: Seq<u8>, rest: Seq<u8>)
    requires
        k.len() == KEY_LEN,
    ensures
        parse_key(k + rest) == Some((k, rest)),
{
    assert((k + rest).take(32) =~= k);
    assert((k + rest).skip(32) =~= rest);
}

pub proof fn lemma_string_round_trip(v: Seq<char>, rest: Seq<u8>)
    requires
        string_fits(v),
    ensures
        parse_string(string_to_wire(v) + rest) == Some((v, rest)),
{
    let e = encode_utf8(v);
    let n = e.len() as u32;
    let s = string_to_wire(v) + rest;
    assert(s =~= u32_to_le(n) + (e + rest));
    lemma_u32_round_trip(n, e + rest);
    assert((e + rest).take(n as int) =~= e);
    assert((e + rest).skip(n as int) =~= rest);
    vstd::utf8::encode_utf8_valid_utf8(v);
    vstd::utf8::encode_utf8_decode_utf8(v);
}

/// A successful parse, with `t` appended to what it left over.
pub open spec fn extended<A>(p: Option<(A, Seq<u8>)>, t: Seq<u8>) -> Option<(A, Seq<u8>)> {
    match p {
        Some((v, r)) => Some((v, r + t)),
        None => None,
    }
}

pub proof fn lemma_u8_extend(s: Seq<u8>, t: Seq<u8>)
    requires
        parse_u8(s) is Some,
    ensures
        parse_u8(s + t) == extended(parse_u8(s), t),
{
    assert((s + t).skip(1) =~= s.skip(1) + t);
}

pub proof fn lemma_u16_extend(s: Seq<u8>, t: Seq<u8>)
    requires
        parse_u16(s) is Some,
    ensures
        parse_u16(s + t) == extended(parse_u16(s), t),
{
    assert((s + t).skip(2) =~= s.skip(2) + t);
}

pub proof fn lemma_u32_extend(s: Seq<u8>, t: Seq<u8>)
    requires
        parse_u32(s) is Some,
    ensures
        parse_u32(s + t) == extended(parse_u32(s), t),
{
    assert((s + t).skip(4) =~= s.skip(4) + t);
}

pub proof fn lemma_u64_extend(s: Seq<u8>, t: Seq<u8>)
    requires
        parse_u64(s) is Some,
    ensures
        parse_u64(s + t) == extended(parse_u64(s), t),
{
    assert((s + t).skip(8) =~= s.skip(8) + t);
}

pub proof fn lemma_bool_extend(s: Seq<u8>, t: Seq<u8>)
    requires
        parse_bool(s) is Some,
    ensures
        parse_bool(s + t) == extended(parse_bool(s), t),
{
    assert((s + t).skip(1) =~= s.skip(1) + t);
}

pub proof fn lemma_key_extend(s: Seq<u8>, t: Seq<u8>)
    requires
        parse_key(s) is Some,
    ensures
        parse_key(s + t) == extended(parse_key(s), t),
{
    assert((s + t).take(32) =~= s.take(32));
    assert((s + t).skip(32) =~= s.skip(32) + t);
}

pub proof fn lemma_string_extend(s: Seq<u8>, t: Seq<u8>)
    requires
        parse_string(s) is Some,
    ensures
        parse_string(s + t) == extended(parse_string(s), t),
{
    lemma_u32_extend(s, t);
    let n = u32_from_le(s);
    let r = s.skip(4);
    assert((r + t).take(n as int) =~= r.take(n as int));
    assert((r + t).skip(n as int) =~= r.skip(n as int) + t);
}

/// Relies on `String::from_utf8`: it succeeds exactly on valid UTF-8, and the
/// string then holds the decoded characters.
#[verifier::external_body]
fn string_from_utf8(bytes: Vec<u8>) -> (r: Option<String>)
    ensures
        r is Some <==> valid_utf8(bytes@),
        r is Some ==> r->Some_0@ == decode_utf8(bytes@),
{
    String::from_utf8(bytes).ok()
}

pub fn read_u8(s: &[u8]) -> (r: Option<(u8, &[u8])>)
    ensures
        r is None <==> parse_u8(s@) is None,
        r matches Some((v, rest)) ==> parse_u8(s@) == Some((v, rest@)),
{
    if s.len() < 1 {
        return None;
    }
    let rest = slice_subrange(s, 1, s.len());
    assert(rest@ =~= s@.skip(1));
    Some((s[0], rest))
}

pub fn read_u16(s: &[u8]) -> (r: Option<(u16, &[u8])>)
    ensures
        r is None <==> parse_u16(s@) is None,
        r matches Some((v, rest)) ==> parse_u16(s@) == Some((v, rest@)),
{
    if s.len() < 2 {
        return None;
    }
    let v: u16 = (s[0] as u16) | ((s[1] as u16) << 8u16);
    let rest = slice_subrange(s, 2, s.len());
    assert(rest@ =~= s@.skip(2));
    Some((v, rest))
}

pub fn read_u32(s: &[u8]) -> (r: Option<(u32, &[u8])>)
    ensures
        r is None <==> parse_u32(s@) is None,
        r matches Some((v, rest)) ==> parse_u32(s@) == Some((v, rest@)),
{
    if s.len() < 4 {
        return None;
    }
    let v: u32 = (s[0] as u32) | ((s[1] as u32) << 8u32) | ((s[2] as u32) << 16u32) | ((
    s[3] as u32) << 24u32);
    let rest = slice_subrange(s, 4, s.len());
    assert(rest@ =~= s@.skip(4));
    Some((v, rest))
}

pub fn read_u64(s: &[u8]) -> (r: Option<(u64, &[u8])>)
    ensures
        r is None <==> parse_u64(s@) is None,
        r matches Some((v, rest)) ==> parse_u64(s@) == Some((v, rest@)),
{
    if s.len() < 8 {
        return None;
    }
    let v: u64 = (s[0] as u64) | ((s[1] as u64) << 8u64) | ((s[2] as u64) << 16u64) | ((
    s[3] as u64) << 24u64) | ((s[4] as u64) << 32u64) | ((s[5] as u64) << 40u64) | ((
    s[6] as u64) << 48u64) | ((s[7] as u64) << 56u64);
    let rest = slice_subrange(s, 8, s.len());
    assert(rest@ =~= s@.skip(8));
    Some((v, rest))
}

pub fn read_bool(s: &[u8]) -> (r: Option<(bool, &[u8])>)
    ensures
        r is None <==> parse_bool(s@) is None,
        r matches Some((v, rest)) ==> parse_bool(s@) == Some((v, rest@)),
{
    if s.len() < 1 || s[0] > 1 {
        return None;
    }
    let rest = slice_subrange(s, 1, s.len());
    assert(rest@ =~= s@.skip(1));
    Some((s[0] == 1, rest))
}

pub fn read_key(s: &[u8]) -> (r: Option<([u8; 32], &[u8])>)
    ensures
        r is None <==> parse_key(s@) is None,
        r matches Some((v, rest)) ==> parse_key(s@) == Some((v@, rest@)),
{
    if s.len() < KEY_LEN {
        return None;
    }
    let mut key: [u8; 32] = [0u8; 32];
    let mut i: usize = 0;
    while i < KEY_LEN
        invariant
            i <= 32,
            s@.len() >= 32,
            forall|k: int| 0 <= k < i ==> key@[k] == s@[k],
        decreases 32 - i,
    {
        key[i] = s[i];
        i = i + 1;
    }
    assert(key@ =~= s@.take(32));
    let rest = slice_subrange(s, KEY_LEN, s.len());
    assert(rest@ =~= s@.skip(32));
    Some((key, rest))
}

pub fn read_string(s: &[u8]) -> (r: Option<(String, &[u8])>)
    ensures
        r is None <==> parse_string(s@) is None,
        r matches Some((v, rest)) ==> parse_string(s@) == Some((v@, rest@)),
{
    let (n, r) = match read_u32(s) {
        None => return None,
        Some(p) => p,
    };
    let n = n as usize;
    if r.len() < n {
        return None;
    }
    let mut bytes: Vec<u8> = Vec::with_capacity(n);
    let mut i: usize = 0;
    while i < n
        invariant
            i <= n <= r@.len(),
            bytes@ =~= r@.take(i as int),
        decreases n - i,
    {
        bytes.push(r[i]);
        i = i + 1;
    }
    assert(bytes@ =~= r@.take(n as int));
    let rest = slice_subrange(r, n, r.len());
    assert(rest@ =~= r@.skip(n as int));
    match string_from_utf8(bytes) {
        None => None,
        Some(text) => Some((text, rest)),
    }
}

} // verus!
