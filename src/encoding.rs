//! The layout an instruction's originator writes, and the laws that tie it to decoding:
//! every encodable payload decodes back to itself, and no strict prefix of it decodes.
use vstd::prelude::*;
use crate::payload::{
    parse_creator, parse_creator_items, parse_creator_seq, parse_mint_badge, parse_mint_params,
    parse_register, parse_u64_items, parse_u64_seq, prepended, CreatorView, MintBadgeParamsView,
    MintBadgeView, RegisterView,
};
use crate::wire::{
    bool_to_byte, extended, lemma_bool_extend, lemma_bool_round_trip, lemma_key_extend,
    lemma_key_round_trip, lemma_string_extend, lemma_string_round_trip, lemma_u16_extend,
    lemma_u16_round_trip, lemma_u32_extend, lemma_u32_round_trip, lemma_u64_extend,
    lemma_u64_round_trip, lemma_u8_extend, lemma_u8_round_trip, parse_bool, parse_key,
    parse_string, parse_u16, parse_u32, parse_u64, parse_u8, string_fits, string_to_wire,
    u16_to_le, u32_to_le, u64_to_le, KEY_LEN,
};

verus! {

pub open spec fn u64_items_to_wire(xs: Seq<u64>) -> Seq<u8>
    decreases xs.len(),
{
    if xs.len() == 0 {
        Seq::empty()
    } else {
        u64_to_le(xs[0]) + u64_items_to_wire(xs.drop_first())
    }
}

pub open spec fn u64_seq_to_wire(xs: Seq<u64>) -> Seq<u8> {
    u32_to_le(xs.len() as u32) + u64_items_to_wire(xs)
}

pub open spec fn creator_to_wire(c: CreatorView) -> Seq<u8> {
    c.address + seq![c.share]
}

pub open spec fn creator_items_to_wire(cs: Seq<CreatorView>) -> Seq<u8>
    decreases cs.len(),
{
    if cs.len() == 0 {
        Seq::empty()
    } else {
        creator_to_wire(cs[0]) + creator_items_to_wire(cs.drop_first())
    }
}

pub open spec fn creator_seq_to_wire(cs: Seq<CreatorView>) -> Seq<u8> {
    u32_to_le(cs.len() as u32) + creator_items_to_wire(cs)
}

/// The bytes of a registration payload.
pub open spec fn register_to_wire(v: RegisterView) -> Seq<u8> {
    u64_to_le(v.class_id) + (u64_to_le(v.profile_id) + (bool_to_byte(v.params.fungible) + (
    bool_to_byte(v.params.transferable) + (bool_to_byte(v.params.revocable) + (v.params.address
        + string_to_wire(v.params.schema))))))
}

/// The bytes of the mint parameters.
pub open spec fn mint_params_to_wire(p: MintBadgeParamsView) -> Seq<u8> {
    string_to_wire(p.name) + (creator_seq_to_wire(p.creators) + (u16_to_le(
        p.seller_fee_basis_points,
    ) + (string_to_wire(p.symbol) + (string_to_wire(p.uri) + (bool_to_byte(p.is_mutable) + (
    u64_to_le(p.weights) + string_to_wire(p.schema)))))))
}

/// The bytes of a mint payload.
pub open spec fn mint_badge_to_wire(v: MintBadgeView) -> Seq<u8> {
    u64_to_le(v.badge_id) + (u64_to_le(v.class_id) + (u64_seq_to_wire(v.origins)
        + mint_params_to_wire(v.params)))
}

/// A registration payload that the layout can carry: a 32-byte key and a string
/// whose UTF-8 length fits a `u32`.
pub open spec fn register_encodable(v: RegisterView) -> bool {
    v.params.address.len() == KEY_LEN && string_fits(v.params.schema)
}

pub open spec fn creators_encodable(cs: Seq<CreatorView>) -> bool {
    cs.len() <= u32::MAX && forall|i: int| 0 <= i < cs.len() ==> #[trigger] cs[i].address.len()
        == KEY_LEN
}

/// A mint payload that the layout can carry.
pub open spec fn mint_badge_encodable(v: MintBadgeView) -> bool {
    &&& v.origins.len() <= u32::MAX
    &&& creators_encodable(v.params.creators)
    &&& string_fits(v.params.name)
    &&& string_fits(v.params.symbol)
    &&& string_fits(v.params.uri)
    &&& string_fits(v.params.schema)
}

proof fn lemma_u64_items_round_trip(xs: Seq<u64>, rest: Seq<u8>)
    ensures
        parse_u64_items(u64_items_to_wire(xs) + rest, xs.len()) == Some((xs, rest)),
    decreases xs.len(),
{
    if xs.len() == 0 {
        assert(u64_items_to_wire(xs) + rest =~= rest);
        assert(xs =~= Seq::<u64>::empty());
    } else {
        let tail = u64_items_to_wire(xs.drop_first()) + rest;
        assert(u64_items_to_wire(xs) + rest =~= u64_to_le(xs[0]) + tail);
        lemma_u64_round_trip(xs[0], tail);
        lemma_u64_items_round_trip(xs.drop_first(), rest);
        assert(seq![xs[0]] + xs.drop_first() =~= xs);
    }
}

proof fn lemma_u64_seq_round_trip(xs: Seq<u64>, rest: Seq<u8>)
    requires
        xs.len() <= u32::MAX,
    ensures
        parse_u64_seq(u64_seq_to_wire(xs) + rest) == Some((xs, rest)),
{
    let tail = u64_items_to_wire(xs) + rest;
    assert(u64_seq_to_wire(xs) + rest =~= u32_to_le(xs.len() as u32) + tail);
    lemma_u32_round_trip(xs.len() as u32, tail);
    lemma_u64_items_round_trip(xs, rest);
}

proof fn lemma_creator_items_round_trip(cs: Seq<CreatorView>, rest: Seq<u8>)
    requires
        creators_encodable(cs),
    ensures
        parse_creator_items(creator_items_to_wire(cs) + rest, cs.len()) == Some((cs, rest)),
    decreases cs.len(),
{
    if cs.len() == 0 {
        assert(creator_items_to_wire(cs) + rest =~= rest);
        assert(cs =~= Seq::<CreatorView>::empty());
    } else {
        let c = cs[0];
        let tail = creator_items_to_wire(cs.drop_first()) + rest;
        assert(creator_items_to_wire(cs) + rest =~= c.address + (seq![c.share] + tail));
        assert(cs[0].address.len() == KEY_LEN);
        lemma_key_round_trip(c.address, seq![c.share] + tail);
        lemma_u8_round_trip(c.share, tail);
        assert(creators_encodable(cs.drop_first())) by {
            assert forall|i: int| 0 <= i < cs.drop_first().len() implies #[trigger] cs.drop_first()[i].address.len()
                == KEY_LEN by {
                assert(cs.drop_first()[i] == cs[i + 1]);
            }
        }
        lemma_creator_items_round_trip(cs.drop_first(), rest);
        assert(seq![c] + cs.drop_first() =~= cs);
    }
}

proof fn lemma_creator_seq_round_trip(cs: Seq<CreatorView>, rest: Seq<u8>)
    requires
        creators_encodable(cs),
    ensures
        parse_creator_seq(creator_seq_to_wire(cs) + rest) == Some((cs, rest)),
{
    let tail = creator_items_to_wire(cs) + rest;
    assert(creator_seq_to_wire(cs) + rest =~= u32_to_le(cs.len() as u32) + tail);
    lemma_u32_round_trip(cs.len() as u32, tail);
    lemma_creator_items_round_trip(cs, rest);
}

/// Every encodable registration payload decodes back to itself, whatever follows it.
pub proof fn lemma_register_round_trip(v: RegisterView, rest: Seq<u8>)
    requires
        register_encodable(v),
    ensures
        parse_register(register_to_wire(v) + rest) == Some((v, rest)),
{
    let p = v.params;
    let t6 = string_to_wire(p.schema) + rest;
    let t5 = p.address + t6;
    let t4 = bool_to_byte(p.revocable) + t5;
    let t3 = bool_to_byte(p.transferable) + t4;
    let t2 = bool_to_byte(p.fungible) + t3;
    let t1 = u64_to_le(v.profile_id) + t2;
    let s = register_to_wire(v) + rest;
    assert(s =~= u64_to_le(v.class_id) + t1);
    lemma_u64_round_trip(v.class_id, t1);
    lemma_u64_round_trip(v.profile_id, t2);
    lemma_bool_round_trip(p.fungible, t3);
    lemma_bool_round_trip(p.transferable, t4);
    lemma_bool_round_trip(p.revocable, t5);
    lemma_key_round_trip(p.address, t6);
    lemma_string_round_trip(p.schema, rest);
    assert(parse_register(s) == Some((v, rest))) by {
        reveal(parse_register);
    }
}

proof fn lemma_mint_params_round_trip(p: MintBadgeParamsView, rest: Seq<u8>)
    requires
        creators_encodable(p.creators),
        string_fits(p.name),
        string_fits(p.symbol),
        string_fits(p.uri),
        string_fits(p.schema),
    ensures
        parse_mint_params(mint_params_to_wire(p) + rest) == Some((p, rest)),
{
    let t7 = string_to_wire(p.schema) + rest;
    let t6 = u64_to_le(p.weights) + t7;
    let t5 = bool_to_byte(p.is_mutable) + t6;
    let t4 = string_to_wire(p.uri) + t5;
    let t3 = string_to_wire(p.symbol) + t4;
    let t2 = u16_to_le(p.seller_fee_basis_points) + t3;
    let t1 = creator_seq_to_wire(p.creators) + t2;
    assert(mint_params_to_wire(p) + rest =~= string_to_wire(p.name) + t1);
    lemma_string_round_trip(p.name, t1);
    lemma_creator_seq_round_trip(p.creators, t2);
    lemma_u16_round_trip(p.seller_fee_basis_points, t3);
    lemma_string_round_trip(p.symbol, t4);
    lemma_string_round_trip(p.uri, t5);
    lemma_bool_round_trip(p.is_mutable, t6);
    lemma_u64_round_trip(p.weights, t7);
    lemma_string_round_trip(p.schema, rest);
}

/// Every encodable mint payload decodes back to itself, whatever follows it.
pub proof fn lemma_mint_badge_round_trip(v: MintBadgeView, rest: Seq<u8>)
    requires
        mint_badge_encodable(v),
    ensures
        parse_mint_badge(mint_badge_to_wire(v) + rest) == Some((v, rest)),
{
    reveal(parse_mint_badge);
    let t3 = mint_params_to_wire(v.params) + rest;
    let t2 = u64_seq_to_wire(v.origins) + t3;
    let t1 = u64_to_le(v.class_id) + t2;
    assert(mint_badge_to_wire(v) + rest =~= u64_to_le(v.badge_id) + t1);
    lemma_u64_round_trip(v.badge_id, t1);
    lemma_u64_round_trip(v.class_id, t2);
    lemma_u64_seq_round_trip(v.origins, t3);
    lemma_mint_params_round_trip(v.params, rest);
}

proof fn lemma_u64_items_extend(s: Seq<u8>, n: nat, t: Seq<u8>)
    requires
        parse_u64_items(s, n) is Some,
    ensures
        parse_u64_items(s + t, n) == extended(parse_u64_items(s, n), t),
    decreases n,
{
    if n > 0 {
        lemma_u64_extend(s, t);
        let (_, r) = parse_u64(s)->Some_0;
        lemma_u64_items_extend(r, (n - 1) as nat, t);
    }
}

proof fn lemma_u64_seq_extend(s: Seq<u8>, t: Seq<u8>)
    requires
        parse_u64_seq(s) is Some,
    ensures
        parse_u64_seq(s + t) == extended(parse_u64_seq(s), t),
{
    lemma_u32_extend(s, t);
    let (n, r) = parse_u32(s)->Some_0;
    lemma_u64_items_extend(r, n as nat, t);
}

proof fn lemma_creator_extend(s: Seq<u8>, t: Seq<u8>)
    requires
        parse_creator(s) is Some,
    ensures
        parse_creator(s + t) == extended(parse_creator(s), t),
{
    lemma_key_extend(s, t);
    let (_, r) = parse_key(s)->Some_0;
    lemma_u8_extend(r, t);
}

proof fn lemma_creator_items_extend(s: Seq<u8>, n: nat, t: Seq<u8>)
    requires
        parse_creator_items(s, n) is Some,
    ensures
        parse_creator_items(s + t, n) == extended(parse_creator_items(s, n), t),
    decreases n,
{
    if n > 0 {
        lemma_creator_extend(s, t);
        let (_, r) = parse_creator(s)->Some_0;
        lemma_creator_items_extend(r, (n - 1) as nat, t);
    }
}

proof fn lemma_creator_seq_extend(s: Seq<u8>, t: Seq<u8>)
    requires
        parse_creator_seq(s) is Some,
    ensures
        parse_creator_seq(s + t) == extended(parse_creator_seq(s), t),
{
    lemma_u32_extend(s, t);
    let (n, r) = parse_u32(s)->Some_0;
    lemma_creator_items_extend(r, n as nat, t);
}

/// A registration payload that decodes keeps decoding to the same value when
/// bytes are appended; they are left over.
pub proof fn lemma_register_extend(s: Seq<u8>, t: Seq<u8>)
    requires
        parse_register(s) is Some,
    ensures
        parse_register(s + t) == extended(parse_register(s), t),
{
    reveal(parse_register);
    lemma_u64_extend(s, t);
    let (_, s1) = parse_u64(s)->Some_0;
    lemma_u64_extend(s1, t);
    let (_, s2) = parse_u64(s1)->Some_0;
    lemma_bool_extend(s2, t);
    let (_, s3) = parse_bool(s2)->Some_0;
    lemma_bool_extend(s3, t);
    let (_, s4) = parse_bool(s3)->Some_0;
    lemma_bool_extend(s4, t);
    let (_, s5) = parse_bool(s4)->Some_0;
    lemma_key_extend(s5, t);
    let (_, s6) = parse_key(s5)->Some_0;
    lemma_string_extend(s6, t);
}

proof fn lemma_mint_params_extend(s: Seq<u8>, t: Seq<u8>)
    requires
        parse_mint_params(s) is Some,
    ensures
        parse_mint_params(s + t) == extended(parse_mint_params(s), t),
{
    lemma_string_extend(s, t);
    let (_, s1) = parse_string(s)->Some_0;
    lemma_creator_seq_extend(s1, t);
    let (_, s2) = parse_creator_seq(s1)->Some_0;
    lemma_u16_extend(s2, t);
    let (_, s3) = parse_u16(s2)->Some_0;
    lemma_string_extend(s3, t);
    let (_, s4) = parse_string(s3)->Some_0;
    lemma_string_extend(s4, t);
    let (_, s5) = parse_string(s4)->Some_0;
    lemma_bool_extend(s5, t);
    let (_, s6) = parse_bool(s5)->Some_0;
    lemma_u64_extend(s6, t);
    let (_, s7) = parse_u64(s6)->Some_0;
    lemma_string_extend(s7, t);
}

/// A mint payload that decodes keeps decoding to the same value when bytes are
/// appended; they are left over.
pub proof fn lemma_mint_badge_extend(s: Seq<u8>, t: Seq<u8>)
    requires
        parse_mint_badge(s) is Some,
    ensures
        parse_mint_badge(s + t) == extended(parse_mint_badge(s), t),
{
    reveal(parse_mint_badge);
    lemma_u64_extend(s, t);
    let (_, s1) = parse_u64(s)->Some_0;
    lemma_u64_extend(s1, t);
    let (_, s2) = parse_u64(s1)->Some_0;
    lemma_u64_seq_extend(s2, t);
    let (_, s3) = parse_u64_seq(s2)->Some_0;
    lemma_mint_params_extend(s3, t);
}

proof fn lemma_register_prefix(e: Seq<u8>, k: int)
    requires
        parse_register(e) matches Some((_, r)) && r.len() == 0,
        0 <= k < e.len(),
    ensures
        parse_register(e.take(k)) is None,
{
    if parse_register(e.take(k)) is Some {
        lemma_register_extend(e.take(k), e.skip(k));
        assert(e.take(k) + e.skip(k) =~= e);
    }
}

/// Cutting the bytes of an encodable registration payload short, at any length,
/// makes it fail to decode.
pub proof fn lemma_register_truncated(v: RegisterView, k: int)
    requires
        register_encodable(v),
        0 <= k < register_to_wire(v).len(),
    ensures
        parse_register(register_to_wire(v).take(k)) is None,
{
    let e = register_to_wire(v);
    lemma_register_round_trip(v, Seq::empty());
    assert(e + Seq::<u8>::empty() =~= e);
    lemma_register_prefix(e, k);
}

proof fn lemma_mint_badge_prefix(e: Seq<u8>, k: int)
    requires
        parse_mint_badge(e) matches Some((_, r)) && r.len() == 0,
        0 <= k < e.len(),
    ensures
        parse_mint_badge(e.take(k)) is None,
{
    if parse_mint_badge(e.take(k)) is Some {
        lemma_mint_badge_extend(e.take(k), e.skip(k));
        assert(e.take(k) + e.skip(k) =~= e);
    }
}

/// Cutting the bytes of an encodable mint payload short, at any length,
/// makes it fail to decode.
pub proof fn lemma_mint_badge_truncated(v: MintBadgeView, k: int)
    requires
        mint_badge_encodable(v),
        0 <= k < mint_badge_to_wire(v).len(),
    ensures
        parse_mint_badge(mint_badge_to_wire(v).take(k)) is None,
{
    let e = mint_badge_to_wire(v);
    lemma_mint_badge_round_trip(v, Seq::empty());
    assert(e + Seq::<u8>::empty() =~= e);
    lemma_mint_badge_prefix(e, k);
}

} // verus!
