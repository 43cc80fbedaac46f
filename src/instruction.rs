//! Classification of raw instruction bytes by their 8-byte discriminator.
use vstd::prelude::*;
use vstd::slice::slice_subrange;

verus! {

/// Width of the discriminator prefix, in bytes.
pub const DISCRIMINATOR_LEN: usize = 8;

/// The instruction kinds that the indexer knows of.
#[derive(Debug, Clone, Copy, PartialEq, Eq, Structural)]
pub enum Instruction {
    MintBadge,
    Register,
    Unknow,
}

/// Discriminator of the badge-minting instruction.
pub open spec fn mint_badge_tag() -> Seq<u8> {
    seq![242u8, 234u8, 237u8, 183u8, 232u8, 245u8, 146u8, 1u8]
}

/// Discriminator of the class-registration instruction.
pub open spec fn register_tag() -> Seq<u8> {
    seq![211u8, 124u8, 67u8, 15u8, 211u8, 194u8, 178u8, 240u8]
}

/// The fixed table from discriminator to kind; anything else is unknown.
pub open spec fn kind_of_tag(tag: Seq<u8>) -> Instruction {
    if tag == mint_badge_tag() {
        Instruction::MintBadge
    } else if tag == register_tag() {
        Instruction::Register
    } else {
        Instruction::Unknow
    }
}

/// What classification yields for `data`: the kind and the bytes after the discriminator.
pub open spec fn classify(data: Seq<u8>) -> (Instruction, Seq<u8>) {
    if data.len() < DISCRIMINATOR_LEN {
        (Instruction::Unknow, data)
    } else {
        (kind_of_tag(data.take(8)), data.skip(8))
    }
}

/// Whether the first eight bytes of `data` equal `tag`.
fn starts_with_tag(data: &[u8], tag: &[u8; 8]) -> (r: bool)
    requires
        data@.len() >= 8,
    ensures
        r == (data@.take(8) == tag@),
{
    let mut i: usize = 0;
    while i < 8
        invariant
            0 <= i <= 8,
            data@.len() >= 8,
            forall|k: int| 0 <= k < i ==> data@[k] == tag@[k],
        decreases 8 - i,
    {
        if data[i] != tag[i] {
            assert(data@.take(8)[i as int] != tag@[i as int]);
            return false;
        }
        i = i + 1;
    }
    assert(data@.take(8) =~= tag@);
    true
}

impl Instruction {
    /// Splits off the discriminator and looks it up in the fixed table.
    pub fn new(data: &[u8]) -> (r: (Self, &[u8]))
        ensures
            (r.0, r.1@) == classify(data@),
    {
        if data.len() < DISCRIMINATOR_LEN {
            return (Instruction::Unknow, data);
        }
        let mint_badge: [u8; 8] = [242, 234, 237, 183, 232, 245, 146, 1];
        let register: [u8; 8] = [211, 124, 67, 15, 211, 194, 178, 240];
        assert(mint_badge@ =~= mint_badge_tag());
        assert(register@ =~= register_tag());
        let rest = slice_subrange(data, DISCRIMINATOR_LEN, data.len());
        assert(rest@ =~= data@.skip(8));
        let kind = if starts_with_tag(data, &mint_badge) {
            Instruction::MintBadge
        } else if starts_with_tag(data, &register) {
            Instruction::Register
        } else {
            Instruction::Unknow
        };
        (kind, rest)
    }
}

/// Input shorter than a discriminator is unrecognised and handed back untouched.
pub proof fn lemma_short_input_unrecognised(data: Seq<u8>)
    requires
        data.len() < DISCRIMINATOR_LEN,
    ensures
        classify(data) == (Instruction::Unknow, data),
{
}

/// A discriminator outside the table is unrecognised, whatever bytes follow it.
pub proof fn lemma_unknown_tag_unrecognised(tag: Seq<u8>, rest: Seq<u8>)
    requires
        tag.len() == DISCRIMINATOR_LEN,
        tag != mint_badge_tag(),
        tag != register_tag(),
    ensures
        classify(tag + rest).0 == Instruction::Unknow,
        classify(tag + rest).1 == rest,
{
    assert((tag + rest).take(8) =~= tag);
    assert((tag + rest).skip(8) =~= rest);
}

} // verus!
