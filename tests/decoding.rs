use sola_indexer::instruction::Instruction;
use sola_indexer::payload::{
    CreatorsParam, DecodeError, MintBadge, MintBadgeParams, Register, RegisterParams,
};

const MINT_TAG: [u8; 8] = [242, 234, 237, 183, 232, 245, 146, 1];
const REGISTER_TAG: [u8; 8] = [211, 124, 67, 15, 211, 194, 178, 240];

fn put<T: borsh::BorshSerialize + ?Sized>(out: &mut Vec<u8>, v: &T) {
    out.extend(borsh::to_vec(v).unwrap());
}

fn register_bytes(r: &Register) -> Vec<u8> {
    let mut out = Vec::new();
    put(&mut out, &r.class_id);
    put(&mut out, &r.profile_id);
    put(&mut out, &r.params.fungible);
    put(&mut out, &r.params.transferable);
    put(&mut out, &r.params.revocable);
    put(&mut out, &r.params.address);
    put(&mut out, &r.params.schema);
    out
}

fn mint_bytes(m: &MintBadge) -> Vec<u8> {
    let mut out = Vec::new();
    put(&mut out, &m.badge_id);
    put(&mut out, &m.class_id);
    put(&mut out, &m.origins);
    put(&mut out, &m.params.name);
    let creators: Vec<([u8; 32], u8)> =
        m.params.creators.iter().map(|c| (c.address, c.share)).collect();
    put(&mut out, &creators);
    put(&mut out, &m.params.seller_fee_basis_points);
    put(&mut out, &m.params.symbol);
    put(&mut out, &m.params.uri);
    put(&mut out, &m.params.is_mutable);
    put(&mut out, &m.params.weights);
    put(&mut out, &m.params.schema);
    out
}

fn sample_register() -> Register {
    Register {
        class_id: 7,
        profile_id: 42,
        params: RegisterParams {
            fungible: true,
            transferable: false,
            revocable: true,
            address: [9u8; 32],
            schema: "schéma".to_string(),
        },
    }
}

fn sample_mint() -> MintBadge {
    MintBadge {
        badge_id: 100,
        class_id: 7,
        origins: vec![1, 2, u64::MAX],
        params: MintBadgeParams {
            name: "Badge".to_string(),
            creators: vec![CreatorsParam { address: [3u8; 32], share: 100 }],
            seller_fee_basis_points: 500,
            symbol: "BDG".to_string(),
            uri: "https://x".to_string(),
            is_mutable: true,
            weights: 12,
            schema: String::new(),
        },
    }
}

fn empty_mint() -> MintBadge {
    MintBadge {
        badge_id: u64::MAX,
        class_id: 0,
        origins: vec![],
        params: MintBadgeParams {
            name: String::new(),
            creators: vec![],
            seller_fee_basis_points: u16::MAX,
            symbol: String::new(),
            uri: String::new(),
            is_mutable: false,
            weights: u64::MAX,
            schema: String::new(),
        },
    }
}

#[test]
fn short_input_is_unrecognised() {
    for n in 0..8usize {
        let data: Vec<u8> = MINT_TAG[..n].to_vec();
        let (kind, rest) = Instruction::new(&data);
        assert_eq!(kind, Instruction::Unknow);
        assert_eq!(rest, &data[..]);
    }
}

#[test]
fn known_tags_are_recognised() {
    let mut data = MINT_TAG.to_vec();
    data.extend([1u8, 2, 3]);
    let (kind, rest) = Instruction::new(&data);
    assert_eq!(kind, Instruction::MintBadge);
    assert_eq!(rest, &[1u8, 2, 3][..]);
    let (kind, rest) = Instruction::new(&REGISTER_TAG);
    assert_eq!(kind, Instruction::Register);
    assert!(rest.is_empty());
}

#[test]
fn unknown_tag_is_unrecognised_whatever_follows() {
    let mut tag = MINT_TAG;
    tag[7] = 2;
    for tail in [vec![], vec![0u8], vec![211, 124, 67, 15, 211, 194, 178, 240]] {
        let mut data = tag.to_vec();
        data.extend(tail.iter().copied());
        let (kind, rest) = Instruction::new(&data);
        assert_eq!(kind, Instruction::Unknow);
        assert_eq!(rest, &tail[..]);
    }
}

#[test]
fn register_round_trip() {
    let r = sample_register();
    assert_eq!(Register::deserialize(&register_bytes(&r)), Ok(r));
}

#[test]
fn mint_badge_round_trip() {
    let m = sample_mint();
    assert_eq!(MintBadge::deserialize(&mint_bytes(&m)), Ok(m));
}

#[test]
fn mint_badge_round_trip_empty_and_extreme() {
    let m = empty_mint();
    assert_eq!(MintBadge::deserialize(&mint_bytes(&m)), Ok(m));
}

#[test]
fn trailing_bytes_are_ignored() {
    let r = sample_register();
    let mut bytes = register_bytes(&r);
    bytes.extend([0xffu8, 0xff]);
    assert_eq!(Register::deserialize(&bytes), Ok(r));
}

#[test]
fn truncated_register_fails_at_every_length() {
    let bytes = register_bytes(&sample_register());
    for k in 0..bytes.len() {
        assert_eq!(Register::deserialize(&bytes[..k]), Err(DecodeError::InvalidData));
    }
}

#[test]
fn truncated_mint_badge_fails_at_every_length() {
    for m in [sample_mint(), empty_mint()] {
        let bytes = mint_bytes(&m);
        for k in 0..bytes.len() {
            assert_eq!(MintBadge::deserialize(&bytes[..k]), Err(DecodeError::InvalidData));
        }
    }
}

#[test]
fn bool_byte_other_than_zero_or_one_fails() {
    let mut bytes = register_bytes(&sample_register());
    bytes[16] = 2;
    assert_eq!(Register::deserialize(&bytes), Err(DecodeError::InvalidData));
}

#[test]
fn invalid_utf8_string_fails() {
    let mut bytes = register_bytes(&sample_register());
    let n = bytes.len();
    bytes[n - 1] = 0xff;
    assert_eq!(Register::deserialize(&bytes), Err(DecodeError::InvalidData));
}

#[test]
fn string_decodes_to_its_characters() {
    let r = Register::deserialize(&register_bytes(&sample_register())).unwrap();
    assert_eq!(r.params.schema, "schéma");
    assert_eq!(r.params.schema.chars().count(), 6);
}

#[test]
fn long_length_prefix_fails() {
    let mut bytes = register_bytes(&sample_register());
    let at = 8 + 8 + 3 + 32;
    bytes[at] = 200;
    assert_eq!(Register::deserialize(&bytes), Err(DecodeError::InvalidData));
}
