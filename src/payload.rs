//! The payloads of the two recognised instructions, and their decoding.
use vstd::prelude::*;
use crate::wire::{
    parse_bool, parse_key, parse_string, parse_u16, parse_u32, parse_u64, parse_u8, read_bool,
    read_key, read_string, read_u16, read_u32, read_u64, read_u8,
};

verus! {

/// A creator share of a minted badge.
#[derive(Debug, Clone, PartialEq, Eq)]
pub struct CreatorsParam {
    pub address: [u8; 32],
    pub share: u8,
}

/// Parameters of a class registration.
#[derive(Debug, Clone, PartialEq, Eq)]
pub struct RegisterParams {
    pub fungible: bool,
    pub transferable: bool,
    pub revocable: bool,
    pub address: [u8; 32],
    pub schema: String,
}

/// Payload of the class-registration instruction.
#[derive(Debug, Clone, PartialEq, Eq)]
pub struct Register {
    pub class_id: u64,
    pub profile_id: u64,
    pub params: RegisterParams,
}

/// Parameters of a badge mint.
#[derive(Debug, Clone, PartialEq, Eq)]
pub struct MintBadgeParams {
    pub name: String,
    pub creators: Vec<CreatorsParam>,
    pub seller_fee_basis_points: u16,
    pub symbol: String,
    pub uri: String,
    pub is_mutable: bool,
    pub weights: u64,
    pub schema: String,
}

/// Payload of the badge-minting instruction.
#[derive(Debug, Clone, PartialEq, Eq)]
pub struct MintBadge {
    pub badge_id: u64,
    pub class_id: u64,
    pub origins: Vec<u64>,
    pub params: MintBadgeParams,
}

/// A payload that matched a known discriminator but whose bytes do not decode.
#[derive(Debug, Clone, Copy, PartialEq, Eq, Structural)]
pub enum DecodeError {
    InvalidData,
}

pub struct CreatorView {
    pub address: Seq<u8>,
    pub share: u8,
}

pub struct RegisterParamsView {
    pub fungible: bool,
    pub transferable: bool,
    pub revocable: bool,
    pub address: Seq<u8>,
    pub schema: Seq<char>,
}

pub struct RegisterView {
    pub class_id: u64,
    pub profile_id: u64,
    pub params: RegisterParamsView,
}

pub struct MintBadgeParamsView {
    pub name: Seq<char>,
    pub creators: Seq<CreatorView>,
    pub seller_fee_basis_points: u16,
    pub symbol: Seq<char>,
    pub uri: Seq<char>,
    pub is_mutable: bool,
    pub weights: u64,
    pub schema: Seq<char>,
}

pub struct MintBadgeView {
    pub badge_id: u64,
    pub class_id: u64,
    pub origins: Seq<u64>,
    pub params: MintBadgeParamsView,
}

impl View for CreatorsParam {
    type V = CreatorView;

    open spec fn view(&self) -> CreatorView {
        CreatorView { address: self.address@, share: self.share }
    }
}

pub open spec fn creators_view(cs: Seq<CreatorsParam>) -> Seq<CreatorView> {
    cs.map_values(|c: CreatorsParam| c@)
}

impl View for Register {
    type V = RegisterView;

    open spec fn view(&self) -> RegisterView {
        RegisterView {
            class_id: self.class_id,
            profile_id: self.profile_id,
            params: RegisterParamsView {
                fungible: self.params.fungible,
                transferable: self.params.transferable,
                revocable: self.params.revocable,
                address: self.params.address@,
                schema: self.params.schema@,
            },
        }
    }
}

impl View for MintBadge {
    type V = MintBadgeView;

    open spec fn view(&self) -> MintBadgeView {
        MintBadgeView {
            badge_id: self.badge_id,
            class_id: self.class_id,
            origins: self.origins@,
            params: MintBadgeParamsView {
                name: self.params.name@,
                creators: creators_view(self.params.creators@),
                seller_fee_basis_points: self.params.seller_fee_basis_points,
                symbol: self.params.symbol@,
                uri: self.params.uri@,
                is_mutable: self.params.is_mutable,
                weights: self.params.weights,
                schema: self.params.schema@,
            },
        }
    }
}

/// Items parsed so far, put in front of what the rest of a parse yields.
pub open spec fn prepended<A>(acc: Seq<A>, p: Option<(Seq<A>, Seq<u8>)>) -> Option<(Seq<A>, Seq<u8>)> {
    match p {
        Some((vs, r)) => Some((acc + vs, r)),
        None => None,
    }
}

/// `n` consecutive `u64` values.
pub open spec fn parse_u64_items(s: Seq<u8>, n: nat) -> Option<(Seq<u64>, Seq<u8>)>
    decreases n,
{
    if n == 0 {
        Some((Seq::empty(), s))
    } else {
        match parse_u64(s) {
            None => None,
            Some((v, r)) => prepended(seq![v], parse_u64_items(r, (n - 1) as nat)),
        }
    }
}

/// A sequence of `u64`: a `u32` count, then the items.
pub open spec fn parse_u64_seq(s: Seq<u8>) -> Option<(Seq<u64>, Seq<u8>)> {
    match parse_u32(s) {
        None => None,
        Some((n, r)) => parse_u64_items(r, n as nat),
    }
}

/// A creator: a key, then its share byte.
pub open spec fn parse_creator(s: Seq<u8>) -> Option<(CreatorView, Seq<u8>)> {
    match parse_key(s) {
        None => None,
        Some((a, r)) => match parse_u8(r) {
            None => None,
            Some((share, r2)) => Some((CreatorView { address: a, share }, r2)),
        },
    }
}

/// `n` consecutive creators.
pub open spec fn parse_creator_items(s: Seq<u8>, n: nat) -> Option<(Seq<CreatorView>, Seq<u8>)>
    decreases n,
{
    if n == 0 {
        Some((Seq::empty(), s))
    } else {
        match parse_creator(s) {
            None => None,
            Some((v, r)) => prepended(seq![v], parse_creator_items(r, (n - 1) as nat)),
        }
    }
}

/// A sequence of creators: a `u32` count, then the items.
pub open spec fn parse_creator_seq(s: Seq<u8>) -> Option<(Seq<CreatorView>, Seq<u8>)> {
    match parse_u32(s) {
        None => None,
        Some((n, r)) => parse_creator_items(r, n as nat),
    }
}

/// The registration payload, field by field in declaration order.
#[verifier::opaque]
pub open spec fn parse_register(s: Seq<u8>) -> Option<(RegisterView, Seq<u8>)> {
    match parse_u64(s) {
        None => None,
        Some((class_id, s)) => match parse_u64(s) {
            None => None,
            Some((profile_id, s)) => match parse_bool(s) {
                None => None,
                Some((fungible, s)) => match parse_bool(s) {
                    None => None,
                    Some((transferable, s)) => match parse_bool(s) {
                        None => None,
                        Some((revocable, s)) => match parse_key(s) {
                            None => None,
                            Some((address, s)) => match parse_string(s) {
                                None => None,
                                Some((schema, s)) => Some(
                                    (
                                        RegisterView {
                                            class_id,
                                            profile_id,
                                            params: RegisterParamsView {
                                                fungible,
                                                transferable,
                                                revocable,
                                                address,
                                                schema,
                                            },
                                        },
                                        s,
                                    ),
                                ),
                            },
                        },
                    },
                },
            },
        },
    }
}

/// The mint parameters, field by field in declaration order.
pub open spec fn parse_mint_params(s: Seq<u8>) -> Option<(MintBadgeParamsView, Seq<u8>)> {
    match parse_string(s) {
        None => None,
        Some((name, s)) => match parse_creator_seq(s) {
            None => None,
            Some((creators, s)) => match parse_u16(s) {
                None => None,
                Some((seller_fee_basis_points, s)) => match parse_string(s) {
                    None => None,
                    Some((symbol, s)) => match parse_string(s) {
                        None => None,
                        Some((uri, s)) => match parse_bool(s) {
                            None => None,
                            Some((is_mutable, s)) => match parse_u64(s) {
                                None => None,
                                Some((weights, s)) => match parse_string(s) {
                                    None => None,
                                    Some((schema, s)) => Some(
                                        (
                                            MintBadgeParamsView {
                                                name,
                                                creators,
                                                seller_fee_basis_points,
                                                symbol,
                                                uri,
                                                is_mutable,
                                                weights,
                                                schema,
                                            },
                                            s,
                                        ),
                                    ),
                                },
                            },
                        },
                    },
                },
            },
        },
    }
}

/// The mint payload, field by field in declaration order.
#[verifier::opaque]
pub open spec fn parse_mint_badge(s: Seq<u8>) -> Option<(MintBadgeView, Seq<u8>)> {
    match parse_u64(s) {
        None => None,
        Some((badge_id, s)) => match parse_u64(s) {
            None => None,
            Some((class_id, s)) => match parse_u64_seq(s) {
                None => None,
                Some((origins, s)) => match parse_mint_params(s) {
                    None => None,
                    Some((params, s)) => Some((MintBadgeView { badge_id, class_id, origins, params }, s)),
                },
            },
        },
    }
}

fn read_u64_seq(s: &[u8]) -> (r: Option<(Vec<u64>, &[u8])>)
    ensures
        r is None <==> parse_u64_seq(s@) is None,
        r matches Some((v, rest)) ==> parse_u64_seq(s@) == Some((v@, rest@)),
{
    let (n, start) = match read_u32(s) {
        None => return None,
        Some(p) => p,
    };
    let mut cur = start;
    let mut out: Vec<u64> = Vec::new();
    let mut i: u32 = 0;
    while i < n
        invariant
            i <= n,
            parse_u32(s@) == Some((n, start@)),
            parse_u64_items(start@, n as nat) == prepended(
                out@,
                parse_u64_items(cur@, (n - i) as nat),
            ),
        decreases n - i,
    {
        match read_u64(cur) {
            None => return None,
            Some((v, next)) => {
                proof {
                    let tail = parse_u64_items(next@, (n - i - 1) as nat);
                    if let Some((vs, r)) = tail {
                        assert(out@ + (seq![v] + vs) =~= out@.push(v) + vs);
                    }
                }
                out.push(v);
                cur = next;
                i = i + 1;
            },
        }
    }
    assert(out@ + Seq::<u64>::empty() =~= out@);
    Some((out, cur))
}

fn read_creator(s: &[u8]) -> (r: Option<(CreatorsParam, &[u8])>)
    ensures
        r is None <==> parse_creator(s@) is None,
        r matches Some((v, rest)) ==> parse_creator(s@) == Some((v@, rest@)),
{
    let (address, s1) = match read_key(s) {
        None => return None,
        Some(p) => p,
    };
    let (share, s2) = match read_u8(s1) {
        None => return None,
        Some(p) => p,
    };
    Some((CreatorsParam { address, share }, s2))
}

fn read_creator_seq(s: &[u8]) -> (r: Option<(Vec<CreatorsParam>, &[u8])>)
    ensures
        r is None <==> parse_creator_seq(s@) is None,
        r matches Some((v, rest)) ==> parse_creator_seq(s@) == Some((creators_view(v@), rest@)),
{
    let (n, start) = match read_u32(s) {
        None => return None,
        Some(p) => p,
    };
    let mut cur = start;
    let mut out: Vec<CreatorsParam> = Vec::new();
    let mut i: u32 = 0;
    while i < n
        invariant
            i <= n,
            parse_u32(s@) == Some((n, start@)),
            parse_creator_items(start@, n as nat) == prepended(
                creators_view(out@),
                parse_creator_items(cur@, (n - i) as nat),
            ),
        decreases n - i,
    {
        match read_creator(cur) {
            None => return None,
            Some((v, next)) => {
                let ghost old_out = out@;
                out.push(v);
                proof {
                    assert(creators_view(out@) =~= creators_view(old_out).push(v@));
                    let tail = parse_creator_items(next@, (n - i - 1) as nat);
                    if let Some((vs, r)) = tail {
                        assert(creators_view(old_out) + (seq![v@] + vs) =~= creators_view(out@)
                            + vs);
                    }
                }
                cur = next;
                i = i + 1;
            },
        }
    }
    assert(creators_view(out@) + Seq::<CreatorView>::empty() =~= creators_view(out@));
    Some((out, cur))
}

fn read_mint_params(s: &[u8]) -> (r: Option<(MintBadgeParams, &[u8])>)
    ensures
        r is None <==> parse_mint_params(s@) is None,
        r matches Some((v, rest)) ==> parse_mint_params(s@) == Some(
            (
                MintBadgeParamsView {
                    name: v.name@,
                    creators: creators_view(v.creators@),
                    seller_fee_basis_points: v.seller_fee_basis_points,
                    symbol: v.symbol@,
                    uri: v.uri@,
                    is_mutable: v.is_mutable,
                    weights: v.weights,
                    schema: v.schema@,
                },
                rest@,
            ),
        ),
{
    let (name, s) = match read_string(s) {
        None => return None,
        Some(p) => p,
    };
    let (creators, s) = match read_creator_seq(s) {
        None => return None,
        Some(p) => p,
    };
    let (seller_fee_basis_points, s) = match read_u16(s) {
        None => return None,
        Some(p) => p,
    };
    let (symbol, s) = match read_string(s) {
        None => return None,
        Some(p) => p,
    };
    let (uri, s) = match read_string(s) {
        None => return None,
        Some(p) => p,
    };
    let (is_mutable, s) = match read_bool(s) {
        None => return None,
        Some(p) => p,
    };
    let (weights, s) = match read_u64(s) {
        None => return None,
        Some(p) => p,
    };
    let (schema, s) = match read_string(s) {
        None => return None,
        Some(p) => p,
    };
    Some(
        (
            MintBadgeParams {
                name,
                creators,
                seller_fee_basis_points,
                symbol,
                uri,
                is_mutable,
                weights,
                schema,
            },
            s,
        ),
    )
}

impl Register {
    /// Decodes a registration payload from the bytes after the discriminator.
    /// Bytes left over after the last field are ignored.
    pub fn deserialize(data: &[u8]) -> (r: Result<Register, DecodeError>)
        ensures
            r is Err <==> parse_register(data@) is None,
            r matches Ok(v) ==> parse_register(data@) matches Some((m, _)) && v@ == m,
    {
        reveal(parse_register);
        let (class_id, s) = match read_u64(data) {
            None => return Err(DecodeError::InvalidData),
            Some(p) => p,
        };
        let (profile_id, s) = match read_u64(s) {
            None => return Err(DecodeError::InvalidData),
            Some(p) => p,
        };
        let (fungible, s) = match read_bool(s) {
            None => return Err(DecodeError::InvalidData),
            Some(p) => p,
        };
        let (transferable, s) = match read_bool(s) {
            None => return Err(DecodeError::InvalidData),
            Some(p) => p,
        };
        let (revocable, s) = match read_bool(s) {
            None => return Err(DecodeError::InvalidData),
            Some(p) => p,
        };
        let (address, s) = match read_key(s) {
            None => return Err(DecodeError::InvalidData),
            Some(p) => p,
        };
        let (schema, _s) = match read_string(s) {
            None => return Err(DecodeError::InvalidData),
            Some(p) => p,
        };
        Ok(
            Register {
                class_id,
                profile_id,
                params: RegisterParams { fungible, transferable, revocable, address, schema },
            },
        )
    }
}

impl MintBadge {
    /// Decodes a mint payload from the bytes after the discriminator.
    /// Bytes left over after the last field are ignored.
    pub fn deserialize(data: &[u8]) -> (r: Result<MintBadge, DecodeError>)
        ensures
            r is Err <==> parse_mint_badge(data@) is None,
            r matches Ok(v) ==> parse_mint_badge(data@) matches Some((m, _)) && v@ == m,
    {
        reveal(parse_mint_badge);
        let (badge_id, s) = match read_u64(data) {
            None => return Err(DecodeError::InvalidData),
            Some(p) => p,
        };
        let (class_id, s) = match read_u64(s) {
            None => return Err(DecodeError::InvalidData),
            Some(p) => p,
        };
        let (origins, s) = match read_u64_seq(s) {
            None => return Err(DecodeError::InvalidData),
            Some(p) => p,
        };
        let (params, _s) = match read_mint_params(s) {
            None => return Err(DecodeError::InvalidData),
            Some(p) => p,
        };
        Ok(MintBadge { badge_id, class_id, origins, params })
    }
}

} // verus!
