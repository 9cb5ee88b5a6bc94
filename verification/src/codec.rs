//! The bech32 text form shared by every address and public key: the six
//! roles, their prefixes, and the rules by which text is accepted for a role
//! and carried over from one role to another.

use vstd::prelude::*;

verus! {

/// How many 5-bit groups the payload of an address holds.
pub const ADDR_LEN: usize = 32;

/// The prefix of an account address.
pub const ACC_ADDRESS_HRP: &'static str = "terra";

/// The prefix of a validator operator address.
pub const VAL_ADDRESS_HRP: &'static str = "terravaloper";

/// The prefix of a validator consensus address.
pub const VALCONS_ADDRESS_HRP: &'static str = "terravalcons";

/// The prefix of an account public key.
pub const ACC_PUBKEY_HRP: &'static str = "terrapub";

/// The prefix of a validator operator public key.
pub const VAL_PUBKEY_HRP: &'static str = "terravaloperpub";

/// The prefix of a validator consensus public key.
pub const VALCONS_PUBKEY_HRP: &'static str = "terravalconspub";

/// What a bech32 string stands for.
#[derive(Debug, Clone, Copy, PartialEq, Eq, Structural)]
pub enum Role {
    AccAddress,
    ValAddress,
    ValConsAddress,
    AccPubKey,
    ValPubKey,
    ValConsPubKey,
}

/// What a bech32 string holds once decoded: the prefix in lower case, the
/// payload in 5-bit groups, and whether its checksum is that of bech32m.
#[derive(Debug)]
pub struct Payload {
    pub hrp: String,
    pub data: Vec<u8>,
    pub bech32m: bool,
}

impl View for Payload {
    type V = (Seq<char>, Seq<u8>, bool);

    open spec fn view(&self) -> (Seq<char>, Seq<u8>, bool) {
        (self.hrp@, self.data@, self.bech32m)
    }
}

/// The model of a decoding result.
pub open spec fn decoded_view(d: Option<Payload>) -> Option<(Seq<char>, Seq<u8>, bool)> {
    match d {
        Some(p) => Some(p@),
        None => None,
    }
}

/// Every group of the payload is below 32.
pub open spec fn five_bit(data: Seq<u8>) -> bool {
    forall|i: int| 0 <= i < data.len() ==> #[trigger] data[i] < 32
}

/// What `bech32::decode` returns for the text `s`: prefix, payload and
/// checksum kind, or nothing where it reports an error.
pub uninterp spec fn bech32_decode(s: Seq<char>) -> Option<(Seq<char>, Seq<u8>, bool)>;

/// The text that `bech32::encode` writes for a prefix it accepts.
pub uninterp spec fn bech32_encode(hrp: Seq<char>, data: Seq<u8>, bech32m: bool) -> Seq<char>;

/// The prefixes that `bech32::encode` accepts: 1 to 83 printable ASCII
/// characters, not of both cases.
pub open spec fn valid_hrp(hrp: Seq<char>) -> bool {
    &&& 1 <= hrp.len() <= 83
    &&& forall|i: int| 0 <= i < hrp.len() ==> 33 <= #[trigger] hrp[i] as u32 <= 126
    &&& !((exists|i: int| 0 <= i < hrp.len() && 'a' <= #[trigger] hrp[i] <= 'z') && (exists|
        j: int,
    | 0 <= j < hrp.len() && 'A' <= #[trigger] hrp[j] <= 'Z'))
}

/// `bech32::decode`: the result is the decoding of `s`, and each group of a
/// decoded payload is below 32.
#[verifier::external_body]
fn decode_text(s: &str) -> (r: Option<Payload>)
    ensures
        decoded_view(r) == bech32_decode(s@),
        r matches Some(p) ==> five_bit(p.data@),
{
    match bech32::decode(s) {
        Ok((hrp, data, variant)) => Some(
            Payload {
                hrp,
                data: data.into_iter().map(|g| g.to_u8()).collect(),
                bech32m: match variant {
                    bech32::Variant::Bech32 => false,
                    bech32::Variant::Bech32m => true,
                },
            },
        ),
        Err(_) => None,
    }
}

/// `bech32::encode`: it succeeds exactly for a prefix that is valid, and the
/// text it then writes is the encoding of its three arguments.
#[verifier::external_body]
fn encode_text(hrp: &str, data: &Vec<u8>, bech32m: bool) -> (r: Option<String>)
    requires
        five_bit(data@),
    ensures
        r is Some == valid_hrp(hrp@),
        r matches Some(s) ==> s@ == bech32_encode(hrp@, data@, bech32m),
{
    let groups: Vec<bech32::u5> = data.iter().map(
        |b| bech32::u5::try_from_u8(*b).unwrap(),
    ).collect();
    let variant = match bech32m {
        false => bech32::Variant::Bech32,
        true => bech32::Variant::Bech32m,
    };
    bech32::encode(hrp, groups, variant).ok()
}

impl Role {
    /// The prefix that text of this role begins with.
    pub open spec fn spec_prefix(self) -> Seq<char> {
        match self {
            Role::AccAddress => "terra"@,
            Role::ValAddress => "terravaloper"@,
            Role::ValConsAddress => "terravalcons"@,
            Role::AccPubKey => "terrapub"@,
            Role::ValPubKey => "terravaloperpub"@,
            Role::ValConsPubKey => "terravalconspub"@,
        }
    }

    /// Whether the role is an address, whose payload has a fixed length.
    pub open spec fn spec_is_address(self) -> bool {
        self == Role::AccAddress || self == Role::ValAddress || self == Role::ValConsAddress
    }

    /// The prefix that text of this role begins with.
    pub fn prefix(self) -> (r: &'static str)
        ensures
            r@ == self.spec_prefix(),
    {
        match self {
            Role::AccAddress => ACC_ADDRESS_HRP,
            Role::ValAddress => VAL_ADDRESS_HRP,
            Role::ValConsAddress => VALCONS_ADDRESS_HRP,
            Role::AccPubKey => ACC_PUBKEY_HRP,
            Role::ValPubKey => VAL_PUBKEY_HRP,
            Role::ValConsPubKey => VALCONS_PUBKEY_HRP,
        }
    }

    /// What the role is called in a message.
    pub open spec fn spec_description(self) -> Seq<char> {
        match self {
            Role::AccAddress => "account address"@,
            Role::ValAddress => "validator address"@,
            Role::ValConsAddress => "validator consensus address"@,
            Role::AccPubKey => "account public key"@,
            Role::ValPubKey => "validator public key"@,
            Role::ValConsPubKey => "validator consensus public key"@,
        }
    }

    /// What the role is called in a message.
    pub fn description(self) -> (r: &'static str)
        ensures
            r@ == self.spec_description(),
    {
        match self {
            Role::AccAddress => "account address",
            Role::ValAddress => "validator address",
            Role::ValConsAddress => "validator consensus address",
            Role::AccPubKey => "account public key",
            Role::ValPubKey => "validator public key",
            Role::ValConsPubKey => "validator consensus public key",
        }
    }

    /// Whether the role is an address, whose payload has a fixed length.
    pub fn is_address(self) -> (r: bool)
        ensures
            r == self.spec_is_address(),
    {
        match self {
            Role::AccAddress | Role::ValAddress | Role::ValConsAddress => true,
            _ => false,
        }
    }
}

/// Whether a decoding result is acceptable for `role`: the text decoded, its
/// prefix is the role's, and, for an address, the payload has `ADDR_LEN` groups.
pub open spec fn accepts(role: Role, decoded: Option<(Seq<char>, Seq<u8>, bool)>) -> bool {
    match decoded {
        Some((hrp, data, _)) => hrp == role.spec_prefix() && (role.spec_is_address()
            ==> data.len() == ADDR_LEN),
        None => false,
    }
}

/// Whether the text `s` is valid for `role`.
pub open spec fn is_valid_text(role: Role, s: Seq<char>) -> bool {
    accepts(role, bech32_decode(s))
}

/// The text that carries the payload and checksum kind of `s` under the
/// prefix of `to`; empty where `s` does not decode.
pub open spec fn reencoded(s: Seq<char>, to: Role) -> Seq<char> {
    match bech32_decode(s) {
        Some((_, data, bech32m)) => bech32_encode(to.spec_prefix(), data, bech32m),
        None => Seq::empty(),
    }
}

/// Decides whether a decoding result is acceptable for `role`.
pub fn payload_fits(role: Role, decoded: &Option<Payload>) -> (r: bool)
    ensures
        r == accepts(role, decoded_view(*decoded)),
{
    match decoded {
        Some(p) => {
            let expected: String = role.prefix().to_owned();
            if p.hrp != expected {
                return false;
            }
            if role.is_address() {
                if p.data.len() != ADDR_LEN {
                    return false;
                }
            }
            true
        },
        None => false,
    }
}

/// Decides whether `s` is valid for `role`.
pub fn validate_as(role: Role, s: &str) -> (r: bool)
    ensures
        r == is_valid_text(role, s@),
{
    let decoded = decode_text(s);
    payload_fits(role, &decoded)
}

/// A role's prefix is one that the encoder accepts.
pub proof fn lemma_prefix_is_valid(role: Role)
    ensures
        valid_hrp(role.spec_prefix()),
{
    reveal_strlit("terra");
    reveal_strlit("terravaloper");
    reveal_strlit("terravalcons");
    reveal_strlit("terrapub");
    reveal_strlit("terravaloperpub");
    reveal_strlit("terravalconspub");
    let h = role.spec_prefix();
    assert forall|i: int| 0 <= i < h.len() implies 'a' <= #[trigger] h[i] <= 'z' by {}
}

/// Writes the payload of `p` under the prefix of `to`.
pub fn encode_as(p: &Payload, to: Role) -> (r: String)
    requires
        five_bit(p.data@),
    ensures
        r@ == bech32_encode(to.spec_prefix(), p.data@, p.bech32m),
{
    proof {
        lemma_prefix_is_valid(to);
    }
    encode_text(to.prefix(), &p.data, p.bech32m).unwrap()
}

/// Carries the payload of the bech32 text `s` over to the role `to`.
pub fn convert(s: &str, to: Role) -> (r: String)
    requires
        bech32_decode(s@) is Some,
    ensures
        r@ == reencoded(s@, to),
{
    let p = decode_text(s).unwrap();
    encode_as(&p, to)
}

/// Carries the payload of `s` from the role `from` over to the role `to`, or
/// returns nothing where `s` is not valid for `from`.
pub fn try_convert(s: &str, from: Role, to: Role) -> (r: Option<String>)
    ensures
        r is Some == is_valid_text(from, s@),
        r matches Some(t) ==> t@ == reencoded(s@, to),
{
    if validate_as(from, s) {
        Some(convert(s, to))
    } else {
        None
    }
}

} // verus!
