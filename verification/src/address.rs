//! The six kinds of bech32 string that name an account, a validator or a
//! key: each a string together with the role it is meant for. A value made by
//! `new` is valid for its role; one made by `unchecked` is whatever it was given.

use crate::codec::{convert, is_valid_text, reencoded, validate_as, Role};
use crate::error::Error;
use vstd::prelude::*;
use vstd::std_specs::cmp::PartialEqSpecImpl;

verus! {

/// The text of an account address.
#[derive(Debug, Eq)]
pub struct AccAddress(pub String);

impl View for AccAddress {
    type V = Seq<char>;

    open spec fn view(&self) -> Seq<char> {
        self.0@
    }
}

impl PartialEq for AccAddress {
    fn eq(&self, other: &Self) -> (r: bool) {
        self.0 == other.0
    }
}

impl PartialEqSpecImpl for AccAddress {
    open spec fn obeys_eq_spec() -> bool {
        true
    }

    open spec fn eq_spec(&self, other: &Self) -> bool {
        self@ == other@
    }
}

impl Clone for AccAddress {
    fn clone(&self) -> (r: Self)
        ensures
            r@ == self@,
    {
        AccAddress(self.0.clone())
    }
}

impl AccAddress {
    /// Whether the text is valid for this role.
    pub open spec fn spec_is_valid(&self) -> bool {
        is_valid_text(Role::AccAddress, self@)
    }

    /// Wraps the text as it is, valid or not.
    pub fn unchecked(address: &str) -> (r: Self)
        ensures
            r@ == address@,
    {
        AccAddress(address.to_owned())
    }

    /// Wraps the text if it is valid for this role, and otherwise reports it.
    pub fn new(address: &str) -> (r: Result<Self, Error>)
        ensures
            match r {
                Ok(a) => a@ == address@ && is_valid_text(Role::AccAddress, address@),
                Err(e) => !is_valid_text(Role::AccAddress, address@) && (e matches Error::InvalidAddress(role, text)
                    && role == Role::AccAddress && text@ == address@),
            },
    {
        if Self::validate(address) {
            Ok(AccAddress(address.to_owned()))
        } else {
            Err(Error::InvalidAddress(Role::AccAddress, address.to_owned()))
        }
    }

    /// Whether `test` decodes as an account address.
    pub fn validate(test: &str) -> (r: bool)
        ensures
            r == is_valid_text(Role::AccAddress, test@),
    {
        validate_as(Role::AccAddress, test)
    }

    /// Whether the text held is valid for this role.
    pub fn is_valid(&self) -> (r: bool)
        ensures
            r == self.spec_is_valid(),
    {
        Self::validate(self.0.as_str())
    }

    /// The text held.
    pub fn as_str(&self) -> (r: &str)
        ensures
            r@ == self@,
    {
        self.0.as_str()
    }

    /// Reads an account address; the same as `new`.
    pub fn from_str(s: &str) -> (r: Result<Self, Error>)
        ensures
            match r {
                Ok(a) => a@ == s@ && is_valid_text(Role::AccAddress, s@),
                Err(e) => !is_valid_text(Role::AccAddress, s@) && (e matches Error::InvalidAddress(role, text)
                    && role == Role::AccAddress && text@ == s@),
            },
    {
        Self::new(s)
    }

    /// The text itself.
    pub fn into_string(self) -> (r: String)
        ensures
            r@ == self@,
    {
        self.0
    }

    /// A copy of the text.
    pub fn to_string(&self) -> (r: String)
        ensures
            r@ == self@,
    {
        self.0.clone()
    }

    /// The same payload as a validator operator address. The source must be valid.
    pub fn to_val_address(self) -> (r: ValAddress)
        requires
            self.spec_is_valid(),
        ensures
            r@ == reencoded(self@, Role::ValAddress),
    {
        ValAddress(convert(self.0.as_str(), Role::ValAddress))
    }

    /// The same payload as a validator operator address, or nothing where the source is not valid.
    pub fn try_to_val_address(self) -> (r: Option<ValAddress>)
        ensures
            r is Some == self.spec_is_valid(),
            r matches Some(t) ==> t@ == reencoded(self@, Role::ValAddress),
    {
        if self.is_valid() {
            Some(self.to_val_address())
        } else {
            None
        }
    }

    /// The same payload as an account public key. The source must be valid.
    pub fn to_acc_pubkey(self) -> (r: AccPubKey)
        requires
            self.spec_is_valid(),
        ensures
            r@ == reencoded(self@, Role::AccPubKey),
    {
        AccPubKey(convert(self.0.as_str(), Role::AccPubKey))
    }

    /// The same payload as an account public key, or nothing where the source is not valid.
    pub fn try_to_acc_pubkey(self) -> (r: Option<AccPubKey>)
        ensures
            r is Some == self.spec_is_valid(),
            r matches Some(t) ==> t@ == reencoded(self@, Role::AccPubKey),
    {
        if self.is_valid() {
            Some(self.to_acc_pubkey())
        } else {
            None
        }
    }
}

/// The text of a validator operator address.
#[derive(Debug, Eq)]
pub struct ValAddress(pub String);

impl View for ValAddress {
    type V = Seq<char>;

    open spec fn view(&self) -> Seq<char> {
        self.0@
    }
}

impl PartialEq for ValAddress {
    fn eq(&self, other: &Self) -> (r: bool) {
        self.0 == other.0
    }
}

impl PartialEqSpecImpl for ValAddress {
    open spec fn obeys_eq_spec() -> bool {
        true
    }

    open spec fn eq_spec(&self, other: &Self) -> bool {
        self@ == other@
    }
}

impl Clone for ValAddress {
    fn clone(&self) -> (r: Self)
        ensures
            r@ == self@,
    {
        ValAddress(self.0.clone())
    }
}

impl ValAddress {
    /// Whether the text is valid for this role.
    pub open spec fn spec_is_valid(&self) -> bool {
        is_valid_text(Role::ValAddress, self@)
    }

    /// Wraps the text as it is, valid or not.
    pub fn unchecked(address: &str) -> (r: Self)
        ensures
            r@ == address@,
    {
        ValAddress(address.to_owned())
    }

    /// Wraps the text if it is valid for this role, and otherwise reports it.
    pub fn new(address: &str) -> (r: Result<Self, Error>)
        ensures
            match r {
                Ok(a) => a@ == address@ && is_valid_text(Role::ValAddress, address@),
                Err(e) => !is_valid_text(Role::ValAddress, address@) && (e matches Error::InvalidAddress(role, text)
                    && role == Role::ValAddress && text@ == address@),
            },
    {
        if Self::validate(address) {
            Ok(ValAddress(address.to_owned()))
        } else {
            Err(Error::InvalidAddress(Role::ValAddress, address.to_owned()))
        }
    }

    /// Whether `test` decodes as a validator operator address.
    pub fn validate(test: &str) -> (r: bool)
        ensures
            r == is_valid_text(Role::ValAddress, test@),
    {
        validate_as(Role::ValAddress, test)
    }

    /// Whether the text held is valid for this role.
    pub fn is_valid(&self) -> (r: bool)
        ensures
            r == self.spec_is_valid(),
    {
        Self::validate(self.0.as_str())
    }

    /// The text held.
    pub fn as_str(&self) -> (r: &str)
        ensures
            r@ == self@,
    {
        self.0.as_str()
    }

    /// Reads a validator operator address; the same as `new`.
    pub fn from_str(s: &str) -> (r: Result<Self, Error>)
        ensures
            match r {
                Ok(a) => a@ == s@ && is_valid_text(Role::ValAddress, s@),
                Err(e) => !is_valid_text(Role::ValAddress, s@) && (e matches Error::InvalidAddress(role, text)
                    && role == Role::ValAddress && text@ == s@),
            },
    {
        Self::new(s)
    }

    /// The text itself.
    pub fn into_string(self) -> (r: String)
        ensures
            r@ == self@,
    {
        self.0
    }

    /// A copy of the text.
    pub fn to_string(&self) -> (r: String)
        ensures
            r@ == self@,
    {
        self.0.clone()
    }

    /// The same payload as an account address. The source must be valid.
    pub fn to_acc_address(self) -> (r: AccAddress)
        requires
            self.spec_is_valid(),
        ensures
            r@ == reencoded(self@, Role::AccAddress),
    {
        AccAddress(convert(self.0.as_str(), Role::AccAddress))
    }

    /// The same payload as an account address, or nothing where the source is not valid.
    pub fn try_to_acc_address(self) -> (r: Option<AccAddress>)
        ensures
            r is Some == self.spec_is_valid(),
            r matches Some(t) ==> t@ == reencoded(self@, Role::AccAddress),
    {
        if self.is_valid() {
            Some(self.to_acc_address())
        } else {
            None
        }
    }

    /// The same payload as a validator operator public key. The source must be valid.
    pub fn to_val_pubkey(self) -> (r: ValPubKey)
        requires
            self.spec_is_valid(),
        ensures
            r@ == reencoded(self@, Role::ValPubKey),
    {
        ValPubKey(convert(self.0.as_str(), Role::ValPubKey))
    }

    /// The same payload as a validator operator public key, or nothing where the source is not valid.
    pub fn try_to_val_pubkey(self) -> (r: Option<ValPubKey>)
        ensures
            r is Some == self.spec_is_valid(),
            r matches Some(t) ==> t@ == reencoded(self@, Role::ValPubKey),
    {
        if self.is_valid() {
            Some(self.to_val_pubkey())
        } else {
            None
        }
    }
}

/// The text of a validator consensus address.
#[derive(Debug, Eq)]
pub struct ValConsAddress(pub String);

impl View for ValConsAddress {
    type V = Seq<char>;

    open spec fn view(&self) -> Seq<char> {
        self.0@
    }
}

impl PartialEq for ValConsAddress {
    fn eq(&self, other: &Self) -> (r: bool) {
        self.0 == other.0
    }
}

impl PartialEqSpecImpl for ValConsAddress {
    open spec fn obeys_eq_spec() -> bool {
        true
    }

    open spec fn eq_spec(&self, other: &Self) -> bool {
        self@ == other@
    }
}

impl Clone for ValConsAddress {
    fn clone(&self) -> (r: Self)
        ensures
            r@ == self@,
    {
        ValConsAddress(self.0.clone())
    }
}

impl ValConsAddress {
    /// Whether the text is valid for this role.
    pub open spec fn spec_is_valid(&self) -> bool {
        is_valid_text(Role::ValConsAddress, self@)
    }

    /// Wraps the text as it is, valid or not.
    pub fn unchecked(address: &str) -> (r: Self)
        ensures
            r@ == address@,
    {
        ValConsAddress(address.to_owned())
    }

    /// Wraps the text if it is valid for this role, and otherwise reports it.
    pub fn new(address: &str) -> (r: Result<Self, Error>)
        ensures
            match r {
                Ok(a) => a@ == address@ && is_valid_text(Role::ValConsAddress, address@),
                Err(e) => !is_valid_text(Role::ValConsAddress, address@) && (e matches Error::InvalidAddress(role, text)
                    && role == Role::ValConsAddress && text@ == address@),
            },
    {
        if Self::validate(address) {
            Ok(ValConsAddress(address.to_owned()))
        } else {
            Err(Error::InvalidAddress(Role::ValConsAddress, address.to_owned()))
        }
    }

    /// Whether `test` decodes as a validator consensus address.
    pub fn validate(test: &str) -> (r: bool)
        ensures
            r == is_valid_text(Role::ValConsAddress, test@),
    {
        validate_as(Role::ValConsAddress, test)
    }

    /// Whether the text held is valid for this role.
    pub fn is_valid(&self) -> (r: bool)
        ensures
            r == self.spec_is_valid(),
    {
        Self::validate(self.0.as_str())
    }

    /// The text held.
    pub fn as_str(&self) -> (r: &str)
        ensures
            r@ == self@,
    {
        self.0.as_str()
    }

    /// Reads a validator consensus address; the same as `new`.
    pub fn from_str(s: &str) -> (r: Result<Self, Error>)
        ensures
            match r {
                Ok(a) => a@ == s@ && is_valid_text(Role::ValConsAddress, s@),
                Err(e) => !is_valid_text(Role::ValConsAddress, s@) && (e matches Error::InvalidAddress(role, text)
                    && role == Role::ValConsAddress && text@ == s@),
            },
    {
        Self::new(s)
    }

    /// The text itself.
    pub fn into_string(self) -> (r: String)
        ensures
            r@ == self@,
    {
        self.0
    }

    /// A copy of the text.
    pub fn to_string(&self) -> (r: String)
        ensures
            r@ == self@,
    {
        self.0.clone()
    }

    /// The same payload as a validator consensus public key. The source must be valid.
    pub fn to_val_cons_pubkey(self) -> (r: ValConsPubKey)
        requires
            self.spec_is_valid(),
        ensures
            r@ == reencoded(self@, Role::ValConsPubKey),
    {
        ValConsPubKey(convert(self.0.as_str(), Role::ValConsPubKey))
    }

    /// The same payload as a validator consensus public key, or nothing where the source is not valid.
    pub fn try_to_val_cons_pubkey(self) -> (r: Option<ValConsPubKey>)
        ensures
            r is Some == self.spec_is_valid(),
            r matches Some(t) ==> t@ == reencoded(self@, Role::ValConsPubKey),
    {
        if self.is_valid() {
            Some(self.to_val_cons_pubkey())
        } else {
            None
        }
    }
}

/// The text of an account public key.
#[derive(Debug, Eq)]
pub struct AccPubKey(pub String);

impl View for AccPubKey {
    type V = Seq<char>;

    open spec fn view(&self) -> Seq<char> {
        self.0@
    }
}

impl PartialEq for AccPubKey {
    fn eq(&self, other: &Self) -> (r: bool) {
        self.0 == other.0
    }
}

impl PartialEqSpecImpl for AccPubKey {
    open spec fn obeys_eq_spec() -> bool {
        true
    }

    open spec fn eq_spec(&self, other: &Self) -> bool {
        self@ == other@
    }
}

impl Clone for AccPubKey {
    fn clone(&self) -> (r: Self)
        ensures
            r@ == self@,
    {
        AccPubKey(self.0.clone())
    }
}

impl AccPubKey {
    /// Whether the text is valid for this role.
    pub open spec fn spec_is_valid(&self) -> bool {
        is_valid_text(Role::AccPubKey, self@)
    }

    /// Wraps the text as it is, valid or not.
    pub fn unchecked(pubkey: &str) -> (r: Self)
        ensures
            r@ == pubkey@,
    {
        AccPubKey(pubkey.to_owned())
    }

    /// Wraps the text if it is valid for this role, and otherwise reports it.
    pub fn new(pubkey: &str) -> (r: Result<Self, Error>)
        ensures
            match r {
                Ok(a) => a@ == pubkey@ && is_valid_text(Role::AccPubKey, pubkey@),
                Err(e) => !is_valid_text(Role::AccPubKey, pubkey@) && (e matches Error::InvalidPublicKey(role, text)
                    && role == Role::AccPubKey && text@ == pubkey@),
            },
    {
        if Self::validate(pubkey) {
            Ok(AccPubKey(pubkey.to_owned()))
        } else {
            Err(Error::InvalidPublicKey(Role::AccPubKey, pubkey.to_owned()))
        }
    }

    /// Whether `test` decodes as an account public key.
    pub fn validate(test: &str) -> (r: bool)
        ensures
            r == is_valid_text(Role::AccPubKey, test@),
    {
        validate_as(Role::AccPubKey, test)
    }

    /// Whether the text held is valid for this role.
    pub fn is_valid(&self) -> (r: bool)
        ensures
            r == self.spec_is_valid(),
    {
        Self::validate(self.0.as_str())
    }

    /// The text held.
    pub fn as_str(&self) -> (r: &str)
        ensures
            r@ == self@,
    {
        self.0.as_str()
    }

    /// Reads an account public key; the same as `new`.
    pub fn from_str(s: &str) -> (r: Result<Self, Error>)
        ensures
            match r {
                Ok(a) => a@ == s@ && is_valid_text(Role::AccPubKey, s@),
                Err(e) => !is_valid_text(Role::AccPubKey, s@) && (e matches Error::InvalidPublicKey(role, text)
                    && role == Role::AccPubKey && text@ == s@),
            },
    {
        Self::new(s)
    }

    /// The text itself.
    pub fn into_string(self) -> (r: String)
        ensures
            r@ == self@,
    {
        self.0
    }

    /// A copy of the text.
    pub fn to_string(&self) -> (r: String)
        ensures
            r@ == self@,
    {
        self.0.clone()
    }

    /// The same payload as a validator operator public key. The source must be valid.
    pub fn to_val_pubkey(self) -> (r: ValPubKey)
        requires
            self.spec_is_valid(),
        ensures
            r@ == reencoded(self@, Role::ValPubKey),
    {
        ValPubKey(convert(self.0.as_str(), Role::ValPubKey))
    }

    /// The same payload as a validator operator public key, or nothing where the source is not valid.
    pub fn try_to_val_pubkey(self) -> (r: Option<ValPubKey>)
        ensures
            r is Some == self.spec_is_valid(),
            r matches Some(t) ==> t@ == reencoded(self@, Role::ValPubKey),
    {
        if self.is_valid() {
            Some(self.to_val_pubkey())
        } else {
            None
        }
    }

    /// The same payload as an account address. The source must be valid.
    pub fn to_acc_address(self) -> (r: AccAddress)
        requires
            self.spec_is_valid(),
        ensures
            r@ == reencoded(self@, Role::AccAddress),
    {
        AccAddress(convert(self.0.as_str(), Role::AccAddress))
    }

    /// The same payload as an account address, or nothing where the source is not valid.
    pub fn try_to_acc_address(self) -> (r: Option<AccAddress>)
        ensures
            r is Some == self.spec_is_valid(),
            r matches Some(t) ==> t@ == reencoded(self@, Role::AccAddress),
    {
        if self.is_valid() {
            Some(self.to_acc_address())
        } else {
            None
        }
    }
}

/// The text of a validator operator public key.
#[derive(Debug, Eq)]
pub struct ValPubKey(pub String);

impl View for ValPubKey {
    type V = Seq<char>;

    open spec fn view(&self) -> Seq<char> {
        self.0@
    }
}

impl PartialEq for ValPubKey {
    fn eq(&self, other: &Self) -> (r: bool) {
        self.0 == other.0
    }
}

impl PartialEqSpecImpl for ValPubKey {
    open spec fn obeys_eq_spec() -> bool {
        true
    }

    open spec fn eq_spec(&self, other: &Self) -> bool {
        self@ == other@
    }
}

impl Clone for ValPubKey {
    fn clone(&self) -> (r: Self)
        ensures
            r@ == self@,
    {
        ValPubKey(self.0.clone())
    }
}

impl ValPubKey {
    /// Whether the text is valid for this role.
    pub open spec fn spec_is_valid(&self) -> bool {
        is_valid_text(Role::ValPubKey, self@)
    }

    /// Wraps the text as it is, valid or not.
    pub fn unchecked(pubkey: &str) -> (r: Self)
        ensures
            r@ == pubkey@,
    {
        ValPubKey(pubkey.to_owned())
    }

    /// Wraps the text if it is valid for this role, and otherwise reports it.
    pub fn new(pubkey: &str) -> (r: Result<Self, Error>)
        ensures
            match r {
                Ok(a) => a@ == pubkey@ && is_valid_text(Role::ValPubKey, pubkey@),
                Err(e) => !is_valid_text(Role::ValPubKey, pubkey@) && (e matches Error::InvalidPublicKey(role, text)
                    && role == Role::ValPubKey && text@ == pubkey@),
            },
    {
        if Self::validate(pubkey) {
            Ok(ValPubKey(pubkey.to_owned()))
        } else {
            Err(Error::InvalidPublicKey(Role::ValPubKey, pubkey.to_owned()))
        }
    }

    /// Whether `test` decodes as a validator operator public key.
    pub fn validate(test: &str) -> (r: bool)
        ensures
            r == is_valid_text(Role::ValPubKey, test@),
    {
        validate_as(Role::ValPubKey, test)
    }

    /// Whether the text held is valid for this role.
    pub fn is_valid(&self) -> (r: bool)
        ensures
            r == self.spec_is_valid(),
    {
        Self::validate(self.0.as_str())
    }

    /// The text held.
    pub fn as_str(&self) -> (r: &str)
        ensures
            r@ == self@,
    {
        self.0.as_str()
    }

    /// Reads a validator operator public key; the same as `new`.
    pub fn from_str(s: &str) -> (r: Result<Self, Error>)
        ensures
            match r {
                Ok(a) => a@ == s@ && is_valid_text(Role::ValPubKey, s@),
                Err(e) => !is_valid_text(Role::ValPubKey, s@) && (e matches Error::InvalidPublicKey(role, text)
                    && role == Role::ValPubKey && text@ == s@),
            },
    {
        Self::new(s)
    }

    /// The text itself.
    pub fn into_string(self) -> (r: String)
        ensures
            r@ == self@,
    {
        self.0
    }

    /// A copy of the text.
    pub fn to_string(&self) -> (r: String)
        ensures
            r@ == self@,
    {
        self.0.clone()
    }

    /// The same payload as an account public key. The source must be valid.
    pub fn to_acc_pubkey(self) -> (r: AccPubKey)
        requires
            self.spec_is_valid(),
        ensures
            r@ == reencoded(self@, Role::AccPubKey),
    {
        AccPubKey(convert(self.0.as_str(), Role::AccPubKey))
    }

    /// The same payload as an account public key, or nothing where the source is not valid.
    pub fn try_to_acc_pubkey(self) -> (r: Option<AccPubKey>)
        ensures
            r is Some == self.spec_is_valid(),
            r matches Some(t) ==> t@ == reencoded(self@, Role::AccPubKey),
    {
        if self.is_valid() {
            Some(self.to_acc_pubkey())
        } else {
            None
        }
    }

    /// The same payload as a validator operator address. The source must be valid.
    pub fn to_val_address(self) -> (r: ValAddress)
        requires
            self.spec_is_valid(),
        ensures
            r@ == reencoded(self@, Role::ValAddress),
    {
        ValAddress(convert(self.0.as_str(), Role::ValAddress))
    }

    /// The same payload as a validator operator address, or nothing where the source is not valid.
    pub fn try_to_val_address(self) -> (r: Option<ValAddress>)
        ensures
            r is Some == self.spec_is_valid(),
            r matches Some(t) ==> t@ == reencoded(self@, Role::ValAddress),
    {
        if self.is_valid() {
            Some(self.to_val_address())
        } else {
            None
        }
    }
}

/// The text of a validator consensus public key.
#[derive(Debug, Eq)]
pub struct ValConsPubKey(pub String);

impl View for ValConsPubKey {
    type V = Seq<char>;

    open spec fn view(&self) -> Seq<char> {
        self.0@
    }
}

impl PartialEq for ValConsPubKey {
    fn eq(&self, other: &Self) -> (r: bool) {
        self.0 == other.0
    }
}

impl PartialEqSpecImpl for ValConsPubKey {
    open spec fn obeys_eq_spec() -> bool {
        true
    }

    open spec fn eq_spec(&self, other: &Self) -> bool {
        self@ == other@
    }
}

impl Clone for ValConsPubKey {
    fn clone(&self) -> (r: Self)
        ensures
            r@ == self@,
    {
        ValConsPubKey(self.0.clone())
    }
}

impl ValConsPubKey {
    /// Whether the text is valid for this role.
    pub open spec fn spec_is_valid(&self) -> bool {
        is_valid_text(Role::ValConsPubKey, self@)
    }

    /// Wraps the text as it is, valid or not.
    pub fn unchecked(pubkey: &str) -> (r: Self)
        ensures
            r@ == pubkey@,
    {
        ValConsPubKey(pubkey.to_owned())
    }

    /// Wraps the text if it is valid for this role, and otherwise reports it.
    pub fn new(pubkey: &str) -> (r: Result<Self, Error>)
        ensures
            match r {
                Ok(a) => a@ == pubkey@ && is_valid_text(Role::ValConsPubKey, pubkey@),
                Err(e) => !is_valid_text(Role::ValConsPubKey, pubkey@) && (e matches Error::InvalidPublicKey(role, text)
                    && role == Role::ValConsPubKey && text@ == pubkey@),
            },
    {
        if Self::validate(pubkey) {
            Ok(ValConsPubKey(pubkey.to_owned()))
        } else {
            Err(Error::InvalidPublicKey(Role::ValConsPubKey, pubkey.to_owned()))
        }
    }

    /// Whether `test` decodes as a validator consensus public key.
    pub fn validate(test: &str) -> (r: bool)
        ensures
            r == is_valid_text(Role::ValConsPubKey, test@),
    {
        validate_as(Role::ValConsPubKey, test)
    }

    /// Whether the text held is valid for this role.
    pub fn is_valid(&self) -> (r: bool)
        ensures
            r == self.spec_is_valid(),
    {
        Self::validate(self.0.as_str())
    }

    /// The text held.
    pub fn as_str(&self) -> (r: &str)
        ensures
            r@ == self@,
    {
        self.0.as_str()
    }

    /// Reads a validator consensus public key; the same as `new`.
    pub fn from_str(s: &str) -> (r: Result<Self, Error>)
        ensures
            match r {
                Ok(a) => a@ == s@ && is_valid_text(Role::ValConsPubKey, s@),
                Err(e) => !is_valid_text(Role::ValConsPubKey, s@) && (e matches Error::InvalidPublicKey(role, text)
                    && role == Role::ValConsPubKey && text@ == s@),
            },
    {
        Self::new(s)
    }

    /// The text itself.
    pub fn into_string(self) -> (r: String)
        ensures
            r@ == self@,
    {
        self.0
    }

    /// A copy of the text.
    pub fn to_string(&self) -> (r: String)
        ensures
            r@ == self@,
    {
        self.0.clone()
    }

    /// The same payload as a validator consensus address. The source must be valid.
    pub fn to_val_cons_address(self) -> (r: ValConsAddress)
        requires
            self.spec_is_valid(),
        ensures
            r@ == reencoded(self@, Role::ValConsAddress),
    {
        ValConsAddress(convert(self.0.as_str(), Role::ValConsAddress))
    }

    /// The same payload as a validator consensus address, or nothing where the source is not valid.
    pub fn try_to_val_cons_address(self) -> (r: Option<ValConsAddress>)
        ensures
            r is Some == self.spec_is_valid(),
            r matches Some(t) ==> t@ == reencoded(self@, Role::ValConsAddress),
    {
        if self.is_valid() {
            Some(self.to_val_cons_address())
        } else {
            None
        }
    }
}

} // verus!
