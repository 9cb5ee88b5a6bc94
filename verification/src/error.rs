use crate::codec::Role;
use vstd::prelude::*;

verus! {

/// Why an operation of this library failed.
#[derive(Debug, PartialEq, Eq)]
pub enum Error {
    /// The text is not a number, a decimal or a coin.
    Parse,
    /// The sum or product does not fit the type.
    Overflow,
    /// The difference would be negative.
    Underflow,
    /// The divisor is zero.
    DivideByZero,
    /// Two coins of different denominations were combined.
    DenomMismatch,
    /// The string is not an address of the role named.
    InvalidAddress(Role, String),
    /// The string is not a public key of the role named.
    InvalidPublicKey(Role, String),
}

impl Error {
    /// The message that describes the failure.
    pub open spec fn spec_message(&self) -> Seq<char> {
        match self {
            Error::Parse => "invalid text"@,
            Error::Overflow => "overflow"@,
            Error::Underflow => "underflow"@,
            Error::DivideByZero => "division by zero"@,
            Error::DenomMismatch => "cannot combine coins with different denoms"@,
            Error::InvalidAddress(role, text) => "Invalid "@ + role.spec_description() + ": "@
                + text@,
            Error::InvalidPublicKey(role, text) => "Invalid "@ + role.spec_description() + ": "@
                + text@,
        }
    }

    /// The message that describes the failure.
    pub fn message(&self) -> (r: String)
        ensures
            r@ == self.spec_message(),
    {
        match self {
            Error::Parse => "invalid text".to_owned(),
            Error::Overflow => "overflow".to_owned(),
            Error::Underflow => "underflow".to_owned(),
            Error::DivideByZero => "division by zero".to_owned(),
            Error::DenomMismatch => "cannot combine coins with different denoms".to_owned(),
            Error::InvalidAddress(role, text) => {
                let mut m = "Invalid ".to_owned();
                m.append(role.description());
                m.append(": ");
                m.append(text.as_str());
                m
            },
            Error::InvalidPublicKey(role, text) => {
                let mut m = "Invalid ".to_owned();
                m.append(role.description());
                m.append(": ");
                m.append(text.as_str());
                m
            },
        }
    }
}

} // verus!
