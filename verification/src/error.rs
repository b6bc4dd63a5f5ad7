//! The error kinds that the pipeline reports to its caller.

use vstd::prelude::*;

verus! {

/// Every failure the crate reports. Each operation either fully succeeds
/// or returns one of these and leaves its receiver unchanged.
#[derive(Clone, Copy, Debug, PartialEq, Eq, Structural)]
pub enum Error {
    /// An addition on `Value` would exceed the 64-bit range.
    ValueOverflow,
    /// A subtraction on `Value` would go below zero.
    ValueUnderflow,
    /// A second certificate was set on a builder that already holds one.
    DuplicateCertificate,
    /// The inputs cannot cover the outputs plus the fee.
    InsufficientFunds,
    /// `set_witness` was called with an index at or past the input count.
    WitnessIndexOutOfRange,
    /// `build` was called while some input still lacks a witness.
    MissingWitness,
    /// An accessor for the other input variant was called.
    WrongInputKind,
    /// An account was requested from an address that is not of account kind.
    WrongAddressKind,
    /// Malformed textual input (decimal, hexadecimal or bech32).
    ParseError,
    /// The operating system's entropy source failed during key generation.
    EntropyUnavailable,
}

impl Error {
    /// A short description, in place of a `Display` impl.
    pub fn describe(&self) -> (r: &'static str)
        ensures
            r@.len() > 0,
    {
        proof {
            reveal_strlit("value overflow");
            reveal_strlit("value underflow");
            reveal_strlit("there is already one certificate");
            reveal_strlit("insufficient funds");
            reveal_strlit("witness index out of range");
            reveal_strlit("missing witness");
            reveal_strlit("wrong input kind");
            reveal_strlit("address is not account");
            reveal_strlit("parse error");
            reveal_strlit("entropy source unavailable");
        }
        match self {
            Error::ValueOverflow => "value overflow",
            Error::ValueUnderflow => "value underflow",
            Error::DuplicateCertificate => "there is already one certificate",
            Error::InsufficientFunds => "insufficient funds",
            Error::WitnessIndexOutOfRange => "witness index out of range",
            Error::MissingWitness => "missing witness",
            Error::WrongInputKind => "wrong input kind",
            Error::WrongAddressKind => "address is not account",
            Error::ParseError => "parse error",
            Error::EntropyUnavailable => "entropy source unavailable",
        }
    }
}

} // verus!
