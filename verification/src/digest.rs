//! 32-byte identifiers: the generic hash, the transaction signing hash,
//! and the block and fragment identifiers.

use vstd::prelude::*;
use vstd::slice::slice_to_vec;
use crate::encoding::{hex_of, spec_hex_decode, bytes_to_hex, hex_decode};
use crate::error::Error;
use crate::provider::{blake2b_256, blake2b_256_of};

verus! {

/// A generic 32-byte Blake2b-256 digest.
#[derive(Debug, PartialEq, Eq)]
#[verifier::ext_equal]
pub struct Hash {
    pub bytes: Vec<u8>,
}

/// The content identifier of a transaction: the digest of its encoding,
/// computed before signing and unchanged by attaching witnesses.
#[derive(Debug, PartialEq, Eq)]
#[verifier::ext_equal]
pub struct TransactionSignDataHash {
    pub bytes: Vec<u8>,
}

/// The identifier of a block.
#[derive(Debug, PartialEq, Eq)]
#[verifier::ext_equal]
pub struct BlockId {
    pub bytes: Vec<u8>,
}

/// The identifier of a fragment; an unspent output is addressed by one of
/// these plus an output index.
#[derive(Debug, PartialEq, Eq)]
#[verifier::ext_equal]
pub struct FragmentId {
    pub bytes: Vec<u8>,
}


impl View for Hash {
    type V = Seq<u8>;

    open spec fn view(&self) -> Seq<u8> {
        self.bytes@
    }
}

impl DeepView for Hash {
    type V = Seq<u8>;

    open spec fn deep_view(&self) -> Seq<u8> {
        self@
    }
}

impl View for TransactionSignDataHash {
    type V = Seq<u8>;

    open spec fn view(&self) -> Seq<u8> {
        self.bytes@
    }
}

impl DeepView for TransactionSignDataHash {
    type V = Seq<u8>;

    open spec fn deep_view(&self) -> Seq<u8> {
        self@
    }
}

impl View for BlockId {
    type V = Seq<u8>;

    open spec fn view(&self) -> Seq<u8> {
        self.bytes@
    }
}

impl DeepView for BlockId {
    type V = Seq<u8>;

    open spec fn deep_view(&self) -> Seq<u8> {
        self@
    }
}

impl View for FragmentId {
    type V = Seq<u8>;

    open spec fn view(&self) -> Seq<u8> {
        self.bytes@
    }
}

impl DeepView for FragmentId {
    type V = Seq<u8>;

    open spec fn deep_view(&self) -> Seq<u8> {
        self@
    }
}

impl Hash {
    /// A digest holds exactly 32 bytes.
    pub open spec fn wf(&self) -> bool {
        self.bytes@.len() == 32
    }

    /// The Blake2b-256 digest of the given bytes.
    pub fn from_bytes(bytes: &[u8]) -> (r: Hash)
        ensures
            r.bytes@ == blake2b_256_of(bytes@),
            r.wf(),
    {
        Hash { bytes: blake2b_256(bytes) }
    }

    /// The digest whose hexadecimal rendering is `hex_string`; fails on
    /// anything but 64 hexadecimal digits.
    pub fn from_hex(hex_string: &str) -> (r: Result<Hash, Error>)
        ensures
            match spec_hex_decode(hex_string@) {
                Some(b) => b.len() == 32 ==> (r matches Ok(h) && h.bytes@ == b),
                None => r == Err::<Hash, Error>(Error::ParseError),
            },
            (spec_hex_decode(hex_string@) matches Some(b) && b.len() != 32) ==> r == Err::<
                Hash,
                Error,
            >(Error::ParseError),
            r matches Ok(h) ==> h.wf(),
    {
        let bytes = hex_decode(hex_string)?;
        if bytes.len() == 32 {
            Ok(Hash { bytes })
        } else {
            Err(Error::ParseError)
        }
    }

    /// A copy of the 32 digest bytes.
    pub fn as_bytes(&self) -> (r: Vec<u8>)
        ensures
            r@ == self.bytes@,
    {
        slice_to_vec(self.bytes.as_slice())
    }
}

impl TransactionSignDataHash {
    /// A digest holds exactly 32 bytes.
    pub open spec fn wf(&self) -> bool {
        self.bytes@.len() == 32
    }

    /// The identifier holding exactly the given bytes; fails unless 32
    /// bytes are handed in.
    pub fn from_bytes(bytes: &[u8]) -> (r: Result<TransactionSignDataHash, Error>)
        ensures
            bytes@.len() == 32 ==> (r matches Ok(d) && d.bytes@ == bytes@),
            bytes@.len() != 32 ==> r == Err::<TransactionSignDataHash, Error>(Error::ParseError),
            r matches Ok(d) ==> d.wf(),
    {
        if bytes.len() == 32 {
            Ok(TransactionSignDataHash { bytes: slice_to_vec(bytes) })
        } else {
            Err(Error::ParseError)
        }
    }

    /// The identifier whose hexadecimal rendering is `input`; fails on
    /// anything but 64 hexadecimal digits.
    pub fn from_hex(input: &str) -> (r: Result<TransactionSignDataHash, Error>)
        ensures
            match spec_hex_decode(input@) {
                Some(b) => b.len() == 32 ==> (r matches Ok(d) && d.bytes@ == b),
                None => r == Err::<TransactionSignDataHash, Error>(Error::ParseError),
            },
            (spec_hex_decode(input@) matches Some(b) && b.len() != 32) ==> r == Err::<
                TransactionSignDataHash,
                Error,
            >(Error::ParseError),
            r matches Ok(d) ==> d.wf(),
    {
        let bytes = hex_decode(input)?;
        if bytes.len() == 32 {
            Ok(TransactionSignDataHash { bytes })
        } else {
            Err(Error::ParseError)
        }
    }

    /// A copy of the 32 digest bytes.
    pub fn as_bytes(&self) -> (r: Vec<u8>)
        ensures
            r@ == self.bytes@,
    {
        slice_to_vec(self.bytes.as_slice())
    }

    /// The hexadecimal rendering of the identifier.
    pub fn to_hex(&self) -> (r: String)
        ensures
            r@ == hex_of(self.bytes@),
    {
        bytes_to_hex(self.bytes.as_slice())
    }
}

impl BlockId {
    /// A digest holds exactly 32 bytes.
    pub open spec fn wf(&self) -> bool {
        self.bytes@.len() == 32
    }

    /// A copy of the 32 digest bytes.
    pub fn as_bytes(&self) -> (r: Vec<u8>)
        ensures
            r@ == self.bytes@,
    {
        slice_to_vec(self.bytes.as_slice())
    }
}

impl FragmentId {
    /// A digest holds exactly 32 bytes.
    pub open spec fn wf(&self) -> bool {
        self.bytes@.len() == 32
    }

    /// The fragment identifier of the given bytes: their Blake2b-256
    /// digest.
    pub fn from_bytes(bytes: &[u8]) -> (r: FragmentId)
        ensures
            r.bytes@ == blake2b_256_of(bytes@),
            r.wf(),
    {
        FragmentId { bytes: blake2b_256(bytes) }
    }

    /// A copy of the 32 digest bytes.
    pub fn as_bytes(&self) -> (r: Vec<u8>)
        ensures
            r@ == self.bytes@,
    {
        slice_to_vec(self.bytes.as_slice())
    }
}


impl Clone for Hash {
    /// An equal copy of the digest.
    fn clone(&self) -> (r: Self)
        ensures
            r@ == self@,
    {
        Hash { bytes: slice_to_vec(self.bytes.as_slice()) }
    }
}

impl Clone for TransactionSignDataHash {
    /// An equal copy of the identifier.
    fn clone(&self) -> (r: Self)
        ensures
            r@ == self@,
    {
        TransactionSignDataHash { bytes: slice_to_vec(self.bytes.as_slice()) }
    }
}

impl Clone for BlockId {
    /// An equal copy of the identifier.
    fn clone(&self) -> (r: Self)
        ensures
            r@ == self@,
    {
        BlockId { bytes: slice_to_vec(self.bytes.as_slice()) }
    }
}

impl Clone for FragmentId {
    /// An equal copy of the identifier.
    fn clone(&self) -> (r: Self)
        ensures
            r@ == self@,
    {
        FragmentId { bytes: slice_to_vec(self.bytes.as_slice()) }
    }
}

} // verus!
