//! Addresses: value destinations of three kinds (single key, key group
//! with delegation, account), with their byte layout and their bech32
//! string form, and the account reference an account input withdraws from.

use vstd::prelude::*;
use vstd::slice::{slice_subrange, slice_to_vec};
use crate::codec::append_bytes;
use crate::encoding::{bech32_decode, bech32_decode_of, bech32_encode, bech32_of, valid_hrp};
use crate::error::Error;
use crate::keys::PublicKey;

verus! {

/// Whether an address belongs to the production network or a test one, so
/// that one kind is not spent on the other.
#[derive(Clone, Copy, Debug, PartialEq, Eq, Structural)]
pub enum AddressDiscrimination {
    Production,
    Test,
}

/// The three kinds of address: a single key, a key with a delegation key,
/// or an account.
#[derive(Debug, PartialEq, Eq)]
pub enum AddressKind {
    Single(PublicKey),
    Group(PublicKey, PublicKey),
    Account(PublicKey),
}

/// An address: a discrimination and a kind.
#[derive(Debug, PartialEq, Eq)]
pub struct Address {
    pub discrimination: AddressDiscrimination,
    pub kind: AddressKind,
}

/// The mathematical content of an address kind: the key bytes.
#[verifier::ext_equal]
pub enum AddressKindV {
    Single(Seq<u8>),
    Group(Seq<u8>, Seq<u8>),
    Account(Seq<u8>),
}

/// The mathematical content of an address.
#[verifier::ext_equal]
pub struct AddressV {
    pub discrimination: AddressDiscrimination,
    pub kind: AddressKindV,
}

impl View for AddressKind {
    type V = AddressKindV;

    open spec fn view(&self) -> AddressKindV {
        match self {
            AddressKind::Single(k) => AddressKindV::Single(k@),
            AddressKind::Group(k, d) => AddressKindV::Group(k@, d@),
            AddressKind::Account(k) => AddressKindV::Account(k@),
        }
    }
}

impl View for Address {
    type V = AddressV;

    open spec fn view(&self) -> AddressV {
        AddressV { discrimination: self.discrimination, kind: self.kind@ }
    }
}

impl DeepView for Address {
    type V = AddressV;

    open spec fn deep_view(&self) -> AddressV {
        self@
    }
}

impl AddressV {
    /// Every key of the address holds 32 bytes.
    pub open spec fn wf(&self) -> bool {
        match self.kind {
            AddressKindV::Single(k) => k.len() == 32,
            AddressKindV::Group(k, d) => k.len() == 32 && d.len() == 32,
            AddressKindV::Account(k) => k.len() == 32,
        }
    }
}

/// The kind tag of an address header byte.
pub open spec fn spec_kind_tag(kind: AddressKindV) -> u8 {
    match kind {
        AddressKindV::Single(_) => 3,
        AddressKindV::Group(_, _) => 4,
        AddressKindV::Account(_) => 5,
    }
}

/// The header byte: the kind tag, with the high bit set on a test address.
pub open spec fn spec_header(a: AddressV) -> u8 {
    if a.discrimination is Test {
        (spec_kind_tag(a.kind) + 128) as u8
    } else {
        spec_kind_tag(a.kind)
    }
}

/// The byte layout of an address: the header byte, then the key bytes,
/// 32 for each key.
pub open spec fn spec_address_bytes(a: AddressV) -> Seq<u8> {
    seq![spec_header(a)] + match a.kind {
        AddressKindV::Single(k) => k,
        AddressKindV::Group(k, d) => k + d,
        AddressKindV::Account(k) => k,
    }
}

/// Whether a byte string is the layout of some well-formed address.
pub open spec fn spec_valid_address_bytes(b: Seq<u8>) -> bool {
    b.len() >= 1 && {
        let tag: int = if b[0] >= 128 {
            b[0] - 128
        } else {
            b[0] as int
        };
        (tag == 3 && b.len() == 33) || (tag == 4 && b.len() == 65) || (tag == 5 && b.len() == 33)
    }
}

/// The byte layout determines the address: two well-formed addresses with
/// one layout are the same address, so decoding an encoded address gives
/// back exactly what was encoded.
pub proof fn lemma_address_bytes_injective(a1: AddressV, a2: AddressV)
    requires
        a1.wf(),
        a2.wf(),
        spec_address_bytes(a1) == spec_address_bytes(a2),
    ensures
        a1 == a2,
{
    let b1 = spec_address_bytes(a1);
    let b2 = spec_address_bytes(a2);
    assert(b1[0] == spec_header(a1));
    assert(b2[0] == spec_header(a2));
    match (a1.kind, a2.kind) {
        (AddressKindV::Single(k1), AddressKindV::Single(k2)) => {
            assert(k1 =~= k2) by {
                assert(forall|i: int|
                    0 <= i < 32 ==> (#[trigger] k1[i]) == b1[i + 1] && k2[i] == b2[i + 1]);
            }
        },
        (AddressKindV::Group(k1, d1), AddressKindV::Group(k2, d2)) => {
            assert(k1 =~= k2) by {
                assert(forall|i: int|
                    0 <= i < 32 ==> (#[trigger] k1[i]) == b1[i + 1] && k2[i] == b2[i + 1]);
            }
            assert(d1 =~= d2) by {
                assert(forall|i: int|
                    0 <= i < 32 ==> (#[trigger] d1[i]) == b1[i + 33] && d2[i] == b2[i + 33]);
            }
        },
        (AddressKindV::Account(k1), AddressKindV::Account(k2)) => {
            assert(k1 =~= k2) by {
                assert(forall|i: int|
                    0 <= i < 32 ==> (#[trigger] k1[i]) == b1[i + 1] && k2[i] == b2[i + 1]);
            }
        },
        (_, _) => {},
    }
}

impl Address {
    /// Every key of the address holds 32 bytes.
    pub open spec fn wf(&self) -> bool {
        self@.wf()
    }

    /// A single-key address without delegation.
    pub fn single_from_public_key(key: PublicKey, discrimination: AddressDiscrimination) -> (r:
        Address)
        requires
            key@.len() == 32,
        ensures
            r@ == (AddressV { discrimination, kind: AddressKindV::Single(key@) }),
            r.wf(),
    {
        Address { discrimination, kind: AddressKind::Single(key) }
    }

    /// An address delegating the funds of the first key to the second.
    pub fn delegation_from_public_key(
        key: PublicKey,
        delegation: PublicKey,
        discrimination: AddressDiscrimination,
    ) -> (r: Address)
        requires
            key@.len() == 32,
            delegation@.len() == 32,
        ensures
            r@ == (AddressV { discrimination, kind: AddressKindV::Group(key@, delegation@) }),
            r.wf(),
    {
        Address { discrimination, kind: AddressKind::Group(key, delegation) }
    }

    /// An account address.
    pub fn account_from_public_key(key: PublicKey, discrimination: AddressDiscrimination) -> (r:
        Address)
        requires
            key@.len() == 32,
        ensures
            r@ == (AddressV { discrimination, kind: AddressKindV::Account(key@) }),
            r.wf(),
    {
        Address { discrimination, kind: AddressKind::Account(key) }
    }

    /// The byte layout of this address.
    pub fn to_bytes(&self) -> (r: Vec<u8>)
        requires
            self.wf(),
        ensures
            r@ == spec_address_bytes(self@),
    {
        let header: u8 = match (&self.kind, &self.discrimination) {
            (AddressKind::Single(_), AddressDiscrimination::Production) => 3,
            (AddressKind::Single(_), AddressDiscrimination::Test) => 131,
            (AddressKind::Group(_, _), AddressDiscrimination::Production) => 4,
            (AddressKind::Group(_, _), AddressDiscrimination::Test) => 132,
            (AddressKind::Account(_), AddressDiscrimination::Production) => 5,
            (AddressKind::Account(_), AddressDiscrimination::Test) => 133,
        };
        let mut out: Vec<u8> = Vec::new();
        out.push(header);
        match &self.kind {
            AddressKind::Single(k) => {
                append_bytes(&mut out, k.bytes.as_slice());
            },
            AddressKind::Group(k, d) => {
                append_bytes(&mut out, k.bytes.as_slice());
                append_bytes(&mut out, d.bytes.as_slice());
            },
            AddressKind::Account(k) => {
                append_bytes(&mut out, k.bytes.as_slice());
            },
        }
        proof {
            assert(out@ =~= spec_address_bytes(self@));
        }
        out
    }

    /// The address a byte string lays out; fails on any other byte string.
    pub fn from_bytes(b: &[u8]) -> (r: Result<Address, Error>)
        ensures
            r is Ok <==> spec_valid_address_bytes(b@),
            r matches Ok(a) ==> a.wf() && spec_address_bytes(a@) == b@,
            r is Err ==> r == Err::<Address, Error>(Error::ParseError),
    {
        if b.len() == 0 {
            return Err(Error::ParseError);
        }
        let header = b[0];
        let (tag, discrimination) = if header >= 128 {
            (header - 128, AddressDiscrimination::Test)
        } else {
            (header, AddressDiscrimination::Production)
        };
        let r: Result<Address, Error> = if tag == 3 && b.len() == 33 {
            let key = PublicKey { bytes: slice_to_vec(slice_subrange(b, 1, 33)) };
            Ok(Address { discrimination, kind: AddressKind::Single(key) })
        } else if tag == 4 && b.len() == 65 {
            let key = PublicKey { bytes: slice_to_vec(slice_subrange(b, 1, 33)) };
            let delegation = PublicKey { bytes: slice_to_vec(slice_subrange(b, 33, 65)) };
            Ok(Address { discrimination, kind: AddressKind::Group(key, delegation) })
        } else if tag == 5 && b.len() == 33 {
            let key = PublicKey { bytes: slice_to_vec(slice_subrange(b, 1, 33)) };
            Ok(Address { discrimination, kind: AddressKind::Account(key) })
        } else {
            Err(Error::ParseError)
        };
        proof {
            if r is Ok {
                assert(spec_address_bytes(r.unwrap()@) =~= b@);
            }
        }
        r
    }

    /// The address a bech32 string denotes, under any prefix; fails on a
    /// malformed string or payload.
    pub fn from_string(s: &str) -> (r: Result<Address, Error>)
        ensures
            r is Ok <==> (bech32_decode_of(s@) matches Some(p) && spec_valid_address_bytes(p.1)),
            r matches Ok(a) ==> a.wf() && (bech32_decode_of(s@) matches Some(p)
                && spec_address_bytes(a@) == p.1),
            r is Err ==> r == Err::<Address, Error>(Error::ParseError),
    {
        match bech32_decode(s) {
            Some((_, data)) => Address::from_bytes(data.as_slice()),
            None => Err(Error::ParseError),
        }
    }

    /// The bech32 rendering of this address under the given prefix, which
    /// must be a well-formed lowercase bech32 prefix.
    pub fn to_string(&self, prefix: &str) -> (r: String)
        requires
            self.wf(),
            valid_hrp(prefix@),
        ensures
            r@ == bech32_of(prefix@, spec_address_bytes(self@)),
    {
        let bytes = self.to_bytes();
        match bech32_encode(prefix, bytes.as_slice()) {
            Some(s) => s,
            None => {
                proof {
                    assert(false);
                }
                String::new()
            },
        }
    }
}

impl Clone for AddressKind {
    /// A copy holding the same keys.
    fn clone(&self) -> (r: Self)
        ensures
            r@ == self@,
    {
        match self {
            AddressKind::Single(k) => AddressKind::Single(k.clone()),
            AddressKind::Group(k, d) => AddressKind::Group(k.clone(), d.clone()),
            AddressKind::Account(k) => AddressKind::Account(k.clone()),
        }
    }
}

impl Clone for Address {
    /// A copy holding the same discrimination and keys.
    fn clone(&self) -> (r: Self)
        ensures
            r@ == self@,
    {
        Address { discrimination: self.discrimination, kind: self.kind.clone() }
    }
}

/// A reference to an account, as an input names one: the 32 bytes of the
/// account's public key.
#[derive(Debug, PartialEq, Eq)]
pub struct Account {
    pub id: Vec<u8>,
}

impl View for Account {
    type V = Seq<u8>;

    open spec fn view(&self) -> Seq<u8> {
        self.id@
    }
}

impl DeepView for Account {
    type V = Seq<u8>;

    open spec fn deep_view(&self) -> Seq<u8> {
        self@
    }
}

impl Account {
    /// An account reference holds exactly 32 bytes.
    pub open spec fn wf(&self) -> bool {
        self.id@.len() == 32
    }

    /// The account an account-kind address names; any other kind fails
    /// with `WrongAddressKind`.
    pub fn from_address(address: &Address) -> (r: Result<Account, Error>)
        ensures
            address@.kind matches AddressKindV::Account(k) ==> (r matches Ok(a) && a@ == k),
            !(address@.kind is Account) ==> r == Err::<Account, Error>(Error::WrongAddressKind),
    {
        match &address.kind {
            AddressKind::Account(key) => Ok(Account { id: slice_to_vec(key.bytes.as_slice()) }),
            _ => Err(Error::WrongAddressKind),
        }
    }

    /// The production-network account address naming this account.
    pub fn to_address(&self) -> (r: Address)
        requires
            self.wf(),
        ensures
            r@ == (AddressV {
                discrimination: AddressDiscrimination::Production,
                kind: AddressKindV::Account(self@),
            }),
            r.wf(),
    {
        Address {
            discrimination: AddressDiscrimination::Production,
            kind: AddressKind::Account(PublicKey { bytes: slice_to_vec(self.id.as_slice()) }),
        }
    }

    /// The account of a public key.
    pub fn from_public_key(key: PublicKey) -> (r: Account)
        requires
            key@.len() == 32,
        ensures
            r@ == key@,
            r.wf(),
    {
        Account { id: key.bytes }
    }
}

impl Clone for Account {
    /// A copy naming the same account.
    fn clone(&self) -> (r: Self)
        ensures
            r@ == self@,
    {
        Account { id: slice_to_vec(self.id.as_slice()) }
    }
}

} // verus!
