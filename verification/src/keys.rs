//! Signing and verification keys: Ed25519 in its normal and extended
//! forms, and the KES and VRF public keys a stake pool registers with.

use vstd::prelude::*;
use vstd::slice::slice_to_vec;
use crate::encoding::{
    bech32_decode, bech32_decode_of, bech32_encode, bech32_of, str_eq, valid_hrp,
};
use crate::error::Error;
use crate::provider::{
    ed25519_extended_public, ed25519_extended_public_of, ed25519_public, ed25519_public_of,
    ed25519_sign, ed25519_sign_extended, ed25519_sign_extended_of, ed25519_sign_of,
    os_random_bytes,
};

verus! {

/// An Ed25519 public key: 32 bytes.
#[derive(Debug, PartialEq, Eq)]
#[verifier::ext_equal]
pub struct PublicKey {
    pub bytes: Vec<u8>,
}

impl View for PublicKey {
    type V = Seq<u8>;

    open spec fn view(&self) -> Seq<u8> {
        self.bytes@
    }
}

impl DeepView for PublicKey {
    type V = Seq<u8>;

    open spec fn deep_view(&self) -> Seq<u8> {
        self@
    }
}

impl PublicKey {
    /// A public key holds exactly 32 bytes.
    pub open spec fn wf(&self) -> bool {
        self.bytes@.len() == 32
    }

    /// The public key a bech32 string under the `ed25519_pk` prefix
    /// denotes; anything else fails.
    pub fn from_bech32(bech32_str: &str) -> (r: Result<PublicKey, Error>)
        ensures
            r is Ok <==> (bech32_decode_of(bech32_str@) matches Some(p) && p.0 == "ed25519_pk"@
                && p.1.len() == 32),
            r matches Ok(k) ==> k.wf() && bech32_decode_of(bech32_str@) == Some(
                ("ed25519_pk"@, k.bytes@),
            ),
            r is Err ==> r == Err::<PublicKey, Error>(Error::ParseError),
    {
        match bech32_decode(bech32_str) {
            Some((hrp, data)) => {
                if str_eq(hrp.as_str(), "ed25519_pk") && data.len() == 32 {
                    Ok(PublicKey { bytes: data })
                } else {
                    Err(Error::ParseError)
                }
            },
            None => Err(Error::ParseError),
        }
    }

    /// A copy of the 32 key bytes.
    pub fn as_bytes(&self) -> (r: Vec<u8>)
        ensures
            r@ == self.bytes@,
    {
        slice_to_vec(self.bytes.as_slice())
    }
}

/// An ordered collection of public keys.
pub struct PublicKeys {
    pub keys: Vec<PublicKey>,
}

impl View for PublicKeys {
    type V = Seq<Seq<u8>>;

    open spec fn view(&self) -> Seq<Seq<u8>> {
        self.keys.deep_view()
    }
}

impl PublicKeys {
    /// Every key of the collection holds 32 bytes.
    pub open spec fn wf(&self) -> bool {
        forall|i: int| 0 <= i < self.keys@.len() ==> (#[trigger] self.keys@[i]).wf()
    }

    /// The empty collection.
    pub fn new() -> (r: PublicKeys)
        ensures
            r.keys@.len() == 0,
            r.wf(),
    {
        PublicKeys { keys: Vec::new() }
    }

    /// How many keys the collection holds.
    pub fn size(&self) -> (r: usize)
        ensures
            r == self.keys@.len(),
    {
        self.keys.len()
    }

    /// A copy of the key at `index`.
    pub fn get(&self, index: usize) -> (r: PublicKey)
        requires
            index < self.keys@.len(),
        ensures
            r.bytes@ == self.keys@[index as int].bytes@,
    {
        PublicKey { bytes: slice_to_vec(self.keys[index].bytes.as_slice()) }
    }

    /// Appends a key at the end.
    pub fn add(&mut self, key: PublicKey)
        ensures
            final(self).keys@ == old(self).keys@.push(key),
    {
        self.keys.push(key);
    }
}

enum PrivateKeyKind {
    /// A normal Ed25519 key: the 32-byte seed, with the public key it
    /// derives to.
    Normal { seed: Vec<u8>, public: Vec<u8> },
    /// An extended Ed25519 key: the 64-byte extended secret, with the
    /// public key it derives to.
    Extended { key: Vec<u8>, public: Vec<u8> },
}

/// An Ed25519 signing key, either normal or extended.
pub struct PrivateKey {
    kind: PrivateKeyKind,
}

impl View for PrivateKey {
    type V = Seq<u8>;

    /// The secret bytes: the 32-byte seed of a normal key, the 64-byte
    /// extended secret of an extended one.
    closed spec fn view(&self) -> Seq<u8> {
        match self.kind {
            PrivateKeyKind::Normal { seed, .. } => seed@,
            PrivateKeyKind::Extended { key, .. } => key@,
        }
    }
}

impl PrivateKey {
    #[verifier::type_invariant]
    spec fn type_inv(&self) -> bool {
        match self.kind {
            PrivateKeyKind::Normal { seed, public } => seed@.len() == 32 && public@.len() == 32
                && public@ == ed25519_public_of(seed@),
            PrivateKeyKind::Extended { key, public } => key@.len() == 64 && public@.len() == 32
                && public@ == ed25519_extended_public_of(key@),
        }
    }

    /// Whether this is an extended key.
    pub closed spec fn is_extended(&self) -> bool {
        self.kind is Extended
    }

    /// The public key this secret derives to.
    pub closed spec fn spec_public(&self) -> Seq<u8> {
        if self.is_extended() {
            ed25519_extended_public_of(self@)
        } else {
            ed25519_public_of(self@)
        }
    }

    /// The signature this key produces over a message.
    pub closed spec fn spec_sign(&self, message: Seq<u8>) -> Seq<u8> {
        if self.is_extended() {
            ed25519_sign_extended_of(self@, message)
        } else {
            ed25519_sign_of(self@ + self.spec_public(), message)
        }
    }

    /// What `spec_public` stands for: the provider's key derivation on the
    /// secret bytes, in the form the key's kind calls for.
    pub proof fn lemma_public_definition(&self)
        ensures
            self.is_extended() ==> self.spec_public() == ed25519_extended_public_of(self@),
            !self.is_extended() ==> self.spec_public() == ed25519_public_of(self@),
    {
    }

    /// What `spec_sign` stands for: the provider's deterministic Ed25519
    /// signature, in the form the key's kind calls for.
    pub proof fn lemma_sign_definition(&self, message: Seq<u8>)
        ensures
            self.is_extended() ==> self.spec_sign(message) == ed25519_sign_extended_of(
                self@,
                message,
            ),
            !self.is_extended() ==> self.spec_sign(message) == ed25519_sign_of(
                self@ + self.spec_public(),
                message,
            ),
    {
    }

    /// The key a bech32 string denotes: the `ed25519e_sk` prefix with 64
    /// bytes gives an extended key, the `ed25519_sk` prefix with 32 bytes
    /// a normal one; anything else fails.
    pub fn from_bech32(bech32_str: &str) -> (r: Result<PrivateKey, Error>)
        ensures
            r is Ok <==> (bech32_decode_of(bech32_str@) matches Some(p) && ((p.0 == "ed25519e_sk"@
                && p.1.len() == 64) || (p.0 == "ed25519_sk"@ && p.1.len() == 32))),
            r matches Ok(k) ==> (bech32_decode_of(bech32_str@) matches Some(p) && k@ == p.1 && (
            k.is_extended() <==> p.0 == "ed25519e_sk"@)),
            r is Err ==> r == Err::<PrivateKey, Error>(Error::ParseError),
    {
        match bech32_decode(bech32_str) {
            Some((hrp, data)) => {
                if str_eq(hrp.as_str(), "ed25519e_sk") && data.len() == 64 {
                    let public = ed25519_extended_public(data.as_slice());
                    Ok(PrivateKey { kind: PrivateKeyKind::Extended { key: data, public } })
                } else if str_eq(hrp.as_str(), "ed25519_sk") && data.len() == 32 {
                    let public = ed25519_public(data.as_slice());
                    proof {
                        reveal_strlit("ed25519_sk");
                        reveal_strlit("ed25519e_sk");
                        assert("ed25519_sk"@.len() == 10);
                        assert("ed25519e_sk"@.len() == 11);
                    }
                    Ok(PrivateKey { kind: PrivateKeyKind::Normal { seed: data, public } })
                } else {
                    Err(Error::ParseError)
                }
            },
            None => Err(Error::ParseError),
        }
    }

    /// The public key this secret derives to.
    pub fn to_public(&self) -> (r: PublicKey)
        ensures
            r.wf(),
            r.bytes@ == self.spec_public(),
    {
        proof {
            use_type_invariant(&*self);
        }
        match &self.kind {
            PrivateKeyKind::Normal { public, .. } => PublicKey {
                bytes: slice_to_vec(public.as_slice()),
            },
            PrivateKeyKind::Extended { public, .. } => PublicKey {
                bytes: slice_to_vec(public.as_slice()),
            },
        }
    }

    /// A fresh normal key from the operating system's entropy source;
    /// fails only when that source does.
    pub fn generate_ed25519() -> (r: Result<PrivateKey, Error>)
        ensures
            r matches Ok(k) ==> !k.is_extended(),
            r is Err ==> r == Err::<PrivateKey, Error>(Error::EntropyUnavailable),
    {
        match os_random_bytes(32) {
            Some(seed) => {
                let public = ed25519_public(seed.as_slice());
                Ok(PrivateKey { kind: PrivateKeyKind::Normal { seed, public } })
            },
            None => Err(Error::EntropyUnavailable),
        }
    }

    /// A fresh extended key from the operating system's entropy source,
    /// clamped as Ed25519 scalars are; fails only when that source does.
    pub fn generate_ed25519extended() -> (r: Result<PrivateKey, Error>)
        ensures
            r matches Ok(k) ==> k.is_extended(),
            r is Err ==> r == Err::<PrivateKey, Error>(Error::EntropyUnavailable),
    {
        match os_random_bytes(64) {
            Some(mut key) => {
                let b0 = key[0];
                key.set(0, b0 & 0b1111_1000);
                let b31 = key[31];
                key.set(31, (b31 & 0b0011_1111) | 0b0100_0000);
                let public = ed25519_extended_public(key.as_slice());
                Ok(PrivateKey { kind: PrivateKeyKind::Extended { key, public } })
            },
            None => Err(Error::EntropyUnavailable),
        }
    }

    /// The bech32 rendering of the secret bytes, under the prefix the
    /// key's kind calls for.
    pub fn to_bech32(&self) -> (r: String)
        ensures
            self.is_extended() ==> r@ == bech32_of("ed25519e_sk"@, self@),
            !self.is_extended() ==> r@ == bech32_of("ed25519_sk"@, self@),
    {
        proof {
            use_type_invariant(&*self);
            lemma_hrp_ed25519_sk();
            lemma_hrp_ed25519e_sk();
        }
        match &self.kind {
            PrivateKeyKind::Normal { seed, .. } => {
                match bech32_encode("ed25519_sk", seed.as_slice()) {
                    Some(s) => s,
                    None => {
                        proof {
                            assert(false);
                        }
                        String::new()
                    },
                }
            },
            PrivateKeyKind::Extended { key, .. } => {
                match bech32_encode("ed25519e_sk", key.as_slice()) {
                    Some(s) => s,
                    None => {
                        proof {
                            assert(false);
                        }
                        String::new()
                    },
                }
            },
        }
    }

    /// The provider's signature by this key over a message.
    pub(crate) fn sign_message(&self, message: &[u8]) -> (r: Vec<u8>)
        ensures
            r@ == self.spec_sign(message@),
            r@.len() == 64,
    {
        proof {
            use_type_invariant(&*self);
        }
        match &self.kind {
            PrivateKeyKind::Normal { seed, public } => ed25519_sign(
                seed.as_slice(),
                public.as_slice(),
                message,
            ),
            PrivateKeyKind::Extended { key, .. } => ed25519_sign_extended(key.as_slice(), message),
        }
    }
}

/// The `ed25519_sk` prefix is a well-formed bech32 prefix.
proof fn lemma_hrp_ed25519_sk()
    ensures
        valid_hrp("ed25519_sk"@),
{
    reveal_strlit("ed25519_sk");
}

/// The `ed25519e_sk` prefix is a well-formed bech32 prefix.
proof fn lemma_hrp_ed25519e_sk()
    ensures
        valid_hrp("ed25519e_sk"@),
{
    reveal_strlit("ed25519e_sk");
}

/// A key-evolving-signature public key, as a stake pool registers it.
#[derive(Debug, PartialEq, Eq)]
#[verifier::ext_equal]
pub struct KesPublicKey {
    pub bytes: Vec<u8>,
}

impl View for KesPublicKey {
    type V = Seq<u8>;

    open spec fn view(&self) -> Seq<u8> {
        self.bytes@
    }
}

impl DeepView for KesPublicKey {
    type V = Seq<u8>;

    open spec fn deep_view(&self) -> Seq<u8> {
        self@
    }
}

impl KesPublicKey {
    /// A KES public key holds exactly 32 bytes.
    pub open spec fn wf(&self) -> bool {
        self.bytes@.len() == 32
    }

    /// The KES public key a bech32 string under the `kes25519-12-pk`
    /// prefix denotes; anything else fails.
    pub fn from_bech32(bech32_str: &str) -> (r: Result<KesPublicKey, Error>)
        ensures
            r is Ok <==> (bech32_decode_of(bech32_str@) matches Some(p) && p.0 == "kes25519-12-pk"@
                && p.1.len() == 32),
            r matches Ok(k) ==> k.wf() && bech32_decode_of(bech32_str@) == Some(
                ("kes25519-12-pk"@, k.bytes@),
            ),
            r is Err ==> r == Err::<KesPublicKey, Error>(Error::ParseError),
    {
        match bech32_decode(bech32_str) {
            Some((hrp, data)) => {
                if str_eq(hrp.as_str(), "kes25519-12-pk") && data.len() == 32 {
                    Ok(KesPublicKey { bytes: data })
                } else {
                    Err(Error::ParseError)
                }
            },
            None => Err(Error::ParseError),
        }
    }
}

/// A verifiable-random-function public key, as a stake pool registers it.
#[derive(Debug, PartialEq, Eq)]
#[verifier::ext_equal]
pub struct VrfPublicKey {
    pub bytes: Vec<u8>,
}

impl View for VrfPublicKey {
    type V = Seq<u8>;

    open spec fn view(&self) -> Seq<u8> {
        self.bytes@
    }
}

impl DeepView for VrfPublicKey {
    type V = Seq<u8>;

    open spec fn deep_view(&self) -> Seq<u8> {
        self@
    }
}

impl VrfPublicKey {
    /// A VRF public key holds exactly 32 bytes.
    pub open spec fn wf(&self) -> bool {
        self.bytes@.len() == 32
    }

    /// The VRF public key a bech32 string under the `vrf_pk` prefix
    /// denotes; anything else fails.
    pub fn from_bech32(bech32_str: &str) -> (r: Result<VrfPublicKey, Error>)
        ensures
            r is Ok <==> (bech32_decode_of(bech32_str@) matches Some(p) && p.0 == "vrf_pk"@
                && p.1.len() == 32),
            r matches Ok(k) ==> k.wf() && bech32_decode_of(bech32_str@) == Some(
                ("vrf_pk"@, k.bytes@),
            ),
            r is Err ==> r == Err::<VrfPublicKey, Error>(Error::ParseError),
    {
        match bech32_decode(bech32_str) {
            Some((hrp, data)) => {
                if str_eq(hrp.as_str(), "vrf_pk") && data.len() == 32 {
                    Ok(VrfPublicKey { bytes: data })
                } else {
                    Err(Error::ParseError)
                }
            },
            None => Err(Error::ParseError),
        }
    }
}


impl Clone for PublicKey {
    /// An equal copy of the key.
    fn clone(&self) -> (r: Self)
        ensures
            r@ == self@,
    {
        PublicKey { bytes: slice_to_vec(self.bytes.as_slice()) }
    }
}

impl Clone for KesPublicKey {
    /// An equal copy of the key.
    fn clone(&self) -> (r: Self)
        ensures
            r@ == self@,
    {
        KesPublicKey { bytes: slice_to_vec(self.bytes.as_slice()) }
    }
}

impl Clone for VrfPublicKey {
    /// An equal copy of the key.
    fn clone(&self) -> (r: Self)
        ensures
            r@ == self@,
    {
        VrfPublicKey { bytes: slice_to_vec(self.bytes.as_slice()) }
    }
}

} // verus!
