//! Certificates: the optional extra payload of a transaction — a stake
//! delegation, a stake pool registration or a pool retirement — with the
//! signatures its owners append, and its canonical byte layout.

use vstd::prelude::*;
use vstd::slice::slice_to_vec;
use crate::address::Account;
use crate::codec::{append_bytes, be128, be64, concat_all, lemma_concat_all_push, push_be128, push_be64};
use crate::encoding::{
    bech32_encode, bech32_of, bech32_fits, bytes_to_hex, hex_decode, hex_of, spec_hex_decode,
    valid_hrp,
};
use crate::error::Error;
use crate::keys::{KesPublicKey, PrivateKey, PublicKey, PublicKeys, VrfPublicKey};
use crate::provider::{blake2b_256, blake2b_256_of};
use crate::value::U128;

verus! {

/// The identifier of a stake pool: the 32-byte digest of its
/// registration data.
#[derive(Debug, PartialEq, Eq)]
pub struct StakePoolId {
    pub bytes: Vec<u8>,
}

impl View for StakePoolId {
    type V = Seq<u8>;

    open spec fn view(&self) -> Seq<u8> {
        self.bytes@
    }
}

impl DeepView for StakePoolId {
    type V = Seq<u8>;

    open spec fn deep_view(&self) -> Seq<u8> {
        self@
    }
}

impl StakePoolId {
    /// A pool identifier holds exactly 32 bytes.
    pub open spec fn wf(&self) -> bool {
        self@.len() == 32
    }

    /// The identifier whose hexadecimal rendering is `hex_string`; fails
    /// on anything but 64 hexadecimal digits.
    pub fn from_hex(hex_string: &str) -> (r: Result<StakePoolId, Error>)
        ensures
            match spec_hex_decode(hex_string@) {
                Some(b) => b.len() == 32 ==> (r matches Ok(p) && p@ == b),
                None => r == Err::<StakePoolId, Error>(Error::ParseError),
            },
            (spec_hex_decode(hex_string@) matches Some(b) && b.len() != 32) ==> r == Err::<
                StakePoolId,
                Error,
            >(Error::ParseError),
            r matches Ok(p) ==> p.wf(),
    {
        let bytes = hex_decode(hex_string)?;
        if bytes.len() == 32 {
            Ok(StakePoolId { bytes })
        } else {
            Err(Error::ParseError)
        }
    }

    /// The hexadecimal rendering of the identifier.
    pub fn to_string(&self) -> (r: String)
        ensures
            r@ == hex_of(self@),
    {
        bytes_to_hex(self.bytes.as_slice())
    }
}

impl Clone for StakePoolId {
    /// A copy naming the same pool.
    fn clone(&self) -> (r: Self)
        ensures
            r@ == self@,
    {
        StakePoolId { bytes: slice_to_vec(self.bytes.as_slice()) }
    }
}

/// The registration data of a stake pool: a serial number, the owner
/// accounts, and the pool's KES and VRF public keys.
#[derive(Debug, PartialEq, Eq)]
pub struct StakePoolInfo {
    pub serial: U128,
    pub owners: Vec<Account>,
    pub kes: KesPublicKey,
    pub vrf: VrfPublicKey,
}

/// The mathematical content of a stake pool registration.
#[verifier::ext_equal]
pub struct StakePoolInfoV {
    pub serial: u128,
    pub owners: Seq<Seq<u8>>,
    pub kes: Seq<u8>,
    pub vrf: Seq<u8>,
}

impl View for StakePoolInfo {
    type V = StakePoolInfoV;

    open spec fn view(&self) -> StakePoolInfoV {
        StakePoolInfoV {
            serial: self.serial.0,
            owners: self.owners.deep_view(),
            kes: self.kes@,
            vrf: self.vrf@,
        }
    }
}

/// The byte layout of a pool registration: the serial, the owner count,
/// the owners, then the KES and VRF keys.
pub open spec fn spec_encode_pool_info(p: StakePoolInfoV) -> Seq<u8> {
    be128(p.serial) + be64(p.owners.len() as u64) + concat_all(p.owners) + p.kes + p.vrf
}

impl StakePoolInfo {
    /// Owners and keys hold 32 bytes each.
    pub open spec fn wf(&self) -> bool {
        &&& forall|i: int|
            0 <= i < self@.owners.len() ==> (#[trigger] self@.owners[i]).len() == 32
        &&& self@.kes.len() == 32
        &&& self@.vrf.len() == 32
    }

    /// A registration from a serial number, owner public keys and the
    /// pool's KES and VRF keys.
    pub fn new(
        serial: U128,
        owners: PublicKeys,
        kes_public_key: KesPublicKey,
        vrf_public_key: VrfPublicKey,
    ) -> (r: StakePoolInfo)
        ensures
            r@.serial == serial.0,
            r@.owners == owners@,
            r@.kes == kes_public_key@,
            r@.vrf == vrf_public_key@,
    {
        let mut accounts: Vec<Account> = Vec::new();
        let n = owners.size();
        let mut i: usize = 0;
        while i < n
            invariant
                i <= n,
                n == owners.keys@.len(),
                accounts@.len() == i,
                forall|j: int| 0 <= j < i ==> (#[trigger] accounts@[j])@ == owners.keys@[j]@,
            decreases n - i,
        {
            accounts.push(Account { id: slice_to_vec(owners.keys[i].bytes.as_slice()) });
            i = i + 1;
        }
        proof {
            let dv = accounts.deep_view();
            assert forall|j: int| 0 <= j < n implies dv[j] == owners@[j] by {
                assert(dv[j] == accounts@[j].deep_view());
                assert(owners@[j] == owners.keys@[j].deep_view());
            }
            assert(accounts.deep_view() =~~= owners@);
        }
        StakePoolInfo { serial, owners: accounts, kes: kes_public_key, vrf: vrf_public_key }
    }

    /// The byte layout of the registration.
    pub fn to_bytes(&self) -> (r: Vec<u8>)
        ensures
            r@ == spec_encode_pool_info(self@),
    {
        let mut out: Vec<u8> = Vec::new();
        push_be128(&mut out, self.serial.0);
        push_be64(&mut out, self.owners.len() as u64);
        let mut i: usize = 0;
        while i < self.owners.len()
            invariant
                i <= self@.owners.len(),
                out@ == be128(self@.serial) + be64(self@.owners.len() as u64) + concat_all(
                    self@.owners.subrange(0, i as int),
                ),
            decreases self@.owners.len() - i,
        {
            append_bytes(&mut out, self.owners[i].id.as_slice());
            proof {
                assert(self@.owners.subrange(0, i as int + 1) =~= self@.owners.subrange(
                    0,
                    i as int,
                ).push(self@.owners[i as int]));
                lemma_concat_all_push(self@.owners.subrange(0, i as int), self@.owners[i as int]);
            }
            i = i + 1;
        }
        append_bytes(&mut out, self.kes.bytes.as_slice());
        append_bytes(&mut out, self.vrf.bytes.as_slice());
        proof {
            assert(self@.owners.subrange(0, self@.owners.len() as int) =~= self@.owners);
            assert(concat_all(self@.owners.subrange(0, 0)) =~= Seq::<u8>::empty());
            assert(out@ =~= spec_encode_pool_info(self@));
        }
        out
    }

    /// The pool's identifier: the digest of its registration layout.
    pub fn id(&self) -> (r: StakePoolId)
        ensures
            r@ == blake2b_256_of(spec_encode_pool_info(self@)),
            r.wf(),
    {
        let bytes = self.to_bytes();
        StakePoolId { bytes: blake2b_256(bytes.as_slice()) }
    }
}

impl Clone for StakePoolInfo {
    /// A copy holding the same registration data.
    fn clone(&self) -> (r: Self)
        ensures
            r@ == self@,
    {
        let mut accounts: Vec<Account> = Vec::new();
        let mut i: usize = 0;
        while i < self.owners.len()
            invariant
                i <= self.owners@.len(),
                accounts@.len() == i,
                forall|j: int| 0 <= j < i ==> (#[trigger] accounts@[j])@ == self.owners@[j]@,
            decreases self.owners@.len() - i,
        {
            accounts.push(self.owners[i].clone());
            i = i + 1;
        }
        proof {
            let dv = accounts.deep_view();
            let sv = self.owners.deep_view();
            assert forall|j: int| 0 <= j < self.owners@.len() implies dv[j] == sv[j] by {
                assert(dv[j] == accounts@[j].deep_view());
                assert(sv[j] == self.owners@[j].deep_view());
            }
            assert(accounts.deep_view() =~~= self.owners.deep_view());
        }
        StakePoolInfo {
            serial: self.serial,
            owners: accounts,
            kes: self.kes.clone(),
            vrf: self.vrf.clone(),
        }
    }
}

/// The payload of a certificate.
#[derive(Debug, PartialEq, Eq)]
pub enum CertificateContent {
    /// Delegates the stake of an account to a pool.
    StakeDelegation(Account, StakePoolId),
    /// Registers a stake pool.
    StakePoolRegistration(StakePoolInfo),
    /// Retires a stake pool.
    StakePoolRetirement(StakePoolId),
}

/// The mathematical content of a certificate payload.
#[verifier::ext_equal]
pub enum CertificateContentV {
    StakeDelegation(Seq<u8>, Seq<u8>),
    StakePoolRegistration(StakePoolInfoV),
    StakePoolRetirement(Seq<u8>),
}

impl View for CertificateContent {
    type V = CertificateContentV;

    open spec fn view(&self) -> CertificateContentV {
        match self {
            CertificateContent::StakeDelegation(a, p) => CertificateContentV::StakeDelegation(
                a@,
                p@,
            ),
            CertificateContent::StakePoolRegistration(i) => {
                CertificateContentV::StakePoolRegistration(i@)
            },
            CertificateContent::StakePoolRetirement(p) => CertificateContentV::StakePoolRetirement(
                p@,
            ),
        }
    }
}

/// The byte layout of a certificate payload: a kind tag, then the
/// payload's own layout.
pub open spec fn spec_encode_content(c: CertificateContentV) -> Seq<u8> {
    match c {
        CertificateContentV::StakeDelegation(a, p) => seq![1u8] + a + p,
        CertificateContentV::StakePoolRegistration(i) => seq![2u8] + spec_encode_pool_info(i),
        CertificateContentV::StakePoolRetirement(p) => seq![3u8] + p,
    }
}

/// The byte layout of a signature list: the count, then each signature
/// with its length ahead of it.
pub open spec fn spec_encode_signatures(s: Seq<Seq<u8>>) -> Seq<u8>
    decreases s.len(),
{
    if s.len() == 0 {
        Seq::empty()
    } else {
        be64(s[0].len() as u64) + s[0] + spec_encode_signatures(s.drop_first())
    }
}

/// The signature list layout takes one more signature at the end.
pub proof fn lemma_encode_signatures_push(s: Seq<Seq<u8>>, x: Seq<u8>)
    ensures
        spec_encode_signatures(s.push(x)) == spec_encode_signatures(s) + (be64(x.len() as u64)
            + x),
    decreases s.len(),
{
    if s.len() == 0 {
        assert(s.push(x).drop_first() =~= Seq::<Seq<u8>>::empty());
        assert(s.push(x)[0] == x);
        assert(spec_encode_signatures(Seq::<Seq<u8>>::empty()) == Seq::<u8>::empty());
        assert(spec_encode_signatures(s.push(x)) =~= be64(x.len() as u64) + x);
        assert(spec_encode_signatures(s) + (be64(x.len() as u64) + x) =~= be64(x.len() as u64)
            + x);
    } else {
        lemma_encode_signatures_push(s.drop_first(), x);
        assert(s.push(x).drop_first() =~= s.drop_first().push(x));
        assert(s.push(x)[0] == s[0]);
        assert((be64(s[0].len() as u64) + s[0]) + (spec_encode_signatures(s.drop_first()) + (be64(
            x.len() as u64,
        ) + x)) =~= ((be64(s[0].len() as u64) + s[0]) + spec_encode_signatures(s.drop_first())) + (
        be64(x.len() as u64) + x));
    }
}

/// The byte layout of a whole certificate: the payload, then the
/// signature count and the signatures.
pub open spec fn spec_encode_certificate(c: CertificateV) -> Seq<u8> {
    spec_encode_content(c.content) + be64(c.signatures.len() as u64) + spec_encode_signatures(
        c.signatures,
    )
}

/// A certificate: a payload plus the ordered signatures appended as its
/// owners sign. A transaction carries at most one certificate.
#[derive(Debug, PartialEq, Eq)]
pub struct Certificate {
    pub content: CertificateContent,
    pub signatures: Vec<Vec<u8>>,
}

/// The mathematical content of a certificate.
#[verifier::ext_equal]
pub struct CertificateV {
    pub content: CertificateContentV,
    pub signatures: Seq<Seq<u8>>,
}

impl View for Certificate {
    type V = CertificateV;

    open spec fn view(&self) -> CertificateV {
        CertificateV { content: self.content@, signatures: self.signatures.deep_view() }
    }
}

impl Certificate {
    /// A stake delegation of `account`'s stake to `pool_id`, with no
    /// signatures yet.
    pub fn stake_delegation(pool_id: StakePoolId, account: PublicKey) -> (r: Certificate)
        ensures
            r@.content == CertificateContentV::StakeDelegation(account@, pool_id@),
            r@.signatures =~= Seq::<Seq<u8>>::empty(),
    {
        let r = Certificate {
            content: CertificateContent::StakeDelegation(
                Account { id: account.bytes },
                pool_id,
            ),
            signatures: Vec::new(),
        };
        proof {
            assert(r@.signatures =~= Seq::<Seq<u8>>::empty());
        }
        r
    }

    /// A stake pool registration, with no signatures yet.
    pub fn stake_pool_registration(pool_info: StakePoolInfo) -> (r: Certificate)
        ensures
            r@.content == CertificateContentV::StakePoolRegistration(pool_info@),
            r@.signatures =~= Seq::<Seq<u8>>::empty(),
    {
        let r = Certificate {
            content: CertificateContent::StakePoolRegistration(pool_info),
            signatures: Vec::new(),
        };
        proof {
            assert(r@.signatures =~= Seq::<Seq<u8>>::empty());
        }
        r
    }

    /// The byte layout of the certificate's payload alone: what an owner
    /// signs.
    pub fn content_bytes(&self) -> (r: Vec<u8>)
        ensures
            r@ == spec_encode_content(self@.content),
    {
        let mut out: Vec<u8> = Vec::new();
        match &self.content {
            CertificateContent::StakeDelegation(a, p) => {
                out.push(1);
                append_bytes(&mut out, a.id.as_slice());
                append_bytes(&mut out, p.bytes.as_slice());
            },
            CertificateContent::StakePoolRegistration(i) => {
                out.push(2);
                let info = i.to_bytes();
                append_bytes(&mut out, info.as_slice());
            },
            CertificateContent::StakePoolRetirement(p) => {
                out.push(3);
                append_bytes(&mut out, p.bytes.as_slice());
            },
        }
        proof {
            assert(out@ =~= spec_encode_content(self@.content));
        }
        out
    }

    /// Appends one signature: the key's signature over the payload's byte
    /// layout. Signing never touches the payload, and signatures collected
    /// earlier stay in order.
    pub fn sign(&mut self, private_key: PrivateKey)
        ensures
            final(self)@.content == old(self)@.content,
            final(self)@.signatures =~= old(self)@.signatures.push(
                private_key.spec_sign(spec_encode_content(old(self)@.content)),
            ),
    {
        let message = self.content_bytes();
        let signature = private_key.sign_message(message.as_slice());
        self.signatures.push(signature);
        proof {
            let dv = self.signatures.deep_view();
            let prev = old(self).signatures.deep_view();
            let sig = private_key.spec_sign(spec_encode_content(old(self)@.content));
            assert forall|j: int| 0 <= j < dv.len() implies dv[j] == prev.push(sig)[j] by {
                assert(dv[j] == self.signatures@[j].deep_view());
                if j < prev.len() {
                    assert(prev[j] == old(self).signatures@[j].deep_view());
                } else {
                    assert(self.signatures@[j].deep_view() =~= sig);
                }
            }
            assert(dv =~~= prev.push(sig));
        }
    }

    /// The byte layout of the whole certificate, signatures included.
    pub fn as_bytes(&self) -> (r: Result<Vec<u8>, Error>)
        ensures
            r matches Ok(v) && v@ == spec_encode_certificate(self@),
    {
        let mut out = self.content_bytes();
        push_be64(&mut out, self.signatures.len() as u64);
        let mut i: usize = 0;
        while i < self.signatures.len()
            invariant
                i <= self@.signatures.len(),
                out@ == spec_encode_content(self@.content) + be64(self@.signatures.len() as u64)
                    + spec_encode_signatures(self@.signatures.subrange(0, i as int)),
            decreases self@.signatures.len() - i,
        {
            push_be64(&mut out, self.signatures[i].len() as u64);
            append_bytes(&mut out, self.signatures[i].as_slice());
            proof {
                assert(self@.signatures.subrange(0, i as int + 1) =~= self@.signatures.subrange(
                    0,
                    i as int,
                ).push(self@.signatures[i as int]));
                lemma_encode_signatures_push(
                    self@.signatures.subrange(0, i as int),
                    self@.signatures[i as int],
                );
            }
            i = i + 1;
        }
        proof {
            assert(self@.signatures.subrange(0, self@.signatures.len() as int)
                =~= self@.signatures);
            assert(spec_encode_signatures(self@.signatures.subrange(0, 0)) == Seq::<u8>::empty());
            assert(out@ =~= spec_encode_certificate(self@));
        }
        Ok(out)
    }

    /// The bech32 rendering of the certificate under the `cert` prefix;
    /// fails only when the encoding exceeds the length the bech32 code
    /// admits.
    pub fn to_bech32(&self) -> (r: Result<String, Error>)
        ensures
            r is Ok <==> bech32_fits("cert"@, spec_encode_certificate(self@)),
            r matches Ok(s) ==> s@ == bech32_of("cert"@, spec_encode_certificate(self@)),
            r is Err ==> r == Err::<String, Error>(Error::ParseError),
    {
        proof {
            lemma_hrp_cert();
        }
        let bytes = match self.as_bytes() {
            Ok(b) => b,
            Err(e) => {
                proof {
                    assert(false);
                }
                return Err(e);
            },
        };
        match bech32_encode("cert", bytes.as_slice()) {
            Some(s) => Ok(s),
            None => Err(Error::ParseError),
        }
    }
}

/// The `cert` prefix is a well-formed bech32 prefix.
proof fn lemma_hrp_cert()
    ensures
        valid_hrp("cert"@),
{
    reveal_strlit("cert");
}

impl Clone for CertificateContent {
    /// A copy holding the same payload.
    fn clone(&self) -> (r: Self)
        ensures
            r@ == self@,
    {
        match self {
            CertificateContent::StakeDelegation(a, p) => CertificateContent::StakeDelegation(
                a.clone(),
                p.clone(),
            ),
            CertificateContent::StakePoolRegistration(i) => {
                CertificateContent::StakePoolRegistration(i.clone())
            },
            CertificateContent::StakePoolRetirement(p) => CertificateContent::StakePoolRetirement(
                p.clone(),
            ),
        }
    }
}

impl Clone for Certificate {
    /// A copy holding the same payload and signatures.
    fn clone(&self) -> (r: Self)
        ensures
            r@ == self@,
    {
        let mut signatures: Vec<Vec<u8>> = Vec::new();
        let mut i: usize = 0;
        while i < self.signatures.len()
            invariant
                i <= self.signatures@.len(),
                signatures@.len() == i,
                forall|j: int| 0 <= j < i ==> (#[trigger] signatures@[j])@ == self.signatures@[j]@,
            decreases self.signatures@.len() - i,
        {
            signatures.push(slice_to_vec(self.signatures[i].as_slice()));
            i = i + 1;
        }
        proof {
            let dv = signatures.deep_view();
            let sv = self.signatures.deep_view();
            assert forall|j: int| 0 <= j < self.signatures@.len() implies dv[j] == sv[j] by {
                assert(dv[j] == signatures@[j].deep_view());
                assert(sv[j] == self.signatures@[j].deep_view());
                assert(signatures@[j].deep_view() =~= signatures@[j]@);
                assert(self.signatures@[j].deep_view() =~= self.signatures@[j]@);
            }
            assert(signatures.deep_view() =~~= self.signatures.deep_view());
        }
        Certificate { content: self.content.clone(), signatures }
    }
}

} // verus!
