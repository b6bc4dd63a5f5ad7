//! Witnesses: the per-input authorizations of a transaction, and the
//! spending counter that protects account inputs against replay. A utxo
//! witness signs the chain's genesis identifier paired with the
//! transaction's content identifier; an account witness binds the spending
//! counter into the signed material as well.

use vstd::prelude::*;
use vstd::slice::slice_to_vec;
use crate::codec::{append_bytes, be32, be64, push_be32, push_be64};
use crate::digest::TransactionSignDataHash;
use crate::encoding::{bech32_encode, bech32_of, valid_hrp};
use crate::error::Error;
use crate::keys::PrivateKey;

verus! {

/// A per-account counter: each transaction spending from an account must
/// carry the count of the transactions spent from it before, which the
/// ledger enforces. The witness carries whatever value the caller hands
/// in.
#[derive(Clone, Copy, Debug, PartialEq, Eq, Structural)]
pub struct SpendingCounter(pub u32);

impl SpendingCounter {
    /// The counter of an account that has never spent.
    pub fn zero() -> (r: SpendingCounter)
        ensures
            r == SpendingCounter(0),
    {
        SpendingCounter(0)
    }

    /// The counter at a given count.
    pub fn from_u32(counter: u32) -> (r: SpendingCounter)
        ensures
            r == SpendingCounter(counter),
    {
        SpendingCounter(counter)
    }
}

/// The two kinds of witness: for a utxo input, or for an account input
/// with its spending counter.
#[derive(Debug, PartialEq, Eq)]
pub enum WitnessKind {
    Utxo { signature: Vec<u8> },
    Account { counter: SpendingCounter, signature: Vec<u8> },
}

/// The authorization of exactly one input. It is opaque to the
/// transaction it authorizes: it binds only the two identifiers it signs
/// (and, for an account, the counter).
#[derive(Debug, PartialEq, Eq)]
pub struct Witness {
    pub kind: WitnessKind,
}

/// The mathematical content of a witness.
#[verifier::ext_equal]
pub enum WitnessV {
    Utxo(Seq<u8>),
    Account(u32, Seq<u8>),
}

impl View for Witness {
    type V = WitnessV;

    open spec fn view(&self) -> WitnessV {
        match self.kind {
            WitnessKind::Utxo { signature } => WitnessV::Utxo(signature@),
            WitnessKind::Account { counter, signature } => WitnessV::Account(
                counter.0,
                signature@,
            ),
        }
    }
}

impl DeepView for Witness {
    type V = WitnessV;

    open spec fn deep_view(&self) -> WitnessV {
        self@
    }
}

/// What a utxo witness signs: the chain's genesis identifier, then the
/// transaction's content identifier. Signing both separates signatures
/// across distinct chains and distinct transactions.
pub open spec fn utxo_witness_message(genesis: Seq<u8>, txid: Seq<u8>) -> Seq<u8> {
    genesis + txid
}

/// What an account witness signs: the utxo material with the spending
/// counter appended, so that an old signature cannot be replayed against
/// a later transaction from the same account.
pub open spec fn account_witness_message(genesis: Seq<u8>, txid: Seq<u8>, counter: u32) -> Seq<
    u8,
> {
    genesis + txid + be32(counter)
}

/// The byte layout of a witness: a kind tag, the counter for an account,
/// then the signature with its length ahead of it.
pub open spec fn spec_encode_witness(w: WitnessV) -> Seq<u8> {
    match w {
        WitnessV::Utxo(sig) => seq![1u8] + be64(sig.len() as u64) + sig,
        WitnessV::Account(c, sig) => seq![2u8] + be32(c) + be64(sig.len() as u64) + sig,
    }
}

impl Witness {
    /// The signature holds 64 bytes.
    pub open spec fn wf(&self) -> bool {
        match self@ {
            WitnessV::Utxo(sig) => sig.len() == 64,
            WitnessV::Account(_, sig) => sig.len() == 64,
        }
    }

    /// The witness for a utxo input: the key's signature over exactly the
    /// genesis identifier and the transaction identifier.
    pub fn for_utxo(
        genesis_hash: crate::digest::Hash,
        transaction_id: TransactionSignDataHash,
        secret_key: PrivateKey,
    ) -> (r: Witness)
        ensures
            r@ == WitnessV::Utxo(
                secret_key.spec_sign(utxo_witness_message(genesis_hash@, transaction_id@)),
            ),
            r.wf(),
    {
        let mut message: Vec<u8> = Vec::new();
        append_bytes(&mut message, genesis_hash.bytes.as_slice());
        append_bytes(&mut message, transaction_id.bytes.as_slice());
        let signature = secret_key.sign_message(message.as_slice());
        Witness { kind: WitnessKind::Utxo { signature } }
    }

    /// The witness for an account input: the key's signature over exactly
    /// the genesis identifier, the transaction identifier and the spending
    /// counter, which the caller should raise by one for each transaction
    /// spent from the account.
    pub fn for_account(
        genesis_hash: crate::digest::Hash,
        transaction_id: TransactionSignDataHash,
        secret_key: PrivateKey,
        account_spending_counter: SpendingCounter,
    ) -> (r: Witness)
        ensures
            r@ == WitnessV::Account(
                account_spending_counter.0,
                secret_key.spec_sign(
                    account_witness_message(
                        genesis_hash@,
                        transaction_id@,
                        account_spending_counter.0,
                    ),
                ),
            ),
            r.wf(),
    {
        let mut message: Vec<u8> = Vec::new();
        append_bytes(&mut message, genesis_hash.bytes.as_slice());
        append_bytes(&mut message, transaction_id.bytes.as_slice());
        push_be32(&mut message, account_spending_counter.0);
        let signature = secret_key.sign_message(message.as_slice());
        Witness {
            kind: WitnessKind::Account { counter: account_spending_counter, signature },
        }
    }

    /// Appends the byte layout of the witness.
    pub(crate) fn encode(&self, out: &mut Vec<u8>)
        ensures
            final(out)@ == old(out)@ + spec_encode_witness(self@),
    {
        match &self.kind {
            WitnessKind::Utxo { signature } => {
                out.push(1);
                push_be64(out, signature.len() as u64);
                append_bytes(out, signature.as_slice());
            },
            WitnessKind::Account { counter, signature } => {
                out.push(2);
                push_be32(out, counter.0);
                push_be64(out, signature.len() as u64);
                append_bytes(out, signature.as_slice());
            },
        }
        proof {
            assert(out@ =~= old(out)@ + spec_encode_witness(self@));
        }
    }

    /// The bech32 rendering of the witness under the `witness` prefix.
    pub fn to_bech32(&self) -> (r: Result<String, Error>)
        requires
            self.wf(),
        ensures
            r matches Ok(s) && s@ == bech32_of("witness"@, spec_encode_witness(self@)),
    {
        proof {
            lemma_hrp_witness();
        }
        let mut bytes: Vec<u8> = Vec::new();
        self.encode(&mut bytes);
        match bech32_encode("witness", bytes.as_slice()) {
            Some(s) => Ok(s),
            None => {
                proof {
                    assert(false);
                }
                Err(Error::ParseError)
            },
        }
    }
}

impl Clone for Witness {
    /// A copy carrying the same authorization.
    fn clone(&self) -> (r: Self)
        ensures
            r@ == self@,
    {
        match &self.kind {
            WitnessKind::Utxo { signature } => Witness {
                kind: WitnessKind::Utxo { signature: slice_to_vec(signature.as_slice()) },
            },
            WitnessKind::Account { counter, signature } => Witness {
                kind: WitnessKind::Account {
                    counter: *counter,
                    signature: slice_to_vec(signature.as_slice()),
                },
            },
        }
    }
}

/// The `witness` prefix is a well-formed bech32 prefix.
proof fn lemma_hrp_witness()
    ensures
        valid_hrp("witness"@),
{
    reveal_strlit("witness");
}

/// A utxo witness and an account witness are structurally distinct,
/// whatever they sign.
pub proof fn lemma_witness_kinds_distinct(u: WitnessV, a: WitnessV)
    requires
        u is Utxo,
        a is Account,
    ensures
        u != a,
{
}

/// Two account witnesses over the same chain and transaction but
/// different counters sign different material.
pub proof fn lemma_account_message_counter(genesis: Seq<u8>, txid: Seq<u8>, c1: u32, c2: u32)
    requires
        c1 != c2,
    ensures
        account_witness_message(genesis, txid, c1) != account_witness_message(genesis, txid, c2),
{
    let m1 = account_witness_message(genesis, txid, c1);
    let m2 = account_witness_message(genesis, txid, c2);
    let base = genesis.len() + txid.len();
    if m1 == m2 {
        assert(m1[base as int + 0] == (c1 >> 24) as u8);
        assert(m1[base as int + 1] == (c1 >> 16) as u8);
        assert(m1[base as int + 2] == (c1 >> 8) as u8);
        assert(m1[base as int + 3] == c1 as u8);
        assert(m2[base as int + 0] == (c2 >> 24) as u8);
        assert(m2[base as int + 1] == (c2 >> 16) as u8);
        assert(m2[base as int + 2] == (c2 >> 8) as u8);
        assert(m2[base as int + 3] == c2 as u8);
        assert(((c1 >> 24) as u8 == (c2 >> 24) as u8 && (c1 >> 16) as u8 == (c2 >> 16) as u8 && (
        c1 >> 8) as u8 == (c2 >> 8) as u8 && c1 as u8 == c2 as u8) ==> c1 == c2) by (bit_vector);
        assert(false);
    }
}

} // verus!
