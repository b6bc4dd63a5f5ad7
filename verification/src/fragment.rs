//! Fragments and blocks: the messages a block carries. A signed
//! transaction travels as a fragment; other fragment kinds carry opaque
//! payloads. A block names its parent and holds its fragments.

use vstd::prelude::*;
use vstd::slice::slice_to_vec;
use crate::codec::{append_bytes, be64, push_be64};
use crate::digest::BlockId;
use crate::error::Error;
use crate::finalizer::{GeneratedTransaction, GeneratedTransactionV};
use crate::provider::{blake2b_256, blake2b_256_of};
use crate::transaction::spec_encode_tx;
use crate::witness::spec_encode_witness;

verus! {

/// The byte layout of a witness sequence.
pub open spec fn spec_encode_witness_seq(s: Seq<crate::witness::WitnessV>) -> Seq<u8>
    decreases s.len(),
{
    if s.len() == 0 {
        Seq::empty()
    } else {
        spec_encode_witness(s[0]) + spec_encode_witness_seq(s.drop_first())
    }
}

/// The witness sequence layout takes one more witness at the end.
pub proof fn lemma_encode_witness_seq_push(s: Seq<crate::witness::WitnessV>, x: crate::witness::WitnessV)
    ensures
        spec_encode_witness_seq(s.push(x)) == spec_encode_witness_seq(s) + spec_encode_witness(x),
    decreases s.len(),
{
    if s.len() == 0 {
        assert(s.push(x).drop_first() =~= Seq::<crate::witness::WitnessV>::empty());
        assert(s.push(x)[0] == x);
        assert(spec_encode_witness_seq(Seq::<crate::witness::WitnessV>::empty())
            == Seq::<u8>::empty());
        assert(spec_encode_witness_seq(s.push(x)) =~= spec_encode_witness(x));
        assert(spec_encode_witness_seq(s) + spec_encode_witness(x) =~= spec_encode_witness(x));
    } else {
        lemma_encode_witness_seq_push(s.drop_first(), x);
        assert(s.push(x).drop_first() =~= s.drop_first().push(x));
        assert(s.push(x)[0] == s[0]);
        assert(spec_encode_witness(s[0]) + (spec_encode_witness_seq(s.drop_first())
            + spec_encode_witness(x)) =~= (spec_encode_witness(s[0]) + spec_encode_witness_seq(
            s.drop_first(),
        )) + spec_encode_witness(x));
    }
}

/// The byte layout of a signed transaction: the transaction's layout,
/// then the witness count and the witnesses in input order.
pub open spec fn spec_encode_generated(g: GeneratedTransactionV) -> Seq<u8> {
    spec_encode_tx(g.transaction) + be64(g.witnesses.len() as u64) + spec_encode_witness_seq(
        g.witnesses,
    )
}

/// Appends the byte layout of a signed transaction.
pub(crate) fn encode_generated(out: &mut Vec<u8>, g: &GeneratedTransaction)
    requires
        g.wf(),
    ensures
        final(out)@ == old(out)@ + spec_encode_generated(g@),
{
    let tx_bytes = g.tx.to_bytes();
    append_bytes(out, tx_bytes.as_slice());
    push_be64(out, g.witnesses.len() as u64);
    let ghost wv = g@.witnesses;
    let ghost mid = out@;
    proof {
        assert(mid + spec_encode_witness_seq(wv.subrange(0, 0)) =~= mid);
    }
    let mut i: usize = 0;
    while i < g.witnesses.len()
        invariant
            i <= wv.len(),
            wv == g@.witnesses,
            wv.len() == g.witnesses@.len(),
            out@ == mid + spec_encode_witness_seq(wv.subrange(0, i as int)),
        decreases wv.len() - i,
    {
        proof {
            assert(wv[i as int] == g.witnesses@[i as int].deep_view());
        }
        g.witnesses[i].encode(out);
        proof {
            assert(wv.subrange(0, i as int + 1) =~= wv.subrange(0, i as int).push(wv[i as int]));
            lemma_encode_witness_seq_push(wv.subrange(0, i as int), wv[i as int]);
        }
        i = i + 1;
    }
    proof {
        assert(wv.subrange(0, wv.len() as int) =~= wv);
        assert(out@ =~= old(out)@ + spec_encode_generated(g@));
    }
}

/// The kinds of message a block records. A signed transaction travels as
/// `Transaction` when it carries no certificate and as `Certificate` when
/// it does; the remaining kinds carry payloads this crate passes through
/// opaquely.
#[derive(Debug, PartialEq, Eq)]
pub enum FragmentKind {
    Initial(Vec<u8>),
    Transaction(GeneratedTransaction),
    Certificate(GeneratedTransaction),
    OldUtxoDeclaration(Vec<u8>),
    UpdateProposal(Vec<u8>),
    UpdateVote(Vec<u8>),
}

/// A message recordable in a block.
#[derive(Debug, PartialEq, Eq)]
pub struct Fragment {
    pub kind: FragmentKind,
}

/// The mathematical content of a fragment.
#[verifier::ext_equal]
pub enum FragmentV {
    Initial(Seq<u8>),
    Transaction(GeneratedTransactionV),
    Certificate(GeneratedTransactionV),
    OldUtxoDeclaration(Seq<u8>),
    UpdateProposal(Seq<u8>),
    UpdateVote(Seq<u8>),
}

impl View for Fragment {
    type V = FragmentV;

    open spec fn view(&self) -> FragmentV {
        match self.kind {
            FragmentKind::Initial(b) => FragmentV::Initial(b@),
            FragmentKind::Transaction(g) => FragmentV::Transaction(g@),
            FragmentKind::Certificate(g) => FragmentV::Certificate(g@),
            FragmentKind::OldUtxoDeclaration(b) => FragmentV::OldUtxoDeclaration(b@),
            FragmentKind::UpdateProposal(b) => FragmentV::UpdateProposal(b@),
            FragmentKind::UpdateVote(b) => FragmentV::UpdateVote(b@),
        }
    }
}

impl DeepView for Fragment {
    type V = FragmentV;

    open spec fn deep_view(&self) -> FragmentV {
        self@
    }
}

/// The byte layout of a fragment: a kind tag, then the payload — a signed
/// transaction's layout, or an opaque payload with its length ahead.
pub open spec fn spec_encode_fragment(f: FragmentV) -> Seq<u8> {
    match f {
        FragmentV::Initial(b) => seq![0u8] + be64(b.len() as u64) + b,
        FragmentV::Transaction(g) => seq![1u8] + spec_encode_generated(g),
        FragmentV::Certificate(g) => seq![2u8] + spec_encode_generated(g),
        FragmentV::OldUtxoDeclaration(b) => seq![3u8] + be64(b.len() as u64) + b,
        FragmentV::UpdateProposal(b) => seq![4u8] + be64(b.len() as u64) + b,
        FragmentV::UpdateVote(b) => seq![5u8] + be64(b.len() as u64) + b,
    }
}

impl Fragment {
    /// A signed transaction the fragment holds, if any, is well formed.
    pub open spec fn wf(&self) -> bool {
        match self.kind {
            FragmentKind::Transaction(g) => g.wf(),
            FragmentKind::Certificate(g) => g.wf(),
            _ => true,
        }
    }

    /// The fragment carrying a signed transaction: under the
    /// `Certificate` kind when the transaction holds one, under the
    /// `Transaction` kind otherwise.
    pub fn from_generated_transaction(tx: GeneratedTransaction) -> (r: Fragment)
        ensures
            tx@.transaction.extra is Some ==> r@ == FragmentV::Certificate(tx@),
            tx@.transaction.extra is None ==> r@ == FragmentV::Transaction(tx@),
            tx.wf() ==> r.wf(),
    {
        match &tx.tx.extra {
            Some(_) => Fragment { kind: FragmentKind::Certificate(tx) },
            None => Fragment { kind: FragmentKind::Transaction(tx) },
        }
    }

    /// The signed transaction of a `Transaction` fragment; any other kind
    /// fails.
    pub fn get_transaction(self) -> (r: Result<GeneratedTransaction, Error>)
        ensures
            self@ matches FragmentV::Transaction(g) ==> (r matches Ok(x) && x@ == g),
            !(self@ is Transaction) ==> r == Err::<GeneratedTransaction, Error>(Error::ParseError),
    {
        match self.kind {
            FragmentKind::Transaction(g) => Ok(g),
            _ => Err(Error::ParseError),
        }
    }

    /// The byte layout of the fragment.
    pub fn as_bytes(&self) -> (r: Result<Vec<u8>, Error>)
        requires
            self.wf(),
        ensures
            r matches Ok(v) && v@ == spec_encode_fragment(self@),
    {
        let mut out: Vec<u8> = Vec::new();
        match &self.kind {
            FragmentKind::Initial(b) => {
                out.push(0);
                push_be64(&mut out, b.len() as u64);
                append_bytes(&mut out, b.as_slice());
            },
            FragmentKind::Transaction(g) => {
                out.push(1);
                encode_generated(&mut out, g);
            },
            FragmentKind::Certificate(g) => {
                out.push(2);
                encode_generated(&mut out, g);
            },
            FragmentKind::OldUtxoDeclaration(b) => {
                out.push(3);
                push_be64(&mut out, b.len() as u64);
                append_bytes(&mut out, b.as_slice());
            },
            FragmentKind::UpdateProposal(b) => {
                out.push(4);
                push_be64(&mut out, b.len() as u64);
                append_bytes(&mut out, b.as_slice());
            },
            FragmentKind::UpdateVote(b) => {
                out.push(5);
                push_be64(&mut out, b.len() as u64);
                append_bytes(&mut out, b.as_slice());
            },
        }
        proof {
            assert(out@ =~= spec_encode_fragment(self@));
        }
        Ok(out)
    }

    /// Whether the fragment is of the `Initial` kind.
    pub fn is_initial(&self) -> (r: bool)
        ensures
            r == (self@ is Initial),
    {
        match &self.kind {
            FragmentKind::Initial(_) => true,
            _ => false,
        }
    }

    /// Whether the fragment carries a plain signed transaction.
    pub fn is_transaction(&self) -> (r: bool)
        ensures
            r == (self@ is Transaction),
    {
        match &self.kind {
            FragmentKind::Transaction(_) => true,
            _ => false,
        }
    }

    /// Whether the fragment carries a certificate-bearing transaction.
    pub fn is_certificate(&self) -> (r: bool)
        ensures
            r == (self@ is Certificate),
    {
        match &self.kind {
            FragmentKind::Certificate(_) => true,
            _ => false,
        }
    }

    /// Whether the fragment is of the `OldUtxoDeclaration` kind.
    pub fn is_old_utxo_declaration(&self) -> (r: bool)
        ensures
            r == (self@ is OldUtxoDeclaration),
    {
        match &self.kind {
            FragmentKind::OldUtxoDeclaration(_) => true,
            _ => false,
        }
    }

    /// Whether the fragment is of the `UpdateProposal` kind.
    pub fn is_update_proposal(&self) -> (r: bool)
        ensures
            r == (self@ is UpdateProposal),
    {
        match &self.kind {
            FragmentKind::UpdateProposal(_) => true,
            _ => false,
        }
    }

    /// Whether the fragment is of the `UpdateVote` kind.
    pub fn is_update_vote(&self) -> (r: bool)
        ensures
            r == (self@ is UpdateVote),
    {
        match &self.kind {
            FragmentKind::UpdateVote(_) => true,
            _ => false,
        }
    }
}

impl Clone for Fragment {
    /// A copy carrying the same message.
    fn clone(&self) -> (r: Self)
        ensures
            r@ == self@,
    {
        match &self.kind {
            FragmentKind::Initial(b) => Fragment {
                kind: FragmentKind::Initial(slice_to_vec(b.as_slice())),
            },
            FragmentKind::Transaction(g) => Fragment { kind: FragmentKind::Transaction(g.clone()) },
            FragmentKind::Certificate(g) => Fragment { kind: FragmentKind::Certificate(g.clone()) },
            FragmentKind::OldUtxoDeclaration(b) => Fragment {
                kind: FragmentKind::OldUtxoDeclaration(slice_to_vec(b.as_slice())),
            },
            FragmentKind::UpdateProposal(b) => Fragment {
                kind: FragmentKind::UpdateProposal(slice_to_vec(b.as_slice())),
            },
            FragmentKind::UpdateVote(b) => Fragment {
                kind: FragmentKind::UpdateVote(slice_to_vec(b.as_slice())),
            },
        }
    }
}

/// The byte layout of a fragment sequence.
pub open spec fn spec_encode_fragment_seq(s: Seq<FragmentV>) -> Seq<u8>
    decreases s.len(),
{
    if s.len() == 0 {
        Seq::empty()
    } else {
        spec_encode_fragment(s[0]) + spec_encode_fragment_seq(s.drop_first())
    }
}

/// The fragment sequence layout takes one more fragment at the end.
pub proof fn lemma_encode_fragment_seq_push(s: Seq<FragmentV>, x: FragmentV)
    ensures
        spec_encode_fragment_seq(s.push(x)) == spec_encode_fragment_seq(s) + spec_encode_fragment(
            x,
        ),
    decreases s.len(),
{
    if s.len() == 0 {
        assert(s.push(x).drop_first() =~= Seq::<FragmentV>::empty());
        assert(s.push(x)[0] == x);
        assert(spec_encode_fragment_seq(Seq::<FragmentV>::empty()) == Seq::<u8>::empty());
        assert(spec_encode_fragment_seq(s.push(x)) =~= spec_encode_fragment(x));
        assert(spec_encode_fragment_seq(s) + spec_encode_fragment(x) =~= spec_encode_fragment(x));
    } else {
        lemma_encode_fragment_seq_push(s.drop_first(), x);
        assert(s.push(x).drop_first() =~= s.drop_first().push(x));
        assert(s.push(x)[0] == s[0]);
        assert(spec_encode_fragment(s[0]) + (spec_encode_fragment_seq(s.drop_first())
            + spec_encode_fragment(x)) =~= (spec_encode_fragment(s[0]) + spec_encode_fragment_seq(
            s.drop_first(),
        )) + spec_encode_fragment(x));
    }
}

/// The byte layout of a block: the parent identifier, then the fragment
/// count and the fragments.
pub open spec fn spec_encode_block(parent: Seq<u8>, fragments: Seq<FragmentV>) -> Seq<u8> {
    parent + be64(fragments.len() as u64) + spec_encode_fragment_seq(fragments)
}

/// An element of the chain: a reference to its parent block and the
/// fragments it records.
#[derive(Debug, PartialEq, Eq)]
pub struct Block {
    pub parent: BlockId,
    pub fragments: Vec<Fragment>,
}

impl Block {
    /// The parent identifier holds 32 bytes and every fragment is well
    /// formed.
    pub open spec fn wf(&self) -> bool {
        &&& self.parent.wf()
        &&& forall|i: int| 0 <= i < self.fragments@.len() ==> (#[trigger] self.fragments@[i]).wf()
    }

    /// The byte layout of the block.
    pub fn to_bytes(&self) -> (r: Vec<u8>)
        requires
            self.wf(),
        ensures
            r@ == spec_encode_block(self.parent@, self.fragments.deep_view()),
    {
        let mut out: Vec<u8> = Vec::new();
        append_bytes(&mut out, self.parent.bytes.as_slice());
        push_be64(&mut out, self.fragments.len() as u64);
        let ghost fv = self.fragments.deep_view();
        let ghost mid = out@;
        proof {
            assert(fv.len() == self.fragments@.len());
            assert(mid + spec_encode_fragment_seq(fv.subrange(0, 0)) =~= mid);
        }
        let mut i: usize = 0;
        while i < self.fragments.len()
            invariant
                i <= fv.len(),
                fv == self.fragments.deep_view(),
                fv.len() == self.fragments@.len(),
                forall|k: int| 0 <= k < self.fragments@.len() ==> (#[trigger] self.fragments@[k]).wf(),
                out@ == mid + spec_encode_fragment_seq(fv.subrange(0, i as int)),
            decreases fv.len() - i,
        {
            proof {
                assert(fv[i as int] == self.fragments@[i as int].deep_view());
            }
            let bytes = match self.fragments[i].as_bytes() {
                Ok(b) => b,
                Err(e) => {
                    proof {
                        assert(false);
                    }
                    return Vec::new();
                },
            };
            append_bytes(&mut out, bytes.as_slice());
            proof {
                assert(fv.subrange(0, i as int + 1) =~= fv.subrange(0, i as int).push(
                    fv[i as int],
                ));
                lemma_encode_fragment_seq_push(fv.subrange(0, i as int), fv[i as int]);
            }
            i = i + 1;
        }
        proof {
            assert(fv.subrange(0, fv.len() as int) =~= fv);
            assert(out@ =~= spec_encode_block(self.parent@, fv));
        }
        out
    }

    /// The block's identifier: the digest of its layout.
    pub fn id(&self) -> (r: BlockId)
        requires
            self.wf(),
        ensures
            r@ == blake2b_256_of(spec_encode_block(self.parent@, self.fragments.deep_view())),
            r.wf(),
    {
        let bytes = self.to_bytes();
        BlockId { bytes: blake2b_256(bytes.as_slice()) }
    }

    /// The identifier of the parent block.
    pub fn parent_id(&self) -> (r: BlockId)
        ensures
            r@ == self.parent@,
    {
        self.parent.clone()
    }

    /// Copies of the fragments, in order.
    pub fn fragments(&self) -> (r: Vec<Fragment>)
        ensures
            r.deep_view() == self.fragments.deep_view(),
    {
        let mut v: Vec<Fragment> = Vec::new();
        let mut i: usize = 0;
        while i < self.fragments.len()
            invariant
                i <= self.fragments@.len(),
                v@.len() == i,
                forall|j: int| 0 <= j < i ==> (#[trigger] v@[j])@ == self.fragments@[j]@,
            decreases self.fragments@.len() - i,
        {
            v.push(self.fragments[i].clone());
            i = i + 1;
        }
        proof {
            let dv = v.deep_view();
            let sv = self.fragments.deep_view();
            assert forall|j: int| 0 <= j < sv.len() implies dv[j] == sv[j] by {
                assert(dv[j] == v@[j].deep_view());
                assert(sv[j] == self.fragments@[j].deep_view());
            }
            assert(dv =~~= sv);
        }
        v
    }
}

} // verus!
