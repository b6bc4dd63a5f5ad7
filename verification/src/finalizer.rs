//! The finalizer: collects one witness per input of a finalized
//! transaction, by index, and yields the signed transaction once every
//! input is authorized.

use vstd::prelude::*;
use crate::digest::TransactionSignDataHash;
use crate::error::Error;
use crate::transaction::{spec_txid, Transaction, TransactionV};
use crate::witness::{Witness, WitnessV};

verus! {

/// A finalized transaction together with its witness slots, one per
/// input, each initially empty. The slot count never changes.
#[derive(Debug, PartialEq, Eq)]
pub struct TransactionFinalizer {
    pub tx: Transaction,
    pub witnesses: Vec<Option<Witness>>,
}

impl TransactionFinalizer {
    /// One witness slot per input, and a well-formed transaction.
    pub open spec fn wf(&self) -> bool {
        self.witnesses@.len() == self.tx@.inputs.len() && self.tx.wf()
    }

    /// The witness slots, as mathematical content.
    pub open spec fn spec_witnesses(&self) -> Seq<Option<WitnessV>> {
        self.witnesses.deep_view()
    }

    /// Wraps a finalized transaction, with every slot empty.
    pub fn new(transaction: Transaction) -> (r: TransactionFinalizer)
        requires
            transaction.wf(),
        ensures
            r.tx == transaction,
            r.spec_witnesses().len() == transaction@.inputs.len(),
            forall|i: int| 0 <= i < r.spec_witnesses().len() ==> r.spec_witnesses()[i] is None,
            r.wf(),
    {
        let n = transaction.inputs.len();
        let mut witnesses: Vec<Option<Witness>> = Vec::new();
        let mut i: usize = 0;
        while i < n
            invariant
                i <= n,
                witnesses@.len() == i,
                forall|j: int| 0 <= j < i ==> (#[trigger] witnesses@[j]) is None,
            decreases n - i,
        {
            witnesses.push(None);
            i = i + 1;
        }
        let r = TransactionFinalizer { tx: transaction, witnesses };
        proof {
            assert forall|j: int|
                0 <= j < r.spec_witnesses().len() implies r.spec_witnesses()[j] is None by {
                assert(r.spec_witnesses()[j] == r.witnesses@[j].deep_view());
            }
        }
        r
    }

    /// Stores `witness` at `index` — the position of the input it
    /// authorizes — overwriting any earlier witness there; an index at or
    /// past the input count fails with `WitnessIndexOutOfRange` and
    /// changes nothing.
    pub fn set_witness(&mut self, index: usize, witness: Witness) -> (r: Result<(), Error>)
        ensures
            index >= old(self).spec_witnesses().len() ==> (r == Err::<(), Error>(
                Error::WitnessIndexOutOfRange,
            ) && final(self).tx == old(self).tx && final(self).witnesses@ == old(self).witnesses@),
            index < old(self).spec_witnesses().len() ==> (r == Ok::<(), Error>(())
                && final(self).tx == old(self).tx && final(self).spec_witnesses()
                == old(self).spec_witnesses().update(index as int, Some(witness@))),
            final(self).wf() == old(self).wf(),
    {
        if index < self.witnesses.len() {
            let ghost wv = witness@;
            self.witnesses.set(index, Some(witness));
            proof {
                let dv = self.spec_witnesses();
                let target = old(self).spec_witnesses().update(index as int, Some(wv));
                assert forall|j: int| 0 <= j < dv.len() implies dv[j] == target[j] by {
                    assert(dv[j] == self.witnesses@[j].deep_view());
                    if j != index {
                        assert(old(self).spec_witnesses()[j] == old(
                            self,
                        ).witnesses@[j].deep_view());
                    }
                }
                assert(dv =~~= target);
            }
            Ok(())
        } else {
            Err(Error::WitnessIndexOutOfRange)
        }
    }

    /// The content identifier of the wrapped transaction: stable,
    /// unaffected by the witnesses set so far.
    pub fn get_txid(&self) -> (r: TransactionSignDataHash)
        requires
            self.wf(),
        ensures
            r@ == spec_txid(self.tx@),
            r.wf(),
    {
        self.tx.id()
    }

    /// The signed transaction, pairing the transaction with its complete
    /// witness sequence in input order; fails with `MissingWitness` while
    /// any slot is empty, whatever the order the others were set in.
    pub fn build(self) -> (r: Result<GeneratedTransaction, Error>)
        ensures
            (exists|i: int|
                0 <= i < self.spec_witnesses().len() && self.spec_witnesses()[i] is None) ==> r
                == Err::<GeneratedTransaction, Error>(Error::MissingWitness),
            (forall|i: int|
                0 <= i < self.spec_witnesses().len() ==> (#[trigger] self.spec_witnesses()[i])
                    is Some) ==> (r matches Ok(g) && g.tx == self.tx
                && g.witnesses.deep_view().len() == self.spec_witnesses().len() && forall|i: int|
                0 <= i < self.spec_witnesses().len() ==> self.spec_witnesses()[i] == Some(
                    #[trigger] g.witnesses.deep_view()[i],
                )),
    {
        let ghost sw = self.spec_witnesses();
        let mut out: Vec<Witness> = Vec::new();
        let mut i: usize = 0;
        while i < self.witnesses.len()
            invariant
                i <= self.witnesses@.len(),
                sw == self.spec_witnesses(),
                sw.len() == self.witnesses@.len(),
                out@.len() == i,
                forall|j: int| 0 <= j < i ==> sw[j] == Some((#[trigger] out@[j])@),
            decreases self.witnesses@.len() - i,
        {
            match &self.witnesses[i] {
                Some(w) => {
                    proof {
                        assert(sw[i as int] == self.witnesses@[i as int].deep_view());
                    }
                    out.push(w.clone());
                },
                None => {
                    proof {
                        assert(sw[i as int] == self.witnesses@[i as int].deep_view());
                    }
                    return Err(Error::MissingWitness);
                },
            }
            i = i + 1;
        }
        proof {
            assert forall|k: int| 0 <= k < sw.len() implies !((#[trigger] sw[k]) is None) by {
                assert(sw[k] == Some(out@[k]@));
            }
        }
        let r = GeneratedTransaction { tx: self.tx, witnesses: out };
        proof {
            assert forall|j: int|
                0 <= j < sw.len() implies sw[j] == Some(
                #[trigger] r.witnesses.deep_view()[j],
            ) by {
                assert(r.witnesses.deep_view()[j] == r.witnesses@[j].deep_view());
            }
        }
        Ok(r)
    }
}

/// A transaction with its complete, ordered witness sequence: ready for
/// submission.
#[derive(Debug, PartialEq, Eq)]
pub struct GeneratedTransaction {
    pub tx: Transaction,
    pub witnesses: Vec<Witness>,
}

/// The mathematical content of a signed transaction.
#[verifier::ext_equal]
pub struct GeneratedTransactionV {
    pub transaction: TransactionV,
    pub witnesses: Seq<WitnessV>,
}

impl View for GeneratedTransaction {
    type V = GeneratedTransactionV;

    open spec fn view(&self) -> GeneratedTransactionV {
        GeneratedTransactionV { transaction: self.tx@, witnesses: self.witnesses.deep_view() }
    }
}

impl DeepView for GeneratedTransaction {
    type V = GeneratedTransactionV;

    open spec fn deep_view(&self) -> GeneratedTransactionV {
        self@
    }
}

impl GeneratedTransaction {
    /// The wrapped transaction is well formed.
    pub open spec fn wf(&self) -> bool {
        self.tx.wf()
    }

    /// The content identifier of the wrapped transaction: witnesses never
    /// enter it.
    pub fn id(&self) -> (r: TransactionSignDataHash)
        requires
            self.wf(),
        ensures
            r@ == spec_txid(self.tx@),
            r.wf(),
    {
        self.tx.id()
    }

    /// A copy of the wrapped transaction, the witnesses left aside.
    pub fn transaction(&self) -> (r: Transaction)
        ensures
            r@ == self.tx@,
    {
        self.tx.clone()
    }
}

impl Clone for GeneratedTransaction {
    /// A copy holding the same transaction and witnesses.
    fn clone(&self) -> (r: Self)
        ensures
            r.tx@ == self.tx@,
            r.witnesses.deep_view() == self.witnesses.deep_view(),
    {
        let tx = self.tx.clone();
        let mut witnesses: Vec<Witness> = Vec::new();
        let mut i: usize = 0;
        while i < self.witnesses.len()
            invariant
                i <= self.witnesses@.len(),
                witnesses@.len() == i,
                forall|j: int| 0 <= j < i ==> (#[trigger] witnesses@[j])@ == self.witnesses@[j]@,
            decreases self.witnesses@.len() - i,
        {
            witnesses.push(self.witnesses[i].clone());
            i = i + 1;
        }
        proof {
            let dv = witnesses.deep_view();
            let sv = self.witnesses.deep_view();
            assert forall|j: int| 0 <= j < sv.len() implies dv[j] == sv[j] by {
                assert(dv[j] == witnesses@[j].deep_view());
                assert(sv[j] == self.witnesses@[j].deep_view());
            }
            assert(dv =~~= sv);
        }
        GeneratedTransaction { tx, witnesses }
    }
}

/// Witnesses for distinct inputs may be set in either order: the final
/// slots are the same.
pub proof fn lemma_set_witness_order(
    s: Seq<Option<WitnessV>>,
    i: int,
    j: int,
    x: WitnessV,
    y: WitnessV,
)
    requires
        0 <= i < s.len(),
        0 <= j < s.len(),
        i != j,
    ensures
        s.update(i, Some(x)).update(j, Some(y)) == s.update(j, Some(y)).update(i, Some(x)),
{
    assert(s.update(i, Some(x)).update(j, Some(y)) =~= s.update(j, Some(y)).update(i, Some(x)));
}

} // verus!
