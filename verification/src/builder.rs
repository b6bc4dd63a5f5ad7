//! The transaction builder: a mutable accumulator of inputs, outputs and
//! an optional certificate, with the balancing step that settles the fee
//! and disposes of surplus value under an output policy.

use vstd::prelude::*;
use crate::address::{Address, AddressV};
use crate::certificate::Certificate;
use crate::digest::TransactionSignDataHash;
use crate::error::Error;
use crate::fee::{compute_linear_fee, spec_balance, spec_linear_fee, Balance, Fee, FeeVariant, LinearFee};
use crate::transaction::{spec_txid, Input, InputV, Output, OutputV, Transaction, TransactionV};
use crate::value::Value;

verus! {

/// The sum of the values a sequence of inputs brings in.
pub open spec fn sum_inputs(s: Seq<InputV>) -> int
    decreases s.len(),
{
    if s.len() == 0 {
        0
    } else {
        sum_inputs(s.drop_last()) + s.last().value().0
    }
}

/// The sum of the values a sequence of outputs spends.
pub open spec fn sum_outputs(s: Seq<OutputV>) -> int
    decreases s.len(),
{
    if s.len() == 0 {
        0
    } else {
        sum_outputs(s.drop_last()) + s.last().value.0
    }
}

/// An input sum is never negative.
pub proof fn lemma_sum_inputs_nonneg(s: Seq<InputV>)
    ensures
        sum_inputs(s) >= 0,
    decreases s.len(),
{
    if s.len() > 0 {
        lemma_sum_inputs_nonneg(s.drop_last());
    }
}

/// An output sum is never negative.
pub proof fn lemma_sum_outputs_nonneg(s: Seq<OutputV>)
    ensures
        sum_outputs(s) >= 0,
    decreases s.len(),
{
    if s.len() > 0 {
        lemma_sum_outputs_nonneg(s.drop_last());
    }
}

/// A prefix of the inputs sums to at most the whole.
pub proof fn lemma_sum_inputs_prefix(s: Seq<InputV>, i: int)
    requires
        0 <= i <= s.len(),
    ensures
        sum_inputs(s.subrange(0, i)) <= sum_inputs(s),
    decreases s.len() - i,
{
    if i == s.len() {
        assert(s.subrange(0, i) =~= s);
    } else {
        assert(s.subrange(0, i + 1).drop_last() =~= s.subrange(0, i));
        assert(s.subrange(0, i + 1).last() == s[i]);
        lemma_sum_inputs_prefix(s, i + 1);
    }
}

/// A prefix of the outputs sums to at most the whole.
pub proof fn lemma_sum_outputs_prefix(s: Seq<OutputV>, i: int)
    requires
        0 <= i <= s.len(),
    ensures
        sum_outputs(s.subrange(0, i)) <= sum_outputs(s),
    decreases s.len() - i,
{
    if i == s.len() {
        assert(s.subrange(0, i) =~= s);
    } else {
        assert(s.subrange(0, i + 1).drop_last() =~= s.subrange(0, i));
        assert(s.subrange(0, i + 1).last() == s[i]);
        lemma_sum_outputs_prefix(s, i + 1);
    }
}

/// The output sum takes one more output at the end.
pub proof fn lemma_sum_outputs_push(s: Seq<OutputV>, x: OutputV)
    ensures
        sum_outputs(s.push(x)) == sum_outputs(s) + x.value.0,
{
    assert(s.push(x).drop_last() =~= s);
    assert(s.push(x).last() == x);
}

/// The total of the values the inputs bring in; `ValueOverflow` exactly
/// when the sum leaves the 64-bit range.
pub(crate) fn total_input_value(v: &Vec<Input>) -> (r: Result<Value, Error>)
    ensures
        sum_inputs(v.deep_view()) <= u64::MAX ==> r == Ok::<Value, Error>(
            Value(sum_inputs(v.deep_view()) as u64),
        ),
        sum_inputs(v.deep_view()) > u64::MAX ==> r == Err::<Value, Error>(Error::ValueOverflow),
{
    let ghost dv = v.deep_view();
    let mut acc: u64 = 0;
    let mut i: usize = 0;
    proof {
        assert(dv.subrange(0, 0) =~= Seq::<InputV>::empty());
    }
    while i < v.len()
        invariant
            i <= dv.len(),
            dv == v.deep_view(),
            dv.len() == v@.len(),
            acc == sum_inputs(dv.subrange(0, i as int)),
        decreases dv.len() - i,
    {
        let value = v[i].value();
        proof {
            assert(dv[i as int] == v@[i as int].deep_view());
            assert(dv.subrange(0, i as int + 1).drop_last() =~= dv.subrange(0, i as int));
            assert(dv.subrange(0, i as int + 1).last() == dv[i as int]);
        }
        acc = match acc.checked_add(value.0) {
            Some(a) => a,
            None => {
                proof {
                    lemma_sum_inputs_prefix(dv, i as int + 1);
                }
                return Err(Error::ValueOverflow);
            },
        };
        i = i + 1;
    }
    proof {
        assert(dv.subrange(0, dv.len() as int) =~= dv);
    }
    Ok(Value(acc))
}

/// The total of the values the outputs spend; `ValueOverflow` exactly
/// when the sum leaves the 64-bit range.
pub(crate) fn total_output_value(v: &Vec<Output>) -> (r: Result<Value, Error>)
    ensures
        sum_outputs(v.deep_view()) <= u64::MAX ==> r == Ok::<Value, Error>(
            Value(sum_outputs(v.deep_view()) as u64),
        ),
        sum_outputs(v.deep_view()) > u64::MAX ==> r == Err::<Value, Error>(Error::ValueOverflow),
{
    let ghost dv = v.deep_view();
    let mut acc: u64 = 0;
    let mut i: usize = 0;
    proof {
        assert(dv.subrange(0, 0) =~= Seq::<OutputV>::empty());
    }
    while i < v.len()
        invariant
            i <= dv.len(),
            dv == v.deep_view(),
            dv.len() == v@.len(),
            acc == sum_outputs(dv.subrange(0, i as int)),
        decreases dv.len() - i,
    {
        let value = v[i].value();
        proof {
            assert(dv[i as int] == v@[i as int].deep_view());
            assert(dv.subrange(0, i as int + 1).drop_last() =~= dv.subrange(0, i as int));
            assert(dv.subrange(0, i as int + 1).last() == dv[i as int]);
        }
        acc = match acc.checked_add(value.0) {
            Some(a) => a,
            None => {
                proof {
                    lemma_sum_outputs_prefix(dv, i as int + 1);
                }
                return Err(Error::ValueOverflow);
            },
        };
        i = i + 1;
    }
    proof {
        assert(dv.subrange(0, dv.len() as int) =~= dv);
    }
    Ok(Value(acc))
}

/// What to do with surplus value at finalization: absorb it into the fee,
/// or send it to one change address.
#[derive(Debug, PartialEq, Eq)]
pub enum OutputPolicy {
    Forget,
    One(Address),
}

/// The mathematical content of an output policy.
#[verifier::ext_equal]
pub enum OutputPolicyV {
    Forget,
    One(AddressV),
}

impl View for OutputPolicy {
    type V = OutputPolicyV;

    open spec fn view(&self) -> OutputPolicyV {
        match self {
            OutputPolicy::Forget => OutputPolicyV::Forget,
            OutputPolicy::One(a) => OutputPolicyV::One(a@),
        }
    }
}

impl OutputPolicy {
    /// The change address, when there is one, names 32-byte keys.
    pub open spec fn wf(&self) -> bool {
        match self@ {
            OutputPolicyV::Forget => true,
            OutputPolicyV::One(a) => a.wf(),
        }
    }

    /// Absorb the surplus into the fee.
    pub fn forget() -> (r: OutputPolicy)
        ensures
            r@ is Forget,
            r.wf(),
    {
        OutputPolicy::Forget
    }

    /// Send the surplus to the given address.
    pub fn one(address: Address) -> (r: OutputPolicy)
        requires
            address.wf(),
        ensures
            r@ == OutputPolicyV::One(address@),
            r.wf(),
    {
        OutputPolicy::One(address)
    }
}

/// The fee a linear policy asks of a transaction's shape.
pub open spec fn spec_tx_fee(t: TransactionV, f: LinearFee) -> int {
    spec_linear_fee(f, t.inputs.len() as int, t.outputs.len() as int, t.extra is Some)
}

/// What finalization yields, as a function of the transaction's content,
/// the fee parameters and the output policy. The fee is computed, the
/// balance settled; a deficit fails, an exact balance passes the content
/// through, and a surplus is absorbed by the fee or, under `One`, paid to
/// the change address after the fee is recomputed for the larger output
/// count — the change output absorbing the difference.
pub open spec fn spec_finalize(t: TransactionV, f: LinearFee, p: OutputPolicyV) -> Result<
    TransactionV,
    Error,
> {
    let si = sum_inputs(t.inputs);
    let so = sum_outputs(t.outputs);
    let f0 = spec_tx_fee(t, f);
    if f0 > u64::MAX || si > u64::MAX || so > u64::MAX || so + f0 > u64::MAX {
        Err(Error::ValueOverflow)
    } else if si < so + f0 {
        Err(Error::InsufficientFunds)
    } else if si == so + f0 {
        Ok(t)
    } else {
        match p {
            OutputPolicyV::Forget => Ok(t),
            OutputPolicyV::One(addr) => {
                let f1 = spec_linear_fee(
                    f,
                    t.inputs.len() as int,
                    t.outputs.len() as int + 1,
                    t.extra is Some,
                );
                if f1 > u64::MAX {
                    Err(Error::ValueOverflow)
                } else if si >= so + f1 {
                    Ok(
                        TransactionV {
                            inputs: t.inputs,
                            outputs: t.outputs.push(
                                OutputV { address: addr, value: Value((si - so - f1) as u64) },
                            ),
                            extra: t.extra,
                        },
                    )
                } else {
                    Err(Error::InsufficientFunds)
                }
            },
        }
    }
}

/// The mutable accumulator: a transaction in progress. Created empty,
/// it takes inputs and outputs in any order and at most one certificate;
/// finalization consumes it.
#[derive(Debug, PartialEq, Eq)]
pub struct TransactionBuilder {
    pub tx: Transaction,
}

impl View for TransactionBuilder {
    type V = TransactionV;

    open spec fn view(&self) -> TransactionV {
        self.tx@
    }
}

impl TransactionBuilder {
    /// Every output address accumulated so far is well formed.
    pub open spec fn wf(&self) -> bool {
        self.tx.wf()
    }

    /// An empty builder: no inputs, no outputs, no certificate.
    pub fn new() -> (r: TransactionBuilder)
        ensures
            r@.inputs == Seq::<InputV>::empty(),
            r@.outputs == Seq::<OutputV>::empty(),
            r@.extra is None,
            r.wf(),
    {
        let r = TransactionBuilder {
            tx: Transaction { inputs: Vec::new(), outputs: Vec::new(), extra: None },
        };
        proof {
            assert(r@.inputs =~~= Seq::<InputV>::empty());
            assert(r@.outputs =~~= Seq::<OutputV>::empty());
        }
        r
    }

    /// Appends an input; always legal while building.
    pub fn add_input(&mut self, input: Input)
        ensures
            final(self)@.inputs == old(self)@.inputs.push(input@),
            final(self)@.outputs == old(self)@.outputs,
            final(self)@.extra == old(self)@.extra,
            final(self).wf() == old(self).wf(),
    {
        let ghost prev = self@.inputs;
        self.tx.inputs.push(input);
        proof {
            let dv = self.tx.inputs.deep_view();
            assert forall|j: int| 0 <= j < dv.len() implies dv[j] == prev.push(input@)[j] by {
                assert(dv[j] == self.tx.inputs@[j].deep_view());
                if j < prev.len() {
                    assert(prev[j] == old(self).tx.inputs@[j].deep_view());
                }
            }
            assert(dv =~~= prev.push(input@));
        }
    }

    /// Appends an output paying `value` to `address`; always legal while
    /// building.
    pub fn add_output(&mut self, address: Address, value: Value)
        requires
            address.wf(),
        ensures
            final(self)@.inputs == old(self)@.inputs,
            final(self)@.outputs == old(self)@.outputs.push(
                OutputV { address: address@, value },
            ),
            final(self)@.extra == old(self)@.extra,
            old(self).wf() ==> final(self).wf(),
    {
        let ghost prev = self@.outputs;
        let ghost av = address@;
        self.tx.outputs.push(Output { address, value });
        proof {
            let x = OutputV { address: av, value };
            let dv = self.tx.outputs.deep_view();
            assert forall|j: int| 0 <= j < dv.len() implies dv[j] == prev.push(x)[j] by {
                assert(dv[j] == self.tx.outputs@[j].deep_view());
                if j < prev.len() {
                    assert(prev[j] == old(self).tx.outputs@[j].deep_view());
                }
            }
            assert(dv =~~= prev.push(x));
        }
    }

    /// Sets the certificate; fails with `DuplicateCertificate`, leaving
    /// the builder unchanged, when one is already set.
    pub fn set_certificate(&mut self, certificate: Certificate) -> (r: Result<(), Error>)
        ensures
            old(self)@.extra is Some ==> r == Err::<(), Error>(Error::DuplicateCertificate)
                && final(self)@ == old(self)@,
            old(self)@.extra is None ==> r == Ok::<(), Error>(()) && final(self)@ == (
            TransactionV {
                inputs: old(self)@.inputs,
                outputs: old(self)@.outputs,
                extra: Some(certificate@),
            }),
            final(self).wf() == old(self).wf(),
    {
        match &self.tx.extra {
            Some(_) => Err(Error::DuplicateCertificate),
            None => {
                self.tx.extra = Some(certificate);
                Ok(())
            },
        }
    }

    /// The fee the policy asks of the transaction as it stands;
    /// `ValueOverflow` exactly when the quantity leaves the 64-bit range.
    pub fn estimate_fee(&self, fee: &Fee) -> (r: Result<Value, Error>)
        ensures
            spec_tx_fee(self@, fee.spec_linear()) <= u64::MAX ==> r == Ok::<Value, Error>(
                Value(spec_tx_fee(self@, fee.spec_linear()) as u64),
            ),
            spec_tx_fee(self@, fee.spec_linear()) > u64::MAX ==> r == Err::<Value, Error>(
                Error::ValueOverflow,
            ),
    {
        let f = match &fee.0 {
            FeeVariant::Linear(f) => *f,
        };
        let has_certificate = match &self.tx.extra {
            Some(_) => true,
            None => false,
        };
        match compute_linear_fee(
            &f,
            self.tx.inputs.len(),
            self.tx.outputs.len(),
            0,
            has_certificate,
        ) {
            Some(v) => Ok(v),
            None => Err(Error::ValueOverflow),
        }
    }

    /// The balance of inputs against outputs alone, the fee left aside;
    /// `ValueOverflow` exactly when either sum leaves the 64-bit range.
    pub fn get_balance_without_fee(&self) -> (r: Result<Balance, Error>)
        ensures
            ({
                let si = sum_inputs(self@.inputs);
                let so = sum_outputs(self@.outputs);
                &&& (si <= u64::MAX && so <= u64::MAX) ==> r == Ok::<Balance, Error>(
                    spec_balance(si, so),
                )
                &&& (si > u64::MAX || so > u64::MAX) ==> r == Err::<Balance, Error>(
                    Error::ValueOverflow,
                )
            }),
    {
        proof {
            lemma_sum_inputs_nonneg(self@.inputs);
            lemma_sum_outputs_nonneg(self@.outputs);
        }
        let si = total_input_value(&self.tx.inputs)?;
        let so = total_output_value(&self.tx.outputs)?;
        if si.0 > so.0 {
            Ok(Balance::Positive(Value(si.0 - so.0)))
        } else if si.0 < so.0 {
            Ok(Balance::Negative(Value(so.0 - si.0)))
        } else {
            Ok(Balance::Zero)
        }
    }

    /// The balance of inputs against outputs plus the policy's fee;
    /// `ValueOverflow` exactly when a sum or the fee leaves the 64-bit
    /// range.
    pub fn get_balance(&self, fee: &Fee) -> (r: Result<Balance, Error>)
        ensures
            ({
                let si = sum_inputs(self@.inputs);
                let so = sum_outputs(self@.outputs);
                let f0 = spec_tx_fee(self@, fee.spec_linear());
                &&& (si <= u64::MAX && so <= u64::MAX && f0 <= u64::MAX && so + f0 <= u64::MAX)
                    ==> r == Ok::<Balance, Error>(spec_balance(si, so + f0))
                &&& (si > u64::MAX || so > u64::MAX || f0 > u64::MAX || so + f0 > u64::MAX) ==> r
                    == Err::<Balance, Error>(Error::ValueOverflow)
            }),
    {
        proof {
            lemma_sum_inputs_nonneg(self@.inputs);
            lemma_sum_outputs_nonneg(self@.outputs);
        }
        let f0 = self.estimate_fee(fee)?;
        let si = total_input_value(&self.tx.inputs)?;
        let so = total_output_value(&self.tx.outputs)?;
        let spending = so.checked_add(&f0)?;
        if si.0 > spending.0 {
            Ok(Balance::Positive(Value(si.0 - spending.0)))
        } else if si.0 < spending.0 {
            Ok(Balance::Negative(Value(spending.0 - si.0)))
        } else {
            Ok(Balance::Zero)
        }
    }

    /// The content identifier of the transaction as it stands; it changes
    /// whenever an input, an output or the certificate is added.
    pub fn get_txid(&self) -> (r: TransactionSignDataHash)
        requires
            self.wf(),
        ensures
            r@ == spec_txid(self@),
            r.wf(),
    {
        self.tx.id()
    }

    /// The transaction exactly as accumulated: no fee or balance check.
    pub fn unchecked_finalize(self) -> (r: Transaction)
        ensures
            r == self.tx,
    {
        self.tx
    }

    /// Settles the balance and yields the immutable transaction, exactly
    /// as `spec_finalize` lays down: a deficit fails with
    /// `InsufficientFunds`; an exact balance, or a surplus under `Forget`,
    /// passes the accumulated content through; a surplus under `One` adds
    /// a change output absorbing what the recomputed fee leaves.
    pub fn finalize(self, fee: &Fee, output_policy: OutputPolicy) -> (r: Result<
        Transaction,
        Error,
    >)
        requires
            self.wf(),
            output_policy.wf(),
        ensures
            spec_finalize(self@, fee.spec_linear(), output_policy@) matches Ok(m) ==> (r matches Ok(
                t,
            ) && t@ == m && t.wf()),
            spec_finalize(self@, fee.spec_linear(), output_policy@) matches Err(e) ==> r == Err::<
                Transaction,
                Error,
            >(e),
    {
        proof {
            lemma_sum_inputs_nonneg(self@.inputs);
            lemma_sum_outputs_nonneg(self@.outputs);
        }
        let f = match &fee.0 {
            FeeVariant::Linear(f) => *f,
        };
        let has_certificate = match &self.tx.extra {
            Some(_) => true,
            None => false,
        };
        let n_inputs = self.tx.inputs.len();
        let n_outputs = self.tx.outputs.len();
        let f0 = match compute_linear_fee(&f, n_inputs, n_outputs, 0, has_certificate) {
            Some(v) => v,
            None => {
                return Err(Error::ValueOverflow);
            },
        };
        let si = total_input_value(&self.tx.inputs)?;
        let so = total_output_value(&self.tx.outputs)?;
        let spending = match so.checked_add(&f0) {
            Ok(v) => v,
            Err(_) => {
                return Err(Error::ValueOverflow);
            },
        };
        if si.0 < spending.0 {
            return Err(Error::InsufficientFunds);
        }
        if si.0 == spending.0 {
            return Ok(self.tx);
        }
        match output_policy {
            OutputPolicy::Forget => Ok(self.tx),
            OutputPolicy::One(addr) => {
                let f1 = match compute_linear_fee(&f, n_inputs, n_outputs, 1, has_certificate) {
                    Some(v) => v,
                    None => {
                        return Err(Error::ValueOverflow);
                    },
                };
                let spending1 = match so.checked_add(&f1) {
                    Ok(v) => v,
                    Err(_) => {
                        return Err(Error::InsufficientFunds);
                    },
                };
                if si.0 < spending1.0 {
                    return Err(Error::InsufficientFunds);
                }
                let change = Value(si.0 - spending1.0);
                let ghost prev = self@;
                let ghost av = addr@;
                let mut tx = self.tx;
                let ghost before = tx.outputs@;
                tx.outputs.push(Output { address: addr, value: change });
                proof {
                    let x = OutputV { address: av, value: change };
                    let dv = tx.outputs.deep_view();
                    assert forall|j: int| 0 <= j < dv.len() implies dv[j] == prev.outputs.push(
                        x,
                    )[j] by {
                        assert(dv[j] == tx.outputs@[j].deep_view());
                        if j < prev.outputs.len() {
                            assert(prev.outputs[j] == before[j].deep_view());
                        }
                    }
                    assert(dv =~~= prev.outputs.push(x));
                    assert(tx@ =~~= spec_finalize(prev, f, OutputPolicyV::One(av)).unwrap());
                    assert forall|k: int|
                        0 <= k < tx@.outputs.len() implies (#[trigger] tx@.outputs[k]).address.wf()
                    by {
                        if k < prev.outputs.len() {
                            assert(prev.outputs[k].address.wf());
                        }
                    }
                }
                Ok(tx)
            },
        }
    }
}

/// Balancing law under `Forget`: a finalized transaction keeps its
/// outputs, and the fee it actually pays — the whole difference between
/// inputs and outputs — covers the policy's fee. With the surplus read as
/// part of the fee, the inputs equal the outputs plus that fee exactly.
pub proof fn lemma_finalize_forget_balanced(t: TransactionV, f: LinearFee, m: TransactionV)
    requires
        spec_finalize(t, f, OutputPolicyV::Forget) == Ok::<TransactionV, Error>(m),
    ensures
        m == t,
        sum_inputs(m.inputs) >= sum_outputs(m.outputs) + spec_tx_fee(m, f),
{
}

/// Balancing law under `One`: a finalized transaction keeps its inputs
/// and certificate, and either the balance was already exact, or one
/// change output to the given address was appended; in both cases the
/// inputs equal the outputs plus the recomputed fee, exactly.
pub proof fn lemma_finalize_one_balanced(
    t: TransactionV,
    f: LinearFee,
    addr: AddressV,
    m: TransactionV,
)
    requires
        spec_finalize(t, f, OutputPolicyV::One(addr)) == Ok::<TransactionV, Error>(m),
    ensures
        m.inputs == t.inputs,
        m.extra == t.extra,
        m.outputs.len() == t.outputs.len() || m.outputs.len() == t.outputs.len() as int + 1,
        m.outputs.len() == t.outputs.len() ==> m == t && sum_inputs(m.inputs) == sum_outputs(
            m.outputs,
        ) + spec_tx_fee(m, f),
        m.outputs.len() == t.outputs.len() + 1 ==> m.outputs.last().address == addr && sum_inputs(
            m.inputs,
        ) == sum_outputs(m.outputs) + spec_tx_fee(m, f),
{
    let si = sum_inputs(t.inputs);
    let so = sum_outputs(t.outputs);
    let f0 = spec_tx_fee(t, f);
    if si == so + f0 {
    } else {
        let f1 = spec_linear_fee(f, t.inputs.len() as int, t.outputs.len() as int + 1, t.extra is Some);
        lemma_sum_inputs_nonneg(t.inputs);
        lemma_sum_outputs_nonneg(t.outputs);
        crate::fee::lemma_linear_fee_nonneg(
            f,
            t.inputs.len() as int,
            t.outputs.len() as int + 1,
            t.extra is Some,
        );
        let x = OutputV { address: addr, value: Value((si - so - f1) as u64) };
        assert(m.outputs == t.outputs.push(x));
        lemma_sum_outputs_push(t.outputs, x);
        assert(m.outputs.last() == x);
        assert(sum_outputs(m.outputs) == so + (si - so - f1));
        assert(spec_tx_fee(m, f) == f1);
    }
}

/// A deficit law: whenever no sum overflows and the inputs fall short of
/// the outputs plus the policy's fee, finalization fails with
/// `InsufficientFunds`, under either output policy.
pub proof fn lemma_finalize_insufficient(t: TransactionV, f: LinearFee, p: OutputPolicyV)
    requires
        sum_inputs(t.inputs) <= u64::MAX,
        sum_outputs(t.outputs) <= u64::MAX,
        spec_tx_fee(t, f) <= u64::MAX,
        sum_outputs(t.outputs) + spec_tx_fee(t, f) <= u64::MAX,
        sum_inputs(t.inputs) < sum_outputs(t.outputs) + spec_tx_fee(t, f),
    ensures
        spec_finalize(t, f, p) == Err::<TransactionV, Error>(Error::InsufficientFunds),
{
}

} // verus!
