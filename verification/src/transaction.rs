//! The transaction model: inputs drawn from unspent outputs or accounts,
//! outputs paying addresses, an optional certificate, and the immutable
//! transaction with its content identifier.

use vstd::prelude::*;
use vstd::string::StringExecFns;
use crate::address::{spec_address_bytes, Account, Address, AddressV};
use crate::certificate::{spec_encode_certificate, Certificate, CertificateV};
use crate::codec::{append_bytes, be64, push_be64};
use crate::digest::{FragmentId, TransactionSignDataHash};
use crate::error::Error;
use crate::provider::{blake2b_256, blake2b_256_of};
use crate::value::Value;

verus! {

/// A pointer to an unspent output: the fragment that created it, the
/// output's index there, and the value the spender asserts it holds.
#[derive(Debug, PartialEq, Eq)]
pub struct UtxoPointer {
    pub transaction_id: FragmentId,
    pub output_index: u8,
    pub value: Value,
}

/// The mathematical content of an unspent-output pointer.
#[verifier::ext_equal]
pub struct UtxoPointerV {
    pub transaction_id: Seq<u8>,
    pub output_index: u8,
    pub value: Value,
}

impl View for UtxoPointer {
    type V = UtxoPointerV;

    open spec fn view(&self) -> UtxoPointerV {
        UtxoPointerV {
            transaction_id: self.transaction_id@,
            output_index: self.output_index,
            value: self.value,
        }
    }
}

impl UtxoPointer {
    /// The pointer holds a 32-byte fragment identifier.
    pub open spec fn wf(&self) -> bool {
        self.transaction_id.wf()
    }

    /// A pointer from its parts.
    pub fn new(fragment_id: FragmentId, output_index: u8, value: Value) -> (r: UtxoPointer)
        ensures
            r@ == (UtxoPointerV { transaction_id: fragment_id@, output_index, value }),
    {
        UtxoPointer { transaction_id: fragment_id, output_index, value }
    }
}

impl Clone for UtxoPointer {
    /// A copy naming the same output.
    fn clone(&self) -> (r: Self)
        ensures
            r@ == self@,
    {
        UtxoPointer {
            transaction_id: self.transaction_id.clone(),
            output_index: self.output_index,
            value: self.value,
        }
    }
}

/// The two kinds of input: an unspent output, or a withdrawal from an
/// account.
#[derive(Debug, PartialEq, Eq)]
pub enum InputKind {
    Utxo(UtxoPointer),
    Account(Account, Value),
}

/// A source of value for a transaction: exactly one of the two kinds.
#[derive(Debug, PartialEq, Eq)]
pub struct Input {
    pub kind: InputKind,
}

/// The mathematical content of an input.
#[verifier::ext_equal]
pub enum InputV {
    Utxo(UtxoPointerV),
    Account(Seq<u8>, Value),
}

impl View for Input {
    type V = InputV;

    open spec fn view(&self) -> InputV {
        match self.kind {
            InputKind::Utxo(p) => InputV::Utxo(p@),
            InputKind::Account(a, v) => InputV::Account(a@, v),
        }
    }
}

impl DeepView for Input {
    type V = InputV;

    open spec fn deep_view(&self) -> InputV {
        self@
    }
}

impl InputV {
    /// The value the input brings in.
    pub open spec fn value(&self) -> Value {
        match self {
            InputV::Utxo(p) => p.value,
            InputV::Account(_, v) => *v,
        }
    }
}

impl Input {
    /// An input spending an unspent output.
    pub fn from_utxo(utxo_pointer: &UtxoPointer) -> (r: Input)
        ensures
            r@ == InputV::Utxo(utxo_pointer@),
    {
        Input { kind: InputKind::Utxo(utxo_pointer.clone()) }
    }

    /// An input withdrawing `v` from an account.
    pub fn from_account(account: &Account, v: Value) -> (r: Input)
        ensures
            r@ == InputV::Account(account@, v),
    {
        Input { kind: InputKind::Account(account.clone(), v) }
    }

    /// The kind of the input, as text: `Utxo` or `Account`.
    pub fn get_type(&self) -> (r: String)
        ensures
            self@ is Utxo ==> r@ == "Utxo"@,
            self@ is Account ==> r@ == "Account"@,
    {
        match &self.kind {
            InputKind::Utxo(_) => String::from_str("Utxo"),
            InputKind::Account(_, _) => String::from_str("Account"),
        }
    }

    /// The value the input brings in.
    pub fn value(&self) -> (r: Value)
        ensures
            r == self@.value(),
    {
        match &self.kind {
            InputKind::Utxo(p) => p.value,
            InputKind::Account(_, v) => *v,
        }
    }

    /// The unspent-output pointer of a utxo input; an account input fails
    /// with `WrongInputKind`.
    pub fn get_utxo_pointer(&self) -> (r: Result<UtxoPointer, Error>)
        ensures
            self@ matches InputV::Utxo(p) ==> (r matches Ok(q) && q@ == p),
            self@ is Account ==> r == Err::<UtxoPointer, Error>(Error::WrongInputKind),
    {
        match &self.kind {
            InputKind::Utxo(p) => Ok(p.clone()),
            InputKind::Account(_, _) => Err(Error::WrongInputKind),
        }
    }

    /// The account of an account input; a utxo input fails with
    /// `WrongInputKind`.
    pub fn get_account(&self) -> (r: Result<Account, Error>)
        ensures
            self@ matches InputV::Account(a, _) ==> (r matches Ok(b) && b@ == a),
            self@ is Utxo ==> r == Err::<Account, Error>(Error::WrongInputKind),
    {
        match &self.kind {
            InputKind::Account(a, _) => Ok(a.clone()),
            InputKind::Utxo(_) => Err(Error::WrongInputKind),
        }
    }
}

impl Clone for Input {
    /// A copy drawing on the same source.
    fn clone(&self) -> (r: Self)
        ensures
            r@ == self@,
    {
        match &self.kind {
            InputKind::Utxo(p) => Input { kind: InputKind::Utxo(p.clone()) },
            InputKind::Account(a, v) => Input { kind: InputKind::Account(a.clone(), *v) },
        }
    }
}

/// A destination of value: an address and the value paid to it.
#[derive(Debug, PartialEq, Eq)]
pub struct Output {
    pub address: Address,
    pub value: Value,
}

/// The mathematical content of an output.
#[verifier::ext_equal]
pub struct OutputV {
    pub address: AddressV,
    pub value: Value,
}

impl View for Output {
    type V = OutputV;

    open spec fn view(&self) -> OutputV {
        OutputV { address: self.address@, value: self.value }
    }
}

impl DeepView for Output {
    type V = OutputV;

    open spec fn deep_view(&self) -> OutputV {
        self@
    }
}

impl Output {
    /// The address paid.
    pub fn address(&self) -> (r: Address)
        ensures
            r@ == self@.address,
    {
        self.address.clone()
    }

    /// The value paid.
    pub fn value(&self) -> (r: Value)
        ensures
            r == self@.value,
    {
        self.value
    }
}

impl Clone for Output {
    /// A copy paying the same address the same value.
    fn clone(&self) -> (r: Self)
        ensures
            r@ == self@,
    {
        Output { address: self.address.clone(), value: self.value }
    }
}

/// An immutable transaction: ordered inputs, ordered outputs, and at most
/// one certificate. The input order is significant: it fixes which witness
/// index authorizes which input.
#[derive(Debug, PartialEq, Eq)]
pub struct Transaction {
    pub inputs: Vec<Input>,
    pub outputs: Vec<Output>,
    pub extra: Option<Certificate>,
}

/// The mathematical content of a transaction.
#[verifier::ext_equal]
pub struct TransactionV {
    pub inputs: Seq<InputV>,
    pub outputs: Seq<OutputV>,
    pub extra: Option<CertificateV>,
}

impl View for Transaction {
    type V = TransactionV;

    open spec fn view(&self) -> TransactionV {
        TransactionV {
            inputs: self.inputs.deep_view(),
            outputs: self.outputs.deep_view(),
            extra: match self.extra {
                Some(c) => Some(c@),
                None => None,
            },
        }
    }
}

/// The byte layout of one input: a kind tag, the source, the value.
pub open spec fn spec_encode_input(i: InputV) -> Seq<u8> {
    match i {
        InputV::Utxo(p) => seq![0u8] + p.transaction_id + seq![p.output_index] + be64(p.value.0),
        InputV::Account(a, v) => seq![1u8] + a + be64(v.0),
    }
}

/// The byte layout of an input sequence.
pub open spec fn spec_encode_inputs(s: Seq<InputV>) -> Seq<u8>
    decreases s.len(),
{
    if s.len() == 0 {
        Seq::empty()
    } else {
        spec_encode_input(s[0]) + spec_encode_inputs(s.drop_first())
    }
}

/// The input layout takes one more input at the end.
pub proof fn lemma_encode_inputs_push(s: Seq<InputV>, x: InputV)
    ensures
        spec_encode_inputs(s.push(x)) == spec_encode_inputs(s) + spec_encode_input(x),
    decreases s.len(),
{
    if s.len() == 0 {
        assert(s.push(x).drop_first() =~= Seq::<InputV>::empty());
        assert(s.push(x)[0] == x);
        assert(spec_encode_inputs(Seq::<InputV>::empty()) == Seq::<u8>::empty());
        assert(spec_encode_inputs(s.push(x)) =~= spec_encode_input(x));
        assert(spec_encode_inputs(s) + spec_encode_input(x) =~= spec_encode_input(x));
    } else {
        lemma_encode_inputs_push(s.drop_first(), x);
        assert(s.push(x).drop_first() =~= s.drop_first().push(x));
        assert(s.push(x)[0] == s[0]);
        assert(spec_encode_input(s[0]) + (spec_encode_inputs(s.drop_first()) + spec_encode_input(
            x,
        )) =~= (spec_encode_input(s[0]) + spec_encode_inputs(s.drop_first())) + spec_encode_input(
            x,
        ));
    }
}

/// The byte layout of one output: the address layout, then the value.
pub open spec fn spec_encode_output(o: OutputV) -> Seq<u8> {
    spec_address_bytes(o.address) + be64(o.value.0)
}

/// The byte layout of an output sequence.
pub open spec fn spec_encode_outputs(s: Seq<OutputV>) -> Seq<u8>
    decreases s.len(),
{
    if s.len() == 0 {
        Seq::empty()
    } else {
        spec_encode_output(s[0]) + spec_encode_outputs(s.drop_first())
    }
}

/// The output layout takes one more output at the end.
pub proof fn lemma_encode_outputs_push(s: Seq<OutputV>, x: OutputV)
    ensures
        spec_encode_outputs(s.push(x)) == spec_encode_outputs(s) + spec_encode_output(x),
    decreases s.len(),
{
    if s.len() == 0 {
        assert(s.push(x).drop_first() =~= Seq::<OutputV>::empty());
        assert(s.push(x)[0] == x);
        assert(spec_encode_outputs(Seq::<OutputV>::empty()) == Seq::<u8>::empty());
        assert(spec_encode_outputs(s.push(x)) =~= spec_encode_output(x));
        assert(spec_encode_outputs(s) + spec_encode_output(x) =~= spec_encode_output(x));
    } else {
        lemma_encode_outputs_push(s.drop_first(), x);
        assert(s.push(x).drop_first() =~= s.drop_first().push(x));
        assert(s.push(x)[0] == s[0]);
        assert(spec_encode_output(s[0]) + (spec_encode_outputs(s.drop_first())
            + spec_encode_output(x)) =~= (spec_encode_output(s[0]) + spec_encode_outputs(
            s.drop_first(),
        )) + spec_encode_output(x));
    }
}

/// The byte layout of a whole transaction: the input count and inputs,
/// the output count and outputs, then a certificate marker and, when one
/// is present, the certificate. Witnesses never appear here: the content
/// identifier must not change when they are attached.
pub open spec fn spec_encode_tx(t: TransactionV) -> Seq<u8> {
    be64(t.inputs.len() as u64) + spec_encode_inputs(t.inputs) + be64(t.outputs.len() as u64)
        + spec_encode_outputs(t.outputs) + match t.extra {
        None => seq![0u8],
        Some(c) => seq![1u8] + spec_encode_certificate(c),
    }
}

/// The content identifier of a transaction: the digest of its layout, a
/// pure function of inputs, outputs and certificate.
pub open spec fn spec_txid(t: TransactionV) -> Seq<u8> {
    blake2b_256_of(spec_encode_tx(t))
}

/// Appends the byte layout of one input.
pub(crate) fn encode_input(out: &mut Vec<u8>, i: &Input)
    ensures
        final(out)@ == old(out)@ + spec_encode_input(i@),
{
    match &i.kind {
        InputKind::Utxo(p) => {
            out.push(0);
            append_bytes(out, p.transaction_id.bytes.as_slice());
            out.push(p.output_index);
            push_be64(out, p.value.0);
        },
        InputKind::Account(a, v) => {
            out.push(1);
            append_bytes(out, a.id.as_slice());
            push_be64(out, v.0);
        },
    }
    proof {
        assert(out@ =~= old(out)@ + spec_encode_input(i@));
    }
}

/// Appends the byte layout of one output.
pub(crate) fn encode_output(out: &mut Vec<u8>, o: &Output)
    requires
        o.address.wf(),
    ensures
        final(out)@ == old(out)@ + spec_encode_output(o@),
{
    let address = o.address.to_bytes();
    append_bytes(out, address.as_slice());
    push_be64(out, o.value.0);
    proof {
        assert(out@ =~= old(out)@ + spec_encode_output(o@));
    }
}

impl Transaction {
    /// Every output address of the transaction is well formed.
    pub open spec fn wf(&self) -> bool {
        forall|i: int| 0 <= i < self@.outputs.len() ==> (#[trigger] self@.outputs[i]).address.wf()
    }

    /// The byte layout of the transaction.
    pub fn to_bytes(&self) -> (r: Vec<u8>)
        requires
            self.wf(),
        ensures
            r@ == spec_encode_tx(self@),
    {
        let mut out: Vec<u8> = Vec::new();
        push_be64(&mut out, self.inputs.len() as u64);
        let ghost iv = self@.inputs;
        let mut i: usize = 0;
        while i < self.inputs.len()
            invariant
                i <= iv.len(),
                iv == self@.inputs,
                iv.len() == self.inputs@.len(),
                out@ == be64(iv.len() as u64) + spec_encode_inputs(iv.subrange(0, i as int)),
            decreases iv.len() - i,
        {
            encode_input(&mut out, &self.inputs[i]);
            proof {
                assert(iv.subrange(0, i as int + 1) =~= iv.subrange(0, i as int).push(
                    iv[i as int],
                ));
                assert(self.inputs@[i as int].deep_view() == iv[i as int]);
                lemma_encode_inputs_push(iv.subrange(0, i as int), iv[i as int]);
            }
            i = i + 1;
        }
        proof {
            assert(iv.subrange(0, iv.len() as int) =~= iv);
        }
        push_be64(&mut out, self.outputs.len() as u64);
        let ghost mid = out@;
        let ghost ov = self@.outputs;
        proof {
            assert forall|k: int|
                0 <= k < self.outputs@.len() implies (#[trigger] self.outputs@[k]).address.wf() by {
                assert(self@.outputs[k] == self.outputs@[k].deep_view());
            }
            assert(mid + spec_encode_outputs(ov.subrange(0, 0)) =~= mid);
        }
        let mut j: usize = 0;
        while j < self.outputs.len()
            invariant
                j <= ov.len(),
                ov == self@.outputs,
                ov.len() == self.outputs@.len(),
                forall|k: int|
                    0 <= k < self.outputs@.len() ==> (#[trigger] self.outputs@[k]).address.wf(),
                out@ == mid + spec_encode_outputs(ov.subrange(0, j as int)),
            decreases ov.len() - j,
        {
            proof {
                assert(self.outputs@[j as int].deep_view() == ov[j as int]);
            }
            encode_output(&mut out, &self.outputs[j]);
            proof {
                assert(ov.subrange(0, j as int + 1) =~= ov.subrange(0, j as int).push(
                    ov[j as int],
                ));
                lemma_encode_outputs_push(ov.subrange(0, j as int), ov[j as int]);
            }
            j = j + 1;
        }
        proof {
            assert(ov.subrange(0, ov.len() as int) =~= ov);
        }
        match &self.extra {
            None => {
                out.push(0);
            },
            Some(c) => {
                out.push(1);
                let cert = match c.as_bytes() {
                    Ok(b) => b,
                    Err(_) => {
                        proof {
                            assert(false);
                        }
                        Vec::new()
                    },
                };
                append_bytes(&mut out, cert.as_slice());
            },
        }
        proof {
            assert(spec_encode_inputs(iv.subrange(0, 0)) == Seq::<u8>::empty());
            assert(spec_encode_outputs(ov.subrange(0, 0)) == Seq::<u8>::empty());
            assert(out@ =~= spec_encode_tx(self@));
        }
        out
    }

    /// The content identifier: the digest of the layout. Stable under
    /// witnessing, and needed to compute each witness's signature.
    pub fn id(&self) -> (r: TransactionSignDataHash)
        requires
            self.wf(),
        ensures
            r@ == spec_txid(self@),
            r.wf(),
    {
        let bytes = self.to_bytes();
        TransactionSignDataHash { bytes: blake2b_256(bytes.as_slice()) }
    }

    /// Copies of the inputs, in order.
    pub fn inputs(&self) -> (r: Vec<Input>)
        ensures
            r.deep_view() == self@.inputs,
    {
        let mut v: Vec<Input> = Vec::new();
        let mut i: usize = 0;
        while i < self.inputs.len()
            invariant
                i <= self.inputs@.len(),
                v@.len() == i,
                forall|j: int| 0 <= j < i ==> (#[trigger] v@[j])@ == self.inputs@[j]@,
            decreases self.inputs@.len() - i,
        {
            v.push(self.inputs[i].clone());
            i = i + 1;
        }
        proof {
            let dv = v.deep_view();
            let sv = self@.inputs;
            assert forall|j: int| 0 <= j < sv.len() implies dv[j] == sv[j] by {
                assert(dv[j] == v@[j].deep_view());
                assert(sv[j] == self.inputs@[j].deep_view());
            }
            assert(dv =~~= sv);
        }
        v
    }

    /// Copies of the outputs, in order.
    pub fn outputs(&self) -> (r: Vec<Output>)
        ensures
            r.deep_view() == self@.outputs,
    {
        let mut v: Vec<Output> = Vec::new();
        let mut i: usize = 0;
        while i < self.outputs.len()
            invariant
                i <= self.outputs@.len(),
                v@.len() == i,
                forall|j: int| 0 <= j < i ==> (#[trigger] v@[j])@ == self.outputs@[j]@,
            decreases self.outputs@.len() - i,
        {
            v.push(self.outputs[i].clone());
            i = i + 1;
        }
        proof {
            let dv = v.deep_view();
            let sv = self@.outputs;
            assert forall|j: int| 0 <= j < sv.len() implies dv[j] == sv[j] by {
                assert(dv[j] == v@[j].deep_view());
                assert(sv[j] == self.outputs@[j].deep_view());
            }
            assert(dv =~~= sv);
        }
        v
    }
}

impl Clone for Transaction {
    /// A copy holding the same inputs, outputs and certificate.
    fn clone(&self) -> (r: Self)
        ensures
            r@ == self@,
    {
        let inputs = self.inputs();
        let outputs = self.outputs();
        let extra = match &self.extra {
            Some(c) => Some(c.clone()),
            None => None,
        };
        Transaction { inputs, outputs, extra }
    }
}

/// Two computations of the identifier on one unchanged transaction give
/// the same result: the identifier is a function of the content alone.
pub proof fn lemma_txid_stable(t: TransactionV, first: Seq<u8>, second: Seq<u8>)
    requires
        first == spec_txid(t),
        second == spec_txid(t),
    ensures
        first == second,
{
}

/// Transactions with different input counts have different layouts, so
/// the material the identifier digests changes whenever an input is
/// added.
pub proof fn lemma_encode_tx_distinguishes_input_count(t1: TransactionV, t2: TransactionV)
    requires
        t1.inputs.len() != t2.inputs.len(),
        t1.inputs.len() <= u64::MAX,
        t2.inputs.len() <= u64::MAX,
    ensures
        spec_encode_tx(t1) != spec_encode_tx(t2),
{
    let a = t1.inputs.len() as u64;
    let b = t2.inputs.len() as u64;
    if spec_encode_tx(t1) == spec_encode_tx(t2) {
        assert(spec_encode_tx(t1)[0] == (a >> 56) as u8);
        assert(spec_encode_tx(t1)[1] == (a >> 48) as u8);
        assert(spec_encode_tx(t1)[2] == (a >> 40) as u8);
        assert(spec_encode_tx(t1)[3] == (a >> 32) as u8);
        assert(spec_encode_tx(t1)[4] == (a >> 24) as u8);
        assert(spec_encode_tx(t1)[5] == (a >> 16) as u8);
        assert(spec_encode_tx(t1)[6] == (a >> 8) as u8);
        assert(spec_encode_tx(t1)[7] == a as u8);
        assert(spec_encode_tx(t2)[0] == (b >> 56) as u8);
        assert(spec_encode_tx(t2)[1] == (b >> 48) as u8);
        assert(spec_encode_tx(t2)[2] == (b >> 40) as u8);
        assert(spec_encode_tx(t2)[3] == (b >> 32) as u8);
        assert(spec_encode_tx(t2)[4] == (b >> 24) as u8);
        assert(spec_encode_tx(t2)[5] == (b >> 16) as u8);
        assert(spec_encode_tx(t2)[6] == (b >> 8) as u8);
        assert(spec_encode_tx(t2)[7] == b as u8);
        assert(((a >> 56) as u8 == (b >> 56) as u8 && (a >> 48) as u8 == (b >> 48) as u8 && (a
            >> 40) as u8 == (b >> 40) as u8 && (a >> 32) as u8 == (b >> 32) as u8 && (a >> 24) as u8
            == (b >> 24) as u8 && (a >> 16) as u8 == (b >> 16) as u8 && (a >> 8) as u8 == (b
            >> 8) as u8 && a as u8 == b as u8) ==> a == b) by (bit_vector);
        assert(false);
    }
}

/// Setting a certificate changes the layout: with the same inputs and
/// outputs, the certificate marker byte flips, so the material the
/// identifier digests changes.
pub proof fn lemma_encode_tx_distinguishes_certificate(t1: TransactionV, t2: TransactionV)
    requires
        t1.inputs == t2.inputs,
        t1.outputs == t2.outputs,
        t1.extra is None,
        t2.extra is Some,
    ensures
        spec_encode_tx(t1) != spec_encode_tx(t2),
{
    let k = be64(t1.inputs.len() as u64).len() + spec_encode_inputs(t1.inputs).len() + be64(
        t1.outputs.len() as u64,
    ).len() + spec_encode_outputs(t1.outputs).len();
    assert(spec_encode_tx(t1)[k as int] == 0u8);
    assert(spec_encode_tx(t2)[k as int] == 1u8);
}

} // verus!
