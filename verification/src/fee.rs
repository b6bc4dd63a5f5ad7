//! The fee policy and the balance: a linear fee algorithm over the input
//! and output counts and the certificate's presence, and the signed
//! difference between what a transaction brings in and what it spends.

use vstd::prelude::*;
use vstd::string::StringExecFns;
use crate::transaction::Transaction;
use crate::value::Value;

verus! {

/// The signed result of comparing total input value against total output
/// value plus fee. The sign is carried structurally; the wrapped quantity
/// is never negative.
#[derive(Clone, Copy, Debug, PartialEq, Eq, Structural)]
pub enum Balance {
    Positive(Value),
    Negative(Value),
    Zero,
}

/// The balance of `income` against `spending`.
pub open spec fn spec_balance(income: int, spending: int) -> Balance
    recommends
        0 <= income <= u64::MAX,
        0 <= spending <= u64::MAX,
{
    if income > spending {
        Balance::Positive(Value((income - spending) as u64))
    } else if income < spending {
        Balance::Negative(Value((spending - income) as u64))
    } else {
        Balance::Zero
    }
}

impl Balance {
    /// The sign, as text: `positive`, `negative` or `zero`.
    pub fn get_sign(&self) -> (r: String)
        ensures
            self is Positive ==> r@ == "positive"@,
            self is Negative ==> r@ == "negative"@,
            self is Zero ==> r@ == "zero"@,
    {
        match self {
            Balance::Positive(_) => String::from_str("positive"),
            Balance::Negative(_) => String::from_str("negative"),
            Balance::Zero => String::from_str("zero"),
        }
    }

    /// The wrapped quantity, without its sign; zero for `Zero`.
    pub fn get_value(&self) -> (r: Value)
        ensures
            self matches Balance::Positive(v) ==> r == v,
            self matches Balance::Negative(v) ==> r == v,
            self is Zero ==> r == Value(0),
    {
        match self {
            Balance::Positive(v) => *v,
            Balance::Negative(v) => *v,
            Balance::Zero => Value(0),
        }
    }
}

/// The parameters of the linear fee algorithm.
#[derive(Clone, Copy, Debug, PartialEq, Eq, Structural)]
pub struct LinearFee {
    pub constant: u64,
    pub coefficient: u64,
    pub certificate: u64,
}

/// The linear fee: the constant, plus the coefficient for every input and
/// output, plus the certificate fee when one is present.
pub open spec fn spec_linear_fee(
    f: LinearFee,
    n_inputs: int,
    n_outputs: int,
    has_certificate: bool,
) -> int {
    f.constant + f.coefficient * (n_inputs + n_outputs) + if has_certificate {
        f.certificate as int
    } else {
        0
    }
}

/// A linear fee is never negative.
pub proof fn lemma_linear_fee_nonneg(
    f: LinearFee,
    n_inputs: int,
    n_outputs: int,
    has_certificate: bool,
)
    requires
        n_inputs >= 0,
        n_outputs >= 0,
    ensures
        spec_linear_fee(f, n_inputs, n_outputs, has_certificate) >= 0,
{
    assert(f.coefficient * (n_inputs + n_outputs) >= 0) by (nonlinear_arith)
        requires
            f.coefficient >= 0,
            n_inputs + n_outputs >= 0,
    ;
}

/// The fee algorithms on offer; the linear one is the only variant.
#[derive(Clone, Copy, Debug, PartialEq, Eq, Structural)]
pub enum FeeVariant {
    Linear(LinearFee),
}

/// A fee policy: a pure function from the transaction's shape to a fee.
#[derive(Clone, Copy, Debug, PartialEq, Eq, Structural)]
pub struct Fee(pub FeeVariant);

impl Fee {
    /// The linear parameters of the policy.
    pub open spec fn spec_linear(&self) -> LinearFee {
        match self.0 {
            FeeVariant::Linear(f) => f,
        }
    }

    /// The linear algorithm with the given constant, per-element
    /// coefficient and certificate fee.
    pub fn linear_fee(constant: Value, coefficient: Value, certificate: Value) -> (r: Fee)
        ensures
            r.spec_linear() == (LinearFee {
                constant: constant.0,
                coefficient: coefficient.0,
                certificate: certificate.0,
            }),
    {
        Fee(
            FeeVariant::Linear(
                LinearFee {
                    constant: constant.0,
                    coefficient: coefficient.0,
                    certificate: certificate.0,
                },
            ),
        )
    }

    /// The fee the policy asks of a transaction; `None` exactly when the
    /// quantity leaves the 64-bit range.
    pub fn calculate(&self, tx: Transaction) -> (r: Option<Value>)
        ensures
            ({
                let fee = spec_linear_fee(
                    self.spec_linear(),
                    tx@.inputs.len() as int,
                    tx@.outputs.len() as int,
                    tx@.extra is Some,
                );
                &&& fee <= u64::MAX ==> r == Some(Value(fee as u64))
                &&& fee > u64::MAX ==> r is None
            }),
    {
        let f = match &self.0 {
            FeeVariant::Linear(f) => *f,
        };
        let has_certificate = match &tx.extra {
            Some(_) => true,
            None => false,
        };
        compute_linear_fee(&f, tx.inputs.len(), tx.outputs.len(), 0, has_certificate)
    }
}

/// The linear fee of a transaction shape, with `extra_outputs` counted on
/// top of `n_outputs`; `None` exactly when the quantity leaves the 64-bit
/// range.
pub(crate) fn compute_linear_fee(
    f: &LinearFee,
    n_inputs: usize,
    n_outputs: usize,
    extra_outputs: usize,
    has_certificate: bool,
) -> (r: Option<Value>)
    ensures
        ({
            let fee = spec_linear_fee(
                *f,
                n_inputs as int,
                n_outputs + extra_outputs,
                has_certificate,
            );
            &&& fee <= u64::MAX ==> r == Some(Value(fee as u64))
            &&& fee > u64::MAX ==> r is None
        }),
{
    let ghost count_spec: int = n_inputs + n_outputs + extra_outputs;
    let count = match (n_inputs as u64).checked_add(n_outputs as u64) {
        Some(c) => c.checked_add(extra_outputs as u64),
        None => None,
    };
    let product = match count {
        Some(c) => f.coefficient.checked_mul(c),
        None => {
            if f.coefficient == 0 {
                Some(0)
            } else {
                proof {
                    assert(f.coefficient * count_spec >= 1 * count_spec) by (nonlinear_arith)
                        requires
                            f.coefficient >= 1,
                            count_spec >= 0,
                    ;
                }
                None
            }
        },
    };
    let product = match product {
        Some(p) => p,
        None => {
            return None;
        },
    };
    let base = match f.constant.checked_add(product) {
        Some(b) => b,
        None => {
            return None;
        },
    };
    if has_certificate {
        match base.checked_add(f.certificate) {
            Some(total) => Some(Value(total)),
            None => None,
        }
    } else {
        Some(Value(base))
    }
}

} // verus!
