//! Exact non-negative quantities: the 64-bit `Value` with checked
//! arithmetic, the 128-bit serial number, and their decimal text forms.

use vstd::prelude::*;
use vstd::string::StrSliceExecFns;
use vstd::string::StringExecFns;
use crate::encoding::{hex_char_of, hex_digit_str};
use crate::error::Error;

verus! {

/// Whether a character is a decimal digit.
pub open spec fn is_dec_digit(c: char) -> bool {
    48 <= c as u32 <= 57
}

/// Whether every character of a string is a decimal digit.
pub open spec fn all_dec_digits(s: Seq<char>) -> bool {
    forall|i: int| 0 <= i < s.len() ==> is_dec_digit(#[trigger] s[i])
}

/// The number a digit string denotes, most significant digit first.
pub open spec fn dec_num(s: Seq<char>) -> int
    decreases s.len(),
{
    if s.len() == 0 {
        0
    } else {
        dec_num(s.drop_last()) * 10 + (s.last() as u32 - 48)
    }
}

/// The number a digit string denotes is never negative.
pub proof fn lemma_dec_num_nonneg(s: Seq<char>)
    requires
        all_dec_digits(s),
    ensures
        dec_num(s) >= 0,
    decreases s.len(),
{
    if s.len() > 0 {
        assert(all_dec_digits(s.drop_last())) by {
            assert(forall|i: int|
                0 <= i < s.len() - 1 ==> s.drop_last()[i] == #[trigger] s[i]);
        }
        lemma_dec_num_nonneg(s.drop_last());
    }
}

/// A prefix of a digit string denotes at most what the whole does.
pub proof fn lemma_dec_num_prefix(s: Seq<char>, i: int)
    requires
        all_dec_digits(s),
        0 <= i <= s.len(),
    ensures
        dec_num(s.subrange(0, i)) <= dec_num(s),
    decreases s.len() - i,
{
    if i == s.len() {
        assert(s.subrange(0, i) =~= s);
    } else {
        assert(s.subrange(0, i + 1).drop_last() =~= s.subrange(0, i));
        assert(s.subrange(0, i + 1).last() == s[i]);
        assert(all_dec_digits(s.subrange(0, i))) by {
            assert(forall|j: int|
                0 <= j < i ==> s.subrange(0, i)[j] == #[trigger] s[j]);
        }
        lemma_dec_num_nonneg(s.subrange(0, i));
        lemma_dec_num_prefix(s, i + 1);
    }
}

/// The digits of a decimal string, a leading plus sign set aside.
pub open spec fn dec_body(s: Seq<char>) -> Seq<char> {
    if s.len() > 0 && s[0] == '+' {
        s.drop_first()
    } else {
        s
    }
}

/// The number a decimal string denotes, when it is an optional plus sign,
/// then one or more digits, denoting at most `max`; anything else denotes
/// nothing.
pub open spec fn spec_parse_decimal(s: Seq<char>, max: int) -> Option<int> {
    let body = dec_body(s);
    if body.len() > 0 && all_dec_digits(body) && dec_num(body) <= max {
        Some(dec_num(body))
    } else {
        None
    }
}

/// The decimal rendering of a number, most significant digit first, no
/// leading zero except on the number zero itself.
pub open spec fn dec_digits(n: nat) -> Seq<char>
    decreases n,
{
    if n < 10 {
        seq![hex_char_of(n as u8)]
    } else {
        dec_digits(n / 10).push(hex_char_of((n % 10) as u8))
    }
}

/// The number a decimal string denotes, up to 128 bits; `ParseError` on a
/// malformed string or one denoting more.
pub(crate) fn parse_decimal_u128(s: &str) -> (r: Result<u128, Error>)
    ensures
        spec_parse_decimal(s@, u128::MAX as int) matches Some(v) ==> r == Ok::<u128, Error>(
            v as u128,
        ),
        spec_parse_decimal(s@, u128::MAX as int) is None ==> r == Err::<u128, Error>(
            Error::ParseError,
        ),
{
    let n = s.unicode_len();
    let start: usize = if n > 0 && s.get_char(0) == '+' {
        1
    } else {
        0
    };
    let ghost body = dec_body(s@);
    proof {
        if start == 1 {
            assert(body =~= s@.subrange(1, n as int));
        } else {
            assert(body =~= s@.subrange(0, n as int));
        }
        assert(body.subrange(0, 0) =~= Seq::<char>::empty());
    }
    if start == n {
        return Err(Error::ParseError);
    }
    let mut acc: u128 = 0;
    let mut i: usize = start;
    while i < n
        invariant
            start <= i <= n,
            n == s@.len(),
            start <= 1,
            body == dec_body(s@),
            body == s@.subrange(start as int, n as int),
            acc == dec_num(body.subrange(0, i - start)),
            all_dec_digits(body.subrange(0, i - start)),
        decreases n - i,
    {
        let c = s.get_char(i);
        let u = c as u32;
        proof {
            assert(body[i - start] == s@[i as int]);
        }
        if u < 48 || u > 57 {
            proof {
                assert(!is_dec_digit(body[i - start]));
            }
            return Err(Error::ParseError);
        }
        let d = (u - 48) as u128;
        let next = match acc.checked_mul(10) {
            Some(m) => m.checked_add(d),
            None => None,
        };
        let ghost j = i - start;
        proof {
            assert(body.subrange(0, j + 1).drop_last() =~= body.subrange(0, j));
            assert(body.subrange(0, j + 1).last() == body[j]);
        }
        acc = match next {
            Some(a) => a,
            None => {
                proof {
                    if all_dec_digits(body) {
                        lemma_dec_num_prefix(body, j + 1);
                    }
                }
                return Err(Error::ParseError);
            },
        };
        i = i + 1;
    }
    proof {
        assert(body.subrange(0, n - start) =~= body);
    }
    Ok(acc)
}

/// An amount of currency: an unsigned 64-bit quantity. All arithmetic on
/// it is checked; an operation that would leave the 64-bit range fails
/// instead of wrapping.
#[derive(Clone, Copy, Debug, PartialEq, Eq, Structural)]
pub struct Value(pub u64);

impl Value {
    /// The wrapped number, as a plain `u64`.
    pub fn as_u64(&self) -> (r: u64)
        ensures
            r == self.0,
    {
        self.0
    }

    /// The quantity a decimal string denotes; `ParseError` on a malformed
    /// string or one denoting more than 64 bits hold.
    pub fn from_str(s: &str) -> (r: Result<Value, Error>)
        ensures
            spec_parse_decimal(s@, u64::MAX as int) matches Some(v) ==> r == Ok::<Value, Error>(
                Value(v as u64),
            ),
            spec_parse_decimal(s@, u64::MAX as int) is None ==> r == Err::<Value, Error>(
                Error::ParseError,
            ),
    {
        proof {
            if all_dec_digits(dec_body(s@)) {
                lemma_dec_num_nonneg(dec_body(s@));
            }
        }
        match parse_decimal_u128(s) {
            Ok(v) => {
                if v <= u64::MAX as u128 {
                    Ok(Value(v as u64))
                } else {
                    Err(Error::ParseError)
                }
            },
            Err(e) => Err(e),
        }
    }

    /// The decimal rendering of the quantity.
    pub fn to_str(&self) -> (r: String)
        ensures
            r@ == dec_digits(self.0 as nat),
    {
        u128_to_dec(self.0 as u128)
    }

    /// The sum of the two quantities; `ValueOverflow` when it does not fit.
    pub fn checked_add(&self, other: &Value) -> (r: Result<Value, Error>)
        ensures
            self.0 + other.0 <= u64::MAX ==> r == Ok::<Value, Error>(
                Value((self.0 + other.0) as u64),
            ),
            self.0 + other.0 > u64::MAX ==> r == Err::<Value, Error>(Error::ValueOverflow),
    {
        if self.0 <= u64::MAX - other.0 {
            Ok(Value(self.0 + other.0))
        } else {
            Err(Error::ValueOverflow)
        }
    }

    /// The difference of the two quantities; `ValueUnderflow` when the
    /// subtrahend is the larger.
    pub fn checked_sub(&self, other: &Value) -> (r: Result<Value, Error>)
        ensures
            self.0 >= other.0 ==> r == Ok::<Value, Error>(Value((self.0 - other.0) as u64)),
            self.0 < other.0 ==> r == Err::<Value, Error>(Error::ValueUnderflow),
    {
        if self.0 >= other.0 {
            Ok(Value(self.0 - other.0))
        } else {
            Err(Error::ValueUnderflow)
        }
    }
}

/// The decimal rendering of a 128-bit number.
pub(crate) fn u128_to_dec(n: u128) -> (r: String)
    ensures
        r@ == dec_digits(n as nat),
    decreases n,
{
    if n < 10 {
        String::from_str(hex_digit_str(n as u8))
    } else {
        proof {
            assert(n / 10 < n) by (nonlinear_arith)
                requires
                    n >= 10,
            ;
        }
        let s = u128_to_dec(n / 10);
        s.concat(hex_digit_str((n % 10) as u8))
    }
}

/// What sixteen big-endian bytes denote.
pub open spec fn spec_u128_from_be(s: Seq<u8>) -> int
    recommends
        s.len() == 16,
{
    s[0] * 0x1000000000000000000000000000000 + s[1] * 0x10000000000000000000000000000 + s[2]
        * 0x100000000000000000000000000 + s[3] * 0x1000000000000000000000000 + s[4] *
        0x10000000000000000000000 + s[5] * 0x100000000000000000000 + s[6] *
        0x1000000000000000000 + s[7] * 0x10000000000000000 + s[8] * 0x100000000000000 + s[9] *
        0x1000000000000 + s[10] * 0x10000000000 + s[11] * 0x100000000 + s[12] * 0x1000000 +
        s[13] * 0x10000 + s[14] * 0x100 + s[15]
}

/// What sixteen little-endian bytes denote.
pub open spec fn spec_u128_from_le(s: Seq<u8>) -> int
    recommends
        s.len() == 16,
{
    spec_u128_from_be(s.reverse())
}

/// An unsigned 128-bit quantity, used for a stake pool's serial number.
#[derive(Clone, Copy, Debug, PartialEq, Eq, Structural)]
pub struct U128(pub u128);

impl U128 {
    /// The number sixteen big-endian bytes denote; any other count fails
    /// with `ParseError`.
    pub fn from_be_bytes(bytes: &[u8]) -> (r: Result<U128, Error>)
        ensures
            bytes@.len() == 16 ==> r == Ok::<U128, Error>(
                U128(spec_u128_from_be(bytes@) as u128),
            ),
            bytes@.len() != 16 ==> r == Err::<U128, Error>(Error::ParseError),
    {
        if bytes.len() != 16 {
            return Err(Error::ParseError);
        }
        let mut acc: u128 = bytes[0] as u128;
        acc = acc * 256 + bytes[1] as u128;
        acc = acc * 256 + bytes[2] as u128;
        acc = acc * 256 + bytes[3] as u128;
        acc = acc * 256 + bytes[4] as u128;
        acc = acc * 256 + bytes[5] as u128;
        acc = acc * 256 + bytes[6] as u128;
        acc = acc * 256 + bytes[7] as u128;
        acc = acc * 256 + bytes[8] as u128;
        acc = acc * 256 + bytes[9] as u128;
        acc = acc * 256 + bytes[10] as u128;
        acc = acc * 256 + bytes[11] as u128;
        acc = acc * 256 + bytes[12] as u128;
        acc = acc * 256 + bytes[13] as u128;
        acc = acc * 256 + bytes[14] as u128;
        acc = acc * 256 + bytes[15] as u128;
        Ok(U128(acc))
    }

    /// The number sixteen little-endian bytes denote; any other count
    /// fails with `ParseError`.
    pub fn from_le_bytes(bytes: &[u8]) -> (r: Result<U128, Error>)
        ensures
            bytes@.len() == 16 ==> r == Ok::<U128, Error>(
                U128(spec_u128_from_le(bytes@) as u128),
            ),
            bytes@.len() != 16 ==> r == Err::<U128, Error>(Error::ParseError),
    {
        if bytes.len() != 16 {
            return Err(Error::ParseError);
        }
        let mut acc: u128 = bytes[15] as u128;
        acc = acc * 256 + bytes[14] as u128;
        acc = acc * 256 + bytes[13] as u128;
        acc = acc * 256 + bytes[12] as u128;
        acc = acc * 256 + bytes[11] as u128;
        acc = acc * 256 + bytes[10] as u128;
        acc = acc * 256 + bytes[9] as u128;
        acc = acc * 256 + bytes[8] as u128;
        acc = acc * 256 + bytes[7] as u128;
        acc = acc * 256 + bytes[6] as u128;
        acc = acc * 256 + bytes[5] as u128;
        acc = acc * 256 + bytes[4] as u128;
        acc = acc * 256 + bytes[3] as u128;
        acc = acc * 256 + bytes[2] as u128;
        acc = acc * 256 + bytes[1] as u128;
        acc = acc * 256 + bytes[0] as u128;
        proof {
            assert(bytes@.reverse().len() == 16);
            assert forall|k: int| 0 <= k < 16 implies bytes@.reverse()[k] == bytes@[15 - k] by {}
        }
        Ok(U128(acc))
    }

    /// The number a decimal string denotes; `ParseError` on a malformed
    /// string or one denoting more than 128 bits hold.
    pub fn from_str(s: &str) -> (r: Result<U128, Error>)
        ensures
            spec_parse_decimal(s@, u128::MAX as int) matches Some(v) ==> r == Ok::<U128, Error>(
                U128(v as u128),
            ),
            spec_parse_decimal(s@, u128::MAX as int) is None ==> r == Err::<U128, Error>(
                Error::ParseError,
            ),
    {
        match parse_decimal_u128(s) {
            Ok(v) => Ok(U128(v)),
            Err(e) => Err(e),
        }
    }

    /// The decimal rendering of the number.
    pub fn to_str(&self) -> (r: String)
        ensures
            r@ == dec_digits(self.0 as nat),
    {
        u128_to_dec(self.0)
    }
}

} // verus!
