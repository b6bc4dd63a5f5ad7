use chaintx::error::Error;
use chaintx::value::{Value, U128};

#[test]
fn checked_add_exact() {
    assert_eq!(Value(2).checked_add(&Value(3)), Ok(Value(5)));
    assert_eq!(Value(0).checked_add(&Value(0)), Ok(Value(0)));
    assert_eq!(Value(u64::MAX - 1).checked_add(&Value(1)), Ok(Value(u64::MAX)));
}

#[test]
fn checked_add_overflow() {
    assert_eq!(Value(u64::MAX).checked_add(&Value(1)), Err(Error::ValueOverflow));
    assert_eq!(Value(u64::MAX / 2 + 1).checked_add(&Value(u64::MAX / 2 + 1)), Err(Error::ValueOverflow));
}

#[test]
fn checked_sub_exact() {
    assert_eq!(Value(5).checked_sub(&Value(3)), Ok(Value(2)));
    assert_eq!(Value(5).checked_sub(&Value(5)), Ok(Value(0)));
}

#[test]
fn checked_sub_underflow() {
    assert_eq!(Value(3).checked_sub(&Value(5)), Err(Error::ValueUnderflow));
    assert_eq!(Value(0).checked_sub(&Value(1)), Err(Error::ValueUnderflow));
}

#[test]
fn value_from_str_accepts_decimal() {
    assert_eq!(Value::from_str("1000"), Ok(Value(1000)));
    assert_eq!(Value::from_str("0"), Ok(Value(0)));
    assert_eq!(Value::from_str("+42"), Ok(Value(42)));
    assert_eq!(Value::from_str("18446744073709551615"), Ok(Value(u64::MAX)));
}

#[test]
fn value_from_str_rejects_malformed() {
    assert_eq!(Value::from_str(""), Err(Error::ParseError));
    assert_eq!(Value::from_str("+"), Err(Error::ParseError));
    assert_eq!(Value::from_str("12a"), Err(Error::ParseError));
    assert_eq!(Value::from_str("-5"), Err(Error::ParseError));
    assert_eq!(Value::from_str("18446744073709551616"), Err(Error::ParseError));
}

#[test]
fn value_to_str_renders_decimal() {
    assert_eq!(Value(0).to_str(), "0");
    assert_eq!(Value(7).to_str(), "7");
    assert_eq!(Value(12345).to_str(), "12345");
    assert_eq!(Value(u64::MAX).to_str(), "18446744073709551615");
}

#[test]
fn value_decimal_round_trip() {
    for n in [0u64, 1, 9, 10, 99, 100, 4096, u64::MAX] {
        let rendered = Value(n).to_str();
        assert_eq!(Value::from_str(&rendered), Ok(Value(n)));
    }
}

#[test]
fn u128_from_str_and_to_str() {
    assert_eq!(U128::from_str("0"), Ok(U128(0)));
    assert_eq!(
        U128::from_str("340282366920938463463374607431768211455"),
        Ok(U128(u128::MAX))
    );
    assert_eq!(
        U128::from_str("340282366920938463463374607431768211456"),
        Err(Error::ParseError)
    );
    assert_eq!(U128(98765).to_str(), "98765");
    assert_eq!(U128(u128::MAX).to_str(), "340282366920938463463374607431768211455");
}

#[test]
fn u128_from_be_bytes_exact() {
    let bytes: Vec<u8> = (0u8..16).collect();
    assert_eq!(
        U128::from_be_bytes(&bytes),
        Ok(U128(0x000102030405060708090a0b0c0d0e0f))
    );
}

#[test]
fn u128_from_le_bytes_exact() {
    let bytes: Vec<u8> = (0u8..16).collect();
    assert_eq!(
        U128::from_le_bytes(&bytes),
        Ok(U128(0x0f0e0d0c0b0a09080706050403020100))
    );
}

#[test]
fn u128_from_bytes_rejects_wrong_length() {
    assert_eq!(U128::from_be_bytes(&[0u8; 15]), Err(Error::ParseError));
    assert_eq!(U128::from_be_bytes(&[0u8; 17]), Err(Error::ParseError));
    assert_eq!(U128::from_le_bytes(&[]), Err(Error::ParseError));
}

#[test]
fn error_descriptions_are_nonempty() {
    let all = [
        Error::ValueOverflow,
        Error::ValueUnderflow,
        Error::DuplicateCertificate,
        Error::InsufficientFunds,
        Error::WitnessIndexOutOfRange,
        Error::MissingWitness,
        Error::WrongInputKind,
        Error::WrongAddressKind,
        Error::ParseError,
        Error::EntropyUnavailable,
    ];
    for e in all {
        assert!(!e.describe().is_empty());
    }
}
