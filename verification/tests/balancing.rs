use chaintx::address::{Account, Address, AddressDiscrimination};
use chaintx::builder::{OutputPolicy, TransactionBuilder};
use chaintx::certificate::{Certificate, StakePoolId, StakePoolInfo};
use chaintx::digest::FragmentId;
use chaintx::error::Error;
use chaintx::fee::{Balance, Fee};
use chaintx::keys::{KesPublicKey, PrivateKey, PublicKey, PublicKeys, VrfPublicKey};
use chaintx::transaction::{Input, UtxoPointer};
use chaintx::value::{Value, U128};

fn account_input(seed: u8, value: u64) -> Input {
    let account = Account::from_public_key(PublicKey { bytes: vec![seed; 32] });
    Input::from_account(&account, Value(value))
}

fn some_address(seed: u8) -> Address {
    Address::account_from_public_key(
        PublicKey { bytes: vec![seed; 32] },
        AddressDiscrimination::Test,
    )
}

#[test]
fn estimate_fee_linear_formula() {
    let mut builder = TransactionBuilder::new();
    builder.add_input(account_input(1, 1000));
    builder.add_output(some_address(2), Value(500));
    let fee = Fee::linear_fee(Value(20), Value(5), Value(10));
    // constant + coefficient * (inputs + outputs)
    assert_eq!(builder.estimate_fee(&fee), Ok(Value(30)));
}

#[test]
fn estimate_fee_counts_certificate() {
    let mut builder = TransactionBuilder::new();
    builder.add_input(account_input(1, 1000));
    builder.add_output(some_address(2), Value(500));
    let cert = Certificate::stake_delegation(
        StakePoolId::from_hex(&"11".repeat(32)).unwrap(),
        PublicKey { bytes: vec![3u8; 32] },
    );
    builder.set_certificate(cert).unwrap();
    let fee = Fee::linear_fee(Value(20), Value(5), Value(10));
    assert_eq!(builder.estimate_fee(&fee), Ok(Value(40)));
}

#[test]
fn estimate_fee_overflows() {
    let mut builder = TransactionBuilder::new();
    builder.add_input(account_input(1, 1));
    builder.add_output(some_address(2), Value(1));
    let fee = Fee::linear_fee(Value(0), Value(u64::MAX), Value(0));
    assert_eq!(builder.estimate_fee(&fee), Err(Error::ValueOverflow));
}

#[test]
fn duplicate_certificate_is_refused() {
    let mut builder = TransactionBuilder::new();
    let pool = StakePoolId::from_hex(&"22".repeat(32)).unwrap();
    let first = Certificate::stake_delegation(pool, PublicKey { bytes: vec![3u8; 32] });
    assert_eq!(builder.set_certificate(first), Ok(()));
    let pool = StakePoolId::from_hex(&"33".repeat(32)).unwrap();
    let second = Certificate::stake_delegation(pool, PublicKey { bytes: vec![4u8; 32] });
    assert_eq!(builder.set_certificate(second), Err(Error::DuplicateCertificate));
}

#[test]
fn balance_without_fee_signs() {
    let mut builder = TransactionBuilder::new();
    builder.add_input(account_input(1, 1000));
    builder.add_output(some_address(2), Value(400));
    assert_eq!(builder.get_balance_without_fee(), Ok(Balance::Positive(Value(600))));
    builder.add_output(some_address(3), Value(600));
    assert_eq!(builder.get_balance_without_fee(), Ok(Balance::Zero));
    builder.add_output(some_address(4), Value(1));
    let negative = builder.get_balance_without_fee().unwrap();
    assert_eq!(negative, Balance::Negative(Value(1)));
    assert_eq!(negative.get_sign(), "negative");
    assert_eq!(negative.get_value(), Value(1));
}

#[test]
fn deficit_scenario_fails_to_finalize() {
    // Two inputs of 1000 and 1, two outputs of 500 and 480, linear fee
    // (constant 20, coefficient 5, certificate 0): the fee is
    // 20 + 5 * (2 + 2) = 40, so 1001 falls 19 short of 1020.
    let mut builder = TransactionBuilder::new();
    builder.add_input(account_input(1, 1000));
    builder.add_input(account_input(2, 1));
    builder.add_output(some_address(3), Value(500));
    builder.add_output(some_address(4), Value(480));
    let fee = Fee::linear_fee(Value(20), Value(5), Value(0));
    assert_eq!(builder.estimate_fee(&fee), Ok(Value(40)));
    assert_eq!(builder.get_balance(&fee), Ok(Balance::Negative(Value(19))));
    assert_eq!(
        builder.finalize(&fee, OutputPolicy::forget()),
        Err(Error::InsufficientFunds)
    );
}

#[test]
fn single_input_short_of_fee_fails() {
    // One input of 100 against an output of 90 and fee 20 + 5 * 2 = 30.
    let mut builder = TransactionBuilder::new();
    builder.add_input(account_input(1, 100));
    builder.add_output(some_address(2), Value(90));
    let fee = Fee::linear_fee(Value(20), Value(5), Value(0));
    assert_eq!(
        builder.finalize(&fee, OutputPolicy::forget()),
        Err(Error::InsufficientFunds)
    );
}

#[test]
fn change_scenario_balances_exactly() {
    // One input of 1000, one output of 500; fee for one input and one
    // output is 30, leaving a surplus of 470. With a change output the fee
    // grows to 35, so the change absorbs the shortfall: 465.
    let change_address = some_address(9);
    let mut builder = TransactionBuilder::new();
    builder.add_input(account_input(1, 1000));
    builder.add_output(some_address(2), Value(500));
    let fee = Fee::linear_fee(Value(20), Value(5), Value(0));
    assert_eq!(builder.estimate_fee(&fee), Ok(Value(30)));
    assert_eq!(builder.get_balance(&fee), Ok(Balance::Positive(Value(470))));
    let tx = builder
        .finalize(&fee, OutputPolicy::one(change_address.clone()))
        .unwrap();
    let outputs = tx.outputs();
    assert_eq!(outputs.len(), 2);
    assert_eq!(outputs[1].address(), change_address);
    assert_eq!(outputs[1].value(), Value(465));
    // sum(inputs) == sum(outputs including change) + recomputed fee
    let total_out: u64 = outputs.iter().map(|o| o.value().0).sum();
    assert_eq!(1000, total_out + 35);
    assert_eq!(Fee::linear_fee(Value(20), Value(5), Value(0)).calculate(tx), Some(Value(35)));
}

#[test]
fn forget_policy_absorbs_surplus() {
    let mut builder = TransactionBuilder::new();
    builder.add_input(account_input(1, 1000));
    builder.add_output(some_address(2), Value(500));
    let fee = Fee::linear_fee(Value(20), Value(5), Value(0));
    let tx = builder.finalize(&fee, OutputPolicy::forget()).unwrap();
    // Outputs unchanged: the whole surplus goes to the fee.
    assert_eq!(tx.outputs().len(), 1);
    assert_eq!(tx.inputs().len(), 1);
    let total_in: u64 = tx.inputs().iter().map(|i| i.value().0).sum();
    let total_out: u64 = tx.outputs().iter().map(|o| o.value().0).sum();
    assert_eq!(total_in - total_out, 500);
    assert!(total_in - total_out >= 30);
}

#[test]
fn exact_balance_passes_through_under_one() {
    // 1000 in, 970 out, fee 30: a zero balance adds no change output even
    // under the One policy.
    let mut builder = TransactionBuilder::new();
    builder.add_input(account_input(1, 1000));
    builder.add_output(some_address(2), Value(970));
    let fee = Fee::linear_fee(Value(20), Value(5), Value(0));
    assert_eq!(builder.get_balance(&fee), Ok(Balance::Zero));
    let tx = builder.finalize(&fee, OutputPolicy::one(some_address(9))).unwrap();
    assert_eq!(tx.outputs().len(), 1);
}

#[test]
fn unchecked_finalize_keeps_content() {
    let mut builder = TransactionBuilder::new();
    builder.add_input(account_input(1, 5));
    builder.add_output(some_address(2), Value(100000));
    let tx = builder.unchecked_finalize();
    assert_eq!(tx.inputs().len(), 1);
    assert_eq!(tx.outputs().len(), 1);
    assert_eq!(tx.outputs()[0].value(), Value(100000));
}

#[test]
fn input_accessors_check_kind() {
    let pointer = UtxoPointer::new(FragmentId::from_bytes(b"origin"), 3, Value(250));
    let utxo = Input::from_utxo(&pointer);
    assert_eq!(utxo.get_type(), "Utxo");
    assert_eq!(utxo.value(), Value(250));
    assert_eq!(utxo.get_utxo_pointer().unwrap(), pointer);
    assert!(matches!(utxo.get_account(), Err(Error::WrongInputKind)));

    let input = account_input(1, 77);
    assert_eq!(input.get_type(), "Account");
    assert_eq!(input.value(), Value(77));
    assert!(matches!(input.get_utxo_pointer(), Err(Error::WrongInputKind)));
    assert!(input.get_account().is_ok());
}

#[test]
fn fee_calculate_on_transaction() {
    let mut builder = TransactionBuilder::new();
    builder.add_input(account_input(1, 1000));
    builder.add_output(some_address(2), Value(500));
    let tx = builder.unchecked_finalize();
    let fee = Fee::linear_fee(Value(20), Value(5), Value(7));
    assert_eq!(fee.calculate(tx), Some(Value(30)));
}

#[test]
fn certificate_signing_appends_signatures() {
    let pool = StakePoolId::from_hex(&"44".repeat(32)).unwrap();
    let mut cert = Certificate::stake_delegation(pool, PublicKey { bytes: vec![5u8; 32] });
    assert_eq!(cert.signatures.len(), 0);
    let before = cert.as_bytes().unwrap();
    cert.sign(PrivateKey::generate_ed25519().unwrap());
    assert_eq!(cert.signatures.len(), 1);
    assert_eq!(cert.signatures[0].len(), 64);
    cert.sign(PrivateKey::generate_ed25519extended().unwrap());
    assert_eq!(cert.signatures.len(), 2);
    let after = cert.as_bytes().unwrap();
    assert_ne!(before, after);
    let rendered = cert.to_bech32().unwrap();
    assert!(rendered.starts_with("cert1"));
}

#[test]
fn stake_pool_info_id_is_stable() {
    let mut owners = PublicKeys::new();
    owners.add(PublicKey { bytes: vec![1u8; 32] });
    owners.add(PublicKey { bytes: vec![2u8; 32] });
    let info = StakePoolInfo::new(
        U128(42),
        owners,
        KesPublicKey { bytes: vec![3u8; 32] },
        VrfPublicKey { bytes: vec![4u8; 32] },
    );
    let a = info.id();
    let b = info.id();
    assert_eq!(a.to_string(), b.to_string());
    assert_eq!(a.to_string().len(), 64);
    let registration = Certificate::stake_pool_registration(info);
    assert!(registration.to_bech32().unwrap().starts_with("cert1"));
}
