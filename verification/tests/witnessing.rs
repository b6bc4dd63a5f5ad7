use chaintx::address::{Account, Address, AddressDiscrimination};
use chaintx::builder::TransactionBuilder;
use chaintx::certificate::{Certificate, StakePoolId};
use chaintx::digest::{BlockId, FragmentId};
use chaintx::error::Error;
use chaintx::finalizer::TransactionFinalizer;
use chaintx::fragment::{Block, Fragment};
use chaintx::keys::{PrivateKey, PublicKey};
use chaintx::transaction::Input;
use chaintx::value::Value;
use chaintx::witness::{SpendingCounter, Witness};

fn account_input(seed: u8, value: u64) -> Input {
    let account = Account::from_public_key(PublicKey { bytes: vec![seed; 32] });
    Input::from_account(&account, Value(value))
}

fn some_address(seed: u8) -> Address {
    Address::account_from_public_key(
        PublicKey { bytes: vec![seed; 32] },
        AddressDiscrimination::Test,
    )
}

fn fresh_key() -> PrivateKey {
    PrivateKey::generate_ed25519().unwrap()
}

fn genesis() -> chaintx::digest::Hash {
    chaintx::digest::Hash::from_bytes(b"genesis block")
}

#[test]
fn txid_is_stable_without_mutation() {
    let mut builder = TransactionBuilder::new();
    builder.add_input(account_input(1, 1000));
    builder.add_output(some_address(2), Value(500));
    let first = builder.get_txid();
    let second = builder.get_txid();
    assert_eq!(first.as_bytes(), second.as_bytes());
}

#[test]
fn txid_changes_with_every_mutation() {
    let mut builder = TransactionBuilder::new();
    let id0 = builder.get_txid();
    builder.add_input(account_input(1, 1000));
    let id1 = builder.get_txid();
    assert_ne!(id0.as_bytes(), id1.as_bytes());
    builder.add_output(some_address(2), Value(500));
    let id2 = builder.get_txid();
    assert_ne!(id1.as_bytes(), id2.as_bytes());
    let pool = StakePoolId::from_hex(&"55".repeat(32)).unwrap();
    let cert = Certificate::stake_delegation(pool, PublicKey { bytes: vec![3u8; 32] });
    builder.set_certificate(cert).unwrap();
    let id3 = builder.get_txid();
    assert_ne!(id2.as_bytes(), id3.as_bytes());
}

#[test]
fn witness_kinds_are_distinct() {
    let key = fresh_key();
    let rendered = key.to_bech32();
    let k1 = PrivateKey::from_bech32(&rendered).unwrap();
    let k2 = PrivateKey::from_bech32(&rendered).unwrap();
    let txid = chaintx::digest::TransactionSignDataHash::from_bytes(&[9u8; 32]).unwrap();
    let txid2 = chaintx::digest::TransactionSignDataHash::from_bytes(&[9u8; 32]).unwrap();
    let utxo = Witness::for_utxo(genesis(), txid, k1);
    let account = Witness::for_account(genesis(), txid2, k2, SpendingCounter::zero());
    assert_ne!(utxo, account);
    assert_ne!(utxo.to_bech32().unwrap(), account.to_bech32().unwrap());
}

#[test]
fn witness_signature_depends_on_counter() {
    let key = fresh_key();
    let rendered = key.to_bech32();
    let k1 = PrivateKey::from_bech32(&rendered).unwrap();
    let k2 = PrivateKey::from_bech32(&rendered).unwrap();
    let k3 = PrivateKey::from_bech32(&rendered).unwrap();
    let txid = || chaintx::digest::TransactionSignDataHash::from_bytes(&[9u8; 32]).unwrap();
    let w0 = Witness::for_account(genesis(), txid(), k1, SpendingCounter::zero());
    let w1 = Witness::for_account(genesis(), txid(), k2, SpendingCounter::from_u32(1));
    let w0_again = Witness::for_account(genesis(), txid(), k3, SpendingCounter::from_u32(0));
    assert_ne!(w0.to_bech32().unwrap(), w1.to_bech32().unwrap());
    assert_eq!(w0.to_bech32().unwrap(), w0_again.to_bech32().unwrap());
}

#[test]
fn witness_to_bech32_has_its_prefix() {
    let key = fresh_key();
    let txid = chaintx::digest::TransactionSignDataHash::from_bytes(&[1u8; 32]).unwrap();
    let witness = Witness::for_utxo(genesis(), txid, key);
    assert!(witness.to_bech32().unwrap().starts_with("witness1"));
}

#[test]
fn utxo_witness_signature_verifies_over_its_message() {
    let key = fresh_key();
    let public = key.to_public().as_bytes();
    let txid = chaintx::digest::TransactionSignDataHash::from_bytes(&[1u8; 32]).unwrap();
    let witness = Witness::for_utxo(genesis(), txid, key);
    let (hrp, payload) = bech32::decode(&witness.to_bech32().unwrap()).unwrap();
    assert_eq!(hrp.to_lowercase(), "witness");
    // Kind tag, 8-byte length, then the 64-byte signature.
    assert_eq!(payload.len(), 73);
    assert_eq!(payload[0], 1);
    let mut signature = [0u8; 64];
    signature.copy_from_slice(&payload[9..73]);
    let mut public_key = [0u8; 32];
    public_key.copy_from_slice(&public);
    // The signed material is exactly the genesis identifier followed by
    // the transaction identifier.
    let mut message = genesis().as_bytes();
    message.extend_from_slice(&[1u8; 32]);
    assert!(cryptoxide::ed25519::verify(&message, &public_key, &signature));
    // Any other material must not verify.
    let mut other = message.clone();
    other[0] ^= 1;
    assert!(!cryptoxide::ed25519::verify(&other, &public_key, &signature));
}

fn two_input_transaction() -> chaintx::transaction::Transaction {
    let mut builder = TransactionBuilder::new();
    builder.add_input(account_input(1, 600));
    builder.add_input(account_input(2, 400));
    builder.add_output(some_address(3), Value(900));
    builder.unchecked_finalize()
}

fn witness_for(tx_id: &chaintx::digest::TransactionSignDataHash, counter: u32) -> Witness {
    let key = fresh_key();
    let id = chaintx::digest::TransactionSignDataHash::from_bytes(&tx_id.as_bytes()).unwrap();
    Witness::for_account(genesis(), id, key, SpendingCounter::from_u32(counter))
}

#[test]
fn build_requires_every_witness() {
    let tx = two_input_transaction();
    let mut finalizer = TransactionFinalizer::new(tx);
    let txid = finalizer.get_txid();
    assert!(matches!(finalizer.set_witness(0, witness_for(&txid, 0)), Ok(())));
    let result = finalizer.build();
    assert!(matches!(result, Err(Error::MissingWitness)));
}

#[test]
fn build_succeeds_in_any_order() {
    let tx = two_input_transaction();
    let mut finalizer = TransactionFinalizer::new(tx);
    let txid = finalizer.get_txid();
    // Indices set in reverse order.
    assert!(matches!(finalizer.set_witness(1, witness_for(&txid, 1)), Ok(())));
    assert!(matches!(finalizer.set_witness(0, witness_for(&txid, 0)), Ok(())));
    // The identifier is unchanged by witnessing.
    assert_eq!(finalizer.get_txid().as_bytes(), txid.as_bytes());
    let generated = finalizer.build().unwrap();
    assert_eq!(generated.id().as_bytes(), txid.as_bytes());
    assert_eq!(generated.transaction().inputs().len(), 2);
}

#[test]
fn set_witness_checks_index_and_allows_overwrite() {
    let tx = two_input_transaction();
    let mut finalizer = TransactionFinalizer::new(tx);
    let txid = finalizer.get_txid();
    assert!(matches!(
        finalizer.set_witness(2, witness_for(&txid, 0)),
        Err(Error::WitnessIndexOutOfRange)
    ));
    assert!(matches!(finalizer.set_witness(0, witness_for(&txid, 0)), Ok(())));
    // Re-signing the same index is legal.
    assert!(matches!(finalizer.set_witness(0, witness_for(&txid, 7)), Ok(())));
    assert!(matches!(finalizer.set_witness(1, witness_for(&txid, 1)), Ok(())));
    assert!(finalizer.build().is_ok());
}

fn generated_transaction() -> chaintx::finalizer::GeneratedTransaction {
    let tx = two_input_transaction();
    let mut finalizer = TransactionFinalizer::new(tx);
    let txid = finalizer.get_txid();
    finalizer.set_witness(0, witness_for(&txid, 0)).unwrap();
    finalizer.set_witness(1, witness_for(&txid, 1)).unwrap();
    finalizer.build().unwrap()
}

#[test]
fn fragment_kind_follows_certificate_presence() {
    let generated = generated_transaction();
    let fragment = Fragment::from_generated_transaction(generated);
    assert!(fragment.is_transaction());
    assert!(!fragment.is_certificate());
    assert!(!fragment.is_initial());
    assert!(!fragment.is_old_utxo_declaration());
    assert!(!fragment.is_update_proposal());
    assert!(!fragment.is_update_vote());
    assert!(fragment.get_transaction().is_ok());
}

#[test]
fn fragment_with_certificate() {
    let mut builder = TransactionBuilder::new();
    builder.add_input(account_input(1, 10));
    let pool = StakePoolId::from_hex(&"66".repeat(32)).unwrap();
    builder
        .set_certificate(Certificate::stake_delegation(
            pool,
            PublicKey { bytes: vec![4u8; 32] },
        ))
        .unwrap();
    let tx = builder.unchecked_finalize();
    let mut finalizer = TransactionFinalizer::new(tx);
    let txid = finalizer.get_txid();
    finalizer.set_witness(0, witness_for(&txid, 0)).unwrap();
    let generated = finalizer.build().unwrap();
    let fragment = Fragment::from_generated_transaction(generated);
    assert!(fragment.is_certificate());
    assert!(!fragment.is_transaction());
    assert!(matches!(fragment.get_transaction(), Err(Error::ParseError)));
}

#[test]
fn fragment_bytes_are_deterministic() {
    let generated = generated_transaction();
    let fragment = Fragment::from_generated_transaction(generated);
    let a = fragment.as_bytes().unwrap();
    let b = fragment.as_bytes().unwrap();
    assert_eq!(a, b);
    assert!(!a.is_empty());
    assert_eq!(FragmentId::from_bytes(&a).as_bytes().len(), 32);
}

#[test]
fn block_identifiers() {
    let generated = generated_transaction();
    let fragment = Fragment::from_generated_transaction(generated);
    let parent = BlockId { bytes: vec![12u8; 32] };
    let block = Block { parent, fragments: vec![fragment] };
    assert_eq!(block.parent_id().as_bytes(), vec![12u8; 32]);
    assert_eq!(block.fragments().len(), 1);
    let id1 = block.id();
    let id2 = block.id();
    assert_eq!(id1.as_bytes(), id2.as_bytes());
    assert_eq!(id1.as_bytes().len(), 32);
    assert_ne!(id1.as_bytes(), block.parent_id().as_bytes());
}
