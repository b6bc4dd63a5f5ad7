use chaintx::address::{Account, Address, AddressDiscrimination, AddressKind};
use chaintx::digest::TransactionSignDataHash;
use chaintx::encoding::{bytes_to_hex, hex_decode};
use chaintx::error::Error;
use chaintx::keys::{PrivateKey, PublicKey, PublicKeys};

#[test]
fn hex_renders_lowercase_pairs() {
    assert_eq!(bytes_to_hex(&[0xde, 0xad, 0xbe, 0xef]), "deadbeef");
    assert_eq!(bytes_to_hex(&[]), "");
    assert_eq!(bytes_to_hex(&[0x00, 0x01, 0x0f]), "00010f");
}

#[test]
fn hex_decode_round_trip() {
    assert_eq!(hex_decode("deadbeef"), Ok(vec![0xde, 0xad, 0xbe, 0xef]));
    assert_eq!(hex_decode("DEADBEEF"), Ok(vec![0xde, 0xad, 0xbe, 0xef]));
    assert_eq!(hex_decode(""), Ok(vec![]));
    let bytes = vec![1u8, 2, 250, 255, 0];
    assert_eq!(hex_decode(&bytes_to_hex(&bytes)), Ok(bytes));
}

#[test]
fn hex_decode_rejects_malformed() {
    assert_eq!(hex_decode("abc"), Err(Error::ParseError));
    assert_eq!(hex_decode("zz"), Err(Error::ParseError));
    assert_eq!(hex_decode("0g"), Err(Error::ParseError));
}

#[test]
fn hash_from_bytes_is_blake2b_256() {
    // The Blake2b digest with 256-bit output of the empty string.
    let digest = chaintx::digest::Hash::from_bytes(&[]);
    assert_eq!(
        bytes_to_hex(&digest.as_bytes()),
        "0e5751c026e543b2e8ab2eb06099daa1d1e5df47778f7787faab45cdf12fe3a8"
    );
}

#[test]
fn hash_from_bytes_deterministic_and_not_identity() {
    let a = chaintx::digest::Hash::from_bytes(b"material");
    let b = chaintx::digest::Hash::from_bytes(b"material");
    let c = chaintx::digest::Hash::from_bytes(b"other");
    assert_eq!(a.as_bytes(), b.as_bytes());
    assert_ne!(a.as_bytes(), c.as_bytes());
    assert_eq!(a.as_bytes().len(), 32);
    assert_ne!(a.as_bytes(), b"material".to_vec());
}

#[test]
fn hash_hex_round_trip() {
    let digest = chaintx::digest::Hash::from_bytes(b"seed");
    let rendered = bytes_to_hex(&digest.as_bytes());
    let back = chaintx::digest::Hash::from_hex(&rendered).unwrap();
    assert_eq!(back.as_bytes(), digest.as_bytes());
    assert!(matches!(chaintx::digest::Hash::from_hex("abcd"), Err(Error::ParseError)));
}

#[test]
fn sign_data_hash_from_bytes_checks_length() {
    let ok = TransactionSignDataHash::from_bytes(&[7u8; 32]).unwrap();
    assert_eq!(ok.as_bytes(), vec![7u8; 32]);
    assert!(matches!(
        TransactionSignDataHash::from_bytes(&[7u8; 31]),
        Err(Error::ParseError)
    ));
    let hex64 = "00".repeat(32);
    let parsed = TransactionSignDataHash::from_hex(&hex64).unwrap();
    assert_eq!(parsed.as_bytes(), vec![0u8; 32]);
    assert_eq!(parsed.to_hex(), hex64);
}

#[test]
fn public_key_derivation_matches_reference_vector() {
    // A reference Ed25519 pair: this seed must derive exactly this
    // public key.
    let seed = hex_decode("9d61b19deffd5a60ba844af492ec2cc44449c5697b326919703bac031cae7f60").unwrap();
    let hrp = bech32::Hrp::parse("ed25519_sk").unwrap();
    let encoded = bech32::encode::<bech32::Bech32>(hrp, &seed).unwrap();
    let key = PrivateKey::from_bech32(&encoded).unwrap();
    assert_eq!(
        bytes_to_hex(&key.to_public().as_bytes()),
        "d75a980182b10ab7d54bfed3c964073a0ee172f3daa62325af021a68f707511a"
    );
}

#[test]
fn private_key_bech32_round_trip() {
    let key = PrivateKey::generate_ed25519().unwrap();
    let rendered = key.to_bech32();
    assert!(rendered.starts_with("ed25519_sk1"));
    let back = PrivateKey::from_bech32(&rendered).unwrap();
    assert_eq!(back.to_public().as_bytes(), key.to_public().as_bytes());
    assert_eq!(back.to_bech32(), rendered);
}

#[test]
fn extended_private_key_bech32_round_trip() {
    let key = PrivateKey::generate_ed25519extended().unwrap();
    let rendered = key.to_bech32();
    assert!(rendered.starts_with("ed25519e_sk1"));
    let back = PrivateKey::from_bech32(&rendered).unwrap();
    assert_eq!(back.to_public().as_bytes(), key.to_public().as_bytes());
    // The derived public key is 32 bytes and differs from the secret.
    let (_, secret) = bech32::decode(&rendered).unwrap();
    assert_eq!(secret.len(), 64);
    assert_eq!(key.to_public().as_bytes().len(), 32);
    assert_ne!(key.to_public().as_bytes(), secret[..32].to_vec());
}

#[test]
fn generated_keys_differ() {
    let a = PrivateKey::generate_ed25519().unwrap();
    let b = PrivateKey::generate_ed25519().unwrap();
    assert_ne!(a.to_public().as_bytes(), b.to_public().as_bytes());
}

#[test]
fn private_key_from_bech32_rejects_malformed() {
    assert!(matches!(PrivateKey::from_bech32("not bech32"), Err(Error::ParseError)));
    // A valid bech32 string under the wrong prefix is rejected too.
    let hrp = bech32::Hrp::parse("other").unwrap();
    let s = bech32::encode::<bech32::Bech32>(hrp, &[0u8; 32]).unwrap();
    assert!(matches!(PrivateKey::from_bech32(&s), Err(Error::ParseError)));
}

#[test]
fn public_key_bech32_accepts_only_its_prefix() {
    let hrp = bech32::Hrp::parse("ed25519_pk").unwrap();
    let s = bech32::encode::<bech32::Bech32>(hrp, &[9u8; 32]).unwrap();
    let key = PublicKey::from_bech32(&s).unwrap();
    assert_eq!(key.as_bytes(), vec![9u8; 32]);
    let wrong = bech32::encode::<bech32::Bech32>(bech32::Hrp::parse("ed25519_sk").unwrap(), &[9u8; 32]).unwrap();
    assert!(matches!(PublicKey::from_bech32(&wrong), Err(Error::ParseError)));
}

#[test]
fn public_keys_collection() {
    let mut keys = PublicKeys::new();
    assert_eq!(keys.size(), 0);
    keys.add(PublicKey { bytes: vec![1u8; 32] });
    keys.add(PublicKey { bytes: vec![2u8; 32] });
    assert_eq!(keys.size(), 2);
    assert_eq!(keys.get(0).as_bytes(), vec![1u8; 32]);
    assert_eq!(keys.get(1).as_bytes(), vec![2u8; 32]);
}

#[test]
fn address_string_round_trip() {
    let key = PublicKey { bytes: vec![3u8; 32] };
    let address = Address::single_from_public_key(key, AddressDiscrimination::Test);
    let rendered = address.to_string("ta");
    assert!(rendered.starts_with("ta1"));
    let back = Address::from_string(&rendered).unwrap();
    assert_eq!(back, address);
}

#[test]
fn address_kinds_round_trip() {
    let k = PublicKey { bytes: vec![4u8; 32] };
    let d = PublicKey { bytes: vec![5u8; 32] };
    let group = Address::delegation_from_public_key(k, d, AddressDiscrimination::Production);
    let back = Address::from_string(&group.to_string("ca")).unwrap();
    assert_eq!(back, group);
    let account = Address::account_from_public_key(
        PublicKey { bytes: vec![6u8; 32] },
        AddressDiscrimination::Production,
    );
    let back = Address::from_string(&account.to_string("ca")).unwrap();
    assert_eq!(back, account);
}

#[test]
fn address_from_string_rejects_malformed() {
    assert!(matches!(Address::from_string("junk"), Err(Error::ParseError)));
    // A bech32 string whose payload is no address layout.
    let hrp = bech32::Hrp::parse("ca").unwrap();
    let s = bech32::encode::<bech32::Bech32>(hrp, &[0u8; 4]).unwrap();
    assert!(matches!(Address::from_string(&s), Err(Error::ParseError)));
}

#[test]
fn account_from_address_requires_account_kind() {
    let key = PublicKey { bytes: vec![8u8; 32] };
    let account_address = Address::account_from_public_key(key, AddressDiscrimination::Production);
    let account = Account::from_address(&account_address).unwrap();
    assert_eq!(account.to_address(), account_address);
    let single = Address {
        discrimination: AddressDiscrimination::Production,
        kind: AddressKind::Single(PublicKey { bytes: vec![8u8; 32] }),
    };
    assert!(matches!(Account::from_address(&single), Err(Error::WrongAddressKind)));
}

#[test]
fn account_from_public_key_keeps_bytes() {
    let account = Account::from_public_key(PublicKey { bytes: vec![11u8; 32] });
    assert_eq!(account.to_address().to_string("ca").starts_with("ca1"), true);
}
