use sodiumoxide::crypto::box_;
use vault::vault::{MalformedKeyMaterial, SealedBoxPrivateKey, SealedBoxPublicKey};

#[test]
fn test_derive() {
    let secret = SealedBoxPrivateKey::generate();
    let secret_str = secret.to_base58();

    let secret2 = SealedBoxPrivateKey::from_base58(&secret_str).unwrap();

    assert_eq!(secret.public().to_base58(), secret2.public().to_base58());
}

#[test]
fn asymmetric_round_trip() {
    let key = SealedBoxPrivateKey::generate();
    let cipher = key.public().encrypt(b"hello");
    assert_eq!(cipher.len(), 5 + 48);
    assert_ne!(&cipher[..], b"hello" as &[u8]);
    let plain = key.decrypt(&cipher).unwrap();
    assert_eq!(plain, b"hello".to_vec());
}

#[test]
fn asymmetric_round_trip_empty() {
    let key = SealedBoxPrivateKey::generate();
    let cipher = key.public().encrypt(b"");
    assert_eq!(cipher.len(), 48);
    let plain = key.decrypt(&cipher).unwrap();
    assert!(plain.is_empty());
}

#[test]
fn asymmetric_cross_key_rejection() {
    let key_a = SealedBoxPrivateKey::generate();
    let key_b = SealedBoxPrivateKey::generate();
    let cipher = key_a.public().encrypt(b"for A only");
    assert!(key_b.decrypt(&cipher).is_err());
    assert!(key_a.decrypt(&cipher).is_ok());
}

#[test]
fn decrypt_rejects_malformed_ciphertext() {
    let key = SealedBoxPrivateKey::generate();
    assert!(key.decrypt(b"").is_err());
    assert!(key.decrypt(b"too short").is_err());
    let mut cipher = key.public().encrypt(b"payload");
    cipher[5] ^= 0x20;
    assert!(key.decrypt(&cipher).is_err());
}

#[test]
fn decrypt_string_round_trip() {
    let key = SealedBoxPrivateKey::generate();
    let cipher = key.public().encrypt("caf\u{e9} entry".as_bytes());
    assert_eq!(key.decrypt_string(&cipher).unwrap(), "caf\u{e9} entry");
}

#[test]
fn decrypt_string_rejects_non_utf8() {
    let key = SealedBoxPrivateKey::generate();
    let cipher = key.public().encrypt(&[0xff, 0xfe, 0x00]);
    assert!(key.decrypt(&cipher).is_ok());
    assert!(key.decrypt_string(&cipher).is_err());
}

#[test]
fn generate_twice_differs() {
    let a = SealedBoxPrivateKey::generate();
    let b = SealedBoxPrivateKey::generate();
    assert_ne!(a.to_base58(), b.to_base58());
    assert_ne!(a.public().to_base58(), b.public().to_base58());
}

#[test]
fn seed_derivation_is_deterministic() {
    let seed_b58 = bs58::encode([7u8; 32]).into_string();
    let first = SealedBoxPrivateKey::from_base58_seed(&seed_b58).unwrap();
    let second = SealedBoxPrivateKey::from_base58_seed(&seed_b58).unwrap();
    assert_eq!(first.to_base58(), second.to_base58());
    assert_eq!(first.public().to_base58(), second.public().to_base58());
}

#[test]
fn seed_derivation_matches_sodiumoxide() {
    let seed_bytes = [7u8; 32];
    let seed_b58 = bs58::encode(seed_bytes).into_string();
    let derived = SealedBoxPrivateKey::from_base58_seed(&seed_b58).unwrap();
    let (pk, sk) = box_::keypair_from_seed(&box_::Seed::from_slice(&seed_bytes).unwrap());
    assert_eq!(derived.bytes(), sk.as_ref());
    assert_eq!(
        derived.public().to_base58(),
        bs58::encode(pk.as_ref()).into_string()
    );
}

#[test]
fn generated_pair_is_consistent() {
    let key = SealedBoxPrivateKey::generate();
    let again = SealedBoxPrivateKey::from_bytes(key.bytes()).unwrap();
    assert_eq!(key.public().to_base58(), again.public().to_base58());
}

#[test]
fn public_key_differs_from_private_bytes() {
    let key = SealedBoxPrivateKey::from_bytes(&[9u8; 32]).unwrap();
    assert_ne!(key.public().to_base58(), key.to_base58());
}

#[test]
fn key_base58_known_vector() {
    let key = SealedBoxPublicKey::from_bytes(&[0u8; 32]).unwrap();
    assert_eq!(key.to_base58(), "1".repeat(32));
    let parsed = SealedBoxPublicKey::from_base58(&"1".repeat(32)).unwrap();
    assert!(parsed == key);
}

#[test]
fn malformed_key_material_is_rejected() {
    assert!(matches!(
        SealedBoxPublicKey::from_base58("not valid base58!"),
        Err(MalformedKeyMaterial::InvalidEncoding)
    ));
    assert!(matches!(
        SealedBoxPublicKey::from_base58("he11owor1d"),
        Err(MalformedKeyMaterial::WrongByteLength)
    ));
    assert!(matches!(
        SealedBoxPublicKey::from_bytes(&[1u8; 31]),
        Err(MalformedKeyMaterial::WrongByteLength)
    ));
    assert!(matches!(
        SealedBoxPrivateKey::from_base58("0OIl"),
        Err(MalformedKeyMaterial::InvalidEncoding)
    ));
    assert!(matches!(
        SealedBoxPrivateKey::from_bytes(&[1u8; 33]),
        Err(MalformedKeyMaterial::WrongByteLength)
    ));
    assert!(matches!(
        SealedBoxPrivateKey::from_base58_seed(&bs58::encode([1u8; 16]).into_string()),
        Err(MalformedKeyMaterial::WrongByteLength)
    ));
}

#[test]
fn public_key_equality_is_byte_equality() {
    let a = SealedBoxPublicKey::from_bytes(&[3u8; 32]).unwrap();
    let b = SealedBoxPublicKey::from_bytes(&[3u8; 32]).unwrap();
    let c = SealedBoxPublicKey::from_bytes(&[4u8; 32]).unwrap();
    assert!(a == b);
    assert!(!(a == c));
}
