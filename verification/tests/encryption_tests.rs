//! Tests of the encryption-at-rest helpers: round trips, integrity
//! checking and key derivation.

use sha2::{Digest, Sha256};
use zk_verifier::encryption::{EncryptedData, EncryptionService, KeyDerivation};
use zk_verifier::error::ContractError;

#[test]
fn test_encryption_service() {
    let service = EncryptionService::new("test_master_key");
    let plaintext = "sensitive_verification_key_data";

    let encrypted = service.encrypt(plaintext).unwrap();
    let decrypted = service.decrypt(&encrypted).unwrap();

    assert_eq!(plaintext, decrypted);
    assert_ne!(plaintext, encrypted);
}

#[test]
fn test_encrypted_data() {
    let service = EncryptionService::new("test_master_key");
    let plaintext = "sensitive_data";

    let encrypted_data = EncryptedData::new(plaintext, &service).unwrap();
    let decrypted = encrypted_data.decrypt(&service).unwrap();

    assert_eq!(plaintext, decrypted);
}

#[test]
fn test_key_derivation() {
    let master_key = "master_key_123";
    let circuit_id = "test_circuit";

    let key1 = KeyDerivation::verification_key(circuit_id, master_key);
    let key2 = KeyDerivation::verification_key(circuit_id, master_key);
    let key3 = KeyDerivation::verification_key("different_circuit", master_key);

    assert_eq!(key1, key2);
    assert_ne!(key1, key3);
}

#[test]
fn derived_keys_are_digests_of_the_joined_text() {
    let derived = KeyDerivation::governance_key("abc");
    let expected = format!("{:x}", Sha256::digest("abcgovernance".as_bytes()));
    assert_eq!(derived, expected);
    assert_eq!(derived.len(), 64);

    let derived = KeyDerivation::proof_key("p1", "mk");
    let expected = format!("{:x}", Sha256::digest("mkproofp1".as_bytes()));
    assert_eq!(derived, expected);
}

#[test]
fn tampered_payload_fails_integrity_check() {
    let service = EncryptionService::new("test_master_key");
    let mut data = EncryptedData::new("payload", &service).unwrap();
    data.hash = "0".repeat(64);
    assert_eq!(data.decrypt(&service), Err(ContractError::IntegrityError {}));
}

#[test]
fn garbage_blob_fails_decryption() {
    let service = EncryptionService::new("test_master_key");
    assert_eq!(
        service.decrypt("!!! not base64 !!!"),
        Err(ContractError::DecryptionError {})
    );
    // Valid base64, but too short to carry a nonce.
    assert_eq!(
        service.decrypt("AAAA"),
        Err(ContractError::DecryptionError {})
    );
    // The wrong key fails authentication.
    let sealed = service.encrypt("payload").unwrap();
    let other = EncryptionService::new("another_master_key");
    assert_eq!(other.decrypt(&sealed), Err(ContractError::DecryptionError {}));
}
