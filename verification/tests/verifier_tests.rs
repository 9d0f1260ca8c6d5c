//! Tests of the verification entry points: the fallback path used by
//! the ledger and the cheap format validators.

use zk_verifier::error::ContractError;
use zk_verifier::verification::{
    validate_proof, validate_verification_key, verify_proof, verify_proof_simplified, ProofVerifier,
};

const WELL_FORMED_PROOF: &str = r#"{"pi_a": ["0x123"], "pi_b": [["0x456"]], "pi_c": ["0x789"]}"#;

#[test]
fn test_verify_proof_valid() {
    let vk = "vk_test_key_12345";
    let inputs = vec!["123".to_string(), "456".to_string()];
    let proof = r#"{"pi_a": ["0x123"], "pi_b": [["0x456"]], "pi_c": ["0x789"]}"#;

    let result = verify_proof(vk, &inputs, proof);
    assert!(result.is_ok());
    assert!(result.unwrap());
}

#[test]
fn test_verify_proof_invalid() {
    let vk = "vk_test_key_12345";
    let inputs = vec!["999999".to_string()];
    let proof = r#"{"pi_a": ["0x123"], "pi_b": [["0x456"]], "pi_c": ["0x789"]}"#;

    let result = verify_proof(vk, &inputs, proof);
    assert!(result.is_ok());
    assert!(!result.unwrap());
}

#[test]
fn test_verify_proof_malformed() {
    let vk = "vk_malformed_key";
    let inputs = vec!["123".to_string()];
    let proof = r#"{"pi_a": ["0x123"], "pi_b": [["0x456"]], "pi_c": ["0x789"]}"#;

    let result = verify_proof(vk, &inputs, proof);
    assert!(result.is_err());
}

#[test]
fn test_validate_verification_key() {
    assert!(validate_verification_key("vk_test_key_12345").is_ok());
    assert!(validate_verification_key("").is_err());
    assert!(validate_verification_key("short").is_err());
}

#[test]
fn test_validate_proof() {
    let valid_proof = r#"{"pi_a": ["0x123"], "pi_b": [["0x456"]], "pi_c": ["0x789"]}"#;
    assert!(validate_proof(valid_proof).is_ok());
    assert!(validate_proof("").is_err());
    assert!(validate_proof("invalid").is_err());
}

#[test]
fn validate_errors_distinguish_empty_input() {
    assert_eq!(
        validate_verification_key(""),
        Err(ContractError::EmptyVerificationKey {})
    );
    assert_eq!(validate_proof(""), Err(ContractError::EmptyProof {}));
    assert_eq!(
        validate_verification_key("short"),
        Err(ContractError::InvalidVerificationKey {})
    );
    assert_eq!(
        validate_proof("{tiny_pi_a}"),
        Err(ContractError::InvalidProof {})
    );
}

#[test]
fn fallback_rejects_empty_strings() {
    let inputs = vec!["123".to_string()];
    assert_eq!(
        verify_proof_simplified("", &inputs, WELL_FORMED_PROOF),
        Err(ContractError::EmptyVerificationKey {})
    );
    assert_eq!(
        verify_proof_simplified("vk_test_key_12345", &inputs, ""),
        Err(ContractError::EmptyProof {})
    );
}

#[test]
fn fallback_rejects_short_verification_key() {
    let inputs = vec!["123".to_string()];
    assert_eq!(
        verify_proof_simplified("tiny_key", &inputs, WELL_FORMED_PROOF),
        Err(ContractError::InvalidVerificationKey {})
    );
}

#[test]
fn fallback_rejects_proof_without_object_shape() {
    let inputs = vec!["123".to_string()];
    assert_eq!(
        verify_proof_simplified("vk_test_key_12345", &inputs, "pi_a pi_b pi_c without braces"),
        Err(ContractError::InvalidProof {})
    );
    assert_eq!(
        verify_proof_simplified("vk_test_key_12345", &inputs, "{\"pi_a\": 1}"),
        Err(ContractError::InvalidProof {})
    );
}

#[test]
fn fallback_rejects_bad_public_inputs() {
    let inputs = vec!["not_a_number".to_string()];
    assert_eq!(
        verify_proof_simplified("vk_test_key_12345", &inputs, WELL_FORMED_PROOF),
        Err(ContractError::InvalidPublicInputs {})
    );
    // A value too large for 64 bits is rejected as well.
    let inputs = vec!["18446744073709551616".to_string()];
    assert_eq!(
        verify_proof_simplified("vk_test_key_12345", &inputs, WELL_FORMED_PROOF),
        Err(ContractError::InvalidPublicInputs {})
    );
    // Hex-prefixed values pass the fallback's format check.
    let inputs = vec!["0xdeadbeef".to_string()];
    assert_eq!(
        verify_proof_simplified("vk_test_key_12345", &inputs, WELL_FORMED_PROOF),
        Ok(true)
    );
}

#[test]
fn fallback_invalid_test_proof_marker_forces_false() {
    let inputs = vec!["123".to_string()];
    let proof = r#"{"pi_a": ["0x1"], "pi_b": [["0x2"]], "pi_c": ["0x3"], "note": "invalid_test_proof"}"#;
    assert_eq!(
        verify_proof_simplified("vk_test_key_12345", &inputs, proof),
        Ok(false)
    );
}

#[test]
fn structural_backend_matches_fallback() {
    let backend = ProofVerifier::StructuralFallback;
    let inputs = vec!["123".to_string(), "456".to_string()];
    assert_eq!(
        backend.verify("vk_test_key_12345", &inputs, WELL_FORMED_PROOF),
        Ok(true)
    );
    let inputs = vec!["999999".to_string()];
    assert_eq!(
        backend.verify("vk_test_key_12345", &inputs, WELL_FORMED_PROOF),
        Ok(false)
    );
}
