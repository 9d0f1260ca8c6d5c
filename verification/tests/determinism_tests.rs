//! Tests of the determinism utilities: audit, sorting and checked
//! arithmetic.

use sha2::{Digest, Sha256};
use zk_verifier::determinism_audit::{
    audit_determinism, deterministic_hash_from_parts, deterministic_id_from_parts,
    safe_arithmetic_add, safe_arithmetic_div, safe_arithmetic_mul, safe_arithmetic_sub,
    sort_addresses_deterministic, sort_proposals_deterministic,
    validate_deterministic_operation, IssueSeverity,
};
use zk_verifier::error::ContractError;

#[test]
fn test_safe_arithmetic() {
    assert_eq!(safe_arithmetic_add(5, 3).unwrap(), 8);
    assert_eq!(safe_arithmetic_sub(10, 4).unwrap(), 6);
    assert_eq!(safe_arithmetic_mul(6, 7).unwrap(), 42);
    assert_eq!(safe_arithmetic_div(15, 3).unwrap(), 5);

    // Test overflow
    assert!(safe_arithmetic_add(u64::MAX, 1).is_err());

    // Test underflow
    assert!(safe_arithmetic_sub(5, 10).is_err());

    // Test division by zero
    assert!(safe_arithmetic_div(10, 0).is_err());
}

#[test]
fn test_deterministic_sorting() {
    let mut addresses = vec![
        "cosmos1abc".to_string(),
        "cosmos1xyz".to_string(),
        "cosmos1def".to_string(),
    ];

    sort_addresses_deterministic(&mut addresses);

    assert_eq!(addresses[0], "cosmos1abc");
    assert_eq!(addresses[1], "cosmos1def");
    assert_eq!(addresses[2], "cosmos1xyz");
}

#[test]
fn test_audit_determinism() {
    let issues = audit_determinism();
    assert!(!issues.is_empty());

    // Should not find any critical issues in our implementation
    let critical_issues: Vec<_> = issues
        .iter()
        .filter(|issue| matches!(issue.severity, IssueSeverity::Critical))
        .collect();
    assert_eq!(critical_issues.len(), 0);
}

#[test]
fn proposal_sort_orders_by_key() {
    let mut items: Vec<(u64, String)> = vec![
        (30, "c".to_string()),
        (10, "a".to_string()),
        (20, "b".to_string()),
    ];
    sort_proposals_deterministic(&mut items);
    assert_eq!(items[0].0, 10);
    assert_eq!(items[1].0, 20);
    assert_eq!(items[2].0, 30);
    assert_eq!(items.len(), 3);
}

#[test]
fn overflow_error_reports_the_operands() {
    match safe_arithmetic_add(u64::MAX, 2) {
        Err(ContractError::IntegerOverflow {
            operation,
            operands,
        }) => {
            assert_eq!(operation, "addition");
            assert_eq!(operands, format!("{} + {}", u64::MAX, 2u64));
        }
        other => panic!("expected an overflow error, got {:?}", other),
    }
    match safe_arithmetic_sub(1, 3) {
        Err(ContractError::IntegerUnderflow {
            operation,
            operands,
        }) => {
            assert_eq!(operation, "subtraction");
            assert_eq!(operands, "1 - 3");
        }
        other => panic!("expected an underflow error, got {:?}", other),
    }
}

#[test]
fn operation_allow_list_is_exact() {
    assert!(validate_deterministic_operation("block_time").is_ok());
    assert!(validate_deterministic_operation("storage_operations").is_ok());
    match validate_deterministic_operation("system_clock") {
        Err(ContractError::NonDeterministicOperation { operation }) => {
            assert_eq!(operation, "system_clock");
        }
        other => panic!("expected a rejection, got {:?}", other),
    }
}

#[test]
fn block_hash_matches_a_reference_digest() {
    let h = deterministic_hash_from_parts("chain-1", 7, 1600000000, "alice", "payload");
    let mut hasher = Sha256::new();
    hasher.update("chain-1".as_bytes());
    hasher.update(7u64.to_be_bytes());
    hasher.update(1600000000u64.to_be_bytes());
    hasher.update("alice".as_bytes());
    hasher.update("payload".as_bytes());
    assert_eq!(h, format!("{:x}", hasher.finalize()));
}

#[test]
fn deterministic_ids_join_their_parts() {
    assert_eq!(
        deterministic_id_from_parts("proof", 12, 34, "alice"),
        "proof_12_34_alice"
    );
}

#[test]
fn proposal_sort_is_stable_for_equal_keys() {
    let mut items: Vec<(u64, String)> = vec![
        (2, "first-two".to_string()),
        (1, "one".to_string()),
        (2, "second-two".to_string()),
        (2, "third-two".to_string()),
    ];
    sort_proposals_deterministic(&mut items);
    assert_eq!(items[0].1, "one");
    assert_eq!(items[1].1, "first-two");
    assert_eq!(items[2].1, "second-two");
    assert_eq!(items[3].1, "third-two");
}
