//! End-to-end tests of the pairing-based verifier: a real Groth16
//! setup and prover produce a key and proof over BN254, which are
//! rendered into the JSON wire format and fed to the library.

use ark_bn254::{Bn254, Fr, G1Affine, G2Affine};
use ark_ff::PrimeField;
use ark_groth16::Groth16;
use ark_relations::r1cs::{
    ConstraintSynthesizer, ConstraintSystemRef, LinearCombination, SynthesisError,
};
use ark_snark::SNARK;
use ark_std::rand::rngs::StdRng;
use ark_std::rand::SeedableRng;
use zk_verifier::error::ContractError;
use zk_verifier::groth16::{parse_snarkjs_proof, parse_verification_key, verify_groth16_proof};

/// Knows factors a and b of the public product c.
struct ProductCircuit {
    a: Option<Fr>,
    b: Option<Fr>,
    c: Option<Fr>,
}

impl ConstraintSynthesizer<Fr> for ProductCircuit {
    fn generate_constraints(self, cs: ConstraintSystemRef<Fr>) -> Result<(), SynthesisError> {
        let a = cs.new_witness_variable(|| self.a.ok_or(SynthesisError::AssignmentMissing))?;
        let b = cs.new_witness_variable(|| self.b.ok_or(SynthesisError::AssignmentMissing))?;
        let c = cs.new_input_variable(|| self.c.ok_or(SynthesisError::AssignmentMissing))?;
        cs.enforce_constraint(
            LinearCombination::from(a),
            LinearCombination::from(b),
            LinearCombination::from(c),
        )?;
        Ok(())
    }
}

fn g1_json(p: &G1Affine) -> String {
    format!(
        "[\"{}\", \"{}\", \"1\"]",
        p.x.into_bigint(),
        p.y.into_bigint()
    )
}

fn g2_json(p: &G2Affine) -> String {
    format!(
        "[[\"{}\", \"{}\"], [\"{}\", \"{}\"], [\"1\", \"0\"]]",
        p.x.c0.into_bigint(),
        p.x.c1.into_bigint(),
        p.y.c0.into_bigint(),
        p.y.c1.into_bigint()
    )
}

fn wire_artifacts() -> (String, Vec<String>, String) {
    let mut rng = StdRng::seed_from_u64(20240601);
    let setup_circuit = ProductCircuit {
        a: None,
        b: None,
        c: None,
    };
    let (pk, vk) = Groth16::<Bn254>::circuit_specific_setup(setup_circuit, &mut rng).unwrap();

    let a = Fr::from(3u64);
    let b = Fr::from(5u64);
    let c = a * b;
    let prove_circuit = ProductCircuit {
        a: Some(a),
        b: Some(b),
        c: Some(c),
    };
    let proof = Groth16::<Bn254>::prove(&pk, prove_circuit, &mut rng).unwrap();

    let ic_json: Vec<String> = vk.gamma_abc_g1.iter().map(g1_json).collect();
    let vk_json = format!(
        "{{\"protocol\": \"groth16\", \"curve\": \"bn128\", \"vk_alpha_1\": {}, \"vk_beta_2\": {}, \"vk_gamma_2\": {}, \"vk_delta_2\": {}, \"IC\": [{}]}}",
        g1_json(&vk.alpha_g1),
        g2_json(&vk.beta_g2),
        g2_json(&vk.gamma_g2),
        g2_json(&vk.delta_g2),
        ic_json.join(", ")
    );
    let proof_json = format!(
        "{{\"pi_a\": {}, \"pi_b\": {}, \"pi_c\": {}}}",
        g1_json(&proof.a),
        g2_json(&proof.b),
        g1_json(&proof.c)
    );
    let inputs = vec![c.into_bigint().to_string()];
    (vk_json, inputs, proof_json)
}

#[test]
fn real_groth16_proof_verifies() {
    let (vk_json, inputs, proof_json) = wire_artifacts();
    let result = verify_groth16_proof(&vk_json, &inputs, &proof_json);
    assert_eq!(result, Ok(true));
}

#[test]
fn tampered_proof_is_rejected() {
    let (vk_json, inputs, proof_json) = wire_artifacts();

    // Flip one digit of a coordinate inside pi_a.
    let start = proof_json.find("pi_a").unwrap() + 9;
    let mut chars: Vec<char> = proof_json.chars().collect();
    let mut idx = start;
    while !chars[idx].is_ascii_digit() {
        idx += 1;
    }
    chars[idx] = if chars[idx] == '9' { '8' } else { '9' };
    let tampered: String = chars.into_iter().collect();
    assert_ne!(tampered, proof_json);

    let result = verify_groth16_proof(&vk_json, &inputs, &tampered);
    assert_eq!(result, Ok(false));
}

#[test]
fn wrong_public_input_fails_the_pairing_check() {
    let (vk_json, _inputs, proof_json) = wire_artifacts();
    let wrong = vec!["16".to_string()];
    let result = verify_groth16_proof(&vk_json, &wrong, &proof_json);
    assert_eq!(result, Ok(false));
}

#[test]
fn input_count_mismatch_is_a_format_error() {
    let (vk_json, _inputs, proof_json) = wire_artifacts();
    let too_many = vec!["15".to_string(), "1".to_string()];
    let result = verify_groth16_proof(&vk_json, &too_many, &proof_json);
    assert_eq!(result, Err(ContractError::PublicInputCountMismatch {}));
}

#[test]
fn malformed_wire_formats_are_format_errors() {
    let (vk_json, inputs, proof_json) = wire_artifacts();
    assert_eq!(
        verify_groth16_proof("not json at all", &inputs, &proof_json),
        Err(ContractError::InvalidVerificationKey {})
    );
    assert_eq!(
        verify_groth16_proof(&vk_json, &inputs, "{\"pi_a\": [\"1\", \"2\", \"3\"]}"),
        Err(ContractError::InvalidProof {})
    );
    let bad_inputs = vec!["not_a_number".to_string()];
    assert_eq!(
        verify_groth16_proof(&vk_json, &bad_inputs, &proof_json),
        Err(ContractError::InvalidPublicInputs {})
    );
    // A point with the wrong arity is rejected.
    assert!(parse_snarkjs_proof("{\"pi_a\": [\"1\", \"2\"], \"pi_b\": [[\"1\", \"0\"], [\"1\", \"0\"], [\"1\", \"0\"]], \"pi_c\": [\"1\", \"2\", \"3\"]}").is_err());
    // The parsed verification key for this circuit holds two IC points.
    let vk = parse_verification_key(&vk_json).unwrap();
    assert_eq!(vk.gamma_abc_g1.len(), 2);
}

#[test]
fn degenerate_points_fail_closed() {
    // Coordinates that satisfy the wire format but lie on no curve:
    // (0, 0) as a non-identity point in both groups.  The pairing path
    // must reject the proof with a normal `false`, never abort.
    let (vk_json, inputs, _proof_json) = wire_artifacts();
    let degenerate = "{\"pi_a\": [\"0\", \"0\", \"1\"], \"pi_b\": [[\"0\", \"0\"], [\"0\", \"0\"], [\"1\", \"0\"]], \"pi_c\": [\"0\", \"0\", \"1\"]}";
    let result = verify_groth16_proof(&vk_json, &inputs, degenerate);
    assert_eq!(result, Ok(false));
}
