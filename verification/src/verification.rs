//! The verification entry points offered to the ledger layer: the full
//! pairing-based verifier, a structural fallback for builds where the
//! pairing backend is unavailable, and cheap format validators used
//! before storage.
//!
//! The fallback performs format and heuristic checks only — it carries
//! documented simulation hooks and is no security boundary; its whole
//! decision procedure is written down as a specification function that
//! its implementation provably follows.

use vstd::prelude::*;
use vstd::string::StrSliceExecFns;
use crate::error::ContractError;
use crate::groth16::{
    groth16_accepts,
    input_texts,
    inputs_wire_ok,
    proof_of_wire,
    proof_wire_ok,
    verify_groth16_proof,
    vk_of_wire,
    vk_wire_ok,
    wire_input_vals,
};
use crate::numeral::{all_dec_digits, dec_val, parse_u64_chars};
use crate::text::{
    chars_contain,
    chars_end_with,
    chars_eq,
    chars_start_with,
    contains_seq,
    ends_with_seq,
    starts_with_seq,
    to_chars,
};

verus! {

/// A public input the fallback accepts: an unsigned 64-bit decimal
/// numeral, or anything `0x`-prefixed.
pub open spec fn valid_fallback_input(s: Seq<char>) -> bool {
    (s.len() > 0 && all_dec_digits(s) && dec_val(s) <= u64::MAX) || starts_with_seq(s, "0x"@)
}

/// The text of each public-input string.
pub open spec fn input_views(inputs: Seq<String>) -> Seq<Seq<char>> {
    inputs.map_values(|s: String| s@)
}

/// The complete decision of the fallback validator.
///
/// Empty or too-short inputs and a proof without the object shape or
/// the three proof keys are format errors; the `999999` input and the
/// `invalid_test_proof` marker are simulation hooks that force a
/// negative result; a key containing `malformed` is rejected.
pub open spec fn fallback_spec(vk: Seq<char>, inputs: Seq<Seq<char>>, proof: Seq<char>) -> Result<
    bool,
    ContractError,
> {
    if vk.len() == 0 {
        Err(ContractError::EmptyVerificationKey {})
    } else if proof.len() == 0 {
        Err(ContractError::EmptyProof {})
    } else if vk.len() < 10 {
        Err(ContractError::InvalidVerificationKey {})
    } else if !(starts_with_seq(proof, "{"@) && ends_with_seq(proof, "}"@)) {
        Err(ContractError::InvalidProof {})
    } else if proof.len() < 20 {
        Err(ContractError::InvalidProof {})
    } else if !(contains_seq(proof, "pi_a"@) && contains_seq(proof, "pi_b"@) && contains_seq(
        proof,
        "pi_c"@,
    )) {
        Err(ContractError::InvalidProof {})
    } else if exists|i: int| 0 <= i < inputs.len() && !valid_fallback_input(#[trigger] inputs[i]) {
        Err(ContractError::InvalidPublicInputs {})
    } else if contains_seq(proof, "invalid_test_proof"@) {
        Ok(false)
    } else if contains_seq(vk, "malformed"@) {
        Err(ContractError::InvalidVerificationKey {})
    } else if exists|i: int| 0 <= i < inputs.len() && #[trigger] inputs[i] == "999999"@ {
        Ok(false)
    } else {
        Ok(true)
    }
}

/// Validates the fallback inputs and applies its heuristics; the result
/// is exactly `fallback_spec` applied to the given strings.
#[verifier::loop_isolation(false)]
pub fn verify_proof_simplified(
    verification_key: &str,
    public_inputs: &[String],
    proof: &str,
) -> (r: Result<bool, ContractError>)
    ensures
        r == fallback_spec(verification_key@, input_views(public_inputs@), proof@),
{
    let vkc = to_chars(verification_key);
    let pc = to_chars(proof);
    if vkc.len() == 0 {
        return Err(ContractError::EmptyVerificationKey {});
    }
    if pc.len() == 0 {
        return Err(ContractError::EmptyProof {});
    }
    if vkc.len() < 10 {
        return Err(ContractError::InvalidVerificationKey {});
    }
    let open_brace = to_chars("{");
    let close_brace = to_chars("}");
    if !(chars_start_with(&pc, &open_brace) && chars_end_with(&pc, &close_brace)) {
        return Err(ContractError::InvalidProof {});
    }
    if pc.len() < 20 {
        return Err(ContractError::InvalidProof {});
    }
    let pi_a = to_chars("pi_a");
    let pi_b = to_chars("pi_b");
    let pi_c = to_chars("pi_c");
    if !(chars_contain(&pc, &pi_a) && chars_contain(&pc, &pi_b) && chars_contain(&pc, &pi_c)) {
        return Err(ContractError::InvalidProof {});
    }
    let prefix_0x = to_chars("0x");
    let mut i: usize = 0;
    while i < public_inputs.len()
        invariant
            i <= public_inputs@.len(),
            prefix_0x@ == "0x"@,
            forall|k: int|
                0 <= k < i ==> valid_fallback_input(#[trigger] input_views(public_inputs@)[k]),
        decreases public_inputs@.len() - i,
    {
        let cs = to_chars(public_inputs[i].as_str());
        proof {
            assert(input_views(public_inputs@)[i as int] == public_inputs@[i as int]@);
        }
        let decimal_ok = match parse_u64_chars(&cs) {
            Some(_) => true,
            None => false,
        };
        let hex_prefixed = chars_start_with(&cs, &prefix_0x);
        if !decimal_ok && !hex_prefixed {
            proof {
                assert(input_views(public_inputs@).len() == public_inputs@.len());
                assert(!valid_fallback_input(input_views(public_inputs@)[i as int]));
            }
            return Err(ContractError::InvalidPublicInputs {});
        }
        i = i + 1;
    }
    proof {
        assert(input_views(public_inputs@).len() == public_inputs@.len());
        assert(forall|k: int|
            0 <= k < public_inputs@.len() ==> valid_fallback_input(
                #[trigger] input_views(public_inputs@)[k],
            ));
        assert(!(exists|k: int|
            0 <= k < input_views(public_inputs@).len() && !valid_fallback_input(
                #[trigger] input_views(public_inputs@)[k],
            )));
    }
    let marker = to_chars("invalid_test_proof");
    if chars_contain(&pc, &marker) {
        return Ok(false);
    }
    let malformed = to_chars("malformed");
    if chars_contain(&vkc, &malformed) {
        return Err(ContractError::InvalidVerificationKey {});
    }
    let sentinel = to_chars("999999");
    let mut j: usize = 0;
    while j < public_inputs.len()
        invariant
            j <= public_inputs@.len(),
            sentinel@ == "999999"@,
            forall|k: int| 0 <= k < j ==> #[trigger] input_views(public_inputs@)[k] != "999999"@,
        decreases public_inputs@.len() - j,
    {
        let cs = to_chars(public_inputs[j].as_str());
        proof {
            assert(input_views(public_inputs@)[j as int] == public_inputs@[j as int]@);
        }
        if chars_eq(&cs, &sentinel) {
            return Ok(false);
        }
        j = j + 1;
    }
    Ok(true)
}

/// Verifies a proof against a verification key and public inputs.
///
/// This entry point serves builds without the pairing backend: it
/// delegates to the structural fallback, whose decision is stated by
/// `fallback_spec`.  The pairing-based path is available through
/// `ProofVerifier::Groth16Pairing` or `verify_groth16_proof`.
pub fn verify_proof(verification_key: &str, public_inputs: &[String], proof: &str) -> (r: Result<
    bool,
    ContractError,
>)
    ensures
        r == fallback_spec(verification_key@, input_views(public_inputs@), proof@),
{
    verify_proof_simplified(verification_key, public_inputs, proof)
}

/// The verification backend, chosen at composition time: the real
/// pairing check, or the structural fallback for environments where the
/// pairing library cannot be linked.
#[derive(Clone, Copy, Debug, PartialEq, Eq)]
pub enum ProofVerifier {
    /// Full Groth16 pairing verification.
    Groth16Pairing,
    /// Structural checks only; no cryptography.
    StructuralFallback,
}

impl ProofVerifier {
    /// Verifies with the selected backend.
    pub fn verify(&self, verification_key: &str, public_inputs: &[String], proof: &str) -> (r:
        Result<bool, ContractError>)
        ensures
            self is StructuralFallback ==> r == fallback_spec(
                verification_key@,
                input_views(public_inputs@),
                proof@,
            ),
            self is Groth16Pairing && !vk_wire_ok(verification_key@) ==> r == Err::<
                bool,
                ContractError,
            >(ContractError::InvalidVerificationKey {}),
            self is Groth16Pairing && vk_wire_ok(verification_key@) && !proof_wire_ok(proof@) ==> r
                == Err::<bool, ContractError>(ContractError::InvalidProof {}),
            self is Groth16Pairing && vk_wire_ok(verification_key@) && proof_wire_ok(proof@)
                && !inputs_wire_ok(input_texts(public_inputs@)) ==> r == Err::<bool, ContractError>(
                ContractError::InvalidPublicInputs {},
            ),
            self is Groth16Pairing && vk_wire_ok(verification_key@) && proof_wire_ok(proof@)
                && inputs_wire_ok(input_texts(public_inputs@)) && vk_of_wire(
                verification_key@,
            ).gamma_abc_g1.len() != public_inputs@.len() + 1 ==> r == Err::<bool, ContractError>(
                ContractError::PublicInputCountMismatch {},
            ),
            self is Groth16Pairing && vk_wire_ok(verification_key@) && proof_wire_ok(proof@)
                && inputs_wire_ok(input_texts(public_inputs@)) && vk_of_wire(
                verification_key@,
            ).gamma_abc_g1.len() == public_inputs@.len() + 1 ==> r == Ok::<bool, ContractError>(
                groth16_accepts(
                    vk_of_wire(verification_key@),
                    wire_input_vals(input_texts(public_inputs@)),
                    proof_of_wire(proof@),
                ),
            ),
    {
        match self {
            ProofVerifier::Groth16Pairing => verify_groth16_proof(
                verification_key,
                public_inputs,
                proof,
            ),
            ProofVerifier::StructuralFallback => verify_proof_simplified(
                verification_key,
                public_inputs,
                proof,
            ),
        }
    }
}

/// Checks the shape of a verification key before storage: it must be
/// non-empty and at least ten characters long.
pub fn validate_verification_key(vk: &str) -> (r: Result<(), ContractError>)
    ensures
        vk@.len() == 0 ==> r == Err::<(), ContractError>(ContractError::EmptyVerificationKey {}),
        0 < vk@.len() < 10 ==> r == Err::<(), ContractError>(
            ContractError::InvalidVerificationKey {},
        ),
        vk@.len() >= 10 ==> r == Ok::<(), ContractError>(()),
{
    let n = vk.unicode_len();
    if n == 0 {
        return Err(ContractError::EmptyVerificationKey {});
    }
    if n < 10 {
        return Err(ContractError::InvalidVerificationKey {});
    }
    Ok(())
}

/// Checks the shape of a proof before storage: non-empty, at least
/// twenty characters, an object-shaped string carrying the three
/// Groth16 components `pi_a`, `pi_b` and `pi_c`.
pub fn validate_proof(proof: &str) -> (r: Result<(), ContractError>)
    ensures
        proof@.len() == 0 ==> r == Err::<(), ContractError>(ContractError::EmptyProof {}),
        0 < proof@.len() < 20 ==> r == Err::<(), ContractError>(ContractError::InvalidProof {}),
        proof@.len() >= 20 && !(starts_with_seq(proof@, "{"@) && ends_with_seq(proof@, "}"@)) ==> r
            == Err::<(), ContractError>(ContractError::InvalidProof {}),
        proof@.len() >= 20 && starts_with_seq(proof@, "{"@) && ends_with_seq(proof@, "}"@) && !(
        contains_seq(proof@, "pi_a"@) && contains_seq(proof@, "pi_b"@) && contains_seq(
            proof@,
            "pi_c"@,
        )) ==> r == Err::<(), ContractError>(ContractError::InvalidProof {}),
        proof@.len() >= 20 && starts_with_seq(proof@, "{"@) && ends_with_seq(proof@, "}"@)
            && contains_seq(proof@, "pi_a"@) && contains_seq(proof@, "pi_b"@) && contains_seq(
            proof@,
            "pi_c"@,
        ) ==> r == Ok::<(), ContractError>(()),
{
    let pc = to_chars(proof);
    if pc.len() == 0 {
        return Err(ContractError::EmptyProof {});
    }
    if pc.len() < 20 {
        return Err(ContractError::InvalidProof {});
    }
    let open_brace = to_chars("{");
    let close_brace = to_chars("}");
    if !(chars_start_with(&pc, &open_brace) && chars_end_with(&pc, &close_brace)) {
        return Err(ContractError::InvalidProof {});
    }
    let pi_a = to_chars("pi_a");
    let pi_b = to_chars("pi_b");
    let pi_c = to_chars("pi_c");
    if !(chars_contain(&pc, &pi_a) && chars_contain(&pc, &pi_b) && chars_contain(&pc, &pi_c)) {
        return Err(ContractError::InvalidProof {});
    }
    Ok(())
}

} // verus!
