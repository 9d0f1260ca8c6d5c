//! Error taxonomy of the verifier.
//!
//! Format errors report caller-input problems (malformed JSON, bad
//! numerals, wrong arities); they are always surfaced as structured
//! rejections.  A pairing equation that simply does not hold is *not* an
//! error: it is an ordinary `false` verification result.

use vstd::prelude::*;

verus! {

/// Structured errors returned by the verification pipeline.
#[derive(Debug, Clone, PartialEq, Eq)]
pub enum ContractError {
    /// The verification-key JSON is malformed or misses a required key.
    InvalidVerificationKey {},
    /// The proof JSON is malformed or misses a required key.
    InvalidProof {},
    /// A public input is neither a decimal nor a `0x`-prefixed numeral.
    InvalidPublicInputs {},
    /// The verification key string is empty.
    EmptyVerificationKey {},
    /// The proof string is empty.
    EmptyProof {},
    /// A coordinate string is neither valid hex nor valid decimal.
    MalformedFieldElement {},
    /// A point encoding has the wrong shape (arity or nesting).
    MalformedPoint {},
    /// A projective `Z` coordinate admits no field inverse.
    NonInvertibleCoordinate {},
    /// The key length does not match the number of public inputs.
    PublicInputCountMismatch {},
    /// An operation outside the deterministic allow-list was requested.
    NonDeterministicOperation { operation: String },
    /// Checked addition or multiplication overflowed.
    IntegerOverflow { operation: String, operands: String },
    /// Checked subtraction underflowed.
    IntegerUnderflow { operation: String, operands: String },
    /// Division by zero was attempted.
    DivisionByZero {},
    /// Symmetric encryption failed.
    EncryptionError {},
    /// Symmetric decryption failed.
    DecryptionError {},
    /// A decrypted payload failed its integrity check.
    IntegrityError {},
}

} // verus!
