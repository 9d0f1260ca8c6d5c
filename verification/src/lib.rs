//! Groth16 proof verification over the BN254 curve.
//!
//! The crate parses verification keys and proofs from their JSON wire
//! format, decodes projective curve points into affine form, and runs the
//! pairing-based verification equation.  A structural fallback validator is
//! provided for environments where the pairing backend is unavailable,
//! together with the determinism and encryption-at-rest utilities the
//! surrounding ledger relies on.

pub mod curve;
pub mod determinism_audit;
pub mod encryption;
pub mod error;
pub mod field;
pub mod groth16;
pub mod numeral;
pub mod text;
pub mod verification;
pub mod wire;

pub use error::ContractError;
