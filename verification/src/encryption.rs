//! Symmetric encryption at rest for sensitive circuit and proof data.
//!
//! Keys are derived by hashing; payloads are sealed with an
//! authenticated cipher whose random nonce travels in front of the
//! ciphertext, and the whole blob is carried as base64 text.  The
//! cipher, hash and base64 codec are outside crates behind trusted
//! wrappers; what the wrappers promise — that sealing produces a blob
//! the same key opens back to the plaintext — is enough to give every
//! function here an exact contract.

use vstd::prelude::*;
use vstd::slice::slice_subrange;
use vstd::string::StrSliceExecFns;
use vstd::string::StringExecFns;
use vstd::utf8::encode_utf8;
use aes_gcm::aead::{Aead, AeadCore, KeyInit, OsRng};
use aes_gcm::{Aes256Gcm, Key, Nonce};
use base64::engine::general_purpose;
use base64::Engine;
use sha2::{Digest, Sha256};
use crate::error::ContractError;

verus! {

/// The SHA-256 digest of a byte string.  A pure function of its input,
/// named so contracts can speak of it.
pub uninterp spec fn sha256_of(data: Seq<u8>) -> Seq<u8>;

/// What opening a sealed box yields: the plaintext the key, nonce and
/// ciphertext decrypt and decode to, if authentication and decoding
/// succeed.  A pure function of its inputs.
pub uninterp spec fn aead_chars(key: Seq<u8>, nonce: Seq<u8>, ciphertext: Seq<u8>) -> Option<
    Seq<char>,
>;

/// The bytes a base64 text decodes to, if it is valid base64.  A pure
/// function of its input.
pub uninterp spec fn b64_decode_of(text: Seq<char>) -> Option<Seq<u8>>;

/// Relies on `sha2::Sha256`: the 32-byte digest of the input,
/// depending on its bytes alone.
#[verifier::external_body]
pub(crate) fn sha256_digest(data: &[u8]) -> (r: [u8; 32])
    ensures
        r@ == sha256_of(data@),
        r@.len() == 32,
{
    Sha256::digest(data).into()
}

/// Relies on `aes_gcm::Aes256Gcm`: seals the plaintext under a fresh
/// random nonce and returns the nonce followed by the ciphertext.  The
/// nonce is drawn from the operating system, so nothing is promised of
/// the bytes themselves — only that the same key opens them back to the
/// plaintext, which the AEAD round trip guarantees of every outcome.
#[verifier::external_body]
fn aead_seal(key: &[u8; 32], plaintext: &str) -> (r: Result<Vec<u8>, ContractError>)
    ensures
        r matches Ok(c) ==> c@.len() >= 12 && aead_chars(
            key@,
            c@.subrange(0, 12),
            c@.subrange(12, c@.len() as int),
        ) == Some(plaintext@),
        r matches Err(e) ==> e == (ContractError::EncryptionError {}),
{
    let cipher = Aes256Gcm::new(Key::<Aes256Gcm>::from_slice(key));
    let nonce = Aes256Gcm::generate_nonce(&mut OsRng);
    let ciphertext = cipher.encrypt(&nonce, plaintext.as_bytes()).map_err(
        |_| ContractError::EncryptionError {},
    )?;
    let mut out = nonce.to_vec();
    out.extend_from_slice(&ciphertext);
    Ok(out)
}

/// Relies on `aes_gcm::Aes256Gcm`: opens a sealed box and decodes the
/// plaintext as text; authentication or decoding failure yields
/// nothing.  The result depends only on key, nonce and ciphertext.
#[verifier::external_body]
fn aead_open_str(key: &[u8; 32], nonce: &[u8], ciphertext: &[u8]) -> (r: Option<String>)
    requires
        nonce@.len() == 12,
    ensures
        r is Some <==> aead_chars(key@, nonce@, ciphertext@) is Some,
        r matches Some(p) ==> aead_chars(key@, nonce@, ciphertext@) == Some(p@),
{
    let cipher = Aes256Gcm::new(Key::<Aes256Gcm>::from_slice(key));
    let plaintext = cipher.decrypt(Nonce::from_slice(nonce), ciphertext).ok()?;
    String::from_utf8(plaintext).ok()
}

/// Relies on `base64::engine::general_purpose::STANDARD`: encodes bytes
/// as base64 text that decodes back to exactly those bytes.
#[verifier::external_body]
fn b64_encode(bytes: &Vec<u8>) -> (r: String)
    ensures
        b64_decode_of(r@) == Some(bytes@),
{
    general_purpose::STANDARD.encode(bytes)
}

/// Relies on `base64::engine::general_purpose::STANDARD`: decodes
/// base64 text, failing exactly on invalid input.
#[verifier::external_body]
fn b64_decode(text: &str) -> (r: Result<Vec<u8>, ContractError>)
    ensures
        r is Ok <==> b64_decode_of(text@) is Some,
        r matches Ok(v) ==> b64_decode_of(text@) == Some(v@),
        r matches Err(e) ==> e == (ContractError::DecryptionError {}),
{
    general_purpose::STANDARD.decode(text).map_err(|_| ContractError::DecryptionError {})
}

/// The plaintext a stored blob opens to under `key`: base64-decode,
/// split off the twelve-byte nonce, then open the box.
pub open spec fn decrypts_to(key: Seq<u8>, blob: Seq<char>) -> Option<Seq<char>> {
    match b64_decode_of(blob) {
        Option::None => Option::None,
        Option::Some(bytes) => {
            if bytes.len() < 12 {
                Option::None
            } else {
                aead_chars(key, bytes.subrange(0, 12), bytes.subrange(12, bytes.len() as int))
            }
        },
    }
}

/// Encryption service for sensitive data, holding a key derived from a
/// master key.
#[derive(Clone)]
pub struct EncryptionService {
    key: [u8; 32],
}

impl View for EncryptionService {
    type V = Seq<u8>;

    closed spec fn view(&self) -> Seq<u8> {
        self.key@
    }
}

impl EncryptionService {
    /// Derives the service key by hashing the master key.
    pub fn new(master_key: &str) -> (r: EncryptionService)
        ensures
            r@ == sha256_of(encode_utf8(master_key@)),
    {
        EncryptionService { key: sha256_digest(master_key.as_bytes()) }
    }

    /// Seals a plaintext; the returned base64 blob opens back to it
    /// under this service's key.
    pub fn encrypt(&self, plaintext: &str) -> (r: Result<String, ContractError>)
        ensures
            r matches Ok(c) ==> decrypts_to(self@, c@) == Some(plaintext@),
            r is Err ==> r == Err::<String, ContractError>(ContractError::EncryptionError {}),
    {
        let sealed = match aead_seal(&self.key, plaintext) {
            Ok(s) => s,
            Err(e) => {
                return Err(e);
            },
        };
        Ok(b64_encode(&sealed))
    }

    /// Opens a stored blob; succeeds exactly when the blob decodes and
    /// authenticates under this service's key.
    pub fn decrypt(&self, encrypted_data: &str) -> (r: Result<String, ContractError>)
        ensures
            r is Ok <==> decrypts_to(self@, encrypted_data@) is Some,
            r matches Ok(p) ==> decrypts_to(self@, encrypted_data@) == Some(p@),
            r is Err ==> r == Err::<String, ContractError>(ContractError::DecryptionError {}),
    {
        let bytes = match b64_decode(encrypted_data) {
            Ok(v) => v,
            Err(e) => {
                return Err(e);
            },
        };
        if bytes.len() < 12 {
            return Err(ContractError::DecryptionError {});
        }
        let nonce = slice_subrange(bytes.as_slice(), 0, 12);
        let ciphertext = slice_subrange(bytes.as_slice(), 12, bytes.len());
        match aead_open_str(&self.key, nonce, ciphertext) {
            Some(p) => Ok(p),
            None => Err(ContractError::DecryptionError {}),
        }
    }
}

/// The lowercase hexadecimal rendering of a byte string.
pub open spec fn hex_lower_of(bytes: Seq<u8>) -> Seq<char>
    decreases bytes.len(),
{
    if bytes.len() == 0 {
        Seq::<char>::empty()
    } else {
        hex_lower_of(bytes.drop_last()) + seq![
            hex_digit_char(bytes.last() as int / 16),
            hex_digit_char(bytes.last() as int % 16),
        ]
    }
}

/// The lowercase character for a single hexadecimal digit.
pub open spec fn hex_digit_char(d: int) -> char {
    if d == 0 {
        '0'
    } else if d == 1 {
        '1'
    } else if d == 2 {
        '2'
    } else if d == 3 {
        '3'
    } else if d == 4 {
        '4'
    } else if d == 5 {
        '5'
    } else if d == 6 {
        '6'
    } else if d == 7 {
        '7'
    } else if d == 8 {
        '8'
    } else if d == 9 {
        '9'
    } else if d == 10 {
        'a'
    } else if d == 11 {
        'b'
    } else if d == 12 {
        'c'
    } else if d == 13 {
        'd'
    } else if d == 14 {
        'e'
    } else {
        'f'
    }
}

/// Renders a single hexadecimal digit as a borrowed one-character
/// string.
fn hex_digit_str(d: u8) -> (r: &'static str)
    requires
        d <= 15,
    ensures
        r@ == seq![hex_digit_char(d as int)],
{
    let digits = "0123456789abcdef";
    proof {
        reveal_strlit("0123456789abcdef");
    }
    let r = digits.substring_ascii(d as usize, d as usize + 1);
    proof {
        assert(r@ =~= seq![hex_digit_char(d as int)]);
    }
    r
}

/// Renders a digest as lowercase hexadecimal text.
pub(crate) fn hex_string(bytes: &[u8; 32]) -> (r: String)
    ensures
        r@ == hex_lower_of(bytes@),
{
    let mut s = String::new();
    let mut i: usize = 0;
    while i < 32
        invariant
            i <= 32,
            bytes@.len() == 32,
            s@ == hex_lower_of(bytes@.subrange(0, i as int)),
        decreases 32 - i,
    {
        let b = bytes[i];
        let hi = b / 16;
        let lo = b % 16;
        s.append(hex_digit_str(hi));
        s.append(hex_digit_str(lo));
        proof {
            let pre = bytes@.subrange(0, i + 1);
            assert(pre.drop_last() =~= bytes@.subrange(0, i as int));
            assert(pre.last() == bytes@[i as int]);
            assert(s@ =~= hex_lower_of(bytes@.subrange(0, i + 1)));
        }
        i = i + 1;
    }
    proof {
        assert(bytes@.subrange(0, 32) =~= bytes@);
    }
    s
}

/// An encrypted payload together with a digest of its plaintext for
/// integrity checking.
#[derive(Clone)]
pub struct EncryptedData {
    pub encrypted_value: String,
    pub hash: String,
}

impl EncryptedData {
    /// Seals a plaintext and records its digest.
    pub fn new(plaintext: &str, encryption_service: &EncryptionService) -> (r: Result<
        EncryptedData,
        ContractError,
    >)
        ensures
            r matches Ok(d) ==> decrypts_to(encryption_service@, d.encrypted_value@) == Some(
                plaintext@,
            ) && d.hash@ == hex_lower_of(sha256_of(encode_utf8(plaintext@))),
            r is Err ==> r == Err::<EncryptedData, ContractError>(
                ContractError::EncryptionError {},
            ),
    {
        let encrypted_value = match encryption_service.encrypt(plaintext) {
            Ok(c) => c,
            Err(e) => {
                return Err(e);
            },
        };
        let hash = Self::compute_hash(plaintext);
        Ok(EncryptedData { encrypted_value, hash })
    }

    /// Opens the payload and verifies its integrity against the stored
    /// digest: the result is exactly the plaintext that was sealed, or
    /// a decryption or integrity error.
    pub fn decrypt(&self, encryption_service: &EncryptionService) -> (r: Result<
        String,
        ContractError,
    >)
        ensures
            r is Ok <==> (decrypts_to(encryption_service@, self.encrypted_value@) matches Some(p)
                && self.hash@ == hex_lower_of(sha256_of(encode_utf8(p)))),
            r matches Ok(p) ==> decrypts_to(encryption_service@, self.encrypted_value@) == Some(p@)
                && self.hash@ == hex_lower_of(sha256_of(encode_utf8(p@))),
            decrypts_to(encryption_service@, self.encrypted_value@) is None ==> r == Err::<
                String,
                ContractError,
            >(ContractError::DecryptionError {}),
            decrypts_to(encryption_service@, self.encrypted_value@) matches Some(p) && self.hash@
                != hex_lower_of(sha256_of(encode_utf8(p))) ==> r == Err::<String, ContractError>(
                ContractError::IntegrityError {},
            ),
    {
        let plaintext = match encryption_service.decrypt(self.encrypted_value.as_str()) {
            Ok(p) => p,
            Err(_) => {
                return Err(ContractError::DecryptionError {});
            },
        };
        let computed_hash = Self::compute_hash(plaintext.as_str());
        if !computed_hash.eq(&self.hash) {
            return Err(ContractError::IntegrityError {});
        }
        Ok(plaintext)
    }

    /// The digest recorded beside a sealed payload.
    fn compute_hash(data: &str) -> (r: String)
        ensures
            r@ == hex_lower_of(sha256_of(encode_utf8(data@))),
    {
        let digest = sha256_digest(data.as_bytes());
        hex_string(&digest)
    }
}

/// Derivation of per-purpose encryption keys from a master key.
pub struct KeyDerivation;

impl KeyDerivation {
    /// The key text protecting a circuit's verification key: the digest
    /// of master key, purpose tag and circuit id.
    pub fn verification_key(circuit_id: &str, master_key: &str) -> (r: String)
        ensures
            r@ == hex_lower_of(sha256_of(encode_utf8(master_key@ + "verification_key"@ + circuit_id@))),
    {
        let mut joined = String::from_str(master_key);
        joined.append("verification_key");
        joined.append(circuit_id);
        let digest = sha256_digest(joined.as_str().as_bytes());
        hex_string(&digest)
    }

    /// The key text protecting a stored proof.
    pub fn proof_key(proof_id: &str, master_key: &str) -> (r: String)
        ensures
            r@ == hex_lower_of(sha256_of(encode_utf8(master_key@ + "proof"@ + proof_id@))),
    {
        let mut joined = String::from_str(master_key);
        joined.append("proof");
        joined.append(proof_id);
        let digest = sha256_digest(joined.as_str().as_bytes());
        hex_string(&digest)
    }

    /// The key text protecting governance data.
    pub fn governance_key(master_key: &str) -> (r: String)
        ensures
            r@ == hex_lower_of(sha256_of(encode_utf8(master_key@ + "governance"@))),
    {
        let mut joined = String::from_str(master_key);
        joined.append("governance");
        let digest = sha256_digest(joined.as_str().as_bytes());
        hex_string(&digest)
    }
}

} // verus!
