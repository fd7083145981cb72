//! Cryptographic primitives of the adjacent end-to-end-encryption layer:
//! AES-256-GCM sealing for payloads and per-frame voice encryption (with a
//! frame counter as nonce), and Ed25519 identity keys. The ciphers and
//! signatures come from an outside library; the nonce construction and the
//! plumbing around the calls are verified.

use crate::error::AppError;
use argon2::password_hash::{rand_core::OsRng, PasswordHash, PasswordHasher, PasswordVerifier, SaltString};
use ring::rand::SecureRandom;
use ring::signature::KeyPair;
use sha2::Digest;
use vstd::prelude::*;
use vstd::string::StringSliceAdditionalSpecFns;

verus! {

/// What AES-256-GCM sealing produces: a function of key, nonce and plaintext
/// alone (the ciphertext with the 16-byte tag appended).
pub uninterp spec fn gcm_seal_of(key: Seq<u8>, nonce: Seq<u8>, plaintext: Seq<u8>) -> Seq<u8>;

/// What AES-256-GCM opening produces: the plaintext, or nothing when the key
/// is wrong or the data corrupt; a function of key, nonce and ciphertext
/// alone.
pub uninterp spec fn gcm_open_of(key: Seq<u8>, nonce: Seq<u8>, ciphertext: Seq<u8>) -> Option<
    Seq<u8>,
>;

/// Whether an Ed25519 signature over a message verifies under a public key;
/// a function of the three byte strings alone.
pub uninterp spec fn ed25519_verify_of(public_key: Seq<u8>, message: Seq<u8>, signature: Seq<
    u8,
>) -> bool;

/// Whether a password matches an Argon2 password-hash string; a function of
/// the two alone.
pub uninterp spec fn argon2_matches(password: Seq<u8>, hash: Seq<char>) -> bool;

/// Whether a string parses as a PHC password-hash string
/// (`PasswordHash::new`); a function of the string alone.
pub uninterp spec fn phc_parses(hash: Seq<char>) -> bool;

/// What HKDF-SHA256 derives from a secret and an info string (32 bytes);
/// a function of the two alone.
pub uninterp spec fn hkdf_of(secret: Seq<u8>, info: Seq<u8>) -> Seq<u8>;

/// The lowercase-hex SHA-256 digest of a byte string.
pub uninterp spec fn sha256_hex_of(data: Seq<u8>) -> Seq<char>;

/// Largest plaintext AES-256-GCM seals (ring's 32-bit block counter bound).
pub const GCM_MAX_PLAINTEXT_LEN: u64 = 68_719_476_704;

/// Relies on `ring::aead::LessSafeKey::seal_in_place_append_tag` with
/// AES-256-GCM: sealing is deterministic in key, nonce and plaintext, and
/// with a well-sized key and nonce fails only past the algorithm's input
/// cap.
#[verifier::external_body]
fn gcm_seal(key: &[u8; 32], nonce: &[u8], plaintext: &[u8]) -> (r: Option<Vec<u8>>)
    requires
        nonce@.len() == 12,
    ensures
        r matches Some(ct) ==> ct@ == gcm_seal_of(key@, nonce@, plaintext@),
        plaintext@.len() <= GCM_MAX_PLAINTEXT_LEN ==> r is Some,
{
    let unbound = ring::aead::UnboundKey::new(&ring::aead::AES_256_GCM, key).ok()?;
    let sealing = ring::aead::LessSafeKey::new(unbound);
    let n = ring::aead::Nonce::try_assume_unique_for_key(nonce).ok()?;
    let mut in_out = plaintext.to_vec();
    sealing.seal_in_place_append_tag(n, ring::aead::Aad::empty(), &mut in_out).ok()?;
    Some(in_out)
}

/// Relies on `ring::aead::LessSafeKey::open_in_place` with AES-256-GCM:
/// opening is deterministic in key, nonce and ciphertext, and fails exactly
/// on a wrong key or corrupted data.
#[verifier::external_body]
fn gcm_open(key: &[u8; 32], nonce: &[u8], ciphertext: &[u8]) -> (r: Option<Vec<u8>>)
    requires
        nonce@.len() == 12,
    ensures
        r matches Some(pt) ==> gcm_open_of(key@, nonce@, ciphertext@) == Some(pt@),
        r is None ==> gcm_open_of(key@, nonce@, ciphertext@) is None,
{
    let unbound = ring::aead::UnboundKey::new(&ring::aead::AES_256_GCM, key).ok()?;
    let opening = ring::aead::LessSafeKey::new(unbound);
    let n = ring::aead::Nonce::try_assume_unique_for_key(nonce).ok()?;
    let mut in_out = ciphertext.to_vec();
    let pt = opening.open_in_place(n, ring::aead::Aad::empty(), &mut in_out).ok()?;
    Some(pt.to_vec())
}

/// Relies on `ring::rand::SystemRandom::fill`: twelve bytes of randomness;
/// nothing is promised of their values.
#[verifier::external_body]
fn random_nonce() -> (r: Option<Vec<u8>>)
    ensures
        r matches Some(n) ==> n@.len() == 12,
{
    let rng = ring::rand::SystemRandom::new();
    let mut bytes = [0u8; 12];
    rng.fill(&mut bytes).ok()?;
    Some(bytes.to_vec())
}

/// Encrypt with AES-256-GCM under a random nonce. On success the ciphertext
/// is the seal of the plaintext under the returned nonce.
pub fn encrypt_aes256gcm(key: &[u8; 32], plaintext: &[u8]) -> (r: Result<
    (Vec<u8>, Vec<u8>),
    AppError,
>)
    ensures
        r matches Ok(p) ==> p.1@.len() == 12 && p.0@ == gcm_seal_of(key@, p.1@, plaintext@),
        r is Err ==> r->Err_0 is Internal,
{
    let nonce = match random_nonce() {
        Some(n) => n,
        None => return Err(AppError::Internal),
    };
    match gcm_seal(key, nonce.as_slice(), plaintext) {
        Some(ct) => Ok((ct, nonce)),
        None => Err(AppError::Internal),
    }
}

/// Decrypt AES-256-GCM data; fails exactly when the cipher rejects the key,
/// nonce and ciphertext.
pub fn decrypt_aes256gcm(key: &[u8; 32], ciphertext: &[u8], nonce: &[u8]) -> (r: Result<
    Vec<u8>,
    AppError,
>)
    requires
        nonce@.len() == 12,
    ensures
        r matches Ok(pt) ==> gcm_open_of(key@, nonce@, ciphertext@) == Some(pt@),
        r is Err <==> gcm_open_of(key@, nonce@, ciphertext@) is None,
        r is Err ==> r->Err_0 is BadRequest,
{
    match gcm_open(key, nonce, ciphertext) {
        Some(pt) => Ok(pt),
        None => Err(AppError::BadRequest),
    }
}

/// Big-endian byte `k` (0 is the most significant) of a 64-bit value.
pub open spec fn be_byte(x: u64, k: int) -> u8 {
    ((x >> ((56 - 8 * k) as u64)) & 0xFF) as u8
}

/// The voice-frame nonce for a frame counter: four zero bytes, then the
/// counter in big-endian. Counters increase per frame, so nonces never
/// repeat under one key.
pub open spec fn spec_counter_nonce(counter: u64) -> Seq<u8> {
    Seq::new(12, |i: int| if i < 4 { 0u8 } else { be_byte(counter, i - 4) })
}

/// Build the voice-frame nonce for a frame counter.
pub fn counter_nonce(counter: u64) -> (r: Vec<u8>)
    ensures
        r@ == spec_counter_nonce(counter),
{
    let mut out: Vec<u8> = Vec::new();
    out.push(0);
    out.push(0);
    out.push(0);
    out.push(0);
    let mut k: usize = 0;
    while k < 8
        invariant
            k <= 8,
            out@.len() == 4 + k,
            forall|i: int| 0 <= i < 4 ==> out@[i] == 0u8,
            forall|i: int| 0 <= i < k ==> out@[4 + i] == be_byte(counter, i),
        decreases 8 - k,
    {
        let shift: u64 = 56 - 8 * (k as u64);
        let byte: u8 = ((counter >> shift) & 0xFF) as u8;
        proof {
            assert((counter >> shift) & 0xFF < 256) by (bit_vector);
        }
        out.push(byte);
        k = k + 1;
    }
    proof {
        assert(out@ =~= spec_counter_nonce(counter));
    }
    out
}

/// Encrypt a single voice frame: AES-256-GCM with the frame counter as
/// nonce, avoiding per-frame randomness on the hot path. Every frame within
/// the cipher's input cap is sealed.
pub fn encrypt_voice_frame(key: &[u8; 32], frame: &[u8], frame_counter: u64) -> (r: Result<
    Vec<u8>,
    AppError,
>)
    ensures
        r matches Ok(ct) ==> ct@ == gcm_seal_of(key@, spec_counter_nonce(frame_counter), frame@),
        frame@.len() <= GCM_MAX_PLAINTEXT_LEN ==> r is Ok,
        r is Err ==> r->Err_0 is Internal,
{
    let nonce = counter_nonce(frame_counter);
    match gcm_seal(key, nonce.as_slice(), frame) {
        Some(ct) => Ok(ct),
        None => Err(AppError::Internal),
    }
}

/// Decrypt a single voice frame; fails exactly when the cipher rejects it.
pub fn decrypt_voice_frame(key: &[u8; 32], encrypted_frame: &[u8], frame_counter: u64) -> (r:
    Result<Vec<u8>, AppError>)
    ensures
        r matches Ok(pt) ==> gcm_open_of(
            key@,
            spec_counter_nonce(frame_counter),
            encrypted_frame@,
        ) == Some(pt@),
        r is Err <==> gcm_open_of(key@, spec_counter_nonce(frame_counter), encrypted_frame@)
            is None,
        r is Err ==> r->Err_0 is BadRequest,
{
    let nonce = counter_nonce(frame_counter);
    match gcm_open(key, nonce.as_slice(), encrypted_frame) {
        Some(pt) => Ok(pt),
        None => Err(AppError::BadRequest),
    }
}

#[verifier::external_type_specification]
#[verifier::external_body]
pub struct ExEd25519KeyPair(ring::signature::Ed25519KeyPair);

/// A long-term Ed25519 identity signing key.
pub struct IdentityKeyPair {
    pub key_pair: ring::signature::Ed25519KeyPair,
}

impl IdentityKeyPair {
    /// Relies on `ring::signature::Ed25519KeyPair::generate_pkcs8` (and
    /// `from_pkcs8`): a fresh random signing key; nothing is promised of its
    /// value.
    #[verifier::external_body]
    pub fn generate() -> (r: Result<IdentityKeyPair, AppError>)
    {
        let rng = ring::rand::SystemRandom::new();
        let pkcs8 = ring::signature::Ed25519KeyPair::generate_pkcs8(&rng).map_err(
            |_| AppError::Internal,
        )?;
        let key_pair = ring::signature::Ed25519KeyPair::from_pkcs8(pkcs8.as_ref()).map_err(
            |_| AppError::Internal,
        )?;
        Ok(IdentityKeyPair { key_pair })
    }

    /// Relies on `ring::signature::KeyPair::public_key`: the 32-byte Ed25519
    /// public key.
    #[verifier::external_body]
    pub fn public_key(&self) -> (r: Vec<u8>)
        ensures
            r@.len() == 32,
    {
        self.key_pair.public_key().as_ref().to_vec()
    }

    /// Relies on `ring::signature::Ed25519KeyPair::sign`: a 64-byte Ed25519
    /// signature over the message.
    #[verifier::external_body]
    pub fn sign(&self, message: &[u8]) -> (r: Vec<u8>)
        ensures
            r@.len() == 64,
    {
        self.key_pair.sign(message).as_ref().to_vec()
    }
}

/// Relies on `ring::signature::UnparsedPublicKey::verify` with Ed25519:
/// whether the signature verifies depends on the three byte strings alone.
#[verifier::external_body]
pub fn verify_signature(public_key: &[u8], message: &[u8], signature_bytes: &[u8]) -> (r: bool)
    ensures
        r == ed25519_verify_of(public_key@, message@, signature_bytes@),
{
    let key = ring::signature::UnparsedPublicKey::new(&ring::signature::ED25519, public_key);
    key.verify(message, signature_bytes).is_ok()
}

/// Relies on `argon2::Argon2::hash_password` with a random salt: an Argon2id
/// PHC hash string for the password. The salt is random, so the string's
/// value is not named; but verification recomputes from the parameters and
/// salt carried inside the string, so a returned hash matches the password
/// it was derived from, and parses as a PHC string.
#[verifier::external_body]
pub fn hash_password(password: &str) -> (r: Result<String, AppError>)
    ensures
        r matches Ok(h) ==> argon2_matches(password.spec_bytes(), h@) && phc_parses(h@),
        r is Err ==> r->Err_0 is BadRequest,
{
    let salt = SaltString::generate(&mut OsRng);
    match argon2::Argon2::default().hash_password(password.as_bytes(), &salt) {
        Ok(h) => Ok(h.to_string()),
        Err(_) => Err(AppError::BadRequest),
    }
}

/// Relies on `argon2::Argon2::verify_password` (with
/// `PasswordHash::new`): whether a password matches a stored hash string
/// depends on the two alone, and parsing fails exactly when the string is
/// not a PHC hash string.
#[verifier::external_body]
fn argon2_verify(password: &[u8], hash: &str) -> (r: Result<bool, ()>)
    ensures
        r is Ok <==> phc_parses(hash@),
        r matches Ok(b) ==> b == argon2_matches(password@, hash@),
{
    let parsed = PasswordHash::new(hash).map_err(|_| ())?;
    Ok(argon2::Argon2::default().verify_password(password, &parsed).is_ok())
}

/// Verify a password against a stored Argon2 hash string. A hash that is
/// not a PHC string is rejected, and only such a hash; otherwise the answer
/// is exactly whether password and hash match.
pub fn verify_password(password: &str, hash: &str) -> (r: Result<bool, AppError>)
    ensures
        r matches Ok(b) ==> b == argon2_matches(password.spec_bytes(), hash@),
        r is Err <==> !phc_parses(hash@),
        r is Err ==> r->Err_0 is BadRequest,
{
    match argon2_verify(password.as_bytes(), hash) {
        Ok(b) => Ok(b),
        Err(()) => Err(AppError::BadRequest),
    }
}

/// Relies on `ring::hkdf` with HKDF-SHA256 (extract with an empty salt,
/// expand with the given info): the 32-byte output depends on secret and
/// info alone, and expanding to 32 bytes is always within HKDF's output
/// bound, so the derivation succeeds.
#[verifier::external_body]
fn hkdf_sha256(secret: &[u8], info: &[u8]) -> (r: Option<Vec<u8>>)
    ensures
        r is Some,
        r matches Some(k) ==> k@ == hkdf_of(secret@, info@) && k@.len() == 32,
{
    let salt = ring::hkdf::Salt::new(ring::hkdf::HKDF_SHA256, &[]);
    let prk = salt.extract(secret);
    let binding = [info];
    let okm = prk.expand(&binding, ring::hkdf::HKDF_SHA256).ok()?;
    let mut key = [0u8; 32];
    okm.fill(&mut key).ok()?;
    Some(key.to_vec())
}

/// Derive a 32-byte encryption key from a shared secret with HKDF-SHA256.
pub fn derive_key(shared_secret: &[u8], info: &[u8]) -> (r: Result<Vec<u8>, AppError>)
    ensures
        r is Ok,
        r matches Ok(k) ==> k@ == hkdf_of(shared_secret@, info@) && k@.len() == 32,
{
    match hkdf_sha256(shared_secret, info) {
        Some(k) => Ok(k),
        None => Err(AppError::Internal),
    }
}

/// Relies on `sha2::Sha256::digest` (formatted as lowercase hex): the digest
/// depends on the bytes alone; sixty-four hex characters.
#[verifier::external_body]
pub fn sha256_hex(data: &[u8]) -> (r: String)
    ensures
        r@ == sha256_hex_of(data@),
        r@.len() == 64,
{
    format!("{:x}", sha2::Sha256::digest(data))
}

/// A pre-key bundle published for asynchronous key agreement.
#[derive(Debug)]
pub struct PreKeyBundle {
    /// Identity public key (Ed25519).
    pub identity_key: Vec<u8>,
    /// Signed pre-key public part (X25519).
    pub signed_pre_key: Vec<u8>,
    /// Signature of the signed pre-key by the identity key.
    pub signed_pre_key_signature: Vec<u8>,
    /// One-time pre-key public part (X25519), if any.
    pub one_time_pre_key: Option<Vec<u8>>,
}

} // verus!
