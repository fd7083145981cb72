use antarcticom_core::IdentityKeyPair;
use antarcticom_core::{
    counter_nonce, decrypt_aes256gcm, decrypt_voice_frame, derive_key, encrypt_aes256gcm,
    encrypt_voice_frame, hash_password, sha256_hex, verify_password, verify_signature,
};

#[test]
fn test_encrypt_decrypt_roundtrip() {
    let key = [42u8; 32];
    let plaintext = b"Hello, Antarcticom!";

    let (ciphertext, nonce) = encrypt_aes256gcm(&key, plaintext).unwrap();
    let decrypted = decrypt_aes256gcm(&key, &ciphertext, &nonce).unwrap();

    assert_eq!(decrypted, plaintext);
}

#[test]
fn test_voice_frame_roundtrip() {
    let key = [7u8; 32];
    let frame = vec![0xDE, 0xAD, 0xBE, 0xEF];

    let encrypted = encrypt_voice_frame(&key, &frame, 1).unwrap();
    let decrypted = decrypt_voice_frame(&key, &encrypted, 1).unwrap();

    assert_eq!(decrypted, frame);
}

#[test]
fn test_wrong_key_fails() {
    let key1 = [42u8; 32];
    let key2 = [43u8; 32];
    let plaintext = b"Secret message";

    let (ciphertext, nonce) = encrypt_aes256gcm(&key1, plaintext).unwrap();
    assert!(decrypt_aes256gcm(&key2, &ciphertext, &nonce).is_err());
}

#[test]
fn test_wrong_counter_fails() {
    let key = [9u8; 32];
    let frame = vec![1, 2, 3];
    let encrypted = encrypt_voice_frame(&key, &frame, 5).unwrap();
    assert!(decrypt_voice_frame(&key, &encrypted, 6).is_err());
}

#[test]
fn test_identity_key_sign_verify() {
    let identity = IdentityKeyPair::generate().unwrap();
    let message = b"Hello, world!";

    let sig = identity.sign(message);
    assert!(verify_signature(&identity.public_key(), message, &sig));

    // Tampered message should fail
    assert!(!verify_signature(&identity.public_key(), b"Tampered", &sig));
}

#[test]
fn test_counter_nonce_layout() {
    let nonce = counter_nonce(1);
    assert_eq!(nonce, vec![0, 0, 0, 0, 0, 0, 0, 0, 0, 0, 0, 1]);
    let nonce2 = counter_nonce(0x0102030405060708);
    assert_eq!(nonce2, vec![0, 0, 0, 0, 1, 2, 3, 4, 5, 6, 7, 8]);
}

#[test]
fn test_sha256_hex_known_value() {
    assert_eq!(
        sha256_hex(b""),
        "e3b0c44298fc1c149afbf4c8996fb92427ae41e4649b934ca495991b7852b855"
    );
    assert_eq!(
        sha256_hex(b"abc"),
        "ba7816bf8f01cfea414140de5dae2223b00361a396177a9cb410ff61f20015ad"
    );
}

#[test]
fn test_derive_key_deterministic() {
    let a = derive_key(b"shared secret", b"voice").unwrap();
    let b = derive_key(b"shared secret", b"voice").unwrap();
    assert_eq!(a, b);
    assert_eq!(a.len(), 32);
    let c = derive_key(b"shared secret", b"chat").unwrap();
    assert_ne!(a, c);
}

#[test]
fn test_password_hash_roundtrip() {
    let hash = hash_password("correct horse").unwrap();
    assert!(verify_password("correct horse", &hash).unwrap());
    assert!(!verify_password("wrong horse", &hash).unwrap());
    assert!(verify_password("anything", "not a phc string").is_err());
}
