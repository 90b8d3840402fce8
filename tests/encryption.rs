use base64::Engine;
use daystore::encryption::{CryptoError, Encryption, KEY_LEN};

fn fixed_key() -> Vec<u8> {
    (0u8..32).collect()
}

#[test]
fn round_trip_returns_plaintext() {
    let enc = Encryption::new(&fixed_key()).unwrap();
    for text in ["", "hello", "Tagebuch: Grüße 🌿", "line one\nline two"] {
        let token = enc.encrypt(text).unwrap();
        assert_ne!(token, text);
        assert_eq!(enc.decrypt(&token).unwrap(), text);
    }
}

#[test]
fn token_holds_nonce_and_tag() {
    let enc = Encryption::new(&fixed_key()).unwrap();
    let token = enc.encrypt("abc").unwrap();
    let raw = base64::engine::general_purpose::STANDARD.decode(&token).unwrap();
    // 12-byte nonce, 3 bytes of ciphertext, 16-byte tag
    assert_eq!(raw.len(), 12 + 3 + 16);
}

#[test]
fn flipping_any_bit_fails_decryption() {
    let enc = Encryption::new(&fixed_key()).unwrap();
    let token = enc.encrypt("a diary line").unwrap();
    let raw = base64::engine::general_purpose::STANDARD.decode(&token).unwrap();
    for byte in 0..raw.len() {
        for bit in 0..8 {
            let mut bad = raw.clone();
            bad[byte] ^= 1 << bit;
            let bad_token = base64::engine::general_purpose::STANDARD.encode(&bad);
            assert_eq!(enc.decrypt(&bad_token), Err(CryptoError::DecryptionFailed));
        }
    }
}

#[test]
fn two_encryptions_differ() {
    let enc = Encryption::new(&fixed_key()).unwrap();
    let a = enc.encrypt("same text").unwrap();
    let b = enc.encrypt("same text").unwrap();
    assert_ne!(a, b);
}

#[test]
fn malformed_tokens_fail() {
    let enc = Encryption::new(&fixed_key()).unwrap();
    assert_eq!(enc.decrypt("not base64 at all!"), Err(CryptoError::DecryptionFailed));
    // valid base64 of 11 bytes: shorter than a nonce
    assert_eq!(enc.decrypt("AAAAAAAAAAAAAAA="), Err(CryptoError::DecryptionFailed));
    assert_eq!(enc.decrypt(""), Err(CryptoError::DecryptionFailed));
}

#[test]
fn wrong_key_fails() {
    let enc = Encryption::new(&fixed_key()).unwrap();
    let other = Encryption::new(&[7u8; 32]).unwrap();
    let token = enc.encrypt("secret").unwrap();
    assert_eq!(other.decrypt(&token), Err(CryptoError::DecryptionFailed));
}

#[test]
fn key_of_wrong_length_is_refused() {
    assert!(matches!(Encryption::new(&[1u8; 31]), Err(CryptoError::InvalidKeyLength)));
    assert!(matches!(Encryption::new(&[1u8; 33]), Err(CryptoError::InvalidKeyLength)));
    assert!(matches!(Encryption::new(&[]), Err(CryptoError::InvalidKeyLength)));
}

#[test]
fn generated_keys_are_random() {
    let a = Encryption::generate_key();
    let b = Encryption::generate_key();
    assert_eq!(a.len(), KEY_LEN);
    assert_eq!(b.len(), KEY_LEN);
    assert_ne!(a, b);
    assert_ne!(a, vec![0u8; KEY_LEN]);
}
