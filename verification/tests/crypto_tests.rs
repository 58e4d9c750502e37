use cachekit::base64;
use cachekit::crypto_aes;
use cachekit::hash;
use cachekit::AesCipher;

fn test_cipher() -> AesCipher {
    let key: Vec<u8> = (0u8..32u8).collect();
    let iv: Vec<u8> = (100u8..116u8).collect();
    AesCipher::new(key, iv)
}

#[test]
fn test_hash_and_check() {
    let password = "testpassword";
    let hashed = hash::make(password).unwrap();
    assert!(hash::check(password, &hashed));
    assert!(!hash::check("wrongpassword", &hashed));
}

#[test]
fn test_encode_and_decode() {
    let cipher = test_cipher();
    let plaintext = b"teststring123";
    let encrypted = crypto_aes::encode(&cipher, plaintext);
    let decrypted = crypto_aes::decode(&cipher, &encrypted);
    assert_eq!(plaintext.to_vec(), decrypted);
}

#[test]
fn test_invalid_decryption() {
    let cipher = test_cipher();
    let invalid_data = b"invalid_data";
    let decrypted = crypto_aes::decode(&cipher, invalid_data);
    assert!(decrypted.is_empty());
}

#[test]
fn test_encrypted_is_not_plaintext() {
    let cipher = test_cipher();
    let plaintext = b"teststring123";
    let encrypted = crypto_aes::encode(&cipher, plaintext);
    assert_ne!(encrypted, plaintext.to_vec());
    assert_eq!(encrypted.len() % 16, 0);
}

#[test]
fn test_base64_encode_and_decode() {
    let plaintext = b"base64string";
    let encoded = base64::encode(plaintext);
    let decoded = base64::decode(&encoded).unwrap();
    assert_eq!(plaintext.to_vec(), decoded);
}

#[test]
fn test_invalid_base64_decode() {
    let invalid_base64 = "invalid_base64==";
    let result = base64::decode(invalid_base64);
    assert!(result.is_err());
}

#[test]
fn test_base64_known_value() {
    assert_eq!(base64::encode(b"hi"), "aGk=");
    assert_eq!(base64::decode("aGk=").unwrap(), b"hi".to_vec());
}

#[test]
fn test_random_base64() {
    let random_string = base64::random(16);
    assert_eq!(random_string.len() % 4, 0);
}

#[test]
fn test_random_length() {
    assert_eq!(base64::random(0).len(), 0);
    assert_eq!(base64::random(3).len(), 4);
    assert_eq!(base64::random(16).len(), 24);
}
