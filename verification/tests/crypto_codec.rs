use url_shortener::crypto::{decrypt_url, encrypt_url};

fn test_key() -> Vec<u8> {
    (0u8..32).collect()
}

#[test]
fn encrypt_then_decrypt_round_trips() {
    let key = test_key();
    let url = "https://example.com/some/long/path?q=1&lang=en";
    let cipher = encrypt_url(url, &key).expect("encryption must succeed");
    assert_ne!(cipher, url);
    let plain = decrypt_url(&cipher, &key).expect("authentic ciphertext must decrypt");
    assert_eq!(plain, url);
}

#[test]
fn empty_url_round_trips() {
    let key = test_key();
    let cipher = encrypt_url("", &key).expect("encryption must succeed");
    let plain = decrypt_url(&cipher, &key).expect("authentic ciphertext must decrypt");
    assert_eq!(plain, "");
}

#[test]
fn two_encryptions_of_one_url_differ() {
    let key = test_key();
    let first = encrypt_url("https://example.com", &key).expect("encrypt");
    let second = encrypt_url("https://example.com", &key).expect("encrypt");
    // A fresh nonce per call keeps equal plaintexts from revealing
    // themselves through equal ciphertexts.
    assert_ne!(first, second);
}

#[test]
fn decrypt_rejects_text_that_is_not_base64() {
    let key = test_key();
    assert!(decrypt_url("not base64 at all!!!", &key).is_err());
}

#[test]
fn decrypt_rejects_a_truncated_frame() {
    let key = test_key();
    // Valid base64, but shorter than one nonce.
    assert!(decrypt_url("AAAA", &key).is_err());
}

#[test]
fn decrypt_rejects_a_tampered_ciphertext() {
    let key = test_key();
    let cipher = encrypt_url("https://example.com", &key).expect("encrypt");
    let mut bytes = cipher.into_bytes();
    let last = bytes.len() - 1;
    bytes[last] = if bytes[last] == b'A' { b'B' } else { b'A' };
    let tampered = String::from_utf8(bytes).unwrap();
    assert!(decrypt_url(&tampered, &key).is_err());
}

#[test]
fn decrypt_rejects_a_ciphertext_under_another_key() {
    let key = test_key();
    let other: Vec<u8> = (100u8..132).collect();
    let cipher = encrypt_url("https://example.com", &key).expect("encrypt");
    assert!(decrypt_url(&cipher, &other).is_err());
}
