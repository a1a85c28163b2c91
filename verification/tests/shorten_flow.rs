use url_shortener::crypto::decrypt_url;
use url_shortener::record::NewShortUrl;
use url_shortener::shorten::{shorten, shorten_with_codes, ShortenError, ShortenRequest};
use url_shortener::store::Store;

fn test_key() -> Vec<u8> {
    (0u8..32).collect()
}

fn request(url: &str, encrypt: bool, tx: Option<&str>) -> ShortenRequest {
    ShortenRequest {
        original_url: String::from(url),
        encrypt,
        transaction_hash: tx.map(String::from),
    }
}

#[test]
fn unencrypted_shorten_twice_returns_the_same_record() {
    let mut store = Store::new();
    let key = test_key();
    let req = request("https://example.com/page", false, None);
    let first = shorten(&mut store, &req, &key, 100).unwrap();
    let second = shorten(&mut store, &req, &key, 200).unwrap();
    assert_eq!(first.id, second.id);
    assert_eq!(first.short_code, second.short_code);
    assert_eq!(first.original_url, second.original_url);
    assert_eq!(second.created_at, 100);
    assert_eq!(store.get_all_short_urls().len(), 1);
}

#[test]
fn shorten_trims_surrounding_whitespace() {
    let mut store = Store::new();
    let key = test_key();
    let spaced = request("  https://example.com/page \n", false, None);
    let bare = request("https://example.com/page", false, None);
    let first = shorten(&mut store, &spaced, &key, 0).unwrap();
    assert_eq!(first.original_url, "https://example.com/page");
    let second = shorten(&mut store, &bare, &key, 0).unwrap();
    assert_eq!(first.id, second.id);
    assert_eq!(store.get_all_short_urls().len(), 1);
}

#[test]
fn shorten_generates_codes_of_the_configured_shape() {
    let mut store = Store::new();
    let key = test_key();
    let rec = shorten(&mut store, &request("https://a", false, None), &key, 0).unwrap();
    assert_eq!(rec.short_code.chars().count(), 6);
    assert!(rec.short_code.chars().all(|c| c.is_ascii_alphanumeric()));
}

#[test]
fn encrypted_shorten_never_deduplicates() {
    let mut store = Store::new();
    let key = test_key();
    let req = request("https://example.com/secret", true, None);
    let first = shorten(&mut store, &req, &key, 0).unwrap();
    let second = shorten(&mut store, &req, &key, 0).unwrap();
    assert_ne!(first.id, second.id);
    assert_ne!(first.short_code, second.short_code);
    assert_ne!(first.original_url, second.original_url);
    assert_eq!(store.get_all_short_urls().len(), 2);
    assert!(first.encrypted && second.encrypted);
    // Both stored ciphertexts decrypt back to the same plaintext.
    assert_eq!(decrypt_url(&first.original_url, &key).unwrap(), "https://example.com/secret");
    assert_eq!(decrypt_url(&second.original_url, &key).unwrap(), "https://example.com/secret");
}

#[test]
fn shorten_keeps_the_transaction_hash() {
    let mut store = Store::new();
    let key = test_key();
    let rec = shorten(&mut store, &request("https://a", false, Some("tx-9")), &key, 0).unwrap();
    assert_eq!(rec.transaction_hash.as_deref(), Some("tx-9"));
}

#[test]
fn five_conflicts_exhaust_the_retry_budget() {
    let mut store = Store::new();
    let key = test_key();
    let codes: Vec<String> =
        ["c1c1c1", "c2c2c2", "c3c3c3", "c4c4c4", "c5c5c5"].map(String::from).to_vec();
    // Occupy every candidate code, so each of the five attempts conflicts.
    for (k, code) in codes.iter().enumerate() {
        let taken = NewShortUrl {
            original_url: format!("https://taken/{k}"),
            short_code: code.clone(),
            encrypted: false,
            transaction_hash: None,
        };
        store.insert_short_url(&taken, 0).unwrap();
    }
    let req = request("https://fresh", false, None);
    let r = shorten_with_codes(&mut store, &req, &codes, &key, 0);
    assert_eq!(r.err(), Some(ShortenError::RetryBudgetExhausted));
    // No sixth attempt and no partial insert: the table still holds
    // exactly the five occupying rows.
    assert_eq!(store.get_all_short_urls().len(), 5);
}

#[test]
fn a_free_candidate_code_ends_the_retry_loop() {
    let mut store = Store::new();
    let key = test_key();
    let codes: Vec<String> =
        ["c1c1c1", "c2c2c2", "c3c3c3", "c4c4c4", "c5c5c5"].map(String::from).to_vec();
    for code in &codes[..4] {
        let taken = NewShortUrl {
            original_url: format!("https://taken/{code}"),
            short_code: code.clone(),
            encrypted: false,
            transaction_hash: None,
        };
        store.insert_short_url(&taken, 0).unwrap();
    }
    let req = request("https://fresh", false, None);
    let rec = shorten_with_codes(&mut store, &req, &codes, &key, 0).unwrap();
    assert_eq!(rec.short_code, "c5c5c5");
    assert_eq!(rec.original_url, "https://fresh");
}
