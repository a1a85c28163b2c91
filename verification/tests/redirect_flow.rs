use url_shortener::record::NewShortUrl;
use url_shortener::redirect::{resolve, resolve_at, RedirectOutcome};
use url_shortener::shorten::{shorten, ShortenRequest};
use url_shortener::store::Store;

fn test_key() -> Vec<u8> {
    (0u8..32).collect()
}

fn insert_plain(store: &mut Store, url: &str, code: &str, tx: Option<&str>, now: i64) -> i64 {
    let draft = NewShortUrl {
        original_url: String::from(url),
        short_code: String::from(code),
        encrypted: false,
        transaction_hash: tx.map(String::from),
    };
    store.insert_short_url(&draft, now).unwrap().id
}

#[test]
fn unknown_code_resolves_to_not_found() {
    let mut store = Store::new();
    let key = test_key();
    assert!(matches!(resolve_at(&mut store, "nosuch", 0, &key), RedirectOutcome::NotFound));
}

#[test]
fn fresh_unpaid_record_redirects_to_its_url() {
    let mut store = Store::new();
    let key = test_key();
    insert_plain(&mut store, "https://example.com", "aaaaaa", None, 0);
    match resolve_at(&mut store, "aaaaaa", 50, &key) {
        RedirectOutcome::RedirectTo(url) => assert_eq!(url, "https://example.com"),
        other => panic!("expected a redirect, got {other:?}"),
    }
}

#[test]
fn unpaid_record_never_expires_by_age() {
    let mut store = Store::new();
    let key = test_key();
    insert_plain(&mut store, "https://example.com", "aaaaaa", None, 0);
    // Ten years later an unpaid record still redirects.
    match resolve_at(&mut store, "aaaaaa", 10 * 365 * 86400, &key) {
        RedirectOutcome::RedirectTo(url) => assert_eq!(url, "https://example.com"),
        other => panic!("expected a redirect, got {other:?}"),
    }
    assert!(!store.find_by_short_code("aaaaaa").unwrap().expired);
}

#[test]
fn paid_record_redirects_within_its_window() {
    let mut store = Store::new();
    let key = test_key();
    let created = 1_000_000i64;
    insert_plain(&mut store, "https://example.com", "paidok", Some("tx-1"), created);
    // One hour after creation the paid window is still open.
    match resolve_at(&mut store, "paidok", created + 3600, &key) {
        RedirectOutcome::RedirectTo(url) => assert_eq!(url, "https://example.com"),
        other => panic!("expected a redirect, got {other:?}"),
    }
    assert!(!store.find_by_short_code("paidok").unwrap().expired);
}

#[test]
fn paid_record_expires_after_its_window() {
    let mut store = Store::new();
    let key = test_key();
    let created = 1_000_000i64;
    insert_plain(&mut store, "https://example.com", "paidno", Some("tx-1"), created);
    // Twenty-five hours after creation the window has passed.
    let outcome = resolve_at(&mut store, "paidno", created + 25 * 3600, &key);
    assert!(matches!(outcome, RedirectOutcome::RedirectToHome));
    // The side effect of the policy: the row is now marked expired.
    assert!(store.find_by_short_code("paidno").unwrap().expired);
}

#[test]
fn paid_record_expires_exactly_at_24_hours() {
    let mut store = Store::new();
    let key = test_key();
    insert_plain(&mut store, "https://example.com", "border", Some("tx-1"), 0);
    let outcome = resolve_at(&mut store, "border", 24 * 3600, &key);
    assert!(matches!(outcome, RedirectOutcome::RedirectToHome));
}

#[test]
fn expired_record_redirects_home_whatever_its_age_or_hash() {
    let mut store = Store::new();
    let key = test_key();
    let id = insert_plain(&mut store, "https://example.com", "gone00", None, 0);
    store.mark_as_expired(id);
    let outcome = resolve_at(&mut store, "gone00", 1, &key);
    assert!(matches!(outcome, RedirectOutcome::RedirectToHome));
}

#[test]
fn encrypted_record_resolves_to_the_decrypted_url() {
    let mut store = Store::new();
    let key = test_key();
    let req = ShortenRequest {
        original_url: String::from("https://example.com/hidden"),
        encrypt: true,
        transaction_hash: None,
    };
    let rec = shorten(&mut store, &req, &key, 0).unwrap();
    assert_ne!(rec.original_url, "https://example.com/hidden");
    match resolve_at(&mut store, &rec.short_code, 10, &key) {
        RedirectOutcome::RedirectTo(url) => assert_eq!(url, "https://example.com/hidden"),
        other => panic!("expected a redirect, got {other:?}"),
    }
}

#[test]
fn corrupted_ciphertext_resolves_to_invalid_data() {
    let mut store = Store::new();
    let key = test_key();
    let draft = NewShortUrl {
        original_url: String::from("definitely not a ciphertext"),
        short_code: String::from("broken"),
        encrypted: true,
        transaction_hash: None,
    };
    store.insert_short_url(&draft, 0).unwrap();
    let outcome = resolve_at(&mut store, "broken", 1, &key);
    assert!(matches!(outcome, RedirectOutcome::InvalidData));
}

#[test]
fn resolve_at_the_current_time_redirects_an_unpaid_record() {
    let mut store = Store::new();
    let key = test_key();
    insert_plain(&mut store, "https://example.com", "nownow", None, 0);
    match resolve(&mut store, "nownow", &key) {
        RedirectOutcome::RedirectTo(url) => assert_eq!(url, "https://example.com"),
        other => panic!("expected a redirect, got {other:?}"),
    }
}
