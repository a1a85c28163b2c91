//! The redirect flow: lookup, expiration check, decryption, target
//! resolution.
//!
//! Resolving a code is a three-terminal decision procedure — unknown code,
//! redirect to the destination, redirect home for expired entries — with a
//! fourth client-visible outcome for stored ciphertext that no longer
//! decrypts.  Its one side effect, marking a paid record expired once its
//! 24-hour window has passed, is best-effort and never blocks the
//! response.

use vstd::prelude::*;

use crate::crypto::{decrypt_url, is_encryption_of};
use crate::record::with_expired;
use crate::store::{code_in, wf, Store, StoreModel};

verus! {

/// The access window of a paid short URL, in seconds: 24 whole hours.
pub const EXPIRY_WINDOW_SECONDS: i64 = 86400;

/// The outcome of resolving a short code.
#[derive(Debug)]
pub enum RedirectOutcome {
    /// No record holds the code.
    NotFound,
    /// Redirect to the stored destination, decrypted if need be.
    RedirectTo(String),
    /// The record is expired (or its paid window just ran out): redirect
    /// to the configured host's root.
    RedirectToHome,
    /// The stored ciphertext fails to decrypt: corrupted data, reported
    /// distinctly from a missing code.
    InvalidData,
}

/// What resolving must do to the row at index `i`, the one holding the
/// looked-up code.
pub open spec fn resolve_row_post(
    m0: StoreModel,
    m1: StoreModel,
    i: int,
    now: int,
    key: Seq<u8>,
    r: RedirectOutcome,
) -> bool {
    let rec = m0.recs[i];
    if rec.expired {
        &&& r is RedirectToHome
        &&& m1 == m0
    } else if rec.transaction_hash is Some && now - rec.created_at >= EXPIRY_WINDOW_SECONDS as int {
        &&& r is RedirectToHome
        &&& m1.recs == m0.recs.update(i, with_expired(rec))
        &&& m1.next_id == m0.next_id
    } else if rec.encrypted {
        &&& m1 == m0
        &&& match r {
            RedirectOutcome::RedirectTo(u) => is_encryption_of(key, rec.original_url, u@),
            RedirectOutcome::InvalidData => forall|p: Seq<char>|
                !is_encryption_of(key, rec.original_url, p),
            _ => false,
        }
    } else {
        &&& m1 == m0
        &&& r matches RedirectOutcome::RedirectTo(u) && u@ == rec.original_url
    }
}

/// The full effect of resolving `code` at time `now`: `NotFound` and an
/// untouched table when no row holds the code, else the per-row state
/// machine above.
pub open spec fn resolve_post(
    m0: StoreModel,
    m1: StoreModel,
    code: Seq<char>,
    now: int,
    key: Seq<u8>,
    r: RedirectOutcome,
) -> bool {
    if !code_in(m0.recs, code) {
        &&& r is NotFound
        &&& m1 == m0
    } else {
        forall|i: int|
            0 <= i < m0.recs.len() && (#[trigger] m0.recs[i]).short_code == code
                ==> resolve_row_post(m0, m1, i, now, key, r)
    }
}

/// Resolves a short code at an explicit time.
///
/// An expired record redirects home; a paid record whose window has run
/// out is marked expired (best-effort) and redirects home; otherwise the
/// stored URL — decrypted when the record is encrypted — is the redirect
/// target, with a distinct outcome for ciphertext that fails to decrypt.
pub fn resolve_at(store: &mut Store, code: &str, now: i64, key: &Vec<u8>) -> (r: RedirectOutcome)
    requires
        wf(old(store)@),
        0 <= now,
        key@.len() == 32,
    ensures
        wf(final(store)@),
        resolve_post(old(store)@, final(store)@, code@, now as int, key@, r),
{
    let ghost m0 = store@;
    let record = match store.find_by_short_code(code) {
        Ok(rec) => rec,
        Err(_) => {
            return RedirectOutcome::NotFound;
        },
    };
    let ghost iw = choose|i: int|
        0 <= i < m0.recs.len() && m0.recs[i] == record@ && record@.short_code == code@;
    proof {
        assert(m0.recs[iw] == record@);
        assert forall|i: int|
            0 <= i < m0.recs.len() && (#[trigger] m0.recs[i]).short_code == code@ implies i
            == iw by {
            if i != iw {
                assert(m0.recs[i].id != m0.recs[iw].id);
            }
        }
        assert(1 <= m0.recs[iw].id);
    }
    if record.expired {
        return RedirectOutcome::RedirectToHome;
    }
    if record.transaction_hash.is_some() {
        if now - record.created_at >= EXPIRY_WINDOW_SECONDS {
            store.mark_as_expired(record.id);
            proof {
                assert forall|j: int|
                    0 <= j < m0.recs.len() && j != iw implies m0.recs[j].id
                    != record@.id by {
                    assert(m0.recs[j].id != m0.recs[iw].id);
                }
                assert(store@.recs =~= m0.recs.update(iw, with_expired(m0.recs[iw])));
            }
            return RedirectOutcome::RedirectToHome;
        }
    }
    if record.encrypted {
        match decrypt_url(record.original_url.as_str(), key) {
            Ok(url) => RedirectOutcome::RedirectTo(url),
            Err(_) => RedirectOutcome::InvalidData,
        }
    } else {
        RedirectOutcome::RedirectTo(record.original_url)
    }
}

/// Relies on chrono's `Utc::now`: the current time in whole seconds since
/// the epoch; nothing is promised of the value.
#[verifier::external_body]
fn current_timestamp() -> i64 {
    chrono::Utc::now().timestamp()
}

/// Resolves a short code at the current time.  The outcome is that of
/// `resolve_at` for some non-negative reading of the clock (a pre-epoch
/// reading is treated as the epoch itself).
pub fn resolve(store: &mut Store, code: &str, key: &Vec<u8>) -> (r: RedirectOutcome)
    requires
        wf(old(store)@),
        key@.len() == 32,
    ensures
        wf(final(store)@),
        exists|now: int|
            0 <= now && #[trigger] resolve_post(old(store)@, final(store)@, code@, now, key@, r),
{
    let ts = current_timestamp();
    let now: i64 = if ts < 0 {
        0
    } else {
        ts
    };
    let r = resolve_at(store, code, now, key);
    proof {
        assert(0 <= now as int && resolve_post(old(store)@, store@, code@, now as int, key@, r));
    }
    r
}

} // verus!
