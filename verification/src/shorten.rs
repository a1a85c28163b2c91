//! The shorten flow: lookup-or-create with a bounded retry on collisions
//! and conditional encryption of the stored URL.
//!
//! The flow trims the URL, deduplicates unencrypted requests against the
//! stored text, and otherwise inserts a draft under a fresh random code,
//! retrying on a uniqueness conflict up to a fixed budget of five
//! attempts.  Encryption failure degrades to storing the plaintext rather
//! than aborting the request — an intentional but risky policy of the
//! service, stated explicitly in the contract below.

use vstd::prelude::*;

use crate::codegen::{random_short_code, CODE_ALPHABET};
use crate::crypto::{encrypt_url, is_encryption_of, MAX_PLAINTEXT_BYTES};
use crate::record::{opt_text_view, NewShortUrl, RecordModel, ShortUrlRecord};
use crate::store::{code_in, url_in, wf, Store, StoreModel};

verus! {

use vstd::utf8::encode_utf8;

/// The fixed retry budget of the optimistic insert.
pub const MAX_RETRIES: usize = 5;

/// The length of every generated short code.
pub const CODE_LENGTH: usize = 6;

/// The one failure the flow surfaces for itself: no unique code could be
/// allocated within the retry budget.
#[derive(Clone, Copy, Debug, PartialEq, Eq, Structural)]
pub enum ShortenError {
    RetryBudgetExhausted,
}

/// A shorten request: the destination URL, whether to encrypt it at rest,
/// and the transaction hash of a paid flow, if any.
pub struct ShortenRequest {
    pub original_url: String,
    pub encrypt: bool,
    pub transaction_hash: Option<String>,
}

/// What the trimmed input of `str::trim` leaves: relied on below; a
/// function of the characters alone.
pub uninterp spec fn trimmed_of(s: Seq<char>) -> Seq<char>;

/// Relies on `str::trim`: the input without leading and trailing
/// whitespace.
#[verifier::external_body]
fn trim_str(s: &str) -> (r: String)
    ensures
        r@ == trimmed_of(s@),
{
    s.trim().to_owned()
}

/// The model of a shorten result.
pub open spec fn result_model(r: Result<ShortUrlRecord, ShortenError>) -> Result<
    RecordModel,
    ShortenError,
> {
    match r {
        Ok(rec) => Ok(rec@),
        Err(e) => Err(e),
    }
}

/// The full effect of one shorten call on the table.
///
/// An unencrypted request whose trimmed URL is already stored is
/// deduplicated: the table is untouched and the existing row is returned.
/// Otherwise, on success one fresh row is appended: it carries the next
/// surrogate key, the given creation time, the requested flags, a short
/// code and stored text that collide with no prior row, and as stored text
/// the trimmed URL — encrypted whenever requested, falling back to the
/// plaintext (the service's degraded mode) only when the URL's UTF-8 bytes
/// exceed the cipher's plaintext maximum, which no real URL does.  On
/// failure the table is untouched.
pub open spec fn shorten_post(
    m0: StoreModel,
    m1: StoreModel,
    url: Seq<char>,
    enc: bool,
    tx: Option<Seq<char>>,
    key: Seq<u8>,
    now: int,
    r: Result<RecordModel, ShortenError>,
) -> bool {
    let t = trimmed_of(url);
    &&& wf(m1)
    &&& if !enc && url_in(m0.recs, t) {
        &&& m1 == m0
        &&& r matches Ok(rec) && (exists|i: int|
            0 <= i < m0.recs.len() && m0.recs[i] == rec) && rec.original_url == t
    } else {
        match r {
            Ok(rec) => {
                &&& rec.id == m0.next_id
                &&& m1.recs == m0.recs.push(rec)
                &&& m1.next_id == m0.next_id + 1
                &&& rec.created_at == now
                &&& rec.expired == false
                &&& rec.encrypted == enc
                &&& rec.transaction_hash == tx
                &&& !code_in(m0.recs, rec.short_code)
                &&& !url_in(m0.recs, rec.original_url)
                &&& if enc {
                    is_encryption_of(key, rec.original_url, t) || (encode_utf8(t).len()
                        > MAX_PLAINTEXT_BYTES as int && rec.original_url == t)
                } else {
                    rec.original_url == t
                }
            },
            Err(e) => {
                &&& e == ShortenError::RetryBudgetExhausted
                &&& m1 == m0
            },
        }
    }
}

/// The shorten flow with the candidate codes of its five attempts handed
/// in, so the collision handling is deterministic for any given codes.
///
/// Beyond the common contract, the attempts are pinned down: a freshly
/// inserted row carries one of the given codes, and — when no dedup
/// applies — the budget is exhausted exactly when, for an unencrypted
/// request, every given code already sits in the table; for an encrypted
/// request, codes that all collide still guarantee exhaustion.
pub fn shorten_with_codes(
    store: &mut Store,
    req: &ShortenRequest,
    codes: &Vec<String>,
    key: &Vec<u8>,
    now: i64,
) -> (r: Result<ShortUrlRecord, ShortenError>)
    requires
        wf(old(store)@),
        0 <= now,
        key@.len() == 32,
        codes@.len() == MAX_RETRIES as int,
        forall|k: int| 0 <= k < codes@.len() ==> (#[trigger] codes@[k])@.len() <= 16,
        old(store)@.next_id < i64::MAX,
    ensures
        shorten_post(
            old(store)@,
            final(store)@,
            req.original_url@,
            req.encrypt,
            opt_text_view(req.transaction_hash),
            key@,
            now as int,
            result_model(r),
        ),
        r matches Ok(rec) ==> (!(!req.encrypt && url_in(
            old(store)@.recs,
            trimmed_of(req.original_url@),
        )) ==> exists|k: int| 0 <= k < codes@.len() && rec@.short_code == (#[trigger] codes@[k])@),
        !req.encrypt && !url_in(old(store)@.recs, trimmed_of(req.original_url@)) ==> (r is Err
            <==> forall|k: int|
            0 <= k < codes@.len() ==> code_in(old(store)@.recs, (#[trigger] codes@[k])@)),
        !(!req.encrypt && url_in(old(store)@.recs, trimmed_of(req.original_url@))) && (forall|
            k: int,
        |
            0 <= k < codes@.len() ==> code_in(old(store)@.recs, (#[trigger] codes@[k])@)) ==> r
            is Err,
{
    let trimmed = trim_str(req.original_url.as_str());
    if !req.encrypt {
        match store.find_by_original_url(trimmed.as_str()) {
            Ok(existing) => {
                return Ok(existing);
            },
            Err(_) => {},
        }
    }
    let ghost m0 = store@;
    let mut attempt: usize = 0;
    while attempt < MAX_RETRIES
        invariant
            attempt <= MAX_RETRIES,
            store@ == m0,
            !req.encrypt ==> forall|k: int|
                0 <= k < attempt ==> code_in(m0.recs, (#[trigger] codes@[k])@),
        decreases MAX_RETRIES - attempt,
    {
        let code = codes[attempt].clone();
        let stored_url = if req.encrypt {
            match encrypt_url(trimmed.as_str(), key) {
                Ok(ct) => ct,
                Err(_) => trimmed.clone(),
            }
        } else {
            trimmed.clone()
        };
        let draft = NewShortUrl {
            original_url: stored_url,
            short_code: code,
            encrypted: req.encrypt,
            transaction_hash: match &req.transaction_hash {
                Some(h) => Some(h.clone()),
                None => None,
            },
        };
        proof {
            assert(opt_text_view(draft.transaction_hash) == opt_text_view(req.transaction_hash));
        }
        match store.insert_short_url(&draft, now) {
            Ok(saved) => {
                return Ok(saved);
            },
            Err(_) => {
                proof {
                    if !req.encrypt {
                        assert(code_in(m0.recs, codes@[attempt as int]@));
                    }
                }
            },
        }
        attempt += 1;
    }
    Err(ShortenError::RetryBudgetExhausted)
}

/// The public shorten operation: generates its own candidate codes, then
/// runs the retry flow.  A freshly inserted row's code has exactly the
/// configured length and consists only of the fixed alphabet.
pub fn shorten(store: &mut Store, req: &ShortenRequest, key: &Vec<u8>, now: i64) -> (r: Result<
    ShortUrlRecord,
    ShortenError,
>)
    requires
        wf(old(store)@),
        0 <= now,
        key@.len() == 32,
        old(store)@.next_id < i64::MAX,
    ensures
        shorten_post(
            old(store)@,
            final(store)@,
            req.original_url@,
            req.encrypt,
            opt_text_view(req.transaction_hash),
            key@,
            now as int,
            result_model(r),
        ),
        r matches Ok(rec) ==> (!(!req.encrypt && url_in(
            old(store)@.recs,
            trimmed_of(req.original_url@),
        )) ==> rec@.short_code.len() == CODE_LENGTH as int && forall|i: int|
            0 <= i < rec@.short_code.len() ==> CODE_ALPHABET@.contains(
                #[trigger] rec@.short_code[i],
            )),
{
    let mut codes: Vec<String> = Vec::new();
    let mut k: usize = 0;
    while k < MAX_RETRIES
        invariant
            k <= MAX_RETRIES,
            codes@.len() == k as int,
            forall|j: int|
                0 <= j < k ==> (#[trigger] codes@[j])@.len() == CODE_LENGTH as int,
            forall|j: int, i: int|
                0 <= j < k && 0 <= i < (#[trigger] codes@[j])@.len() ==> CODE_ALPHABET@.contains(
                    #[trigger] codes@[j]@[i],
                ),
        decreases MAX_RETRIES - k,
    {
        codes.push(random_short_code(CODE_LENGTH));
        k += 1;
    }
    shorten_with_codes(store, req, &codes, key, now)
}

/// Law: unencrypted shortening is idempotent.  Once a shorten of `url`
/// without encryption has returned a record, a second unencrypted shorten
/// of the same `url` returns the very same record, leaves the table
/// untouched, and exactly one row holds the trimmed URL.
pub proof fn lemma_shorten_unencrypted_idempotent(
    m0: StoreModel,
    m1: StoreModel,
    m2: StoreModel,
    url: Seq<char>,
    tx1: Option<Seq<char>>,
    tx2: Option<Seq<char>>,
    key1: Seq<u8>,
    key2: Seq<u8>,
    now1: int,
    now2: int,
    rec1: RecordModel,
    r2: Result<RecordModel, ShortenError>,
)
    requires
        wf(m0),
        shorten_post(m0, m1, url, false, tx1, key1, now1, Ok(rec1)),
        shorten_post(m1, m2, url, false, tx2, key2, now2, r2),
    ensures
        m2 == m1,
        r2 == Ok::<RecordModel, ShortenError>(rec1),
        url_in(m1.recs, trimmed_of(url)),
        forall|i: int, j: int|
            0 <= i < m1.recs.len() && 0 <= j < m1.recs.len() && #[trigger] m1.recs[i].original_url
                == trimmed_of(url) && #[trigger] m1.recs[j].original_url == trimmed_of(url) ==> i
                == j,
{
    let t = trimmed_of(url);
    // rec1 sits in m1 and holds the trimmed URL.
    assert(exists|i: int| 0 <= i < m1.recs.len() && m1.recs[i] == rec1) by {
        if url_in(m0.recs, t) {
            let i = choose|i: int| 0 <= i < m0.recs.len() && m0.recs[i] == rec1;
            assert(m1.recs[i] == rec1);
        } else {
            assert(m1.recs[m0.recs.len() as int] == rec1);
        }
    }
    let i1 = choose|i: int| 0 <= i < m1.recs.len() && m1.recs[i] == rec1;
    assert(url_in(m1.recs, t)) by {
        assert(m1.recs[i1].original_url == t);
    }
    // The second call deduplicates against m1, and by uniqueness of the
    // stored URL text it can only return rec1's row.
    let rec2 = r2->Ok_0;
    let i2 = choose|i: int| 0 <= i < m1.recs.len() && m1.recs[i] == rec2;
    if i1 != i2 {
        assert(m1.recs[i1].id != m1.recs[i2].id);
        assert(m1.recs[i1].original_url != m1.recs[i2].original_url);
        assert(false);
    }
    assert(rec2 == rec1);
    assert forall|i: int, j: int|
        0 <= i < m1.recs.len() && 0 <= j < m1.recs.len() && #[trigger] m1.recs[i].original_url
            == t && #[trigger] m1.recs[j].original_url == t implies i == j by {
        if i != j {
            assert(m1.recs[i].id != m1.recs[j].id);
        }
    }
}

/// Law: encrypted shortening never deduplicates.  Two encrypted shortens
/// of the same plaintext URL that both succeed yield two distinct rows:
/// distinct surrogate keys, distinct short codes and distinct stored
/// ciphertexts, and the table grows by two.
pub proof fn lemma_shorten_encrypted_never_dedups(
    m0: StoreModel,
    m1: StoreModel,
    m2: StoreModel,
    url: Seq<char>,
    tx1: Option<Seq<char>>,
    tx2: Option<Seq<char>>,
    key1: Seq<u8>,
    key2: Seq<u8>,
    now1: int,
    now2: int,
    rec1: RecordModel,
    rec2: RecordModel,
)
    requires
        wf(m0),
        shorten_post(m0, m1, url, true, tx1, key1, now1, Ok(rec1)),
        shorten_post(m1, m2, url, true, tx2, key2, now2, Ok(rec2)),
    ensures
        rec1.id != rec2.id,
        rec1.short_code != rec2.short_code,
        rec1.original_url != rec2.original_url,
        m2.recs.len() == m0.recs.len() + 2,
{
    let n0 = m0.recs.len() as int;
    assert(m1.recs[n0] == rec1);
    assert(code_in(m1.recs, rec1.short_code));
    assert(url_in(m1.recs, rec1.original_url));
}

} // verus!
