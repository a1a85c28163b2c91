//! In-memory model of the short-URL table.
//!
//! The production table is a relational one, but its contract is small: a
//! transactional row set with a uniqueness constraint on the stored URL text
//! and on the short code, a store-assigned surrogate key and creation time,
//! and a monotonic `expired` flag.  This module implements that contract
//! directly, so the retry and expiration logic built on top of it is
//! verified against the same conflict semantics the relational engine
//! provides.

use vstd::prelude::*;

use crate::record::{opt_text_view, with_expired, NewShortUrl, RecordModel, ShortUrlRecord};

verus! {

/// Errors of the store operations.  `Conflict` is the retry signal of the
/// uniqueness constraint and is never surfaced to callers of the services;
/// `NotPaid` guards expiration of records that carry no transaction hash.
#[derive(Clone, Copy, Debug, PartialEq, Eq, Structural)]
pub enum StoreError {
    NotFound,
    Conflict,
    NotPaid,
}

/// Mathematical model of the whole table: the rows in insertion order and
/// the next surrogate key to be assigned.
pub ghost struct StoreModel {
    pub recs: Seq<RecordModel>,
    pub next_id: int,
}

/// Some row holds this short code.
pub open spec fn code_in(recs: Seq<RecordModel>, code: Seq<char>) -> bool {
    exists|i: int| 0 <= i < recs.len() && recs[i].short_code == code
}

/// Some row holds this stored URL text (plaintext or ciphertext alike).
pub open spec fn url_in(recs: Seq<RecordModel>, url: Seq<char>) -> bool {
    exists|i: int| 0 <= i < recs.len() && recs[i].original_url == url
}

/// Some row holds this surrogate key.
pub open spec fn id_in(recs: Seq<RecordModel>, id: int) -> bool {
    exists|i: int| 0 <= i < recs.len() && recs[i].id == id
}

/// Well-formedness of the table: keys are store-assigned and unique, short
/// codes and stored URL texts are unique, codes fit the schema's width,
/// and creation times are non-negative.
pub open spec fn wf(m: StoreModel) -> bool {
    &&& 1 <= m.next_id
    &&& forall|i: int|
        0 <= i < m.recs.len() ==> {
            &&& 1 <= #[trigger] m.recs[i].id < m.next_id
            &&& 0 <= m.recs[i].created_at
            &&& m.recs[i].short_code.len() <= 16
        }
    &&& forall|i: int, j: int|
        0 <= i < m.recs.len() && 0 <= j < m.recs.len() && i != j ==> {
            &&& #[trigger] m.recs[i].id != #[trigger] m.recs[j].id
            &&& m.recs[i].short_code != m.recs[j].short_code
            &&& m.recs[i].original_url != m.recs[j].original_url
        }
}

/// The short-URL table.
pub struct Store {
    records: Vec<ShortUrlRecord>,
    next_id: i64,
}

impl View for Store {
    type V = StoreModel;

    closed spec fn view(&self) -> StoreModel {
        StoreModel {
            recs: self.records@.map_values(|r: ShortUrlRecord| r@),
            next_id: self.next_id as int,
        }
    }
}

impl Store {
    /// An empty table; the first inserted row receives key 1.
    pub fn new() -> (s: Store)
        ensures
            s@.recs == Seq::<RecordModel>::empty(),
            s@.next_id == 1,
            wf(s@),
    {
        let s = Store { records: Vec::new(), next_id: 1 };
        proof {
            assert(s@.recs =~= Seq::<RecordModel>::empty());
        }
        s
    }

    /// Looks a row up by its short code; `NotFound` exactly when no row
    /// holds the code.
    pub fn find_by_short_code(&self, code: &str) -> (r: Result<ShortUrlRecord, StoreError>)
        ensures
            match r {
                Ok(rec) => exists|i: int|
                    0 <= i < self@.recs.len() && self@.recs[i] == rec@ && rec@.short_code
                        == code@,
                Err(e) => e == StoreError::NotFound && !code_in(self@.recs, code@),
            },
    {
        let needle: String = code.to_owned();
        let n = self.records.len();
        let mut i: usize = 0;
        while i < n
            invariant
                n == self.records.len(),
                i <= n,
                needle@ == code@,
                forall|j: int| 0 <= j < i ==> self@.recs[j].short_code != code@,
            decreases n - i,
        {
            if self.records[i].short_code == needle {
                let rec = self.records[i].clone();
                assert(self@.recs[i as int] == rec@);
                return Ok(rec);
            }
            i += 1;
        }
        Err(StoreError::NotFound)
    }

    /// Looks a row up by its stored URL text (an exact match against the
    /// stored representation); `NotFound` exactly when no row holds it.
    pub fn find_by_original_url(&self, url: &str) -> (r: Result<ShortUrlRecord, StoreError>)
        ensures
            match r {
                Ok(rec) => exists|i: int|
                    0 <= i < self@.recs.len() && self@.recs[i] == rec@ && rec@.original_url
                        == url@,
                Err(e) => e == StoreError::NotFound && !url_in(self@.recs, url@),
            },
    {
        let needle: String = url.to_owned();
        let n = self.records.len();
        let mut i: usize = 0;
        while i < n
            invariant
                n == self.records.len(),
                i <= n,
                needle@ == url@,
                forall|j: int| 0 <= j < i ==> self@.recs[j].original_url != url@,
            decreases n - i,
        {
            if self.records[i].original_url == needle {
                let rec = self.records[i].clone();
                assert(self@.recs[i as int] == rec@);
                return Ok(rec);
            }
            i += 1;
        }
        Err(StoreError::NotFound)
    }

    /// Inserts a draft row.  A colliding stored URL text or a colliding
    /// short code leaves the table untouched and signals `Conflict` — the
    /// caller's retry signal.  Otherwise the store assigns the next key and
    /// the given creation time, appends the row and returns it.
    ///
    /// The bound on `next_id` is a machine limit: keys are never reused, so
    /// the key space must not be exhausted.  The key starts at 1 and each
    /// successful insert raises it by exactly one, so the bound holds in
    /// any run shorter than 2^63 - 1 inserts.
    pub fn insert_short_url(&mut self, new_short: &NewShortUrl, now: i64) -> (r: Result<
        ShortUrlRecord,
        StoreError,
    >)
        requires
            wf(old(self)@),
            0 <= now,
            new_short.short_code@.len() <= 16,
            old(self)@.next_id < i64::MAX,
        ensures
            wf(final(self)@),
            if code_in(old(self)@.recs, new_short.short_code@) || url_in(
                old(self)@.recs,
                new_short.original_url@,
            ) {
                r == Err::<ShortUrlRecord, StoreError>(StoreError::Conflict) && final(self)@
                    == old(self)@
            } else {
                match r {
                    Ok(rec) => {
                        &&& rec@ == (RecordModel {
                            id: old(self)@.next_id,
                            original_url: new_short.original_url@,
                            short_code: new_short.short_code@,
                            created_at: now as int,
                            encrypted: new_short.encrypted,
                            expired: false,
                            transaction_hash: opt_text_view(new_short.transaction_hash),
                        })
                        &&& final(self)@.recs == old(self)@.recs.push(rec@)
                        &&& final(self)@.next_id == old(self)@.next_id + 1
                    },
                    Err(_) => false,
                }
            },
    {
        let ghost m0 = self@;
        let n = self.records.len();
        let mut i: usize = 0;
        while i < n
            invariant
                n == self.records.len(),
                i <= n,
                forall|j: int|
                    0 <= j < i ==> self@.recs[j].short_code != new_short.short_code@
                        && self@.recs[j].original_url != new_short.original_url@,
            decreases n - i,
        {
            let code_hit = self.records[i].short_code == new_short.short_code;
            let url_hit = self.records[i].original_url == new_short.original_url;
            if code_hit || url_hit {
                proof {
                    if code_hit {
                        assert(self@.recs[i as int].short_code == new_short.short_code@);
                    } else {
                        assert(self@.recs[i as int].original_url == new_short.original_url@);
                    }
                }
                return Err(StoreError::Conflict);
            }
            i += 1;
        }
        let rec = ShortUrlRecord {
            id: self.next_id,
            original_url: new_short.original_url.clone(),
            short_code: new_short.short_code.clone(),
            created_at: now,
            encrypted: new_short.encrypted,
            expired: false,
            transaction_hash: match &new_short.transaction_hash {
                Some(h) => Some(h.clone()),
                None => None,
            },
        };
        let saved = rec.clone();
        self.records.push(rec);
        self.next_id = self.next_id + 1;
        proof {
            assert(self@.recs =~= m0.recs.push(saved@));
            assert forall|a: int, b: int|
                0 <= a < self@.recs.len() && 0 <= b < self@.recs.len() && a != b implies {
                &&& self@.recs[a].id != self@.recs[b].id
                &&& self@.recs[a].short_code != self@.recs[b].short_code
                &&& self@.recs[a].original_url != self@.recs[b].original_url
            } by {
                if a < m0.recs.len() && b < m0.recs.len() {
                    assert(m0.recs[a] == self@.recs[a]);
                    assert(m0.recs[b] == self@.recs[b]);
                }
            }
        }
        Ok(saved)
    }

    /// Idempotently raises the `expired` flag of the row with the given key;
    /// a missing key changes nothing.  Expiration marking is best-effort
    /// housekeeping, so the operation reports no error.
    pub fn mark_as_expired(&mut self, short_url_id: i64)
        requires
            wf(old(self)@),
        ensures
            wf(final(self)@),
            final(self)@.next_id == old(self)@.next_id,
            final(self)@.recs.len() == old(self)@.recs.len(),
            forall|i: int|
                0 <= i < old(self)@.recs.len() ==> #[trigger] final(self)@.recs[i] == if old(
                    self,
                )@.recs[i].id == short_url_id {
                    with_expired(old(self)@.recs[i])
                } else {
                    old(self)@.recs[i]
                },
    {
        let ghost m0 = self@;
        let n = self.records.len();
        let mut i: usize = 0;
        while i < n
            invariant
                n == self.records.len(),
                i <= n,
                self@.next_id == m0.next_id,
                self@.recs.len() == m0.recs.len(),
                forall|j: int|
                    0 <= j < m0.recs.len() ==> #[trigger] self@.recs[j] == if j < i
                        && m0.recs[j].id == short_url_id {
                        with_expired(m0.recs[j])
                    } else {
                        m0.recs[j]
                    },
            decreases n - i,
        {
            let ghost pre = self@;
            if self.records[i].id == short_url_id {
                self.records[i].expired = true;
                proof {
                    assert(self@.recs =~= pre.recs.update(
                        i as int,
                        with_expired(pre.recs[i as int]),
                    ));
                }
            }
            i += 1;
        }
        proof {
            assert forall|a: int, b: int|
                0 <= a < self@.recs.len() && 0 <= b < self@.recs.len() && a != b implies {
                &&& self@.recs[a].id != self@.recs[b].id
                &&& self@.recs[a].short_code != self@.recs[b].short_code
                &&& self@.recs[a].original_url != self@.recs[b].original_url
            } by {
                assert(m0.recs[a].id != m0.recs[b].id);
            }
        }
    }

    /// Reads the row with the given key; fails with `NotPaid` and no
    /// mutation when the row carries no transaction hash, else raises the
    /// `expired` flag and returns the updated row.
    pub fn mark_as_expired_if_paid(&mut self, short_url_id: i64) -> (r: Result<
        ShortUrlRecord,
        StoreError,
    >)
        requires
            wf(old(self)@),
        ensures
            wf(final(self)@),
            !id_in(old(self)@.recs, short_url_id as int) ==> r == Err::<
                ShortUrlRecord,
                StoreError,
            >(StoreError::NotFound) && final(self)@ == old(self)@,
            forall|i: int|
                0 <= i < old(self)@.recs.len() && #[trigger] old(self)@.recs[i].id
                    == short_url_id ==> match old(self)@.recs[i].transaction_hash {
                    None => r == Err::<ShortUrlRecord, StoreError>(StoreError::NotPaid)
                        && final(self)@ == old(self)@,
                    Some(_) => {
                        &&& r matches Ok(rec) && rec@ == with_expired(old(self)@.recs[i])
                        &&& final(self)@.recs == old(self)@.recs.update(i, with_expired(
                            old(self)@.recs[i],
                        ))
                        &&& final(self)@.next_id == old(self)@.next_id
                    },
                },
    {
        let ghost m0 = self@;
        let n = self.records.len();
        let mut i: usize = 0;
        while i < n
            invariant
                n == self.records.len(),
                i <= n,
                self@ == m0,
                forall|j: int| 0 <= j < i ==> m0.recs[j].id != short_url_id,
            decreases n - i,
        {
            if self.records[i].id == short_url_id {
                if self.records[i].transaction_hash.is_none() {
                    return Err(StoreError::NotPaid);
                }
                self.records[i].expired = true;
                let rec = self.records[i].clone();
                proof {
                    assert(self@.recs =~= m0.recs.update(i as int, with_expired(
                        m0.recs[i as int],
                    )));
                    assert forall|a: int| 0 <= a < self@.recs.len() implies {
                        &&& 1 <= #[trigger] self@.recs[a].id < self@.next_id
                        &&& 0 <= self@.recs[a].created_at
                        &&& self@.recs[a].short_code.len() <= 16
                    } by {
                        assert(1 <= m0.recs[a].id < m0.next_id);
                    }
                    assert forall|a: int, b: int|
                        0 <= a < self@.recs.len() && 0 <= b < self@.recs.len() && a
                            != b implies {
                        &&& self@.recs[a].id != self@.recs[b].id
                        &&& self@.recs[a].short_code != self@.recs[b].short_code
                        &&& self@.recs[a].original_url != self@.recs[b].original_url
                    } by {
                        assert(m0.recs[a].id != m0.recs[b].id);
                    }
                    assert forall|j: int|
                        0 <= j < m0.recs.len() && #[trigger] m0.recs[j].id
                            == short_url_id implies j == i as int by {
                        if j != i as int {
                            assert(m0.recs[j].id != m0.recs[i as int].id);
                        }
                    }
                }
                return Ok(rec);
            }
            i += 1;
        }
        Err(StoreError::NotFound)
    }

    /// All rows, in insertion order.
    pub fn get_all_short_urls(&self) -> (r: &Vec<ShortUrlRecord>)
        ensures
            r@.map_values(|x: ShortUrlRecord| x@) == self@.recs,
    {
        &self.records
    }
}

} // verus!
