//! The persisted entity of the service: one row of the short-URL table.

use vstd::prelude::*;

verus! {

/// Mathematical model of a stored row: every text field is a sequence of
/// characters, the surrogate key and the creation time are unbounded integers.
pub ghost struct RecordModel {
    pub id: int,
    pub original_url: Seq<char>,
    pub short_code: Seq<char>,
    pub created_at: int,
    pub encrypted: bool,
    pub expired: bool,
    pub transaction_hash: Option<Seq<char>>,
}

/// View of an optional text field.
pub open spec fn opt_text_view(o: Option<String>) -> Option<Seq<char>> {
    match o {
        Some(s) => Some(s@),
        None => None,
    }
}

/// A stored short-URL row.
///
/// `original_url` holds either the plaintext destination or, when
/// `encrypted` is true, a printable ciphertext payload.  `created_at` is a
/// timestamp in whole seconds and anchors the expiration window of paid
/// records.
pub struct ShortUrlRecord {
    pub id: i64,
    pub original_url: String,
    pub short_code: String,
    pub created_at: i64,
    pub encrypted: bool,
    pub expired: bool,
    pub transaction_hash: Option<String>,
}

impl View for ShortUrlRecord {
    type V = RecordModel;

    open spec fn view(&self) -> RecordModel {
        RecordModel {
            id: self.id as int,
            original_url: self.original_url@,
            short_code: self.short_code@,
            created_at: self.created_at as int,
            encrypted: self.encrypted,
            expired: self.expired,
            transaction_hash: opt_text_view(self.transaction_hash),
        }
    }
}

impl Clone for ShortUrlRecord {
    fn clone(&self) -> (res: Self)
        ensures
            res@ == self@,
            res.id == self.id,
            res.created_at == self.created_at,
            res.encrypted == self.encrypted,
            res.expired == self.expired,
    {
        ShortUrlRecord {
            id: self.id,
            original_url: self.original_url.clone(),
            short_code: self.short_code.clone(),
            created_at: self.created_at,
            encrypted: self.encrypted,
            expired: self.expired,
            transaction_hash: match &self.transaction_hash {
                Some(h) => Some(h.clone()),
                None => None,
            },
        }
    }
}

/// The same row with its `expired` flag raised; the only mutation the store
/// ever performs on an existing row.
pub open spec fn with_expired(r: RecordModel) -> RecordModel {
    RecordModel { expired: true, ..r }
}

/// A draft row handed to the store for insertion; the store itself assigns
/// the surrogate key and the creation time.
pub struct NewShortUrl {
    pub original_url: String,
    pub short_code: String,
    pub encrypted: bool,
    pub transaction_hash: Option<String>,
}

} // verus!
