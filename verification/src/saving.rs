//! The decisions of saving a record. Creating and updating a record await
//! the database and the file store between decisions; the application
//! performs each step and hands its result to the next decision here.

use crate::crypto::{opened_record, Crypto};
use crate::text::owned;
use crate::views::RecordRow;
use vstd::prelude::*;

verus! {

/// What to do with a request to overwrite a record, once it was looked up.
#[derive(Debug, Clone, Copy, PartialEq, Eq, Structural)]
pub enum UpdateStart {
    /// No such record: 404 `record not found`.
    NotFound,
    /// The stored blob does not decrypt: 422, and it is not overwritten.
    RefuseOverwrite,
    /// Read the submitted form.
    Proceed,
}

pub open spec fn update_start_of(key: Seq<u8>, stored: Option<Seq<u8>>) -> UpdateStart {
    match stored {
        None => UpdateStart::NotFound,
        Some(b) => if opened_record(key, b) is None {
            UpdateStart::RefuseOverwrite
        } else {
            UpdateStart::Proceed
        },
    }
}

/// Decides on an update from the stored blob of the record (`None` when
/// there is no such record). A record that does not decrypt is never
/// overwritten.
pub fn update_start(crypto: &Crypto, stored: Option<&[u8]>) -> (r: UpdateStart)
    ensures
        r == update_start_of(
            crypto.key(),
            match stored {
                Some(b) => Some(b@),
                None => None,
            },
        ),
{
    match stored {
        None => UpdateStart::NotFound,
        Some(b) => if crypto.decrypt(b).is_err() {
            UpdateStart::RefuseOverwrite
        } else {
            UpdateStart::Proceed
        },
    }
}

/// What follows writing the new blob.
#[derive(Debug, Clone, Copy, PartialEq, Eq, Structural)]
pub enum AfterWrite {
    /// Store the rows of the uploaded files.
    InsertUploads,
    /// The record is gone: 404 `record not found` (the uploads stay, as
    /// the update never took place in the database).
    NotFound,
    /// The write failed: remove the uploaded files, then 500.
    CleanupThenInternal,
}

/// Decides after the update of the blob: `Ok(true)` when a row was
/// written, `Ok(false)` when no row had the id, `Err` when the database
/// failed.
pub fn update_after_write(written: Result<bool, ()>) -> (r: AfterWrite)
    ensures
        r == match written {
            Ok(true) => AfterWrite::InsertUploads,
            Ok(false) => AfterWrite::NotFound,
            Err(()) => AfterWrite::CleanupThenInternal,
        },
{
    match written {
        Ok(true) => AfterWrite::InsertUploads,
        Ok(false) => AfterWrite::NotFound,
        Err(()) => AfterWrite::CleanupThenInternal,
    }
}

/// Decides after the insertion of a new record: its uploads are stored
/// next, unless the database failed (then the files go, and 500).
pub fn create_after_write(written: Result<(), ()>) -> (r: AfterWrite)
    ensures
        r == match written {
            Ok(()) => AfterWrite::InsertUploads,
            Err(()) => AfterWrite::CleanupThenInternal,
        },
{
    match written {
        Ok(()) => AfterWrite::InsertUploads,
        Err(()) => AfterWrite::CleanupThenInternal,
    }
}

/// How saving a new record ends, once the rows of its uploads were stored
/// (or not).
#[derive(Debug, Clone, Copy, PartialEq, Eq, Structural)]
pub enum SaveEnd {
    /// Saved: announce the change, then 204 with `HX-Redirect: /` (201
    /// with the id from the JSON API).
    Saved,
    /// The uploads could not be stored: delete the record, then 500.
    DeleteThenInternal,
}

/// Decides once the uploads' rows of a new record were inserted
/// (`inserted`) or not.
pub fn save_end(inserted: bool) -> (r: SaveEnd)
    ensures
        r == (if inserted {
            SaveEnd::Saved
        } else {
            SaveEnd::DeleteThenInternal
        }),
{
    if inserted {
        SaveEnd::Saved
    } else {
        SaveEnd::DeleteThenInternal
    }
}

/// How an update ends, once the rows of its uploads were stored (or not).
#[derive(Debug, PartialEq, Eq)]
pub enum UpdateEnd {
    /// Saved: announce the change, then 204 with `HX-Redirect: /`.
    Saved,
    /// The uploads could not be stored: write back the blob and the update
    /// time that the record had before, which undoes the update, then 500.
    RestoreThenInternal { blob: Vec<u8>, updated_at: i64 },
}

/// Decides once the uploads' rows of an update were inserted (`inserted`)
/// or not, given the record as it was read before the update (`before`).
/// A failed insertion restores the record as it was.
pub fn update_end(inserted: bool, before: &RecordRow) -> (r: UpdateEnd)
    ensures
        inserted ==> r is Saved,
        !inserted ==> (r matches UpdateEnd::RestoreThenInternal { blob, updated_at } && blob@
            == before.blob@ && updated_at == before.updated_at),
{
    if inserted {
        UpdateEnd::Saved
    } else {
        UpdateEnd::RestoreThenInternal { blob: copy_bytes(&before.blob), updated_at: before.updated_at }
    }
}

/// A copy of `b`.
fn copy_bytes(b: &Vec<u8>) -> (r: Vec<u8>)
    ensures
        r@ == b@,
{
    let mut r: Vec<u8> = Vec::new();
    let mut i: usize = 0;
    while i < b.len()
        invariant
            i <= b.len(),
            r@ == b@.take(i as int),
        decreases b.len() - i,
    {
        r.push(b[i]);
        i += 1;
        proof {
            assert(r@ =~= b@.take(i as int));
        }
    }
    proof {
        assert(b@.take(b.len() as int) =~= b@);
    }
    r
}

impl UpdateStart {
    /// The status and text of a refusal (`None` to proceed).
    pub fn refusal(&self) -> (r: Option<(u16, String)>)
        ensures
            match *self {
                UpdateStart::NotFound => r matches Some((s, t)) && s == 404 && t@
                    == "record not found"@,
                UpdateStart::RefuseOverwrite => r matches Some((s, t)) && s == 422 && t@
                    == "Unable to decrypt this record; refusing to overwrite."@,
                UpdateStart::Proceed => r is None,
            },
    {
        match self {
            UpdateStart::NotFound => Some((404, owned("record not found"))),
            UpdateStart::RefuseOverwrite => Some(
                (422, owned("Unable to decrypt this record; refusing to overwrite.")),
            ),
            UpdateStart::Proceed => None,
        }
    }
}

} // verus!
