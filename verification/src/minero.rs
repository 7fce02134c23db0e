//! Which files the miner reads, and how it counts what it stored.

use vstd::prelude::*;
use crate::text::{eq_ignore_ascii_case, str_eq_ignore_ascii_case};
use crate::db::{upsert_song, upsert_log, grew, added, DbError};
use crate::sqlite::Db;
use crate::songtag::SongTag;

verus! {

/// A file is read by the miner when its extension is `mp3` in any case of
/// its letters.
pub fn is_mp3_extension(extension: Option<&str>) -> (r: bool)
    ensures
        r == (match extension {
            Some(e) => eq_ignore_ascii_case(e@, "mp3"@),
            None => false,
        }),
{
    match extension {
        Some(e) => str_eq_ignore_ascii_case(e, "mp3"),
        None => false,
    }
}

/// What storing a mined song gave: nothing, or the error that kept it out.
pub open spec fn stored_outcome(failure: Option<DbError>) -> Result<(), DbError> {
    match failure {
        None => Ok(()),
        Some(e) => Err(e),
    }
}

/// Stores one song the miner read (see [`upsert_song`]) and counts it: the
/// count goes up by one exactly when the song was stored; when it was not,
/// the count stays and the error that kept it out is handed back.
pub fn store_mined_song(db: &mut Db, song: &SongTag, stored: usize) -> (r: (usize, Option<DbError>))
    requires
        stored < usize::MAX,
    ensures
        grew(old(db).log(), final(db).log()),
        upsert_log(*song, added(old(db).log(), final(db).log())) == Some(stored_outcome(r.1)),
        r.0 == (if r.1 is None {
            stored + 1
        } else {
            stored as int
        }),
{
    match upsert_song(db, song) {
        Ok(()) => (stored + 1, None),
        Err(e) => (stored, Some(e)),
    }
}

} // verus!
