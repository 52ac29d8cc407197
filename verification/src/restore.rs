//! Choosing the archive to restore from.

use vstd::prelude::*;
use crate::archive_name::{archive_instant, archive_timestamp};
use crate::calendar::{DateTime, Instant};
use crate::profile_config::texts;
use crate::profile_id::ProfileId;

verus! {

/// The instant in the name `names[k]`, if that names an archive of the profile
/// `id` produced no later than `at`.
pub open spec fn candidate(names: Seq<Seq<char>>, id: u128, at: Instant, k: int) -> Option<
    Instant,
> {
    match archive_instant(names[k], id) {
        Some(instant) if !at.before(instant) => Some(instant),
        _ => None,
    }
}

/// `names[k]` is the candidate to restore from among the first `upto` names:
/// none of them is a later candidate, and none before it is as late.
pub open spec fn is_latest(names: Seq<Seq<char>>, id: u128, at: Instant, k: int, upto: int) -> bool {
    &&& 0 <= k < upto
    &&& candidate(names, id, at, k) matches Some(instant) && forall|j: int|
        0 <= j < upto ==> match #[trigger] candidate(names, id, at, j) {
            Some(other) => !instant.before(other) && (other == instant ==> k <= j),
            None => true,
        }
}

/// None of the first `upto` names is a candidate.
pub open spec fn no_candidate(names: Seq<Seq<char>>, id: u128, at: Instant, upto: int) -> bool {
    forall|j: int| 0 <= j < upto ==> #[trigger] candidate(names, id, at, j) is None
}

/// The index, among the names of the files in the target directory, of the
/// archive to restore from: the latest archive of the profile `id` that was
/// produced no later than `timestamp`, and of several equally late ones the
/// first. Nothing where there is no such archive.
pub fn find_backup_archive(names: &Vec<String>, id: &ProfileId, timestamp: &DateTime) -> (r:
    Option<usize>)
    ensures
        match r {
            Some(k) => is_latest(texts(names@), id@, timestamp@, k as int, names@.len() as int),
            None => no_candidate(texts(names@), id@, timestamp@, names@.len() as int),
        },
{
    let mut best: Option<(usize, DateTime)> = None;
    let mut i: usize = 0;
    while i < names.len()
        invariant
            i <= names.len(),
            match best {
                Some((k, instant)) => is_latest(texts(names@), id@, timestamp@, k as int, i as int)
                    && candidate(texts(names@), id@, timestamp@, k as int) == Some(instant@)
                    && instant@.valid(),
                None => no_candidate(texts(names@), id@, timestamp@, i as int),
            },
        decreases names.len() - i,
    {
        let ghost list = texts(names@);
        assert(list[i as int] == names@[i as int]@);
        match archive_timestamp(names[i].as_str(), id) {
            Some(creation_date) => {
                let _ = creation_date.date();
                if !timestamp.is_before(&creation_date) {
                    let better = match best {
                        Some((_, current)) => current.is_before(&creation_date),
                        None => true,
                    };
                    if better {
                        best = Some((i, creation_date));
                    }
                }
            },
            None => {},
        }
        i += 1;
    }
    match best {
        Some((k, _)) => Some(k),
        None => None,
    }
}

} // verus!
