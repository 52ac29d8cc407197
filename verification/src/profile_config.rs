//! A backup profile: what to archive, where to put it, and when.

use vstd::prelude::*;
use crate::calendar::{instant_view, DateTime, Instant};
use crate::interval::{Interval, IntervalView};
use crate::paths::{path_starts_with, same, same_path, starts_with};
use crate::profile_id::ProfileId;

verus! {

/// How many days the next backup moves on where the schedule gives no
/// instant.
pub const FALLBACK_DAYS: u64 = 365;

/// A backup profile.
#[derive(Debug)]
pub struct ProfileConfig {
    /// Descriptive name of the profile; need not be unique
    pub name: String,
    /// Identifier of the profile, given when the profile is made
    pub uuid: ProfileId,
    /// Directory that receives the archives
    pub target_dir: String,
    /// Files to archive
    pub files_to_include: Vec<String>,
    /// Directories to archive
    pub dirs_to_include: Vec<String>,
    /// Files to leave out of the directories
    pub files_to_exclude: Vec<String>,
    /// Directories to leave out of the directories
    pub dirs_to_exclude: Vec<String>,
    /// When to make backups
    pub interval: Interval,
    /// When the next run is registered. The interval need not have this
    /// instant.
    pub next_backup: DateTime,
}

/// What a profile is.
pub struct ProfileView {
    pub name: Seq<char>,
    pub id: u128,
    pub target_dir: Seq<char>,
    pub files_to_include: Seq<Seq<char>>,
    pub dirs_to_include: Seq<Seq<char>>,
    pub files_to_exclude: Seq<Seq<char>>,
    pub dirs_to_exclude: Seq<Seq<char>>,
    pub interval: IntervalView,
    pub next_backup: Instant,
}

/// The texts of a list of strings.
pub open spec fn texts(list: Seq<String>) -> Seq<Seq<char>> {
    Seq::new(list.len(), |i: int| list[i]@)
}

/// The views of a list of profiles.
pub open spec fn profile_views(profiles: Seq<ProfileConfig>) -> Seq<ProfileView> {
    Seq::new(profiles.len(), |i: int| profiles[i]@)
}

/// Whether `path` is, component by component, one of `files`.
pub open spec fn names_file(files: Seq<Seq<char>>, path: Seq<char>) -> bool {
    exists|i: int| 0 <= i < files.len() && same(#[trigger] files[i], path)
}

/// Whether `path` begins with one of `dirs`, component by component.
pub open spec fn lies_under(dirs: Seq<Seq<char>>, path: Seq<char>) -> bool {
    exists|i: int| 0 <= i < dirs.len() && starts_with(path, #[trigger] dirs[i])
}

impl ProfileView {
    /// Whether `path` is left out: it is one of the excluded files or lies in
    /// one of the excluded directories.
    pub open spec fn is_excluded(self, path: Seq<char>) -> bool {
        names_file(self.files_to_exclude, path) || lies_under(self.dirs_to_exclude, path)
    }

    /// Whether `path` lies in one of the included directories.
    pub open spec fn in_included_dirs(self, path: Seq<char>) -> bool {
        lies_under(self.dirs_to_include, path)
    }

    /// Where the next backup moves to if the schedule gives no instant: 365
    /// days on, or nowhere if the calendar ends before.
    pub open spec fn fallback(self) -> Instant {
        match self.next_backup.plus_days(FALLBACK_DAYS as nat) {
            Some(later) => later,
            None => self.next_backup,
        }
    }

    /// The instant of the next backup after `from`, or after the profile's
    /// own `next_backup` where no `from` is given.
    pub open spec fn next_scheduled(self, from: Option<Instant>) -> Instant {
        let base = match from {
            Some(instant) => instant,
            None => self.next_backup,
        };
        match self.interval.next_datetime(base) {
            Some(next) => next,
            None => self.fallback(),
        }
    }
}

impl View for ProfileConfig {
    type V = ProfileView;

    open spec fn view(&self) -> ProfileView {
        ProfileView {
            name: self.name@,
            id: self.uuid@,
            target_dir: self.target_dir@,
            files_to_include: texts(self.files_to_include@),
            dirs_to_include: texts(self.dirs_to_include@),
            files_to_exclude: texts(self.files_to_exclude@),
            dirs_to_exclude: texts(self.dirs_to_exclude@),
            interval: self.interval@,
            next_backup: self.next_backup@,
        }
    }
}

/// Whether `path` is, component by component, one of `files`.
pub fn any_same_path(files: &Vec<String>, path: &str) -> (r: bool)
    ensures
        r == names_file(texts(files@), path@),
{
    let mut i: usize = 0;
    while i < files.len()
        invariant
            i <= files.len(),
            forall|k: int| 0 <= k < i ==> !same(#[trigger] texts(files@)[k], path@),
        decreases files.len() - i,
    {
        if same_path(files[i].as_str(), path) {
            assert(same(texts(files@)[i as int], path@));
            return true;
        }
        i += 1;
    }
    false
}

/// Whether `path` begins with one of `dirs`, component by component.
pub fn any_starts_with(dirs: &Vec<String>, path: &str) -> (r: bool)
    ensures
        r == lies_under(texts(dirs@), path@),
{
    let mut i: usize = 0;
    while i < dirs.len()
        invariant
            i <= dirs.len(),
            forall|k: int| 0 <= k < i ==> !starts_with(path@, #[trigger] texts(dirs@)[k]),
        decreases dirs.len() - i,
    {
        if path_starts_with(path, dirs[i].as_str()) {
            assert(starts_with(path@, texts(dirs@)[i as int]));
            return true;
        }
        i += 1;
    }
    false
}

impl ProfileConfig {
    /// A profile with the given identifier, whose next backup is registered
    /// for `now`.
    pub fn new(
        name: String,
        uuid: ProfileId,
        target_dir: String,
        files_to_include: Vec<String>,
        dirs_to_include: Vec<String>,
        files_to_exclude: Vec<String>,
        dirs_to_exclude: Vec<String>,
        interval: Interval,
        now: DateTime,
    ) -> (r: ProfileConfig)
        ensures
            r@ == (ProfileView {
                name: name@,
                id: uuid@,
                target_dir: target_dir@,
                files_to_include: texts(files_to_include@),
                dirs_to_include: texts(dirs_to_include@),
                files_to_exclude: texts(files_to_exclude@),
                dirs_to_exclude: texts(dirs_to_exclude@),
                interval: interval@,
                next_backup: now@,
            }),
    {
        ProfileConfig {
            name,
            uuid,
            target_dir,
            files_to_include,
            dirs_to_include,
            files_to_exclude,
            dirs_to_exclude,
            interval,
            next_backup: now,
        }
    }

    /// The identifier.
    pub fn get_uuid(&self) -> (r: &ProfileId)
        ensures
            r@ == self@.id,
    {
        &self.uuid
    }

    /// Gives the profile another identifier.
    pub fn set_uuid(&mut self, uuid: ProfileId)
        ensures
            final(self)@ == (ProfileView { id: uuid@, ..old(self)@ }),
    {
        self.uuid = uuid;
    }

    /// The instant of the next backup after `from_datetime`, or after the
    /// profile's own `next_backup` where none is given. Where the schedule has
    /// no instant in the year after, it is `next_backup` moved on by 365 days.
    pub fn get_next_scheduled(&self, from_datetime: Option<DateTime>) -> (r: DateTime)
        ensures
            r@ == self@.next_scheduled(instant_view(from_datetime)),
    {
        let base = match from_datetime {
            Some(datetime) => datetime,
            None => self.next_backup,
        };
        match self.interval.next_datetime(base) {
            Some(datetime) => datetime,
            None => match self.next_backup.checked_add_days(FALLBACK_DAYS) {
                Some(later) => later,
                None => self.next_backup,
            },
        }
    }

    /// Whether `path` lies in `dir`, component by component.
    pub fn is_in_dir(path: &str, dir: &str) -> (r: bool)
        ensures
            r == starts_with(path@, dir@),
    {
        path_starts_with(path, dir)
    }

    /// Whether `path` is one of the excluded files or lies in one of the
    /// excluded directories.
    pub fn is_excluded(&self, path: &str) -> (r: bool)
        ensures
            r == self@.is_excluded(path@),
    {
        any_same_path(&self.files_to_exclude, path) || any_starts_with(&self.dirs_to_exclude, path)
    }

    /// Whether `path` lies in one of the included directories.
    pub fn in_included_dirs(&self, path: &str) -> (r: bool)
        ensures
            r == self@.in_included_dirs(path@),
    {
        any_starts_with(&self.dirs_to_include, path)
    }
}

} // verus!
