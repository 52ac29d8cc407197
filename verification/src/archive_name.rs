//! The names of archive files: `<id>_<YYYY-MM-DD_HH-MM>.zip`.

use vstd::prelude::*;
use vstd::string::StringExecFns;
use crate::calendar::{instant_view, Date, DateTime, Hms, Instant, Time, Ymd};
use crate::profile_id::{uuid_text, ProfileId};
use crate::text::{
    begins_with, ends_with, has_at, has_at_end, lemma_padded_len, lemma_padded_round_trip,
    lemma_pow10_values, number, padded, push_padded, read_number, stands_at,
};

verus! {

/// The end of an archive's name.
pub open spec fn zip_suffix() -> Seq<char> {
    seq!['.', 'z', 'i', 'p']
}

/// Whether the year of `instant` can be written with four digits.
pub open spec fn stampable(instant: Instant) -> bool {
    0 <= instant.date.year <= 9999
}

/// `instant` with its seconds cut off.
pub open spec fn on_the_minute(instant: Instant) -> Instant {
    Instant { date: instant.date, time: Hms { second: 0, ..instant.time } }
}

/// `instant` as `YYYY-MM-DD_HH-MM`.
pub open spec fn stamp(instant: Instant) -> Seq<char> {
    padded(instant.date.year as nat, 4) + seq!['-'] + padded(instant.date.month as nat, 2)
        + seq!['-'] + padded(instant.date.day as nat, 2) + seq!['_'] + padded(
        instant.time.hour as nat,
        2,
    ) + seq!['-'] + padded(instant.time.minute as nat, 2)
}

/// The instant that `text` writes as `YYYY-MM-DD_HH-MM`: sixteen characters,
/// digits but for the four marks, that give a date of the calendar and a time
/// of day.
pub open spec fn read_stamp(text: Seq<char>) -> Option<Instant> {
    if text.len() == 16 && text[4] == '-' && text[7] == '-' && text[10] == '_' && text[13] == '-' {
        match (
            number(text.subrange(0, 4)),
            number(text.subrange(5, 7)),
            number(text.subrange(8, 10)),
            number(text.subrange(11, 13)),
            number(text.subrange(14, 16)),
        ) {
            (Some(year), Some(month), Some(day), Some(hour), Some(minute)) => {
                let instant = Instant {
                    date: Ymd { year: year as int, month: month as int, day: day as int },
                    time: Hms { hour: hour as int, minute: minute as int, second: 0 },
                };
                if instant.valid() {
                    Some(instant)
                } else {
                    None
                }
            },
            _ => None,
        }
    } else {
        None
    }
}

/// What stands in front of the stamp in the name of an archive of the profile
/// `id`.
pub open spec fn archive_prefix(id: u128) -> Seq<char> {
    uuid_text(id) + seq!['_']
}

/// The name of the archive that the profile `id` produces at `instant`.
pub open spec fn archive_name(id: u128, instant: Instant) -> Seq<char> {
    archive_prefix(id) + stamp(instant) + zip_suffix()
}

/// Whether `name` is `<id>_`, anything, `.zip`.
pub open spec fn names_archive_of(name: Seq<char>, id: u128) -> bool {
    &&& name.len() >= archive_prefix(id).len() + zip_suffix().len()
    &&& begins_with(name, archive_prefix(id))
    &&& ends_with(name, zip_suffix())
}

/// The instant in the name of an archive of the profile `id`, if `name` is
/// such a name.
pub open spec fn archive_instant(name: Seq<char>, id: u128) -> Option<Instant> {
    if names_archive_of(name, id) {
        read_stamp(name.subrange(archive_prefix(id).len() as int, name.len() - 4))
    } else {
        None
    }
}

/// A stamp reads back as the instant it was written for, to the minute.
pub proof fn lemma_stamp_round_trip(instant: Instant)
    requires
        instant.valid(),
        stampable(instant),
    ensures
        read_stamp(stamp(instant)) == Some(on_the_minute(instant)),
{
    let text = stamp(instant);
    let year = instant.date.year as nat;
    let month = instant.date.month as nat;
    let day = instant.date.day as nat;
    let hour = instant.time.hour as nat;
    let minute = instant.time.minute as nat;
    lemma_pow10_values();
    lemma_padded_round_trip(year, 4);
    lemma_padded_round_trip(month, 2);
    lemma_padded_round_trip(day, 2);
    lemma_padded_round_trip(hour, 2);
    lemma_padded_round_trip(minute, 2);
    assert(text.len() == 16);
    assert(text.subrange(0, 4) =~= padded(year, 4));
    assert(text.subrange(5, 7) =~= padded(month, 2));
    assert(text.subrange(8, 10) =~= padded(day, 2));
    assert(text.subrange(11, 13) =~= padded(hour, 2));
    assert(text.subrange(14, 16) =~= padded(minute, 2));
    assert(text[4] == '-' && text[7] == '-' && text[10] == '_' && text[13] == '-');
}

/// The name of an archive gives back the profile's instant of production, to
/// the minute.
pub proof fn lemma_archive_name_round_trip(id: u128, instant: Instant)
    requires
        instant.valid(),
        stampable(instant),
    ensures
        names_archive_of(archive_name(id, instant), id),
        archive_instant(archive_name(id, instant), id) == Some(on_the_minute(instant)),
{
    let name = archive_name(id, instant);
    let prefix = archive_prefix(id);
    lemma_stamp_round_trip(instant);
    lemma_stamp_len(instant);
    assert(name.subrange(0, prefix.len() as int) =~= prefix);
    assert(name.subrange(name.len() - 4, name.len() as int) =~= zip_suffix());
    assert(name.subrange(prefix.len() as int, name.len() - 4) =~= stamp(instant));
}

/// A stamp has sixteen characters.
pub proof fn lemma_stamp_len(instant: Instant)
    ensures
        stamp(instant).len() == 16,
{
    lemma_padded_len(instant.date.year as nat, 4);
    lemma_padded_len(instant.date.month as nat, 2);
    lemma_padded_len(instant.date.day as nat, 2);
    lemma_padded_len(instant.time.hour as nat, 2);
    lemma_padded_len(instant.time.minute as nat, 2);
}

/// Appends `instant` as `YYYY-MM-DD_HH-MM`.
fn push_stamp(out: &mut String, instant: &DateTime)
    requires
        stampable(instant@),
    ensures
        final(out)@ == old(out)@ + stamp(instant@),
{
    proof {
        reveal_strlit("-");
        reveal_strlit("_");
    }
    let date = instant.date();
    let time = instant.time();
    push_padded(out, date.year() as u32, 4);
    out.append("-");
    push_padded(out, date.month(), 2);
    out.append("-");
    push_padded(out, date.day(), 2);
    out.append("_");
    push_padded(out, time.hour(), 2);
    out.append("-");
    push_padded(out, time.minute(), 2);
    assert("-"@ =~= seq!['-']);
    assert("_"@ =~= seq!['_']);
    assert(final(out)@ =~= old(out)@ + stamp(instant@));
}

/// The name of the archive that the profile `id` produces at `now`. There is
/// none where the year of `now` does not have four digits.
pub fn archive_file_name(id: &ProfileId, now: &DateTime) -> (r: Option<String>)
    ensures
        r is Some <==> stampable(now@),
        r matches Some(name) ==> name@ == archive_name(id@, now@),
{
    let year = now.date().year();
    if year < 0 || year > 9999 {
        return None;
    }
    proof {
        reveal_strlit("_");
        reveal_strlit(".zip");
    }
    let mut name = id.hyphenated();
    name.append("_");
    push_stamp(&mut name, now);
    name.append(".zip");
    assert("_"@ =~= seq!['_']);
    assert(".zip"@ =~= zip_suffix());
    assert(name@ =~= archive_name(id@, now@));
    Some(name)
}

/// The instant that `text` writes as `YYYY-MM-DD_HH-MM`.
pub fn parse_stamp(text: &str) -> (r: Option<DateTime>)
    ensures
        instant_view(r) == read_stamp(text@),
{
    if text.unicode_len() != 16 {
        return None;
    }
    if text.get_char(4) != '-' || text.get_char(7) != '-' || text.get_char(10) != '_'
        || text.get_char(13) != '-' {
        return None;
    }
    proof {
        lemma_pow10_values();
    }
    let year = read_number(text, 0, 4);
    let month = read_number(text, 5, 2);
    let day = read_number(text, 8, 2);
    let hour = read_number(text, 11, 2);
    let minute = read_number(text, 14, 2);
    match (year, month, day, hour, minute) {
        (Some(year), Some(month), Some(day), Some(hour), Some(minute)) => {
            let date = Date::from_ymd_opt(year as i32, month, day);
            let time = Time::from_hms_opt(hour, minute, 0);
            match (date, time) {
                (Some(date), Some(time)) => Some(date.and_time(time)),
                _ => None,
            }
        },
        _ => None,
    }
}

/// What stands in front of the stamp in the name of an archive of `id`.
fn prefix_of(id: &ProfileId) -> (r: String)
    ensures
        r@ == archive_prefix(id@),
{
    proof {
        reveal_strlit("_");
    }
    let mut prefix = id.hyphenated();
    prefix.append("_");
    assert("_"@ =~= seq!['_']);
    prefix
}

/// Whether `file_name` is `<id>_`, anything, `.zip`.
pub fn is_profile_archive(file_name: &str, id: &ProfileId) -> (r: bool)
    ensures
        r == names_archive_of(file_name@, id@),
{
    proof {
        reveal_strlit(".zip");
        assert(".zip"@ =~= zip_suffix());
    }
    let prefix = prefix_of(id);
    let len = file_name.unicode_len();
    let prefix_len = prefix.as_str().unicode_len();
    if len < 4 || len - 4 < prefix_len {
        return false;
    }
    has_at(file_name, 0, prefix.as_str()) && has_at_end(file_name, ".zip")
}

/// The instant in the name of an archive of the profile `id`; nothing where
/// `file_name` is no such name.
pub fn archive_timestamp(file_name: &str, id: &ProfileId) -> (r: Option<DateTime>)
    ensures
        instant_view(r) == archive_instant(file_name@, id@),
{
    if !is_profile_archive(file_name, id) {
        return None;
    }
    let prefix = prefix_of(id);
    let len = file_name.unicode_len();
    let prefix_len = prefix.as_str().unicode_len();
    parse_stamp(file_name.substring_char(prefix_len, len - 4))
}

} // verus!
