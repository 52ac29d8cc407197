//! The rules of the control plane: what a request on the stored profiles is
//! answered with, and what it leaves to be written.
//!
//! The caller reads the stored profiles, calls, and then writes what it is
//! handed.

use vstd::prelude::*;
use vstd::string::StringExecFns;
use crate::calendar::DateTime;
use crate::errors::Status;
use crate::interval::{IntervalBuilder, IntervalView};
use crate::profile_config::{profile_views, ProfileConfig, ProfileView};
use crate::profile_id::{id_view, uuid_parse, uuid_text, ProfileId};
use crate::rule::{Rule, SpecifierView};
use crate::specifier::SpecifierKind;

verus! {

/// Protobuf-serialized profiles.
#[derive(Debug)]
pub struct ProfileConfigs {
    pub configs: Vec<Vec<u8>>,
}

/// `text` in lower case, as `str::to_lowercase` gives it.
pub uninterp spec fn lowercase(text: Seq<char>) -> Seq<char>;

/// std's `str::to_lowercase`. The contract only names the result.
#[verifier::external_body]
fn to_lowercase(text: &str) -> (r: String)
    ensures
        r@ == lowercase(text@),
{
    text.to_lowercase()
}

/// `text` between double quotes.
pub open spec fn quoted(text: Seq<char>) -> Seq<char> {
    "\""@ + text + "\""@
}

/// Whether a profile with the name `lowered` and the identifier `owner`
/// claims the name `wanted`: the names are the same, both in lower case, and
/// the profile is not the one excepted.
pub open spec fn claims(lowered: Seq<char>, owner: u128, wanted: Seq<char>, except: Option<u128>) -> bool {
    except != Some(owner) && lowered == wanted
}

/// Whether one of `profiles`, other than the one excepted, has `name`, cases
/// aside.
pub open spec fn name_is_taken(profiles: Seq<ProfileView>, name: Seq<char>, except: Option<u128>) -> bool {
    exists|i: int|
        0 <= i < profiles.len() && claims(
            lowercase(#[trigger] profiles[i].name),
            profiles[i].id,
            lowercase(name),
            except,
        )
}

/// `k` is the first of `profiles` with the identifier `id`.
pub open spec fn is_first_with_id(profiles: Seq<ProfileView>, id: u128, k: int) -> bool {
    &&& 0 <= k < profiles.len()
    &&& profiles[k].id == id
    &&& forall|j: int| 0 <= j < k ==> (#[trigger] profiles[j]).id != id
}

/// `k` is the first of `profiles` with the name `name`.
pub open spec fn is_first_with_name(profiles: Seq<ProfileView>, name: Seq<char>, k: int) -> bool {
    &&& 0 <= k < profiles.len()
    &&& profiles[k].name == name
    &&& forall|j: int| 0 <= j < k ==> (#[trigger] profiles[j]).name != name
}

/// None of `profiles` has the identifier `id`.
pub open spec fn none_with_id(profiles: Seq<ProfileView>, id: u128) -> bool {
    forall|j: int| 0 <= j < profiles.len() ==> (#[trigger] profiles[j]).id != id
}

/// None of `profiles` has the name `name`.
pub open spec fn none_with_name(profiles: Seq<ProfileView>, name: Seq<char>) -> bool {
    forall|j: int| 0 <= j < profiles.len() ==> (#[trigger] profiles[j]).name != name
}

/// The schedule of a profile that was just created: no minute is picked.
pub open spec fn blank_interval() -> IntervalView {
    IntervalView {
        minutes: SpecifierView { lower: 0, upper: 59, rule: Rule::Nothing },
        hours: SpecifierView { lower: 0, upper: 23, rule: Rule::All },
        weekdays: SpecifierView { lower: 0, upper: 6, rule: Rule::All },
        monthdays: SpecifierView { lower: 0, upper: 31, rule: Rule::All },
        weeks: SpecifierView { lower: 0, upper: 52, rule: Rule::All },
        months: SpecifierView { lower: 0, upper: 11, rule: Rule::All },
    }
}

/// The report that `name` is taken.
pub open spec fn taken_report(name: Seq<char>) -> Seq<char> {
    "Name "@ + quoted(name) + " is already taken"@
}

/// The report that `text` is no identifier.
pub open spec fn invalid_id_report(text: Seq<char>) -> Seq<char> {
    quoted(text) + " is not a valid uuid"@
}

/// The report that no profile has the identifier `id`.
pub open spec fn no_id_report(id: u128) -> Seq<char> {
    "No ProfileConfig with the uuid "@ + uuid_text(id) + " was found"@
}

/// The report that no profile has the name `name`.
pub open spec fn no_name_report(name: Seq<char>) -> Seq<char> {
    "No ProfileConfig with the name "@ + quoted(name) + " was found"@
}

/// `text` between double quotes, appended to `out`.
fn push_quoted(out: &mut String, text: &str)
    ensures
        final(out)@ == old(out)@ + quoted(text@),
{
    out.append("\"");
    out.append(text);
    out.append("\"");
    assert(final(out)@ =~= old(out)@ + quoted(text@));
}

/// The report that `name` is taken.
fn report_taken(name: &str) -> (r: String)
    ensures
        r@ == taken_report(name@),
{
    let mut out = String::from_str("Name ");
    push_quoted(&mut out, name);
    out.append(" is already taken");
    assert(out@ =~= taken_report(name@));
    out
}

/// The report that `text` is no identifier.
fn report_invalid_id(text: &str) -> (r: String)
    ensures
        r@ == invalid_id_report(text@),
{
    let mut out = String::new();
    push_quoted(&mut out, text);
    out.append(" is not a valid uuid");
    assert(out@ =~= invalid_id_report(text@));
    out
}

/// The report that no profile has the identifier `id`.
fn report_no_id(id: &ProfileId) -> (r: String)
    ensures
        r@ == no_id_report(id@),
{
    let mut out = String::from_str("No ProfileConfig with the uuid ");
    let text = id.hyphenated();
    out.append(text.as_str());
    out.append(" was found");
    out
}

/// The report that no profile has the name `name`.
fn report_no_name(name: &str) -> (r: String)
    ensures
        r@ == no_name_report(name@),
{
    let mut out = String::from_str("No ProfileConfig with the name ");
    push_quoted(&mut out, name);
    out.append(" was found");
    assert(out@ =~= no_name_report(name@));
    out
}

/// Whether a profile with the name `lowered` and the identifier `owner`
/// claims the name `wanted`, both names being in lower case already.
pub fn claims_name(lowered: &String, owner: &ProfileId, wanted: &String, except: Option<ProfileId>) -> (r:
    bool)
    ensures
        r == claims(lowered@, owner@, wanted@, id_view(except)),
{
    let excepted = match except {
        Some(id) => id.same_as(owner),
        None => false,
    };
    !excepted && *lowered == *wanted
}

/// Whether one of `profiles`, other than the one excepted, has `name`, cases
/// aside.
pub fn name_taken(profiles: &Vec<ProfileConfig>, name: &str, except: Option<ProfileId>) -> (r: bool)
    ensures
        r == name_is_taken(profile_views(profiles@), name@, id_view(except)),
{
    let wanted = to_lowercase(name);
    let mut i: usize = 0;
    while i < profiles.len()
        invariant
            i <= profiles.len(),
            wanted@ == lowercase(name@),
            forall|k: int|
                0 <= k < i ==> !claims(
                    lowercase(#[trigger] profile_views(profiles@)[k].name),
                    profile_views(profiles@)[k].id,
                    lowercase(name@),
                    id_view(except),
                ),
        decreases profiles.len() - i,
    {
        let lowered = to_lowercase(profiles[i].name.as_str());
        assert(profile_views(profiles@)[i as int] == profiles@[i as int]@);
        if claims_name(&lowered, profiles[i].get_uuid(), &wanted, except) {
            assert(claims(
                lowercase(profile_views(profiles@)[i as int].name),
                profile_views(profiles@)[i as int].id,
                lowercase(name@),
                id_view(except),
            ));
            return true;
        }
        i += 1;
    }
    false
}

/// The first of `profiles` with the identifier `id`.
pub fn find_by_uuid(profiles: &Vec<ProfileConfig>, id: &ProfileId) -> (r: Option<usize>)
    ensures
        match r {
            Some(k) => is_first_with_id(profile_views(profiles@), id@, k as int),
            None => none_with_id(profile_views(profiles@), id@),
        },
{
    let mut i: usize = 0;
    while i < profiles.len()
        invariant
            i <= profiles.len(),
            forall|j: int| 0 <= j < i ==> (#[trigger] profile_views(profiles@)[j]).id != id@,
        decreases profiles.len() - i,
    {
        assert(profile_views(profiles@)[i as int] == profiles@[i as int]@);
        if profiles[i].get_uuid().same_as(id) {
            return Some(i);
        }
        i += 1;
    }
    None
}

/// The first of `profiles` with the name `name`.
pub fn find_by_name(profiles: &Vec<ProfileConfig>, name: &String) -> (r: Option<usize>)
    ensures
        match r {
            Some(k) => is_first_with_name(profile_views(profiles@), name@, k as int),
            None => none_with_name(profile_views(profiles@), name@),
        },
{
    let mut i: usize = 0;
    while i < profiles.len()
        invariant
            i <= profiles.len(),
            forall|j: int| 0 <= j < i ==> (#[trigger] profile_views(profiles@)[j]).name != name@,
        decreases profiles.len() - i,
    {
        assert(profile_views(profiles@)[i as int] == profiles@[i as int]@);
        if profiles[i].name == *name {
            return Some(i);
        }
        i += 1;
    }
    None
}

/// Which of `profiles` a request by name gets: the first with that name, or
/// else a report with the status `NotFound`.
pub fn get_profile_config_by_name(profiles: &Vec<ProfileConfig>, name: &String) -> (r: Result<
    usize,
    (Status, String),
>)
    ensures
        match r {
            Ok(k) => is_first_with_name(profile_views(profiles@), name@, k as int),
            Err((status, report)) => none_with_name(profile_views(profiles@), name@) && status
                == Status::NotFound && report@ == no_name_report(name@),
        },
{
    match find_by_name(profiles, name) {
        Some(k) => Ok(k),
        None => Err((Status::NotFound, report_no_name(name.as_str()))),
    }
}

/// The identifier that a request names: the one that `uuid` writes, or else a
/// report with the status `BadRequest`.
pub fn requested_id(uuid: &str) -> (r: Result<ProfileId, (Status, String)>)
    ensures
        match uuid_parse(uuid@) {
            Some(value) => r matches Ok(id) && id@ == value,
            None => r matches Err((status, report)) && status == Status::BadRequest && report@
                == invalid_id_report(uuid@),
        },
{
    match ProfileId::parse_str(uuid) {
        Some(id) => Ok(id),
        None => Err((Status::BadRequest, report_invalid_id(uuid))),
    }
}

/// Which of `profiles` a request by identifier gets: the first with the
/// identifier `id`, or else a report with the status `NotFound`.
pub fn profile_with_id(profiles: &Vec<ProfileConfig>, id: &ProfileId) -> (r: Result<
    usize,
    (Status, String),
>)
    ensures
        match r {
            Ok(k) => is_first_with_id(profile_views(profiles@), id@, k as int),
            Err((status, report)) => none_with_id(profile_views(profiles@), id@) && status
                == Status::NotFound && report@ == no_id_report(id@),
        },
{
    match find_by_uuid(profiles, id) {
        Some(k) => Ok(k),
        None => Err((Status::NotFound, report_no_id(id))),
    }
}

/// Which of `profiles` a request by identifier gets: a `uuid` that writes no
/// identifier is a `BadRequest`, an identifier that no profile has is
/// `NotFound`.
pub fn get_profile_config_by_uuid(profiles: &Vec<ProfileConfig>, uuid: &str) -> (r: Result<
    usize,
    (Status, String),
>)
    ensures
        match uuid_parse(uuid@) {
            None => r matches Err((status, report)) && status == Status::BadRequest && report@
                == invalid_id_report(uuid@),
            Some(id) => match r {
                Ok(k) => is_first_with_id(profile_views(profiles@), id, k as int),
                Err((status, report)) => none_with_id(profile_views(profiles@), id) && status
                    == Status::NotFound && report@ == no_id_report(id),
            },
        },
{
    match requested_id(uuid) {
        Ok(id) => profile_with_id(profiles, &id),
        Err(refusal) => Err(refusal),
    }
}

/// A new profile with the given name and identifier and nothing else: no
/// directory, no file, and a schedule without a minute. Refused with the
/// status `Conflict` where one of `profiles` has the name already, cases
/// aside.
pub fn create_blank_profile_config(
    profiles: &Vec<ProfileConfig>,
    name: String,
    id: ProfileId,
    now: DateTime,
) -> (r: Result<ProfileConfig, (Status, String)>)
    ensures
        match r {
            Ok(profile) => !name_is_taken(profile_views(profiles@), name@, None) && profile@ == (
            ProfileView {
                name: name@,
                id: id@,
                target_dir: Seq::empty(),
                files_to_include: Seq::empty(),
                dirs_to_include: Seq::empty(),
                files_to_exclude: Seq::empty(),
                dirs_to_exclude: Seq::empty(),
                interval: blank_interval(),
                next_backup: now@,
            }),
            Err((status, report)) => name_is_taken(profile_views(profiles@), name@, None) && status
                == Status::Conflict && report@ == taken_report(name@),
        },
{
    if name_taken(profiles, name.as_str(), None) {
        return Err((Status::Conflict, report_taken(name.as_str())));
    }
    let mut builder = IntervalBuilder::default();
    builder.minutes(SpecifierKind::Nothing);
    let none_interval = match builder.build() {
        Ok(interval) => interval,
        Err(_) => {
            assert(false);
            return Err((Status::InternalServerError, String::from_str("Unexpected Error")));
        },
    };
    let profile = ProfileConfig::new(
        name,
        id,
        String::new(),
        Vec::new(),
        Vec::new(),
        Vec::new(),
        Vec::new(),
        none_interval,
        now,
    );
    assert(profile@.files_to_include =~= Seq::empty());
    assert(profile@.dirs_to_include =~= Seq::empty());
    assert(profile@.files_to_exclude =~= Seq::empty());
    assert(profile@.dirs_to_exclude =~= Seq::empty());
    Ok(profile)
}

/// What an update leaves of `new` where `stored` is the profile it replaces:
/// everything but the identifier and `next_backup`, which stay as they are.
pub open spec fn merged(new: ProfileView, id: u128, stored: ProfileView) -> ProfileView {
    ProfileView { id, next_backup: stored.next_backup, ..new }
}

/// Whether `r` answers the update of the stored profile `id` by `new`.
///
/// `new` is refused with `BadRequest` where its schedule is not valid, with
/// `Conflict` where its name, cases aside, is that of a stored profile with
/// another identifier than its own, and with `NotFound` where no stored
/// profile has the identifier `id`. Otherwise the profile to write is `new`
/// with `id` and the stored `next_backup`, and the trigger is to be registered
/// anew exactly if the schedule differs from the stored one.
pub open spec fn answers_update(
    stored: Seq<ProfileView>,
    id: u128,
    new: ProfileView,
    r: Result<(ProfileConfig, bool), (Status, String)>,
) -> bool {
    match r {
        Err((status, report)) => if !new.interval.valid() {
            status == Status::BadRequest && report@ == new.interval.validation_report()
        } else if name_is_taken(stored, new.name, Some(new.id)) {
            status == Status::Conflict && report@ == taken_report(new.name)
        } else {
            none_with_id(stored, id) && status == Status::NotFound && report@ == no_id_report(id)
        },
        Ok((profile, reschedule)) => {
            &&& new.interval.valid()
            &&& !name_is_taken(stored, new.name, Some(new.id))
            &&& exists|k: int|
                #![trigger stored[k]]
                is_first_with_id(stored, id, k) && profile@ == merged(new, id, stored[k])
                    && reschedule == (new.interval != stored[k].interval)
        },
    }
}

/// The profile to write in place of the stored profile with the identifier
/// `id`, and whether its trigger has to be registered anew; or the refusal.
pub fn update_with_id(profiles: &Vec<ProfileConfig>, id: ProfileId, new_config: ProfileConfig) -> (r:
    Result<(ProfileConfig, bool), (Status, String)>)
    ensures
        answers_update(profile_views(profiles@), id@, new_config@, r),
{
    let mut new_config = new_config;
    if let Err(msg) = new_config.interval.validate() {
        return Err((Status::BadRequest, msg));
    }
    if name_taken(profiles, new_config.name.as_str(), Some(*new_config.get_uuid())) {
        return Err((Status::Conflict, report_taken(new_config.name.as_str())));
    }
    let k = match profile_with_id(profiles, &id) {
        Ok(k) => k,
        Err(refusal) => {
            return Err(refusal);
        },
    };
    assert(profile_views(profiles@)[k as int] == profiles@[k as int]@);
    new_config.set_uuid(id);
    new_config.next_backup = profiles[k].next_backup;
    let reschedule = !new_config.interval.same_as(&profiles[k].interval);
    Ok((new_config, reschedule))
}

/// An update of the stored profile that `uuid` names: a `uuid` that writes no
/// identifier is a `BadRequest`; for the rest see [`update_with_id`].
pub fn update_profile_config(
    profiles: &Vec<ProfileConfig>,
    uuid: &str,
    new_config: ProfileConfig,
) -> (r: Result<(ProfileConfig, bool), (Status, String)>)
    ensures
        match uuid_parse(uuid@) {
            None => r matches Err((status, report)) && status == Status::BadRequest && report@
                == invalid_id_report(uuid@),
            Some(id) => answers_update(profile_views(profiles@), id, new_config@, r),
        },
{
    match requested_id(uuid) {
        Ok(id) => update_with_id(profiles, id, new_config),
        Err(refusal) => Err(refusal),
    }
}

} // verus!
