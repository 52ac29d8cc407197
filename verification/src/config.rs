//! Choosing among the stored profiles, and judging what was found on disk.
//!
//! Nothing here reads a file: the caller looks, and hands over what it saw.

use vstd::prelude::*;
use vstd::string::StringExecFns;
use crate::profile_config::{profile_views, ProfileConfig, ProfileView};
use crate::profile_id::{id_view, uuid_parse, ProfileId};
use crate::text::{ends_with, has_at_end};

verus! {

/// Where the general configuration is looked for if no path is given.
pub const GENERAL_CONFIG_PATH: &'static str = "./general_config.json";

/// The general configuration: where the profiles are stored.
#[derive(Debug)]
pub struct GeneralConfig {
    /// The directory that holds one `.json` file per profile.
    pub profile_configs: String,
}

/// Names the profiles that are meant: by name, by identifier, by both, or all
/// of them.
pub trait ProfileSpecifier {
    fn name(&self) -> Option<&str>;

    fn uuid(&self) -> Option<&str>;
}

/// The text of an optional string slice.
pub open spec fn text_view(text: Option<&str>) -> Option<Seq<char>> {
    match text {
        Some(t) => Some(t@),
        None => None,
    }
}

/// Whether a profile is meant by a name and an identifier: it has the name, if
/// one is given, and it has the identifier, if one is given.
pub open spec fn is_meant(profile: ProfileView, name: Option<Seq<char>>, id: Option<u128>) -> bool {
    &&& name matches Some(n) ==> profile.name == n
    &&& id matches Some(i) ==> profile.id == i
}

/// The identifier that a text of a selection stands for. A text that writes no
/// identifier stands for none: it leaves no profile out.
pub open spec fn meant_id(uuid: Option<Seq<char>>) -> Option<u128> {
    match uuid {
        Some(text) => uuid_parse(text),
        None => None,
    }
}

/// The end of the name of a profile's file.
pub open spec fn json_suffix() -> Seq<char> {
    seq!['.', 'j', 's', 'o', 'n']
}

/// Whether a file of this name holds a profile: the name ends in `.json` and
/// has something before that.
pub open spec fn names_profile(file_name: Seq<char>) -> bool {
    file_name.len() > json_suffix().len() && ends_with(file_name, json_suffix())
}

/// Whether a file of this name holds a profile.
pub fn is_profile_file(file_name: &str) -> (r: bool)
    ensures
        r == names_profile(file_name@),
{
    proof {
        reveal_strlit(".json");
        assert(".json"@ =~= json_suffix());
    }
    file_name.unicode_len() > 5 && has_at_end(file_name, ".json")
}

/// Whether `profile` is meant by `name` and `id`.
pub fn matches_parsed(profile: &ProfileConfig, name: Option<&str>, id: Option<ProfileId>) -> (r:
    bool)
    ensures
        r == is_meant(profile@, text_view(name), id_view(id)),
{
    let name_match = match name {
        Some(name) => {
            let wanted = String::from_str(name);
            profile.name == wanted
        },
        None => true,
    };
    let uuid_match = match id {
        Some(id) => profile.get_uuid().same_as(&id),
        None => true,
    };
    name_match && uuid_match
}

/// Whether `profile` is meant by `name` and by the identifier that `uuid`
/// writes.
pub fn matches_selection(profile: &ProfileConfig, name: Option<&str>, uuid: Option<&str>) -> (r:
    bool)
    ensures
        r == is_meant(profile@, text_view(name), meant_id(text_view(uuid))),
{
    let id = match uuid {
        Some(text) => ProfileId::parse_str(text),
        None => None,
    };
    matches_parsed(profile, name, id)
}

/// The profile, if there is one and `specifier` means it. Whatever the
/// specifier answers, nothing but the profile handed over comes back.
pub fn matches_specifier<T: ProfileSpecifier>(profile_conf: Option<ProfileConfig>, specifier: &T) -> (r:
    Option<ProfileConfig>)
    ensures
        r matches Some(profile) ==> profile_conf == Some(profile),
{
    let profile = match profile_conf {
        Some(profile) => profile,
        None => {
            return None;
        },
    };
    if matches_selection(&profile, specifier.name(), specifier.uuid()) {
        Some(profile)
    } else {
        None
    }
}

/// What was found where a path points to.
#[derive(Debug, Clone, Copy, PartialEq, Eq, Structural)]
pub enum Found {
    /// Nothing is there.
    Missing,
    /// A directory.
    Directory,
    /// A file.
    File,
    /// Something else.
    Other,
}

/// The report that no directory is at `path`.
pub open spec fn missing_dir_report(path: Seq<char>) -> Seq<char> {
    "Directory "@ + path + " doesn't exist!"@
}

/// The report that what is at `path` is no directory.
pub open spec fn not_dir_report(path: Seq<char>) -> Seq<char> {
    "Path "@ + path + " doesn't point to directory!"@
}

/// Whether a directory is at `path`, given what was found there; if not, a
/// report.
pub fn valid_dir_path(path: &str, found: Found) -> (r: Result<(), String>)
    ensures
        r is Ok <==> found == Found::Directory,
        r matches Err(report) ==> report@ == (if found == Found::Missing {
            missing_dir_report(path@)
        } else {
            not_dir_report(path@)
        }),
{
    match found {
        Found::Directory => Ok(()),
        Found::Missing => {
            let mut report = String::from_str("Directory ");
            report.append(path);
            report.append(" doesn't exist!");
            Err(report)
        },
        _ => {
            let mut report = String::from_str("Path ");
            report.append(path);
            report.append(" doesn't point to directory!");
            Err(report)
        },
    }
}

/// The path of the general configuration, and whether it can be loaded from
/// there, given what was found at that path; if not, a report.
pub fn load_general_config(path: Option<&str>, found: Found) -> (r: Result<String, String>)
    ensures
        r is Ok <==> found == Found::File,
        r matches Ok(place) ==> place@ == (match path {
            Some(p) => p@,
            None => GENERAL_CONFIG_PATH@,
        }),
        r matches Err(report) ==> report@ == (if found == Found::Missing {
            "General config file doesn't exist!"@
        } else {
            "Path to general config file doesn't point to a file!"@
        }),
{
    match found {
        Found::File => Ok(
            String::from_str(
                match path {
                    Some(p) => p,
                    None => GENERAL_CONFIG_PATH,
                },
            ),
        ),
        Found::Missing => Err(String::from_str("General config file doesn't exist!")),
        _ => Err(String::from_str("Path to general config file doesn't point to a file!")),
    }
}

/// The views of what was loaded, file by file: a profile or a report.
pub open spec fn loaded_views(loaded: Seq<Result<ProfileConfig, String>>) -> Seq<
    Result<ProfileView, Seq<char>>,
> {
    Seq::new(
        loaded.len(),
        |i: int|
            match loaded[i] {
                Ok(profile) => Ok(profile@),
                Err(report) => Err(report@),
            },
    )
}

/// The profiles among `loaded` that are meant, in their order.
pub open spec fn meant_profiles(
    loaded: Seq<Result<ProfileView, Seq<char>>>,
    name: Option<Seq<char>>,
    id: Option<u128>,
) -> Seq<ProfileView>
    decreases loaded.len(),
{
    if loaded.len() == 0 {
        Seq::empty()
    } else {
        let front = meant_profiles(loaded.drop_last(), name, id);
        match loaded.last() {
            Ok(profile) if is_meant(profile, name, id) => front.push(profile),
            _ => front,
        }
    }
}

/// The first report among `loaded`, if a file could not be loaded.
pub open spec fn first_failure(loaded: Seq<Result<ProfileView, Seq<char>>>) -> Option<Seq<char>>
    decreases loaded.len(),
{
    if loaded.len() == 0 {
        None
    } else {
        match first_failure(loaded.drop_last()) {
            Some(report) => Some(report),
            None => match loaded.last() {
                Err(report) => Some(report),
                Ok(_) => None,
            },
        }
    }
}

/// The profiles that are meant among what was loaded from the files of the
/// profile directory. A file that could not be loaded is passed over, unless
/// `strict`: then the first such file fails the whole with its report.
pub fn select_profiles(
    loaded: Vec<Result<ProfileConfig, String>>,
    strict: bool,
    name: Option<&str>,
    uuid: Option<&str>,
) -> (r: Result<Vec<ProfileConfig>, String>)
    ensures
        match r {
            Ok(profiles) => (strict ==> first_failure(loaded_views(loaded@)) is None)
                && profile_views(profiles@) == meant_profiles(
                loaded_views(loaded@),
                text_view(name),
                meant_id(text_view(uuid)),
            ),
            Err(report) => strict && first_failure(loaded_views(loaded@)) == Some(report@),
        },
{
    let id = match uuid {
        Some(text) => ProfileId::parse_str(text),
        None => None,
    };
    let ghost all = loaded_views(loaded@);
    let ghost wanted_name = text_view(name);
    let ghost wanted_id = meant_id(text_view(uuid));
    let mut queue = loaded;
    let mut out: Vec<ProfileConfig> = Vec::new();
    let mut i: usize = 0;
    let total = queue.len();
    assert(all.subrange(0, 0) =~= Seq::empty());
    assert(profile_views(out@) =~= Seq::empty());
    while queue.len() > 0
        invariant
            i + queue.len() == total == all.len(),
            all == loaded_views(loaded@),
            loaded_views(queue@) == all.subrange(i as int, total as int),
            profile_views(out@) == meant_profiles(all.subrange(0, i as int), wanted_name, wanted_id),
            strict ==> first_failure(all.subrange(0, i as int)) is None,
            id_view(id) == wanted_id,
            text_view(name) == wanted_name,
        decreases queue.len(),
    {
        let ghost rest = queue@;
        let ghost kept = out@;
        let first = queue.remove(0);
        proof {
            assert(loaded_views(rest)[0] == all[i as int]);
            assert(loaded_views(queue@) =~= all.subrange(i + 1, total as int)) by {
                assert forall|k: int| 0 <= k < queue@.len() implies loaded_views(queue@)[k]
                    == all.subrange(i + 1, total as int)[k] by {
                    assert(queue@[k] == rest[k + 1]);
                    assert(loaded_views(rest)[k + 1] == all[i + 1 + k]);
                }
            }
            assert(all.subrange(0, i + 1).drop_last() =~= all.subrange(0, i as int));
            assert(all.subrange(0, i + 1).last() == all[i as int]);
        }
        match first {
            Ok(profile) => {
                if matches_parsed(&profile, name, id) {
                    out.push(profile);
                    assert(profile_views(out@) =~= profile_views(kept).push(profile@));
                }
            },
            Err(report) => {
                if strict {
                    proof {
                        lemma_first_failure_found(all, i as int);
                    }
                    return Err(report);
                }
            },
        }
        i += 1;
    }
    assert(all.subrange(0, total as int) =~= all);
    Ok(out)
}

/// The report at `at` is the first failure of `loaded` if nothing before it
/// failed.
proof fn lemma_first_failure_found(loaded: Seq<Result<ProfileView, Seq<char>>>, at: int)
    requires
        0 <= at < loaded.len(),
        loaded[at] is Err,
        first_failure(loaded.subrange(0, at)) is None,
    ensures
        first_failure(loaded) == Some(loaded[at]->Err_0),
    decreases loaded.len(),
{
    if at == loaded.len() - 1 {
        assert(loaded.drop_last() =~= loaded.subrange(0, at));
    } else {
        assert(loaded.drop_last().subrange(0, at) =~= loaded.subrange(0, at));
        lemma_first_failure_found(loaded.drop_last(), at);
    }
}

} // verus!
