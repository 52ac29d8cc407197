//! The identifier of a profile: 128 bits, written as a UUID.

use vstd::prelude::*;
use uuid::Uuid;

verus! {

/// The hyphenated text of the UUID with the given bits, as `uuid` writes it.
pub uninterp spec fn uuid_text(value: u128) -> Seq<char>;

/// The bits of the UUID that `uuid` reads from `text`, if it reads one.
pub uninterp spec fn uuid_parse(text: Seq<char>) -> Option<u128>;

/// `uuid`'s `Uuid::as_hyphenated`, written out by `to_string`, for the UUID
/// that `Uuid::from_u128` makes of `value`. The contract only names the text.
#[verifier::external_body]
fn uuid_hyphenated(value: u128) -> (r: String)
    ensures
        r@ == uuid_text(value),
{
    Uuid::from_u128(value).as_hyphenated().to_string()
}

/// `uuid`'s `Uuid::parse_str`, with `Uuid::as_u128` on what it reads. The
/// contract only names the result.
#[verifier::external_body]
fn uuid_parse_str(text: &str) -> (r: Option<u128>)
    ensures
        r == uuid_parse(text@),
{
    match Uuid::parse_str(text) {
        Ok(id) => Some(id.as_u128()),
        Err(_) => None,
    }
}

/// The identifier of a profile.
#[derive(Debug, Clone, Copy, PartialEq, Eq, Hash, Structural)]
pub struct ProfileId {
    value: u128,
}

impl View for ProfileId {
    type V = u128;

    closed spec fn view(&self) -> u128 {
        self.value
    }
}

/// The bits of an optional identifier.
pub open spec fn id_view(id: Option<ProfileId>) -> Option<u128> {
    match id {
        Some(id) => Some(id@),
        None => None,
    }
}

impl ProfileId {
    /// The identifier with the given bits.
    pub fn from_u128(value: u128) -> (r: ProfileId)
        ensures
            r@ == value,
    {
        ProfileId { value }
    }

    /// The bits of the identifier.
    pub fn as_u128(&self) -> (r: u128)
        ensures
            r == self@,
    {
        self.value
    }

    /// The identifier that `text` writes, if it writes one.
    pub fn parse_str(text: &str) -> (r: Option<ProfileId>)
        ensures
            match uuid_parse(text@) {
                Some(value) => r matches Some(id) && id@ == value,
                None => r is None,
            },
    {
        match uuid_parse_str(text) {
            Some(value) => Some(ProfileId { value }),
            None => None,
        }
    }

    /// The identifier as hyphenated text.
    pub fn hyphenated(&self) -> (r: String)
        ensures
            r@ == uuid_text(self@),
    {
        uuid_hyphenated(self.value)
    }

    /// Whether two identifiers are the same.
    pub fn same_as(&self, other: &ProfileId) -> (r: bool)
        ensures
            r == (self@ == other@),
    {
        self.value == other.value
    }
}

} // verus!
