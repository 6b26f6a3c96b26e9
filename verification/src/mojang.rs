//! Player profiles from PlayerDB: where a profile is asked for, and which
//! answers are accepted as the profile asked for.
use vstd::prelude::*;

use crate::encoding::{format_uuid, uuid_hyphenated};
use crate::text::{eq_ignore_ascii_case, str_eq_ignore_ascii_case};

verus! {

/// A player's profile: its UUID and username.
#[derive(Debug)]
pub struct MojangProfile {
    pub id: u128,
    pub username: String,
}

/// Why a profile lookup failed: the request itself (with the error's
/// text), or an answer that is not the profile asked for.
#[derive(Debug)]
pub enum MojangProfileResolverError {
    Request(String),
    UnexpectedResponse,
}

/// The message an error displays.
pub open spec fn resolver_error_message(e: MojangProfileResolverError) -> Seq<char> {
    match e {
        MojangProfileResolverError::Request(error) => "Mojang profile request failed: "@ + error@,
        MojangProfileResolverError::UnexpectedResponse => "Mojang profile resolver returned an unexpected response"@,
    }
}

impl MojangProfileResolverError {
    /// The message the error displays.
    pub fn message(&self) -> (res: String)
        ensures
            res@ == resolver_error_message(*self),
    {
        match self {
            MojangProfileResolverError::Request(error) => {
                let mut message = String::new();
                message.append("Mojang profile request failed: ");
                message.append(error.as_str());
                message
            },
            MojangProfileResolverError::UnexpectedResponse => {
                "Mojang profile resolver returned an unexpected response".to_owned()
            },
        }
    }
}

/// The PlayerDB URL a profile is asked for at.
pub open spec fn profile_url_of(identifier: Seq<char>) -> Seq<char> {
    "https://playerdb.co/api/player/minecraft/"@ + identifier
}

/// The PlayerDB URL of a profile by username.
pub fn profile_url(identifier: &str) -> (res: String)
    ensures
        res@ == profile_url_of(identifier@),
{
    let mut url = String::new();
    url.append("https://playerdb.co/api/player/minecraft/");
    url.append(identifier);
    url
}

/// The PlayerDB URL of a profile by UUID (its hyphenated text).
pub fn profile_url_for_uuid(id: u128) -> (res: String)
    ensures
        res@ == profile_url_of(uuid_hyphenated(id)),
{
    let text = format_uuid(id);
    profile_url(text.as_str())
}

/// The profile a lookup by UUID answers: the profile found must have that
/// UUID.
pub fn check_profile_by_uuid(id: u128, found: Option<MojangProfile>) -> (res: Result<
    Option<MojangProfile>,
    MojangProfileResolverError,
>)
    ensures
        match found {
            None => res matches Ok(None),
            Some(p) => if p.id == id {
                res == Ok::<Option<MojangProfile>, MojangProfileResolverError>(Some(p))
            } else {
                res matches Err(MojangProfileResolverError::UnexpectedResponse)
            },
        },
{
    match found {
        None => Ok(None),
        Some(p) => {
            if p.id == id {
                Ok(Some(p))
            } else {
                Err(MojangProfileResolverError::UnexpectedResponse)
            }
        },
    }
}

/// The profile a lookup by username answers: the profile found must have
/// that username, up to ASCII case.
pub fn check_profile_by_username(username: &str, found: Option<MojangProfile>) -> (res: Result<
    Option<MojangProfile>,
    MojangProfileResolverError,
>)
    ensures
        match found {
            None => res matches Ok(None),
            Some(p) => if eq_ignore_ascii_case(p.username@, username@) {
                res == Ok::<Option<MojangProfile>, MojangProfileResolverError>(Some(p))
            } else {
                res matches Err(MojangProfileResolverError::UnexpectedResponse)
            },
        },
{
    match found {
        None => Ok(None),
        Some(p) => {
            if str_eq_ignore_ascii_case(p.username.as_str(), username) {
                Ok(Some(p))
            } else {
                Err(MojangProfileResolverError::UnexpectedResponse)
            }
        },
    }
}

} // verus!
