//! The player resources of the MCP server.
use vstd::prelude::*;

use crate::auth::scope::grants_any;
use crate::encoding::{parse_uuid, uuid_parse};
use crate::models::ApiKey;
use crate::players::{can_read_players, player_read_scopes};
use crate::text::{strip_prefix, strip_text_prefix};

verus! {

/// The start of a player resource's URI.
pub open spec fn uri_prefix() -> Seq<char> {
    "graph://players/"@
}

/// The player a URI names: the prefix, then a UUID.
pub open spec fn player_of_uri(uri: Seq<char>) -> Option<u128> {
    match strip_prefix(uri, uri_prefix()) {
        Some(rest) => uuid_parse(rest),
        None => None,
    }
}

/// The player a resource URI names, if it names one.
pub fn parse_uri(uri: &str) -> (res: Option<u128>)
    ensures
        res == player_of_uri(uri@),
{
    match strip_text_prefix(uri, "graph://players/") {
        Some(rest) => parse_uuid(rest),
        None => None,
    }
}

/// Whether a key may read a player resource, or the message refusing it.
pub fn check_resource_scope(api_key: &ApiKey) -> (res: Result<(), String>)
    ensures
        grants_any(api_key.granted(), player_read_scopes()) ==> res is Ok,
        !grants_any(api_key.granted(), player_read_scopes()) ==> (res matches Err(m) && m@
            == "missing required scope: players:read or players:read-etails"@),
{
    if can_read_players(api_key) {
        Ok(())
    } else {
        Err("missing required scope: players:read or players:read-etails".to_owned())
    }
}

} // verus!
