//! The punishment resources of the MCP server.
use vstd::prelude::*;

use crate::auth::scope::grants;
use crate::models::{ApiKey, ApiKeyScope};
use crate::text::{parse_u64, parsed_u64, strip_prefix, strip_text_prefix};

verus! {

/// The start of a punishment resource's URI.
pub open spec fn uri_prefix() -> Seq<char> {
    "graph://punishments/"@
}

/// The punishment a URI names: the prefix, then its identifier as
/// `str::parse::<u64>` reads it.
pub open spec fn punishment_of_uri(uri: Seq<char>) -> Option<u64> {
    match strip_prefix(uri, uri_prefix()) {
        Some(rest) => parsed_u64(rest),
        None => None,
    }
}

/// The punishment a resource URI names, if it names one.
pub fn parse_uri(uri: &str) -> (res: Option<u64>)
    ensures
        res == punishment_of_uri(uri@),
{
    match strip_text_prefix(uri, "graph://punishments/") {
        Some(rest) => parse_u64(rest),
        None => None,
    }
}

/// Whether a key may read a punishment resource, or the message refusing
/// it.
pub fn check_resource_scope(api_key: &ApiKey) -> (res: Result<(), String>)
    ensures
        grants(api_key.granted(), ApiKeyScope::PunishmentsColonRead) ==> res is Ok,
        !grants(api_key.granted(), ApiKeyScope::PunishmentsColonRead) ==> (res matches Err(m) && m@
            == "missing required scope: punishments:read"@),
{
    if api_key.has_scope(&ApiKeyScope::PunishmentsColonRead) {
        Ok(())
    } else {
        Err("missing required scope: punishments:read".to_owned())
    }
}

} // verus!
