//! The patch note resources of the MCP server.
use vstd::prelude::*;

use crate::auth::scope::grants;
use crate::encoding::{parse_uuid, uuid_parse};
use crate::models::{ApiKey, ApiKeyScope};
use crate::text::{strip_prefix, strip_text_prefix};

verus! {

/// The start of a patch note resource's URI.
pub open spec fn uri_prefix() -> Seq<char> {
    "graph://patch-notes/"@
}

/// The patch note a URI names: the prefix, then a UUID.
pub open spec fn patch_note_of_uri(uri: Seq<char>) -> Option<u128> {
    match strip_prefix(uri, uri_prefix()) {
        Some(rest) => uuid_parse(rest),
        None => None,
    }
}

/// The patch note a resource URI names, if it names one.
pub fn parse_uri(uri: &str) -> (res: Option<u128>)
    ensures
        res == patch_note_of_uri(uri@),
{
    match strip_text_prefix(uri, "graph://patch-notes/") {
        Some(rest) => parse_uuid(rest),
        None => None,
    }
}

/// Whether a key may read a patch note resource, or the message refusing
/// it.
pub fn check_resource_scope(api_key: &ApiKey) -> (res: Result<(), String>)
    ensures
        grants(api_key.granted(), ApiKeyScope::PatchNotesColonRead) ==> res is Ok,
        !grants(api_key.granted(), ApiKeyScope::PatchNotesColonRead) ==> (res matches Err(m) && m@
            == "missing required scope: patch-notes:read"@),
{
    if api_key.has_scope(&ApiKeyScope::PatchNotesColonRead) {
        Ok(())
    } else {
        Err("missing required scope: patch-notes:read".to_owned())
    }
}

} // verus!
