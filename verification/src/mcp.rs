//! The MCP server's rules: the URIs of its resources, the tools and prompts
//! it offers and the scopes each needs, and the summaries its tools answer
//! with.
use vstd::prelude::*;

use crate::auth::scope::{grants, grants_any};
use crate::encoding::{
    chrono_accepts_millis, format_uuid, millis_in_range, parse_uuid, uuid_hyphenated, uuid_parse,
};
use crate::mojang::{MojangProfile, MojangProfileResolverError};
use crate::models::{ApiKey, ApiKeyScope};
use crate::players::player_read_scopes;
use crate::text::{format_signed, lemma_parse_decimal, lemma_strip_prefix, signed_decimal, text_eq};

pub mod players;
pub mod punishments;
pub mod patch_notes;

verus! {

/// A link to a resource of the MCP server.
pub struct ResourceLink {
    pub uri: String,
}

/// The URI of a player resource.
pub open spec fn player_uri(id: u128) -> Seq<char> {
    "graph://players/"@ + uuid_hyphenated(id)
}

/// The URI of a punishment resource.
pub open spec fn punishment_uri(id: int) -> Seq<char> {
    "graph://punishments/"@ + signed_decimal(id)
}

/// The URI of a patch note resource.
pub open spec fn patch_note_uri(id: u128) -> Seq<char> {
    "graph://patch-notes/"@ + uuid_hyphenated(id)
}

impl ResourceLink {
    /// The link to a player.
    pub fn player(id: u128) -> (res: Self)
        ensures
            res.uri@ == player_uri(id),
            players::player_of_uri(res.uri@) == Some(id),
    {
        let mut uri = String::new();
        uri.append("graph://players/");
        let text = format_uuid(id);
        uri.append(text.as_str());
        proof {
            lemma_strip_prefix(players::uri_prefix(), text@);
        }
        ResourceLink { uri }
    }

    /// The link to a punishment.
    pub fn punishment(id: i64) -> (res: Self)
        ensures
            res.uri@ == punishment_uri(id as int),
            id >= 0 ==> punishments::punishment_of_uri(res.uri@) == Some(id as u64),
    {
        let mut uri = String::new();
        uri.append("graph://punishments/");
        let text = format_signed(id);
        uri.append(text.as_str());
        proof {
            lemma_strip_prefix(punishments::uri_prefix(), text@);
            if id >= 0 {
                lemma_parse_decimal(id as u64);
            }
        }
        ResourceLink { uri }
    }

    /// The link to a patch note.
    pub fn patch_note(id: u128) -> (res: Self)
        ensures
            res.uri@ == patch_note_uri(id),
            patch_notes::patch_note_of_uri(res.uri@) == Some(id),
    {
        let mut uri = String::new();
        uri.append("graph://patch-notes/");
        let text = format_uuid(id);
        uri.append(text.as_str());
        proof {
            lemma_strip_prefix(patch_notes::uri_prefix(), text@);
        }
        ResourceLink { uri }
    }
}

/// A tool of the MCP server.
#[derive(Clone, Copy, Debug, PartialEq, Eq, Structural)]
pub enum McpTool {
    GetPlayerOverview,
    GetPlayerRelationships,
    GetPopulationTrend,
    GetNetworkStatus,
    SearchPunishments,
    SearchPatchNotes,
}

/// The name a tool is called by.
pub open spec fn tool_name(tool: McpTool) -> Seq<char> {
    match tool {
        McpTool::GetPlayerOverview => "get_player_overview"@,
        McpTool::GetPlayerRelationships => "get_player_relationships"@,
        McpTool::GetPopulationTrend => "get_population_trend"@,
        McpTool::GetNetworkStatus => "get_network_status"@,
        McpTool::SearchPunishments => "search_punishments"@,
        McpTool::SearchPatchNotes => "search_patch_notes"@,
    }
}

/// The message of a call of a tool the server does not have.
pub open spec fn tool_not_found_message(name: Seq<char>) -> Seq<char> {
    "Tool not found: "@ + name
}

/// The tool a call names, or the message refusing it.
pub fn route_tool(name: &str) -> (res: Result<McpTool, String>)
    ensures
        match res {
            Ok(tool) => tool_name(tool) == name@,
            Err(m) => m@ == tool_not_found_message(name@) && forall|t: McpTool|
                tool_name(t) != name@,
        },
{
    if text_eq(name, "get_player_overview") {
        Ok(McpTool::GetPlayerOverview)
    } else if text_eq(name, "get_player_relationships") {
        Ok(McpTool::GetPlayerRelationships)
    } else if text_eq(name, "get_population_trend") {
        Ok(McpTool::GetPopulationTrend)
    } else if text_eq(name, "get_network_status") {
        Ok(McpTool::GetNetworkStatus)
    } else if text_eq(name, "search_punishments") {
        Ok(McpTool::SearchPunishments)
    } else if text_eq(name, "search_patch_notes") {
        Ok(McpTool::SearchPatchNotes)
    } else {
        let mut message = String::new();
        message.append("Tool not found: ");
        message.append(name);
        proof {
            assert forall|t: McpTool| tool_name(t) != name@ by {
                match t {
                    McpTool::GetPlayerOverview => {},
                    McpTool::GetPlayerRelationships => {},
                    McpTool::GetPopulationTrend => {},
                    McpTool::GetNetworkStatus => {},
                    McpTool::SearchPunishments => {},
                    McpTool::SearchPatchNotes => {},
                }
            }
        }
        Err(message)
    }
}

/// Whether a key may call a tool: the player tools need a player read
/// scope, the network tools `crawls:read`, the punishment search
/// `punishments:read`, the patch note search `patch-notes:read`.
pub open spec fn may_call(key: ApiKey, tool: McpTool) -> bool {
    match tool {
        McpTool::GetPlayerOverview | McpTool::GetPlayerRelationships => grants_any(
            key.granted(),
            player_read_scopes(),
        ),
        McpTool::GetPopulationTrend | McpTool::GetNetworkStatus => grants(
            key.granted(),
            ApiKeyScope::CrawlsColonRead,
        ),
        McpTool::SearchPunishments => grants(key.granted(), ApiKeyScope::PunishmentsColonRead),
        McpTool::SearchPatchNotes => grants(key.granted(), ApiKeyScope::PatchNotesColonRead),
    }
}

/// The message refusing a tool call to a key without its scope.
pub open spec fn missing_scope_message(tool: McpTool) -> Seq<char> {
    match tool {
        McpTool::GetPlayerOverview | McpTool::GetPlayerRelationships => "missing required scope: players:read"@,
        McpTool::GetPopulationTrend | McpTool::GetNetworkStatus => "missing required scope: crawls:read"@,
        McpTool::SearchPunishments => "missing required scope: punishments:read"@,
        McpTool::SearchPatchNotes => "missing required scope: patch-notes:read"@,
    }
}

/// Whether a key may call a tool, or the message refusing it.
pub fn check_tool_scope(api_key: &ApiKey, tool: McpTool) -> (res: Result<(), String>)
    ensures
        may_call(*api_key, tool) ==> res is Ok,
        !may_call(*api_key, tool) ==> (res matches Err(m) && m@ == missing_scope_message(tool)),
{
    match tool {
        McpTool::GetPlayerOverview | McpTool::GetPlayerRelationships => {
            if crate::players::can_read_players(api_key) {
                Ok(())
            } else {
                Err("missing required scope: players:read".to_owned())
            }
        },
        McpTool::GetPopulationTrend | McpTool::GetNetworkStatus => {
            if api_key.has_scope(&ApiKeyScope::CrawlsColonRead) {
                Ok(())
            } else {
                Err("missing required scope: crawls:read".to_owned())
            }
        },
        McpTool::SearchPunishments => {
            if api_key.has_scope(&ApiKeyScope::PunishmentsColonRead) {
                Ok(())
            } else {
                Err("missing required scope: punishments:read".to_owned())
            }
        },
        McpTool::SearchPatchNotes => {
            if api_key.has_scope(&ApiKeyScope::PatchNotesColonRead) {
                Ok(())
            } else {
                Err("missing required scope: patch-notes:read".to_owned())
            }
        },
    }
}

/// The number of results a search returns: the limit named (20 where none
/// is), at most 100.
pub open spec fn search_limit_of(limit: Option<u8>) -> u8 {
    let l = match limit {
        Some(l) => l,
        None => 20u8,
    };
    if l > 100 {
        100u8
    } else {
        l
    }
}

/// The number of results a search returns.
pub fn search_limit(limit: Option<u8>) -> (res: u8)
    ensures
        res == search_limit_of(limit),
{
    let l = match limit {
        Some(l) => l,
        None => 20,
    };
    if l > 100 {
        100
    } else {
        l
    }
}

/// The seconds a population trend covers, for the ranges it accepts.
pub open spec fn range_seconds(range: Seq<char>) -> Option<i64> {
    if range == "24h"@ {
        Some(86_400)
    } else if range == "7d"@ {
        Some(604_800)
    } else if range == "30d"@ {
        Some(2_592_000)
    } else {
        None
    }
}

/// The seconds of a population trend's buckets, for the intervals it
/// accepts.
pub open spec fn interval_seconds(interval: Seq<char>) -> Option<i64> {
    if interval == "1h"@ {
        Some(3600)
    } else if interval == "6h"@ {
        Some(21_600)
    } else if interval == "12h"@ {
        Some(43_200)
    } else if interval == "1d"@ {
        Some(86_400)
    } else {
        None
    }
}

/// The seconds a population trend covers, or the message refusing the
/// range.
pub fn trend_range(range: &str) -> (res: Result<i64, String>)
    ensures
        match range_seconds(range@) {
            Some(s) => res == Ok::<i64, String>(s),
            None => res matches Err(m) && m@ == "invalid range: must be 24h, 7d, or 30d"@,
        },
{
    if text_eq(range, "24h") {
        Ok(86_400)
    } else if text_eq(range, "7d") {
        Ok(604_800)
    } else if text_eq(range, "30d") {
        Ok(2_592_000)
    } else {
        Err("invalid range: must be 24h, 7d, or 30d".to_owned())
    }
}

/// The seconds of a population trend's buckets, or the message refusing
/// the interval.
pub fn trend_interval(interval: &str) -> (res: Result<i64, String>)
    ensures
        match interval_seconds(interval@) {
            Some(s) => res == Ok::<i64, String>(s),
            None => res matches Err(m) && m@ == "invalid interval: must be 1h, 6h, 12h, or 1d"@,
        },
{
    if text_eq(interval, "1h") {
        Ok(3600)
    } else if text_eq(interval, "6h") {
        Ok(21_600)
    } else if text_eq(interval, "12h") {
        Ok(43_200)
    } else if text_eq(interval, "1d") {
        Ok(86_400)
    } else {
        Err("invalid interval: must be 1h, 6h, 12h, or 1d".to_owned())
    }
}

/// The instant a population trend starts: `seconds` before `now` (both in
/// nanoseconds since the epoch).
pub fn trend_start(now: i128, seconds: i64) -> (res: i128)
    requires
        seconds >= 0,
        now - seconds * 1_000_000_000 >= i128::MIN,
    ensures
        res == now - seconds * 1_000_000_000,
{
    now - (seconds as i128) * 1_000_000_000
}

/// The `LIKE` pattern a patch note search matches its text with.
pub open spec fn like_pattern_of(query: Seq<char>) -> Seq<char> {
    "%"@ + query + "%"@
}

/// The `LIKE` pattern a patch note search matches its text with.
pub fn like_pattern(query: &str) -> (res: String)
    ensures
        res@ == like_pattern_of(query@),
{
    let mut pattern = String::new();
    pattern.append("%");
    pattern.append(query);
    pattern.append("%");
    pattern
}

/// A punishment as the search tool summarises it.
pub struct PunishmentSummary {
    pub id: u64,
    pub r_type: String,
    pub reason: String,
    pub server: String,
    pub created_at: i128,
    pub active: bool,
    pub resource_link: ResourceLink,
}

/// The instant a punishment summary shows: the row's start, or `now` where
/// chrono cannot hold it.
pub open spec fn summary_instant(start: i64, now: i128) -> i128 {
    if chrono_accepts_millis(start) {
        (start * 1_000_000) as i128
    } else {
        now
    }
}

/// The summary of a punishment row: its identifier as unsigned (wrapping,
/// as the cast does), its stored kind, reason and server, its start, whether
/// it is active, and the link to it.
pub fn punishment_summary(record: crate::records::PunishmentRecord, now: i128) -> (res: PunishmentSummary)
    ensures
        res.id == record.id as u64,
        res.r_type == record.r_type,
        res.reason == record.reason,
        res.server == record.server,
        res.created_at == summary_instant(record.start, now),
        res.active == record.active,
        res.resource_link.uri@ == punishment_uri(record.id as int),
{
    let created_at = if millis_in_range(record.start) {
        (record.start as i128) * 1_000_000
    } else {
        now
    };
    PunishmentSummary {
        id: record.id as u64,
        r_type: record.r_type,
        reason: record.reason,
        server: record.server,
        created_at,
        active: record.active,
        resource_link: ResourceLink::punishment(record.id),
    }
}

/// A player as the overview tool describes it.
pub struct PlayerOverview {
    pub id: u128,
    pub username: String,
    pub discord_id: Option<String>,
    pub status: String,
    pub bio: Option<String>,
    pub first_login_at: Option<i128>,
    pub last_seen_at: Option<i128>,
    pub current_server: Option<String>,
    pub punishment_count: u64,
    pub active_punishment_count: u64,
    pub friend_count: u64,
    pub resource_link: ResourceLink,
}

/// The overview of a player from its record, its username, its punishment
/// counts (all, active) and its number of friends; the Discord ID only for
/// a key that may read details. Counts are cast as the database returns
/// them.
pub fn player_overview(
    record: crate::records::PlayerRecord,
    username: String,
    with_details: bool,
    punishment_counts: (i64, i64),
    friend_count: i64,
) -> (res: PlayerOverview)
    ensures
        res.id == record.id,
        res.username == username,
        res.discord_id == (if with_details {
            record.discord_id
        } else {
            None
        }),
        res.status == record.status,
        res.bio == record.bio,
        res.first_login_at == record.first_login_at,
        res.last_seen_at == record.last_seen_at,
        res.current_server == record.current_server,
        res.punishment_count == punishment_counts.0 as u64,
        res.active_punishment_count == punishment_counts.1 as u64,
        res.friend_count == friend_count as u64,
        res.resource_link.uri@ == player_uri(record.id),
{
    let id = record.id;
    PlayerOverview {
        id,
        username,
        discord_id: if with_details {
            record.discord_id
        } else {
            None
        },
        status: record.status,
        bio: record.bio,
        first_login_at: record.first_login_at,
        last_seen_at: record.last_seen_at,
        current_server: record.current_server,
        punishment_count: punishment_counts.0 as u64,
        active_punishment_count: punishment_counts.1 as u64,
        friend_count: friend_count as u64,
        resource_link: ResourceLink::player(id),
    }
}

/// A friend as the relationships tool lists it.
pub struct FriendSummary {
    pub id: u128,
    pub username: String,
    pub status: String,
}

/// A friend's summary; a friend whose profile could not be read is listed
/// as `Unknown`.
pub fn friend_summary(id: u128, username: Option<String>, status: String) -> (res: FriendSummary)
    ensures
        res.id == id,
        res.status == status,
        match username {
            Some(u) => res.username == u,
            None => res.username@ == "Unknown"@,
        },
{
    let username = match username {
        Some(u) => u,
        None => "Unknown".to_owned(),
    };
    FriendSummary { id, username, status }
}

/// A player's friends and the number of friend requests it has received.
pub struct PlayerRelationships {
    pub friend_count: u64,
    pub friends: Vec<FriendSummary>,
    pub incoming_requests_count: u64,
}

/// A player's relationships: the friend count is the number of friends
/// listed.
pub fn player_relationships(friends: Vec<FriendSummary>, incoming_requests: i64) -> (res: PlayerRelationships)
    ensures
        res.friend_count == friends@.len(),
        res.friends == friends,
        res.incoming_requests_count == incoming_requests as u64,
{
    PlayerRelationships {
        friend_count: friends.len() as u64,
        friends,
        incoming_requests_count: incoming_requests as u64,
    }
}

/// The message of a player the tools cannot find.
pub open spec fn player_not_found_message(identifier: Seq<char>) -> Seq<char> {
    "player not found: "@ + identifier
}

/// The message of a player the tools cannot find.
pub fn player_not_found(identifier: &str) -> (res: String)
    ensures
        res@ == player_not_found_message(identifier@),
{
    let mut message = String::new();
    message.append("player not found: ");
    message.append(identifier);
    message
}

/// The UUID a player identifier spells, if it spells one; any other
/// identifier is a username that has to be looked up.
pub fn player_id_of(identifier: &str) -> (res: Option<u128>)
    ensures
        res == uuid_parse(identifier@),
{
    parse_uuid(identifier)
}

/// Why a player identifier could not be resolved.
#[derive(Clone, Debug, PartialEq, Eq)]
pub enum PlayerResolutionError {
    /// The profile lookup failed; the tool answers with an internal error.
    LookupFailed,
    /// No player has the username; the message names it.
    NotFound(String),
}

/// The player a username lookup resolved to: the profile's UUID, or which
/// error the tool answers with.
pub fn resolve_username(
    identifier: &str,
    lookup: Result<Option<MojangProfile>, MojangProfileResolverError>,
) -> (res: Result<u128, PlayerResolutionError>)
    ensures
        match lookup {
            Ok(Some(profile)) => res == Ok::<u128, PlayerResolutionError>(profile.id),
            Ok(None) => res matches Err(PlayerResolutionError::NotFound(m)) && m@
                == player_not_found_message(identifier@),
            Err(_) => res == Err::<u128, PlayerResolutionError>(PlayerResolutionError::LookupFailed),
        },
{
    match lookup {
        Ok(Some(profile)) => Ok(profile.id),
        Ok(None) => Err(PlayerResolutionError::NotFound(player_not_found(identifier))),
        Err(_) => Err(PlayerResolutionError::LookupFailed),
    }
}

/// A prompt of the MCP server.
#[derive(Clone, Copy, Debug, PartialEq, Eq, Structural)]
pub enum McpPrompt {
    AnalyzePlayer,
    NetworkHealthReport,
}

/// The prompt a request names, if any.
pub fn route_prompt(name: &str) -> (res: Option<McpPrompt>)
    ensures
        res == (if name@ == "analyze_player"@ {
            Some(McpPrompt::AnalyzePlayer)
        } else if name@ == "network_health_report"@ {
            Some(McpPrompt::NetworkHealthReport)
        } else {
            None
        }),
{
    if text_eq(name, "analyze_player") {
        Some(McpPrompt::AnalyzePlayer)
    } else if text_eq(name, "network_health_report") {
        Some(McpPrompt::NetworkHealthReport)
    } else {
        None
    }
}

/// The text of the player analysis prompt, around the player argument as
/// written.
pub open spec fn analyze_player_text(player: Seq<char>) -> Seq<char> {
    "Please analyze the player '"@ + player
        + "'. Use get_player_overview first, then search_punishments and get_player_relationships to assess their history and activity."@
}

/// The text of the player analysis prompt.
pub fn analyze_player_prompt(player: &str) -> (res: String)
    ensures
        res@ == analyze_player_text(player@),
{
    let mut text = String::new();
    text.append("Please analyze the player '");
    text.append(player);
    text.append(
        "'. Use get_player_overview first, then search_punishments and get_player_relationships to assess their history and activity.",
    );
    text
}

} // verus!
