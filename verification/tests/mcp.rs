use graph_server::mcp::{
    analyze_player_prompt, check_tool_scope, friend_summary, like_pattern, player_relationships,
    route_prompt, route_tool, search_limit, trend_interval, trend_range, McpPrompt, McpTool,
    ResourceLink,
};
use graph_server::mcp::{patch_notes, players, punishments};
use graph_server::mcp::{player_id_of, resolve_username, PlayerResolutionError};
use graph_server::mojang::{MojangProfile, MojangProfileResolverError};
use graph_server::models::{ApiKey, ApiKeyScope};

fn api_key(scopes: &[ApiKeyScope]) -> ApiKey {
    ApiKey::new(
        "Test API key".to_string(),
        "test-public-id".to_string(),
        None,
        scopes.iter().map(|scope| scope.to_text()).collect(),
        0,
        None,
    )
}

#[test]
fn parses_valid_patch_note_uri() {
    let uuid = uuid::Uuid::new_v4();
    let uri = format!("graph://patch-notes/{}", uuid);
    assert_eq!(patch_notes::parse_uri(&uri), Some(uuid.as_u128()));
}

#[test]
fn rejects_invalid_patch_note_uri() {
    assert_eq!(patch_notes::parse_uri("graph://patch-notes/invalid"), None);
    assert_eq!(patch_notes::parse_uri("graph://other/uuid"), None);
}

#[test]
fn parses_valid_punishment_uri() {
    assert_eq!(punishments::parse_uri("graph://punishments/123"), Some(123));
}

#[test]
fn rejects_invalid_punishment_uri() {
    assert_eq!(punishments::parse_uri("graph://punishments/abc"), None);
    assert_eq!(punishments::parse_uri("graph://other/123"), None);
}

#[test]
fn punishment_uris_read_identifiers_as_u64() {
    assert_eq!(punishments::parse_uri("graph://punishments/+7"), Some(7));
    assert_eq!(punishments::parse_uri("graph://punishments/007"), Some(7));
    assert_eq!(
        punishments::parse_uri("graph://punishments/18446744073709551615"),
        Some(u64::MAX)
    );
    assert_eq!(punishments::parse_uri("graph://punishments/18446744073709551616"), None);
    assert_eq!(punishments::parse_uri("graph://punishments/-1"), None);
    assert_eq!(punishments::parse_uri("graph://punishments/+"), None);
    assert_eq!(punishments::parse_uri("graph://punishments/"), None);
    assert_eq!(punishments::parse_uri("graph://punishments/1 "), None);
}

#[test]
fn player_uris_carry_a_uuid() {
    let id = 0x550e8400_e29b_41d4_a716_446655440000u128;
    assert_eq!(
        players::parse_uri("graph://players/550e8400-e29b-41d4-a716-446655440000"),
        Some(id)
    );
    assert_eq!(players::parse_uri("graph://players/not-a-uuid"), None);
    assert_eq!(
        ResourceLink::player(id).uri,
        "graph://players/550e8400-e29b-41d4-a716-446655440000"
    );
    assert_eq!(
        players::parse_uri(&ResourceLink::player(id).uri),
        Some(id)
    );
}

#[test]
fn resource_links_name_their_resources() {
    assert_eq!(ResourceLink::punishment(42).uri, "graph://punishments/42");
    assert_eq!(ResourceLink::punishment(-5).uri, "graph://punishments/-5");
    assert_eq!(
        ResourceLink::punishment(i64::MIN).uri,
        "graph://punishments/-9223372036854775808"
    );
    assert_eq!(ResourceLink::patch_note(1).uri, "graph://patch-notes/00000000-0000-0000-0000-000000000001");
    assert_eq!(punishments::parse_uri(&ResourceLink::punishment(42).uri), Some(42));
}

#[test]
fn tools_are_routed_by_name() {
    assert_eq!(route_tool("get_player_overview"), Ok(McpTool::GetPlayerOverview));
    assert_eq!(route_tool("search_patch_notes"), Ok(McpTool::SearchPatchNotes));
    assert_eq!(route_tool("nope"), Err("Tool not found: nope".to_string()));
}

#[test]
fn tools_need_their_scopes() {
    let reader = api_key(&[ApiKeyScope::PlayersColonReadDetails]);
    assert!(check_tool_scope(&reader, McpTool::GetPlayerOverview).is_ok());
    assert_eq!(
        check_tool_scope(&reader, McpTool::GetNetworkStatus),
        Err("missing required scope: crawls:read".to_string())
    );
    assert_eq!(
        check_tool_scope(&api_key(&[]), McpTool::SearchPunishments),
        Err("missing required scope: punishments:read".to_string())
    );
    assert!(check_tool_scope(&api_key(&[ApiKeyScope::Star]), McpTool::SearchPatchNotes).is_ok());
    assert_eq!(
        players::check_resource_scope(&api_key(&[])),
        Err("missing required scope: players:read or players:read-etails".to_string())
    );
}

#[test]
fn population_trends_accept_known_ranges_and_intervals() {
    assert_eq!(trend_range("24h"), Ok(86_400));
    assert_eq!(trend_range("7d"), Ok(604_800));
    assert_eq!(trend_range("30d"), Ok(2_592_000));
    assert_eq!(trend_range("1y"), Err("invalid range: must be 24h, 7d, or 30d".to_string()));
    assert_eq!(trend_interval("1h"), Ok(3600));
    assert_eq!(trend_interval("6h"), Ok(21_600));
    assert_eq!(trend_interval("12h"), Ok(43_200));
    assert_eq!(trend_interval("1d"), Ok(86_400));
    assert_eq!(
        trend_interval("2h"),
        Err("invalid interval: must be 1h, 6h, 12h, or 1d".to_string())
    );
}

#[test]
fn searches_are_limited() {
    assert_eq!(search_limit(None), 20);
    assert_eq!(search_limit(Some(5)), 5);
    assert_eq!(search_limit(Some(100)), 100);
    assert_eq!(search_limit(Some(101)), 100);
    assert_eq!(like_pattern("ban"), "%ban%");
}

#[test]
fn relationships_count_the_friends_listed() {
    let friends = vec![
        friend_summary(1, Some("Alex".to_string()), "online".to_string()),
        friend_summary(2, None, "offline".to_string()),
    ];
    assert_eq!(friends[1].username, "Unknown");
    let relationships = player_relationships(friends, 3);
    assert_eq!(relationships.friend_count, 2);
    assert_eq!(relationships.incoming_requests_count, 3);
}

#[test]
fn prompts_are_routed_by_name() {
    assert_eq!(route_prompt("analyze_player"), Some(McpPrompt::AnalyzePlayer));
    assert_eq!(route_prompt("network_health_report"), Some(McpPrompt::NetworkHealthReport));
    assert_eq!(route_prompt("other"), None);
    assert_eq!(
        analyze_player_prompt("\"Steve\""),
        "Please analyze the player '\"Steve\"'. Use get_player_overview first, then search_punishments and get_player_relationships to assess their history and activity."
    );
}

#[test]
fn player_identifiers_that_spell_a_uuid_need_no_lookup() {
    assert_eq!(
        player_id_of("069a79f4-44e9-4726-a5be-fca90e38aaf5"),
        Some(0x069a79f444e94726a5befca90e38aaf5)
    );
    assert_eq!(player_id_of("Notch"), None);
}

#[test]
fn usernames_resolve_through_the_profile_lookup() {
    let found = resolve_username(
        "Notch",
        Ok(Some(MojangProfile {
            id: 0x069a79f444e94726a5befca90e38aaf5,
            username: "Notch".to_string(),
        })),
    );
    assert_eq!(found, Ok(0x069a79f444e94726a5befca90e38aaf5));
    assert_eq!(
        resolve_username("nobody", Ok(None)),
        Err(PlayerResolutionError::NotFound("player not found: nobody".to_string()))
    );
    assert_eq!(
        resolve_username("Notch", Err(MojangProfileResolverError::UnexpectedResponse)),
        Err(PlayerResolutionError::LookupFailed)
    );
}
