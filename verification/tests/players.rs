use graph_server::models::{ApiKey, ApiKeyScope, PlayerStatus, Refusal};
use graph_server::pagination::{decode_cursor_payload, encode_cursor_payload, Cursor, CursorError};
use graph_server::players::{
    after_friendship_insert, after_request_deletion, assemble_players, can_read_discord_id,
    can_read_players, decode_player_cursor, flatten_players, friend_requests_to_delete,
    is_deadlock, normalize_friendship, plan_friend_write, plan_list_players, plan_related_page,
    plan_update_player, should_retry, take_next_cursor, upsert_columns, FriendAction,
    FriendRequestDeletion, FriendshipStep, FriendshipWriteOutcome, ListPlayersQuery,
    PlayerColumn, UpdatePlayerRequest,
};
use graph_server::records::PlayerRecord;
use uuid::Uuid;

fn player_record() -> PlayerRecord {
    PlayerRecord {
        id: Uuid::nil().as_u128(),
        discord_id: Some("123456789012345678".to_string()),
        status: PlayerStatus::Online.to_text(),
        current_server: Some("lobby".to_string()),
        current_locale: Some("ja_jp".to_string()),
        current_client_version: Some("1.21.8".to_string()),
        bio: None,
        first_login_at: None,
        last_seen_at: None,
    }
}

fn list_query_params() -> ListPlayersQuery {
    ListPlayersQuery {
        limit: None,
        cursor: None,
        username: None,
        discord_id: None,
        status: None,
        current_server: None,
        current_locale: None,
        current_client_version: None,
        first_login_from: None,
        first_login_to: None,
        last_seen_from: None,
        last_seen_to: None,
    }
}

fn api_key(scopes: &[ApiKeyScope]) -> ApiKey {
    ApiKey::new(
        "Test API key".to_string(),
        "test-public-id".to_string(),
        None,
        scopes.iter().map(|scope| scope.to_text()).collect(),
        0,
        None,
    )
}

#[test]
fn player_conversion_hides_discord_id_without_details_scope() {
    let player = player_record().into_player("Steve".to_string(), false);

    assert_eq!(player.discord_id, None);
    assert_eq!(player.current_server, Some("lobby".to_string()));
}

#[test]
fn player_conversion_includes_discord_id_with_details_scope() {
    let player = player_record().into_player("Steve".to_string(), true);

    assert_eq!(player.discord_id, Some("123456789012345678".to_string()));
}

#[test]
fn empty_player_record_uses_public_defaults() {
    let id = Uuid::new_v4().as_u128();
    let player = PlayerRecord::empty(id).into_player("Steve".to_string(), true);

    assert_eq!(player.id, id);
    assert_eq!(player.username, "Steve");
    assert_eq!(player.status, PlayerStatus::Offline.to_text());
    assert_eq!(player.discord_id, None);
    assert_eq!(player.current_server, None);
    assert_eq!(player.bio, None);
}

#[test]
fn empty_player_record_matches_persistent_filters() {
    let id = Uuid::from_u128(2).as_u128();
    let record = PlayerRecord::empty(id);
    let discord_id = Some("123456789012345678");
    let query = list_query_params();

    assert!(record.matches_filters(None, Some("offline"), None, &query));
    assert!(!record.matches_filters(discord_id, None, None, &query));
    assert!(!record.matches_filters(None, Some("online"), None, &query));
    assert!(!record.matches_filters(
        None,
        None,
        Some(&Cursor {
            value: id,
            tie_breaker: id,
        }),
        &query,
    ));
}

#[test]
fn player_record_matches_current_state_filters() {
    let record = player_record();
    let mut query = list_query_params();
    query.current_server = Some("lobby".to_string());
    query.current_locale = Some("ja_jp".to_string());
    query.current_client_version = Some("1.21.8".to_string());

    assert!(record.matches_filters(None, Some("online"), None, &query));
    query.current_server = Some("survival".to_string());
    assert!(!record.matches_filters(None, Some("online"), None, &query));
}

#[test]
fn database_fields_map_to_current_player_state() {
    let player = player_record().into_player("Steve".to_string(), true);

    assert_eq!(player.status, PlayerStatus::Online.to_text());
    assert_eq!(player.current_server, Some("lobby".to_string()));
    assert_eq!(player.current_locale, Some("ja_jp".to_string()));
    assert_eq!(player.current_client_version, Some("1.21.8".to_string()));
}

fn cursor_json(value: Uuid, tie_breaker: Uuid) -> String {
    format!("{{\"value\":\"{value}\",\"tie_breaker\":\"{tie_breaker}\"}}")
}

fn read_cursor(text: &str) -> Result<Cursor<u128, u128>, CursorError> {
    let bytes = decode_cursor_payload(text)?;
    let json: serde_json::Value =
        serde_json::from_slice(&bytes).map_err(|_| CursorError::InvalidJson)?;
    let uuid = |key: &str| {
        json[key]
            .as_str()
            .and_then(|text| Uuid::parse_str(text).ok())
            .map(|id| id.as_u128())
            .ok_or(CursorError::InvalidJson)
    };
    Ok(Cursor { value: uuid("value")?, tie_breaker: uuid("tie_breaker")? })
}

#[test]
fn player_cursor_helpers_round_trip() {
    let first = Uuid::from_u128(1);
    let second = Uuid::from_u128(2);
    let third = Uuid::from_u128(3);
    let mut ids = vec![first.as_u128(), second.as_u128(), third.as_u128()];

    let last = take_next_cursor(&mut ids, 2).expect("another page must be available");
    let encoded = encode_cursor_payload(
        cursor_json(Uuid::from_u128(last), Uuid::from_u128(last)).as_bytes(),
    );
    let cursor = decode_player_cursor(Some(read_cursor(&encoded)))
        .expect("cursor must be valid")
        .expect("cursor must be present");

    assert_eq!(ids, vec![first.as_u128(), second.as_u128()]);
    assert_eq!(cursor.value, second.as_u128());
    assert_eq!(cursor.tie_breaker, second.as_u128());
}

#[test]
fn player_cursor_rejects_different_tie_breaker() {
    let encoded = encode_cursor_payload(
        cursor_json(Uuid::from_u128(1), Uuid::from_u128(2)).as_bytes(),
    );

    assert!(decode_player_cursor(Some(read_cursor(&encoded))).is_err());
}

#[test]
fn cursors_that_cannot_be_read_are_refused() {
    assert_eq!(decode_cursor_payload("not base64!").err(), Some(CursorError::InvalidBase64));
    assert!(decode_player_cursor(Some(Err(CursorError::InvalidJson))).is_err());
    assert_eq!(decode_player_cursor(None), Ok(None));
}

#[test]
fn friendships_are_keyed_smaller_uuid_first() {
    assert_eq!(normalize_friendship(5, 3), (3, 5));
    assert_eq!(normalize_friendship(3, 5), (3, 5));
    assert_eq!(friend_requests_to_delete(FriendRequestDeletion::RequiredDirection, 9, 4), vec![(9, 4)]);
    assert_eq!(
        friend_requests_to_delete(FriendRequestDeletion::BothDirections, 9, 4),
        vec![(4, 9), (9, 4)]
    );
}

#[test]
fn friendship_writes_end_as_the_database_reports() {
    assert!(matches!(
        after_request_deletion(FriendRequestDeletion::RequiredDirection, 0, 9, 4),
        FriendshipStep::Finish(FriendshipWriteOutcome::RequestNotFound)
    ));
    assert!(matches!(
        after_request_deletion(FriendRequestDeletion::BothDirections, 0, 9, 4),
        FriendshipStep::Insert(4, 9)
    ));
    assert_eq!(after_friendship_insert(true), FriendshipWriteOutcome::AlreadyExists);
    assert_eq!(after_friendship_insert(false), FriendshipWriteOutcome::Created);
    assert!(should_retry(true, 1));
    assert!(should_retry(true, 2));
    assert!(!should_retry(true, 3));
    assert!(!should_retry(false, 1));
    assert!(is_deadlock(1213, Some("40001")));
    assert!(!is_deadlock(1213, None));
    assert!(!is_deadlock(1062, Some("23000")));
}

#[test]
fn friend_writes_are_checked_before_the_database() {
    let writer = api_key(&[ApiKeyScope::PlayersColonWrite]);
    let reader = api_key(&[ApiKeyScope::PlayersColonRead]);
    assert_eq!(plan_friend_write(&reader, FriendAction::AddFriend, 1, 2), Err(Refusal::Forbidden));
    assert_eq!(plan_friend_write(&writer, FriendAction::AddFriend, 1, 1), Err(Refusal::Invalid));
    assert_eq!(plan_friend_write(&writer, FriendAction::RemoveFriend, 1, 1), Err(Refusal::Invalid));
    assert_eq!(plan_friend_write(&writer, FriendAction::AddRequest, 1, 1), Err(Refusal::Conflict));
    assert_eq!(plan_friend_write(&writer, FriendAction::AcceptRequest, 1, 1), Ok(()));
    assert_eq!(plan_friend_write(&writer, FriendAction::AddFriend, 1, 2), Ok(()));
}

#[test]
fn listings_check_scopes_limits_cursors_and_statuses() {
    let reader = api_key(&[ApiKeyScope::PlayersColonRead]);
    let details = api_key(&[ApiKeyScope::PlayersColonReadDetails]);
    assert!(can_read_players(&reader) && can_read_players(&details));
    assert!(!can_read_discord_id(&reader) && can_read_discord_id(&details));

    let plan = plan_list_players(&reader, &list_query_params(), None).ok().unwrap();
    assert_eq!((plan.limit, plan.after, plan.with_details), (20, None, false));

    let mut by_discord = list_query_params();
    by_discord.discord_id = Some("1".to_string());
    assert_eq!(plan_list_players(&reader, &by_discord, None).err(), Some(Refusal::Forbidden));
    assert!(plan_list_players(&details, &by_discord, None).is_ok());

    let mut q = list_query_params();
    q.limit = Some(101);
    assert_eq!(plan_list_players(&reader, &q, None).err(), Some(Refusal::Invalid));
    let mut q = list_query_params();
    q.status = Some("away".to_string());
    assert_eq!(plan_list_players(&reader, &q, None).err(), Some(Refusal::Invalid));
    let skewed = Some(Ok(Cursor { value: 1, tie_breaker: 2 }));
    assert_eq!(plan_list_players(&reader, &list_query_params(), skewed).err(), Some(Refusal::Invalid));
    let even = Some(Ok(Cursor { value: 7, tie_breaker: 7 }));
    assert_eq!(plan_list_players(&reader, &list_query_params(), even).ok().unwrap().after, Some(7));
    assert_eq!(plan_list_players(&api_key(&[]), &list_query_params(), None).err(), Some(Refusal::Forbidden));

    assert_eq!(plan_related_page(None, None), Ok((20, None)));
    assert_eq!(plan_related_page(Some(0), None), Err(Refusal::Invalid));
}

fn empty_body() -> UpdatePlayerRequest {
    UpdatePlayerRequest {
        discord_id: None,
        bio: None,
        status: None,
        current_server: None,
        current_locale: None,
        current_client_version: None,
        first_login_at: None,
        last_seen_at: None,
    }
}

#[test]
fn updates_are_validated_and_write_only_the_given_columns() {
    let writer = api_key(&[ApiKeyScope::PlayersColonWrite]);
    assert_eq!(plan_update_player(&api_key(&[]), &empty_body()), Err(Refusal::Forbidden));
    assert_eq!(plan_update_player(&writer, &empty_body()), Err(Refusal::Invalid));
    let mut body = empty_body();
    body.status = Some("away".to_string());
    assert_eq!(plan_update_player(&writer, &body), Err(Refusal::Invalid));
    let mut body = empty_body();
    body.bio = Some(Some(String::new()));
    assert_eq!(plan_update_player(&writer, &body), Err(Refusal::Invalid));
    body.bio = Some(Some("é".repeat(160)));
    assert_eq!(plan_update_player(&writer, &body), Ok(None));
    body.bio = Some(Some("é".repeat(161)));
    assert_eq!(plan_update_player(&writer, &body), Err(Refusal::Invalid));
    body.bio = Some(None);
    body.status = Some("online".to_string());
    let status = plan_update_player(&writer, &body).unwrap();
    assert_eq!(status, Some("online".to_string()));

    let mut partial = empty_body();
    partial.current_server = Some(Some("lobby".to_string()));
    partial.last_seen_at = Some(None);
    let columns = upsert_columns(&partial, Some("online".to_string()));
    assert_eq!(columns.len(), 3);
    assert!(matches!(&columns[0], PlayerColumn::Status(s) if s == "online"));
    assert!(matches!(&columns[1], PlayerColumn::CurrentServer(Some(s)) if s == "lobby"));
    assert!(matches!(&columns[2], PlayerColumn::LastSeenAt(None)));
}

#[test]
fn listings_keep_the_requested_order_and_skip_unknown_profiles() {
    let mut known = PlayerRecord::empty(2);
    known.bio = Some("hello".to_string());
    let records = vec![known];
    let slots = assemble_players(
        &[1, 2, 2, 3],
        &records,
        vec![Some("A".to_string()), Some("B".to_string()), Some("C".to_string()), None],
        false,
    );
    assert_eq!(slots.len(), 4);
    assert!(slots[3].is_none());
    let players = flatten_players(slots);
    assert_eq!(players.iter().map(|p| p.username.as_str()).collect::<Vec<_>>(), vec!["A", "B", "C"]);
    assert_eq!(players[0].bio, None);
    assert_eq!(players[1].bio, Some("hello".to_string()));
    assert_eq!(players[2].bio, None);
}
