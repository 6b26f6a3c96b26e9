use graph_server::models::{ApiKey, ApiKeyScope};
use graph_server::stream::{
    can_open_stream, delivers_locally, is_visible_to, next_reconnect_delay, stream_event_type,
    PublishOutcome, ReconnectBackoff, StreamEventKind, RECONNECT_MAX_DELAY_MILLIS,
    RECONNECT_MIN_DELAY_MILLIS,
};

fn api_key(scopes: &[ApiKeyScope]) -> ApiKey {
    ApiKey::new(
        "Test API key".to_string(),
        "test-public-id".to_string(),
        None,
        scopes.iter().map(|scope| scope.to_text()).collect(),
        0,
        None,
    )
}

#[test]
fn friend_request_events_require_player_read_access() {
    let event = StreamEventKind::FriendRequestAdded;

    assert!(!is_visible_to(event, &api_key(&[ApiKeyScope::StreamColonRead])));
    assert!(is_visible_to(
        event,
        &api_key(&[ApiKeyScope::StreamColonRead, ApiKeyScope::PlayersColonRead])
    ));
    assert!(is_visible_to(
        event,
        &api_key(&[ApiKeyScope::StreamColonRead, ApiKeyScope::PlayersColonReadDetails])
    ));
    assert!(is_visible_to(event, &api_key(&[ApiKeyScope::Star])));
}

#[test]
fn redis_reconnect_delay_is_exponential_and_capped() {
    assert_eq!(next_reconnect_delay(RECONNECT_MIN_DELAY_MILLIS), 2_000);
    assert_eq!(next_reconnect_delay(16_000), RECONNECT_MAX_DELAY_MILLIS);
    assert_eq!(
        next_reconnect_delay(RECONNECT_MAX_DELAY_MILLIS),
        RECONNECT_MAX_DELAY_MILLIS
    );
}

#[test]
fn backoff_doubles_until_capped_and_resets_on_subscription() {
    let mut backoff = ReconnectBackoff::new();
    let waits: Vec<u64> = (0..7).map(|_| backoff.wait()).collect();
    assert_eq!(waits, vec![1_000, 2_000, 4_000, 8_000, 16_000, 30_000, 30_000]);
    backoff.subscribed();
    assert_eq!(backoff.wait(), 1_000);
    assert_eq!(next_reconnect_delay(u64::MAX), RECONNECT_MAX_DELAY_MILLIS);
}

#[test]
fn events_are_named_and_shown_by_scope() {
    assert_eq!(stream_event_type(StreamEventKind::CrawlCreated), "crawl-created");
    assert_eq!(stream_event_type(StreamEventKind::PunishmentProofUpdated), "punishment-proof-updated");
    let crawls = api_key(&[ApiKeyScope::CrawlsColonRead]);
    assert!(is_visible_to(StreamEventKind::CrawlDeleted, &crawls));
    assert!(!is_visible_to(StreamEventKind::PatchNoteCreated, &crawls));
    assert!(!is_visible_to(StreamEventKind::PunishmentRevoked, &crawls));
    assert!(is_visible_to(
        StreamEventKind::PunishmentRevoked,
        &api_key(&[ApiKeyScope::PunishmentsColonRead])
    ));
    assert!(can_open_stream(&api_key(&[ApiKeyScope::StreamColonRead])));
    assert!(!can_open_stream(&crawls));
}

#[test]
fn events_fall_back_to_local_delivery() {
    assert!(delivers_locally(PublishOutcome::NoPublisher));
    assert!(delivers_locally(PublishOutcome::Published(0)));
    assert!(!delivers_locally(PublishOutcome::Published(2)));
    assert!(delivers_locally(PublishOutcome::Failed));
}
