use graph_server::models::{ApiKey, ApiKeyScope};

fn api_key_with_scopes(scopes: &[ApiKeyScope]) -> ApiKey {
    ApiKey::new(
        "Test API key".to_string(),
        "test-public-id".to_string(),
        None,
        scopes.iter().map(|scope| scope.to_text()).collect(),
        1_700_000_000_000_000_000,
        None,
    )
}

#[test]
fn scope_star_grants_every_scope() {
    let api_key = api_key_with_scopes(&[ApiKeyScope::Star]);

    assert!(api_key.has_scope(&ApiKeyScope::ApiKeysColonWrite));
    assert!(api_key.has_scope(&ApiKeyScope::PatchNotesColonRead));
}

#[test]
fn only_star_can_delegate_star() {
    let star = api_key_with_scopes(&[ApiKeyScope::Star]);
    let writer = api_key_with_scopes(&[ApiKeyScope::ApiKeysColonWrite]);

    assert!(star.has_all_scopes(&[ApiKeyScope::Star]));
    assert!(!writer.has_all_scopes(&[ApiKeyScope::Star]));
}

#[test]
fn scope_texts_round_trip() {
    let all = [
        (ApiKeyScope::Star, "*"),
        (ApiKeyScope::ApiKeysColonRead, "api-keys:read"),
        (ApiKeyScope::ApiKeysColonWrite, "api-keys:write"),
        (ApiKeyScope::CrawlsColonRead, "crawls:read"),
        (ApiKeyScope::CrawlsColonWrite, "crawls:write"),
        (ApiKeyScope::PatchNotesColonRead, "patch-notes:read"),
        (ApiKeyScope::PatchNotesColonWrite, "patch-notes:write"),
        (ApiKeyScope::PlayersColonRead, "players:read"),
        (ApiKeyScope::PlayersColonReadDetails, "players:read-details"),
        (ApiKeyScope::PlayersColonWrite, "players:write"),
        (ApiKeyScope::PunishmentsColonRead, "punishments:read"),
        (ApiKeyScope::PunishmentsColonWrite, "punishments:write"),
        (ApiKeyScope::StreamColonRead, "stream:read"),
    ];
    for (scope, text) in all {
        assert_eq!(scope.as_str(), text);
        assert_eq!(ApiKeyScope::parse(text), Some(scope));
    }
    assert_eq!(ApiKeyScope::parse("players"), None);
    assert_eq!(ApiKeyScope::parse("Players:Read"), None);
}

#[test]
fn a_key_without_scopes_is_granted_nothing() {
    let none = api_key_with_scopes(&[]);
    assert!(!none.has_scope(&ApiKeyScope::StreamColonRead));
    assert!(none.has_all_scopes(&[]));
    assert!(!none.has_any_scope(&[]));
}
