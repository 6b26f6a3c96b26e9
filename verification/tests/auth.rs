use graph_server::auth::{ApiKeyCredentials, ApiKeyCredentialsParseError};
use graph_server::models::{ApiKey, ApiKeyScope};

fn api_key_with_scopes(scopes: &[ApiKeyScope]) -> ApiKey {
    ApiKey::new(
        "Test API key".to_string(),
        "test-public-id".to_string(),
        None,
        scopes.iter().map(|scope| scope.to_text()).collect(),
        1_700_000_000_000_000_000,
        None,
    )
}

#[test]
fn generated_credentials_round_trip_without_exposing_the_secret_in_debug_output() {
    let credentials = ApiKeyCredentials::generate().unwrap();
    let token = credentials.expose();
    let parsed = match token.parse::<ApiKeyCredentials>() {
        Ok(parsed) => parsed,
        Err(error) => panic!("{error:?}"),
    };

    assert_eq!(parsed.public_id(), credentials.public_id());
    assert!(parsed.matches_secret_digest(&credentials.secret_digest()));
    let secret = token.split('.').nth(1).unwrap();
    assert!(!credentials.redacted_debug().contains(secret));
}

#[test]
fn rejects_non_canonical_credentials() {
    assert_eq!(
        match "invalid".parse::<ApiKeyCredentials>() {
            Ok(_) => panic!("credentials must be refused"),
            Err(error) => error,
        },
        ApiKeyCredentialsParseError::Prefix
    );
}

#[test]
fn auth_star_grants_every_scope() {
    let api_key = api_key_with_scopes(&[ApiKeyScope::Star]);

    assert!(api_key.has_scope(&ApiKeyScope::ApiKeysColonWrite));
    assert!(api_key.has_all_scopes(&[
        ApiKeyScope::PlayersColonRead,
        ApiKeyScope::PatchNotesColonWrite,
    ]));
    assert!(api_key.has_any_scope(&[
        ApiKeyScope::CrawlsColonRead,
        ApiKeyScope::PunishmentsColonWrite,
    ]));
}

#[test]
fn scopes_do_not_imply_other_scopes() {
    let api_key = api_key_with_scopes(&[ApiKeyScope::PlayersColonReadDetails]);

    assert!(api_key.has_scope(&ApiKeyScope::PlayersColonReadDetails));
    assert!(!api_key.has_scope(&ApiKeyScope::PlayersColonRead));
    assert!(!api_key.has_any_scope(&[ApiKeyScope::PlayersColonWrite]));
}

#[test]
fn legacy_parse_errors_follow_the_token_layout() {
    let err = |text: &str| match text.parse::<ApiKeyCredentials>() {
        Ok(_) => panic!("{text} must be refused"),
        Err(error) => error,
    };
    assert_eq!(err("azk_live_nodot"), ApiKeyCredentialsParseError::Format);
    assert_eq!(err("azk_live_short.secret"), ApiKeyCredentialsParseError::PublicId);
    assert_eq!(
        err("azk_live_AAAAAAAAAAAAAAAA.short"),
        ApiKeyCredentialsParseError::Secret
    );
}

#[test]
fn credentials_from_fixed_bytes_expose_their_token() {
    let credentials = ApiKeyCredentials::from_random_bytes(&[0u8; 12], &[0xffu8; 32]);
    assert_eq!(credentials.public_id(), "AAAAAAAAAAAAAAAA");
    assert_eq!(
        credentials.expose(),
        "azk_live_AAAAAAAAAAAAAAAA.__________________________________________8"
    );
    assert_eq!(
        credentials.redacted_debug(),
        "ApiKeyCredentials { public_id: \"AAAAAAAAAAAAAAAA\", secret: \"[REDACTED]\" }"
    );
}

#[test]
fn stored_keys_authenticate_only_with_the_right_secret_before_expiry() {
    let credentials = ApiKeyCredentials::from_random_bytes(&[1u8; 12], &[2u8; 32]);
    let digest = credentials.secret_digest();
    assert!(credentials.accepts_stored_key(&digest, None, 10));
    assert!(credentials.accepts_stored_key(&digest, Some(11), 10));
    assert!(!credentials.accepts_stored_key(&digest, Some(10), 10));
    let mut wrong = digest;
    wrong[0] ^= 1;
    assert!(!credentials.accepts_stored_key(&wrong, None, 10));
    assert!(!credentials.accepts_stored_key(&digest[..31], None, 10));
}

#[test]
fn bearer_headers_carry_credentials() {
    let credentials = ApiKeyCredentials::generate().unwrap();
    let token = credentials.expose();
    let header = format!("bearer   {token}");
    let parsed = ApiKeyCredentials::from_bearer_header(&header).unwrap();
    assert_eq!(parsed.expose(), token);
    assert!(ApiKeyCredentials::from_bearer_header(&format!("Basic {token}")).is_none());
    assert!(ApiKeyCredentials::from_bearer_header(&format!("Bearer {token} extra")).is_none());
    assert!(ApiKeyCredentials::from_bearer_header("Bearer azk_live_short.secret").is_none());
}
