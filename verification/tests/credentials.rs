use graph_server::auth::credentials::{ApiKeyCredentials, ApiKeyParseError};

#[test]
fn generated_credentials_round_trip() {
    let credentials = ApiKeyCredentials::generate().unwrap();
    let token = credentials.to_token();
    let parsed = match token.parse::<ApiKeyCredentials>() {
        Ok(parsed) => parsed,
        Err(error) => panic!("{error:?}"),
    };

    assert_eq!(parsed.public_id(), credentials.public_id());
    assert!(parsed.matches_digest(&credentials.secret_digest()));
    let secret = token.split('.').nth(1).unwrap();
    assert!(!credentials.redacted_debug().contains(secret));
}

#[test]
fn authorization_header_requires_bearer_scheme() {
    let credentials = ApiKeyCredentials::generate().unwrap();
    let token = credentials.to_token();

    assert!(ApiKeyCredentials::from_authorization_header(&format!("Bearer {token}")).is_ok());
    assert_eq!(
        match ApiKeyCredentials::from_authorization_header(&format!("ApiKey {token}")) {
            Ok(_) => panic!("the scheme must be refused"),
            Err(error) => error,
        },
        ApiKeyParseError::UnsupportedAuthorizationScheme
    );
}

fn header_error(header: &str) -> ApiKeyParseError {
    match ApiKeyCredentials::from_authorization_header(header) {
        Ok(_) => panic!("{header} must be refused"),
        Err(error) => error,
    }
}

#[test]
fn authorization_header_needs_exactly_two_words() {
    let token = ApiKeyCredentials::from_random_bytes(&[7u8; 12], &[9u8; 32]).to_token();
    assert!(ApiKeyCredentials::from_authorization_header(&format!("  bEaReR\t{token} ")).is_ok());
    assert_eq!(header_error(""), ApiKeyParseError::InvalidAuthorizationHeader);
    assert_eq!(header_error("Bearer"), ApiKeyParseError::InvalidAuthorizationHeader);
    assert_eq!(
        header_error(&format!("Bearer {token} extra")),
        ApiKeyParseError::InvalidAuthorizationHeader
    );
    assert_eq!(header_error("Bearer azk_test_x.y"), ApiKeyParseError::InvalidPrefix);
    assert_eq!(header_error("Bearer azk_live_xy"), ApiKeyParseError::InvalidFormat);
    assert_eq!(header_error("Bearer azk_live_x.y"), ApiKeyParseError::InvalidPublicId);
    assert_eq!(
        header_error("Bearer azk_live_BwcHBwcHBwcHBwcH.y"),
        ApiKeyParseError::InvalidSecret
    );
}

#[test]
fn parse_error_messages() {
    assert_eq!(
        ApiKeyParseError::InvalidAuthorizationHeader.message(),
        "invalid authorization header"
    );
    assert_eq!(
        ApiKeyParseError::UnsupportedAuthorizationScheme.message(),
        "unsupported authorization scheme"
    );
    assert_eq!(ApiKeyParseError::InvalidPrefix.message(), "invalid API key prefix");
    assert_eq!(ApiKeyParseError::InvalidFormat.message(), "invalid API key format");
    assert_eq!(ApiKeyParseError::InvalidPublicId.message(), "invalid API key public ID");
    assert_eq!(ApiKeyParseError::InvalidSecret.message(), "invalid API key secret");
}

#[test]
fn a_padded_component_is_not_canonical() {
    let token = ApiKeyCredentials::from_random_bytes(&[7u8; 12], &[9u8; 32]).to_token();
    assert!(token.parse::<ApiKeyCredentials>().is_ok());
    let padded = format!("{token}=");
    assert!(padded.parse::<ApiKeyCredentials>().is_err());
}

#[test]
fn digests_are_compared_in_full() {
    let credentials = ApiKeyCredentials::from_random_bytes(&[3u8; 12], &[4u8; 32]);
    let digest = credentials.secret_digest();
    assert!(credentials.matches_digest(&digest));
    assert!(!credentials.matches_digest(&digest[..16]));
    assert!(!credentials.matches_digest(&[0u8; 32]));
}

#[test]
fn generated_parts_have_their_encoded_lengths() {
    let credentials = ApiKeyCredentials::generate().unwrap();
    let token = credentials.to_token();
    let secret = token.split('.').nth(1).unwrap();
    assert_eq!(credentials.public_id().len(), 16);
    assert_eq!(secret.len(), 43);
    let debug = credentials.redacted_debug();
    assert!(debug.contains(credentials.public_id()));
    assert!(debug.contains("[REDACTED]"));
    assert!(!debug.contains(secret));
}
