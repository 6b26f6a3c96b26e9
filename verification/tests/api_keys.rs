use graph_server::api_keys::{
    api_key_page_cursor, bootstrap_credentials, parse_api_key_scopes, plan_create_api_key,
    plan_list_api_keys, scopes_for, ApiKeyRecord, CreateApiKeyRequest, KeyTreeWalk, WalkStep,
};
use graph_server::auth::credentials::ApiKeyCredentials;
use graph_server::models::{ApiKey, ApiKeyScope, Refusal};
use graph_server::pagination::{Cursor, CursorError};

fn api_key(scopes: &[ApiKeyScope]) -> ApiKey {
    ApiKey::new(
        "Test API key".to_string(),
        "test-public-id".to_string(),
        None,
        scopes.iter().map(|scope| scope.to_text()).collect(),
        0,
        None,
    )
}

fn texts(values: &[&str]) -> Vec<String> {
    values.iter().map(|value| value.to_string()).collect()
}

#[test]
fn scope_lists_must_name_known_scopes_once() {
    assert_eq!(
        parse_api_key_scopes(&texts(&["players:read", "crawls:write"])),
        Some(vec![ApiKeyScope::PlayersColonRead, ApiKeyScope::CrawlsColonWrite])
    );
    assert_eq!(parse_api_key_scopes(&texts(&[])), Some(vec![]));
    assert_eq!(parse_api_key_scopes(&texts(&["players:read", "players:read"])), None);
    assert_eq!(parse_api_key_scopes(&texts(&["players:read", "players:fly"])), None);
}

fn body(name: &str, scopes: &[&str], expires_at: Option<Option<i128>>) -> CreateApiKeyRequest {
    CreateApiKeyRequest { name: name.to_string(), scopes: texts(scopes), expires_at }
}

#[test]
fn new_keys_hold_no_more_than_their_creator() {
    let admin = api_key(&[ApiKeyScope::Star]);
    let writer = api_key(&[ApiKeyScope::ApiKeysColonWrite, ApiKeyScope::PlayersColonRead]);
    let err = |key: &ApiKey, body: CreateApiKeyRequest| plan_create_api_key(key, &body, 100).err();

    assert_eq!(err(&api_key(&[]), body("k", &[], None)), Some(Refusal::Forbidden));
    assert_eq!(err(&writer, body("", &[], None)), Some(Refusal::Invalid));
    assert_eq!(err(&writer, body(&"x".repeat(101), &[], None)), Some(Refusal::Invalid));
    assert_eq!(err(&writer, body("k", &["nope"], None)), Some(Refusal::Invalid));
    assert_eq!(err(&writer, body("k", &["crawls:read"], None)), Some(Refusal::Forbidden));
    assert_eq!(err(&writer, body("k", &["*"], None)), Some(Refusal::Forbidden));
    assert_eq!(err(&writer, body("k", &[], Some(Some(100)))), Some(Refusal::Invalid));

    let plan = plan_create_api_key(&admin, &body("k", &["*", "stream:read"], Some(Some(101))), 100)
        .ok()
        .unwrap();
    assert_eq!(plan.scopes, vec![ApiKeyScope::Star, ApiKeyScope::StreamColonRead]);
    assert_eq!(plan.scope_texts, texts(&["*", "stream:read"]));
    assert_eq!(plan.expires_at, Some(101));
    let plan = plan_create_api_key(&writer, &body("k", &["players:read"], Some(None)), 100)
        .ok()
        .unwrap();
    assert_eq!(plan.expires_at, None);
}

#[test]
fn key_listings_check_limit_and_cursor() {
    let reader = api_key(&[ApiKeyScope::ApiKeysColonRead]);
    assert_eq!(plan_list_api_keys(&reader, None, None), Ok((20, None)));
    assert_eq!(plan_list_api_keys(&reader, Some(101), None), Err(Refusal::Invalid));
    assert_eq!(
        plan_list_api_keys(&reader, None, Some(Err(CursorError::InvalidJson))),
        Err(Refusal::Invalid)
    );
    assert_eq!(plan_list_api_keys(&api_key(&[]), None, None), Err(Refusal::Forbidden));

    let mut rows = vec![(3, "c".to_string()), (2, "b".to_string()), (1, "a".to_string())];
    assert_eq!(
        api_key_page_cursor(&mut rows, 2),
        Some(Cursor { value: 2, tie_breaker: "b".to_string() })
    );
    assert_eq!(rows.len(), 2);
}

#[test]
fn listed_keys_show_their_own_scopes() {
    let rows = vec![
        ("a".to_string(), "*".to_string()),
        ("b".to_string(), "players:read".to_string()),
        ("a".to_string(), "stream:read".to_string()),
    ];
    assert_eq!(scopes_for(&rows, "a"), texts(&["*", "stream:read"]));
    assert!(scopes_for(&rows, "z").is_empty());
    let item = ApiKeyRecord {
        public_id: "b".to_string(),
        name: "bee".to_string(),
        created_at: 5,
        expires_at: None,
    }
    .into_list_item(&rows);
    assert_eq!(item.scopes, texts(&["players:read"]));
    assert_eq!(item.name, "bee");
}

fn walk(tree: &[(&str, &[&str])], root: &str) -> Result<Vec<String>, ()> {
    let mut walk = KeyTreeWalk::new(root.to_string());
    loop {
        match walk.next() {
            WalkStep::Visit(key) => {
                let created = tree
                    .iter()
                    .find(|(parent, _)| *parent == key)
                    .map(|(_, children)| texts(children))
                    .unwrap_or_default();
                walk.visited(created);
            }
            WalkStep::Done => return Ok(walk.deletion_order()),
            WalkStep::Cycle => return Err(()),
        }
    }
}

#[test]
fn key_trees_are_deleted_leaves_first() {
    let tree: &[(&str, &[&str])] = &[("root", &["a", "b"]), ("a", &["c"]), ("b", &[])];
    let order = walk(tree, "root").unwrap();
    assert_eq!(order.len(), 4);
    let position = |key: &str| order.iter().position(|k| k == key).unwrap();
    assert!(position("c") < position("a"));
    assert!(position("a") < position("root"));
    assert!(position("b") < position("root"));
    assert_eq!(order.last().unwrap(), "root");
}

#[test]
fn a_cycle_in_the_key_tree_is_reported() {
    let tree: &[(&str, &[&str])] = &[("root", &["a"]), ("a", &["root"])];
    assert_eq!(walk(tree, "root"), Err(()));
}

#[test]
fn the_bootstrap_key_must_be_a_token() {
    let token = ApiKeyCredentials::from_random_bytes(&[1u8; 12], &[2u8; 32]).to_token();
    assert_eq!(bootstrap_credentials(&token).ok().unwrap().public_id(), "AQEBAQEBAQEBAQEB");
    assert_eq!(
        bootstrap_credentials("nope").err(),
        Some("GRAPH_BOOTSTRAP_API_KEY is invalid: invalid API key prefix".to_string())
    );
}
