use graph_server::crawls::{
    crawl_page_cursor, new_crawl, plan_create_crawl, plan_list_crawls, valid_favicon,
    CreateCrawlRequest, ListCrawlsQuery,
};
use graph_server::models::{ApiKey, ApiKeyScope, Refusal};
use graph_server::pagination::{Cursor, CursorError};
use graph_server::records::CrawlRecord;

fn api_key(scopes: &[ApiKeyScope]) -> ApiKey {
    ApiKey::new(
        "Test API key".to_string(),
        "test-public-id".to_string(),
        None,
        scopes.iter().map(|scope| scope.to_text()).collect(),
        0,
        None,
    )
}

#[test]
fn validates_favicon_data_urls() {
    assert!(valid_favicon(&None));
    assert!(valid_favicon(&Some(
        "data:image/png;base64,iVBORw0KGgo=".to_string()
    )));
    assert!(!valid_favicon(&Some(
        "https://example.com/favicon.png".to_string()
    )));
}

fn body() -> CreateCrawlRequest {
    CreateCrawlRequest {
        address: "play.azisaba.net".to_string(),
        port: 25565,
        ping: 12,
        version: "1.21.8".to_string(),
        protocol_version: 772,
        max_players: 100,
        online_players: 42,
        description: Some("motd".to_string()),
        favicon: None,
        crawled_at: 1_000,
    }
}

#[test]
fn crawls_need_an_address_a_port_and_a_png_favicon() {
    let writer = api_key(&[ApiKeyScope::CrawlsColonWrite]);
    assert_eq!(plan_create_crawl(&api_key(&[ApiKeyScope::CrawlsColonRead]), &body()), Err(Refusal::Forbidden));
    assert_eq!(plan_create_crawl(&writer, &body()), Ok(()));
    let mut b = body();
    b.address = String::new();
    assert_eq!(plan_create_crawl(&writer, &b), Err(Refusal::Invalid));
    let mut b = body();
    b.address = "a".repeat(256);
    assert_eq!(plan_create_crawl(&writer, &b), Err(Refusal::Invalid));
    b.address = "ä".repeat(255);
    assert_eq!(plan_create_crawl(&writer, &b), Ok(()));
    let mut b = body();
    b.port = 0;
    assert_eq!(plan_create_crawl(&writer, &b), Err(Refusal::Invalid));
    let mut b = body();
    b.favicon = Some("data:image/jpeg;base64,AAAA".to_string());
    assert_eq!(plan_create_crawl(&writer, &b), Err(Refusal::Invalid));

    let crawl = new_crawl(9, &body());
    assert_eq!((crawl.id, crawl.port, crawl.online_players), (9, 25565, 42));
    assert_eq!(crawl.description, Some("motd".to_string()));
}

fn query() -> ListCrawlsQuery {
    ListCrawlsQuery {
        limit: None,
        address: None,
        port: None,
        version: None,
        protocol_version: None,
        crawled_from: None,
        crawled_to: None,
    }
}

#[test]
fn crawl_listings_validate_their_query() {
    let reader = api_key(&[ApiKeyScope::CrawlsColonRead]);
    assert_eq!(plan_list_crawls(&reader, &query(), None), Ok((20, None)));
    assert_eq!(plan_list_crawls(&api_key(&[]), &query(), None), Err(Refusal::Forbidden));
    let mut q = query();
    q.port = Some(0);
    assert_eq!(plan_list_crawls(&reader, &q, None), Err(Refusal::Invalid));
    let mut q = query();
    q.crawled_from = Some(10);
    q.crawled_to = Some(10);
    assert_eq!(plan_list_crawls(&reader, &q, None), Err(Refusal::Invalid));
    assert_eq!(
        plan_list_crawls(&reader, &query(), Some(Err(CursorError::InvalidBase64))),
        Err(Refusal::Invalid)
    );
    assert_eq!(
        plan_list_crawls(&reader, &query(), Some(Ok(Cursor { value: 5, tie_breaker: 6 }))),
        Ok((20, Some(Cursor { value: 5, tie_breaker: 6 })))
    );
}

#[test]
fn crawl_pages_continue_after_the_last_row() {
    let mut rows = vec![(3, 30), (2, 20), (1, 10)];
    assert_eq!(crawl_page_cursor(&mut rows, 2), Some(Cursor { value: 2, tie_breaker: 20 }));
    assert_eq!(rows, vec![(3, 30), (2, 20)]);
}

#[test]
fn crawl_rows_become_crawls() {
    let record = CrawlRecord {
        id: 1,
        address: "a".to_string(),
        port: 1,
        ping: 2,
        version: "v".to_string(),
        protocol_version: 3,
        max_players: 4,
        online_players: 5,
        description: None,
        favicon: Some("data:image/png;base64,".to_string()),
        crawled_at: 6,
    };
    let crawl = record.into_crawl();
    assert_eq!((crawl.id, crawl.ping, crawl.crawled_at), (1, 2, 6));
    assert_eq!(crawl.favicon, Some("data:image/png;base64,".to_string()));
}
