//! Crawl rules: which crawls may be recorded, what a crawl listing is read
//! with, and how a stored crawl is shown.
use vstd::prelude::*;

use crate::auth::scope::grants;
use crate::filters::valid_half_open_range;
use crate::models::{ApiKey, ApiKeyScope, Crawl, Refusal};
use crate::pagination::{Cursor, CursorError};
use crate::punishments::opt_view;
use crate::text::{char_vec, starts_with, text_starts_with};

verus! {

/// The page size when a crawl listing names none, and the largest allowed.
pub const DEFAULT_CRAWLS_LIMIT: u8 = 20;

pub const MAX_CRAWLS_LIMIT: u8 = 100;

/// The start of a favicon the API accepts: a base64 PNG data URL.
pub open spec fn favicon_prefix() -> Seq<char> {
    "data:image/png;base64,"@
}

/// A favicon is either absent or a base64 PNG data URL.
pub open spec fn favicon_ok(favicon: Option<Seq<char>>) -> bool {
    match favicon {
        Some(f) => starts_with(f, favicon_prefix()),
        None => true,
    }
}

/// Whether a favicon may be stored.
pub fn valid_favicon(favicon: &Option<String>) -> (res: bool)
    ensures
        res == favicon_ok(opt_view(*favicon)),
{
    match favicon {
        Some(f) => text_starts_with(f.as_str(), "data:image/png;base64,"),
        None => true,
    }
}

/// The body of a request to record a crawl.
pub struct CreateCrawlRequest {
    pub address: String,
    pub port: u16,
    pub ping: u32,
    pub version: String,
    pub protocol_version: i32,
    pub max_players: u32,
    pub online_players: u32,
    pub description: Option<String>,
    pub favicon: Option<String>,
    pub crawled_at: i128,
}

/// An address the API accepts: 1 to 255 characters.
pub open spec fn address_ok(address: Seq<char>) -> bool {
    1 <= address.len() <= 255
}

/// What a request to record a crawl is refused, if anything: a key that may
/// not write crawls (403); an address of the wrong length, port 0, or a
/// favicon that is no PNG data URL (400).
pub fn plan_create_crawl(api_key: &ApiKey, body: &CreateCrawlRequest) -> (res: Result<(), Refusal>)
    ensures
        !grants(api_key.granted(), ApiKeyScope::CrawlsColonWrite) ==> res == Err::<(), Refusal>(
            Refusal::Forbidden,
        ),
        grants(api_key.granted(), ApiKeyScope::CrawlsColonWrite) ==> res == (if !address_ok(
            body.address@,
        ) || body.port == 0 || !favicon_ok(opt_view(body.favicon)) {
            Err::<(), Refusal>(Refusal::Invalid)
        } else {
            Ok::<(), Refusal>(())
        }),
{
    if !api_key.has_scope(&ApiKeyScope::CrawlsColonWrite) {
        return Err(Refusal::Forbidden);
    }
    let n = char_vec(body.address.as_str()).len();
    if !(1 <= n && n <= 255) || body.port == 0 || !valid_favicon(&body.favicon) {
        return Err(Refusal::Invalid);
    }
    Ok(())
}

fn clone_opt(value: &Option<String>) -> (res: Option<String>)
    ensures
        res == *value,
{
    match value {
        Some(s) => Some(s.clone()),
        None => None,
    }
}

/// The crawl a request records, under a new identifier.
pub fn new_crawl(id: u128, body: &CreateCrawlRequest) -> (res: Crawl)
    ensures
        res.id == id,
        res.address == body.address,
        res.port == body.port,
        res.ping == body.ping,
        res.version == body.version,
        res.protocol_version == body.protocol_version,
        res.max_players == body.max_players,
        res.online_players == body.online_players,
        res.description == body.description,
        res.favicon == body.favicon,
        res.crawled_at == body.crawled_at,
{
    Crawl {
        id,
        address: body.address.clone(),
        port: body.port,
        ping: body.ping,
        version: body.version.clone(),
        protocol_version: body.protocol_version,
        max_players: body.max_players,
        online_players: body.online_players,
        description: clone_opt(&body.description),
        favicon: clone_opt(&body.favicon),
        crawled_at: body.crawled_at,
    }
}

/// Whether a key may read crawls.
pub fn can_read_crawls(api_key: &ApiKey) -> (res: bool)
    ensures
        res == grants(api_key.granted(), ApiKeyScope::CrawlsColonRead),
{
    api_key.has_scope(&ApiKeyScope::CrawlsColonRead)
}

/// Whether a key may delete crawls.
pub fn can_write_crawls(api_key: &ApiKey) -> (res: bool)
    ensures
        res == grants(api_key.granted(), ApiKeyScope::CrawlsColonWrite),
{
    api_key.has_scope(&ApiKeyScope::CrawlsColonWrite)
}

/// The query of a crawl listing.
pub struct ListCrawlsQuery {
    pub limit: Option<u8>,
    pub address: Option<String>,
    pub port: Option<u16>,
    pub version: Option<String>,
    pub protocol_version: Option<i32>,
    pub crawled_from: Option<i128>,
    pub crawled_to: Option<i128>,
}

/// A crawl listing query that is refused: a limit outside 1 to 100 (20
/// where none is named), an address of the wrong length, port 0, or a range
/// whose start does not precede its end.
pub open spec fn crawl_query_invalid(query: ListCrawlsQuery) -> bool {
    let limit = match query.limit {
        Some(l) => l,
        None => DEFAULT_CRAWLS_LIMIT,
    };
    ||| !(1 <= limit <= MAX_CRAWLS_LIMIT)
    ||| (query.address matches Some(a) && !address_ok(a@))
    ||| query.port == Some(0u16)
    ||| !valid_half_open_range(query.crawled_from, query.crawled_to)
}

/// The page size and cursor a crawl listing is read with, or why it is
/// refused: a key that may not read crawls (403); an invalid query or a
/// cursor that could not be read (400).
pub fn plan_list_crawls(
    api_key: &ApiKey,
    query: &ListCrawlsQuery,
    cursor: Option<Result<Cursor<i128, u128>, CursorError>>,
) -> (res: Result<(usize, Option<Cursor<i128, u128>>), Refusal>)
    ensures
        !grants(api_key.granted(), ApiKeyScope::CrawlsColonRead) ==> res is Err && res->Err_0
            == Refusal::Forbidden,
        grants(api_key.granted(), ApiKeyScope::CrawlsColonRead) ==> if crawl_query_invalid(*query)
            || (cursor matches Some(c) && c is Err) {
            res is Err && res->Err_0 == Refusal::Invalid
        } else {
            res matches Ok(page) && page.0 == (match query.limit {
                Some(l) => l,
                None => DEFAULT_CRAWLS_LIMIT,
            }) && match cursor {
                Some(Ok(c)) => page.1 == Some(c),
                _ => page.1 is None,
            }
        },
{
    if !can_read_crawls(api_key) {
        return Err(Refusal::Forbidden);
    }
    let limit = match query.limit {
        Some(l) => l,
        None => DEFAULT_CRAWLS_LIMIT,
    };
    let bad_address = match &query.address {
        Some(a) => {
            let n = char_vec(a.as_str()).len();
            !(1 <= n && n <= 255)
        },
        None => false,
    };
    let bad_range = match (query.crawled_from, query.crawled_to) {
        (Some(from), Some(to)) => from >= to,
        _ => false,
    };
    if !(1 <= limit && limit <= MAX_CRAWLS_LIMIT) || bad_address || query.port == Some(0u16)
        || bad_range {
        return Err(Refusal::Invalid);
    }
    match cursor {
        Some(Ok(c)) => Ok((limit as usize, Some(c))),
        Some(Err(_)) => Err(Refusal::Invalid),
        None => Ok((limit as usize, None)),
    }
}

/// The keys (crawl instant, identifier) of a page read with one row more
/// than `limit`, newest first: the extra row is dropped, and the page
/// continues after the last row kept.
pub fn crawl_page_cursor(rows: &mut Vec<(i128, u128)>, limit: usize) -> (res: Option<
    Cursor<i128, u128>,
>)
    requires
        !(limit == 0 && old(rows)@.len() == 1),
    ensures
        old(rows)@.len() <= limit ==> res is None && final(rows)@ == old(rows)@,
        old(rows)@.len() > limit ==> final(rows)@ == old(rows)@.drop_last() && res == Some(
            Cursor {
                value: old(rows)@[old(rows)@.len() - 2].0,
                tie_breaker: old(rows)@[old(rows)@.len() - 2].1,
            },
        ),
{
    if rows.len() <= limit {
        return None;
    }
    let _ = rows.pop();
    let last = rows[rows.len() - 1];
    Some(Cursor { value: last.0, tie_breaker: last.1 })
}

} // verus!
