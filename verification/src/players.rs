//! Player rules: who may read players and their Discord IDs, which records
//! a player listing keeps, how a partial update changes a record, how a
//! friendship is keyed, and what each player request is answered before the
//! database is asked.
use vstd::prelude::*;

use crate::auth::scope::{grants, grants_any};
use crate::filters::{in_half_open_range, matches_half_open_range};
use crate::models::{ApiKey, ApiKeyScope, Player, PlayerStatus, Refusal, status_named};
use crate::pagination::{Cursor, CursorError, take_next_cursor_id};
use crate::punishments::opt_view;
use crate::records::{PlayerRecord, is_empty_record, player_of};
use crate::text::text_eq;

verus! {

/// The page size when a player listing names none, and the largest allowed.
pub const DEFAULT_PLAYERS_LIMIT: u8 = 20;

pub const MAX_PLAYERS_LIMIT: u8 = 100;

/// How many times a transaction that hit a deadlock is tried in all.
pub const MAX_TRANSACTION_ATTEMPTS: usize = 3;

/// The scopes that allow reading players.
pub open spec fn player_read_scopes() -> Seq<ApiKeyScope> {
    seq![ApiKeyScope::PlayersColonRead, ApiKeyScope::PlayersColonReadDetails]
}

/// Whether a key may read players.
pub fn can_read_players(api_key: &ApiKey) -> (res: bool)
    ensures
        res == grants_any(api_key.granted(), player_read_scopes()),
{
    let scopes = [ApiKeyScope::PlayersColonRead, ApiKeyScope::PlayersColonReadDetails];
    proof {
        assert(scopes@ =~= player_read_scopes());
    }
    api_key.has_any_scope(&scopes)
}

/// Whether a key may read players' Discord IDs.
pub fn can_read_discord_id(api_key: &ApiKey) -> (res: bool)
    ensures
        res == grants(api_key.granted(), ApiKeyScope::PlayersColonReadDetails),
{
    api_key.has_scope(&ApiKeyScope::PlayersColonReadDetails)
}

/// The key of a friendship: its two players, the smaller UUID first.
pub open spec fn friendship_key(a: u128, b: u128) -> (u128, u128) {
    if a < b {
        (a, b)
    } else {
        (b, a)
    }
}

/// The key of the friendship of two players.
pub fn normalize_friendship(a: u128, b: u128) -> (res: (u128, u128))
    ensures
        res == friendship_key(a, b),
{
    if a < b {
        (a, b)
    } else {
        (b, a)
    }
}

/// Law: a friendship has one key whichever player it is asked for, and the
/// key holds the two players, smaller first.
pub proof fn lemma_friendship_key_symmetric(a: u128, b: u128)
    ensures
        friendship_key(a, b) == friendship_key(b, a),
        friendship_key(a, b).0 <= friendship_key(a, b).1,
        (friendship_key(a, b) == (a, b)) || (friendship_key(a, b) == (b, a)),
{
}

/// A player cursor as a request carries it, read from its text (`None`
/// where the request has none): it is refused where it could not be read or
/// where its two UUIDs differ.
pub fn decode_player_cursor(decoded: Option<Result<Cursor<u128, u128>, CursorError>>) -> (res: Result<
    Option<Cursor<u128, u128>>,
    (),
>)
    ensures
        match decoded {
            None => res == Ok::<Option<Cursor<u128, u128>>, ()>(None),
            Some(Err(_)) => res == Err::<Option<Cursor<u128, u128>>, ()>(()),
            Some(Ok(c)) => if c.value == c.tie_breaker {
                res == Ok::<Option<Cursor<u128, u128>>, ()>(Some(c))
            } else {
                res == Err::<Option<Cursor<u128, u128>>, ()>(())
            },
        },
{
    match decoded {
        None => Ok(None),
        Some(Ok(c)) => {
            if c.value == c.tie_breaker {
                Ok(Some(c))
            } else {
                Err(())
            }
        },
        Some(Err(_)) => Err(()),
    }
}

/// The UUID a page of player IDs read with one more than `limit` continues
/// after, where another page follows: the extra ID is dropped and the last
/// one kept is returned (the cursor carries it as both value and
/// tie-breaker).
pub fn take_next_cursor(ids: &mut Vec<u128>, limit: usize) -> (res: Option<u128>)
    requires
        !(limit == 0 && old(ids)@.len() == 1),
    ensures
        old(ids)@.len() <= limit ==> res is None && final(ids)@ == old(ids)@,
        old(ids)@.len() > limit ==> final(ids)@ == old(ids)@.drop_last() && res == Some(
            old(ids)@[old(ids)@.len() - 2],
        ),
{
    take_next_cursor_id(ids, limit)
}

/// The query of a player listing.
pub struct ListPlayersQuery {
    pub limit: Option<u8>,
    pub cursor: Option<String>,
    pub username: Option<String>,
    pub discord_id: Option<String>,
    pub status: Option<String>,
    pub current_server: Option<String>,
    pub current_locale: Option<String>,
    pub current_client_version: Option<String>,
    pub first_login_from: Option<i128>,
    pub first_login_to: Option<i128>,
    pub last_seen_from: Option<i128>,
    pub last_seen_to: Option<i128>,
}

/// A value passes an equality filter: there is no filter, or the value is
/// there and equal to it.
pub open spec fn passes(filter: Option<Seq<char>>, value: Option<Seq<char>>) -> bool {
    match filter {
        None => true,
        Some(f) => value == Some(f),
    }
}

pub open spec fn ref_view(value: Option<&str>) -> Option<Seq<char>> {
    match value {
        Some(s) => Some(s@),
        None => None,
    }
}

/// Whether a record belongs in a player listing: equal Discord ID, status,
/// server, locale and client version where the query names them, after the
/// cursor, and first login and last sighting within the query's ranges.
pub open spec fn record_matches(
    record: PlayerRecord,
    discord_id: Option<Seq<char>>,
    status: Option<Seq<char>>,
    cursor: Option<u128>,
    query: ListPlayersQuery,
) -> bool {
    &&& passes(discord_id, opt_view(record.discord_id))
    &&& passes(status, Some(record.status@))
    &&& passes(opt_view(query.current_server), opt_view(record.current_server))
    &&& passes(opt_view(query.current_locale), opt_view(record.current_locale))
    &&& passes(opt_view(query.current_client_version), opt_view(record.current_client_version))
    &&& (cursor matches Some(after) ==> record.id > after)
    &&& in_half_open_range(record.first_login_at, query.first_login_from, query.first_login_to)
    &&& in_half_open_range(record.last_seen_at, query.last_seen_from, query.last_seen_to)
}

fn passes_filter(filter: Option<&str>, value: &Option<String>) -> (res: bool)
    ensures
        res == passes(ref_view(filter), opt_view(*value)),
{
    match filter {
        None => true,
        Some(f) => match value {
            Some(v) => text_eq(v.as_str(), f),
            None => false,
        },
    }
}

fn as_deref(value: &Option<String>) -> (res: Option<&str>)
    ensures
        ref_view(res) == opt_view(*value),
{
    match value {
        Some(s) => Some(s.as_str()),
        None => None,
    }
}

impl PlayerRecord {
    /// Whether the record belongs in a player listing.
    pub fn matches_filters(
        &self,
        discord_id: Option<&str>,
        status: Option<&str>,
        cursor: Option<&Cursor<u128, u128>>,
        query_params: &ListPlayersQuery,
    ) -> (res: bool)
        ensures
            res == record_matches(
                *self,
                ref_view(discord_id),
                ref_view(status),
                match cursor {
                    Some(c) => Some(c.value),
                    None => None,
                },
                *query_params,
            ),
    {
        let status_ok = match status {
            None => true,
            Some(s) => text_eq(self.status.as_str(), s),
        };
        let cursor_ok = match cursor {
            None => true,
            Some(c) => self.id > c.value,
        };
        passes_filter(discord_id, &self.discord_id) && status_ok && passes_filter(
            as_deref(&query_params.current_server),
            &self.current_server,
        ) && passes_filter(as_deref(&query_params.current_locale), &self.current_locale)
            && passes_filter(
            as_deref(&query_params.current_client_version),
            &self.current_client_version,
        ) && cursor_ok && matches_half_open_range(
            self.first_login_at.as_ref(),
            query_params.first_login_from.as_ref(),
            query_params.first_login_to.as_ref(),
        ) && matches_half_open_range(
            self.last_seen_at.as_ref(),
            query_params.last_seen_from.as_ref(),
            query_params.last_seen_to.as_ref(),
        )
    }
}

/// How a player listing is read: the page size, the UUID to continue after,
/// the status filter in its canonical text, and whether Discord IDs are
/// shown.
pub struct PlayerListing {
    pub limit: usize,
    pub after: Option<u128>,
    pub status: Option<String>,
    pub with_details: bool,
}

/// The limit a query asks for, 20 where it names none.
pub open spec fn limit_of(limit: Option<u8>) -> u8 {
    match limit {
        Some(l) => l,
        None => DEFAULT_PLAYERS_LIMIT,
    }
}

/// A cursor that could not be read, or whose UUIDs differ.
pub open spec fn bad_player_cursor(cursor: Option<Result<Cursor<u128, u128>, CursorError>>) -> bool {
    match cursor {
        None => false,
        Some(Err(_)) => true,
        Some(Ok(c)) => c.value != c.tie_breaker,
    }
}

/// How a player listing is read, or why it is refused: a key that may not
/// read players, or asks for Discord IDs it may not read (403); then a limit
/// outside 1 to 100, a bad cursor, or an unknown status (400).
pub fn plan_list_players(
    api_key: &ApiKey,
    query: &ListPlayersQuery,
    cursor: Option<Result<Cursor<u128, u128>, CursorError>>,
) -> (res: Result<PlayerListing, Refusal>)
    ensures
        !grants_any(api_key.granted(), player_read_scopes()) || (query.discord_id is Some && !grants(
            api_key.granted(),
            ApiKeyScope::PlayersColonReadDetails,
        )) ==> res == Err::<PlayerListing, Refusal>(Refusal::Forbidden),
        grants_any(api_key.granted(), player_read_scopes()) && !(query.discord_id is Some && !grants(
            api_key.granted(),
            ApiKeyScope::PlayersColonReadDetails,
        )) ==> if !(1 <= limit_of(query.limit) <= MAX_PLAYERS_LIMIT) || bad_player_cursor(cursor)
            || (query.status matches Some(s) && status_named(s@) is None) {
            res == Err::<PlayerListing, Refusal>(Refusal::Invalid)
        } else {
            res matches Ok(plan) && plan.limit == limit_of(query.limit) && plan.after == (
            match cursor {
                Some(Ok(c)) => Some(c.value),
                _ => None,
            }) && opt_view(plan.status) == opt_view(query.status) && plan.with_details == grants(
                api_key.granted(),
                ApiKeyScope::PlayersColonReadDetails,
            )
        },
{
    if !can_read_players(api_key) {
        return Err(Refusal::Forbidden);
    }
    let with_details = can_read_discord_id(api_key);
    if query.discord_id.is_some() && !with_details {
        return Err(Refusal::Forbidden);
    }
    let limit = match query.limit {
        Some(l) => l,
        None => DEFAULT_PLAYERS_LIMIT,
    };
    if !(1 <= limit && limit <= MAX_PLAYERS_LIMIT) {
        return Err(Refusal::Invalid);
    }
    let after = match decode_player_cursor(cursor) {
        Ok(Some(c)) => Some(c.value),
        Ok(None) => None,
        Err(()) => return Err(Refusal::Invalid),
    };
    let status = match &query.status {
        Some(s) => match PlayerStatus::parse(s.as_str()) {
            Some(status) => Some(status.to_text()),
            None => return Err(Refusal::Invalid),
        },
        None => None,
    };
    Ok(PlayerListing { limit: limit as usize, after, status, with_details })
}

/// The page size and UUID to continue after of a listing of a player's
/// friends or friend requests, or `Invalid` for a limit outside 1 to 100 or
/// a bad cursor.
pub fn plan_related_page(
    limit: Option<u8>,
    cursor: Option<Result<Cursor<u128, u128>, CursorError>>,
) -> (res: Result<(usize, Option<u128>), Refusal>)
    ensures
        !(1 <= limit_of(limit) <= MAX_PLAYERS_LIMIT) || bad_player_cursor(cursor) ==> res == Err::<
            (usize, Option<u128>),
            Refusal,
        >(Refusal::Invalid),
        (1 <= limit_of(limit) <= MAX_PLAYERS_LIMIT) && !bad_player_cursor(cursor) ==> res == Ok::<
            (usize, Option<u128>),
            Refusal,
        >(
            (
                limit_of(limit) as usize,
                match cursor {
                    Some(Ok(c)) => Some(c.value),
                    _ => None,
                },
            ),
        ),
{
    let limit = match limit {
        Some(l) => l,
        None => DEFAULT_PLAYERS_LIMIT,
    };
    if !(1 <= limit && limit <= MAX_PLAYERS_LIMIT) {
        return Err(Refusal::Invalid);
    }
    match decode_player_cursor(cursor) {
        Ok(Some(c)) => Ok((limit as usize, Some(c.value))),
        Ok(None) => Ok((limit as usize, None)),
        Err(()) => Err(Refusal::Invalid),
    }
}


/// The body of a request to change what the server knows of a player. An
/// outer `None` leaves a field as it is; `Some(None)` clears it.
pub struct UpdatePlayerRequest {
    pub discord_id: Option<Option<String>>,
    pub bio: Option<Option<String>>,
    pub status: Option<String>,
    pub current_server: Option<Option<String>>,
    pub current_locale: Option<Option<String>>,
    pub current_client_version: Option<Option<String>>,
    pub first_login_at: Option<Option<i128>>,
    pub last_seen_at: Option<Option<i128>>,
}

/// A change that changes nothing.
pub open spec fn changes_nothing(body: UpdatePlayerRequest) -> bool {
    body.discord_id is None && body.bio is None && body.status is None && body.current_server
        is None && body.current_locale is None && body.current_client_version is None
        && body.first_login_at is None && body.last_seen_at is None
}

/// A bio of a length outside 1 to 160 characters.
pub open spec fn bad_bio(bio: Option<Option<String>>) -> bool {
    bio matches Some(Some(b)) && !(1 <= b@.len() <= 160)
}

fn char_count(s: &str) -> (res: usize)
    ensures
        res == s@.len(),
{
    crate::text::char_vec(s).len()
}

/// The canonical status text a change sets, or why it is refused: a key
/// that may not write players (403); then a change that changes nothing, an
/// unknown status, or a bio of the wrong length (400).
pub fn plan_update_player(api_key: &ApiKey, body: &UpdatePlayerRequest) -> (res: Result<
    Option<String>,
    Refusal,
>)
    ensures
        !grants(api_key.granted(), ApiKeyScope::PlayersColonWrite) ==> res == Err::<
            Option<String>,
            Refusal,
        >(Refusal::Forbidden),
        grants(api_key.granted(), ApiKeyScope::PlayersColonWrite) ==> if changes_nothing(*body)
            || (body.status matches Some(s) && status_named(s@) is None) || bad_bio(body.bio) {
            res == Err::<Option<String>, Refusal>(Refusal::Invalid)
        } else {
            res matches Ok(status) && opt_view(status) == opt_view(body.status)
        },
{
    if !api_key.has_scope(&ApiKeyScope::PlayersColonWrite) {
        return Err(Refusal::Forbidden);
    }
    if body.discord_id.is_none() && body.bio.is_none() && body.status.is_none()
        && body.current_server.is_none() && body.current_locale.is_none()
        && body.current_client_version.is_none() && body.first_login_at.is_none()
        && body.last_seen_at.is_none() {
        return Err(Refusal::Invalid);
    }
    let status = match &body.status {
        Some(s) => match PlayerStatus::parse(s.as_str()) {
            Some(status) => Some(status.to_text()),
            None => return Err(Refusal::Invalid),
        },
        None => None,
    };
    let bad = match &body.bio {
        Some(Some(bio)) => {
            let n = char_count(bio.as_str());
            !(1 <= n && n <= 160)
        },
        _ => false,
    };
    if bad {
        return Err(Refusal::Invalid);
    }
    Ok(status)
}

/// A column an update of a player writes, with its new value.
pub enum PlayerColumn {
    DiscordId(Option<String>),
    Bio(Option<String>),
    Status(String),
    CurrentServer(Option<String>),
    CurrentLocale(Option<String>),
    CurrentClientVersion(Option<String>),
    FirstLoginAt(Option<i128>),
    LastSeenAt(Option<i128>),
}

/// One column, or none.
pub open spec fn opt_column(column: Option<PlayerColumn>) -> Seq<PlayerColumn> {
    match column {
        Some(c) => seq![c],
        None => Seq::empty(),
    }
}

pub open spec fn discord_column(body: UpdatePlayerRequest) -> Option<PlayerColumn> {
    match body.discord_id {
        Some(v) => Some(PlayerColumn::DiscordId(v)),
        None => None,
    }
}

pub open spec fn bio_column(body: UpdatePlayerRequest) -> Option<PlayerColumn> {
    match body.bio {
        Some(v) => Some(PlayerColumn::Bio(v)),
        None => None,
    }
}

pub open spec fn status_column(status: Option<String>) -> Option<PlayerColumn> {
    match status {
        Some(v) => Some(PlayerColumn::Status(v)),
        None => None,
    }
}

pub open spec fn server_column(body: UpdatePlayerRequest) -> Option<PlayerColumn> {
    match body.current_server {
        Some(v) => Some(PlayerColumn::CurrentServer(v)),
        None => None,
    }
}

pub open spec fn locale_column(body: UpdatePlayerRequest) -> Option<PlayerColumn> {
    match body.current_locale {
        Some(v) => Some(PlayerColumn::CurrentLocale(v)),
        None => None,
    }
}

pub open spec fn version_column(body: UpdatePlayerRequest) -> Option<PlayerColumn> {
    match body.current_client_version {
        Some(v) => Some(PlayerColumn::CurrentClientVersion(v)),
        None => None,
    }
}

pub open spec fn first_login_column(body: UpdatePlayerRequest) -> Option<PlayerColumn> {
    match body.first_login_at {
        Some(v) => Some(PlayerColumn::FirstLoginAt(v)),
        None => None,
    }
}

pub open spec fn last_seen_column(body: UpdatePlayerRequest) -> Option<PlayerColumn> {
    match body.last_seen_at {
        Some(v) => Some(PlayerColumn::LastSeenAt(v)),
        None => None,
    }
}

/// The columns an update writes, in the order of the table: exactly the
/// fields the change gives, the status as its canonical text.
pub open spec fn columns_of(body: UpdatePlayerRequest, status: Option<String>) -> Seq<PlayerColumn> {
    opt_column(discord_column(body)) + opt_column(bio_column(body)) + opt_column(
        status_column(status),
    ) + opt_column(server_column(body)) + opt_column(locale_column(body)) + opt_column(
        version_column(body),
    ) + opt_column(first_login_column(body)) + opt_column(last_seen_column(body))
}

fn clone_text(value: &Option<String>) -> (res: Option<String>)
    ensures
        res == *value,
{
    match value {
        Some(s) => Some(s.clone()),
        None => None,
    }
}

fn push_column(columns: &mut Vec<PlayerColumn>, column: Option<PlayerColumn>)
    ensures
        final(columns)@ == old(columns)@ + opt_column(column),
{
    match column {
        Some(c) => {
            columns.push(c);
            proof {
                assert(final(columns)@ =~= old(columns)@ + seq![c]);
            }
        },
        None => {
            proof {
                assert(old(columns)@ + Seq::<PlayerColumn>::empty() =~= old(columns)@);
            }
        },
    }
}

/// The columns the upsert of a change writes (`status` is the canonical
/// status text the change sets, if any).
pub fn upsert_columns(body: &UpdatePlayerRequest, status: Option<String>) -> (res: Vec<
    PlayerColumn,
>)
    ensures
        res@ == columns_of(*body, status),
{
    let mut columns: Vec<PlayerColumn> = Vec::new();
    push_column(
        &mut columns,
        match &body.discord_id {
            Some(v) => Some(PlayerColumn::DiscordId(clone_text(v))),
            None => None,
        },
    );
    push_column(
        &mut columns,
        match &body.bio {
            Some(v) => Some(PlayerColumn::Bio(clone_text(v))),
            None => None,
        },
    );
    push_column(
        &mut columns,
        match status {
            Some(v) => Some(PlayerColumn::Status(v)),
            None => None,
        },
    );
    push_column(
        &mut columns,
        match &body.current_server {
            Some(v) => Some(PlayerColumn::CurrentServer(clone_text(v))),
            None => None,
        },
    );
    push_column(
        &mut columns,
        match &body.current_locale {
            Some(v) => Some(PlayerColumn::CurrentLocale(clone_text(v))),
            None => None,
        },
    );
    push_column(
        &mut columns,
        match &body.current_client_version {
            Some(v) => Some(PlayerColumn::CurrentClientVersion(clone_text(v))),
            None => None,
        },
    );
    push_column(
        &mut columns,
        match body.first_login_at {
            Some(v) => Some(PlayerColumn::FirstLoginAt(v)),
            None => None,
        },
    );
    push_column(
        &mut columns,
        match body.last_seen_at {
            Some(v) => Some(PlayerColumn::LastSeenAt(v)),
            None => None,
        },
    );
    proof {
        assert(columns@ =~= columns_of(*body, status));
    }
    columns
}

/// A record with one column written.
pub open spec fn apply_column(r: PlayerRecord, column: PlayerColumn) -> PlayerRecord {
    match column {
        PlayerColumn::DiscordId(v) => PlayerRecord { discord_id: v, ..r },
        PlayerColumn::Bio(v) => PlayerRecord { bio: v, ..r },
        PlayerColumn::Status(v) => PlayerRecord { status: v, ..r },
        PlayerColumn::CurrentServer(v) => PlayerRecord { current_server: v, ..r },
        PlayerColumn::CurrentLocale(v) => PlayerRecord { current_locale: v, ..r },
        PlayerColumn::CurrentClientVersion(v) => PlayerRecord { current_client_version: v, ..r },
        PlayerColumn::FirstLoginAt(v) => PlayerRecord { first_login_at: v, ..r },
        PlayerColumn::LastSeenAt(v) => PlayerRecord { last_seen_at: v, ..r },
    }
}

/// A record with columns written one after the other, as the upsert's
/// `ON DUPLICATE KEY UPDATE` writes them over the row it finds (or over the
/// empty record where there is none).
pub open spec fn apply_columns(r: PlayerRecord, columns: Seq<PlayerColumn>) -> PlayerRecord
    decreases columns.len(),
{
    if columns.len() == 0 {
        r
    } else {
        apply_columns(apply_column(r, columns[0]), columns.drop_first())
    }
}

pub open spec fn given<T>(value: Option<T>, old: T) -> T {
    match value {
        Some(v) => v,
        None => old,
    }
}

/// A record after a change: each field the change gives replaced, every
/// other field kept.
pub open spec fn updated_record(r: PlayerRecord, body: UpdatePlayerRequest, status: Option<String>) -> PlayerRecord {
    PlayerRecord {
        id: r.id,
        discord_id: given(body.discord_id, r.discord_id),
        bio: given(body.bio, r.bio),
        status: given(status, r.status),
        current_server: given(body.current_server, r.current_server),
        current_locale: given(body.current_locale, r.current_locale),
        current_client_version: given(body.current_client_version, r.current_client_version),
        first_login_at: given(body.first_login_at, r.first_login_at),
        last_seen_at: given(body.last_seen_at, r.last_seen_at),
    }
}

proof fn lemma_apply_columns_concat(r: PlayerRecord, a: Seq<PlayerColumn>, b: Seq<PlayerColumn>)
    ensures
        apply_columns(r, a + b) == apply_columns(apply_columns(r, a), b),
    decreases a.len(),
{
    if a.len() == 0 {
        assert(a + b =~= b);
    } else {
        assert((a + b).drop_first() =~= a.drop_first() + b);
        lemma_apply_columns_concat(apply_column(r, a[0]), a.drop_first(), b);
    }
}

proof fn lemma_apply_one(r: PlayerRecord, column: Option<PlayerColumn>)
    ensures
        apply_columns(r, opt_column(column)) == (match column {
            Some(c) => apply_column(r, c),
            None => r,
        }),
{
    if let Some(c) = column {
        let s = seq![c];
        assert(s.drop_first() =~= Seq::<PlayerColumn>::empty());
        assert(apply_columns(apply_column(r, c), Seq::<PlayerColumn>::empty()) == apply_column(r, c));
    }
}

/// Law: the upsert of a change writes exactly the fields the change gives
/// and keeps every other field of the row.
pub proof fn lemma_upsert_keeps_other_fields(
    r: PlayerRecord,
    body: UpdatePlayerRequest,
    status: Option<String>,
)
    ensures
        apply_columns(r, columns_of(body, status)) == updated_record(r, body, status),
{
    let c1 = opt_column(discord_column(body));
    let c2 = opt_column(bio_column(body));
    let c3 = opt_column(status_column(status));
    let c4 = opt_column(server_column(body));
    let c5 = opt_column(locale_column(body));
    let c6 = opt_column(version_column(body));
    let c7 = opt_column(first_login_column(body));
    let c8 = opt_column(last_seen_column(body));
    lemma_apply_columns_concat(r, c1 + c2 + c3 + c4 + c5 + c6 + c7, c8);
    lemma_apply_columns_concat(r, c1 + c2 + c3 + c4 + c5 + c6, c7);
    lemma_apply_columns_concat(r, c1 + c2 + c3 + c4 + c5, c6);
    lemma_apply_columns_concat(r, c1 + c2 + c3 + c4, c5);
    lemma_apply_columns_concat(r, c1 + c2 + c3, c4);
    lemma_apply_columns_concat(r, c1 + c2, c3);
    lemma_apply_columns_concat(r, c1, c2);
    let r1 = apply_columns(r, c1);
    let r2 = apply_columns(r1, c2);
    let r3 = apply_columns(r2, c3);
    let r4 = apply_columns(r3, c4);
    let r5 = apply_columns(r4, c5);
    let r6 = apply_columns(r5, c6);
    let r7 = apply_columns(r6, c7);
    lemma_apply_one(r, discord_column(body));
    lemma_apply_one(r1, bio_column(body));
    lemma_apply_one(r2, status_column(status));
    lemma_apply_one(r3, server_column(body));
    lemma_apply_one(r4, locale_column(body));
    lemma_apply_one(r5, version_column(body));
    lemma_apply_one(r6, first_login_column(body));
    lemma_apply_one(r7, last_seen_column(body));
}

/// The fields a change gives, as a set of column positions.
pub open spec fn touched(body: UpdatePlayerRequest, status: Option<String>) -> Set<int> {
    Set::new(
        |i: int|
            (i == 0 && body.discord_id is Some) || (i == 1 && body.bio is Some) || (i == 2
                && status is Some) || (i == 3 && body.current_server is Some) || (i == 4
                && body.current_locale is Some) || (i == 5 && body.current_client_version is Some)
                || (i == 6 && body.first_login_at is Some) || (i == 7 && body.last_seen_at is Some),
    )
}

/// Law: two changes that give different fields leave the same record in
/// whichever order they are written, so concurrent partial updates of a
/// player keep every field each of them sets.
pub proof fn lemma_disjoint_updates_commute(
    r: PlayerRecord,
    first: UpdatePlayerRequest,
    first_status: Option<String>,
    second: UpdatePlayerRequest,
    second_status: Option<String>,
)
    requires
        touched(first, first_status).disjoint(touched(second, second_status)),
    ensures
        updated_record(updated_record(r, first, first_status), second, second_status)
            == updated_record(updated_record(r, second, second_status), first, first_status),
{
    let a = touched(first, first_status);
    let b = touched(second, second_status);
    assert(!(a.contains(0) && b.contains(0)));
    assert(!(a.contains(1) && b.contains(1)));
    assert(!(a.contains(2) && b.contains(2)));
    assert(!(a.contains(3) && b.contains(3)));
    assert(!(a.contains(4) && b.contains(4)));
    assert(!(a.contains(5) && b.contains(5)));
    assert(!(a.contains(6) && b.contains(6)));
    assert(!(a.contains(7) && b.contains(7)));
}


/// A change to friendships or friend requests.
#[derive(Clone, Copy, Debug, PartialEq, Eq, Structural)]
pub enum FriendAction {
    AcceptRequest,
    AddFriend,
    AddRequest,
    RejectRequest,
    RemoveFriend,
    RemoveRequest,
}

/// What a change to friendships is refused before anything is read: a key
/// that may not write players (403); then a player named twice, which is
/// invalid for adding or removing a friend and a conflict for a friend
/// request (a player is taken to be their own friend already).
pub open spec fn friend_write_refusal(
    key: ApiKey,
    action: FriendAction,
    player_id: u128,
    other_id: u128,
) -> Option<Refusal> {
    if !grants(key.granted(), ApiKeyScope::PlayersColonWrite) {
        Some(Refusal::Forbidden)
    } else if player_id == other_id && (action == FriendAction::AddFriend || action
        == FriendAction::RemoveFriend) {
        Some(Refusal::Invalid)
    } else if player_id == other_id && action == FriendAction::AddRequest {
        Some(Refusal::Conflict)
    } else {
        None
    }
}

/// Whether a change to friendships may go on to the database.
pub fn plan_friend_write(
    api_key: &ApiKey,
    action: FriendAction,
    player_id: u128,
    other_id: u128,
) -> (res: Result<(), Refusal>)
    ensures
        match friend_write_refusal(*api_key, action, player_id, other_id) {
            Some(r) => res == Err::<(), Refusal>(r),
            None => res == Ok::<(), Refusal>(()),
        },
{
    if !api_key.has_scope(&ApiKeyScope::PlayersColonWrite) {
        return Err(Refusal::Forbidden);
    }
    if player_id == other_id {
        match action {
            FriendAction::AddFriend | FriendAction::RemoveFriend => return Err(Refusal::Invalid),
            FriendAction::AddRequest => return Err(Refusal::Conflict),
            _ => {},
        }
    }
    Ok(())
}

/// Which friend requests a new friendship removes: the one request it
/// accepts, or the requests in both directions when a friend is added
/// directly.
#[derive(Clone, Copy, Debug, PartialEq, Eq, Structural)]
pub enum FriendRequestDeletion {
    RequiredDirection,
    BothDirections,
}

/// How writing a friendship ended.
#[derive(Clone, Copy, Debug, PartialEq, Eq, Structural)]
pub enum FriendshipWriteOutcome {
    Created,
    RequestNotFound,
    AlreadyExists,
}

/// The friend requests (receiver, sender) a new friendship deletes, in the
/// order they are deleted: for both directions, the friendship key's order
/// first, so that concurrent writers lock the rows in one order.
pub open spec fn request_rows_to_delete(
    deletion: FriendRequestDeletion,
    player_id: u128,
    other_id: u128,
) -> Seq<(u128, u128)> {
    match deletion {
        FriendRequestDeletion::RequiredDirection => seq![(player_id, other_id)],
        FriendRequestDeletion::BothDirections => {
            let (first, second) = friendship_key(player_id, other_id);
            seq![(first, second), (second, first)]
        },
    }
}

/// The friend requests a new friendship deletes.
pub fn friend_requests_to_delete(
    deletion: FriendRequestDeletion,
    player_id: u128,
    other_id: u128,
) -> (res: Vec<(u128, u128)>)
    ensures
        res@ == request_rows_to_delete(deletion, player_id, other_id),
{
    match deletion {
        FriendRequestDeletion::RequiredDirection => vec![(player_id, other_id)],
        FriendRequestDeletion::BothDirections => {
            let (first, second) = normalize_friendship(player_id, other_id);
            vec![(first, second), (second, first)]
        },
    }
}

/// What follows the deletion of friend requests: the friendship row
/// (smaller UUID first) is inserted, or, where the accepted request was not
/// there, the write ends.
pub enum FriendshipStep {
    Insert(u128, u128),
    Finish(FriendshipWriteOutcome),
}

/// The step after deleting `deleted` friend requests.
pub fn after_request_deletion(
    deletion: FriendRequestDeletion,
    deleted: u64,
    player_id: u128,
    other_id: u128,
) -> (res: FriendshipStep)
    ensures
        deletion == FriendRequestDeletion::RequiredDirection && deleted == 0 ==> res
            == FriendshipStep::Finish(FriendshipWriteOutcome::RequestNotFound),
        !(deletion == FriendRequestDeletion::RequiredDirection && deleted == 0) ==> res
            == FriendshipStep::Insert(
            friendship_key(player_id, other_id).0,
            friendship_key(player_id, other_id).1,
        ),
{
    if deletion == FriendRequestDeletion::RequiredDirection && deleted == 0 {
        return FriendshipStep::Finish(FriendshipWriteOutcome::RequestNotFound);
    }
    let (first, second) = normalize_friendship(player_id, other_id);
    FriendshipStep::Insert(first, second)
}

/// How the write ends after inserting the friendship row: a row already
/// there (a unique-key violation) means the players are friends already.
pub fn after_friendship_insert(unique_violation: bool) -> (res: FriendshipWriteOutcome)
    ensures
        res == (if unique_violation {
            FriendshipWriteOutcome::AlreadyExists
        } else {
            FriendshipWriteOutcome::Created
        }),
{
    if unique_violation {
        FriendshipWriteOutcome::AlreadyExists
    } else {
        FriendshipWriteOutcome::Created
    }
}

/// Whether a transaction is tried again: only after a deadlock, and at most
/// three times in all.
pub fn should_retry(deadlock: bool, attempt: usize) -> (res: bool)
    ensures
        res == (deadlock && attempt < MAX_TRANSACTION_ATTEMPTS),
{
    deadlock && attempt < MAX_TRANSACTION_ATTEMPTS
}

/// Whether an error the database reported is a deadlock: MySQL error 1213
/// with SQL state 40001.
pub fn is_deadlock(number: u16, code: Option<&str>) -> (res: bool)
    ensures
        res == (number == 1213 && (code matches Some(c) && c@ == "40001"@)),
{
    match code {
        Some(c) => number == 1213 && text_eq(c, "40001"),
        None => false,
    }
}

/// The index of the last record with this UUID, or -1.
pub open spec fn last_record_index(records: Seq<PlayerRecord>, id: u128) -> int
    decreases records.len(),
{
    if records.len() == 0 {
        -1
    } else if records.last().id == id {
        records.len() - 1
    } else {
        last_record_index(records.drop_last(), id)
    }
}

proof fn lemma_last_record_index(records: Seq<PlayerRecord>, id: u128)
    ensures
        -1 <= last_record_index(records, id) < records.len(),
        last_record_index(records, id) >= 0 ==> records[last_record_index(records, id)].id == id,
        last_record_index(records, id) < 0 ==> forall|k: int|
            0 <= k < records.len() ==> #[trigger] records[k].id != id,
    decreases records.len(),
{
    if records.len() > 0 && records.last().id != id {
        lemma_last_record_index(records.drop_last(), id);
        if last_record_index(records, id) < 0 {
            assert forall|k: int| 0 <= k < records.len() implies #[trigger] records[k].id != id by {
                if k < records.len() - 1 {
                    assert(records[k] == records.drop_last()[k]);
                }
            }
        }
    }
}

/// The UUID at `i` already came earlier in the list.
pub open spec fn repeated(ids: Seq<u128>, i: int) -> bool {
    exists|j: int| 0 <= j < i && ids[j] == ids[i]
}

/// The record the player at `i` of a listing is shown from: the last row
/// read for its UUID, unless that UUID came earlier (its row is used up
/// then), and an empty record where there is no row.
pub open spec fn shown_from(
    ids: Seq<u128>,
    records: Seq<PlayerRecord>,
    i: int,
    record: PlayerRecord,
) -> bool {
    if !repeated(ids, i) && last_record_index(records, ids[i]) >= 0 {
        record == records[last_record_index(records, ids[i])]
    } else {
        is_empty_record(record, ids[i])
    }
}

fn copy_text(value: &Option<String>) -> (res: Option<String>)
    ensures
        res == *value,
{
    match value {
        Some(s) => Some(s.clone()),
        None => None,
    }
}

fn copy_record(record: &PlayerRecord) -> (res: PlayerRecord)
    ensures
        res == *record,
{
    PlayerRecord {
        id: record.id,
        discord_id: copy_text(&record.discord_id),
        bio: copy_text(&record.bio),
        status: record.status.clone(),
        current_server: copy_text(&record.current_server),
        current_locale: copy_text(&record.current_locale),
        current_client_version: copy_text(&record.current_client_version),
        first_login_at: record.first_login_at,
        last_seen_at: record.last_seen_at,
    }
}

/// The players of a listing, one slot per UUID in the listing's order: the
/// slot of a UUID without a profile is empty; otherwise the player is shown
/// under the profile's username from its record.
pub fn assemble_players(
    ids: &[u128],
    records: &[PlayerRecord],
    usernames: Vec<Option<String>>,
    with_details: bool,
) -> (res: Vec<Option<Player>>)
    requires
        usernames@.len() == ids@.len(),
    ensures
        res@.len() == ids@.len(),
        forall|i: int|
            0 <= i < ids@.len() ==> match #[trigger] usernames@[i] {
                None => res@[i] is None,
                Some(name) => res@[i] matches Some(p) && exists|r: PlayerRecord|
                    shown_from(ids@, records@, i, r) && p == player_of(r, name, with_details),
            },
{
    let mut out: Vec<Option<Player>> = Vec::new();
    let mut i: usize = 0;
    while i < ids.len()
        invariant
            usernames@.len() == ids@.len(),
            i <= ids@.len(),
            out@.len() == i,
            forall|k: int|
                0 <= k < i ==> match #[trigger] usernames@[k] {
                    None => out@[k] is None,
                    Some(name) => out@[k] matches Some(p) && exists|r: PlayerRecord|
                        shown_from(ids@, records@, k, r) && p == player_of(r, name, with_details),
                },
        decreases ids@.len() - i,
    {
        let id = ids[i];
        match &usernames[i] {
            None => {
                out.push(None);
            },
            Some(name) => {
                let mut earlier = false;
                let mut j: usize = 0;
                while j < i
                    invariant
                        i < ids@.len(),
                        id == ids@[i as int],
                        j <= i,
                        earlier == exists|q: int| 0 <= q < j && ids@[q] == ids@[i as int],
                    decreases i - j,
                {
                    if ids[j] == id {
                        earlier = true;
                    }
                    j = j + 1;
                }
                let mut found: Option<usize> = None;
                let mut k: usize = records.len();
                proof {
                    assert(records@.take(k as int) =~= records@);
                    assert(records@.take(0) =~= Seq::<PlayerRecord>::empty());
                }
                while k > 0
                    invariant_except_break
                        k <= records@.len(),
                        found is None,
                        last_record_index(records@, id) == last_record_index(
                            records@.take(k as int),
                            id,
                        ),
                    ensures
                        found matches Some(f) ==> f == last_record_index(records@, id),
                        found is None ==> last_record_index(records@, id) == -1,
                    decreases k,
                {
                    proof {
                        assert(records@.take(k as int).drop_last() =~= records@.take(k - 1));
                        assert(records@.take(k as int).last() == records@[k - 1]);
                    }
                    if records[k - 1].id == id {
                        found = Some(k - 1);
                        break;
                    }
                    k = k - 1;
                }
                proof {
                    if k == 0 {
                        assert(records@.take(0) =~= Seq::<PlayerRecord>::empty());
                    }
                    lemma_last_record_index(records@, id);
                }
                let record = match found {
                    Some(f) => {
                        if earlier {
                            PlayerRecord::empty(id)
                        } else {
                            copy_record(&records[f])
                        }
                    },
                    None => PlayerRecord::empty(id),
                };
                let player = record.into_player(name.clone(), with_details);
                proof {
                    assert(shown_from(ids@, records@, i as int, record));
                }
                out.push(Some(player));
            },
        }
        i = i + 1;
    }
    out
}

/// The players present in a list of slots, in order.
pub open spec fn present_players(slots: Seq<Option<Player>>) -> Seq<Player>
    decreases slots.len(),
{
    if slots.len() == 0 {
        Seq::empty()
    } else {
        let rest = present_players(slots.drop_last());
        match slots.last() {
            Some(p) => rest.push(p),
            None => rest,
        }
    }
}

/// The players present in a list of slots, in order.
pub fn flatten_players(slots: Vec<Option<Player>>) -> (res: Vec<Player>)
    ensures
        res@ == present_players(slots@),
{
    let ghost all = slots@;
    let mut out: Vec<Player> = Vec::new();
    for slot in it: slots.into_iter()
        invariant
            it.seq() == all,
            out@ == present_players(all.take(it.index() as int)),
    {
        proof {
            assert(all.take(it.index() + 1).drop_last() =~= all.take(it.index() as int));
            assert(all.take(it.index() + 1).last() == slot);
        }
        match slot {
            Some(p) => out.push(p),
            None => {},
        }
    }
    proof {
        assert(all.take(all.len() as int) =~= all);
    }
    out
}


/// Law: a record a listing keeps agrees with every filter the listing
/// names: the Discord ID, the status, the current server, locale and client
/// version equal the ones asked for, the record comes after the cursor, and
/// its first login and last sighting lie in the ranges asked for. A record
/// that agrees with all of them is kept.
pub proof fn lemma_listed_records_match_query(
    record: PlayerRecord,
    discord_id: Option<Seq<char>>,
    status: Option<Seq<char>>,
    cursor: Option<u128>,
    query: ListPlayersQuery,
)
    ensures
        record_matches(record, discord_id, status, cursor, query) ==> {
            &&& (discord_id matches Some(d) ==> record.discord_id matches Some(x) && x@ == d)
            &&& (status matches Some(s) ==> record.status@ == s)
            &&& (query.current_server matches Some(v) ==> record.current_server matches Some(x)
                && x@ == v@)
            &&& (query.current_locale matches Some(v) ==> record.current_locale matches Some(x)
                && x@ == v@)
            &&& (query.current_client_version matches Some(v)
                ==> record.current_client_version matches Some(x) && x@ == v@)
            &&& (cursor matches Some(after) ==> record.id > after)
            &&& (query.first_login_from matches Some(f) ==> record.first_login_at matches Some(t)
                && f <= t)
            &&& (query.first_login_to matches Some(e) ==> record.first_login_at matches Some(t) && t
                < e)
            &&& (query.last_seen_from matches Some(f) ==> record.last_seen_at matches Some(t) && f
                <= t)
            &&& (query.last_seen_to matches Some(e) ==> record.last_seen_at matches Some(t) && t < e)
        },
        ({
            &&& (discord_id matches Some(d) ==> record.discord_id matches Some(x) && x@ == d)
            &&& (status matches Some(s) ==> record.status@ == s)
            &&& (query.current_server matches Some(v) ==> record.current_server matches Some(x)
                && x@ == v@)
            &&& (query.current_locale matches Some(v) ==> record.current_locale matches Some(x)
                && x@ == v@)
            &&& (query.current_client_version matches Some(v)
                ==> record.current_client_version matches Some(x) && x@ == v@)
            &&& (cursor matches Some(after) ==> record.id > after)
            &&& (query.first_login_from matches Some(f) ==> record.first_login_at matches Some(t)
                && f <= t)
            &&& (query.first_login_to matches Some(e) ==> record.first_login_at matches Some(t) && t
                < e)
            &&& (query.last_seen_from matches Some(f) ==> record.last_seen_at matches Some(t) && f
                <= t)
            &&& (query.last_seen_to matches Some(e) ==> record.last_seen_at matches Some(t) && t < e)
        }) ==> record_matches(record, discord_id, status, cursor, query),
{
}

} // verus!
