//! The API's data as the library reads it: API keys and their scopes,
//! players, crawls, patch notes, punishments and proofs. Identifiers of
//! players, crawls and patch notes are UUIDs held as their 128-bit big-endian
//! value; instants are nanoseconds since the Unix epoch.
use vstd::prelude::*;

use crate::text::text_eq;

verus! {

/// A scope an API key can be granted.
#[derive(Clone, Copy, Debug, PartialEq, Eq, Structural)]
pub enum ApiKeyScope {
    Star,
    ApiKeysColonRead,
    ApiKeysColonWrite,
    CrawlsColonRead,
    CrawlsColonWrite,
    PatchNotesColonRead,
    PatchNotesColonWrite,
    PlayersColonRead,
    PlayersColonReadDetails,
    PlayersColonWrite,
    PunishmentsColonRead,
    PunishmentsColonWrite,
    StreamColonRead,
}

/// The text of a scope, as API keys store it.
pub open spec fn scope_name(scope: ApiKeyScope) -> Seq<char> {
    match scope {
        ApiKeyScope::Star => "*"@,
        ApiKeyScope::ApiKeysColonRead => "api-keys:read"@,
        ApiKeyScope::ApiKeysColonWrite => "api-keys:write"@,
        ApiKeyScope::CrawlsColonRead => "crawls:read"@,
        ApiKeyScope::CrawlsColonWrite => "crawls:write"@,
        ApiKeyScope::PatchNotesColonRead => "patch-notes:read"@,
        ApiKeyScope::PatchNotesColonWrite => "patch-notes:write"@,
        ApiKeyScope::PlayersColonRead => "players:read"@,
        ApiKeyScope::PlayersColonReadDetails => "players:read-details"@,
        ApiKeyScope::PlayersColonWrite => "players:write"@,
        ApiKeyScope::PunishmentsColonRead => "punishments:read"@,
        ApiKeyScope::PunishmentsColonWrite => "punishments:write"@,
        ApiKeyScope::StreamColonRead => "stream:read"@,
    }
}

/// Every scope, in declaration order.
pub open spec fn all_scopes() -> Seq<ApiKeyScope> {
    seq![
        ApiKeyScope::Star,
        ApiKeyScope::ApiKeysColonRead,
        ApiKeyScope::ApiKeysColonWrite,
        ApiKeyScope::CrawlsColonRead,
        ApiKeyScope::CrawlsColonWrite,
        ApiKeyScope::PatchNotesColonRead,
        ApiKeyScope::PatchNotesColonWrite,
        ApiKeyScope::PlayersColonRead,
        ApiKeyScope::PlayersColonReadDetails,
        ApiKeyScope::PlayersColonWrite,
        ApiKeyScope::PunishmentsColonRead,
        ApiKeyScope::PunishmentsColonWrite,
        ApiKeyScope::StreamColonRead,
    ]
}

impl ApiKeyScope {
    /// The scope's text.
    pub fn as_str(&self) -> (res: &'static str)
        ensures
            res@ == scope_name(*self),
    {
        match self {
            ApiKeyScope::Star => "*",
            ApiKeyScope::ApiKeysColonRead => "api-keys:read",
            ApiKeyScope::ApiKeysColonWrite => "api-keys:write",
            ApiKeyScope::CrawlsColonRead => "crawls:read",
            ApiKeyScope::CrawlsColonWrite => "crawls:write",
            ApiKeyScope::PatchNotesColonRead => "patch-notes:read",
            ApiKeyScope::PatchNotesColonWrite => "patch-notes:write",
            ApiKeyScope::PlayersColonRead => "players:read",
            ApiKeyScope::PlayersColonReadDetails => "players:read-details",
            ApiKeyScope::PlayersColonWrite => "players:write",
            ApiKeyScope::PunishmentsColonRead => "punishments:read",
            ApiKeyScope::PunishmentsColonWrite => "punishments:write",
            ApiKeyScope::StreamColonRead => "stream:read",
        }
    }

    /// The scope's text, owned.
    pub fn to_text(&self) -> (res: String)
        ensures
            res@ == scope_name(*self),
    {
        self.as_str().to_owned()
    }

    /// The scope a text names, if any.
    pub fn parse(text: &str) -> (res: Option<ApiKeyScope>)
        ensures
            match res {
                Some(scope) => text@ == scope_name(scope),
                None => forall|scope: ApiKeyScope| text@ != #[trigger] scope_name(scope),
            },
    {
        let mut i: usize = 0;
        let candidates = [
            ApiKeyScope::Star,
            ApiKeyScope::ApiKeysColonRead,
            ApiKeyScope::ApiKeysColonWrite,
            ApiKeyScope::CrawlsColonRead,
            ApiKeyScope::CrawlsColonWrite,
            ApiKeyScope::PatchNotesColonRead,
            ApiKeyScope::PatchNotesColonWrite,
            ApiKeyScope::PlayersColonRead,
            ApiKeyScope::PlayersColonReadDetails,
            ApiKeyScope::PlayersColonWrite,
            ApiKeyScope::PunishmentsColonRead,
            ApiKeyScope::PunishmentsColonWrite,
            ApiKeyScope::StreamColonRead,
        ];
        proof {
            assert(candidates@ =~= all_scopes());
        }
        while i < 13
            invariant
                candidates@ == all_scopes(),
                i <= 13,
                forall|j: int| 0 <= j < i ==> text@ != scope_name(#[trigger] all_scopes()[j]),
            decreases 13 - i,
        {
            let candidate = candidates[i];
            if text_eq(text, candidate.as_str()) {
                return Some(candidate);
            }
            i = i + 1;
        }
        proof {
            assert forall|scope: ApiKeyScope| text@ != #[trigger] scope_name(scope) by {
                lemma_scope_listed(scope);
            }
        }
        None
    }
}

/// Every scope is listed in `all_scopes`.
pub proof fn lemma_scope_listed(scope: ApiKeyScope)
    ensures
        exists|j: int| 0 <= j < 13 && all_scopes()[j] == scope,
{
    let s = all_scopes();
    match scope {
        ApiKeyScope::Star => assert(s[0] == scope),
        ApiKeyScope::ApiKeysColonRead => assert(s[1] == scope),
        ApiKeyScope::ApiKeysColonWrite => assert(s[2] == scope),
        ApiKeyScope::CrawlsColonRead => assert(s[3] == scope),
        ApiKeyScope::CrawlsColonWrite => assert(s[4] == scope),
        ApiKeyScope::PatchNotesColonRead => assert(s[5] == scope),
        ApiKeyScope::PatchNotesColonWrite => assert(s[6] == scope),
        ApiKeyScope::PlayersColonRead => assert(s[7] == scope),
        ApiKeyScope::PlayersColonReadDetails => assert(s[8] == scope),
        ApiKeyScope::PlayersColonWrite => assert(s[9] == scope),
        ApiKeyScope::PunishmentsColonRead => assert(s[10] == scope),
        ApiKeyScope::PunishmentsColonWrite => assert(s[11] == scope),
        ApiKeyScope::StreamColonRead => assert(s[12] == scope),
    }
}

/// An authenticated API key: its name, public ID, the player it acts for,
/// the scope texts it was granted, and when it was created and expires.
pub struct ApiKey {
    pub name: String,
    pub public_id: String,
    pub player_id: Option<u128>,
    pub scopes: Vec<String>,
    pub created_at: i128,
    pub expires_at: Option<i128>,
}

impl ApiKey {
    pub fn new(
        name: String,
        public_id: String,
        player_id: Option<u128>,
        scopes: Vec<String>,
        created_at: i128,
        expires_at: Option<i128>,
    ) -> (res: ApiKey)
        ensures
            res.name == name,
            res.public_id == public_id,
            res.player_id == player_id,
            res.scopes == scopes,
            res.created_at == created_at,
            res.expires_at == expires_at,
    {
        ApiKey { name, public_id, player_id, scopes, created_at, expires_at }
    }

    /// The scope texts granted, as a sequence.
    pub open spec fn granted(&self) -> Seq<Seq<char>> {
        self.scopes@.map_values(|s: String| s@)
    }
}

/// Why a request is answered without touching the data: the key lacks a
/// scope (403), the request is invalid (400), or what it names cannot exist
/// (404).
#[derive(Clone, Copy, Debug, PartialEq, Eq, Structural)]
pub enum Refusal {
    Forbidden,
    Invalid,
    NotFound,
    Conflict,
}

/// A row identifier of the API (unsigned) as the database holds it (signed),
/// or `None` where no row can have it.
pub fn row_id(id: u64) -> (res: Option<i64>)
    ensures
        id <= i64::MAX ==> res == Some(id as i64),
        id > i64::MAX ==> res is None,
{
    if id <= 9_223_372_036_854_775_807u64 {
        Some(id as i64)
    } else {
        None
    }
}

/// A proof attached to a punishment.
pub struct Proof {
    pub id: u64,
    pub text: String,
    pub public: bool,
}

/// How a punishment was revoked: the revocation's ID, its reason, the player
/// who revoked it, and when.
pub struct Revocation {
    pub id: u64,
    pub reason: String,
    pub actor_id: u128,
    pub revoked_at: i128,
}

/// A punishment as the API returns it. `r_type` is the kind's API text;
/// `expires_at` is `None` for a punishment that does not expire.
pub struct Punishment {
    pub id: u64,
    pub name: String,
    pub target: String,
    pub r_type: String,
    pub reason: String,
    pub actor_id: u128,
    pub created_at: i128,
    pub expires_at: Option<i128>,
    pub server: String,
    pub seen: bool,
    pub active: bool,
    pub proofs: Vec<Proof>,
    pub revocation: Option<Revocation>,
}

/// Whether a player is online.
#[derive(Clone, Copy, Debug, PartialEq, Eq, Structural)]
pub enum PlayerStatus {
    Online,
    Offline,
}

/// The text of a status.
pub open spec fn status_name(status: PlayerStatus) -> Seq<char> {
    match status {
        PlayerStatus::Online => "online"@,
        PlayerStatus::Offline => "offline"@,
    }
}

/// The status a text names, if any.
pub open spec fn status_named(text: Seq<char>) -> Option<PlayerStatus> {
    if text == "online"@ {
        Some(PlayerStatus::Online)
    } else if text == "offline"@ {
        Some(PlayerStatus::Offline)
    } else {
        None
    }
}

impl PlayerStatus {
    /// The status's text.
    pub fn as_str(&self) -> (res: &'static str)
        ensures
            res@ == status_name(*self),
    {
        match self {
            PlayerStatus::Online => "online",
            PlayerStatus::Offline => "offline",
        }
    }

    /// The status's text, owned.
    pub fn to_text(&self) -> (res: String)
        ensures
            res@ == status_name(*self),
    {
        self.as_str().to_owned()
    }

    /// The status a text names, if any.
    pub fn parse(text: &str) -> (res: Option<PlayerStatus>)
        ensures
            res == status_named(text@),
    {
        if text_eq(text, "online") {
            Some(PlayerStatus::Online)
        } else if text_eq(text, "offline") {
            Some(PlayerStatus::Offline)
        } else {
            None
        }
    }
}

impl std::str::FromStr for PlayerStatus {
    type Err = ();

    fn from_str(s: &str) -> (res: Result<Self, Self::Err>)
        ensures
            res == (match status_named(s@) {
                Some(status) => Ok::<PlayerStatus, ()>(status),
                None => Err::<PlayerStatus, ()>(()),
            }),
    {
        match Self::parse(s) {
            Some(status) => Ok(status),
            None => Err(()),
        }
    }
}

/// Law: a status's text names that status.
pub proof fn lemma_status_round_trip(status: PlayerStatus)
    ensures
        status_named(status_name(status)) == Some(status),
{
    reveal_strlit("online");
    reveal_strlit("offline");
    assert("online"@ != "offline"@) by {
        assert("online"@.len() != "offline"@.len());
    }
}

/// A player as the API returns it. The Discord ID is shown only to keys
/// that may read player details.
pub struct Player {
    pub id: u128,
    pub discord_id: Option<String>,
    pub username: String,
    pub bio: Option<String>,
    pub status: String,
    pub current_server: Option<String>,
    pub current_locale: Option<String>,
    pub current_client_version: Option<String>,
    pub first_login_at: Option<i128>,
    pub last_seen_at: Option<i128>,
}

/// A crawl of a Minecraft server: what its status ping reported, and when.
pub struct Crawl {
    pub id: u128,
    pub address: String,
    pub port: u16,
    pub ping: u32,
    pub version: String,
    pub protocol_version: i32,
    pub max_players: u32,
    pub online_players: u32,
    pub description: Option<String>,
    pub favicon: Option<String>,
    pub crawled_at: i128,
}

/// A patch note as the API returns it, with the URLs of its images in
/// order.
pub struct PatchNote {
    pub id: u128,
    pub target: String,
    pub category: String,
    pub title: String,
    pub body: String,
    pub author_id: Option<u128>,
    pub image_urls: Vec<String>,
    pub created_at: i128,
}

} // verus!
