//! Rows as the databases return them, and their conversion into the API's
//! data. A conversion refuses a row the API cannot show and says why.
use vstd::prelude::*;

use crate::encoding::{chrono_accepts_millis, millis_in_range, parse_uuid, uuid_parse};
use crate::models::{ApiKey, Crawl, PatchNote, Player, PlayerStatus, Proof, Punishment, Revocation, status_name};
use crate::punishments::{api_name, has_seen_flag, is_seen, kind_stored_as, punishment_type_from_database};

verus! {

/// The message of a row whose identifier is negative.
pub open spec fn negative_id_message() -> Seq<char> {
    "negative identifier in punishments database"@
}

/// The message of a row with an instant chrono cannot hold.
pub open spec fn bad_millis_message() -> Seq<char> {
    "invalid epoch milliseconds in punishments database"@
}

/// The message of a row whose punishment operator is no UUID.
pub open spec fn bad_operator_message() -> Seq<char> {
    "invalid punishment operator UUID in database"@
}

/// The message of a row whose revocation operator is no UUID.
pub open spec fn bad_revocation_operator_message() -> Seq<char> {
    "invalid revocation operator UUID in database"@
}

/// The message of a row of an unknown kind.
pub open spec fn unknown_type_message(stored: Seq<char>) -> Seq<char> {
    "unknown punishment type in database: "@ + stored
}

/// A row identifier of the punishments database as the API shows it.
pub fn unsigned_row_id(value: i64) -> (res: Result<u64, String>)
    ensures
        value >= 0 ==> res == Ok::<u64, String>(value as u64),
        value < 0 ==> (res matches Err(e) && e@ == negative_id_message()),
{
    if value >= 0 {
        Ok(value as u64)
    } else {
        Err("negative identifier in punishments database".to_owned())
    }
}

/// The instant (in nanoseconds since the epoch) of a number of epoch
/// milliseconds from the punishments database.
pub fn datetime_from_millis(value: i64) -> (res: Result<i128, String>)
    ensures
        chrono_accepts_millis(value) ==> (res matches Ok(at) && at == value * 1_000_000),
        !chrono_accepts_millis(value) ==> (res matches Err(e) && e@ == bad_millis_message()),
{
    if millis_in_range(value) {
        Ok((value as i128) * 1_000_000)
    } else {
        Err("invalid epoch milliseconds in punishments database".to_owned())
    }
}

/// A row of the `proofs` table.
pub struct ProofRecord {
    pub id: i64,
    pub text: String,
    pub public: bool,
}

impl Proof {
    /// The proof a row holds, refused where its identifier is negative.
    pub fn from_record(record: ProofRecord) -> (res: Result<Proof, String>)
        ensures
            record.id >= 0 ==> (res matches Ok(p) && p.id == record.id as u64 && p.text
                == record.text && p.public == record.public),
            record.id < 0 ==> (res matches Err(e) && e@ == negative_id_message()),
    {
        match unsigned_row_id(record.id) {
            Ok(id) => Ok(Proof { id, text: record.text, public: record.public }),
            Err(e) => Err(e),
        }
    }
}

/// A row of proofs read together with the punishment they belong to.
pub struct PunishmentProofRecord {
    pub punish_id: i64,
    pub id: i64,
    pub text: String,
    pub public: bool,
}

impl PunishmentProofRecord {
    /// The proof the row holds.
    pub fn into_proof(self) -> (res: Result<Proof, String>)
        ensures
            self.id >= 0 ==> (res matches Ok(p) && p.id == self.id as u64 && p.text == self.text
                && p.public == self.public),
            self.id < 0 ==> (res matches Err(e) && e@ == negative_id_message()),
    {
        Proof::from_record(ProofRecord { id: self.id, text: self.text, public: self.public })
    }
}

/// A row of the punishment history, with whether the punishment is still
/// active and, where it was revoked, the revocation's columns.
pub struct PunishmentRecord {
    pub id: i64,
    pub name: String,
    pub target: String,
    pub reason: String,
    pub operator: String,
    pub r_type: String,
    pub start: i64,
    pub end: i64,
    pub server: String,
    pub extra: String,
    pub active: bool,
    pub revocation_id: Option<i64>,
    pub revocation_reason: Option<String>,
    pub revocation_timestamp: Option<i64>,
    pub revocation_operator: Option<String>,
}

/// All four revocation columns are there.
pub open spec fn revoked(r: PunishmentRecord) -> bool {
    r.revocation_id is Some && r.revocation_reason is Some && r.revocation_timestamp is Some
        && r.revocation_operator is Some
}

/// Why a punishment row cannot be shown, checked in this order: its kind,
/// its operator, its end, the revocation's identifier, operator and
/// instant, its own identifier, and its start.
pub open spec fn punishment_record_error(r: PunishmentRecord) -> Option<Seq<char>> {
    if kind_stored_as(r.r_type@) is None {
        Some(unknown_type_message(r.r_type@))
    } else if uuid_parse(r.operator@) is None {
        Some(bad_operator_message())
    } else if r.end != -1 && !chrono_accepts_millis(r.end) {
        Some(bad_millis_message())
    } else if revoked(r) && r.revocation_id->0 < 0 {
        Some(negative_id_message())
    } else if revoked(r) && uuid_parse(r.revocation_operator->0@) is None {
        Some(bad_revocation_operator_message())
    } else if revoked(r) && !chrono_accepts_millis(r.revocation_timestamp->0) {
        Some(bad_millis_message())
    } else if r.id < 0 {
        Some(negative_id_message())
    } else if !chrono_accepts_millis(r.start) {
        Some(bad_millis_message())
    } else {
        None
    }
}

/// The punishment a row that can be shown stands for.
pub open spec fn shows_punishment(r: PunishmentRecord, proofs: Seq<Proof>, p: Punishment) -> bool {
    &&& p.id == r.id as u64
    &&& p.name == r.name
    &&& p.target == r.target
    &&& p.r_type@ == api_name(kind_stored_as(r.r_type@)->0)
    &&& p.reason == r.reason
    &&& p.actor_id == uuid_parse(r.operator@)->0
    &&& p.created_at == r.start * 1_000_000
    &&& p.expires_at == (if r.end == -1 {
        None::<i128>
    } else {
        Some((r.end * 1_000_000) as i128)
    })
    &&& p.server == r.server
    &&& p.seen == has_seen_flag(r.extra@)
    &&& p.active == r.active
    &&& p.proofs@ == proofs
    &&& (if revoked(r) {
        p.revocation matches Some(v) && v.id == r.revocation_id->0 as u64 && v.reason
            == r.revocation_reason->0 && v.actor_id == uuid_parse(r.revocation_operator->0@)->0
            && v.revoked_at == r.revocation_timestamp->0 * 1_000_000
    } else {
        p.revocation is None
    })
}

impl PunishmentRecord {
    /// The punishment the row stands for, with its proofs, or why the row
    /// cannot be shown.
    pub fn into_punishment(self, proofs: Vec<Proof>) -> (res: Result<Punishment, String>)
        ensures
            match punishment_record_error(self) {
                Some(message) => res matches Err(e) && e@ == message,
                None => res matches Ok(p) && shows_punishment(self, proofs@, p),
            },
    {
        let kind = match punishment_type_from_database(self.r_type.as_str()) {
            Some(kind) => kind,
            None => {
                let mut message = String::new();
                message.append("unknown punishment type in database: ");
                message.append(self.r_type.as_str());
                return Err(message);
            },
        };
        let actor_id = match parse_uuid(self.operator.as_str()) {
            Some(id) => id,
            None => return Err("invalid punishment operator UUID in database".to_owned()),
        };
        let expires_at = if self.end == -1 {
            None
        } else {
            match datetime_from_millis(self.end) {
                Ok(at) => Some(at),
                Err(e) => return Err(e),
            }
        };
        let seen = is_seen(self.extra.as_str());
        let revocation = match (
            self.revocation_id,
            self.revocation_reason,
            self.revocation_timestamp,
            self.revocation_operator,
        ) {
            (Some(id), Some(reason), Some(timestamp), Some(operator)) => {
                let id = match unsigned_row_id(id) {
                    Ok(id) => id,
                    Err(e) => return Err(e),
                };
                let actor = match parse_uuid(operator.as_str()) {
                    Some(actor) => actor,
                    None => return Err("invalid revocation operator UUID in database".to_owned()),
                };
                let revoked_at = match datetime_from_millis(timestamp) {
                    Ok(at) => at,
                    Err(e) => return Err(e),
                };
                Some(Revocation { id, reason, actor_id: actor, revoked_at })
            },
            _ => None,
        };
        let id = match unsigned_row_id(self.id) {
            Ok(id) => id,
            Err(e) => return Err(e),
        };
        let created_at = match datetime_from_millis(self.start) {
            Ok(at) => at,
            Err(e) => return Err(e),
        };
        Ok(
            Punishment {
                id,
                name: self.name,
                target: self.target,
                r_type: kind.to_text(),
                reason: self.reason,
                actor_id,
                created_at,
                expires_at,
                server: self.server,
                seen,
                active: self.active,
                proofs,
                revocation,
            },
        )
    }
}

/// The proofs of a list of rows, in order, or the refusal of a row whose
/// identifier is negative.
pub fn proofs_from_records(records: Vec<ProofRecord>) -> (res: Result<Vec<Proof>, String>)
    ensures
        (exists|i: int| 0 <= i < records@.len() && #[trigger] records@[i].id < 0) ==> (res matches Err(
            e,
        ) && e@ == negative_id_message()),
        (forall|i: int| 0 <= i < records@.len() ==> #[trigger] records@[i].id >= 0) ==> (res matches Ok(
            v,
        ) && v@.len() == records@.len() && forall|i: int|
            0 <= i < records@.len() ==> (#[trigger] v@[i]).id == records@[i].id as u64 && v@[i].text
                == records@[i].text && v@[i].public == records@[i].public),
{
    let mut out: Vec<Proof> = Vec::new();
    let mut i: usize = 0;
    while i < records.len()
        invariant
            i <= records@.len(),
            out@.len() == i,
            forall|k: int| 0 <= k < i ==> #[trigger] records@[k].id >= 0,
            forall|k: int|
                0 <= k < i ==> (#[trigger] out@[k]).id == records@[k].id as u64 && out@[k].text
                    == records@[k].text && out@[k].public == records@[k].public,
        decreases records@.len() - i,
    {
        let record = &records[i];
        if record.id < 0 {
            return Err("negative identifier in punishments database".to_owned());
        }
        out.push(Proof { id: record.id as u64, text: record.text.clone(), public: record.public });
        i = i + 1;
    }
    Ok(out)
}

/// The proof a row of proofs read with their punishment holds.
pub open spec fn proof_of(r: PunishmentProofRecord) -> Proof {
    Proof { id: r.id as u64, text: r.text, public: r.public }
}

/// The rows that belong to one punishment, in order.
pub open spec fn proof_rows_of(rows: Seq<PunishmentProofRecord>, punishment_id: i64) -> Seq<
    PunishmentProofRecord,
> {
    rows.filter(|r: PunishmentProofRecord| r.punish_id == punishment_id)
}

/// Some row has a negative identifier.
pub open spec fn has_negative_proof_id(rows: Seq<PunishmentProofRecord>) -> bool {
    exists|i: int| 0 <= i < rows.len() && #[trigger] rows[i].id < 0
}

/// The proofs of each punishment of a page, in the page's order, from the
/// proof rows read for the whole page; a row with a negative identifier
/// refuses the page.
pub fn attach_proofs(punishment_ids: &[i64], rows: &[PunishmentProofRecord]) -> (res: Result<
    Vec<Vec<Proof>>,
    String,
>)
    ensures
        has_negative_proof_id(rows@) ==> (res matches Err(e) && e@ == negative_id_message()),
        !has_negative_proof_id(rows@) ==> (res matches Ok(v) && v@.len() == punishment_ids@.len()
            && forall|i: int|
            0 <= i < punishment_ids@.len() ==> (#[trigger] v@[i])@ == proof_rows_of(
                rows@,
                punishment_ids@[i],
            ).map_values(|r: PunishmentProofRecord| proof_of(r))),
{
    let mut k: usize = 0;
    while k < rows.len()
        invariant
            k <= rows@.len(),
            forall|j: int| 0 <= j < k ==> #[trigger] rows@[j].id >= 0,
        decreases rows@.len() - k,
    {
        if rows[k].id < 0 {
            return Err("negative identifier in punishments database".to_owned());
        }
        k = k + 1;
    }
    let mut out: Vec<Vec<Proof>> = Vec::new();
    let mut i: usize = 0;
    while i < punishment_ids.len()
        invariant
            i <= punishment_ids@.len(),
            out@.len() == i,
            forall|q: int| 0 <= q < rows@.len() ==> #[trigger] rows@[q].id >= 0,
            forall|m: int|
                0 <= m < i ==> (#[trigger] out@[m])@ == proof_rows_of(
                    rows@,
                    punishment_ids@[m],
                ).map_values(|r: PunishmentProofRecord| proof_of(r)),
        decreases punishment_ids@.len() - i,
    {
        let id = punishment_ids[i];
        let mut proofs: Vec<Proof> = Vec::new();
        let mut j: usize = 0;
        while j < rows.len()
            invariant
                j <= rows@.len(),
                proofs@ == proof_rows_of(rows@.take(j as int), id).map_values(
                    |r: PunishmentProofRecord| proof_of(r),
                ),
            decreases rows@.len() - j,
        {
            let row = &rows[j];
            let ghost before = proof_rows_of(rows@.take(j as int), id);
            proof {
                reveal(Seq::filter);
                assert(rows@.take(j + 1).drop_last() =~= rows@.take(j as int));
                assert(rows@.take(j + 1).last() == *row);
            }
            if row.punish_id == id {
                proofs.push(Proof { id: row.id as u64, text: row.text.clone(), public: row.public });
                proof {
                    assert(proof_rows_of(rows@.take(j + 1), id) == before.push(*row));
                    assert(before.push(*row).map_values(|r: PunishmentProofRecord| proof_of(r))
                        =~= before.map_values(|r: PunishmentProofRecord| proof_of(r)).push(
                        proof_of(*row),
                    ));
                }
            }
            j = j + 1;
        }
        proof {
            assert(rows@.take(rows@.len() as int) =~= rows@);
        }
        out.push(proofs);
        i = i + 1;
    }
    Ok(out)
}

/// A row of the `players` table: what the server knows of a player beyond
/// the profile.
pub struct PlayerRecord {
    pub id: u128,
    pub discord_id: Option<String>,
    pub bio: Option<String>,
    pub status: String,
    pub current_server: Option<String>,
    pub current_locale: Option<String>,
    pub current_client_version: Option<String>,
    pub first_login_at: Option<i128>,
    pub last_seen_at: Option<i128>,
}

/// The record of a player the server has no row for: offline, and nothing
/// else known.
pub open spec fn is_empty_record(record: PlayerRecord, id: u128) -> bool {
    &&& record.id == id
    &&& record.status@ == status_name(PlayerStatus::Offline)
    &&& record.discord_id is None
    &&& record.bio is None
    &&& record.current_server is None
    &&& record.current_locale is None
    &&& record.current_client_version is None
    &&& record.first_login_at is None
    &&& record.last_seen_at is None
}

/// The player a record shows under a username; the Discord ID only where
/// details may be shown.
pub open spec fn player_of(record: PlayerRecord, username: String, with_details: bool) -> Player {
    Player {
        id: record.id,
        discord_id: if with_details {
            record.discord_id
        } else {
            None
        },
        username,
        bio: record.bio,
        status: record.status,
        current_server: record.current_server,
        current_locale: record.current_locale,
        current_client_version: record.current_client_version,
        first_login_at: record.first_login_at,
        last_seen_at: record.last_seen_at,
    }
}

impl PlayerRecord {
    /// The record of a player the server has no row for.
    pub fn empty(id: u128) -> (res: PlayerRecord)
        ensures
            is_empty_record(res, id),
    {
        PlayerRecord {
            id,
            discord_id: None,
            bio: None,
            status: PlayerStatus::Offline.to_text(),
            current_server: None,
            current_locale: None,
            current_client_version: None,
            first_login_at: None,
            last_seen_at: None,
        }
    }

    /// The player the record shows under `username`.
    pub fn into_player(self, username: String, with_details: bool) -> (res: Player)
        ensures
            res == player_of(self, username, with_details),
    {
        Player {
            id: self.id,
            discord_id: if with_details {
                self.discord_id
            } else {
                None
            },
            username,
            bio: self.bio,
            status: self.status,
            current_server: self.current_server,
            current_locale: self.current_locale,
            current_client_version: self.current_client_version,
            first_login_at: self.first_login_at,
            last_seen_at: self.last_seen_at,
        }
    }
}

/// A row of the `api_keys` table read to authenticate a key.
pub struct ApiKeyRecord {
    pub name: String,
    pub public_id: String,
    pub secret_digest: Vec<u8>,
    pub created_at: i128,
    pub expires_at: Option<i128>,
    pub player_id: Option<u128>,
}

impl ApiKeyRecord {
    /// The authenticated key the row stands for, with its scope texts.
    pub fn into_api_key(self, scopes: Vec<String>) -> (res: ApiKey)
        ensures
            res.name == self.name,
            res.public_id == self.public_id,
            res.player_id == self.player_id,
            res.scopes == scopes,
            res.created_at == self.created_at,
            res.expires_at == self.expires_at,
    {
        ApiKey::new(
            self.name,
            self.public_id,
            self.player_id,
            scopes,
            self.created_at,
            self.expires_at,
        )
    }
}

/// A row of the `crawls` table.
pub struct CrawlRecord {
    pub id: u128,
    pub address: String,
    pub port: u16,
    pub ping: u32,
    pub version: String,
    pub protocol_version: i32,
    pub max_players: u32,
    pub online_players: u32,
    pub description: Option<String>,
    pub favicon: Option<String>,
    pub crawled_at: i128,
}

impl CrawlRecord {
    /// The crawl the row holds.
    pub fn into_crawl(self) -> (res: Crawl)
        ensures
            res.id == self.id,
            res.address == self.address,
            res.port == self.port,
            res.ping == self.ping,
            res.version == self.version,
            res.protocol_version == self.protocol_version,
            res.max_players == self.max_players,
            res.online_players == self.online_players,
            res.description == self.description,
            res.favicon == self.favicon,
            res.crawled_at == self.crawled_at,
    {
        Crawl {
            id: self.id,
            address: self.address,
            port: self.port,
            ping: self.ping,
            version: self.version,
            protocol_version: self.protocol_version,
            max_players: self.max_players,
            online_players: self.online_players,
            description: self.description,
            favicon: self.favicon,
            crawled_at: self.crawled_at,
        }
    }
}

/// A row of the `patch_notes` table.
pub struct PatchNoteRecord {
    pub id: u128,
    pub target: String,
    pub category: String,
    pub title: String,
    pub body: String,
    pub author_id: Option<u128>,
    pub created_at: i128,
}

impl PatchNoteRecord {
    /// The patch note the row holds, with its image URLs.
    pub fn into_patch_note(self, image_urls: Vec<String>) -> (res: PatchNote)
        ensures
            res.id == self.id,
            res.target == self.target,
            res.category == self.category,
            res.title == self.title,
            res.body == self.body,
            res.author_id == self.author_id,
            res.image_urls == image_urls,
            res.created_at == self.created_at,
    {
        PatchNote {
            id: self.id,
            target: self.target,
            category: self.category,
            title: self.title,
            body: self.body,
            author_id: self.author_id,
            image_urls,
            created_at: self.created_at,
        }
    }
}


/// Law: a punishment shown from a row carries the row's own reason, and,
/// where the row was revoked, a revocation with the revocation's identifier,
/// reason, revoker and instant (not the punishment's); an unrevoked row shows
/// no revocation.
pub proof fn lemma_revocation_shown_from_its_columns(
    r: PunishmentRecord,
    proofs: Seq<Proof>,
    p: Punishment,
)
    requires
        shows_punishment(r, proofs, p),
    ensures
        p.reason == r.reason,
        revoked(r) ==> (p.revocation matches Some(v) && v.reason == r.revocation_reason->0 && v.id
            == r.revocation_id->0 as u64 && v.revoked_at == r.revocation_timestamp->0 * 1_000_000
            && v.actor_id == uuid_parse(r.revocation_operator->0@)->0),
        !revoked(r) ==> p.revocation is None,
{
}

} // verus!
