//! Punishment rules: the kinds of punishment and their texts in the API and
//! in the database, which targets can be punished, when a punishment ends,
//! the `SEEN` flag, and what each punishment request is answered.
use vstd::prelude::*;

use crate::auth::scope::grants;
use crate::encoding::{format_uuid, parse_uuid, to_lowercase, unicode_lowercase, uuid_hyphenated, uuid_parse};
use crate::filters::{is_valid_half_open_range, valid_half_open_range};
use crate::models::{ApiKey, ApiKeyScope, Refusal, row_id};
use crate::pagination::{Cursor, CursorError};
use crate::text::{blank, free_of, is_blank, join_text, join_with, lemma_split_join, split_on, split_text, text_eq};

verus! {

/// A kind of punishment.
#[derive(Clone, Copy, Debug, PartialEq, Eq, Structural)]
pub enum PunishmentType {
    Ban,
    TempBan,
    IpBan,
    TempIpBan,
    Mute,
    TempMute,
    IpMute,
    TempIpMute,
    Warning,
    Caution,
    Kick,
    Note,
}

/// The text of a kind in the API.
pub open spec fn api_name(kind: PunishmentType) -> Seq<char> {
    match kind {
        PunishmentType::Ban => "ban"@,
        PunishmentType::TempBan => "tempBan"@,
        PunishmentType::IpBan => "ipBan"@,
        PunishmentType::TempIpBan => "tempIpBan"@,
        PunishmentType::Mute => "mute"@,
        PunishmentType::TempMute => "tempMute"@,
        PunishmentType::IpMute => "ipMute"@,
        PunishmentType::TempIpMute => "tempIpMute"@,
        PunishmentType::Warning => "warning"@,
        PunishmentType::Caution => "caution"@,
        PunishmentType::Kick => "kick"@,
        PunishmentType::Note => "note"@,
    }
}

/// The text of a kind in the punishments database.
pub open spec fn database_name(kind: PunishmentType) -> Seq<char> {
    match kind {
        PunishmentType::Ban => "BAN"@,
        PunishmentType::TempBan => "TEMP_BAN"@,
        PunishmentType::IpBan => "IP_BAN"@,
        PunishmentType::TempIpBan => "TEMP_IP_BAN"@,
        PunishmentType::Mute => "MUTE"@,
        PunishmentType::TempMute => "TEMP_MUTE"@,
        PunishmentType::IpMute => "IP_MUTE"@,
        PunishmentType::TempIpMute => "TEMP_IP_MUTE"@,
        PunishmentType::Warning => "WARNING"@,
        PunishmentType::Caution => "CAUTION"@,
        PunishmentType::Kick => "KICK"@,
        PunishmentType::Note => "NOTE"@,
    }
}

/// Every kind, in declaration order.
pub open spec fn all_punishment_types() -> Seq<PunishmentType> {
    seq![
        PunishmentType::Ban,
        PunishmentType::TempBan,
        PunishmentType::IpBan,
        PunishmentType::TempIpBan,
        PunishmentType::Mute,
        PunishmentType::TempMute,
        PunishmentType::IpMute,
        PunishmentType::TempIpMute,
        PunishmentType::Warning,
        PunishmentType::Caution,
        PunishmentType::Kick,
        PunishmentType::Note,
    ]
}

/// Kinds that end at a set time.
pub open spec fn temporary(kind: PunishmentType) -> bool {
    kind == PunishmentType::TempBan || kind == PunishmentType::TempIpBan || kind
        == PunishmentType::TempMute || kind == PunishmentType::TempIpMute
}

/// Kinds whose target is an IP address rather than a player.
pub open spec fn ip_based(kind: PunishmentType) -> bool {
    kind == PunishmentType::IpBan || kind == PunishmentType::TempIpBan || kind
        == PunishmentType::IpMute || kind == PunishmentType::TempIpMute
}

/// The kind whose API text has this length and first character.
spec fn kind_with_api_signature(len: nat, first: char) -> Option<PunishmentType> {
    if len == 3 && first == 'b' {
        Some(PunishmentType::Ban)
    } else if len == 7 && first == 't' {
        Some(PunishmentType::TempBan)
    } else if len == 5 && first == 'i' {
        Some(PunishmentType::IpBan)
    } else if len == 9 && first == 't' {
        Some(PunishmentType::TempIpBan)
    } else if len == 4 && first == 'm' {
        Some(PunishmentType::Mute)
    } else if len == 8 && first == 't' {
        Some(PunishmentType::TempMute)
    } else if len == 6 && first == 'i' {
        Some(PunishmentType::IpMute)
    } else if len == 10 && first == 't' {
        Some(PunishmentType::TempIpMute)
    } else if len == 7 && first == 'w' {
        Some(PunishmentType::Warning)
    } else if len == 7 && first == 'c' {
        Some(PunishmentType::Caution)
    } else if len == 4 && first == 'k' {
        Some(PunishmentType::Kick)
    } else if len == 4 && first == 'n' {
        Some(PunishmentType::Note)
    } else {
        None
    }
}

/// The kind whose database text has this length and first character.
spec fn kind_with_database_signature(len: nat, first: char) -> Option<PunishmentType> {
    if len == 3 && first == 'B' {
        Some(PunishmentType::Ban)
    } else if len == 8 && first == 'T' {
        Some(PunishmentType::TempBan)
    } else if len == 6 && first == 'I' {
        Some(PunishmentType::IpBan)
    } else if len == 11 && first == 'T' {
        Some(PunishmentType::TempIpBan)
    } else if len == 4 && first == 'M' {
        Some(PunishmentType::Mute)
    } else if len == 9 && first == 'T' {
        Some(PunishmentType::TempMute)
    } else if len == 7 && first == 'I' {
        Some(PunishmentType::IpMute)
    } else if len == 12 && first == 'T' {
        Some(PunishmentType::TempIpMute)
    } else if len == 7 && first == 'W' {
        Some(PunishmentType::Warning)
    } else if len == 7 && first == 'C' {
        Some(PunishmentType::Caution)
    } else if len == 4 && first == 'K' {
        Some(PunishmentType::Kick)
    } else if len == 4 && first == 'N' {
        Some(PunishmentType::Note)
    } else {
        None
    }
}

proof fn lemma_name_signatures(kind: PunishmentType)
    ensures
        api_name(kind).len() > 0,
        kind_with_api_signature(api_name(kind).len(), api_name(kind)[0]) == Some(kind),
        database_name(kind).len() > 0,
        kind_with_database_signature(database_name(kind).len(), database_name(kind)[0]) == Some(
            kind,
        ),
{
    match kind {
        PunishmentType::Ban => {
            reveal_strlit("ban");
            reveal_strlit("BAN");
        },
        PunishmentType::TempBan => {
            reveal_strlit("tempBan");
            reveal_strlit("TEMP_BAN");
        },
        PunishmentType::IpBan => {
            reveal_strlit("ipBan");
            reveal_strlit("IP_BAN");
        },
        PunishmentType::TempIpBan => {
            reveal_strlit("tempIpBan");
            reveal_strlit("TEMP_IP_BAN");
        },
        PunishmentType::Mute => {
            reveal_strlit("mute");
            reveal_strlit("MUTE");
        },
        PunishmentType::TempMute => {
            reveal_strlit("tempMute");
            reveal_strlit("TEMP_MUTE");
        },
        PunishmentType::IpMute => {
            reveal_strlit("ipMute");
            reveal_strlit("IP_MUTE");
        },
        PunishmentType::TempIpMute => {
            reveal_strlit("tempIpMute");
            reveal_strlit("TEMP_IP_MUTE");
        },
        PunishmentType::Warning => {
            reveal_strlit("warning");
            reveal_strlit("WARNING");
        },
        PunishmentType::Caution => {
            reveal_strlit("caution");
            reveal_strlit("CAUTION");
        },
        PunishmentType::Kick => {
            reveal_strlit("kick");
            reveal_strlit("KICK");
        },
        PunishmentType::Note => {
            reveal_strlit("note");
            reveal_strlit("NOTE");
        },
    }
}

/// No two kinds share an API text, nor a database text.
pub proof fn lemma_punishment_names_distinct(a: PunishmentType, b: PunishmentType)
    ensures
        api_name(a) == api_name(b) ==> a == b,
        database_name(a) == database_name(b) ==> a == b,
{
    lemma_name_signatures(a);
    lemma_name_signatures(b);
}

/// Every kind is listed in `all_punishment_types`.
pub proof fn lemma_punishment_type_listed(kind: PunishmentType)
    ensures
        exists|j: int| 0 <= j < 12 && all_punishment_types()[j] == kind,
{
    let s = all_punishment_types();
    match kind {
        PunishmentType::Ban => assert(s[0] == kind),
        PunishmentType::TempBan => assert(s[1] == kind),
        PunishmentType::IpBan => assert(s[2] == kind),
        PunishmentType::TempIpBan => assert(s[3] == kind),
        PunishmentType::Mute => assert(s[4] == kind),
        PunishmentType::TempMute => assert(s[5] == kind),
        PunishmentType::IpMute => assert(s[6] == kind),
        PunishmentType::TempIpMute => assert(s[7] == kind),
        PunishmentType::Warning => assert(s[8] == kind),
        PunishmentType::Caution => assert(s[9] == kind),
        PunishmentType::Kick => assert(s[10] == kind),
        PunishmentType::Note => assert(s[11] == kind),
    }
}

fn punishment_type_list() -> (res: [PunishmentType; 12])
    ensures
        res@ == all_punishment_types(),
{
    let res = [
        PunishmentType::Ban,
        PunishmentType::TempBan,
        PunishmentType::IpBan,
        PunishmentType::TempIpBan,
        PunishmentType::Mute,
        PunishmentType::TempMute,
        PunishmentType::IpMute,
        PunishmentType::TempIpMute,
        PunishmentType::Warning,
        PunishmentType::Caution,
        PunishmentType::Kick,
        PunishmentType::Note,
    ];
    assert(res@ =~= all_punishment_types());
    res
}

impl PunishmentType {
    /// The kind's API text.
    pub fn as_str(&self) -> (res: &'static str)
        ensures
            res@ == api_name(*self),
    {
        match self {
            PunishmentType::Ban => "ban",
            PunishmentType::TempBan => "tempBan",
            PunishmentType::IpBan => "ipBan",
            PunishmentType::TempIpBan => "tempIpBan",
            PunishmentType::Mute => "mute",
            PunishmentType::TempMute => "tempMute",
            PunishmentType::IpMute => "ipMute",
            PunishmentType::TempIpMute => "tempIpMute",
            PunishmentType::Warning => "warning",
            PunishmentType::Caution => "caution",
            PunishmentType::Kick => "kick",
            PunishmentType::Note => "note",
        }
    }

    /// The kind's API text, owned.
    pub fn to_text(&self) -> (res: String)
        ensures
            res@ == api_name(*self),
    {
        self.as_str().to_owned()
    }

    /// The kind an API text names, if any.
    pub fn parse(text: &str) -> (res: Option<PunishmentType>)
        ensures
            res == kind_named(text@),
    {
        let kinds = punishment_type_list();
        let mut i: usize = 0;
        while i < 12
            invariant
                kinds@ == all_punishment_types(),
                i <= 12,
                forall|j: int| 0 <= j < i ==> text@ != api_name(#[trigger] all_punishment_types()[j]),
            decreases 12 - i,
        {
            let kind = kinds[i];
            if text_eq(text, kind.as_str()) {
                proof {
                    let k = choose|k: PunishmentType| api_name(k) == text@;
                    lemma_punishment_names_distinct(kind, k);
                }
                return Some(kind);
            }
            i = i + 1;
        }
        proof {
            assert forall|kind: PunishmentType| text@ != #[trigger] api_name(kind) by {
                lemma_punishment_type_listed(kind);
            }
        }
        None
    }
}

impl std::str::FromStr for PunishmentType {
    type Err = ();

    fn from_str(s: &str) -> (res: Result<Self, Self::Err>)
        ensures
            res == (match kind_named(s@) {
                Some(kind) => Ok::<PunishmentType, ()>(kind),
                None => Err::<PunishmentType, ()>(()),
            }),
    {
        match Self::parse(s) {
            Some(kind) => Ok(kind),
            None => Err(()),
        }
    }
}

/// Whether a kind ends at a set time.
pub fn is_temporary(kind: PunishmentType) -> (res: bool)
    ensures
        res == temporary(kind),
{
    matches!(
        kind,
        PunishmentType::TempBan | PunishmentType::TempIpBan | PunishmentType::TempMute
            | PunishmentType::TempIpMute
    )
}

/// Whether a kind's target is an IP address.
pub fn is_ip_based(kind: PunishmentType) -> (res: bool)
    ensures
        res == ip_based(kind),
{
    matches!(
        kind,
        PunishmentType::IpBan | PunishmentType::TempIpBan | PunishmentType::IpMute
            | PunishmentType::TempIpMute
    )
}

/// The text the punishments database stores for a kind.
pub fn punishment_type_database_value(kind: PunishmentType) -> (res: &'static str)
    ensures
        res@ == database_name(kind),
{
    match kind {
        PunishmentType::Ban => "BAN",
        PunishmentType::TempBan => "TEMP_BAN",
        PunishmentType::IpBan => "IP_BAN",
        PunishmentType::TempIpBan => "TEMP_IP_BAN",
        PunishmentType::Mute => "MUTE",
        PunishmentType::TempMute => "TEMP_MUTE",
        PunishmentType::IpMute => "IP_MUTE",
        PunishmentType::TempIpMute => "TEMP_IP_MUTE",
        PunishmentType::Warning => "WARNING",
        PunishmentType::Caution => "CAUTION",
        PunishmentType::Kick => "KICK",
        PunishmentType::Note => "NOTE",
    }
}

/// The kind a database text stands for, if any.
pub fn punishment_type_from_database(value: &str) -> (res: Option<PunishmentType>)
    ensures
        res == kind_stored_as(value@),
{
    let kinds = punishment_type_list();
    let mut i: usize = 0;
    while i < 12
        invariant
            kinds@ == all_punishment_types(),
            i <= 12,
            forall|j: int| 0 <= j < i ==> value@ != database_name(#[trigger] all_punishment_types()[j]),
        decreases 12 - i,
    {
        let kind = kinds[i];
        if text_eq(value, punishment_type_database_value(kind)) {
            proof {
                let k = choose|k: PunishmentType| database_name(k) == value@;
                lemma_punishment_names_distinct(kind, k);
            }
            return Some(kind);
        }
        i = i + 1;
    }
    proof {
        assert forall|kind: PunishmentType| value@ != #[trigger] database_name(kind) by {
            lemma_punishment_type_listed(kind);
        }
    }
    None
}

/// The kind whose API text `text` is, if any.
pub open spec fn kind_named(text: Seq<char>) -> Option<PunishmentType> {
    if exists|k: PunishmentType| api_name(k) == text {
        Some(choose|k: PunishmentType| api_name(k) == text)
    } else {
        None
    }
}

/// The kind whose database text `text` is, if any.
pub open spec fn kind_stored_as(text: Seq<char>) -> Option<PunishmentType> {
    if exists|k: PunishmentType| database_name(k) == text {
        Some(choose|k: PunishmentType| database_name(k) == text)
    } else {
        None
    }
}

/// Law: a kind's API text names that kind and no other.
pub proof fn lemma_api_name_round_trip(kind: PunishmentType)
    ensures
        kind_named(api_name(kind)) == Some(kind),
{
    let k = choose|k: PunishmentType| api_name(k) == api_name(kind);
    lemma_punishment_names_distinct(kind, k);
}

/// Law: the database text of a kind is read back as that kind and no other.
pub proof fn lemma_database_name_round_trip(kind: PunishmentType)
    ensures
        kind_stored_as(database_name(kind)) == Some(kind),
{
    let k = choose|k: PunishmentType| database_name(k) == database_name(kind);
    lemma_punishment_names_distinct(kind, k);
}


/// An IP address as std's `IpAddr` holds it: four octets, or the 128-bit
/// value of an IPv6 address.
#[derive(Clone, Copy, Debug, PartialEq, Eq, Structural)]
pub enum IpAddress {
    V4(u8, u8, u8, u8),
    V6(u128),
}

/// An address that may be punished: any IPv6 address, and an IPv4 address
/// outside the private, loopback, link-local, shared, documentation,
/// benchmarking, multicast and reserved blocks.
pub open spec fn punishable(ip: IpAddress) -> bool {
    match ip {
        IpAddress::V4(a, b, c, _) => !(a == 0 || a == 10 || (a == 100 && 64 <= b <= 127) || a
            == 127 || (a == 169 && b == 254) || (a == 192 && b == 0 && (c == 0 || c == 2)) || (a
            == 192 && b == 88 && c == 99) || (a == 192 && b == 168) || (a == 198 && (b == 18 || b
            == 19)) || (a == 203 && b == 0 && c == 133) || (224 <= a <= 239) || a >= 240),
        IpAddress::V6(_) => true,
    }
}

/// Whether a target text read as an IP address (`None` where it is none)
/// may be punished.
pub fn punishable_ip(ip: Option<IpAddress>) -> (res: bool)
    ensures
        res == (ip matches Some(address) && punishable(address)),
{
    match ip {
        None => false,
        Some(IpAddress::V6(_)) => true,
        Some(IpAddress::V4(a, b, c, _)) => !(a == 0 || a == 10 || (a == 100 && 64 <= b && b <= 127)
            || a == 127 || (a == 169 && b == 254) || (a == 192 && b == 0 && (c == 0 || c == 2)) || (
        a == 192 && b == 88 && c == 99) || (a == 192 && b == 168) || (a == 198 && (b == 18 || b
            == 19)) || (a == 203 && b == 0 && c == 133) || (224 <= a && a <= 239) || a >= 240),
    }
}

/// A target text read as an IP address: the address, and the canonical text
/// std's `IpAddr` writes for it.
pub struct IpTarget {
    pub address: IpAddress,
    pub text: String,
}

/// The stored form of a punishment's target: for an IP-based kind the
/// canonical text of a punishable address, otherwise the hyphenated
/// lowercase text of a UUID; `None` where the target is refused.
pub open spec fn normalized_target(
    kind: PunishmentType,
    target: Seq<char>,
    ip: Option<(IpAddress, Seq<char>)>,
) -> Option<Seq<char>> {
    if ip_based(kind) {
        match ip {
            Some((address, text)) => if punishable(address) {
                Some(text)
            } else {
                None
            },
            None => None,
        }
    } else {
        match uuid_parse(target) {
            Some(id) => Some(uuid_hyphenated(id)),
            None => None,
        }
    }
}

/// A target with its IP reading, as plain values.
pub open spec fn ip_view(ip: Option<IpTarget>) -> Option<(IpAddress, Seq<char>)> {
    match ip {
        Some(t) => Some((t.address, t.text@)),
        None => None,
    }
}

/// The stored form of a punishment's target. `ip` is what std's `IpAddr`
/// parser reads from `target` (`None` where it reads no address).
pub fn normalize_target(kind: PunishmentType, target: &str, ip: Option<IpTarget>) -> (res: Option<
    String,
>)
    ensures
        match res {
            Some(text) => normalized_target(kind, target@, ip_view(ip)) == Some(text@),
            None => normalized_target(kind, target@, ip_view(ip)) is None,
        },
{
    if is_ip_based(kind) {
        match ip {
            Some(t) => {
                if punishable_ip(Some(t.address)) {
                    Some(t.text)
                } else {
                    None
                }
            },
            None => None,
        }
    } else {
        match parse_uuid(target) {
            Some(id) => Some(format_uuid(id)),
            None => None,
        }
    }
}

/// Whether a text holds more than whitespace.
pub fn non_empty(value: &str) -> (res: bool)
    ensures
        res == !is_blank(value@),
{
    !blank(value)
}

/// Whether a key may read punishments.
pub fn can_read(key: &ApiKey) -> (res: bool)
    ensures
        res == grants(key.granted(), ApiKeyScope::PunishmentsColonRead),
{
    key.has_scope(&ApiKeyScope::PunishmentsColonRead)
}

/// The player a key writes punishments as: the key's player, where the key
/// may write punishments and acts for a player.
pub open spec fn writer_of(key: ApiKey) -> Option<u128> {
    if grants(key.granted(), ApiKeyScope::PunishmentsColonWrite) {
        key.player_id
    } else {
        None
    }
}

/// The player a key writes punishments as, if it may write them.
pub fn write_actor(key: &ApiKey) -> (res: Option<u128>)
    ensures
        res == writer_of(*key),
{
    if !key.has_scope(&ApiKeyScope::PunishmentsColonWrite) {
        return None;
    }
    key.player_id
}

/// Whole milliseconds since the epoch of an instant given in nanoseconds,
/// rounded down, as chrono's `timestamp_millis` counts them.
pub open spec fn millis_of(nanos: int) -> int {
    nanos / 1_000_000
}

/// An instant whose milliseconds fit in an `i64`, as those of every instant
/// chrono can hold do.
pub open spec fn fits_millis(nanos: i128) -> bool {
    i64::MIN <= millis_of(nanos as int) <= i64::MAX
}

/// Milliseconds since the epoch of an instant given in nanoseconds.
pub fn timestamp_millis(nanos: i128) -> (res: i64)
    requires
        fits_millis(nanos),
    ensures
        res == millis_of(nanos as int),
{
    if nanos >= 0 {
        let m = (nanos as u128) / 1_000_000;
        assert(m == millis_of(nanos as int));
        m as i64
    } else {
        let magnitude = (0 - nanos) as u128;
        let up = (magnitude + 999_999) / 1_000_000;
        proof {
            assert(up == -millis_of(nanos as int)) by (nonlinear_arith)
                requires
                    nanos < 0,
                    magnitude == -nanos,
                    up == (magnitude + 999_999) / 1_000_000,
            ;
        }
        let r: i128 = 0 - (up as i128);
        r as i64
    }
}

/// When a new punishment ends, in epoch milliseconds: `-1` for a kind that
/// does not expire and has no expiry; the expiry of a temporary kind when it
/// lies after `now`; `None` (refused) otherwise.
pub open spec fn end_of(kind: PunishmentType, expires_at: Option<i128>, now: i128) -> Option<i64> {
    match expires_at {
        Some(at) => if temporary(kind) && at > now {
            Some(millis_of(at as int) as i64)
        } else {
            None
        },
        None => if temporary(kind) {
            None
        } else {
            Some(-1i64)
        },
    }
}

/// When a new punishment ends, in epoch milliseconds, or `None` where the
/// kind and the expiry do not go together.
pub fn end_millis(kind: PunishmentType, expires_at: Option<i128>, now: i128) -> (res: Option<i64>)
    requires
        expires_at matches Some(at) ==> fits_millis(at),
    ensures
        res == end_of(kind, expires_at, now),
{
    match expires_at {
        Some(at) => {
            if is_temporary(kind) && at > now {
                Some(timestamp_millis(at))
            } else {
                None
            }
        },
        None => {
            if is_temporary(kind) {
                None
            } else {
                Some(-1)
            }
        },
    }
}

/// A flag of the `extra` column kept when the `SEEN` flag is set anew: any
/// flag but an empty one and `SEEN` itself.
pub open spec fn keeps_flag(flag: Seq<char>) -> bool {
    flag.len() > 0 && flag != "SEEN"@
}

/// The flags kept of a list of flags, in order.
pub open spec fn kept_flags(flags: Seq<Seq<char>>) -> Seq<Seq<char>> {
    flags.filter(|f: Seq<char>| keeps_flag(f))
}

/// The flags of an `extra` text with the `SEEN` flag set to `value`.
pub open spec fn flags_with_seen(extra: Seq<char>, value: bool) -> Seq<Seq<char>> {
    let kept = kept_flags(split_on(extra, ','));
    if value {
        kept.push("SEEN"@)
    } else {
        kept
    }
}

/// Whether an `extra` text carries the `SEEN` flag.
pub open spec fn has_seen_flag(extra: Seq<char>) -> bool {
    split_on(extra, ',').contains("SEEN"@)
}

/// The `extra` text with the `SEEN` flag set to `value`: the other flags
/// keep their order, empty flags and repeated `SEEN` flags are dropped, and
/// `SEEN` goes last when set.
pub fn with_seen(extra: &str, value: bool) -> (res: String)
    ensures
        res@ == join_with(flags_with_seen(extra@, value), ','),
{
    let parts = split_text(extra, ',');
    let ghost views = parts@.map_values(|p: String| p@);
    let mut flags: Vec<String> = Vec::new();
    let mut i: usize = 0;
    while i < parts.len()
        invariant
            views == parts@.map_values(|p: String| p@),
            i <= parts@.len(),
            flags@.map_values(|p: String| p@) == kept_flags(views.take(i as int)),
        decreases parts@.len() - i,
    {
        let part = parts[i].as_str();
        let ghost before = flags@.map_values(|p: String| p@);
        proof {
            reveal(Seq::filter);
            assert(views.take(i + 1).drop_last() =~= views.take(i as int));
            assert(views.take(i + 1).last() == part@);
        }
        if !part.is_empty() && !text_eq(part, "SEEN") {
            flags.push(parts[i].clone());
            proof {
                assert(flags@.map_values(|p: String| p@) =~= before.push(part@));
            }
        }
        i = i + 1;
    }
    proof {
        assert(views.take(parts@.len() as int) =~= views);
        reveal_strlit("SEEN");
    }
    if value {
        let ghost before = flags@.map_values(|p: String| p@);
        flags.push("SEEN".to_owned());
        proof {
            assert(flags@.map_values(|p: String| p@) =~= before.push("SEEN"@));
        }
    }
    proof {
        reveal_strlit(",");
    }
    join_text(flags.as_slice(), ",")
}

/// Whether an `extra` text carries the `SEEN` flag.
pub fn is_seen(extra: &str) -> (res: bool)
    ensures
        res == has_seen_flag(extra@),
{
    let parts = split_text(extra, ',');
    let ghost views = parts@.map_values(|p: String| p@);
    let mut i: usize = 0;
    while i < parts.len()
        invariant
            views == parts@.map_values(|p: String| p@),
            views == split_on(extra@, ','),
            i <= parts@.len(),
            forall|j: int| 0 <= j < i ==> #[trigger] views[j] != "SEEN"@,
        decreases parts@.len() - i,
    {
        if text_eq(parts[i].as_str(), "SEEN") {
            proof {
                assert(views[i as int] == "SEEN"@);
            }
            return true;
        }
        i = i + 1;
    }
    false
}

/// The parts of a text split at a separator hold no separator.
pub proof fn lemma_split_parts_free(s: Seq<char>, sep: char)
    ensures
        forall|i: int|
            0 <= i < split_on(s, sep).len() ==> free_of(#[trigger] split_on(s, sep)[i], sep),
    decreases s.len(),
{
    if s.len() > 0 {
        lemma_split_parts_free(s.drop_first(), sep);
        crate::text::lemma_split_nonempty(s.drop_first(), sep);
        let rest = split_on(s.drop_first(), sep);
        if s[0] != sep {
            let first = seq![s[0]] + rest[0];
            assert(free_of(rest[0], sep));
            assert forall|j: int| 0 <= j < first.len() implies #[trigger] first[j] != sep by {
                if j > 0 {
                    assert(first[j] == rest[0][j - 1]);
                }
            }
            assert forall|i: int| 0 <= i < split_on(s, sep).len() implies free_of(
                #[trigger] split_on(s, sep)[i],
                sep,
            ) by {
                if i > 0 {
                    assert(split_on(s, sep)[i] == rest[i]);
                }
            }
        } else {
            assert forall|i: int| 0 <= i < split_on(s, sep).len() implies free_of(
                #[trigger] split_on(s, sep)[i],
                sep,
            ) by {
                if i > 0 {
                    assert(split_on(s, sep)[i] == rest[i - 1]);
                }
            }
        }
    }
}

/// The kept flags of flags without a comma have none either.
proof fn lemma_kept_flags_free(flags: Seq<Seq<char>>)
    requires
        forall|i: int| 0 <= i < flags.len() ==> free_of(#[trigger] flags[i], ','),
    ensures
        forall|i: int|
            0 <= i < kept_flags(flags).len() ==> free_of(#[trigger] kept_flags(flags)[i], ','),
    decreases flags.len(),
{
    reveal(Seq::filter);
    if flags.len() > 0 {
        let rest = flags.drop_last();
        assert forall|i: int| 0 <= i < rest.len() implies free_of(#[trigger] rest[i], ',') by {
            assert(rest[i] == flags[i]);
        }
        lemma_kept_flags_free(rest);
        assert(free_of(flags[flags.len() - 1], ','));
        let sub = kept_flags(rest);
        if keeps_flag(flags.last()) {
            assert(kept_flags(flags) == sub.push(flags.last()));
            assert forall|i: int| 0 <= i < kept_flags(flags).len() implies free_of(
                #[trigger] kept_flags(flags)[i],
                ',',
            ) by {
                if i < sub.len() {
                    assert(kept_flags(flags)[i] == sub[i]);
                }
            }
        } else {
            assert(kept_flags(flags) == sub);
        }
    }
}

/// Keeping the kept flags again keeps them all.
proof fn lemma_kept_flags_again(flags: Seq<Seq<char>>)
    ensures
        kept_flags(kept_flags(flags)) == kept_flags(flags),
    decreases flags.len(),
{
    reveal(Seq::filter);
    if flags.len() > 0 {
        lemma_kept_flags_again(flags.drop_last());
        let sub = kept_flags(flags.drop_last());
        if keeps_flag(flags.last()) {
            assert(kept_flags(flags) == sub.push(flags.last()));
            assert(sub.push(flags.last()).drop_last() =~= sub);
        }
    }
}

/// How many times the `SEEN` flag occurs in a list of flags.
pub open spec fn seen_count(flags: Seq<Seq<char>>) -> nat {
    flags.filter(|f: Seq<char>| f == "SEEN"@).len()
}

/// Flags of which none is `SEEN` hold it no time.
proof fn lemma_seen_count_none(flags: Seq<Seq<char>>)
    requires
        forall|i: int| 0 <= i < flags.len() ==> #[trigger] flags[i] != "SEEN"@,
    ensures
        seen_count(flags) == 0,
    decreases flags.len(),
{
    reveal(Seq::filter);
    if flags.len() > 0 {
        let rest = flags.drop_last();
        assert forall|i: int| 0 <= i < rest.len() implies #[trigger] rest[i] != "SEEN"@ by {
            assert(rest[i] == flags[i]);
        }
        lemma_seen_count_none(rest);
        assert(flags.last() != "SEEN"@);
    }
}

/// Law: setting the `SEEN` flag to `value` leaves an `extra` text that
/// carries it exactly when `value` holds (once, never repeated), and keeps
/// the other flags.
pub proof fn lemma_with_seen_sets_flag(extra: Seq<char>, value: bool)
    ensures
        has_seen_flag(join_with(flags_with_seen(extra, value), ',')) == value,
        seen_count(split_on(join_with(flags_with_seen(extra, value), ','), ',')) == (if value {
            1nat
        } else {
            0nat
        }),
        kept_flags(split_on(join_with(flags_with_seen(extra, value), ','), ',')) == kept_flags(
            split_on(extra, ','),
        ),
{
    let parts = split_on(extra, ',');
    let kept = kept_flags(parts);
    let flags = flags_with_seen(extra, value);
    reveal_strlit("SEEN");
    broadcast use Seq::lemma_filter_pred;
    lemma_split_parts_free(extra, ',');
    lemma_kept_flags_free(parts);
    assert forall|i: int| 0 <= i < kept.len() implies #[trigger] kept[i] != "SEEN"@ by {
        assert(keeps_flag(kept[i]));
    }
    let seen = "SEEN"@;
    assert(free_of(seen, ','));
    assert forall|i: int| 0 <= i < flags.len() implies free_of(#[trigger] flags[i], ',') by {
        if i < kept.len() {
            assert(flags[i] == kept[i]);
        }
    }
    lemma_kept_flags_again(parts);
    if flags.len() == 0 {
        assert(join_with(flags, ',') =~= Seq::<char>::empty());
        assert(!value);
        assert(split_on(Seq::<char>::empty(), ',') =~= seq![Seq::<char>::empty()]);
        assert(!seq![Seq::<char>::empty()].contains(seen)) by {
            if seq![Seq::<char>::empty()].contains(seen) {
                assert(seq![Seq::<char>::empty()][0] == seen);
            }
        }
        reveal(Seq::filter);
        let one = seq![Seq::<char>::empty()];
        assert(one.drop_last() =~= Seq::<Seq<char>>::empty());
        assert(kept_flags(Seq::<Seq<char>>::empty()) == Seq::<Seq<char>>::empty());
        assert(!keeps_flag(one.last()));
        assert(kept_flags(one) == kept_flags(one.drop_last()));
        assert(one[0] != seen);
        lemma_seen_count_none(one);
    } else {
        lemma_split_join(flags, ',');
        lemma_seen_count_none(kept);
        if value {
            assert(flags[flags.len() - 1] == seen);
            reveal(Seq::filter);
            assert(flags.drop_last() =~= kept);
            assert(!keeps_flag(seen));
            assert(flags.last() == seen);
            assert(seen_count(flags) == seen_count(kept) + 1);
        } else {
            assert(!kept.contains(seen));
            assert(flags == kept);
        }
    }
}


/// The body of a request to create a punishment.
pub struct CreatePunishmentRequest {
    pub r_type: String,
    pub target: String,
    pub target_name: String,
    pub reason: String,
    pub server: String,
    pub expires_at: Option<i128>,
}

/// A punishment ready to be written: who imposes it, on what, why, where,
/// and from when to when (epoch milliseconds, `-1` for never).
pub struct NewPunishment {
    pub actor_id: u128,
    pub kind: PunishmentType,
    pub name: String,
    pub target: String,
    pub reason: String,
    pub server: String,
    pub start: i64,
    pub end: i64,
}

/// What a request to create a punishment is answered before the database is
/// asked, or the punishment to write. The checks come in this order: the
/// key's right to write, the kind, the expiry, the target, then the texts
/// that must not be blank. The server is stored in lowercase.
pub fn plan_create_punishment(
    key: &ApiKey,
    body: &CreatePunishmentRequest,
    now: i128,
    ip: Option<IpTarget>,
) -> (res: Result<NewPunishment, Refusal>)
    requires
        fits_millis(now),
        body.expires_at matches Some(at) ==> fits_millis(at),
    ensures
        match writer_of(*key) {
            None => res == Err::<NewPunishment, Refusal>(Refusal::Forbidden),
            Some(actor) => match kind_named(body.r_type@) {
                None => res == Err::<NewPunishment, Refusal>(Refusal::Invalid),
                Some(kind) => match end_of(kind, body.expires_at, now) {
                    None => res == Err::<NewPunishment, Refusal>(Refusal::Invalid),
                    Some(end) => match normalized_target(kind, body.target@, ip_view(ip)) {
                        None => res == Err::<NewPunishment, Refusal>(Refusal::Invalid),
                        Some(target) => if is_blank(body.target_name@) || is_blank(body.reason@)
                            || is_blank(body.server@) {
                            res == Err::<NewPunishment, Refusal>(Refusal::Invalid)
                        } else {
                            res matches Ok(p) && p.actor_id == actor && p.kind == kind
                                && p.target@ == target && p.name@ == body.target_name@
                                && p.reason@ == body.reason@ && p.server@ == unicode_lowercase(
                                body.server@,
                            ) && p.start == millis_of(now as int) && p.end == end
                        },
                    },
                },
            },
        },
{
    let actor_id = match write_actor(key) {
        Some(actor) => actor,
        None => return Err(Refusal::Forbidden),
    };
    let kind = match PunishmentType::parse(body.r_type.as_str()) {
        Some(kind) => kind,
        None => return Err(Refusal::Invalid),
    };
    let end = match end_millis(kind, body.expires_at, now) {
        Some(end) => end,
        None => return Err(Refusal::Invalid),
    };
    let target = match normalize_target(kind, body.target.as_str(), ip) {
        Some(target) => target,
        None => return Err(Refusal::Invalid),
    };
    if !non_empty(body.target_name.as_str()) || !non_empty(body.reason.as_str()) || !non_empty(
        body.server.as_str(),
    ) {
        return Err(Refusal::Invalid);
    }
    Ok(
        NewPunishment {
            actor_id,
            kind,
            name: body.target_name.clone(),
            target,
            reason: body.reason.clone(),
            server: to_lowercase(body.server.as_str()),
            start: timestamp_millis(now),
            end,
        },
    )
}

/// The punishment a request to add a proof names, or why it is refused:
/// the key's right to write first, then a blank text, then an identifier no
/// row can have.
pub fn plan_create_proof(key: &ApiKey, text: &str, punishment_id: u64) -> (res: Result<
    i64,
    Refusal,
>)
    ensures
        writer_of(*key) is None ==> res == Err::<i64, Refusal>(Refusal::Forbidden),
        writer_of(*key) is Some && is_blank(text@) ==> res == Err::<i64, Refusal>(
            Refusal::Invalid,
        ),
        writer_of(*key) is Some && !is_blank(text@) ==> res == (if punishment_id <= i64::MAX {
            Ok::<i64, Refusal>(punishment_id as i64)
        } else {
            Err::<i64, Refusal>(Refusal::NotFound)
        }),
{
    if write_actor(key).is_none() {
        return Err(Refusal::Forbidden);
    }
    if !non_empty(text) {
        return Err(Refusal::Invalid);
    }
    match row_id(punishment_id) {
        Some(id) => Ok(id),
        None => Err(Refusal::NotFound),
    }
}

/// Who revokes which punishment, or why the request is refused: the key's
/// right to write first, then a blank reason, then an identifier no row can
/// have.
pub fn plan_revoke_punishment(key: &ApiKey, reason: &str, punishment_id: u64) -> (res: Result<
    (u128, i64),
    Refusal,
>)
    ensures
        match writer_of(*key) {
            None => res == Err::<(u128, i64), Refusal>(Refusal::Forbidden),
            Some(actor) => if is_blank(reason@) {
                res == Err::<(u128, i64), Refusal>(Refusal::Invalid)
            } else if punishment_id <= i64::MAX {
                res == Ok::<(u128, i64), Refusal>((actor, punishment_id as i64))
            } else {
                res == Err::<(u128, i64), Refusal>(Refusal::NotFound)
            },
        },
{
    let actor = match write_actor(key) {
        Some(actor) => actor,
        None => return Err(Refusal::Forbidden),
    };
    if !non_empty(reason) {
        return Err(Refusal::Invalid);
    }
    match row_id(punishment_id) {
        Some(id) => Ok((actor, id)),
        None => Err(Refusal::NotFound),
    }
}

/// The punishment a read names (a punishment, or the list of its proofs),
/// or why it is refused.
pub fn plan_read_punishment(key: &ApiKey, punishment_id: u64) -> (res: Result<i64, Refusal>)
    ensures
        !grants(key.granted(), ApiKeyScope::PunishmentsColonRead) ==> res == Err::<i64, Refusal>(
            Refusal::Forbidden,
        ),
        grants(key.granted(), ApiKeyScope::PunishmentsColonRead) ==> res == (if punishment_id
            <= i64::MAX {
            Ok::<i64, Refusal>(punishment_id as i64)
        } else {
            Err::<i64, Refusal>(Refusal::NotFound)
        }),
{
    if !can_read(key) {
        return Err(Refusal::Forbidden);
    }
    match row_id(punishment_id) {
        Some(id) => Ok(id),
        None => Err(Refusal::NotFound),
    }
}

/// The two identifiers of a proof as the database holds them, or `None`
/// where one of them no row can have.
pub open spec fn proof_row_ids(punishment_id: u64, proof_id: u64) -> Option<(i64, i64)> {
    if punishment_id <= i64::MAX && proof_id <= i64::MAX {
        Some((punishment_id as i64, proof_id as i64))
    } else {
        None
    }
}

fn proof_ids(punishment_id: u64, proof_id: u64) -> (res: Result<(i64, i64), Refusal>)
    ensures
        res == (match proof_row_ids(punishment_id, proof_id) {
            Some(ids) => Ok::<(i64, i64), Refusal>(ids),
            None => Err::<(i64, i64), Refusal>(Refusal::NotFound),
        }),
{
    match (row_id(punishment_id), row_id(proof_id)) {
        (Some(p), Some(q)) => Ok((p, q)),
        _ => Err(Refusal::NotFound),
    }
}

/// The proof a read names, or why it is refused.
pub fn plan_read_proof(key: &ApiKey, punishment_id: u64, proof_id: u64) -> (res: Result<
    (i64, i64),
    Refusal,
>)
    ensures
        !grants(key.granted(), ApiKeyScope::PunishmentsColonRead) ==> res == Err::<
            (i64, i64),
            Refusal,
        >(Refusal::Forbidden),
        grants(key.granted(), ApiKeyScope::PunishmentsColonRead) ==> res == (match proof_row_ids(
            punishment_id,
            proof_id,
        ) {
            Some(ids) => Ok::<(i64, i64), Refusal>(ids),
            None => Err::<(i64, i64), Refusal>(Refusal::NotFound),
        }),
{
    if !can_read(key) {
        return Err(Refusal::Forbidden);
    }
    proof_ids(punishment_id, proof_id)
}

/// The proof a request to delete names, or why it is refused.
pub fn plan_delete_proof(key: &ApiKey, punishment_id: u64, proof_id: u64) -> (res: Result<
    (i64, i64),
    Refusal,
>)
    ensures
        writer_of(*key) is None ==> res == Err::<(i64, i64), Refusal>(Refusal::Forbidden),
        writer_of(*key) is Some ==> res == (match proof_row_ids(punishment_id, proof_id) {
            Some(ids) => Ok::<(i64, i64), Refusal>(ids),
            None => Err::<(i64, i64), Refusal>(Refusal::NotFound),
        }),
{
    if write_actor(key).is_none() {
        return Err(Refusal::Forbidden);
    }
    proof_ids(punishment_id, proof_id)
}

/// The body of a request to change a punishment.
pub struct UpdatePunishmentRequest {
    pub reason: Option<String>,
    pub seen: Option<bool>,
}

/// A change that changes nothing, or sets a blank reason.
pub open spec fn update_invalid(reason: Option<Seq<char>>, seen: Option<bool>) -> bool {
    (reason is None && seen is None) || (reason matches Some(r) && is_blank(r))
}

pub open spec fn opt_view(value: Option<String>) -> Option<Seq<char>> {
    match value {
        Some(s) => Some(s@),
        None => None,
    }
}

/// The punishment a change names, or why it is refused: the key's right to
/// write first, then a change that changes nothing or blanks the reason,
/// then an identifier no row can have.
pub fn plan_update_punishment(
    key: &ApiKey,
    body: &UpdatePunishmentRequest,
    punishment_id: u64,
) -> (res: Result<i64, Refusal>)
    ensures
        writer_of(*key) is None ==> res == Err::<i64, Refusal>(Refusal::Forbidden),
        writer_of(*key) is Some && update_invalid(opt_view(body.reason), body.seen) ==> res
            == Err::<i64, Refusal>(Refusal::Invalid),
        writer_of(*key) is Some && !update_invalid(opt_view(body.reason), body.seen) ==> res == (
        if punishment_id <= i64::MAX {
            Ok::<i64, Refusal>(punishment_id as i64)
        } else {
            Err::<i64, Refusal>(Refusal::NotFound)
        }),
{
    if write_actor(key).is_none() {
        return Err(Refusal::Forbidden);
    }
    let blank_reason = match &body.reason {
        Some(reason) => !non_empty(reason.as_str()),
        None => false,
    };
    if (body.reason.is_none() && body.seen.is_none()) || blank_reason {
        return Err(Refusal::Invalid);
    }
    match row_id(punishment_id) {
        Some(id) => Ok(id),
        None => Err(Refusal::NotFound),
    }
}

/// The reason and `extra` text a punishment has after a change: the new
/// reason where one is given, and the `SEEN` flag set where it is given.
pub fn apply_punishment_update(
    body: &UpdatePunishmentRequest,
    old_reason: &str,
    old_extra: &str,
) -> (res: (String, String))
    ensures
        res.0@ == (match body.reason {
            Some(r) => r@,
            None => old_reason@,
        }),
        res.1@ == (match body.seen {
            Some(v) => join_with(flags_with_seen(old_extra@, v), ','),
            None => old_extra@,
        }),
{
    let reason = match &body.reason {
        Some(r) => r.clone(),
        None => old_reason.to_owned(),
    };
    let extra = match body.seen {
        Some(v) => with_seen(old_extra, v),
        None => old_extra.to_owned(),
    };
    (reason, extra)
}

/// The body of a request to change a proof.
pub struct UpdateProofRequest {
    pub text: Option<String>,
    pub public: Option<bool>,
}

/// The proof a change names, or why it is refused: the key's right to
/// write first, then a change that changes nothing or blanks the text, then
/// identifiers no row can have.
pub fn plan_update_proof(
    key: &ApiKey,
    body: &UpdateProofRequest,
    punishment_id: u64,
    proof_id: u64,
) -> (res: Result<(i64, i64), Refusal>)
    ensures
        writer_of(*key) is None ==> res == Err::<(i64, i64), Refusal>(Refusal::Forbidden),
        writer_of(*key) is Some && update_invalid(opt_view(body.text), body.public) ==> res
            == Err::<(i64, i64), Refusal>(Refusal::Invalid),
        writer_of(*key) is Some && !update_invalid(opt_view(body.text), body.public) ==> res == (
        match proof_row_ids(punishment_id, proof_id) {
            Some(ids) => Ok::<(i64, i64), Refusal>(ids),
            None => Err::<(i64, i64), Refusal>(Refusal::NotFound),
        }),
{
    if write_actor(key).is_none() {
        return Err(Refusal::Forbidden);
    }
    let blank_text = match &body.text {
        Some(text) => !non_empty(text.as_str()),
        None => false,
    };
    if (body.text.is_none() && body.public.is_none()) || blank_text {
        return Err(Refusal::Invalid);
    }
    proof_ids(punishment_id, proof_id)
}

/// The text and visibility a proof has after a change.
pub fn apply_proof_update(body: &UpdateProofRequest, old_text: &str, old_public: bool) -> (res: (
    String,
    bool,
))
    ensures
        res.0@ == (match body.text {
            Some(t) => t@,
            None => old_text@,
        }),
        res.1 == (match body.public {
            Some(p) => p,
            None => old_public,
        }),
{
    let text = match &body.text {
        Some(t) => t.clone(),
        None => old_text.to_owned(),
    };
    let public = match body.public {
        Some(p) => p,
        None => old_public,
    };
    (text, public)
}

/// The page size when a list request names none, and the largest allowed.
pub const DEFAULT_LIMIT: u8 = 20;

pub const MAX_LIMIT: u8 = 100;

/// The query of a request to list punishments. The cursor is the one the
/// request carries, as read from its text (`Err` where that failed).
pub struct ListPunishmentsQuery {
    pub limit: Option<u8>,
    pub r_type: Option<String>,
    pub target: Option<String>,
    pub server: Option<String>,
    pub active: Option<bool>,
    pub created_from: Option<i128>,
    pub created_to: Option<i128>,
    pub expires_from: Option<i128>,
    pub expires_to: Option<i128>,
    pub revoked_from: Option<i128>,
    pub revoked_to: Option<i128>,
    pub cursor: Option<Result<Cursor<i64, u64>, CursorError>>,
}

/// What a list of punishments is read with: bounds in epoch milliseconds,
/// the server in lowercase, and the cursor to start after.
pub struct PunishmentListing {
    pub limit: u8,
    pub kind: Option<PunishmentType>,
    pub target: Option<String>,
    pub server: Option<String>,
    pub active: Option<bool>,
    pub created_from: Option<i64>,
    pub created_to: Option<i64>,
    pub expires_from: Option<i64>,
    pub expires_to: Option<i64>,
    pub revoked_from: Option<i64>,
    pub revoked_to: Option<i64>,
    pub cursor: Option<(i64, u64)>,
}

pub open spec fn opt_millis(value: Option<i128>) -> Option<i64> {
    match value {
        Some(v) => Some(millis_of(v as int) as i64),
        None => None,
    }
}

pub open spec fn opt_fits_millis(value: Option<i128>) -> bool {
    value matches Some(v) ==> fits_millis(v)
}

fn opt_timestamp_millis(value: Option<i128>) -> (res: Option<i64>)
    requires
        opt_fits_millis(value),
    ensures
        res == opt_millis(value),
{
    match value {
        Some(v) => Some(timestamp_millis(v)),
        None => None,
    }
}

/// Whether a list query is invalid: a limit outside 1 to 100 (20 when none
/// is given), a range whose lower bound does not precede its upper bound,
/// a kind that is none, or a cursor that could not be read.
pub open spec fn list_query_invalid(query: ListPunishmentsQuery) -> bool {
    let limit = match query.limit {
        Some(l) => l,
        None => DEFAULT_LIMIT,
    };
    ||| !(1 <= limit <= MAX_LIMIT)
    ||| !valid_half_open_range(query.created_from, query.created_to)
    ||| !valid_half_open_range(query.expires_from, query.expires_to)
    ||| !valid_half_open_range(query.revoked_from, query.revoked_to)
    ||| (query.r_type matches Some(t) && kind_named(t@) is None)
    ||| (query.cursor matches Some(c) && c is Err)
}

/// How a list of punishments is read, or why the request is refused.
pub fn plan_list_punishments(key: &ApiKey, query: &ListPunishmentsQuery) -> (res: Result<
    PunishmentListing,
    Refusal,
>)
    requires
        opt_fits_millis(query.created_from),
        opt_fits_millis(query.created_to),
        opt_fits_millis(query.expires_from),
        opt_fits_millis(query.expires_to),
        opt_fits_millis(query.revoked_from),
        opt_fits_millis(query.revoked_to),
    ensures
        !grants(key.granted(), ApiKeyScope::PunishmentsColonRead) ==> res == Err::<
            PunishmentListing,
            Refusal,
        >(Refusal::Forbidden),
        grants(key.granted(), ApiKeyScope::PunishmentsColonRead) && list_query_invalid(*query)
            ==> res == Err::<PunishmentListing, Refusal>(Refusal::Invalid),
        grants(key.granted(), ApiKeyScope::PunishmentsColonRead) && !list_query_invalid(*query)
            ==> (res matches Ok(plan) && plan.limit == (match query.limit {
            Some(l) => l,
            None => DEFAULT_LIMIT,
        }) && plan.kind == (match query.r_type {
            Some(t) => kind_named(t@),
            None => None,
        }) && opt_view(plan.target) == opt_view(query.target) && opt_view(plan.server) == (
        match query.server {
            Some(s) => Some(unicode_lowercase(s@)),
            None => None,
        }) && plan.active == query.active && plan.created_from == opt_millis(query.created_from)
            && plan.created_to == opt_millis(query.created_to) && plan.expires_from == opt_millis(
            query.expires_from,
        ) && plan.expires_to == opt_millis(query.expires_to) && plan.revoked_from == opt_millis(
            query.revoked_from,
        ) && plan.revoked_to == opt_millis(query.revoked_to) && plan.cursor == (
        match query.cursor {
            Some(Ok(c)) => Some((c.value, c.tie_breaker)),
            _ => None,
        })),
{
    if !can_read(key) {
        return Err(Refusal::Forbidden);
    }
    let limit = match query.limit {
        Some(l) => l,
        None => DEFAULT_LIMIT,
    };
    if !(1 <= limit && limit <= MAX_LIMIT) || !is_valid_half_open_range(
        query.created_from.as_ref(),
        query.created_to.as_ref(),
    ) || !is_valid_half_open_range(query.expires_from.as_ref(), query.expires_to.as_ref())
        || !is_valid_half_open_range(query.revoked_from.as_ref(), query.revoked_to.as_ref()) {
        return Err(Refusal::Invalid);
    }
    let kind = match &query.r_type {
        Some(value) => match PunishmentType::parse(value.as_str()) {
            Some(kind) => Some(kind),
            None => return Err(Refusal::Invalid),
        },
        None => None,
    };
    let cursor = match &query.cursor {
        Some(Ok(c)) => Some((c.value, c.tie_breaker)),
        Some(Err(_)) => return Err(Refusal::Invalid),
        None => None,
    };
    let target = match &query.target {
        Some(t) => Some(t.clone()),
        None => None,
    };
    let server = match &query.server {
        Some(s) => Some(to_lowercase(s.as_str())),
        None => None,
    };
    Ok(
        PunishmentListing {
            limit,
            kind,
            target,
            server,
            active: query.active,
            created_from: opt_timestamp_millis(query.created_from),
            created_to: opt_timestamp_millis(query.created_to),
            expires_from: opt_timestamp_millis(query.expires_from),
            expires_to: opt_timestamp_millis(query.expires_to),
            revoked_from: opt_timestamp_millis(query.revoked_from),
            revoked_to: opt_timestamp_millis(query.revoked_to),
            cursor,
        },
    )
}

/// The cursor of the page after one read with one row more than `limit`,
/// from the rows' keys (start, identifier) newest first: the extra key is
/// dropped, and the page continues after the last key kept.
pub fn punishment_page_cursor(keys: &mut Vec<(i64, i64)>, limit: u8) -> (res: Option<
    Cursor<i64, u64>,
>)
    requires
        old(keys)@.len() <= limit as int + 1,
    ensures
        old(keys)@.len() <= limit ==> res is None && final(keys)@ == old(keys)@,
        old(keys)@.len() > limit ==> final(keys)@ == old(keys)@.drop_last(),
        old(keys)@.len() > limit && limit > 0 ==> (res matches Some(c) && c.value == old(
            keys,
        )@[limit - 1].0 && c.tie_breaker == old(keys)@[limit - 1].1 as u64),
        old(keys)@.len() > limit && limit == 0 ==> res is None,
{
    if keys.len() <= limit as usize {
        return None;
    }
    let _ = keys.pop();
    if keys.len() == 0 {
        return None;
    }
    let last = keys[keys.len() - 1];
    Some(Cursor { value: last.0, tie_breaker: last.1 as u64 })
}


/// Law: a change to a punishment (or a proof) is refused as invalid exactly
/// when it gives no field at all or gives a blank reason (text): setting or
/// clearing the flag alone (`seen`, `public`, true or false) is a valid
/// change, and so is any reason (text) that is not blank, whatever the flag.
pub proof fn lemma_update_refused_only_when_empty_or_blank(
    reason: Option<Seq<char>>,
    flag: Option<bool>,
)
    ensures
        update_invalid(None, None),
        forall|v: bool| !update_invalid(None, Some(v)),
        reason matches Some(r) && !is_blank(r) ==> !update_invalid(reason, flag),
        reason matches Some(r) && is_blank(r) ==> update_invalid(reason, flag),
        reason is None && flag is Some ==> !update_invalid(reason, flag),
{
}

} // verus!
