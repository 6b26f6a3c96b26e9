//! The event stream: the kinds of events, their names on the wire, who may
//! see them, where a published event goes, and the listener's reconnect
//! back-off.
use vstd::prelude::*;

use crate::auth::scope::grants;
use crate::models::{ApiKey, ApiKeyScope, Crawl, PatchNote, Player, Proof, Punishment};

verus! {

/// The kinds of stream events.
#[derive(Clone, Copy, Debug, PartialEq, Eq, Structural)]
pub enum StreamEventKind {
    CrawlCreated,
    CrawlDeleted,
    FriendAdded,
    FriendRemoved,
    FriendRequestAccepted,
    FriendRequestAdded,
    FriendRequestRejected,
    FriendRequestRemoved,
    PatchNoteCreated,
    PatchNoteDeleted,
    PunishmentCreated,
    PunishmentProofCreated,
    PunishmentProofDeleted,
    PunishmentProofUpdated,
    PunishmentRevoked,
    PunishmentUpdated,
}

/// The `type` an event of a kind carries, also its SSE event name.
pub open spec fn event_type_name(kind: StreamEventKind) -> Seq<char> {
    match kind {
        StreamEventKind::CrawlCreated => "crawl-created"@,
        StreamEventKind::CrawlDeleted => "crawl-deleted"@,
        StreamEventKind::FriendAdded => "friend-added"@,
        StreamEventKind::FriendRemoved => "friend-removed"@,
        StreamEventKind::FriendRequestAccepted => "friend-request-accepted"@,
        StreamEventKind::FriendRequestAdded => "friend-request-added"@,
        StreamEventKind::FriendRequestRejected => "friend-request-rejected"@,
        StreamEventKind::FriendRequestRemoved => "friend-request-removed"@,
        StreamEventKind::PatchNoteCreated => "patch-note-created"@,
        StreamEventKind::PatchNoteDeleted => "patch-note-deleted"@,
        StreamEventKind::PunishmentCreated => "punishment-created"@,
        StreamEventKind::PunishmentProofCreated => "punishment-proof-created"@,
        StreamEventKind::PunishmentProofDeleted => "punishment-proof-deleted"@,
        StreamEventKind::PunishmentProofUpdated => "punishment-proof-updated"@,
        StreamEventKind::PunishmentRevoked => "punishment-revoked"@,
        StreamEventKind::PunishmentUpdated => "punishment-updated"@,
    }
}

/// The event's type name.
pub fn stream_event_type(kind: StreamEventKind) -> (res: &'static str)
    ensures
        res@ == event_type_name(kind),
{
    match kind {
        StreamEventKind::CrawlCreated => "crawl-created",
        StreamEventKind::CrawlDeleted => "crawl-deleted",
        StreamEventKind::FriendAdded => "friend-added",
        StreamEventKind::FriendRemoved => "friend-removed",
        StreamEventKind::FriendRequestAccepted => "friend-request-accepted",
        StreamEventKind::FriendRequestAdded => "friend-request-added",
        StreamEventKind::FriendRequestRejected => "friend-request-rejected",
        StreamEventKind::FriendRequestRemoved => "friend-request-removed",
        StreamEventKind::PatchNoteCreated => "patch-note-created",
        StreamEventKind::PatchNoteDeleted => "patch-note-deleted",
        StreamEventKind::PunishmentCreated => "punishment-created",
        StreamEventKind::PunishmentProofCreated => "punishment-proof-created",
        StreamEventKind::PunishmentProofDeleted => "punishment-proof-deleted",
        StreamEventKind::PunishmentProofUpdated => "punishment-proof-updated",
        StreamEventKind::PunishmentRevoked => "punishment-revoked",
        StreamEventKind::PunishmentUpdated => "punishment-updated",
    }
}

/// Whether a key may see events of a kind: crawl events need `crawls:read`,
/// friend events `players:read` or `players:read-details`, patch note events
/// `patch-notes:read`, punishment events `punishments:read`.
pub open spec fn visible_to(kind: StreamEventKind, granted: Seq<Seq<char>>) -> bool {
    match kind {
        StreamEventKind::CrawlCreated | StreamEventKind::CrawlDeleted => grants(
            granted,
            ApiKeyScope::CrawlsColonRead,
        ),
        StreamEventKind::FriendAdded | StreamEventKind::FriendRemoved
        | StreamEventKind::FriendRequestAccepted | StreamEventKind::FriendRequestAdded
        | StreamEventKind::FriendRequestRejected | StreamEventKind::FriendRequestRemoved => grants(
            granted,
            ApiKeyScope::PlayersColonRead,
        ) || grants(granted, ApiKeyScope::PlayersColonReadDetails),
        StreamEventKind::PatchNoteCreated | StreamEventKind::PatchNoteDeleted => grants(
            granted,
            ApiKeyScope::PatchNotesColonRead,
        ),
        _ => grants(granted, ApiKeyScope::PunishmentsColonRead),
    }
}

/// Whether `api_key` may see an event of this kind.
pub fn is_visible_to(kind: StreamEventKind, api_key: &ApiKey) -> (res: bool)
    ensures
        res == visible_to(kind, api_key.granted()),
{
    match kind {
        StreamEventKind::CrawlCreated | StreamEventKind::CrawlDeleted => api_key.has_scope(
            &ApiKeyScope::CrawlsColonRead,
        ),
        StreamEventKind::FriendAdded | StreamEventKind::FriendRemoved
        | StreamEventKind::FriendRequestAccepted | StreamEventKind::FriendRequestAdded
        | StreamEventKind::FriendRequestRejected | StreamEventKind::FriendRequestRemoved => api_key.has_scope(
            &ApiKeyScope::PlayersColonRead,
        ) || api_key.has_scope(&ApiKeyScope::PlayersColonReadDetails),
        StreamEventKind::PatchNoteCreated | StreamEventKind::PatchNoteDeleted => api_key.has_scope(
            &ApiKeyScope::PatchNotesColonRead,
        ),
        _ => api_key.has_scope(&ApiKeyScope::PunishmentsColonRead),
    }
}

/// Whether `api_key` may open the event stream (`stream:read`).
pub fn can_open_stream(api_key: &ApiKey) -> (res: bool)
    ensures
        res == grants(api_key.granted(), ApiKeyScope::StreamColonRead),
{
    api_key.has_scope(&ApiKeyScope::StreamColonRead)
}

/// What publishing an event to Redis came to.
#[derive(Clone, Copy, Debug, PartialEq, Eq)]
pub enum PublishOutcome {
    /// No Redis publisher is configured.
    NoPublisher,
    /// Redis took the event and handed it to this many subscribers.
    Published(usize),
    /// Redis could not be reached, after one retry.
    Failed,
}

/// Whether an event is delivered to this instance's own subscribers: always,
/// except when Redis handed it to some subscriber (this instance's listener
/// among them).
pub fn delivers_locally(outcome: PublishOutcome) -> (res: bool)
    ensures
        res == !(outcome matches PublishOutcome::Published(n) && n > 0),
{
    match outcome {
        PublishOutcome::NoPublisher => true,
        PublishOutcome::Published(0) => true,
        PublishOutcome::Published(_) => false,
        PublishOutcome::Failed => true,
    }
}

/// Whether a publish that failed is sent again: once, and only when the
/// connection had dropped (the connection manager reconnects meanwhile).
pub fn retry_publish(connection_dropped: bool, attempts_made: u32) -> (res: bool)
    ensures
        res == (connection_dropped && attempts_made == 1),
{
    connection_dropped && attempts_made == 1
}

/// Shortest wait before resubscribing, in milliseconds.
pub const RECONNECT_MIN_DELAY_MILLIS: u64 = 1000;

/// Longest wait before resubscribing, in milliseconds.
pub const RECONNECT_MAX_DELAY_MILLIS: u64 = 30000;

/// The wait after `current`: doubled, at most the longest wait.
pub open spec fn spec_next_reconnect_delay(current: u64) -> u64 {
    if current * 2 > RECONNECT_MAX_DELAY_MILLIS {
        RECONNECT_MAX_DELAY_MILLIS
    } else {
        (current * 2) as u64
    }
}

pub fn next_reconnect_delay(current: u64) -> (res: u64)
    ensures
        res == spec_next_reconnect_delay(current),
{
    if current > RECONNECT_MAX_DELAY_MILLIS / 2 {
        RECONNECT_MAX_DELAY_MILLIS
    } else {
        current * 2
    }
}

/// The listener's wait before its next attempt to subscribe: reset when a
/// subscription succeeds, doubled (up to the longest wait) after each wait.
pub struct ReconnectBackoff {
    delay_millis: u64,
}

impl View for ReconnectBackoff {
    type V = u64;

    closed spec fn view(&self) -> u64 {
        self.delay_millis
    }
}

impl ReconnectBackoff {
    #[verifier::type_invariant]
    closed spec fn inv(&self) -> bool {
        RECONNECT_MIN_DELAY_MILLIS <= self.delay_millis <= RECONNECT_MAX_DELAY_MILLIS
    }

    pub fn new() -> (res: Self)
        ensures
            res@ == RECONNECT_MIN_DELAY_MILLIS,
    {
        ReconnectBackoff { delay_millis: RECONNECT_MIN_DELAY_MILLIS }
    }

    /// A subscription succeeded: the next wait is the shortest.
    pub fn subscribed(&mut self)
        ensures
            final(self)@ == RECONNECT_MIN_DELAY_MILLIS,
    {
        self.delay_millis = RECONNECT_MIN_DELAY_MILLIS;
    }

    /// The listener waits: the wait to sleep now is returned and the next one
    /// doubles. Every wait lies between the shortest and the longest.
    pub fn wait(&mut self) -> (res: u64)
        ensures
            res == old(self)@,
            final(self)@ == spec_next_reconnect_delay(old(self)@),
            RECONNECT_MIN_DELAY_MILLIS <= res <= RECONNECT_MAX_DELAY_MILLIS,
            RECONNECT_MIN_DELAY_MILLIS <= final(self)@ <= RECONNECT_MAX_DELAY_MILLIS,
    {
        proof {
            use_type_invariant(&*self);
        }
        let current = self.delay_millis;
        self.delay_millis = next_reconnect_delay(current);
        current
    }
}

/// The wait after `failures` consecutive waits since the last subscription.
pub open spec fn delay_after(failures: nat) -> u64
    decreases failures,
{
    if failures == 0 {
        RECONNECT_MIN_DELAY_MILLIS
    } else {
        spec_next_reconnect_delay(delay_after((failures - 1) as nat))
    }
}

/// Law: the waits double from one second (1, 2, 4, 8, 16 seconds) and stay
/// at thirty seconds from the sixth on.
pub proof fn lemma_backoff_doubles_then_caps(failures: nat)
    ensures
        delay_after(0) == RECONNECT_MIN_DELAY_MILLIS,
        1 <= failures <= 4 ==> delay_after(failures) == 2 * delay_after((failures - 1) as nat),
        failures == 4 ==> delay_after(failures) == 16000,
        failures >= 5 ==> delay_after(failures) == RECONNECT_MAX_DELAY_MILLIS,
    decreases failures,
{
    if failures > 0 {
        lemma_backoff_doubles_then_caps((failures - 1) as nat);
    }
    assert(delay_after(0) == 1000);
    assert(delay_after(1) == 2000);
    assert(delay_after(2) == 4000);
    assert(delay_after(3) == 8000);
    assert(delay_after(4) == 16000);
    assert(delay_after(5) == 30000);
}


/// An event of the stream, with what it carries.
pub enum StreamEvent {
    CrawlCreated { crawl: Crawl },
    CrawlDeleted { crawl: Crawl },
    FriendAdded { player: Player, friend: Player },
    FriendRemoved { player: Player, friend: Player },
    FriendRequestAccepted { sender: Player, receiver: Player },
    FriendRequestAdded { sender: Player, receiver: Player },
    FriendRequestRejected { sender: Player, receiver: Player },
    FriendRequestRemoved { sender: Player, receiver: Player },
    PatchNoteCreated { patch_note: PatchNote },
    PatchNoteDeleted { patch_note: PatchNote },
    PunishmentCreated { punishment: Punishment },
    PunishmentUpdated { punishment: Punishment },
    PunishmentRevoked { punishment: Punishment },
    PunishmentProofCreated { punishment_id: u64, proof: Proof },
    PunishmentProofUpdated { punishment_id: u64, proof: Proof },
    PunishmentProofDeleted { punishment_id: u64, proof: Proof },
}

/// The kind of an event.
pub open spec fn kind_of(event: StreamEvent) -> StreamEventKind {
    match event {
        StreamEvent::CrawlCreated { .. } => StreamEventKind::CrawlCreated,
        StreamEvent::CrawlDeleted { .. } => StreamEventKind::CrawlDeleted,
        StreamEvent::FriendAdded { .. } => StreamEventKind::FriendAdded,
        StreamEvent::FriendRemoved { .. } => StreamEventKind::FriendRemoved,
        StreamEvent::FriendRequestAccepted { .. } => StreamEventKind::FriendRequestAccepted,
        StreamEvent::FriendRequestAdded { .. } => StreamEventKind::FriendRequestAdded,
        StreamEvent::FriendRequestRejected { .. } => StreamEventKind::FriendRequestRejected,
        StreamEvent::FriendRequestRemoved { .. } => StreamEventKind::FriendRequestRemoved,
        StreamEvent::PatchNoteCreated { .. } => StreamEventKind::PatchNoteCreated,
        StreamEvent::PatchNoteDeleted { .. } => StreamEventKind::PatchNoteDeleted,
        StreamEvent::PunishmentCreated { .. } => StreamEventKind::PunishmentCreated,
        StreamEvent::PunishmentUpdated { .. } => StreamEventKind::PunishmentUpdated,
        StreamEvent::PunishmentRevoked { .. } => StreamEventKind::PunishmentRevoked,
        StreamEvent::PunishmentProofCreated { .. } => StreamEventKind::PunishmentProofCreated,
        StreamEvent::PunishmentProofUpdated { .. } => StreamEventKind::PunishmentProofUpdated,
        StreamEvent::PunishmentProofDeleted { .. } => StreamEventKind::PunishmentProofDeleted,
    }
}

impl StreamEvent {
    /// The event's kind.
    pub fn kind(&self) -> (res: StreamEventKind)
        ensures
            res == kind_of(*self),
    {
        match self {
            StreamEvent::CrawlCreated { .. } => StreamEventKind::CrawlCreated,
            StreamEvent::CrawlDeleted { .. } => StreamEventKind::CrawlDeleted,
            StreamEvent::FriendAdded { .. } => StreamEventKind::FriendAdded,
            StreamEvent::FriendRemoved { .. } => StreamEventKind::FriendRemoved,
            StreamEvent::FriendRequestAccepted { .. } => StreamEventKind::FriendRequestAccepted,
            StreamEvent::FriendRequestAdded { .. } => StreamEventKind::FriendRequestAdded,
            StreamEvent::FriendRequestRejected { .. } => StreamEventKind::FriendRequestRejected,
            StreamEvent::FriendRequestRemoved { .. } => StreamEventKind::FriendRequestRemoved,
            StreamEvent::PatchNoteCreated { .. } => StreamEventKind::PatchNoteCreated,
            StreamEvent::PatchNoteDeleted { .. } => StreamEventKind::PatchNoteDeleted,
            StreamEvent::PunishmentCreated { .. } => StreamEventKind::PunishmentCreated,
            StreamEvent::PunishmentUpdated { .. } => StreamEventKind::PunishmentUpdated,
            StreamEvent::PunishmentRevoked { .. } => StreamEventKind::PunishmentRevoked,
            StreamEvent::PunishmentProofCreated { .. } => StreamEventKind::PunishmentProofCreated,
            StreamEvent::PunishmentProofUpdated { .. } => StreamEventKind::PunishmentProofUpdated,
            StreamEvent::PunishmentProofDeleted { .. } => StreamEventKind::PunishmentProofDeleted,
        }
    }

    /// The event's name on the wire.
    pub fn event_type(&self) -> (res: &'static str)
        ensures
            res@ == event_type_name(kind_of(*self)),
    {
        stream_event_type(self.kind())
    }

    /// Whether a key may see the event.
    pub fn is_visible_to(&self, api_key: &ApiKey) -> (res: bool)
        ensures
            res == visible_to(kind_of(*self), api_key.granted()),
    {
        is_visible_to(self.kind(), api_key)
    }
}

pub fn crawl_created_event(crawl: Crawl) -> (res: StreamEvent)
    ensures
        res == (StreamEvent::CrawlCreated { crawl }),
{
    StreamEvent::CrawlCreated { crawl }
}

pub fn crawl_deleted_event(crawl: Crawl) -> (res: StreamEvent)
    ensures
        res == (StreamEvent::CrawlDeleted { crawl }),
{
    StreamEvent::CrawlDeleted { crawl }
}

pub fn friend_added_event(player: Player, friend: Player) -> (res: StreamEvent)
    ensures
        res == (StreamEvent::FriendAdded { player, friend }),
{
    StreamEvent::FriendAdded { player, friend }
}

pub fn friend_removed_event(player: Player, friend: Player) -> (res: StreamEvent)
    ensures
        res == (StreamEvent::FriendRemoved { player, friend }),
{
    StreamEvent::FriendRemoved { player, friend }
}

pub fn friend_request_accepted_event(sender: Player, receiver: Player) -> (res: StreamEvent)
    ensures
        res == (StreamEvent::FriendRequestAccepted { sender, receiver }),
{
    StreamEvent::FriendRequestAccepted { sender, receiver }
}

pub fn friend_request_added_event(sender: Player, receiver: Player) -> (res: StreamEvent)
    ensures
        res == (StreamEvent::FriendRequestAdded { sender, receiver }),
{
    StreamEvent::FriendRequestAdded { sender, receiver }
}

pub fn friend_request_rejected_event(sender: Player, receiver: Player) -> (res: StreamEvent)
    ensures
        res == (StreamEvent::FriendRequestRejected { sender, receiver }),
{
    StreamEvent::FriendRequestRejected { sender, receiver }
}

pub fn friend_request_removed_event(sender: Player, receiver: Player) -> (res: StreamEvent)
    ensures
        res == (StreamEvent::FriendRequestRemoved { sender, receiver }),
{
    StreamEvent::FriendRequestRemoved { sender, receiver }
}

pub fn patch_note_created_event(patch_note: PatchNote) -> (res: StreamEvent)
    ensures
        res == (StreamEvent::PatchNoteCreated { patch_note }),
{
    StreamEvent::PatchNoteCreated { patch_note }
}

pub fn patch_note_deleted_event(patch_note: PatchNote) -> (res: StreamEvent)
    ensures
        res == (StreamEvent::PatchNoteDeleted { patch_note }),
{
    StreamEvent::PatchNoteDeleted { patch_note }
}

pub fn punishment_created_event(punishment: Punishment) -> (res: StreamEvent)
    ensures
        res == (StreamEvent::PunishmentCreated { punishment }),
{
    StreamEvent::PunishmentCreated { punishment }
}

pub fn punishment_updated_event(punishment: Punishment) -> (res: StreamEvent)
    ensures
        res == (StreamEvent::PunishmentUpdated { punishment }),
{
    StreamEvent::PunishmentUpdated { punishment }
}

pub fn punishment_revoked_event(punishment: Punishment) -> (res: StreamEvent)
    ensures
        res == (StreamEvent::PunishmentRevoked { punishment }),
{
    StreamEvent::PunishmentRevoked { punishment }
}

pub fn punishment_proof_created_event(punishment_id: u64, proof: Proof) -> (res: StreamEvent)
    ensures
        res == (StreamEvent::PunishmentProofCreated { punishment_id, proof }),
{
    StreamEvent::PunishmentProofCreated { punishment_id, proof }
}

pub fn punishment_proof_updated_event(punishment_id: u64, proof: Proof) -> (res: StreamEvent)
    ensures
        res == (StreamEvent::PunishmentProofUpdated { punishment_id, proof }),
{
    StreamEvent::PunishmentProofUpdated { punishment_id, proof }
}

pub fn punishment_proof_deleted_event(punishment_id: u64, proof: Proof) -> (res: StreamEvent)
    ensures
        res == (StreamEvent::PunishmentProofDeleted { punishment_id, proof }),
{
    StreamEvent::PunishmentProofDeleted { punishment_id, proof }
}

/// Law: each kind of event reaches exactly the keys granted the scope that
/// reads its resource: crawl events `crawls:read`, friend events
/// `players:read` or `players:read-details`, patch note events
/// `patch-notes:read`, punishment events `punishments:read` (each also
/// through `*`). A key that holds the scope's text sees the events.
pub proof fn lemma_events_reach_readers(granted: Seq<Seq<char>>)
    ensures
        visible_to(StreamEventKind::CrawlCreated, granted) == grants(granted, ApiKeyScope::CrawlsColonRead),
        visible_to(StreamEventKind::CrawlDeleted, granted) == grants(granted, ApiKeyScope::CrawlsColonRead),
        visible_to(StreamEventKind::FriendAdded, granted) == (grants(granted, ApiKeyScope::PlayersColonRead)
            || grants(granted, ApiKeyScope::PlayersColonReadDetails)),
        visible_to(StreamEventKind::FriendRequestAdded, granted) == (grants(
            granted,
            ApiKeyScope::PlayersColonRead,
        ) || grants(granted, ApiKeyScope::PlayersColonReadDetails)),
        visible_to(StreamEventKind::PatchNoteCreated, granted) == grants(granted, ApiKeyScope::PatchNotesColonRead),
        visible_to(StreamEventKind::PatchNoteDeleted, granted) == grants(granted, ApiKeyScope::PatchNotesColonRead),
        visible_to(StreamEventKind::PunishmentCreated, granted) == grants(granted, ApiKeyScope::PunishmentsColonRead),
        visible_to(StreamEventKind::PunishmentRevoked, granted) == grants(granted, ApiKeyScope::PunishmentsColonRead),
        granted.contains("patch-notes:read"@) ==> visible_to(StreamEventKind::PatchNoteCreated, granted)
            && visible_to(StreamEventKind::PatchNoteDeleted, granted),
        granted.contains("crawls:read"@) ==> visible_to(StreamEventKind::CrawlCreated, granted)
            && visible_to(StreamEventKind::CrawlDeleted, granted),
        granted.contains("punishments:read"@) ==> visible_to(StreamEventKind::PunishmentCreated, granted)
            && visible_to(StreamEventKind::PunishmentProofDeleted, granted),
        granted.contains("players:read"@) ==> visible_to(StreamEventKind::FriendAdded, granted)
            && visible_to(StreamEventKind::FriendRequestRemoved, granted),
{
    reveal_strlit("patch-notes:read");
    reveal_strlit("crawls:read");
    reveal_strlit("punishments:read");
    reveal_strlit("players:read");
    if granted.contains("patch-notes:read"@) {
        let i = choose|i: int| 0 <= i < granted.len() && granted[i] == "patch-notes:read"@;
        assert(granted[i] == crate::models::scope_name(ApiKeyScope::PatchNotesColonRead));
    }
    if granted.contains("crawls:read"@) {
        let i = choose|i: int| 0 <= i < granted.len() && granted[i] == "crawls:read"@;
        assert(granted[i] == crate::models::scope_name(ApiKeyScope::CrawlsColonRead));
    }
    if granted.contains("punishments:read"@) {
        let i = choose|i: int| 0 <= i < granted.len() && granted[i] == "punishments:read"@;
        assert(granted[i] == crate::models::scope_name(ApiKeyScope::PunishmentsColonRead));
    }
    if granted.contains("players:read"@) {
        let i = choose|i: int| 0 <= i < granted.len() && granted[i] == "players:read"@;
        assert(granted[i] == crate::models::scope_name(ApiKeyScope::PlayersColonRead));
    }
}

} // verus!
