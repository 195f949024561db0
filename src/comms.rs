use crate::relay::Relay3;
use crate::url::RelayUrl;
use nostr_types::{Event, Id, IdHex, Metadata, PublicKey, Tag, UncheckedUrl};
use vstd::prelude::*;

verus! {

/// Why a connection to a relay is held.
#[derive(Debug, Clone, Copy, PartialEq, Eq, Structural)]
pub enum RelayConnectionReason {
    Advertising,
    Config,
    Discovery,
    FetchAugments,
    FetchDirectMessages,
    FetchContacts,
    FetchEvent,
    FetchMentions,
    FetchMetadata,
    Follow,
    NostrConnect,
    PostEvent,
    PostContacts,
    PostLike,
    PostMetadata,
    PostMuteList,
    PostNostrConnect,
    ReadThread,
    SubscribePerson,
}

/// Whether a connection held for `reason` stays open indefinitely.
pub open spec fn is_persistent(reason: RelayConnectionReason) -> bool {
    match reason {
        RelayConnectionReason::FetchMentions => true,
        RelayConnectionReason::Follow => true,
        RelayConnectionReason::FetchDirectMessages => true,
        RelayConnectionReason::NostrConnect => true,
        RelayConnectionReason::ReadThread => true,
        _ => false,
    }
}

/// The human-readable description of `reason`.
pub open spec fn reason_text(reason: RelayConnectionReason) -> Seq<char> {
    match reason {
        RelayConnectionReason::Discovery => "Searching for other people's Relay Lists"@,
        RelayConnectionReason::Config => "Reading our client configuration"@,
        RelayConnectionReason::FetchMentions => "Searching for mentions of us"@,
        RelayConnectionReason::Follow => "Following the posts of people in our Contact List"@,
        RelayConnectionReason::FetchAugments =>
            "Fetching events that augment other events (likes, zaps, deletions)"@,
        RelayConnectionReason::FetchDirectMessages => "Fetching direct messages"@,
        RelayConnectionReason::FetchEvent => "Fetching a particular event"@,
        RelayConnectionReason::FetchMetadata => "Fetching metadata for a person"@,
        RelayConnectionReason::NostrConnect => "Nostr connect"@,
        RelayConnectionReason::PostEvent => "Posting an event"@,
        RelayConnectionReason::Advertising => "Advertising our relay list"@,
        RelayConnectionReason::PostLike => "Posting a reaction to an event"@,
        RelayConnectionReason::FetchContacts => "Fetching our contact list"@,
        RelayConnectionReason::PostContacts => "Posting our contact list"@,
        RelayConnectionReason::PostMuteList => "Posting our mute list"@,
        RelayConnectionReason::PostMetadata => "Posting our metadata"@,
        RelayConnectionReason::PostNostrConnect => "Posting nostrconnect"@,
        RelayConnectionReason::ReadThread => "Reading ancestors to build a thread"@,
        RelayConnectionReason::SubscribePerson => "Subscribe to the events of a person"@,
    }
}

impl RelayConnectionReason {
    /// A human-readable description.
    pub fn description(&self) -> (r: &'static str)
        ensures
            r@ == reason_text(*self),
    {
        match *self {
            RelayConnectionReason::Discovery => "Searching for other people's Relay Lists",
            RelayConnectionReason::Config => "Reading our client configuration",
            RelayConnectionReason::FetchMentions => "Searching for mentions of us",
            RelayConnectionReason::Follow => "Following the posts of people in our Contact List",
            RelayConnectionReason::FetchAugments =>
                "Fetching events that augment other events (likes, zaps, deletions)",
            RelayConnectionReason::FetchDirectMessages => "Fetching direct messages",
            RelayConnectionReason::FetchEvent => "Fetching a particular event",
            RelayConnectionReason::FetchMetadata => "Fetching metadata for a person",
            RelayConnectionReason::NostrConnect => "Nostr connect",
            RelayConnectionReason::PostEvent => "Posting an event",
            RelayConnectionReason::Advertising => "Advertising our relay list",
            RelayConnectionReason::PostLike => "Posting a reaction to an event",
            RelayConnectionReason::FetchContacts => "Fetching our contact list",
            RelayConnectionReason::PostContacts => "Posting our contact list",
            RelayConnectionReason::PostMuteList => "Posting our mute list",
            RelayConnectionReason::PostMetadata => "Posting our metadata",
            RelayConnectionReason::PostNostrConnect => "Posting nostrconnect",
            RelayConnectionReason::ReadThread => "Reading ancestors to build a thread",
            RelayConnectionReason::SubscribePerson => "Subscribe to the events of a person",
        }
    }

    /// Whether the connection should stay open indefinitely (following,
    /// mentions, direct messages, nostr connect, thread reading), rather than
    /// close once the job is done.
    pub fn persistent(&self) -> (r: bool)
        ensures
            r == is_persistent(*self),
    {
        match *self {
            RelayConnectionReason::Discovery => false,
            RelayConnectionReason::Config => false,
            RelayConnectionReason::FetchMentions => true,
            RelayConnectionReason::Follow => true,
            RelayConnectionReason::FetchAugments => false,
            RelayConnectionReason::FetchDirectMessages => true,
            RelayConnectionReason::FetchEvent => false,
            RelayConnectionReason::FetchMetadata => false,
            RelayConnectionReason::NostrConnect => true,
            RelayConnectionReason::PostEvent => false,
            RelayConnectionReason::Advertising => false,
            RelayConnectionReason::PostLike => false,
            RelayConnectionReason::FetchContacts => false,
            RelayConnectionReason::PostContacts => false,
            RelayConnectionReason::PostMuteList => false,
            RelayConnectionReason::PostMetadata => false,
            RelayConnectionReason::PostNostrConnect => false,
            RelayConnectionReason::ReadThread => true,
            RelayConnectionReason::SubscribePerson => false,
        }
    }
}

/// An instruction to a worker.
#[derive(Debug, Clone)]
pub enum ToMinionPayloadDetail {
    AdvertiseRelayList(Box<Event>),
    AuthApproved,
    AuthDeclined,
    FetchEvent(Id),
    PostEvent(Box<Event>),
    Shutdown,
    SubscribeAugments(Vec<IdHex>),
    SubscribeOutbox,
    SubscribeDiscover(Vec<PublicKey>),
    SubscribeGeneralFeed(Vec<PublicKey>),
    SubscribeMentions,
    SubscribePersonFeed(PublicKey),
    SubscribeThreadFeed(IdHex, Vec<IdHex>),
    SubscribeNip46,
    TempSubscribeGeneralFeedChunk { pubkeys: Vec<PublicKey>, start: i64 },
    TempSubscribePersonFeedChunk { pubkey: PublicKey, start: i64 },
    TempSubscribeInboxFeedChunk(i64),
    TempSubscribeMetadata(Vec<PublicKey>),
    UnsubscribePersonFeed,
    UnsubscribeThreadFeed,
}

/// A unit of work for a worker, with the id by which the coordinator and the
/// worker speak of it.
#[derive(Debug)]
pub struct ToMinionPayload {
    pub job_id: u64,
    pub detail: ToMinionPayloadDetail,
}

impl Clone for ToMinionPayload {
    fn clone(&self) -> (r: Self)
        ensures
            r.job_id == self.job_id,
    {
        ToMinionPayload { job_id: self.job_id, detail: self.detail.clone() }
    }
}

/// A message to the workers: `target` is the relay address a worker serves,
/// or "all" for every live worker.
#[derive(Debug, Clone)]
pub struct ToMinionMessage {
    pub target: String,
    pub payload: ToMinionPayload,
}

impl ToMinionMessage {
    /// A message for every live worker.
    pub fn broadcast(payload: ToMinionPayload) -> (r: ToMinionMessage)
        ensures
            r.target@ == "all"@,
            r.payload == payload,
    {
        ToMinionMessage { target: "all".to_owned(), payload }
    }

    /// Whether the worker serving `relay` is to act on this message: the
    /// message names that relay, or is for all workers.
    pub fn addresses(&self, relay: &RelayUrl) -> (r: bool)
        ensures
            r == (self.target@ == relay@ || self.target@ == "all"@),
    {
        let all: String = "all".to_owned();
        let own: String = relay.as_str().to_owned();
        self.target == own || self.target == all
    }
}

/// A job held against a relay: why, and what was sent when it started.
#[derive(Debug)]
pub struct RelayJob {
    pub reason: RelayConnectionReason,
    pub payload: ToMinionPayload,
}

impl Clone for RelayJob {
    fn clone(&self) -> (r: Self)
        ensures
            r.reason == self.reason,
            r.payload.job_id == self.payload.job_id,
    {
        RelayJob { reason: self.reason, payload: self.payload.clone() }
    }
}

/// A message to the coordinator. Most are intents of the user; those that
/// `is_internal` names are sent only by the coordinator to itself or by the
/// workers.
#[derive(Debug, Clone)]
pub enum ToOverlordMessage {
    AddPubkeyRelay(PublicKey, RelayUrl),
    AddRelay(RelayUrl),
    AdvertiseRelayList,
    AdvertiseRelayListNextChunk(Box<Event>, Vec<RelayUrl>),
    AuthApproved(RelayUrl),
    AuthDeclined(RelayUrl),
    ChangePassphrase { old: String, new: String },
    ConnectApproved(RelayUrl),
    ConnectDeclined(RelayUrl),
    DelegationReset,
    DeletePost(Id),
    DeletePriv,
    DeletePub,
    DropRelay(RelayUrl),
    FetchEvent(Id, Vec<RelayUrl>),
    GeneratePrivateKey(String),
    HideOrShowRelay(RelayUrl, bool),
    ImportPriv { privkey: String, password: String },
    ImportPub(String),
    Like(Id, PublicKey),
    LoadMoreCurrentFeed,
    MinionJobComplete(RelayUrl, u64),
    MinionJobUpdated(RelayUrl, u64, u64),
    Post { content: String, tags: Vec<Tag>, in_reply_to: Option<Id> },
    PostNip46Event(Event, Vec<RelayUrl>),
    PruneCache,
    PruneDatabase,
    PushMetadata(Metadata),
    RankRelay(RelayUrl, u8),
    ReengageMinion(RelayUrl, Vec<RelayJob>),
    RefreshScoresAndPickRelays,
    RefreshSubscribedMetadata,
    Repost(Id),
    Search(String),
    SetActivePerson(PublicKey),
    SetPersonFeed(PublicKey),
    SetThreadFeed { id: Id, referenced_by: Id, author: Option<PublicKey> },
    StartLongLivedSubscriptions,
    SubscribeConfig(Option<Vec<RelayUrl>>),
    SubscribeDiscover(Vec<PublicKey>, Option<Vec<RelayUrl>>),
    SubscribeMentions(Option<Vec<RelayUrl>>),
    SubscribeNip46(Vec<RelayUrl>),
    Shutdown,
    UnlockKey(String),
    UpdateMetadata(PublicKey),
    UpdateMetadataInBulk(Vec<PublicKey>),
    UpdateRelay(Relay3, Relay3),
    VisibleNotesChanged(Vec<Id>),
    ZapStart(Id, PublicKey, UncheckedUrl),
}

/// Whether `m` is one of the messages that only the coordinator and the
/// workers send.
pub open spec fn internal_message(m: &ToOverlordMessage) -> bool {
    match m {
        ToOverlordMessage::AdvertiseRelayListNextChunk(..) => true,
        ToOverlordMessage::MinionJobComplete(..) => true,
        ToOverlordMessage::MinionJobUpdated(..) => true,
        ToOverlordMessage::ReengageMinion(..) => true,
        ToOverlordMessage::SetPersonFeed(..) => true,
        ToOverlordMessage::SetThreadFeed { .. } => true,
        _ => false,
    }
}

impl ToOverlordMessage {
    /// Whether this message is one that only the coordinator and the workers
    /// send, never the user interface.
    pub fn is_internal(&self) -> (r: bool)
        ensures
            r == internal_message(self),
    {
        match self {
            ToOverlordMessage::AdvertiseRelayListNextChunk(..) => true,
            ToOverlordMessage::MinionJobComplete(..) => true,
            ToOverlordMessage::MinionJobUpdated(..) => true,
            ToOverlordMessage::ReengageMinion(..) => true,
            ToOverlordMessage::SetPersonFeed(..) => true,
            ToOverlordMessage::SetThreadFeed { .. } => true,
            _ => false,
        }
    }
}

} // verus!
