//! The unified event, as the dispatch decisions, the typed extractors and the
//! one-line log renderer read it: each variant with the plain values of its
//! payload. Adapters decode the protocols into this shape.
use vstd::prelude::*;
use crate::ids::{Peer, Scene, Uin};
use crate::messages::MessageId;

verus! {

/// Why a member left a group.
#[derive(Clone, Copy, Debug, PartialEq, Eq, Structural)]
pub enum MemberDecreaseReason {
    Leave,
    Kick,
    KickMe,
    Disband,
    Unknown,
}

/// A group honour.
#[derive(Clone, Copy, Debug, PartialEq, Eq, Structural)]
pub enum HonorKind {
    Talkative,
    Performer,
    Emotion,
    Unknown,
}

/// Where a request stands.
#[derive(Clone, Copy, Debug, PartialEq, Eq, Structural)]
pub enum RequestState {
    Pending,
    Accepted,
    Rejected,
    Ignored,
    Unknown,
}

/// The direction of an online file transfer.
#[derive(Clone, Copy, Debug, PartialEq, Eq, Structural)]
pub enum OnlineFileDirection {
    Send,
    Receive,
}

/// The phase of a flash transfer.
#[derive(Clone, Copy, Debug, PartialEq, Eq, Structural)]
pub enum FlashFilePhase {
    Downloading,
    Downloaded,
    Uploading,
    Uploaded,
    Unknown,
}

/// What a recommended contact card recommends.
#[derive(Clone, Copy, Debug, PartialEq, Eq, Structural)]
pub enum ContactKind {
    Friend,
    Group,
}

/// How the client words a nudge: the verb and the text after the target.
#[derive(Clone)]
pub struct NudgeDisplay {
    pub action: String,
    pub suffix: String,
}

/// The opaque token that answers a request.
#[derive(Clone)]
pub struct RequestToken(pub String);

impl RequestToken {
    /// A copy of the token.
    pub fn duplicate(&self) -> (r: RequestToken)
        ensures
            r.0@ == self.0@,
    {
        RequestToken(self.0.clone())
    }
}

/// A message segment, with what is shown of it.
#[derive(Clone)]
pub enum Segment {
    Text(String),
    /// A mention of `user`; `name` is the name the protocol attached, if any.
    Mention { user: Uin, name: Option<String> },
    MentionAll,
    Face { id: String },
    /// A reply to message `id`, by `sender` when the protocol says.
    Reply { id: MessageId, sender: Option<Uin> },
    /// An image: its summary, and the candidates for its file name (the
    /// received `filename` field and the received resource id).
    Image { summary: Option<String>, filename: Option<String>, recv_id: Option<String> },
    Record,
    Video,
    File { name: String },
    Forward,
    MarketFace { package_id: i32, emoji_id: String, summary: Option<String> },
    LightApp,
    Xml,
    Poke,
    Contact { kind: ContactKind, id: Uin },
    Location { title: Option<String> },
    /// A music share from a platform (`ty` is the platform's name).
    MusicPlatform { ty: String },
    /// A custom music share.
    MusicCustom { title: String },
    Share { title: String },
    Rps,
    Dice,
    Shake,
    Anonymous,
    Keyboard,
    Markdown,
    LongMsg,
    FlashFile,
    FlashTransfer,
    MiniApp,
    OnlineFile { file_name: String },
    Raw { kind: String },
    /// A segment kind added later.
    Unrecognized,
}

/// A message event.
#[derive(Clone)]
pub struct MessageEvent {
    pub id: MessageId,
    pub peer: Peer,
    pub sender: Uin,
    /// The account of the bot that received the message.
    pub self_id: Uin,
    /// The bot's own outgoing message.
    pub is_self: bool,
    /// The sender's display name in the group (card, else in-group nickname),
    /// when the event carries member info.
    pub member_name: Option<String>,
    /// The sender's QQ nickname, when the event carries member info.
    pub member_nickname: Option<String>,
    /// The group's name, when the event carries group info.
    pub group_name: Option<String>,
    /// The sender's display name as a friend, when the event carries friend info.
    pub friend_name: Option<String>,
    pub content: Vec<Segment>,
}

/// A notice event with its payload. `Unrecognized` stands for variants added later.
#[derive(Clone)]
pub enum Notice {
    Recall { peer: Peer, id: MessageId, sender: Uin, operator: Uin, suffix: Option<String> },
    MemberIncrease { group: Uin, user: Uin, operator: Option<Uin>, invitor: Option<Uin> },
    MemberDecrease { group: Uin, user: Uin, operator: Option<Uin>, reason: MemberDecreaseReason },
    AdminChange { group: Uin, user: Uin, operator: Option<Uin>, is_set: bool },
    Mute { group: Uin, user: Uin, operator: Uin, duration: i32 },
    WholeMute { group: Uin, operator: Uin, is_mute: bool },
    GroupNameChange { group: Uin, new_name: String, operator: Uin },
    Honor { group: Uin, user: Uin, honor: HonorKind },
    GroupCardChange { group: Uin, user: Uin, old_card: String, new_card: String },
    FriendNudge { user: Uin, display: NudgeDisplay, is_self_send: bool },
    GroupNudge { group: Uin, sender: Uin, receiver: Uin, display: NudgeDisplay },
    Reaction { group: Uin, user: Uin, face_id: String, is_add: bool },
    EssenceChange { group: Uin, sender: Option<Uin>, is_set: bool },
    GroupFileUpload { group: Uin, user: Uin, file_name: String },
    FriendFileUpload { user: Uin, file_name: String },
    FriendAdd { user: Uin },
    PeerPinChange { peer: Peer, is_pinned: bool },
    BotOffline { reason: String },
    LuckyKing { group: Uin, user: Uin, target: Uin },
    GroupDismiss { group: Uin, operator: Uin },
    GroupTitleChange { group: Uin, user: Uin, title: String },
    InputStatus { user: Uin, group: Option<Uin>, status_text: String },
    ProfileLike { operator: Uin, operator_nick: String, times: i64 },
    GrayTip { group: Option<Uin>, content: String },
    PokeRecall { group: Option<Uin>, user: Uin },
    OnlineFile { direction: OnlineFileDirection, user: Uin, group: Option<Uin> },
    FlashFile { phase: FlashFilePhase, user: Uin, group: Option<Uin> },
    /// A notice no variant models: the protocol's name and the notice's kind.
    Other { protocol: String, kind: String },
    Unrecognized,
}

/// A request event with its payload.
#[derive(Clone)]
pub enum Request {
    Friend { initiator: Uin, comment: String, state: RequestState, token: RequestToken },
    GroupJoin { group: Uin, initiator: Uin, comment: String, invitor: Option<Uin>, token: RequestToken },
    GroupInvitedJoin { group: Uin, initiator: Uin, target: Uin },
    GroupInvite { group: Uin, initiator: Uin, comment: String },
    Unrecognized,
}

/// A lifecycle (meta) event with its payload.
#[derive(Clone)]
pub enum Meta {
    Connect,
    Disconnect { reason: Option<String> },
    Ready { self_id: Uin, nickname: String },
    Heartbeat { interval: i64, online: bool, good: bool },
    BotOnline { reason: Option<String> },
    BotOffline,
    Unrecognized,
}

/// An incoming event.
#[derive(Clone)]
pub enum Event {
    Message(MessageEvent),
    Notice(Notice),
    Request(Request),
    Meta(Meta),
    /// An event no variant models: the protocol's name and the event's kind.
    Raw { protocol: String, kind: String },
    Unrecognized,
}

/// The group an optional group field names.
pub open spec fn opt_group(g: Option<Uin>) -> Option<i64> {
    match g {
        Some(u) => Some(u.0),
        None => None,
    }
}

/// The group a peer names, if it is a group.
pub open spec fn peer_group(p: Peer) -> Option<i64> {
    if p.scene == Scene::Group {
        Some(p.id.0)
    } else {
        None
    }
}

/// The group an event is scoped to: the group conversation of a message, a
/// recall or a pin change, and the group of a group notice or request.
pub open spec fn event_group(e: Event) -> Option<i64> {
    match e {
        Event::Message(m) => peer_group(m.peer),
        Event::Notice(n) => match n {
            Notice::Recall { peer, .. } => peer_group(peer),
            Notice::PeerPinChange { peer, .. } => peer_group(peer),
            Notice::MemberIncrease { group, .. } => Some(group.0),
            Notice::MemberDecrease { group, .. } => Some(group.0),
            Notice::AdminChange { group, .. } => Some(group.0),
            Notice::Mute { group, .. } => Some(group.0),
            Notice::WholeMute { group, .. } => Some(group.0),
            Notice::GroupNameChange { group, .. } => Some(group.0),
            Notice::Honor { group, .. } => Some(group.0),
            Notice::GroupCardChange { group, .. } => Some(group.0),
            Notice::GroupNudge { group, .. } => Some(group.0),
            Notice::Reaction { group, .. } => Some(group.0),
            Notice::EssenceChange { group, .. } => Some(group.0),
            Notice::GroupFileUpload { group, .. } => Some(group.0),
            Notice::LuckyKing { group, .. } => Some(group.0),
            Notice::GroupDismiss { group, .. } => Some(group.0),
            Notice::GroupTitleChange { group, .. } => Some(group.0),
            Notice::InputStatus { group, .. } => opt_group(group),
            Notice::GrayTip { group, .. } => opt_group(group),
            Notice::PokeRecall { group, .. } => opt_group(group),
            Notice::OnlineFile { group, .. } => opt_group(group),
            Notice::FlashFile { group, .. } => opt_group(group),
            _ => None,
        },
        Event::Request(r) => match r {
            Request::GroupJoin { group, .. } => Some(group.0),
            Request::GroupInvitedJoin { group, .. } => Some(group.0),
            Request::GroupInvite { group, .. } => Some(group.0),
            _ => None,
        },
        _ => None,
    }
}

fn group_of_peer(p: Peer) -> (r: Option<i64>)
    ensures
        r == peer_group(p),
{
    if p.scene == Scene::Group {
        Some(p.id.0)
    } else {
        None
    }
}

fn group_of_opt(g: Option<Uin>) -> (r: Option<i64>)
    ensures
        r == opt_group(g),
{
    match g {
        Some(u) => Some(u.0),
        None => None,
    }
}

impl Event {
    /// The group this event is scoped to (see [`event_group`]).
    pub fn group(&self) -> (r: Option<i64>)
        ensures
            r == event_group(*self),
    {
        match self {
            Event::Message(m) => group_of_peer(m.peer),
            Event::Notice(n) => match n {
                Notice::Recall { peer, .. } => group_of_peer(*peer),
                Notice::PeerPinChange { peer, .. } => group_of_peer(*peer),
                Notice::MemberIncrease { group, .. } => Some(group.0),
                Notice::MemberDecrease { group, .. } => Some(group.0),
                Notice::AdminChange { group, .. } => Some(group.0),
                Notice::Mute { group, .. } => Some(group.0),
                Notice::WholeMute { group, .. } => Some(group.0),
                Notice::GroupNameChange { group, .. } => Some(group.0),
                Notice::Honor { group, .. } => Some(group.0),
                Notice::GroupCardChange { group, .. } => Some(group.0),
                Notice::GroupNudge { group, .. } => Some(group.0),
                Notice::Reaction { group, .. } => Some(group.0),
                Notice::EssenceChange { group, .. } => Some(group.0),
                Notice::GroupFileUpload { group, .. } => Some(group.0),
                Notice::LuckyKing { group, .. } => Some(group.0),
                Notice::GroupDismiss { group, .. } => Some(group.0),
                Notice::GroupTitleChange { group, .. } => Some(group.0),
                Notice::InputStatus { group, .. } => group_of_opt(*group),
                Notice::GrayTip { group, .. } => group_of_opt(*group),
                Notice::PokeRecall { group, .. } => group_of_opt(*group),
                Notice::OnlineFile { group, .. } => group_of_opt(*group),
                Notice::FlashFile { group, .. } => group_of_opt(*group),
                _ => None,
            },
            Event::Request(r) => match r {
                Request::GroupJoin { group, .. } => Some(group.0),
                Request::GroupInvitedJoin { group, .. } => Some(group.0),
                Request::GroupInvite { group, .. } => Some(group.0),
                _ => None,
            },
            _ => None,
        }
    }
}

} // verus!
