//! Event kinds for `#[event(Kind)]` handlers: the selector enum, the mapping from
//! a concrete event to its kind, and the typed extractors of the lifecycle and
//! nudge events.
//!
//! The event is described by [`Event`], which holds what these decisions read:
//! the variant of the event and, where an extractor needs it, its payload.
use vstd::prelude::*;
use crate::ids::{Peer, Scene, Uin};
use crate::event::{Segment, Event, HonorKind, MemberDecreaseReason, Meta, Notice, Request, RequestToken};
use crate::messages::MessageId;
use crate::matcher::{ParsedCommand, Seg};

verus! {

/// The friendly selector of `#[event(Kind)]`. Several notice variants share one
/// kind (both nudge variants map to `Nudge`).
#[derive(Clone, Copy, PartialEq, Eq, Hash, Debug, Structural)]
pub enum EventKind {
    Message,
    MemberJoin,
    MemberLeave,
    Mute,
    WholeMute,
    AdminChange,
    GroupNameChange,
    Honor,
    GroupCardChange,
    Recall,
    Reaction,
    EssenceChange,
    LuckyKing,
    Nudge,
    FriendAdd,
    GroupFileUpload,
    FriendFileUpload,
    PeerPin,
    GroupDismiss,
    GroupTitleChange,
    InputStatus,
    ProfileLike,
    GrayTip,
    PokeRecall,
    OnlineFile,
    FlashFile,
    FriendRequest,
    GroupJoinRequest,
    GroupInvitedJoin,
    GroupInvite,
    Connect,
    Disconnect,
    Ready,
    Heartbeat,
    BotOnline,
    BotOffline,
    Raw,
}

/// The kind a concrete event matches, if any (`Notice::Other` and unknown notice,
/// request and meta variants have none; an unknown top-level variant is `Raw`).
pub open spec fn kind_of(event: Event) -> Option<EventKind> {
    match event {
        Event::Message(_) => Some(EventKind::Message),
        Event::Notice(n) => match n {
            Notice::Recall { .. } => Some(EventKind::Recall),
            Notice::MemberIncrease { .. } => Some(EventKind::MemberJoin),
            Notice::MemberDecrease { .. } => Some(EventKind::MemberLeave),
            Notice::AdminChange { .. } => Some(EventKind::AdminChange),
            Notice::Mute { .. } => Some(EventKind::Mute),
            Notice::WholeMute { .. } => Some(EventKind::WholeMute),
            Notice::GroupNameChange { .. } => Some(EventKind::GroupNameChange),
            Notice::Honor { .. } => Some(EventKind::Honor),
            Notice::GroupCardChange { .. } => Some(EventKind::GroupCardChange),
            Notice::FriendNudge { .. } => Some(EventKind::Nudge),
            Notice::GroupNudge { .. } => Some(EventKind::Nudge),
            Notice::Reaction { .. } => Some(EventKind::Reaction),
            Notice::EssenceChange { .. } => Some(EventKind::EssenceChange),
            Notice::GroupFileUpload { .. } => Some(EventKind::GroupFileUpload),
            Notice::FriendFileUpload { .. } => Some(EventKind::FriendFileUpload),
            Notice::FriendAdd { .. } => Some(EventKind::FriendAdd),
            Notice::PeerPinChange { .. } => Some(EventKind::PeerPin),
            Notice::BotOffline { .. } => Some(EventKind::BotOffline),
            Notice::LuckyKing { .. } => Some(EventKind::LuckyKing),
            Notice::GroupDismiss { .. } => Some(EventKind::GroupDismiss),
            Notice::GroupTitleChange { .. } => Some(EventKind::GroupTitleChange),
            Notice::InputStatus { .. } => Some(EventKind::InputStatus),
            Notice::ProfileLike { .. } => Some(EventKind::ProfileLike),
            Notice::GrayTip { .. } => Some(EventKind::GrayTip),
            Notice::PokeRecall { .. } => Some(EventKind::PokeRecall),
            Notice::OnlineFile { .. } => Some(EventKind::OnlineFile),
            Notice::FlashFile { .. } => Some(EventKind::FlashFile),
            Notice::Other { .. } => None,
            Notice::Unrecognized => None,
        },
        Event::Request(r) => match r {
            Request::Friend { .. } => Some(EventKind::FriendRequest),
            Request::GroupJoin { .. } => Some(EventKind::GroupJoinRequest),
            Request::GroupInvitedJoin { .. } => Some(EventKind::GroupInvitedJoin),
            Request::GroupInvite { .. } => Some(EventKind::GroupInvite),
            Request::Unrecognized => None,
        },
        Event::Meta(m) => match m {
            Meta::Connect => Some(EventKind::Connect),
            Meta::Disconnect { .. } => Some(EventKind::Disconnect),
            Meta::Ready { .. } => Some(EventKind::Ready),
            Meta::Heartbeat { .. } => Some(EventKind::Heartbeat),
            Meta::BotOnline { .. } => Some(EventKind::BotOnline),
            Meta::BotOffline => Some(EventKind::BotOffline),
            Meta::Unrecognized => None,
        },
        Event::Raw { .. } => Some(EventKind::Raw),
        Event::Unrecognized => Some(EventKind::Raw),
    }
}

impl EventKind {
    /// The kind that `event` matches, if any.
    pub fn of(event: &Event) -> (k: Option<EventKind>)
        ensures
            k == kind_of(*event),
    {
        match event {
            Event::Message(_) => Some(EventKind::Message),
            Event::Notice(n) => match n {
                Notice::Recall { .. } => Some(EventKind::Recall),
                Notice::MemberIncrease { .. } => Some(EventKind::MemberJoin),
                Notice::MemberDecrease { .. } => Some(EventKind::MemberLeave),
                Notice::AdminChange { .. } => Some(EventKind::AdminChange),
                Notice::Mute { .. } => Some(EventKind::Mute),
                Notice::WholeMute { .. } => Some(EventKind::WholeMute),
                Notice::GroupNameChange { .. } => Some(EventKind::GroupNameChange),
                Notice::Honor { .. } => Some(EventKind::Honor),
                Notice::GroupCardChange { .. } => Some(EventKind::GroupCardChange),
                Notice::FriendNudge { .. } | Notice::GroupNudge { .. } => Some(EventKind::Nudge),
                Notice::Reaction { .. } => Some(EventKind::Reaction),
                Notice::EssenceChange { .. } => Some(EventKind::EssenceChange),
                Notice::GroupFileUpload { .. } => Some(EventKind::GroupFileUpload),
                Notice::FriendFileUpload { .. } => Some(EventKind::FriendFileUpload),
                Notice::FriendAdd { .. } => Some(EventKind::FriendAdd),
                Notice::PeerPinChange { .. } => Some(EventKind::PeerPin),
                Notice::BotOffline { .. } => Some(EventKind::BotOffline),
                Notice::LuckyKing { .. } => Some(EventKind::LuckyKing),
                Notice::GroupDismiss { .. } => Some(EventKind::GroupDismiss),
                Notice::GroupTitleChange { .. } => Some(EventKind::GroupTitleChange),
                Notice::InputStatus { .. } => Some(EventKind::InputStatus),
                Notice::ProfileLike { .. } => Some(EventKind::ProfileLike),
                Notice::GrayTip { .. } => Some(EventKind::GrayTip),
                Notice::PokeRecall { .. } => Some(EventKind::PokeRecall),
                Notice::OnlineFile { .. } => Some(EventKind::OnlineFile),
                Notice::FlashFile { .. } => Some(EventKind::FlashFile),
                Notice::Other { .. } | Notice::Unrecognized => None,
            },
            Event::Request(r) => match r {
                Request::Friend { .. } => Some(EventKind::FriendRequest),
                Request::GroupJoin { .. } => Some(EventKind::GroupJoinRequest),
                Request::GroupInvitedJoin { .. } => Some(EventKind::GroupInvitedJoin),
                Request::GroupInvite { .. } => Some(EventKind::GroupInvite),
                Request::Unrecognized => None,
            },
            Event::Meta(m) => match m {
                Meta::Connect => Some(EventKind::Connect),
                Meta::Disconnect { .. } => Some(EventKind::Disconnect),
                Meta::Ready { .. } => Some(EventKind::Ready),
                Meta::Heartbeat { .. } => Some(EventKind::Heartbeat),
                Meta::BotOnline { .. } => Some(EventKind::BotOnline),
                Meta::BotOffline => Some(EventKind::BotOffline),
                Meta::Unrecognized => None,
            },
            Event::Raw { .. } | Event::Unrecognized => Some(EventKind::Raw),
        }
    }
}

/// The label of an event's top-level variant, used as a log field.
pub fn kind_str(e: &Event) -> (s: &'static str)
    ensures
        s@ == match *e {
            Event::Message(_) => "message"@,
            Event::Notice(_) => "notice"@,
            Event::Request(_) => "request"@,
            Event::Meta(_) => "meta"@,
            _ => "raw"@,
        },
{
    match e {
        Event::Message(_) => "message",
        Event::Notice(_) => "notice",
        Event::Request(_) => "request",
        Event::Meta(_) => "meta",
        _ => "raw",
    }
}

/// A nudge, unified over the friend and group variants.
pub struct Nudge {
    pub peer: Peer,
    pub sender: Uin,
    pub receiver: Uin,
}

impl Nudge {
    /// The nudge that `event` carries, unless the bot (`self_id`) sent it itself:
    /// a friend nudge is the friend nudging the bot; a group nudge names both sides.
    pub fn from_event(event: &Event, self_id: Uin) -> (r: Option<Nudge>)
        ensures
            match *event {
                Event::Notice(Notice::FriendNudge { user, is_self_send, .. }) => if is_self_send {
                    r is None
                } else {
                    r matches Some(n) && n.peer == Peer::friend_spec(user) && n.sender == user
                        && n.receiver == self_id
                },
                Event::Notice(Notice::GroupNudge { group, sender, receiver, .. }) => if sender
                    == self_id {
                    r is None
                } else {
                    r matches Some(n) && n.peer == Peer::group_spec(group) && n.sender == sender
                        && n.receiver == receiver
                },
                _ => r is None,
            },
    {
        match event {
            Event::Notice(Notice::FriendNudge { user, is_self_send, .. }) => {
                if *is_self_send {
                    return None;
                }
                Some(Nudge { peer: Peer::friend(*user), sender: *user, receiver: self_id })
            },
            Event::Notice(Notice::GroupNudge { group, sender, receiver, .. }) => {
                if sender.0 == self_id.0 {
                    return None;
                }
                Some(Nudge { peer: Peer::group(*group), sender: *sender, receiver: *receiver })
            },
            _ => None,
        }
    }
}

/// A member joined a group (`Notice::MemberIncrease`).
pub struct MemberJoin {
    pub group: Uin,
    pub user: Uin,
    pub operator: Option<Uin>,
    pub invitor: Option<Uin>,
}

impl MemberJoin {
    /// `Some` exactly on `Notice::MemberIncrease`, carrying its fields.
    pub fn from_event(event: &Event) -> (r: Option<MemberJoin>)
        ensures
            match *event {
                Event::Notice(Notice::MemberIncrease { group, user, operator, invitor }) => r matches Some(x)
                    && x.group == group && x.user == user && x.operator == operator && x.invitor == invitor,
                _ => r is None,
            },
    {
        match event {
            Event::Notice(Notice::MemberIncrease { group, user, operator, invitor }) => Some(
                MemberJoin { group: *group, user: *user, operator: *operator, invitor: *invitor },
            ),
            _ => None,
        }
    }
}

/// A member left or was removed from a group (`Notice::MemberDecrease`).
pub struct MemberLeave {
    pub group: Uin,
    pub user: Uin,
    pub operator: Option<Uin>,
    pub reason: MemberDecreaseReason,
}

impl MemberLeave {
    /// `Some` exactly on `Notice::MemberDecrease`, carrying its fields.
    pub fn from_event(event: &Event) -> (r: Option<MemberLeave>)
        ensures
            match *event {
                Event::Notice(Notice::MemberDecrease { group, user, operator, reason }) => r matches Some(x)
                    && x.group == group && x.user == user && x.operator == operator && x.reason == reason,
                _ => r is None,
            },
    {
        match event {
            Event::Notice(Notice::MemberDecrease { group, user, operator, reason }) => Some(
                MemberLeave { group: *group, user: *user, operator: *operator, reason: *reason },
            ),
            _ => None,
        }
    }
}

/// A member was muted (`Notice::Mute`); `duration` in seconds.
pub struct Mute {
    pub group: Uin,
    pub user: Uin,
    pub operator: Uin,
    pub duration: i32,
}

impl Mute {
    /// `Some` exactly on `Notice::Mute`, carrying its fields.
    pub fn from_event(event: &Event) -> (r: Option<Mute>)
        ensures
            match *event {
                Event::Notice(Notice::Mute { group, user, operator, duration }) => r matches Some(x)
                    && x.group == group && x.user == user && x.operator == operator && x.duration == duration,
                _ => r is None,
            },
    {
        match event {
            Event::Notice(Notice::Mute { group, user, operator, duration }) => Some(
                Mute { group: *group, user: *user, operator: *operator, duration: *duration },
            ),
            _ => None,
        }
    }
}

/// A message was recalled (`Notice::Recall`): its author and who recalled it.
/// No self-filter: the bot's own messages recalled by an admin are reported too.
pub struct Recall {
    pub peer: Peer,
    pub id: MessageId,
    pub sender: Uin,
    pub operator: Uin,
    pub suffix: Option<String>,
}

impl Recall {
    /// `Some` exactly on `Notice::Recall`, carrying its fields.
    pub fn from_event(event: &Event) -> (r: Option<Recall>)
        ensures
            match *event {
                Event::Notice(Notice::Recall { peer, id, sender, operator, suffix }) => r matches Some(x)
                    && x.peer == peer && x.id == id && x.sender == sender && x.operator == operator
                    && same_opt_text(suffix, x.suffix),
                _ => r is None,
            },
    {
        match event {
            Event::Notice(Notice::Recall { peer, id, sender, operator, suffix }) => Some(
                Recall {
                    peer: *peer,
                    id: *id,
                    sender: *sender,
                    operator: *operator,
                    suffix: clone_opt_text(suffix),
                },
            ),
            _ => None,
        }
    }
}

/// A friend was added (`Notice::FriendAdd`).
pub struct FriendAdd {
    pub user: Uin,
}

impl FriendAdd {
    /// `Some` exactly on `Notice::FriendAdd`, carrying the new friend.
    pub fn from_event(event: &Event) -> (r: Option<FriendAdd>)
        ensures
            match *event {
                Event::Notice(Notice::FriendAdd { user }) => r matches Some(x) && x.user == user,
                _ => r is None,
            },
    {
        match event {
            Event::Notice(Notice::FriendAdd { user }) => Some(FriendAdd { user: *user }),
            _ => None,
        }
    }
}

/// A friend request (`Request::Friend`).
pub struct FriendRequest {
    pub initiator: Uin,
    pub comment: String,
    pub token: RequestToken,
}

impl FriendRequest {
    /// `Some` exactly on `Request::Friend`, carrying its fields.
    pub fn from_event(event: &Event) -> (r: Option<FriendRequest>)
        ensures
            match *event {
                Event::Request(Request::Friend { initiator, comment, token, .. }) => r matches Some(x)
                    && x.initiator == initiator && x.comment@ == comment@ && x.token.0@ == token.0@,
                _ => r is None,
            },
    {
        match event {
            Event::Request(Request::Friend { initiator, comment, token, .. }) => Some(
                FriendRequest { initiator: *initiator, comment: comment.clone(), token: token.duplicate() },
            ),
            _ => None,
        }
    }
}

/// A request to join a group (`Request::GroupJoin`).
pub struct GroupJoinRequest {
    pub group: Uin,
    pub initiator: Uin,
    pub comment: String,
    pub token: RequestToken,
}

impl GroupJoinRequest {
    /// `Some` exactly on `Request::GroupJoin`, carrying its fields.
    pub fn from_event(event: &Event) -> (r: Option<GroupJoinRequest>)
        ensures
            match *event {
                Event::Request(Request::GroupJoin { group, initiator, comment, token, .. }) => r matches Some(x)
                    && x.group == group && x.initiator == initiator && x.comment@ == comment@
                    && x.token.0@ == token.0@,
                _ => r is None,
            },
    {
        match event {
            Event::Request(Request::GroupJoin { group, initiator, comment, token, .. }) => Some(
                GroupJoinRequest {
                    group: *group,
                    initiator: *initiator,
                    comment: comment.clone(),
                    token: token.duplicate(),
                },
            ),
            _ => None,
        }
    }
}

/// A group admin was set or unset (`Notice::AdminChange`); `is_set` is a promotion.
pub struct AdminChange {
    pub group: Uin,
    pub user: Uin,
    pub operator: Option<Uin>,
    pub is_set: bool,
}

impl AdminChange {
    /// `Some` exactly on `Notice::AdminChange`, carrying its fields.
    pub fn from_event(event: &Event) -> (r: Option<AdminChange>)
        ensures
            match *event {
                Event::Notice(Notice::AdminChange { group, user, operator, is_set }) => r matches Some(x)
                    && x.group == group && x.user == user && x.operator == operator && x.is_set == is_set,
                _ => r is None,
            },
    {
        match event {
            Event::Notice(Notice::AdminChange { group, user, operator, is_set }) => Some(
                AdminChange { group: *group, user: *user, operator: *operator, is_set: *is_set },
            ),
            _ => None,
        }
    }
}

/// A member's group card changed (`Notice::GroupCardChange`).
pub struct GroupCardChange {
    pub group: Uin,
    pub user: Uin,
    pub old_card: String,
    pub new_card: String,
}

impl GroupCardChange {
    /// `Some` exactly on `Notice::GroupCardChange`, carrying its fields.
    pub fn from_event(event: &Event) -> (r: Option<GroupCardChange>)
        ensures
            match *event {
                Event::Notice(Notice::GroupCardChange { group, user, old_card, new_card }) => r matches Some(x)
                    && x.group == group && x.user == user && x.old_card@ == old_card@ && x.new_card@ == new_card@,
                _ => r is None,
            },
    {
        match event {
            Event::Notice(Notice::GroupCardChange { group, user, old_card, new_card }) => Some(
                GroupCardChange {
                    group: *group,
                    user: *user,
                    old_card: old_card.clone(),
                    new_card: new_card.clone(),
                },
            ),
            _ => None,
        }
    }
}

/// A group honour changed hands (`Notice::Honor`).
pub struct Honor {
    pub group: Uin,
    pub user: Uin,
    pub honor: HonorKind,
}

impl Honor {
    /// `Some` exactly on `Notice::Honor`, carrying its fields.
    pub fn from_event(event: &Event) -> (r: Option<Honor>)
        ensures
            match *event {
                Event::Notice(Notice::Honor { group, user, honor }) => r matches Some(x) && x.group == group
                    && x.user == user && x.honor == honor,
                _ => r is None,
            },
    {
        match event {
            Event::Notice(Notice::Honor { group, user, honor }) => Some(
                Honor { group: *group, user: *user, honor: *honor },
            ),
            _ => None,
        }
    }
}

/// The lucky-king result of a red packet (`Notice::LuckyKing`): `user` sent it,
/// `target` won.
pub struct LuckyKing {
    pub group: Uin,
    pub user: Uin,
    pub target: Uin,
}

impl LuckyKing {
    /// `Some` exactly on `Notice::LuckyKing`, carrying its fields.
    pub fn from_event(event: &Event) -> (r: Option<LuckyKing>)
        ensures
            match *event {
                Event::Notice(Notice::LuckyKing { group, user, target }) => r matches Some(x) && x.group == group
                    && x.user == user && x.target == target,
                _ => r is None,
            },
    {
        match event {
            Event::Notice(Notice::LuckyKing { group, user, target }) => Some(
                LuckyKing { group: *group, user: *user, target: *target },
            ),
            _ => None,
        }
    }
}

/// The sender of a message event.
pub struct Sender(pub Uin);

impl Sender {
    /// `Some` exactly on a message event, carrying its sender.
    pub fn from_event(event: &Event) -> (r: Option<Sender>)
        ensures
            match *event {
                Event::Message(m) => r matches Some(x) && x.0 == m.sender,
                _ => r is None,
            },
    {
        match event {
            Event::Message(m) => Some(Sender(m.sender)),
            _ => None,
        }
    }
}

/// The conversation of a message event.
pub struct EventPeer(pub Peer);

impl EventPeer {
    /// `Some` exactly on a message event, carrying its conversation.
    pub fn from_event(event: &Event) -> (r: Option<EventPeer>)
        ensures
            match *event {
                Event::Message(m) => r matches Some(x) && x.0 == m.peer,
                _ => r is None,
            },
    {
        match event {
            Event::Message(m) => Some(EventPeer(m.peer)),
            _ => None,
        }
    }
}

/// The scene of a message event's conversation; other events have none.
pub fn scene_of(event: &Event) -> (r: Option<Scene>)
    ensures
        match *event {
            Event::Message(m) => r == Some(m.peer.scene),
            _ => r is None,
        },
{
    match event {
        Event::Message(m) => Some(m.peer.scene),
        _ => None,
    }
}

/// The first segment mentions `who`.
pub open spec fn opens_with_mention(content: Seq<Segment>, who: Uin) -> bool {
    content.len() > 0 && match content[0] {
        Segment::Mention { user, .. } => user == who,
        _ => false,
    }
}

/// Whether a message is addressed to the bot: private and temporary messages
/// are; a group message is when its first segment mentions the bot.
pub struct ToMe(pub bool);

impl ToMe {
    /// `Some` exactly on a message event (see [`ToMe`]).
    pub fn from_event(event: &Event, self_id: Uin) -> (r: Option<ToMe>)
        ensures
            match *event {
                Event::Message(m) => r matches Some(x) && x.0 == (m.peer.scene != Scene::Group || opens_with_mention(
                    m.content@,
                    self_id,
                )),
                _ => r is None,
            },
    {
        match event {
            Event::Message(m) => {
                if m.peer.scene != Scene::Group {
                    return Some(ToMe(true));
                }
                let first_is_me = if m.content.len() > 0 {
                    match &m.content[0] {
                        Segment::Mention { user, .. } => user.0 == self_id.0,
                        _ => false,
                    }
                } else {
                    false
                };
                Some(ToMe(first_is_me))
            },
            _ => None,
        }
    }
}

/// The first mentioned account in matcher segments, if any.
pub open spec fn first_mention_seg(segs: Seq<Seg>) -> Option<Uin>
    decreases segs.len(),
{
    if segs.len() == 0 {
        None
    } else {
        match segs[0] {
            Seg::Mention(u, _) => Some(u),
            _ => first_mention_seg(segs.subrange(1, segs.len() as int)),
        }
    }
}

/// The first mentioned account in message segments, if any.
pub open spec fn first_mention(segs: Seq<Segment>) -> Option<Uin>
    decreases segs.len(),
{
    if segs.len() == 0 {
        None
    } else {
        match segs[0] {
            Segment::Mention { user, .. } => Some(user),
            _ => first_mention(segs.subrange(1, segs.len() as int)),
        }
    }
}

/// Position `i` holds a mention of `u`, and no position before it holds a mention.
pub open spec fn first_mention_seg_at(segs: Seq<Seg>, i: int, u: Uin) -> bool {
    &&& 0 <= i < segs.len()
    &&& segs[i] matches Seg::Mention(v, _) && v == u
    &&& forall|j: int| 0 <= j < i ==> !(#[trigger] segs[j] is Mention)
}

/// Position `i` holds a mention of `u`, and no position before it holds a mention.
pub open spec fn first_mention_at(segs: Seq<Segment>, i: int, u: Uin) -> bool {
    &&& 0 <= i < segs.len()
    &&& segs[i] matches Segment::Mention { user, .. } && user == u
    &&& forall|j: int| 0 <= j < i ==> !(#[trigger] segs[j] is Mention)
}

/// `first_mention_seg` finds the first mention: a result is the user of a
/// mention at some position with no mention before it; no result means there
/// is no mention at all.
pub proof fn law_first_mention_seg(segs: Seq<Seg>)
    ensures
        first_mention_seg(segs) is Some ==> exists|i: int| first_mention_seg_at(segs, i, first_mention_seg(segs)->0),
        first_mention_seg(segs) is None ==> forall|j: int| 0 <= j < segs.len() ==> !(#[trigger] segs[j] is Mention),
    decreases segs.len(),
{
    if segs.len() > 0 {
        let rest = segs.subrange(1, segs.len() as int);
        law_first_mention_seg(rest);
        match segs[0] {
            Seg::Mention(u, _) => {
                assert(first_mention_seg(segs) == Some(u));
                let x = first_mention_seg(segs)->0;
                assert(x == u);
                assert(first_mention_seg_at(segs, 0, x));
            },
            _ => {
                assert(first_mention_seg(segs) == first_mention_seg(rest));
                match first_mention_seg(rest) {
                    Some(u) => {
                        let i = choose|i: int| first_mention_seg_at(rest, i, u);
                        assert(segs[i + 1] == rest[i]);
                        assert forall|j: int| 0 <= j < i + 1 implies !(#[trigger] segs[j] is Mention) by {
                            if j > 0 {
                                assert(segs[j] == rest[j - 1]);
                            }
                        }
                        assert(first_mention_seg_at(segs, i + 1, u));
                        assert(exists|i: int| first_mention_seg_at(segs, i, first_mention_seg(segs)->0));
                    },
                    None => {
                        assert forall|j: int| 0 <= j < segs.len() implies !(#[trigger] segs[j] is Mention) by {
                            if j > 0 {
                                assert(segs[j] == rest[j - 1]);
                            }
                        }
                    },
                }
            },
        }
    }
}

/// `first_mention` finds the first mention of a message: a result is the
/// user of a mention at some position with no mention before it; no result
/// means there is no mention at all.
pub proof fn law_first_mention(segs: Seq<Segment>)
    ensures
        first_mention(segs) is Some ==> exists|i: int| first_mention_at(segs, i, first_mention(segs)->0),
        first_mention(segs) is None ==> forall|j: int| 0 <= j < segs.len() ==> !(#[trigger] segs[j] is Mention),
    decreases segs.len(),
{
    if segs.len() > 0 {
        let rest = segs.subrange(1, segs.len() as int);
        law_first_mention(rest);
        match segs[0] {
            Segment::Mention { user, .. } => {
                assert(first_mention(segs) == Some(user));
                let x = first_mention(segs)->0;
                assert(x == user);
                assert(first_mention_at(segs, 0, x));
            },
            _ => {
                assert(first_mention(segs) == first_mention(rest));
                match first_mention(rest) {
                    Some(u) => {
                        let i = choose|i: int| first_mention_at(rest, i, u);
                        assert(segs[i + 1] == rest[i]);
                        assert forall|j: int| 0 <= j < i + 1 implies !(#[trigger] segs[j] is Mention) by {
                            if j > 0 {
                                assert(segs[j] == rest[j - 1]);
                            }
                        }
                        assert(first_mention_at(segs, i + 1, u));
                        assert(exists|i: int| first_mention_at(segs, i, first_mention(segs)->0));
                    },
                    None => {
                        assert forall|j: int| 0 <= j < segs.len() implies !(#[trigger] segs[j] is Mention) by {
                            if j > 0 {
                                assert(segs[j] == rest[j - 1]);
                            }
                        }
                    },
                }
            },
        }
    }
}

fn find_mention_seg(segs: &Vec<Seg>) -> (r: Option<Uin>)
    ensures
        r == first_mention_seg(segs@),
{
    let mut i: usize = 0;
    assert(segs@.subrange(0, segs@.len() as int) =~= segs@);
    while i < segs.len()
        invariant
            i <= segs@.len(),
            first_mention_seg(segs@) == first_mention_seg(segs@.subrange(i as int, segs@.len() as int)),
        decreases segs@.len() - i,
    {
        let ghost rest = segs@.subrange(i as int, segs@.len() as int);
        assert(rest[0] == segs@[i as int]);
        assert(rest.subrange(1, rest.len() as int) =~= segs@.subrange(i + 1, segs@.len() as int));
        if let Seg::Mention(u, _) = &segs[i] {
            return Some(*u);
        }
        i = i + 1;
    }
    None
}

fn find_mention(segs: &Vec<Segment>) -> (r: Option<Uin>)
    ensures
        r == first_mention(segs@),
{
    let mut i: usize = 0;
    assert(segs@.subrange(0, segs@.len() as int) =~= segs@);
    while i < segs.len()
        invariant
            i <= segs@.len(),
            first_mention(segs@) == first_mention(segs@.subrange(i as int, segs@.len() as int)),
        decreases segs@.len() - i,
    {
        let ghost rest = segs@.subrange(i as int, segs@.len() as int);
        assert(rest[0] == segs@[i as int]);
        assert(rest.subrange(1, rest.len() as int) =~= segs@.subrange(i + 1, segs@.len() as int));
        if let Segment::Mention { user, .. } = &segs[i] {
            return Some(*user);
        }
        i = i + 1;
    }
    None
}

/// The first mention in the matched chain: the arguments of a matched command,
/// else the whole message (a message delivered to a waiter has no parsed command).
pub struct At(pub Uin);

impl At {
    /// The first mention of the chain (see [`At`]); `None` without one, or
    /// for a non-message event without a parsed command.
    pub fn from_chain(parsed: Option<&ParsedCommand>, event: &Event) -> (r: Option<At>)
        ensures
            match parsed {
                Some(p) => match first_mention_seg(p.args@) {
                    Some(u) => r matches Some(a) && a.0 == u,
                    None => r is None,
                },
                None => match *event {
                    Event::Message(m) => match first_mention(m.content@) {
                        Some(u) => r matches Some(a) && a.0 == u,
                        None => r is None,
                    },
                    _ => r is None,
                },
            },
            parsed matches Some(p) ==> match r {
                Some(a) => exists|i: int| first_mention_seg_at(p.args@, i, a.0),
                None => forall|j: int| 0 <= j < p.args@.len() ==> !(#[trigger] p.args@[j] is Mention),
            },
            parsed is None ==> match (*event, r) {
                (Event::Message(m), Some(a)) => exists|i: int| first_mention_at(m.content@, i, a.0),
                (Event::Message(m), None) => forall|j: int| 0 <= j < m.content@.len() ==> !(#[trigger] m.content@[j] is Mention),
                (_, r) => r is None,
            },
    {
        proof {
            if let Some(p) = parsed {
                law_first_mention_seg(p.args@);
            }
            if let Event::Message(m) = event {
                law_first_mention(m.content@);
            }
        }
        let found = match parsed {
            Some(p) => find_mention_seg(&p.args),
            None => match event {
                Event::Message(m) => find_mention(&m.content),
                _ => None,
            },
        };
        match found {
            Some(u) => {
                proof {
                    if parsed is None {
                        if let Event::Message(m) = event {
                            let i = choose|i: int| first_mention_at(m.content@, i, first_mention(m.content@)->0);
                            assert(first_mention_at(m.content@, i, u));
                        }
                    }
                }
                Some(At(u))
            },
            None => None,
        }
    }
}

/// The transport connected (`Meta::Connect`).
pub struct Connect;

impl Connect {
    /// `Some` exactly on `Meta::Connect`.
    pub fn from_event(event: &Event) -> (r: Option<Connect>)
        ensures
            r is Some <==> (*event matches Event::Meta(Meta::Connect)),
    {
        match event {
            Event::Meta(Meta::Connect) => Some(Connect),
            _ => None,
        }
    }
}

/// The transport disconnected (`Meta::Disconnect`), with the underlying error text.
pub struct Disconnect {
    pub reason: Option<String>,
}

/// Two optional strings hold the same text.
pub open spec fn same_opt_text(a: Option<String>, b: Option<String>) -> bool {
    match (a, b) {
        (Some(x), Some(y)) => x@ == y@,
        (None, None) => true,
        _ => false,
    }
}

fn clone_opt_text(a: &Option<String>) -> (r: Option<String>)
    ensures
        same_opt_text(*a, r),
{
    match a {
        Some(s) => Some(s.clone()),
        None => None,
    }
}

impl Disconnect {
    /// `Some` exactly on `Meta::Disconnect`, carrying its reason.
    pub fn from_event(event: &Event) -> (r: Option<Disconnect>)
        ensures
            match *event {
                Event::Meta(Meta::Disconnect { reason }) => r matches Some(d) && same_opt_text(
                    reason,
                    d.reason,
                ),
                _ => r is None,
            },
    {
        match event {
            Event::Meta(Meta::Disconnect { reason }) => Some(
                Disconnect { reason: clone_opt_text(reason) },
            ),
            _ => None,
        }
    }
}

/// The framework is ready: the bot account and its nickname (`Meta::Ready`).
pub struct Ready {
    pub self_id: Uin,
    pub nickname: String,
}

impl Ready {
    /// `Some` exactly on `Meta::Ready`, carrying its account and nickname.
    pub fn from_event(event: &Event) -> (r: Option<Ready>)
        ensures
            match *event {
                Event::Meta(Meta::Ready { self_id, nickname }) => r matches Some(x) && x.self_id
                    == self_id && x.nickname@ == nickname@,
                _ => r is None,
            },
    {
        match event {
            Event::Meta(Meta::Ready { self_id, nickname }) => Some(
                Ready { self_id: *self_id, nickname: nickname.clone() },
            ),
            _ => None,
        }
    }
}

/// The bot account came online (`Meta::BotOnline`), with the reason text if any.
pub struct BotOnline {
    pub reason: Option<String>,
}

impl BotOnline {
    /// `Some` exactly on `Meta::BotOnline`, carrying its reason.
    pub fn from_event(event: &Event) -> (r: Option<BotOnline>)
        ensures
            match *event {
                Event::Meta(Meta::BotOnline { reason }) => r matches Some(d) && same_opt_text(
                    reason,
                    d.reason,
                ),
                _ => r is None,
            },
    {
        match event {
            Event::Meta(Meta::BotOnline { reason }) => Some(
                BotOnline { reason: clone_opt_text(reason) },
            ),
            _ => None,
        }
    }
}

/// The bot account went offline (`Meta::BotOffline`).
pub struct BotOffline;

impl BotOffline {
    /// `Some` exactly on `Meta::BotOffline`.
    pub fn from_event(event: &Event) -> (r: Option<BotOffline>)
        ensures
            r is Some <==> (*event matches Event::Meta(Meta::BotOffline)),
    {
        match event {
            Event::Meta(Meta::BotOffline) => Some(BotOffline),
            _ => None,
        }
    }
}

/// A heartbeat: its interval in milliseconds and the reported status.
pub struct Heartbeat {
    pub interval: i64,
    pub online: bool,
    pub good: bool,
}

impl Heartbeat {
    /// `Some` exactly on `Meta::Heartbeat`, carrying its interval and status.
    pub fn from_event(event: &Event) -> (r: Option<Heartbeat>)
        ensures
            match *event {
                Event::Meta(Meta::Heartbeat { interval, online, good }) => r matches Some(h)
                    && h.interval == interval && h.online == online && h.good == good,
                _ => r is None,
            },
    {
        match event {
            Event::Meta(Meta::Heartbeat { interval, online, good }) => Some(
                Heartbeat { interval: *interval, online: *online, good: *good },
            ),
            _ => None,
        }
    }
}

} // verus!
