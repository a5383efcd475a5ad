use nagisa_core::event::{
    Event, HonorKind, MemberDecreaseReason, MessageEvent, Meta, Notice, NudgeDisplay, Request, RequestState,
    RequestToken, Segment,
};
use nagisa_core::event_trigger::{
    kind_str, scene_of, AdminChange, BotOffline, Connect, Disconnect, EventKind, EventPeer, FriendAdd, FriendRequest,
    GroupCardChange, GroupJoinRequest, Heartbeat, Honor, LuckyKing, MemberJoin, MemberLeave, Mute, Nudge, Ready,
    Recall, Sender, ToMe, At,
};
use nagisa_core::matcher::{ParsedCommand, Seg};
use nagisa_core::ids::{Peer, Scene, Uin};
use nagisa_core::messages::MessageId;

fn display() -> NudgeDisplay {
    NudgeDisplay { action: "戳了戳".to_string(), suffix: "".to_string() }
}

fn message(peer: Peer, sender: i64) -> Event {
    Event::Message(MessageEvent {
        id: MessageId { peer, seq: 1, onebot_id: None },
        peer,
        sender: Uin(sender),
        self_id: Uin(10),
        is_self: false,
        member_name: None,
        member_nickname: None,
        group_name: None,
        friend_name: None,
        content: vec![Segment::Text("hi".to_string())],
    })
}

#[test]
fn event_kinds() {
    assert_eq!(EventKind::of(&message(Peer::group(Uin(1)), 2)), Some(EventKind::Message));
    let join = Notice::MemberIncrease { group: Uin(1), user: Uin(2), operator: None, invitor: None };
    assert_eq!(EventKind::of(&Event::Notice(join)), Some(EventKind::MemberJoin));
    let nudge = Notice::FriendNudge { user: Uin(1), display: display(), is_self_send: false };
    assert_eq!(EventKind::of(&Event::Notice(nudge)), Some(EventKind::Nudge));
    let other = Notice::Other { protocol: "Milky".to_string(), kind: "x".to_string() };
    assert_eq!(EventKind::of(&Event::Notice(other)), None);
    let invite = Request::GroupInvite { group: Uin(1), initiator: Uin(2), comment: String::new() };
    assert_eq!(EventKind::of(&Event::Request(invite)), Some(EventKind::GroupInvite));
    assert_eq!(EventKind::of(&Event::Meta(Meta::Unrecognized)), None);
    assert_eq!(EventKind::of(&Event::Unrecognized), Some(EventKind::Raw));
    assert_eq!(kind_str(&Event::Meta(Meta::Connect)), "meta");
    assert_eq!(kind_str(&Event::Raw { protocol: "Milky".to_string(), kind: "k".to_string() }), "raw");
}

#[test]
fn event_extractors() {
    let bot = Uin(10);
    let friend = Event::Notice(Notice::FriendNudge { user: Uin(3), display: display(), is_self_send: false });
    let n = Nudge::from_event(&friend, bot).expect("nudge");
    assert_eq!((n.peer, n.sender, n.receiver), (Peer::friend(Uin(3)), Uin(3), bot));
    let own = Event::Notice(Notice::GroupNudge { group: Uin(1), sender: bot, receiver: Uin(4), display: display() });
    assert!(Nudge::from_event(&own, bot).is_none());
    let self_sent = Event::Notice(Notice::FriendNudge { user: Uin(3), display: display(), is_self_send: true });
    assert!(Nudge::from_event(&self_sent, bot).is_none());
    assert!(Connect::from_event(&Event::Meta(Meta::Connect)).is_some());
    assert!(Connect::from_event(&message(Peer::friend(Uin(1)), 1)).is_none());
    let d = Disconnect::from_event(&Event::Meta(Meta::Disconnect { reason: Some("eof".to_string()) })).expect("disconnect");
    assert_eq!(d.reason, Some("eof".to_string()));
    let r = Ready::from_event(&Event::Meta(Meta::Ready { self_id: bot, nickname: "nagisa".to_string() })).expect("ready");
    assert_eq!(r.nickname, "nagisa");
    let h = Heartbeat::from_event(&Event::Meta(Meta::Heartbeat { interval: 5000, online: true, good: false })).expect("hb");
    assert_eq!((h.interval, h.online, h.good), (5000, true, false));
    assert!(BotOffline::from_event(&Event::Meta(Meta::BotOffline)).is_some());
}

#[test]
fn notice_and_request_extractors() {
    let join = Event::Notice(Notice::MemberIncrease { group: Uin(1), user: Uin(2), operator: Some(Uin(3)), invitor: None });
    let j = MemberJoin::from_event(&join).expect("join");
    assert_eq!((j.group, j.user, j.operator, j.invitor), (Uin(1), Uin(2), Some(Uin(3)), None));
    assert!(MemberLeave::from_event(&join).is_none());
    let leave = Event::Notice(Notice::MemberDecrease {
        group: Uin(1),
        user: Uin(2),
        operator: None,
        reason: MemberDecreaseReason::Leave,
    });
    assert_eq!(MemberLeave::from_event(&leave).expect("leave").reason, MemberDecreaseReason::Leave);
    let mute = Event::Notice(Notice::Mute { group: Uin(1), user: Uin(2), operator: Uin(3), duration: 60 });
    assert_eq!(Mute::from_event(&mute).expect("mute").duration, 60);
    let id = MessageId { peer: Peer::group(Uin(1)), seq: 0, onebot_id: Some(77) };
    let recall = Event::Notice(Notice::Recall { peer: Peer::group(Uin(1)), id, sender: Uin(2), operator: Uin(3), suffix: None });
    let rc = Recall::from_event(&recall).expect("recall");
    assert_eq!((rc.id, rc.sender, rc.operator, rc.suffix), (id, Uin(2), Uin(3), None));
    assert_eq!(FriendAdd::from_event(&Event::Notice(Notice::FriendAdd { user: Uin(9) })).expect("add").user, Uin(9));
    let fr = Event::Request(Request::Friend {
        initiator: Uin(5),
        comment: "hi".to_string(),
        state: RequestState::Pending,
        token: RequestToken("t1".to_string()),
    });
    let f = FriendRequest::from_event(&fr).expect("friend request");
    assert_eq!((f.initiator, f.comment.as_str(), f.token.0.as_str()), (Uin(5), "hi", "t1"));
    assert!(GroupJoinRequest::from_event(&fr).is_none());
    let gj = Event::Request(Request::GroupJoin {
        group: Uin(1),
        initiator: Uin(5),
        comment: "let me in".to_string(),
        invitor: None,
        token: RequestToken("t2".to_string()),
    });
    let g = GroupJoinRequest::from_event(&gj).expect("join request");
    assert_eq!((g.group, g.token.0.as_str()), (Uin(1), "t2"));
    let admin = Event::Notice(Notice::AdminChange { group: Uin(1), user: Uin(2), operator: None, is_set: true });
    assert!(AdminChange::from_event(&admin).expect("admin").is_set);
    let card = Event::Notice(Notice::GroupCardChange {
        group: Uin(1),
        user: Uin(2),
        old_card: "a".to_string(),
        new_card: "b".to_string(),
    });
    let c = GroupCardChange::from_event(&card).expect("card");
    assert_eq!((c.old_card.as_str(), c.new_card.as_str()), ("a", "b"));
    let honor = Event::Notice(Notice::Honor { group: Uin(1), user: Uin(2), honor: HonorKind::Talkative });
    assert_eq!(Honor::from_event(&honor).expect("honor").honor, HonorKind::Talkative);
    let lucky = Event::Notice(Notice::LuckyKing { group: Uin(1), user: Uin(2), target: Uin(3) });
    assert_eq!(LuckyKing::from_event(&lucky).expect("lucky").target, Uin(3));
}

#[test]
fn message_facts() {
    let m = message(Peer::group(Uin(7)), 42);
    assert_eq!(Sender::from_event(&m).expect("sender").0, Uin(42));
    assert_eq!(EventPeer::from_event(&m).expect("peer").0, Peer::group(Uin(7)));
    assert_eq!(scene_of(&m), Some(Scene::Group));
    assert_eq!(scene_of(&Event::Meta(Meta::Connect)), None);
    assert!(Sender::from_event(&Event::Meta(Meta::Connect)).is_none());
    assert_eq!(m.group(), Some(7));
    assert_eq!(message(Peer::friend(Uin(7)), 7).group(), None);
    let grey = Event::Notice(Notice::GrayTip { group: None, content: "x".to_string() });
    assert_eq!(grey.group(), None);
    let mute = Event::Notice(Notice::Mute { group: Uin(1), user: Uin(2), operator: Uin(3), duration: 60 });
    assert_eq!(mute.group(), Some(1));
}

fn message_with(peer: Peer, content: Vec<Segment>) -> Event {
    Event::Message(MessageEvent {
        id: MessageId { peer, seq: 1, onebot_id: None },
        peer,
        sender: Uin(2),
        self_id: Uin(10),
        is_self: false,
        member_name: None,
        member_nickname: None,
        group_name: None,
        friend_name: None,
        content,
    })
}

#[test]
fn to_me_and_first_mention() {
    let bot = Uin(10);
    let at_bot = vec![Segment::Mention { user: bot, name: None }, Segment::Text(" hi".to_string())];
    assert!(ToMe::from_event(&message_with(Peer::group(Uin(1)), at_bot), bot).expect("to me").0);
    let later = vec![Segment::Text("hi ".to_string()), Segment::Mention { user: bot, name: None }];
    assert!(!ToMe::from_event(&message_with(Peer::group(Uin(1)), later.clone_segments()), bot).expect("to me").0);
    assert!(ToMe::from_event(&message_with(Peer::friend(Uin(2)), Vec::new()), bot).expect("to me").0);
    assert!(ToMe::from_event(&Event::Meta(Meta::Connect), bot).is_none());
    let e = message_with(Peer::group(Uin(1)), later);
    assert_eq!(At::from_chain(None, &e).expect("at").0, bot);
    let parsed = ParsedCommand {
        command: "ban".to_string(),
        args: vec![Seg::Text("x".to_string()), Seg::Mention(Uin(5), 2)],
        args_text: "x".to_string(),
        captures: Vec::new(),
        named_captures: Vec::new(),
    };
    assert_eq!(At::from_chain(Some(&parsed), &e).expect("at").0, Uin(5));
    let empty = ParsedCommand {
        command: "ban".to_string(),
        args: Vec::new(),
        args_text: String::new(),
        captures: Vec::new(),
        named_captures: Vec::new(),
    };
    assert!(At::from_chain(Some(&empty), &e).is_none());
    assert!(At::from_chain(None, &Event::Meta(Meta::Connect)).is_none());
}

trait CloneSegments {
    fn clone_segments(&self) -> Vec<Segment>;
}

impl CloneSegments for Vec<Segment> {
    fn clone_segments(&self) -> Vec<Segment> {
        self.iter()
            .map(|s| match s {
                Segment::Text(t) => Segment::Text(t.clone()),
                Segment::Mention { user, name } => Segment::Mention { user: *user, name: name.clone() },
                _ => Segment::Unrecognized,
            })
            .collect()
    }
}
