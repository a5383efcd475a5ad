use nagisa_core::event::{
    Event, MemberDecreaseReason, MessageEvent, Meta, Notice, NudgeDisplay, Request, RequestState, RequestToken,
    Segment,
};
use nagisa_core::ids::{Peer, Uin};
use nagisa_core::line::{msg_ref, render, render_line, render_segment, render_segments};
use nagisa_core::messages::{MessageId, MessageStore};
use nagisa_core::names::NameStore;
use nagisa_core::render::{RenderOpts, Style};
use nagisa_core::observer::synth_self_message;

fn id(peer: Peer, seq: i64, onebot_id: Option<i32>) -> MessageId {
    MessageId { peer, seq, onebot_id }
}

fn text(s: &str) -> Segment {
    Segment::Text(s.to_string())
}

fn msg(peer: Peer, sender: i64, member_name: Option<&str>, content: Vec<Segment>) -> MessageEvent {
    MessageEvent {
        id: id(peer, 0, None),
        peer,
        sender: Uin(sender),
        self_id: Uin(10),
        is_self: false,
        member_name: member_name.map(|s| s.to_string()),
        member_nickname: None,
        group_name: None,
        friend_name: None,
        content,
    }
}

#[test]
fn line_group_message_example() {
    let content = vec![
        text("你好 "),
        Segment::Mention { user: Uin(789), name: None },
        text(" "),
        Segment::Image { summary: None, filename: None, recv_id: None },
    ];
    let e = Event::Message(msg(Peer::group(Uin(123)), 456, Some("张三"), content));
    assert_eq!(render(&e), "[群 123] 张三(456): 你好 @789 [图片]");
    let bare = Event::Message(msg(Peer::friend(Uin(456)), 456, None, vec![text("hi")]));
    assert_eq!(render(&bare), "[私聊] 456: hi");
}

#[test]
fn line_recall_example() {
    let recalled = id(Peer::group(Uin(1)), 0, None);
    let e = Event::Notice(Notice::Recall { peer: Peer::group(Uin(1)), id: recalled, sender: Uin(456), operator: Uin(456), suffix: None });
    assert_eq!(render(&e), "[撤回] 456 撤回了一条消息");
    let other = Event::Notice(Notice::Recall { peer: Peer::group(Uin(1)), id: recalled, sender: Uin(456), operator: Uin(9), suffix: None });
    assert_eq!(render(&other), "[撤回] 9 撤回了 456 的一条消息");
}

#[test]
fn line_recall_preview_and_reply_from_cache() {
    let mid = id(Peer::group(Uin(1)), 0, Some(77));
    let mut store: MessageStore<Vec<Segment>> = MessageStore::new(8);
    store.record(mid, Uin(2), vec![text("  secret\nline  ")]);
    let opts = RenderOpts { style: Style::Plain, names: None, group: None, messages: Some(&store) };
    let e = Event::Notice(Notice::Recall { peer: Peer::group(Uin(1)), id: mid, sender: Uin(2), operator: Uin(2), suffix: None });
    assert_eq!(render_line(&e, &opts), "[撤回 #77] 2 撤回了一条消息: secret ⏎ line");
    let reply = Segment::Reply { id: mid, sender: None };
    assert_eq!(render_segment(&reply, &opts), "[回复 @2 #77]");
    let plain = RenderOpts::plain();
    assert_eq!(render_segment(&reply, &plain), "[回复 #77]");
}

#[test]
fn line_sticker_fallback_text_is_skipped() {
    let segs = vec![
        Segment::MarketFace { package_id: 1, emoji_id: "e".to_string(), summary: Some("[喵喵喵]".to_string()) },
        text("喵喵喵"),
    ];
    assert_eq!(render_segments(&segs), "[商城表情 喵喵喵]喵喵喵");
    let same = vec![
        Segment::MarketFace { package_id: 1, emoji_id: "e".to_string(), summary: Some(" 喵喵喵 ".to_string()) },
        text("喵喵喵"),
        text("喵喵喵"),
    ];
    assert_eq!(render_segments(&same), "[商城表情 喵喵喵]喵喵喵");
}

#[test]
fn line_image_labels() {
    let sticker = Segment::Image { summary: Some("[动画表情]".to_string()), filename: Some("ABC.gif".to_string()), recv_id: None };
    assert_eq!(render_segments(&[sticker]), "[动画表情 ABC.gif]");
    let captioned = Segment::Image {
        summary: Some("喵喵喵".to_string()),
        filename: None,
        recv_id: Some("https://x/download?rkey=1".to_string()),
    };
    assert_eq!(render_segments(&[captioned]), "[图片 喵喵喵]");
    let path = Segment::Image { summary: None, filename: None, recv_id: Some("C:\\pics\\a.png".to_string()) };
    assert_eq!(render_segments(&[path]), "[图片 a.png]");
}

#[test]
fn line_ansi_and_names() {
    let mut names = NameStore::new();
    names.put_group(1, "测试群");
    names.put_user(2, "小明");
    let opts = RenderOpts { style: Style::Ansi, names: Some(&names), group: None, messages: None };
    assert_eq!(render_segment(&Segment::MentionAll, &opts), "\x1b[36m@全体成员\x1b[0m");
    let plain_names = RenderOpts { style: Style::Plain, names: Some(&names), group: None, messages: None };
    let e = Event::Notice(Notice::Mute { group: Uin(1), user: Uin(2), operator: Uin(3), duration: 60 });
    assert_eq!(render_line(&e, &plain_names), "[禁言] 3 禁言 小明(2) 60s（群 测试群(1)）");
}

#[test]
fn line_meta_and_requests() {
    let ready = Event::Meta(Meta::Ready { self_id: Uin(10), nickname: " nagisa ".to_string() });
    assert_eq!(render(&ready), "[元] 就绪（账号 nagisa(10)）");
    let anon = Event::Meta(Meta::Ready { self_id: Uin(10), nickname: " ".to_string() });
    assert_eq!(render(&anon), "[元] 就绪（账号 10）");
    assert_eq!(render(&Event::Meta(Meta::Heartbeat { interval: 5000, online: true, good: true })), "[元] 心跳 5000ms");
    assert_eq!(render(&Event::Meta(Meta::Disconnect { reason: Some("  ".to_string()) })), "[元] 协议端断开");
    assert_eq!(render(&Event::Meta(Meta::Disconnect { reason: Some("eof".to_string()) })), "[元] 协议端断开（eof）");
    let fr = Event::Request(Request::Friend {
        initiator: Uin(5),
        comment: "hi".to_string(),
        state: RequestState::Accepted,
        token: RequestToken("t".to_string()),
    });
    assert_eq!(render(&fr), "[好友请求] 5: hi（已同意）");
    let gj = Event::Request(Request::GroupJoin {
        group: Uin(1),
        initiator: Uin(5),
        comment: "plz".to_string(),
        invitor: Some(Uin(6)),
        token: RequestToken("t".to_string()),
    });
    assert_eq!(render(&gj), "[加群请求] 5 → 群 1: plz（邀请人 6）");
    assert_eq!(render(&Event::Request(Request::Unrecognized)), "[请求]");
}

#[test]
fn line_notices() {
    let kick = Event::Notice(Notice::MemberDecrease {
        group: Uin(1),
        user: Uin(2),
        operator: Some(Uin(3)),
        reason: MemberDecreaseReason::Kick,
    });
    assert_eq!(render(&kick), "[退群] 3 将 2 被踢出群 1");
    let left = Event::Notice(Notice::MemberDecrease {
        group: Uin(1),
        user: Uin(2),
        operator: Some(Uin(3)),
        reason: MemberDecreaseReason::Leave,
    });
    assert_eq!(render(&left), "[退群] 2 退出群 1");
    let nudge = Event::Notice(Notice::GroupNudge {
        group: Uin(1),
        sender: Uin(2),
        receiver: Uin(3),
        display: NudgeDisplay { action: "拍".to_string(), suffix: "的头".to_string() },
    });
    assert_eq!(render(&nudge), "[戳一戳] 群 1 2 拍了 3的头");
    let like = Event::Notice(Notice::ProfileLike { operator: Uin(3), operator_nick: "小明".to_string(), times: 5 });
    assert_eq!(render(&like), "[资料点赞] 小明(3) 点赞 5 次");
    let tip = Event::Notice(Notice::GrayTip { group: None, content: "a\r\nb".to_string() });
    assert_eq!(render(&tip), "[灰字提示] a ⏎ b");
    assert_eq!(render(&Event::Notice(Notice::Unrecognized)), "[通知]");
    let raw = Event::Raw { protocol: "Milky".to_string(), kind: "x".to_string() };
    assert_eq!(render(&raw), "[原始] Milky x");
    assert_eq!(render(&Event::Unrecognized), "[未知事件]");
}

#[test]
fn line_self_message_and_refs() {
    let peer = Peer::group(Uin(1));
    let m = MessageEvent {
        id: id(peer, 0, Some(77)),
        peer,
        sender: Uin(10),
        self_id: Uin(10),
        is_self: true,
        member_name: None,
        member_nickname: None,
        group_name: None,
        friend_name: None,
        content: vec![text("hi")],
    };
    assert_eq!(render(&Event::Message(m)), "[发送] 群 1 #77: hi");
    assert_eq!(msg_ref(&id(peer, 5, None)), Some("5".to_string()));
    assert_eq!(msg_ref(&id(peer, 0, None)), None);
    assert_eq!(msg_ref(&id(peer, 5, Some(-3))), Some("-3".to_string()));
}

#[test]
fn line_outgoing_message_synthesised() {
    let peer = Peer::friend(Uin(5));
    let e = synth_self_message(peer, vec![text("hello")], Uin(10), id(peer, 3, None));
    match &e {
        Event::Message(m) => assert!(m.is_self && m.sender == Uin(10) && m.self_id == Uin(10) && m.member_name.is_none()),
        _ => panic!("expected a message"),
    }
    assert_eq!(render(&e), "[发送] 私聊 5 #3: hello");
}
