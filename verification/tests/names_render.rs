use nagisa_core::event::{Event, MessageEvent, Meta, Notice, Segment};
use nagisa_core::ids::{Peer, Uin};
use nagisa_core::messages::MessageId;
use nagisa_core::names::{backfill_plan, begin_member_fetch, gtimg_url, non_empty, NameStore};
use nagisa_core::render::{
    clean_file_name, clip_name, fold_newlines, group_label, is_bracketed, resolve_user, strip_brackets,
    truncate_preview, user_label, RenderOpts, Style,
};

#[test]
fn names_trim_and_ignore_empty() {
    let mut n = NameStore::new();
    n.put_user(1, "  Alice  ");
    n.put_user(2, "   ");
    n.put_user(0, "Zero");
    assert_eq!(n.user(1), Some("Alice".to_string()));
    assert_eq!(n.user(2), None);
    assert_eq!(n.user(0), None);
    n.put_user(1, "Alicia");
    assert_eq!(n.user(1), Some("Alicia".to_string()));
}

#[test]
fn names_member_falls_back_to_user() {
    let mut n = NameStore::new();
    n.put_user(7, "Global");
    n.put_member(100, 7, "Card");
    assert_eq!(n.member(100, 7), Some("Card".to_string()));
    assert_eq!(n.member(200, 7), Some("Global".to_string()));
    assert_eq!(n.member(200, 8), None);
    n.put_group(100, " 群 ");
    assert_eq!(n.group(100), Some("群".to_string()));
}

fn message(peer: Peer, sender: i64, member: Option<(&str, &str)>, group_name: Option<&str>, friend: Option<&str>, content: Vec<Segment>) -> Event {
    Event::Message(MessageEvent {
        id: MessageId { peer, seq: 1, onebot_id: None },
        peer,
        sender: Uin(sender),
        self_id: Uin(10),
        is_self: false,
        member_name: member.map(|m| m.0.to_string()),
        member_nickname: member.map(|m| m.1.to_string()),
        group_name: group_name.map(|g| g.to_string()),
        friend_name: friend.map(|f| f.to_string()),
        content,
    })
}

#[test]
fn names_learn_from_events() {
    let mut n = NameStore::new();
    n.learn_from_event(&message(Peer::group(Uin(100)), 7, Some(("小七", " seven ")), Some("Rust 群"), None, Vec::new()));
    assert_eq!(n.member(100, 7), Some("小七".to_string()));
    assert_eq!(n.user(7), Some("seven".to_string()));
    assert_eq!(n.group(100), Some("Rust 群".to_string()));
    let card = Notice::GroupCardChange { group: Uin(100), user: Uin(7), old_card: "小七".to_string(), new_card: "新名片".to_string() };
    n.learn_from_event(&Event::Notice(card));
    assert_eq!(n.member(100, 7), Some("新名片".to_string()));
    n.learn_from_event(&Event::Meta(Meta::Ready { self_id: Uin(42), nickname: "bot".to_string() }));
    assert_eq!(n.user(42), Some("bot".to_string()));
    n.learn_from_event(&message(Peer::friend(Uin(9)), 9, None, None, Some(""), Vec::new()));
    assert_eq!(n.user(9), None);
    n.learn_from_event(&message(Peer::friend(Uin(9)), 9, None, None, Some("九"), Vec::new()));
    assert_eq!(n.user(9), Some("九".to_string()));
    let rename = Notice::GroupNameChange { group: Uin(100), new_name: "新群名".to_string(), operator: Uin(1) };
    n.learn_from_event(&Event::Notice(rename));
    assert_eq!(n.group(100), Some("新群名".to_string()));
}

#[test]
fn names_backfill_plan() {
    let stickers = vec![
        Segment::MarketFace { package_id: 5, emoji_id: "a".to_string(), summary: None },
        Segment::Text("x".to_string()),
        Segment::MarketFace { package_id: 6, emoji_id: "b".to_string(), summary: None },
    ];
    let b = backfill_plan(&message(Peer::group(Uin(100)), 7, None, None, None, stickers));
    assert_eq!((b.group, b.member, b.packages), (Some(100), None, vec![5, 6]));
    let join = Notice::MemberIncrease { group: Uin(100), user: Uin(8), operator: None, invitor: None };
    let b = backfill_plan(&Event::Notice(join));
    assert_eq!((b.group, b.member, b.packages.len()), (Some(100), Some((100, 8)), 0));
    let b = backfill_plan(&message(Peer::friend(Uin(9)), 9, None, None, None, Vec::new()));
    assert_eq!((b.group, b.member), (None, None));
}

#[test]
fn names_market_faces() {
    let mut n = NameStore::new();
    assert_eq!(n.market_face_display(240869, "abc"), None);
    n.put_market_face(240869, "abc", " 好耶 ");
    assert_eq!(n.market_face_display(240869, "abc"), Some("好耶".to_string()));
    n.put_market_face_package(240869, "小熊");
    assert_eq!(n.market_face_display(240869, "abc"), Some("小熊·好耶".to_string()));
    n.put_market_face(240869, "", "ignored");
    assert_eq!(n.market_face(240869, ""), None);
}

#[test]
fn names_fetch_once() {
    let mut n = NameStore::new();
    assert!(n.begin_group_fetch(100));
    assert!(!n.begin_group_fetch(100));
    assert!(!n.begin_group_fetch(0));
    n.put_group(200, "已知群");
    assert!(!n.begin_group_fetch(200));
    assert!(n.begin_package_fetch(5));
    assert!(!n.begin_package_fetch(5));
    assert!(n.begin_prefetch());
    assert!(!n.begin_prefetch());
    assert!(begin_member_fetch(1, 2));
    assert!(!begin_member_fetch(0, 2));
}

#[test]
fn gtimg_urls() {
    assert_eq!(gtimg_url(240869), "https://i.gtimg.cn/club/item/parcel/9/240869_android.json?mType=VIP_emosm");
    assert_eq!(gtimg_url(10), "https://i.gtimg.cn/club/item/parcel/0/10_android.json?mType=VIP_emosm");
    assert_eq!(gtimg_url(-3), "https://i.gtimg.cn/club/item/parcel/7/-3_android.json?mType=VIP_emosm");
    assert_eq!(non_empty(""), None);
    assert_eq!(non_empty("x"), Some("x".to_string()));
}

#[test]
fn truncation_counts_characters() {
    assert_eq!(truncate_preview("abc", 3), "abc");
    assert_eq!(truncate_preview("abcd", 3), "abc…");
    assert_eq!(truncate_preview("一二三四", 2), "一二…");
    assert_eq!(truncate_preview("ab\u{200D}\u{200D}cd", 4), "ab…");
    assert_eq!(clip_name("123456789012"), "123456789012");
    assert_eq!(clip_name("1234567890123"), "123456789012…");
}

#[test]
fn brackets_and_file_names() {
    assert_eq!(strip_brackets(" [图片] "), "图片");
    assert_eq!(strip_brackets("【动画表情】"), "动画表情");
    assert_eq!(strip_brackets("[ x ]"), "x");
    assert_eq!(strip_brackets("[open"), "[open");
    assert!(is_bracketed("[图片]"));
    assert!(is_bracketed(" 【x】 "));
    assert!(!is_bracketed("["));
    assert!(!is_bracketed("喵喵喵"));
    assert_eq!(clean_file_name("C:\\pics\\ABC.png"), Some("ABC.png".to_string()));
    assert_eq!(clean_file_name("/tmp/a b.jpg "), Some("a b.jpg".to_string()));
    assert_eq!(clean_file_name("https://x/download?rkey=1"), None);
    assert_eq!(clean_file_name("https://x/DownLoad"), None);
    assert_eq!(clean_file_name("dir/"), None);
}

#[test]
fn newlines_fold() {
    assert_eq!(fold_newlines("a\r\nb\nc\rd"), "a ⏎ b ⏎ c ⏎ d");
    assert_eq!(fold_newlines("plain"), "plain");
}

#[test]
fn painting_and_labels() {
    assert_eq!(Style::Plain.paint("32", "x"), "x");
    assert_eq!(Style::Ansi.paint("1;36", "x"), "\x1b[1;36mx\x1b[0m");
    let mut n = NameStore::new();
    n.put_group(100, "Rust 中文社区群聊很长的名字");
    n.put_user(7, "Alice");
    n.put_member(100, 7, "群里的 Alice");
    let plain = RenderOpts::plain();
    assert_eq!(group_label(100, &plain), "100");
    let opts = RenderOpts { style: Style::Plain, names: Some(&n), group: Some(100), messages: None };
    assert_eq!(group_label(100, &opts), "Rust 中文社区群聊很…(100)");
    assert_eq!(user_label(7, &opts), "群里的 Alice(7)");
    assert_eq!(user_label(8, &opts), "8");
    let global = RenderOpts { style: Style::Plain, names: Some(&n), group: None, messages: None };
    assert_eq!(resolve_user(7, &global), Some("Alice".to_string()));
    assert_eq!(user_label(-5, &global), "-5");
}
