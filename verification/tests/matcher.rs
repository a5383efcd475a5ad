use nagisa_core::ids::Uin;
use nagisa_core::matcher::{command_pattern, count_capturing_groups, regex_escape, Matcher, MessageView, Seg, SlotSpec};

const BOT: Uin = Uin(10000);

fn text_msg(in_group: bool, t: &str) -> MessageView {
    MessageView { in_group, content: vec![Seg::Text(t.to_string())] }
}

fn words(ws: &[&str]) -> Vec<String> {
    ws.iter().map(|w| w.to_string()).collect()
}

#[test]
fn escape_and_patterns() {
    assert_eq!(regex_escape("a.b*c"), "a\\.b\\*c");
    assert_eq!(regex_escape("签到"), "签到");
    assert_eq!(command_pattern(&words(&["echo", "签到"])), "^(?:echo|签到)(?:\\s|$)");
    assert_eq!(command_pattern(&words(&["git add"])), "^(?:git\\s+add)(?:\\s|$)");
    assert_eq!(command_pattern(&[]), "^(?:\\z\\A)(?:\\s|$)");
}

#[test]
fn capturing_groups_counted() {
    assert_eq!(count_capturing_groups("(a)(b)"), 2);
    assert_eq!(count_capturing_groups("(?:a)(?P<x>b)(?<y>c)"), 2);
    assert_eq!(count_capturing_groups("\\(a\\)[(]"), 0);
    assert_eq!(count_capturing_groups("((a)|b)"), 2);
    assert_eq!(count_capturing_groups("a\\"), 0);
}

#[test]
fn command_hits_first_word() {
    let m = Matcher::command(&words(&["echo", "签到"]));
    let (p, usage) = m.match_event(&text_msg(false, "  echo hello world"), BOT).expect("hit");
    assert_eq!(p.command, "echo");
    assert_eq!(p.args_text, "hello world");
    assert!(usage.is_none());
    assert!(m.match_event(&text_msg(false, "echoes"), BOT).is_none());
    assert!(m.match_event(&text_msg(false, "say echo"), BOT).is_none());
    assert!(m.match_event(&text_msg(false, "签到"), BOT).is_some());
}

#[test]
fn multi_word_command_tolerates_spaces() {
    let m = Matcher::command(&words(&["git add"]));
    let (p, _) = m.match_event(&text_msg(false, "git   add file"), BOT).expect("hit");
    assert_eq!(p.args_text, "file");
}

#[test]
fn empty_command_never_matches() {
    let m = Matcher::command(&[]);
    assert!(m.match_event(&text_msg(false, ""), BOT).is_none());
    assert!(m.match_event(&text_msg(false, "x"), BOT).is_none());
}

#[test]
fn leading_self_mentions_are_stripped() {
    let m = Matcher::command(&words(&["pay"])).to_me();
    let msg = MessageView {
        in_group: true,
        content: vec![Seg::Reply(0), Seg::Mention(BOT, 1), Seg::Text(" pay 5".to_string()), Seg::Mention(Uin(7), 3)],
    };
    let (p, _) = m.match_event(&msg, BOT).expect("addressed to the bot");
    assert_eq!(p.command, "pay");
    assert_eq!(p.args.len(), 3);
    assert!(matches!(p.args[0], Seg::Reply(0)));
    assert!(matches!(&p.args[1], Seg::Text(t) if t == "5"));
    assert!(matches!(p.args[2], Seg::Mention(Uin(7), 3)));
    let not_to_me = MessageView { in_group: true, content: vec![Seg::Text("pay 5".to_string())] };
    assert!(m.match_event(&not_to_me, BOT).is_none());
    assert!(m.match_event(&text_msg(false, "pay 5"), BOT).is_some());
}

#[test]
fn mention_me_drops_slash() {
    let m = Matcher::command(&words(&["help"])).mention_me();
    let msg = MessageView { in_group: true, content: vec![Seg::Mention(BOT, 0), Seg::Text(" / help".to_string())] };
    assert!(m.match_event(&msg, BOT).is_some());
}

#[test]
fn no_args_and_exact() {
    let m = Matcher::command(&words(&["我的"])).no_args();
    assert!(m.match_event(&text_msg(false, "我的"), BOT).is_some());
    assert!(m.match_event(&text_msg(false, "我的 xxx"), BOT).is_none());
    let replied = MessageView { in_group: false, content: vec![Seg::Reply(0), Seg::Text("我的".to_string())] };
    assert!(m.match_event(&replied, BOT).is_some());
    let with_image = MessageView { in_group: false, content: vec![Seg::Text("我的".to_string()), Seg::Other(1)] };
    assert!(m.match_event(&with_image, BOT).is_none());
    let e = Matcher::command(&words(&["我的"])).exact();
    assert!(e.match_event(&text_msg(false, "我的"), BOT).is_some());
    assert!(e.match_event(&replied, BOT).is_none());
}

#[test]
fn regex_trigger_and_captures() {
    let m = Matcher::regex(r"^weather (\w+)").expect("valid");
    let (p, _) = m.match_event(&text_msg(false, "weather beijing now"), BOT).expect("hit");
    assert_eq!(p.command, "weather beijing");
    assert_eq!(p.captures, vec!["beijing".to_string()]);
    assert_eq!(p.args_text, "now");
    assert!(Matcher::regex("(").is_err());
}

#[test]
fn unanchored_regex_splices_remainder() {
    let m = Matcher::regex(r"weather (\w+)").expect("valid");
    let (p, _) = m.match_event(&text_msg(false, "today weather beijing now"), BOT).expect("hit");
    assert_eq!(p.command, "weather beijing");
    assert_eq!(p.args_text, "today  now");
}

#[test]
fn slots_program_names_groups() {
    let specs = vec![
        SlotSpec::literal("roll"),
        SlotSpec::named("n", "\\d+"),
        SlotSpec::optional("d", "d\\d+"),
    ];
    let m = Matcher::slots(specs).expect("valid").with_usage("roll <n>[d<sides>]");
    let (p, usage) = m.match_event(&text_msg(false, "roll3d6"), BOT).expect("hit");
    assert_eq!(usage, Some("roll <n>[d<sides>]".to_string()));
    assert_eq!(p.named_captures, vec![("n".to_string(), Some("3".to_string())), ("d".to_string(), Some("d6".to_string()))]);
    let (p, _) = m.match_event(&text_msg(false, "roll3"), BOT).expect("hit");
    assert_eq!(p.named_captures, vec![("n".to_string(), Some("3".to_string())), ("d".to_string(), None)]);
}
