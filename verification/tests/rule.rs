use nagisa_core::ids::{Peer, Scene, Uin};
use nagisa_core::rule::{
    contains_str, from_user, group_only, in_group, keyword, private, role_at_least, role_source,
    superuser, to_me, MessageInfo, Role, RoleSource,
};
use nagisa_core::enabled::EnabledSet;
use nagisa_core::plugin::SwitchKey;
use nagisa_core::rule::{awake_allows, switch_allows};
use nagisa_core::rule::GateReply;
use nagisa_core::rule::{after_left, Combinator};

fn msg(peer: Peer, sender: i64, mentions_self: bool, text: &str) -> MessageInfo {
    MessageInfo { peer, sender: Uin(sender), mentions_self, text: text.to_string() }
}

#[test]
fn rule_to_me_private_or_mention() {
    let dm = msg(Peer::friend(Uin(5)), 5, false, "hi");
    let temp = msg(Peer { scene: Scene::Temp, id: Uin(5) }, 5, false, "hi");
    let plain = msg(Peer::group(Uin(9)), 5, false, "hi");
    let at = msg(Peer::group(Uin(9)), 5, true, "hi");
    assert!(to_me(Some(&dm)));
    assert!(to_me(Some(&temp)));
    assert!(!to_me(Some(&plain)));
    assert!(to_me(Some(&at)));
    assert!(!to_me(None));
}

#[test]
fn rule_scene_filters() {
    let dm = msg(Peer::friend(Uin(5)), 5, false, "");
    let grp = msg(Peer::group(Uin(9)), 5, false, "");
    assert!(group_only(Some(&grp)));
    assert!(!group_only(Some(&dm)));
    assert!(private(Some(&dm)));
    assert!(!private(Some(&grp)));
    assert!(!group_only(None));
    assert!(!private(None));
    assert!(in_group(Some(&grp), Uin(9)));
    assert!(!in_group(Some(&grp), Uin(8)));
    // A friend whose number equals the group's is not that group.
    let dm9 = msg(Peer::friend(Uin(9)), 9, false, "");
    assert!(!in_group(Some(&dm9), Uin(9)));
    assert!(from_user(Some(&grp), Uin(5)));
    assert!(!from_user(Some(&grp), Uin(6)));
    assert!(!from_user(None, Uin(5)));
}

#[test]
fn rule_contains_and_keyword() {
    assert!(contains_str("good morning", "morn"));
    assert!(contains_str("good morning", ""));
    assert!(!contains_str("good", "good morning"));
    assert!(contains_str("早上好呀", "上好"));
    assert!(!contains_str("早上好", "晚"));
    let m = msg(Peer::group(Uin(1)), 2, false, "please say hello there");
    let words = vec!["bye".to_string(), "hello".to_string()];
    assert!(keyword(Some(&m), &words));
    let none = vec!["bye".to_string()];
    assert!(!keyword(Some(&m), &none));
    assert!(!keyword(Some(&m), &Vec::new()));
    assert!(!keyword(None, &words));
}

#[test]
fn rule_superuser() {
    let m = msg(Peer::group(Uin(1)), 42, false, "");
    assert!(superuser(Some(&m), &vec![Uin(7), Uin(42)]));
    assert!(!superuser(Some(&m), &vec![Uin(7)]));
    assert!(!superuser(Some(&m), &Vec::new()));
    assert!(!superuser(None, &vec![Uin(42)]));
}

#[test]
fn rule_roles() {
    assert_eq!(role_source(Some(Role::Admin), Scene::Friend), RoleSource::Known(Role::Admin));
    assert_eq!(role_source(None, Scene::Group), RoleSource::Query);
    assert_eq!(role_source(None, Scene::Friend), RoleSource::Unknown);
    assert_eq!(role_source(None, Scene::Temp), RoleSource::Unknown);
    assert!(role_at_least(Some(Role::Owner), true));
    assert!(role_at_least(Some(Role::Admin), false));
    assert!(!role_at_least(Some(Role::Admin), true));
    assert!(!role_at_least(Some(Role::Member), false));
    assert!(!role_at_least(None, false));
}

#[test]
fn rule_switch_and_awake() {
    let key = SwitchKey::literal("fun");
    let g = Peer::group(Uin(1));
    assert!(switch_allows(false, None, &key, &[], Some(g)));
    assert!(!switch_allows(true, None, &key, &[], Some(g)));
    let mut es = EnabledSet::new();
    assert!(switch_allows(false, Some(&es), &key, &[], Some(g)));
    es.set_key("fun", None, false);
    assert!(!switch_allows(false, Some(&es), &key, &[], Some(g)));
    es.set_key("fun", Some(g), true);
    assert!(switch_allows(false, Some(&es), &key, &[], Some(g)));
    assert!(!switch_allows(true, Some(&es), &key, &[], Some(g)));
    assert!(awake_allows(None));
    assert!(awake_allows(Some(false)));
    assert!(!awake_allows(Some(true)));
}

#[test]
fn rule_gate_reply_first_writer_wins() {
    let mut slot: GateReply<&str> = GateReply::new();
    assert!(slot.record(true, "ignored"));
    assert_eq!(slot.reply, None);
    assert!(!slot.record(false, "Zzz"));
    assert_eq!(slot.reply, Some("Zzz"));
    assert!(!slot.record(false, "usage"));
    assert_eq!(slot.reply, Some("Zzz"));
}

#[test]
fn rule_short_circuit_steps() {
    assert_eq!(after_left(Combinator::And, false), Some(false));
    assert_eq!(after_left(Combinator::And, true), None);
    assert_eq!(after_left(Combinator::Or, true), Some(true));
    assert_eq!(after_left(Combinator::Or, false), None);
    assert_eq!(after_left(Combinator::Not, true), Some(false));
    assert_eq!(after_left(Combinator::Not, false), Some(true));
}
