use nagisa_core::enabled::EnabledSet;
use nagisa_core::event_trigger::EventKind;
use nagisa_core::ids::{Peer, Uin};
use nagisa_core::plugin::{
    is_module_prefix, last_segment, link_trigger, registered_plugins_resolved, registered_triggers_resolved,
    resolve_plugin_for, trigger_key, PluginMeta, SwitchKey, TriggerKind, TriggerMeta,
};

fn plugin(key: &str, path: &str, default_enable: bool, can_disable: bool) -> PluginMeta {
    let mut m = PluginMeta::default_meta();
    m.key = key.to_string();
    m.mod_path = path.to_string();
    m.default_enable = default_enable;
    m.can_disable = can_disable;
    m
}

#[test]
fn module_prefix_respects_boundaries() {
    assert!(is_module_prefix("a::horse", "a::horse"));
    assert!(is_module_prefix("a", "a::horse"));
    assert!(!is_module_prefix("a::horse", "a::horseshoe"));
    assert!(!is_module_prefix("a::b", "a"));
    assert!(is_module_prefix("", "::x"));
}

#[test]
fn link_trigger_picks_longest_prefix() {
    let ps = vec![plugin("root", "bot", true, true), plugin("games", "bot::games", true, true), plugin("other", "bot::gam", true, true)];
    match link_trigger("bot::games::dice", &ps) {
        Some(p) => assert_eq!(p.key, "games"),
        None => panic!("expected a plugin"),
    }
    match link_trigger("bot::admin", &ps) {
        Some(p) => assert_eq!(p.key, "root"),
        None => panic!("expected the root plugin"),
    }
    assert!(link_trigger("elsewhere", &ps).is_none());
}

#[test]
fn link_trigger_last_of_equal_length_wins() {
    let ps = vec![plugin("first", "bot::x", true, true), plugin("second", "bot::x", true, true)];
    match link_trigger("bot::x::cmd", &ps) {
        Some(p) => assert_eq!(p.key, "second"),
        None => panic!("expected a plugin"),
    }
}

#[test]
fn last_segment_of_module_paths() {
    assert_eq!(last_segment("my_bot::plugins::weather"), "weather");
    assert_eq!(last_segment("plain"), "plain");
    assert_eq!(last_segment("a:::b"), "b");
    assert_eq!(last_segment("trailing::"), "");
}

#[test]
fn resolved_plugins_fill_empty_keys() {
    let ps = vec![plugin("", "bot::plugins::echo", true, true), plugin("kept", "bot::k", false, true)];
    let r = registered_plugins_resolved(&ps);
    assert_eq!(r[0].key, "echo");
    assert_eq!(r[1].key, "kept");
    assert!(!r[1].default_enable);
}

#[test]
fn resolve_plugin_for_falls_back_to_module_path() {
    let ps = vec![plugin("games", "bot::games", false, false)];
    assert_eq!(resolve_plugin_for("bot::games::dice", &ps), ("games".to_string(), false, false));
    assert_eq!(resolve_plugin_for("bot::misc", &ps), ("bot::misc".to_string(), true, true));
    let raw = vec![plugin("", "bot::plugins::echo", true, false)];
    assert_eq!(resolve_plugin_for("bot::plugins::echo::say", &raw), ("echo".to_string(), true, false));
    assert_eq!(SwitchKey::trigger("bot::plugins::echo::say", "say").resolve(&raw), "echo.say");
}

#[test]
fn trigger_keys_are_dotted() {
    assert_eq!(trigger_key("games", "dice"), "games.dice");
    let ps = vec![plugin("games", "bot::games", true, true)];
    assert_eq!(SwitchKey::trigger("bot::games::dice", "roll").resolve(&ps), "games.roll");
    assert_eq!(SwitchKey::literal("games").resolve(&ps), "games");
}

#[test]
fn triggers_resolved_against_plugins() {
    let ps = vec![plugin("games", "bot::games", true, true)];
    let t = TriggerMeta {
        id: "roll".to_string(),
        key: String::new(),
        plugin_key: String::new(),
        name: "roll".to_string(),
        description: String::new(),
        usage: String::new(),
        words: vec!["roll".to_string(), "r".to_string()],
        order: 0,
        can_disable: true,
        default_enable: true,
        hidden: false,
        kind: TriggerKind::Event(EventKind::Message),
        mod_path: "bot::games::dice".to_string(),
    };
    let out = registered_triggers_resolved(&[t], &ps);
    assert_eq!(out[0].plugin_key, "games");
    assert_eq!(out[0].key, "games.roll");
    assert_eq!(out[0].words, vec!["roll".to_string(), "r".to_string()]);
}

#[test]
fn enable_set_then_read() {
    let mut es = EnabledSet::new();
    let g = Peer::group(Uin(100));
    assert!(es.is_enabled("games.roll", true, Some(g)));
    es.set_key("games.roll", None, false);
    assert!(!es.is_enabled("games.roll", true, Some(g)));
    assert!(!es.is_enabled("games.roll", true, None));
    es.set_key("games.roll", Some(g), true);
    assert!(es.is_enabled("games.roll", true, Some(g)));
    assert!(!es.is_enabled("games.roll", true, Some(Peer::group(Uin(101)))));
}

#[test]
fn enable_reset_returns_to_default() {
    let mut es = EnabledSet::new();
    es.set_key("k", None, false);
    es.reset_key("k", None);
    assert!(es.is_enabled("k", true, None));
    assert!(!es.is_enabled("k", false, None));
    let p = Peer::friend(Uin(5));
    es.set_key("k", Some(p), false);
    es.reset_key("k", Some(p));
    assert!(es.is_enabled("k", true, Some(p)));
}

#[test]
fn enable_set_through_switch_key_returns_name() {
    let ps = vec![plugin("games", "bot::games", true, true)];
    let mut es = EnabledSet::new();
    let name = es.set(&SwitchKey::trigger("bot::games::dice", "roll"), &ps, None, false);
    assert_eq!(name, "games.roll");
    assert!(!es.is_enabled("games.roll", true, None));
    es.reset(&SwitchKey::trigger("bot::games::dice", "roll"), &ps, None);
    assert!(es.is_enabled("games.roll", true, None));
}

#[test]
fn enable_layered_decision() {
    let mut es = EnabledSet::new();
    let p = Some(Peer::group(Uin(1)));
    // exempt trigger: always on
    es.set_key("plug", None, false);
    assert!(es.is_enabled_keyed("plug", "plug.t", true, true, true, false, p));
    // master switch off turns the trigger off
    assert!(!es.is_enabled_keyed("plug", "plug.t", true, true, true, true, p));
    // a plugin that cannot be disabled ignores its switch
    assert!(es.is_enabled_keyed("plug", "plug.t", true, false, true, true, p));
    // otherwise the trigger's own switch decides
    es.set_key("plug", None, true);
    es.set_key("plug.t", p.map(|x| x), false);
    assert!(!es.is_enabled_keyed("plug", "plug.t", true, true, true, true, p));
}

#[test]
fn enable_snapshot_restore_roundtrip() {
    let mut es = EnabledSet::new();
    let g = Peer::group(Uin(9));
    es.set_key("a", None, false);
    es.set_key("b", Some(g), true);
    let snap = es.snapshot();
    let mut other = EnabledSet::new();
    other.restore(snap);
    assert!(!other.is_enabled("a", true, None));
    assert!(other.is_enabled("b", false, Some(g)));
    assert!(other.is_enabled("c", true, None));
}
