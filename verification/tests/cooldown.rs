use nagisa_core::cooldown::{key_for, Cd, CdKey, Cooldown, CooldownCheck, CooldownScope, CooldownStore, MessageFacts, TriggerId};
use nagisa_core::ids::{Peer, Uin};

fn msg(sender: i64, group: i64) -> MessageFacts {
    MessageFacts { is_self: false, sender: Uin(sender), peer: Peer::group(Uin(group)) }
}

#[test]
fn cooldown_one_run_per_window() {
    let mut s = CooldownStore::new();
    assert!(s.try_stamp(CdKey::UserGlobal(Uin(1)), 0, 1000, 1));
    assert!(!s.try_stamp(CdKey::UserGlobal(Uin(1)), 500, 1000, 1));
    assert!(s.try_stamp(CdKey::UserGlobal(Uin(2)), 500, 1000, 1));
    assert!(s.try_stamp(CdKey::UserGlobal(Uin(1)), 1000, 1000, 1));
}

#[test]
fn cooldown_max_exec_runs_then_refuses() {
    let mut s = CooldownStore::new();
    let k = || CdKey::custom("bili:42");
    assert!(s.try_stamp(k(), 0, 60_000, 3));
    assert!(s.try_stamp(k(), 10, 60_000, 3));
    assert!(s.try_stamp(k(), 20, 60_000, 3));
    assert!(!s.ready(&k(), 30, 60_000, 3));
    assert!(!s.try_stamp(k(), 30, 60_000, 3));
    assert!(s.ready(&k(), 60_000, 60_000, 3));
}

#[test]
fn cooldown_ready_does_not_stamp_and_stamp_counts() {
    let mut s = CooldownStore::new();
    let k = CdKey::Global;
    assert!(s.ready(&k, 0, 100, 1));
    assert!(s.ready(&k, 0, 100, 1));
    s.stamp(CdKey::Global, 0, 100);
    assert!(!s.ready(&k, 50, 100, 1));
    assert!(s.ready(&k, 50, 100, 2));
}

#[test]
fn cooldown_builder() {
    let c = Cooldown::new(30);
    assert_eq!(c.interval_ms, 30_000);
    assert_eq!(c.scope, CooldownScope::UserGlobal);
    assert_eq!(c.max_exec, 1);
    assert_eq!(c.per_peer().scope, CooldownScope::Peer);
    assert_eq!(c.per_trigger().scope, CooldownScope::User);
    assert_eq!(c.global().scope, CooldownScope::Global);
    assert_eq!(c.max_exec(0).max_exec, 1);
    assert_eq!(c.max_exec(5).max_exec, 5);
    assert_eq!(Cooldown::new(u64::MAX).interval_ms, u64::MAX);
}

#[test]
fn cooldown_keys_by_scope() {
    let t = TriggerId::of("p", "t");
    assert!(matches!(key_for(Some(msg(1, 2)), CooldownScope::UserGlobal, &t), Some(CdKey::UserGlobal(Uin(1)))));
    assert!(matches!(key_for(Some(msg(1, 2)), CooldownScope::Peer, &t), Some(CdKey::Peer(_))));
    assert!(matches!(key_for(Some(msg(1, 2)), CooldownScope::Global, &t), Some(CdKey::Global)));
    assert!(matches!(key_for(Some(msg(1, 2)), CooldownScope::User, &t), Some(CdKey::User(Uin(1), _))));
    assert!(key_for(None, CooldownScope::UserGlobal, &t).is_none());
    assert!(key_for(None, CooldownScope::Global, &t).is_none());
    assert!(key_for(None, CooldownScope::Peer, &t).is_none());
    let echo = MessageFacts { is_self: true, sender: Uin(1), peer: Peer::group(Uin(2)) };
    assert!(key_for(Some(echo), CooldownScope::Global, &t).is_none());
}

#[test]
fn cooldown_check_bypass_and_window() {
    let check = CooldownCheck { cd: Cooldown::new(10), trigger: TriggerId::of("p", "t") };
    let mut s = CooldownStore::new();
    assert!(check.check(false, Some(msg(1, 2)), &mut s, 0));
    assert!(!check.check(false, Some(msg(1, 2)), &mut s, 5_000));
    assert!(check.check(true, Some(msg(1, 2)), &mut s, 5_000));
    assert!(check.check(false, None, &mut s, 5_000));
    assert!(check.check(false, Some(msg(1, 2)), &mut s, 10_000));
    let global = CooldownCheck { cd: Cooldown::new(10).global(), trigger: TriggerId::of("p", "t") };
    let mut g = CooldownStore::new();
    assert!(global.check(false, None, &mut g, 0));
    assert!(global.check(false, None, &mut g, 1));
    assert!(global.check(false, Some(msg(1, 2)), &mut g, 2));
    assert!(!global.check(false, Some(msg(3, 4)), &mut g, 3));
}

#[test]
fn cooldown_per_trigger_buckets_are_separate() {
    let mut s = CooldownStore::new();
    assert!(s.try_stamp(CdKey::User(Uin(1), TriggerId::of("p", "a")), 0, 1000, 1));
    assert!(s.try_stamp(CdKey::User(Uin(1), TriggerId::of("p", "b")), 0, 1000, 1));
    assert!(!s.try_stamp(CdKey::User(Uin(1), TriggerId::of("p", "a")), 1, 1000, 1));
}

#[test]
fn cd_handle_gate_ready_stamp() {
    let mut store = CooldownStore::new();
    let mut cd = Cd(&mut store);
    let key = CdKey::custom("bili:42");
    assert!(cd.ready(&key, 60_000, 0));
    assert!(cd.gate(CdKey::custom("bili:42"), 60_000, 0));
    assert!(!cd.ready(&key, 60_000, 1_000));
    assert!(!cd.gate(CdKey::custom("bili:42"), 60_000, 1_000));
    assert!(cd.gate(CdKey::custom("bili:42"), 60_000, 60_000));
    let other = CdKey::custom("other");
    cd.stamp(CdKey::custom("other"), 1_000, 5);
    assert!(!cd.ready(&other, 1_000, 6));
    assert!(cd.ready(&other, 1_000, 1_005));
}
