use nagisa_core::ids::{Peer, Uin};
use nagisa_core::messages::{MessageId, MessageStore};
use nagisa_core::rendezvous::Rendezvous;
use nagisa_core::session::{DeliverStep, Delivery, EventFacts, FlightStore, Scope, Selector, SendOutcome, WaiterBuilder, WaiterStore};
use nagisa_core::event_trigger::EventKind;

#[test]
fn rendezvous_issue_then_claim() {
    let mut r: Rendezvous<u64> = Rendezvous::new(1000);
    r.issue("tok", 7, 0);
    assert_eq!(r.peek("tok", 10), Some(7));
    assert_eq!(r.claim("tok", 10), Some(7));
    assert_eq!(r.claim("tok", 10), None);
    assert!(r.is_empty());
}

#[test]
fn rendezvous_expiry() {
    let mut r: Rendezvous<u64> = Rendezvous::new(1000);
    r.issue("a", 1, 0);
    r.issue_with_ttl("b", 2, 5000, 0);
    assert_eq!(r.peek("a", 1000), None);
    assert_eq!(r.len(), 2);
    let dropped = r.sweep(1000);
    assert_eq!(dropped, vec!["a".to_string()]);
    assert_eq!(r.len(), 1);
    assert_eq!(r.claim("b", 4999), Some(2));
    r.issue("c", 3, 0);
    assert_eq!(r.claim("c", 2000), None);
    assert!(!r.holds("c"));
}

#[test]
fn rendezvous_reissue_replaces() {
    let mut r: Rendezvous<u64> = Rendezvous::new(100);
    r.issue("k", 1, 0);
    r.issue("k", 2, 0);
    assert_eq!(r.len(), 1);
    assert_eq!(r.claim("k", 1), Some(2));
}

#[test]
fn rendezvous_snapshot_restore() {
    let mut r: Rendezvous<u64> = Rendezvous::new(1000);
    r.issue("live", 1, 0);
    r.issue_with_ttl("dead", 2, 10, 0);
    let snap = r.snapshot(100);
    assert_eq!(snap.entries, vec![("live".to_string(), 1, 900)]);
    let mut s: Rendezvous<u64> = Rendezvous::new(1000);
    s.restore(snap, 5000);
    assert_eq!(s.peek("live", 5899), Some(1));
    assert_eq!(s.peek("live", 5900), None);
    assert_eq!(s.peek("dead", 5000), None);
}

#[test]
fn message_store_bounded_fifo() {
    let g = Peer::group(Uin(1));
    let id = |n: i32| MessageId { peer: g, seq: 0, onebot_id: Some(n) };
    let mut m: MessageStore<String> = MessageStore::new(2);
    m.record(id(1), Uin(5), "one".to_string());
    m.record(id(2), Uin(5), "two".to_string());
    m.record(id(1), Uin(6), "one again".to_string());
    assert_eq!(m.len(), 2);
    assert_eq!(m.get(&id(1)).map(|s| s.content), Some("one again".to_string()));
    m.record(id(3), Uin(5), "three".to_string());
    assert_eq!(m.len(), 2);
    assert!(m.get(&id(1)).is_none());
    assert_eq!(m.get(&id(3)).map(|s| s.sender), Some(Uin(5)));
    let recall = MessageId { peer: g, seq: 99, onebot_id: Some(2) };
    assert_eq!(m.get(&recall).map(|s| s.content), Some("two".to_string()));
}

#[test]
fn message_store_disabled_and_seq_keys() {
    let p = Peer::friend(Uin(3));
    let mut off: MessageStore<u8> = MessageStore::new(0);
    off.record(MessageId { peer: p, seq: 1, onebot_id: None }, Uin(3), 1);
    assert_eq!(off.len(), 0);
    let mut m: MessageStore<u8> = MessageStore::new(5);
    m.record(MessageId { peer: p, seq: 1, onebot_id: None }, Uin(3), 9);
    assert!(m.get(&MessageId { peer: p, seq: 2, onebot_id: None }).is_none());
    assert_eq!(m.get(&MessageId { peer: p, seq: 1, onebot_id: None }).map(|s| s.content), Some(9));
}

fn msg_facts(peer: Peer, sender: i64) -> EventFacts {
    EventFacts { kind: Some(EventKind::Message), peer: Some(peer), sender: Some(Uin(sender)) }
}

#[test]
fn waiter_deepest_then_newest() {
    let g = Peer::group(Uin(1));
    let mut w = WaiterStore::new();
    let a = w.register(0, Scope::peer(g).into_selector(), true);
    let b = w.register(1, Scope::peer(g).into_selector(), false);
    let c = w.register(1, Scope::from(g, Uin(9)).into_selector(), true);
    assert_eq!(w.pick(msg_facts(g, 9), &vec![true, true, true]), Some((c, true)));
    assert_eq!(w.pick(msg_facts(g, 8), &vec![true, true, true]), Some((b, false)));
    w.remove(b);
    assert_eq!(w.pick(msg_facts(g, 8), &vec![true, true]), Some((a, true)));
    assert_eq!(w.pick(msg_facts(Peer::group(Uin(2)), 8), &vec![true, true]), None);
    assert_eq!(w.len(), 2);
}

#[test]
fn waiter_selector_and_builder() {
    let g = Peer::group(Uin(1));
    let sel = Selector::default_selector();
    assert!(sel.matches(msg_facts(g, 1), false));
    let notice = EventFacts { kind: Some(EventKind::Recall), peer: Some(g), sender: None };
    assert!(!sel.matches(notice, true));
    let b = WaiterBuilder::new(2, Some(g), Some(Uin(5))).from_starter().filter().block(false);
    assert!(b.selector.matches(msg_facts(g, 5), true));
    assert!(!b.selector.matches(msg_facts(g, 5), false));
    assert!(!b.selector.matches(msg_facts(g, 6), true));
    let mut w = WaiterStore::new();
    let id = b.build(&mut w);
    assert_eq!(w.pick(msg_facts(g, 5), &vec![true]), Some((id, false)));
    let on = WaiterBuilder::new(0, None, None).on(EventKind::Recall);
    assert!(on.selector.matches(notice, false));
}

#[test]
fn single_flight() {
    let mut f = FlightStore::new();
    let s = Scope::user(Uin(3)).into_selector();
    assert!(f.acquire(&s));
    assert!(!f.acquire(&s));
    assert_eq!(f.len(), 1);
    f.release(nagisa_core::session::FlightKey::from_selector(&s));
    assert!(f.is_empty());
    assert!(f.acquire(&s));
}

#[test]
fn rendezvous_snapshot_with_owned_values() {
    let mut r: Rendezvous<String> = Rendezvous::new(1_000);
    r.issue("a", "alpha".to_string(), 0);
    r.issue_with_ttl("b", "beta".to_string(), 10, 0);
    let snap = r.snapshot(20);
    assert_eq!(snap.entries.len(), 1);
    assert_eq!(snap.entries[0], ("a".to_string(), "alpha".to_string(), 980));
    let mut back: Rendezvous<String> = Rendezvous::new(1_000);
    back.restore(snap, 100);
    assert_eq!(back.peek("a", 1_079), Some("alpha".to_string()));
    assert_eq!(back.peek("a", 1_080), None);
    assert_eq!(back.claim("a", 500), Some("alpha".to_string()));
    assert!(back.is_empty());
}

#[test]
fn waiter_delivery_steps() {
    let mut s = WaiterStore::new();
    let a = s.register(0, Selector::default_selector(), true);
    let b = s.register(1, Selector::default_selector(), false);
    assert_eq!(s.after_send(b, false, SendOutcome::Sent), DeliverStep::Done(Delivery { delivered: true, block: false }));
    assert_eq!(s.len(), 2);
    assert_eq!(s.after_send(b, false, SendOutcome::Full), DeliverStep::Done(Delivery { delivered: false, block: false }));
    assert_eq!(s.len(), 2);
    assert_eq!(s.after_send(b, false, SendOutcome::Closed), DeliverStep::Retry);
    assert_eq!(s.len(), 1);
    assert_eq!(s.entry(0).id, a);
    assert_eq!(WaiterStore::nothing_delivered(), Delivery { delivered: false, block: false });
}

#[test]
fn rendezvous_claim_counts() {
    let mut r: Rendezvous<u64> = Rendezvous::new(100);
    r.issue("a", 1, 0);
    r.issue("b", 2, 0);
    assert_eq!(r.len(), 2);
    assert_eq!(r.claim("a", 500), None);
    assert_eq!(r.len(), 1);
    assert_eq!(r.claim("a", 0), None);
    assert_eq!(r.len(), 1);
    assert_eq!(r.claim("b", 50), Some(2));
    assert!(r.is_empty());
}

#[test]
fn message_store_sequence_evicts_oldest() {
    let peer = Peer::group(Uin(1));
    let id = |n: i32| MessageId { peer, seq: 0, onebot_id: Some(n) };
    let mut s: MessageStore<u8> = MessageStore::new(2);
    s.record(id(1), Uin(10), 1);
    s.record(id(2), Uin(20), 2);
    s.record(id(1), Uin(11), 3);
    s.record(id(3), Uin(30), 4);
    assert!(s.get(&id(1)).is_none());
    assert_eq!(s.get(&id(2)).map(|m| (m.sender, m.content)), Some((Uin(20), 2)));
    assert_eq!(s.get(&id(3)).map(|m| (m.sender, m.content)), Some((Uin(30), 4)));
    assert_eq!(s.len(), 2);
    let mut off: MessageStore<u8> = MessageStore::new(0);
    off.record(id(1), Uin(10), 1);
    assert!(off.get(&id(1)).is_none());
}
