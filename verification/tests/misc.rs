use nagisa_core::enabled::EnabledSet;
use nagisa_core::framesource::{pump_step, Frame, PumpStep};
use nagisa_core::event_trigger::EventKind;
use nagisa_core::ids::{Peer, Uin};
use nagisa_core::log::{field_text, format_line, level_color, should_forward, Level, LogConfig, SpanText};
use nagisa_core::observer::{default_excluded, log_plan, observe_plan, EventLog, EventLogHandle, Filter};
use nagisa_core::ratelimit::{bucket_key, RateLimitScope};
use nagisa_core::reconnect::{after_attempt, After, Backoff, Step};
use nagisa_core::router::{command_enabled, precheck, run_default_tier, Admission, TriggerControl};
use nagisa_core::router::{handler_step, HandlerAction, HandlerEvent, HandlerPhase, HandlerRun, HandlerTable, RunOutcome, SkipReason};
use nagisa_core::dispatch::{dispatch_step, DispatchAction, Incoming};
use nagisa_core::event::{Event, MessageEvent, Meta};
use nagisa_core::messages::MessageId;

#[test]
fn backoff_doubles_to_cap() {
    let mut b = Backoff::new(500, 3000);
    assert_eq!(b.current(), 500);
    b.advance();
    assert_eq!(b.current(), 1000);
    b.advance();
    b.advance();
    assert_eq!(b.current(), 3000);
    b.advance();
    assert_eq!(b.current(), 3000);
    let mut big = Backoff::new(u64::MAX / 2 + 1, u64::MAX);
    big.advance();
    assert_eq!(big.current(), u64::MAX);
}

#[test]
fn reconnect_decisions() {
    let b = Backoff::new(1000, 60_000);
    assert_eq!(after_attempt(Step::Stop, false, &b, 0), After::Finish);
    assert_eq!(after_attempt(Step::Reconnect, true, &b, 0), After::Finish);
    assert_eq!(after_attempt(Step::Reconnect, false, &b, 250), After::Sleep(1250));
    assert_eq!(after_attempt(Step::Reconnect, false, &Backoff::new(u64::MAX, u64::MAX), 5), After::Sleep(u64::MAX));
}

#[test]
fn log_levels_and_bus_filter() {
    assert_eq!(level_color(Level::Error), "\x1b[1;31m");
    assert_eq!(level_color(Level::Trace), "\x1b[2;36m");
    assert!(should_forward("nagisa::dispatch", Level::Warn, Level::Info));
    assert!(should_forward("biz", Level::Info, Level::Info));
    assert!(!should_forward("biz", Level::Debug, Level::Info));
    assert!(!should_forward("nagisa::log::sink", Level::Error, Level::Trace));
    assert!(!should_forward("nagisa::log", Level::Error, Level::Trace));
    let c = LogConfig::defaults(false);
    assert_eq!(c.filter, "info");
    assert_eq!(c.bus_min_level, Level::Info);
    assert!(!c.bus && !c.json && !c.ansi && c.file.is_none());
}

#[test]
fn observer_filters_and_switch() {
    assert_eq!(default_excluded(), vec![EventKind::Heartbeat]);
    let ex = Filter::Exclude(default_excluded());
    assert!(!ex.allows(Some(EventKind::Heartbeat)));
    assert!(ex.allows(Some(EventKind::Message)));
    assert!(ex.allows(None));
    let only = Filter::Only(vec![EventKind::Message]);
    assert!(only.allows(Some(EventKind::Message)));
    assert!(!only.allows(Some(EventKind::Recall)));
    assert!(!only.allows(None));
    assert!(Filter::All.allows(None));
    let mut h = EventLogHandle::new(true);
    assert!(!h.toggle());
    assert!(h.toggle());
    h.off();
    assert!(!h.is_enabled());
    h.set(true);
    assert!(h.is_enabled());
}

#[test]
fn observer_plans() {
    let log = EventLog::new(false).only(&[EventKind::Message]).resolve_names(false).recall_cache(0);
    assert_eq!(log.recall_cap, 0);
    let p = log_plan(&log, true, Some(EventKind::Message), true, false);
    assert!(!p.learn && p.record && p.render);
    let p = log_plan(&log, false, Some(EventKind::Message), true, true);
    assert!(!p.record && !p.render);
    let p = log_plan(&log.all_kinds().level(Level::Debug), true, Some(EventKind::Heartbeat), false, false);
    assert!(p.render);
    assert_eq!(observe_plan(&EventLog::new(true), true), (false, true));
}

#[test]
fn router_decisions() {
    let cmd = TriggerControl {
        plugin_key: "p".to_string(),
        trigger_key: "p.t".to_string(),
        plugin_default: true,
        plugin_can_disable: true,
        trigger_default: false,
        trigger_can_disable: true,
    };
    assert!(!command_enabled(None, &cmd, None));
    let mut es = EnabledSet::new();
    es.set_key("p.t", None, true);
    assert!(command_enabled(Some(&es), &cmd, None));
    es.set_key("p", None, false);
    assert!(!command_enabled(Some(&es), &cmd, None));
    assert_eq!(precheck(Some(EventKind::Recall), Some(EventKind::Message), Some(true)), Admission::KindMismatch);
    assert_eq!(precheck(None, Some(EventKind::Message), Some(false)), Admission::SwitchedOff);
    assert_eq!(precheck(Some(EventKind::Message), Some(EventKind::Message), None), Admission::Proceed);
    assert!(!run_default_tier(true, true));
    assert!(run_default_tier(true, false));
}

#[test]
fn pump_and_rate_keys() {
    assert_eq!(pump_step(true, true, Some(&Frame::Tick)), PumpStep::Shutdown);
    assert_eq!(pump_step(false, true, None), PumpStep::Reconnect);
    assert_eq!(pump_step(false, false, Some(&Frame::Inbound(vec![]))), PumpStep::Dispatch);
    assert_eq!(pump_step(false, false, Some(&Frame::Closed)), PumpStep::Reconnect);
    assert_eq!(pump_step(false, false, Some(&Frame::Tick)), PumpStep::Continue);
    let g = Peer::group(Uin(1));
    assert_eq!(bucket_key(RateLimitScope::PerPeer, Some(g)), Some(Some(g)));
    assert_eq!(bucket_key(RateLimitScope::PerPeer, None), None);
    assert_eq!(bucket_key(RateLimitScope::Global, Some(g)), Some(None));
}

#[test]
fn handler_table_stable_priority_order() {
    let mut t: HandlerTable<&str> = HandlerTable::new();
    assert_eq!(t.register(0, false, "a"), 0);
    assert_eq!(t.register(-1, false, "b"), 1);
    assert_eq!(t.register(0, true, "c"), 2);
    assert_eq!(t.register(0, false, "d"), 3);
    assert_eq!(t.register(5, false, "e"), 4);
    assert_eq!(t.len(), 5);
    assert_eq!(t.tier(false), vec![4, 0, 3, 1]);
    assert_eq!(t.tier(true), vec![2]);
    let names: Vec<&str> = (0..t.len()).map(|i| t.entry(i).handler).collect();
    assert_eq!(names, vec!["e", "a", "c", "d", "b"]);
    let mut u: HandlerTable<&str> = HandlerTable::new();
    u.register(10, false, "hi");
    u.register(-5, false, "lo");
    assert_eq!(u.entry(0).handler, "hi");
}

#[test]
fn dispatch_loop_decisions() {
    assert_eq!(dispatch_step(Incoming::Shutdown), DispatchAction::Stop);
    assert_eq!(dispatch_step(Incoming::Closed), DispatchAction::Stop);
    assert_eq!(dispatch_step(Incoming::Reaped), DispatchAction::Continue);
    let hb = Event::Meta(Meta::Heartbeat { interval: 5000, online: true, good: true });
    assert_eq!(dispatch_step(Incoming::Received(&hb)), DispatchAction::Dispatch { self_id: None, trace_only: true });
    let peer = Peer::group(Uin(1));
    let m = Event::Message(MessageEvent {
        id: MessageId { peer, seq: 1, onebot_id: None },
        peer,
        sender: Uin(2),
        self_id: Uin(99),
        is_self: false,
        member_name: None,
        member_nickname: None,
        group_name: None,
        friend_name: None,
        content: Vec::new(),
    });
    assert_eq!(dispatch_step(Incoming::Received(&m)), DispatchAction::Dispatch { self_id: Some(Uin(99)), trace_only: false });
}

#[test]
fn log_line_format() {
    let spans = vec![SpanText { name: "event".to_string(), fields: " kind=\"message\"".to_string() }, SpanText { name: "inner".to_string(), fields: String::new() }];
    let plain = format_line("2026-06-07 23:12:37.164", Level::Info, "nagisa::event", &spans, "hello", false);
    assert_eq!(plain, "2026-06-07 23:12:37.164 | INFO     | nagisa::event - event{kind=\"message\"}: inner: hello\n");
    let none = format_line("t", Level::Warn, "x", &Vec::new(), "careful", false);
    assert_eq!(none, "t | WARN     | x - careful\n");
    let colored = format_line("t", Level::Error, "x", &Vec::new(), "boom", true);
    assert_eq!(
        colored,
        "\x1b[32mt\x1b[0m \x1b[2m|\x1b[0m \x1b[1;31mERROR   \x1b[0m \x1b[2m|\x1b[0m \x1b[36mx\x1b[0m \x1b[2m-\x1b[0m \x1b[1;31mboom\x1b[0m\n"
    );
    let info = format_line("t", Level::Info, "x", &vec![SpanText { name: "s".to_string(), fields: String::new() }], "ok", true);
    assert!(info.ends_with("\x1b[2ms: \x1b[0mok\n"));
    assert_eq!(field_text("message", "\x1b[31mred\x1b[0m"), "\x1b[31mred\x1b[0m");
    assert_eq!(field_text("plugin", "\"sign\""), " plugin=\"sign\"");
}

#[test]
fn handler_run_steps() {
    let st = HandlerRun::start(true, true);
    let (st, a) = handler_step(&st, HandlerEvent::Admitted(Admission::Proceed));
    assert_eq!(a, HandlerAction::RunMatcher);
    let (st, a) = handler_step(&st, HandlerEvent::Matched(true));
    assert_eq!(a, HandlerAction::InsertParsed { then_gate: true });
    let (veto, a) = handler_step(&st, HandlerEvent::GateVerdict { passed: false, has_reply: true, in_message: true });
    assert_eq!(a, HandlerAction::Skip { reason: SkipReason::GateRejected, send_reply: true, cleanup: true });
    assert_eq!(veto.phase, HandlerPhase::Done);
    let (st, a) = handler_step(&st, HandlerEvent::GateVerdict { passed: true, has_reply: true, in_message: true });
    assert_eq!(a, HandlerAction::RunHandler);
    let (st, a) = handler_step(&st, HandlerEvent::Finished(RunOutcome::Handled));
    assert_eq!(a, HandlerAction::Finish { cleanup: true, outcome: RunOutcome::Handled });
    assert_eq!(handler_step(&st, HandlerEvent::Matched(true)).1, HandlerAction::Ignore);
    let plain = HandlerRun::start(false, false);
    assert_eq!(handler_step(&plain, HandlerEvent::Admitted(Admission::Proceed)).1, HandlerAction::RunHandler);
    let (_, a) = handler_step(&plain, HandlerEvent::Admitted(Admission::SwitchedOff));
    assert_eq!(a, HandlerAction::Skip { reason: SkipReason::SwitchedOff, send_reply: false, cleanup: false });
    let cmd = HandlerRun::start(true, false);
    let (cmd, _) = handler_step(&cmd, HandlerEvent::Admitted(Admission::Proceed));
    assert_eq!(handler_step(&cmd, HandlerEvent::Matched(false)).1, HandlerAction::Skip { reason: SkipReason::MatcherMiss, send_reply: false, cleanup: false });
    let mut t: HandlerTable<&str> = HandlerTable::new();
    t.register(0, true, "top");
    t.register(1, false, "d");
    assert_eq!(t.dispatch_order(true, true), vec![0]);
    assert_eq!(t.dispatch_order(true, false), vec![0, 1]);
    assert_eq!(t.dispatch_order(false, true), vec![0, 1]);
}
