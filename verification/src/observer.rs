//! The event-log observer's decisions: which kinds of events are logged, the
//! run-time on/off switch, the builder's settings, and what is done for each
//! event (learn names, remember the message, render a line, backfill names).
use vstd::prelude::*;
use crate::event_trigger::EventKind;
use crate::log::Level;
use crate::render::Style;
use crate::event::{Event, MessageEvent, Segment};
use crate::ids::{Peer, Uin};
use crate::messages::MessageId;

verus! {

/// The kind filter.
pub enum Filter {
    /// Every kind.
    All,
    /// Only these kinds.
    Only(Vec<EventKind>),
    /// Every kind but these.
    Exclude(Vec<EventKind>),
}

/// Whether an event of kind `kind` is logged. Events of no kind are logged
/// unless a whitelist is in force.
pub open spec fn allows_spec(f: Filter, kind: Option<EventKind>) -> bool {
    match f {
        Filter::All => true,
        Filter::Only(s) => match kind {
            Some(k) => s@.contains(k),
            None => false,
        },
        Filter::Exclude(s) => match kind {
            Some(k) => !s@.contains(k),
            None => true,
        },
    }
}

fn contains_kind(s: &Vec<EventKind>, k: EventKind) -> (r: bool)
    ensures
        r == s@.contains(k),
{
    let mut i: usize = 0;
    while i < s.len()
        invariant
            i <= s@.len(),
            forall|j: int| 0 <= j < i ==> s@[j] != k,
        decreases s@.len() - i,
    {
        if s[i] == k {
            assert(s@[i as int] == k);
            return true;
        }
        i = i + 1;
    }
    false
}

impl Filter {
    /// Whether an event of kind `kind` is logged (see [`allows_spec`]).
    pub fn allows(&self, kind: Option<EventKind>) -> (r: bool)
        ensures
            r == allows_spec(*self, kind),
    {
        match self {
            Filter::All => true,
            Filter::Only(s) => match kind {
                Some(k) => contains_kind(s, k),
                None => false,
            },
            Filter::Exclude(s) => match kind {
                Some(k) => !contains_kind(s, k),
                None => true,
            },
        }
    }
}

/// The default blacklist: heartbeats only (the one periodic flood).
pub fn default_excluded() -> (v: Vec<EventKind>)
    ensures
        v@ == seq![EventKind::Heartbeat],
{
    let mut v: Vec<EventKind> = Vec::new();
    v.push(EventKind::Heartbeat);
    v
}

fn copy_kinds(kinds: &[EventKind]) -> (v: Vec<EventKind>)
    ensures
        v@ == kinds@,
{
    let mut v: Vec<EventKind> = Vec::new();
    let mut i: usize = 0;
    while i < kinds.len()
        invariant
            i <= kinds@.len(),
            v@ == kinds@.subrange(0, i as int),
        decreases kinds@.len() - i,
    {
        v.push(kinds[i]);
        assert(kinds@.subrange(0, i + 1) == kinds@.subrange(0, i as int).push(kinds@[i as int]));
        i = i + 1;
    }
    v
}

/// The position of the run-time switch of the event log. The runtime keeps
/// one behind a shared lock, so that every handle of a log sees one switch.
pub struct EventLogHandle {
    enabled: bool,
}

impl View for EventLogHandle {
    type V = bool;

    closed spec fn view(&self) -> bool {
        self.enabled
    }
}

impl EventLogHandle {
    /// A switch in the given position.
    pub fn new(enabled: bool) -> (h: Self)
        ensures
            h@ == enabled,
    {
        EventLogHandle { enabled }
    }

    /// Turns the event log on.
    pub fn on(&mut self)
        ensures
            final(self)@,
    {
        self.enabled = true;
    }

    /// Turns the event log off.
    pub fn off(&mut self)
        ensures
            !final(self)@,
    {
        self.enabled = false;
    }

    /// Sets the switch.
    pub fn set(&mut self, enabled: bool)
        ensures
            final(self)@ == enabled,
    {
        self.enabled = enabled;
    }

    /// Whether the event log is on.
    pub fn is_enabled(&self) -> (r: bool)
        ensures
            r == self@,
    {
        self.enabled
    }

    /// Flips the switch and returns the new position.
    pub fn toggle(&mut self) -> (r: bool)
        ensures
            final(self)@ == !old(self)@,
            r == final(self)@,
    {
        self.enabled = !self.enabled;
        self.enabled
    }
}

/// Toggling twice leaves the switch where it was.
pub proof fn law_toggle_twice(b: bool)
    ensures
        !(!b) == b,
{
}

/// The default capacity of the recent-message cache.
pub const DEFAULT_RECALL_CAP: usize = 500;

/// The event-log settings.
pub struct EventLog {
    pub filter: Filter,
    pub level: Level,
    pub style: Style,
    pub resolve_names: bool,
    pub recall_cap: usize,
}

impl EventLog {
    /// The defaults: heartbeats excluded, `Info`, coloured on a terminal
    /// (`color` says whether it is one), names resolved, 500 recent messages.
    pub fn new(color: bool) -> (e: Self)
        ensures
            e.filter matches Filter::Exclude(s) && s@ == seq![EventKind::Heartbeat],
            e.level == Level::Info,
            e.style == (if color { Style::Ansi } else { Style::Plain }),
            e.resolve_names,
            e.recall_cap == DEFAULT_RECALL_CAP,
    {
        EventLog {
            filter: Filter::Exclude(default_excluded()),
            level: Level::Info,
            style: if color { Style::Ansi } else { Style::Plain },
            resolve_names: true,
            recall_cap: DEFAULT_RECALL_CAP,
        }
    }

    /// Sets the level.
    pub fn level(self, level: Level) -> (e: Self)
        ensures
            e.level == level,
            e.style == self.style,
            e.resolve_names == self.resolve_names,
            e.recall_cap == self.recall_cap,
    {
        EventLog { level, ..self }
    }

    /// Colours on or off.
    pub fn color(self, color: bool) -> (e: Self)
        ensures
            e.style == (if color { Style::Ansi } else { Style::Plain }),
            e.level == self.level,
            e.resolve_names == self.resolve_names,
            e.recall_cap == self.recall_cap,
    {
        EventLog { style: if color { Style::Ansi } else { Style::Plain }, ..self }
    }

    /// Name resolution on or off.
    pub fn resolve_names(self, resolve: bool) -> (e: Self)
        ensures
            e.resolve_names == resolve,
            e.level == self.level,
            e.style == self.style,
            e.recall_cap == self.recall_cap,
    {
        EventLog { resolve_names: resolve, ..self }
    }

    /// Log every kind, replacing any filter.
    pub fn all_kinds(self) -> (e: Self)
        ensures
            e.filter is All,
            e.level == self.level,
            e.style == self.style,
            e.resolve_names == self.resolve_names,
            e.recall_cap == self.recall_cap,
    {
        EventLog { filter: Filter::All, ..self }
    }

    /// Log only these kinds, replacing any filter.
    pub fn only(self, kinds: &[EventKind]) -> (e: Self)
        ensures
            e.filter matches Filter::Only(s) && s@ == kinds@,
            e.level == self.level,
            e.style == self.style,
            e.resolve_names == self.resolve_names,
            e.recall_cap == self.recall_cap,
    {
        EventLog { filter: Filter::Only(copy_kinds(kinds)), ..self }
    }

    /// Log every kind but these, replacing any filter (the default blacklist too).
    pub fn exclude(self, kinds: &[EventKind]) -> (e: Self)
        ensures
            e.filter matches Filter::Exclude(s) && s@ == kinds@,
            e.level == self.level,
            e.style == self.style,
            e.resolve_names == self.resolve_names,
            e.recall_cap == self.recall_cap,
    {
        EventLog { filter: Filter::Exclude(copy_kinds(kinds)), ..self }
    }

    /// The capacity of the recent-message cache (`0` disables it).
    pub fn recall_cache(self, cap: usize) -> (e: Self)
        ensures
            e.recall_cap == cap,
            e.level == self.level,
            e.style == self.style,
            e.resolve_names == self.resolve_names,
    {
        EventLog { recall_cap: cap, ..self }
    }
}

/// What the logging pipeline does with one event.
#[derive(Clone, Copy, Debug, PartialEq, Eq, Structural)]
pub struct LogPlan {
    /// Learn names from it.
    pub learn: bool,
    /// Remember it in the recent-message cache.
    pub record: bool,
    /// Render and emit a line.
    pub render: bool,
}

/// The shared pipeline of inbound and outbound events: learn names when
/// resolving them; remember messages that are not the bot's own; render when
/// the switch is on and the kind passes the filter.
pub fn log_plan(settings: &EventLog, enabled: bool, kind: Option<EventKind>, is_message: bool, is_self: bool) -> (p: LogPlan)
    ensures
        p.learn == settings.resolve_names,
        p.record == (is_message && !is_self),
        p.render == (enabled && allows_spec(settings.filter, kind)),
{
    LogPlan {
        learn: settings.resolve_names,
        record: is_message && !is_self,
        render: enabled && settings.filter.allows(kind),
    }
}

/// The inbound observer: the bot's own echoed messages are not logged again
/// (the outbound logger already wrote them); names are backfilled for every
/// event when resolving names. Returns (log it, backfill).
pub fn observe_plan(settings: &EventLog, self_echo: bool) -> (r: (bool, bool))
    ensures
        r == (!self_echo, settings.resolve_names),
{
    (!self_echo, settings.resolve_names)
}

/// The bot's own outgoing message as a message event, so that it goes through
/// the same logging pipeline as incoming ones: sent by the bot, to `peer`,
/// marked as the bot's own, without member or friend information.
pub fn synth_self_message(peer: Peer, segs: Vec<Segment>, self_id: Uin, id: MessageId) -> (e: Event)
    ensures
        e matches Event::Message(m) && m.id == id && m.peer == peer && m.sender == self_id && m.self_id == self_id
            && m.is_self && m.member_name is None && m.member_nickname is None && m.group_name is None
            && m.friend_name is None && m.content@ == segs@,
{
    Event::Message(
        MessageEvent {
            id,
            peer,
            sender: self_id,
            self_id,
            is_self: true,
            member_name: None,
            member_nickname: None,
            group_name: None,
            friend_name: None,
            content: segs,
        },
    )
}

} // verus!
