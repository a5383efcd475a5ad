//! The router's decisions for one registered handler and one event: the
//! event-kind prefilter, the enable switch, and the three dispatch tiers (top
//! observers, then interrupting waiters, then default handlers).
use vstd::prelude::*;
use crate::enabled::{keyed_spec, EnabledSet};
use crate::event_trigger::EventKind;
use crate::ids::Peer;

verus! {

/// The switch metadata of a command or event handler.
pub struct TriggerControl {
    pub plugin_key: String,
    pub trigger_key: String,
    pub plugin_default: bool,
    pub plugin_can_disable: bool,
    pub trigger_default: bool,
    pub trigger_can_disable: bool,
}

/// Whether a trigger is on for an event in `peer`: the enable table decides
/// when there is one; without one, exempt triggers are on and the others are on
/// only when both defaults are.
pub fn command_enabled(es: Option<&EnabledSet>, cmd: &TriggerControl, peer: Option<Peer>) -> (r: bool)
    ensures
        r == match es {
            Some(t) => keyed_spec(
                t@,
                cmd.plugin_key@,
                cmd.trigger_key@,
                cmd.plugin_default,
                cmd.plugin_can_disable,
                cmd.trigger_default,
                cmd.trigger_can_disable,
                peer,
            ),
            None => !cmd.trigger_can_disable || (cmd.plugin_default && cmd.trigger_default),
        },
{
    match es {
        Some(t) => t.is_enabled_keyed(
            cmd.plugin_key.as_str(),
            cmd.trigger_key.as_str(),
            cmd.plugin_default,
            cmd.plugin_can_disable,
            cmd.trigger_default,
            cmd.trigger_can_disable,
            peer,
        ),
        None => {
            if !cmd.trigger_can_disable {
                return true;
            }
            cmd.plugin_default && cmd.trigger_default
        },
    }
}

/// Why a handler does not run on an event, or that it goes on to matching.
#[derive(Clone, Copy, Debug, PartialEq, Eq, Structural)]
pub enum Admission {
    /// The handler is bound to another event kind.
    KindMismatch,
    /// Its switch is off for this conversation.
    SwitchedOff,
    /// Go on: run the matcher (if any), then the guard rule.
    Proceed,
}

/// The cheap checks before matching: a handler bound to an event kind skips
/// other kinds; a handler with switch metadata skips when switched off.
pub fn precheck(bound_kind: Option<EventKind>, event_kind: Option<EventKind>, switch_on: Option<bool>) -> (a: Admission)
    ensures
        a == if bound_kind is Some && event_kind != bound_kind {
            Admission::KindMismatch
        } else if switch_on == Some(false) {
            Admission::SwitchedOff
        } else {
            Admission::Proceed
        },
{
    if let Some(k) = bound_kind {
        if event_kind != Some(k) {
            return Admission::KindMismatch;
        }
    }
    if switch_on == Some(false) {
        return Admission::SwitchedOff;
    }
    Admission::Proceed
}

/// Whether the default handlers run after the waiter tier: not when a waiter
/// took the event and swallows it.
pub fn run_default_tier(delivered: bool, block: bool) -> (r: bool)
    ensures
        r == !(delivered && block),
{
    !(delivered && block)
}

/// A registered handler with its dispatch data: its priority (larger runs
/// first), whether it is a top observer, and its registration number.
pub struct Registered<H> {
    pub priority: i32,
    pub top: bool,
    pub seq: usize,
    pub handler: H,
}

/// `a` runs before `b`: a larger priority, or the same priority and an
/// earlier registration.
pub open spec fn runs_before(a: (i32, bool, usize), b: (i32, bool, usize)) -> bool {
    a.0 > b.0 || (a.0 == b.0 && a.2 < b.2)
}

/// Every handler runs before the ones after it: the order is by priority,
/// largest first, and by registration among equal priorities.
pub open spec fn dispatch_sorted(o: Seq<(i32, bool, usize)>) -> bool {
    forall|i: int, j: int| 0 <= i < j < o.len() ==> runs_before(o[i], o[j])
}

/// The handlers kept in dispatch order: sorted by descending priority, stably
/// (handlers of equal priority in registration order).
pub struct HandlerTable<H> {
    entries: Vec<Registered<H>>,
    next: usize,
}

impl<H> HandlerTable<H> {
    /// The dispatch order: priority, top flag and registration number of each handler.
    pub closed spec fn order(&self) -> Seq<(i32, bool, usize)> {
        self.entries@.map_values(|r: Registered<H>| (r.priority, r.top, r.seq))
    }

    /// The number of handlers registered so far.
    pub closed spec fn count(&self) -> nat {
        self.next as nat
    }

    #[verifier::type_invariant]
    closed spec fn inv(self) -> bool {
        &&& forall|i: int, j: int| 0 <= i < j < self.entries@.len() ==> runs_before(self.order()[i], self.order()[j])
        &&& forall|i: int| 0 <= i < self.entries@.len() ==> self.entries@[i].seq < self.next
    }

    /// An empty table.
    pub fn new() -> (t: Self)
        ensures
            t.order() == Seq::<(i32, bool, usize)>::empty(),
            t.count() == 0,
    {
        let t = HandlerTable { entries: Vec::new(), next: 0 };
        assert(t.order() =~= Seq::<(i32, bool, usize)>::empty());
        t
    }

    /// The number of handlers.
    pub fn len(&self) -> (n: usize)
        ensures
            n == self.order().len(),
    {
        proof {
            use_type_invariant(self);
        }
        self.entries.len()
    }

    /// Registers a handler: it runs after every handler of greater or equal
    /// priority and before every handler of smaller priority. Returns its
    /// registration number.
    pub fn register(&mut self, priority: i32, top: bool, handler: H) -> (seq: usize)
        requires
            old(self).count() < usize::MAX,
        ensures
            seq == old(self).count(),
            final(self).count() == old(self).count() + 1,
            dispatch_sorted(final(self).order()),
            exists|k: int|
                0 <= k <= old(self).order().len() && final(self).order() == old(self).order().insert(
                    k,
                    (priority, top, seq),
                ) && (forall|i: int| 0 <= i < k ==> old(self).order()[i].0 >= priority) && (forall|i: int|
                    k <= i < old(self).order().len() ==> old(self).order()[i].0 < priority),
    {
        proof {
            use_type_invariant(&*self);
        }
        let seq = self.next;
        let ghost o = self.order();
        let mut k: usize = 0;
        while k < self.entries.len() && self.entries[k].priority >= priority
            invariant
                k <= self.entries@.len(),
                o == self.order(),
                forall|i: int| 0 <= i < k ==> o[i].0 >= priority,
            decreases self.entries@.len() - k,
        {
            k = k + 1;
        }
        proof {
            // The table is sorted by descending priority, so everything from `k` on is smaller.
            assert forall|i: int| k <= i < o.len() implies o[i].0 < priority by {
                if i > k {
                    assert(runs_before(o[k as int], o[i]));
                }
            }
        }
        let mut all: Vec<Registered<H>> = Vec::new();
        std::mem::swap(&mut all, &mut self.entries);
        assert(all@.map_values(|r: Registered<H>| (r.priority, r.top, r.seq)) == o);
        self.next = self.next + 1;
        all.insert(k, Registered { priority, top, seq, handler });
        proof {
            let o2 = all@.map_values(|r: Registered<H>| (r.priority, r.top, r.seq));
            assert(o2 =~= o.insert(k as int, (priority, top, seq)));
            assert forall|i: int, j: int| 0 <= i < j < all@.len() implies runs_before(o2[i], o2[j]) by {
                if j < k {
                    assert(runs_before(o[i], o[j]));
                } else if i < k && j == k {
                    assert(o[i].2 < seq);
                } else if i < k && j > k {
                    assert(runs_before(o[i], o[j - 1]));
                } else if i == k {
                    assert(o[j - 1].0 < priority);
                } else {
                    assert(runs_before(o[i - 1], o[j - 1]));
                }
            }
            assert forall|i: int| 0 <= i < all@.len() implies all@[i].seq < self.next by {
                if i < k {
                    assert(all@[i].seq == o[i].2);
                } else if i > k {
                    assert(all@[i].seq == o[i - 1].2);
                }
            }
        }
        self.entries = all;
        proof {
            use_type_invariant(&*self);
        }
        seq
    }

    /// The handler at position `i` of the dispatch order.
    pub fn entry(&self, i: usize) -> (r: &Registered<H>)
        requires
            i < self.order().len(),
        ensures
            (r.priority, r.top, r.seq) == self.order()[i as int],
    {
        &self.entries[i]
    }

    /// The registration numbers of the handlers of one tier (top observers or
    /// default handlers), in dispatch order.
    pub fn tier(&self, top: bool) -> (r: Vec<usize>)
        ensures
            r@ == tier_spec(self.order(), top),
    {
        let mut r: Vec<usize> = Vec::new();
        let mut i: usize = 0;
        let ghost o = self.order();
        assert(o.subrange(0, 0) =~= Seq::<(i32, bool, usize)>::empty());
        while i < self.entries.len()
            invariant
                i <= self.entries@.len(),
                o == self.order(),
                o.len() == self.entries@.len(),
                r@ == tier_spec(o.subrange(0, i as int), top),
            decreases self.entries@.len() - i,
        {
            let ghost next = o.subrange(0, i + 1);
            assert(next.drop_last() =~= o.subrange(0, i as int));
            if self.entries[i].top == top {
                r.push(self.entries[i].seq);
            }
            assert(r@ =~= tier_spec(next, top));
            i = i + 1;
        }
        assert(o.subrange(0, o.len() as int) =~= o);
        r
    }
}

impl<H> HandlerTable<H> {
    /// The three dispatch tiers composed (see [`dispatch_order_spec`]).
    pub fn dispatch_order(&self, delivered: bool, block: bool) -> (r: Vec<usize>)
        ensures
            r@ == dispatch_order_spec(self.order(), delivered, block),
    {
        let mut r = self.tier(true);
        if run_default_tier(delivered, block) {
            let mut rest = self.tier(false);
            r.append(&mut rest);
        } else {
            assert(r@ =~= tier_spec(self.order(), true) + Seq::<usize>::empty());
        }
        r
    }
}

/// The registration numbers of one tier, in order.
pub open spec fn tier_spec(o: Seq<(i32, bool, usize)>, top: bool) -> Seq<usize>
    decreases o.len(),
{
    if o.len() == 0 {
        Seq::empty()
    } else {
        tier_spec(o.drop_last(), top) + if o.last().1 == top {
            seq![o.last().2]
        } else {
            Seq::empty()
        }
    }
}

/// Why a handler does not run on an event.
#[derive(Clone, Copy, Debug, PartialEq, Eq, Structural)]
pub enum SkipReason {
    KindMismatch,
    SwitchedOff,
    MatcherMiss,
    GateRejected,
}

/// Where the run of one handler on one event stands.
#[derive(Clone, Copy, Debug, PartialEq, Eq, Structural)]
pub enum HandlerPhase {
    Admitting,
    Matching,
    Gating,
    Running,
    Done,
}

/// What a handler's run has finished with.
#[derive(Clone, Copy, Debug, PartialEq, Eq, Structural)]
pub enum RunOutcome {
    Handled,
    /// An extractor did not apply.
    Skipped,
    /// An extractor or the handler body failed.
    Errored,
}

/// The run of one handler on one event: whether it has a command matcher and
/// a guard rule, and its phase.
#[derive(Clone, Copy, Debug, PartialEq, Eq, Structural)]
pub struct HandlerRun {
    pub has_matcher: bool,
    pub has_gate: bool,
    pub phase: HandlerPhase,
}

/// What the runtime reports back.
#[derive(Clone, Copy, Debug, PartialEq, Eq, Structural)]
pub enum HandlerEvent {
    /// The cheap checks (see [`precheck`]).
    Admitted(Admission),
    /// Whether the matcher hit.
    Matched(bool),
    /// The guard's verdict; whether a vetoing check left a reply; whether the
    /// event is a message (replies go only to messages). The reply slot is
    /// taken after every verdict, passing or not.
    GateVerdict { passed: bool, has_reply: bool, in_message: bool },
    /// The handler ran.
    Finished(RunOutcome),
}

/// What the runtime does next.
#[derive(Clone, Copy, Debug, PartialEq, Eq, Structural)]
pub enum HandlerAction {
    /// Stop here: log the reason (in development), send the vetoing reply if
    /// asked, and remove this handler's parsed command if asked.
    Skip { reason: SkipReason, send_reply: bool, cleanup: bool },
    /// Run the matcher.
    RunMatcher,
    /// Store the parsed command for this handler, then evaluate the guard
    /// (`then_gate`) or run the handler.
    InsertParsed { then_gate: bool },
    /// Evaluate the guard rule.
    EvaluateGate,
    /// Run the handler.
    RunHandler,
    /// Done: remove this handler's parsed command if asked, and log the outcome.
    Finish { cleanup: bool, outcome: RunOutcome },
    /// The event does not belong to this phase: nothing to do.
    Ignore,
}

/// The start of a handler's run.
pub open spec fn run_start(has_matcher: bool, has_gate: bool) -> HandlerRun {
    HandlerRun { has_matcher, has_gate, phase: HandlerPhase::Admitting }
}

/// One step of a handler's run: the prechecks, then the matcher (its parsed
/// command visible to this handler only), then the guard (a veto sends the
/// reply it left, to messages only), then the handler; a parsed command is
/// removed whenever the run ends after it was stored.
pub open spec fn handler_step_spec(st: HandlerRun, ev: HandlerEvent) -> (HandlerRun, HandlerAction) {
    let done = HandlerRun { phase: HandlerPhase::Done, ..st };
    match (st.phase, ev) {
        (HandlerPhase::Admitting, HandlerEvent::Admitted(a)) => match a {
            Admission::KindMismatch => (done, HandlerAction::Skip { reason: SkipReason::KindMismatch, send_reply: false, cleanup: false }),
            Admission::SwitchedOff => (done, HandlerAction::Skip { reason: SkipReason::SwitchedOff, send_reply: false, cleanup: false }),
            Admission::Proceed => if st.has_matcher {
                (HandlerRun { phase: HandlerPhase::Matching, ..st }, HandlerAction::RunMatcher)
            } else if st.has_gate {
                (HandlerRun { phase: HandlerPhase::Gating, ..st }, HandlerAction::EvaluateGate)
            } else {
                (HandlerRun { phase: HandlerPhase::Running, ..st }, HandlerAction::RunHandler)
            },
        },
        (HandlerPhase::Matching, HandlerEvent::Matched(hit)) => if !hit {
            (done, HandlerAction::Skip { reason: SkipReason::MatcherMiss, send_reply: false, cleanup: false })
        } else if st.has_gate {
            (HandlerRun { phase: HandlerPhase::Gating, ..st }, HandlerAction::InsertParsed { then_gate: true })
        } else {
            (HandlerRun { phase: HandlerPhase::Running, ..st }, HandlerAction::InsertParsed { then_gate: false })
        },
        (HandlerPhase::Gating, HandlerEvent::GateVerdict { passed, has_reply, in_message }) => if passed {
            (HandlerRun { phase: HandlerPhase::Running, ..st }, HandlerAction::RunHandler)
        } else {
            (done, HandlerAction::Skip {
                reason: SkipReason::GateRejected,
                send_reply: has_reply && in_message,
                cleanup: st.has_matcher,
            })
        },
        (HandlerPhase::Running, HandlerEvent::Finished(o)) => (done, HandlerAction::Finish { cleanup: st.has_matcher, outcome: o }),
        _ => (st, HandlerAction::Ignore),
    }
}

impl HandlerRun {
    /// A run about to be admitted.
    pub fn start(has_matcher: bool, has_gate: bool) -> (r: HandlerRun)
        ensures
            r == run_start(has_matcher, has_gate),
    {
        HandlerRun { has_matcher, has_gate, phase: HandlerPhase::Admitting }
    }
}

/// One step of a handler's run (see [`handler_step_spec`]).
pub fn handler_step(st: &HandlerRun, ev: HandlerEvent) -> (r: (HandlerRun, HandlerAction))
    ensures
        r == handler_step_spec(*st, ev),
{
    let done = HandlerRun { phase: HandlerPhase::Done, ..*st };
    match (st.phase, ev) {
        (HandlerPhase::Admitting, HandlerEvent::Admitted(a)) => match a {
            Admission::KindMismatch => (done, HandlerAction::Skip { reason: SkipReason::KindMismatch, send_reply: false, cleanup: false }),
            Admission::SwitchedOff => (done, HandlerAction::Skip { reason: SkipReason::SwitchedOff, send_reply: false, cleanup: false }),
            Admission::Proceed => if st.has_matcher {
                (HandlerRun { phase: HandlerPhase::Matching, ..*st }, HandlerAction::RunMatcher)
            } else if st.has_gate {
                (HandlerRun { phase: HandlerPhase::Gating, ..*st }, HandlerAction::EvaluateGate)
            } else {
                (HandlerRun { phase: HandlerPhase::Running, ..*st }, HandlerAction::RunHandler)
            },
        },
        (HandlerPhase::Matching, HandlerEvent::Matched(hit)) => if !hit {
            (done, HandlerAction::Skip { reason: SkipReason::MatcherMiss, send_reply: false, cleanup: false })
        } else if st.has_gate {
            (HandlerRun { phase: HandlerPhase::Gating, ..*st }, HandlerAction::InsertParsed { then_gate: true })
        } else {
            (HandlerRun { phase: HandlerPhase::Running, ..*st }, HandlerAction::InsertParsed { then_gate: false })
        },
        (HandlerPhase::Gating, HandlerEvent::GateVerdict { passed, has_reply, in_message }) => if passed {
            (HandlerRun { phase: HandlerPhase::Running, ..*st }, HandlerAction::RunHandler)
        } else {
            (done, HandlerAction::Skip {
                reason: SkipReason::GateRejected,
                send_reply: has_reply && in_message,
                cleanup: st.has_matcher,
            })
        },
        (HandlerPhase::Running, HandlerEvent::Finished(o)) => (done, HandlerAction::Finish { cleanup: st.has_matcher, outcome: o }),
        _ => (*st, HandlerAction::Ignore),
    }
}

/// A parsed command is visible only to its own handler: once a run with a
/// matcher is past matching, every step that ends it removes the parsed command.
pub proof fn law_parsed_command_scoped(st: HandlerRun, ev: HandlerEvent)
    requires
        st.has_matcher,
        st.phase == HandlerPhase::Gating || st.phase == HandlerPhase::Running,
    ensures
        match handler_step_spec(st, ev).1 {
            HandlerAction::Skip { cleanup, .. } => cleanup,
            HandlerAction::Finish { cleanup, .. } => cleanup,
            _ => handler_step_spec(st, ev).0.phase != HandlerPhase::Done,
        },
{
}

/// A vetoing reply goes out only on a veto, and only to a message.
pub proof fn law_reply_only_on_veto(st: HandlerRun, ev: HandlerEvent)
    ensures
        (handler_step_spec(st, ev).1 matches HandlerAction::Skip { send_reply, .. } && send_reply) ==> (ev matches HandlerEvent::GateVerdict { passed, in_message, .. } && !passed && in_message),
{
}

/// The handlers that run for one event, in order: the top observers, then
/// (unless a waiter took the event and swallows it) the default handlers.
/// The top tier runs before the waiter check, so the runtime runs it first.
pub open spec fn dispatch_order_spec(o: Seq<(i32, bool, usize)>, delivered: bool, block: bool) -> Seq<usize> {
    tier_spec(o, true) + if delivered && block {
        Seq::empty()
    } else {
        tier_spec(o, false)
    }
}

} // verus!
