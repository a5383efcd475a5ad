//! The interrupt engine's bookkeeping: selectors of future events, the table of
//! live waiters (the deepest, then newest, matching waiter gets an event), and
//! the single-flight table of scopes in progress.
use vstd::prelude::*;
use crate::event_trigger::EventKind;
use crate::ids::{Peer, Uin};
use crate::text::{lower_text, lowercase, str_eq, trim, trim_spec};

verus! {

/// What a selector reads of an event.
#[derive(Clone, Copy, Debug, PartialEq, Eq, Structural)]
pub struct EventFacts {
    pub kind: Option<EventKind>,
    pub peer: Option<Peer>,
    pub sender: Option<Uin>,
}

/// A selector of future events: the kind, optionally the conversation and the
/// acting user (all constrained dimensions must hit), and whether a caller's
/// predicate must also accept the event.
#[derive(Clone, Copy, Debug, PartialEq, Eq, Structural)]
pub struct Selector {
    pub kind: EventKind,
    pub peer: Option<Peer>,
    pub user: Option<Uin>,
    pub has_filter: bool,
}

/// Whether `s` selects an event with `facts`; `filter_ok` is the caller
/// predicate's verdict (ignored when the selector has none).
pub open spec fn selects(s: Selector, facts: EventFacts, filter_ok: bool) -> bool {
    &&& facts.kind == Some(s.kind)
    &&& (s.peer matches Some(p) ==> facts.peer == Some(p))
    &&& (s.user matches Some(u) ==> facts.sender == Some(u))
    &&& (s.has_filter ==> filter_ok)
}

impl Selector {
    /// Messages of any conversation and user.
    pub fn default_selector() -> (s: Selector)
        ensures
            s == (Selector { kind: EventKind::Message, peer: None, user: None, has_filter: false }),
    {
        Selector { kind: EventKind::Message, peer: None, user: None, has_filter: false }
    }

    /// Whether this selector takes the event (see [`selects`]).
    pub fn matches(&self, facts: EventFacts, filter_ok: bool) -> (r: bool)
        ensures
            r == selects(*self, facts, filter_ok),
    {
        if facts.kind != Some(self.kind) {
            return false;
        }
        if let Some(p) = self.peer {
            if facts.peer != Some(p) {
                return false;
            }
        }
        if let Some(u) = self.user {
            if facts.sender != Some(u) {
                return false;
            }
        }
        if self.has_filter && !filter_ok {
            return false;
        }
        true
    }
}

/// Message-only presets of a selector.
#[derive(Clone, Copy, Debug, PartialEq, Eq, Structural)]
pub struct Scope(pub Selector);

impl Scope {
    /// Messages in conversation `peer`.
    pub fn peer(peer: Peer) -> (s: Scope)
        ensures
            s.0 == (Selector { kind: EventKind::Message, peer: Some(peer), user: None, has_filter: false }),
    {
        Scope(Selector { kind: EventKind::Message, peer: Some(peer), user: None, has_filter: false })
    }

    /// Messages from `user`, in any conversation.
    pub fn user(user: Uin) -> (s: Scope)
        ensures
            s.0 == (Selector { kind: EventKind::Message, peer: None, user: Some(user), has_filter: false }),
    {
        Scope(Selector { kind: EventKind::Message, peer: None, user: Some(user), has_filter: false })
    }

    /// Messages from `user` in `peer`.
    pub fn from(peer: Peer, user: Uin) -> (s: Scope)
        ensures
            s.0 == (Selector { kind: EventKind::Message, peer: Some(peer), user: Some(user), has_filter: false }),
    {
        Scope(Selector { kind: EventKind::Message, peer: Some(peer), user: Some(user), has_filter: false })
    }

    /// The selector.
    pub fn into_selector(self) -> (s: Selector)
        ensures
            s == self.0,
    {
        self.0
    }
}

/// The result of offering an event to the waiters.
#[derive(Clone, Copy, Debug, PartialEq, Eq, Structural)]
pub struct Delivery {
    pub delivered: bool,
    pub block: bool,
}

/// One registered waiter.
#[derive(Clone, Copy, Debug, PartialEq, Eq, Structural)]
pub struct WaiterEntry {
    pub id: u64,
    pub depth: u32,
    pub selector: Selector,
    pub block: bool,
}

/// `a` ranks above `b`: deeper, or as deep and newer.
pub open spec fn ranks_above(a: WaiterEntry, b: WaiterEntry) -> bool {
    a.depth > b.depth || (a.depth == b.depth && a.id > b.id)
}

/// `i` is the waiter an event goes to: it takes the event, and no waiter that
/// takes it ranks above it (ties go to the later entry).
pub open spec fn chosen(entries: Seq<WaiterEntry>, facts: EventFacts, filter_ok: Seq<bool>, i: int) -> bool {
    &&& 0 <= i < entries.len()
    &&& selects(entries[i].selector, facts, filter_ok[i])
    &&& forall|j: int|
        0 <= j < entries.len() && selects(entries[j].selector, facts, filter_ok[j]) ==> !ranks_above(entries[j], entries[i])
    &&& forall|j: int|
        i < j < entries.len() && selects(entries[j].selector, facts, filter_ok[j]) ==> (entries[j].depth, entries[j].id) != (entries[i].depth, entries[i].id)
}

/// The table of live waiters.
pub struct WaiterStore {
    entries: Vec<WaiterEntry>,
    next_id: u64,
}

impl View for WaiterStore {
    type V = Seq<WaiterEntry>;

    closed spec fn view(&self) -> Seq<WaiterEntry> {
        self.entries@
    }
}

impl WaiterStore {
    /// The next id to hand out.
    pub closed spec fn next_id_spec(&self) -> u64 {
        self.next_id
    }

    /// An empty table; ids start at 1.
    pub fn new() -> (s: Self)
        ensures
            s@ == Seq::<WaiterEntry>::empty(),
            s.next_id_spec() == 1,
    {
        WaiterStore { entries: Vec::new(), next_id: 1 }
    }

    /// Hands out a fresh id (ids wrap around after `u64::MAX`).
    pub fn next_id(&mut self) -> (id: u64)
        ensures
            id == old(self).next_id_spec(),
            final(self).next_id_spec() == (if old(self).next_id_spec() == u64::MAX { 0 } else { (old(self).next_id_spec() + 1) as u64 }),
            final(self)@ == old(self)@,
    {
        let id = self.next_id;
        self.next_id = if self.next_id == u64::MAX { 0 } else { self.next_id + 1 };
        id
    }

    /// Registers a waiter under a fresh id and returns it.
    pub fn register(&mut self, depth: u32, selector: Selector, block: bool) -> (id: u64)
        ensures
            id == old(self).next_id_spec(),
            final(self)@ == old(self)@.push(WaiterEntry { id, depth, selector, block }),
    {
        let id = self.next_id();
        self.register_with_id(id, depth, selector, block);
        id
    }

    /// Registers a waiter under a given id.
    pub fn register_with_id(&mut self, id: u64, depth: u32, selector: Selector, block: bool)
        ensures
            final(self)@ == old(self)@.push(WaiterEntry { id, depth, selector, block }),
            final(self).next_id_spec() == old(self).next_id_spec(),
    {
        self.entries.push(WaiterEntry { id, depth, selector, block });
    }

    /// Removes every entry with id `id` (idempotent).
    pub fn remove(&mut self, id: u64)
        ensures
            final(self)@ == old(self)@.filter(|e: WaiterEntry| e.id != id),
            final(self).next_id_spec() == old(self).next_id_spec(),
    {
        let mut kept: Vec<WaiterEntry> = Vec::new();
        let mut i: usize = 0;
        while i < self.entries.len()
            invariant
                i <= self.entries@.len(),
                kept@ == self.entries@.subrange(0, i as int).filter(|e: WaiterEntry| e.id != id),
            decreases self.entries@.len() - i,
        {
            proof {
                self.entries@.subrange(0, i as int).lemma_filter_push(self.entries@[i as int], |e: WaiterEntry| e.id != id);
            }
            assert(self.entries@.subrange(0, i + 1) == self.entries@.subrange(0, i as int).push(self.entries@[i as int]));
            if self.entries[i].id != id {
                kept.push(self.entries[i]);
            }
            i = i + 1;
        }
        assert(self.entries@.subrange(0, self.entries@.len() as int) == self.entries@);
        self.entries = kept;
    }

    /// The entry at position `i`.
    pub fn entry(&self, i: usize) -> (e: WaiterEntry)
        requires
            i < self@.len(),
        ensures
            e == self@[i as int],
    {
        self.entries[i]
    }

    /// The number of live entries.
    pub fn len(&self) -> (n: usize)
        ensures
            n == self@.len(),
    {
        self.entries.len()
    }

    /// Whether there are no live entries.
    pub fn is_empty(&self) -> (r: bool)
        ensures
            r == (self@.len() == 0),
    {
        self.entries.len() == 0
    }

    /// The waiter an event goes to, as `(id, block)`: of the waiters that take
    /// it, the deepest, and of those the newest. `filter_ok[i]` is the verdict
    /// of entry `i`'s predicate. (Delivering, and dropping a waiter whose
    /// receiver is gone before trying again, are the caller's.)
    pub fn pick(&self, facts: EventFacts, filter_ok: &Vec<bool>) -> (r: Option<(u64, bool)>)
        requires
            filter_ok@.len() == self@.len(),
        ensures
            match r {
                Some((id, block)) => exists|i: int| chosen(self@, facts, filter_ok@, i) && self@[i].id == id && self@[i].block == block,
                None => forall|j: int| 0 <= j < self@.len() ==> !selects(self@[j].selector, facts, filter_ok@[j]),
            },
    {
        let mut best: Option<usize> = None;
        let mut i: usize = 0;
        while i < self.entries.len()
            invariant
                i <= self.entries@.len(),
                filter_ok@.len() == self.entries@.len(),
                match best {
                    Some(b) => {
                        &&& b < i
                        &&& selects(self.entries@[b as int].selector, facts, filter_ok@[b as int])
                        &&& forall|j: int| 0 <= j < i && selects(self.entries@[j].selector, facts, filter_ok@[j]) ==> !ranks_above(self.entries@[j], self.entries@[b as int])
                        &&& forall|j: int| b < j < i && selects(self.entries@[j].selector, facts, filter_ok@[j]) ==> (self.entries@[j].depth, self.entries@[j].id) != (self.entries@[b as int].depth, self.entries@[b as int].id)
                    },
                    None => forall|j: int| 0 <= j < i ==> !selects(self.entries@[j].selector, facts, filter_ok@[j]),
                },
            decreases self.entries@.len() - i,
        {
            let e = self.entries[i];
            if e.selector.matches(facts, filter_ok[i]) {
                match best {
                    Some(b) => {
                        let cur = self.entries[b];
                        if e.depth > cur.depth || (e.depth == cur.depth && e.id >= cur.id) {
                            best = Some(i);
                        }
                    },
                    None => {
                        best = Some(i);
                    },
                }
            }
            i = i + 1;
        }
        match best {
            Some(b) => {
                assert(chosen(self@, facts, filter_ok@, b as int));
                Some((self.entries[b].id, self.entries[b].block))
            },
            None => None,
        }
    }
}

/// How handing the event to the chosen waiter's receiver went.
#[derive(Clone, Copy, Debug, PartialEq, Eq, Structural)]
pub enum SendOutcome {
    /// The receiver took the event.
    Sent,
    /// The receiver is alive but its buffer is full.
    Full,
    /// The receiver is gone.
    Closed,
}

/// What delivery does after one send.
#[derive(Clone, Copy, Debug, PartialEq, Eq, Structural)]
pub enum DeliverStep {
    /// Delivery is over, with this result.
    Done(Delivery),
    /// The chosen waiter was dead and is removed: pick again.
    Retry,
}

impl WaiterStore {
    /// The delivery result when no waiter takes the event.
    pub fn nothing_delivered() -> (d: Delivery)
        ensures
            d == (Delivery { delivered: false, block: false }),
    {
        Delivery { delivered: false, block: false }
    }

    /// After sending the event to the chosen waiter `id` (with its `block`):
    /// delivered when sent; not delivered, and the waiter kept, when its
    /// buffer is full (a live but busy session loses nothing); when its
    /// receiver is gone the waiter is removed and the next one is tried.
    pub fn after_send(&mut self, id: u64, block: bool, outcome: SendOutcome) -> (s: DeliverStep)
        ensures
            final(self).next_id_spec() == old(self).next_id_spec(),
            match outcome {
                SendOutcome::Sent => s == DeliverStep::Done(Delivery { delivered: true, block })
                    && final(self)@ == old(self)@,
                SendOutcome::Full => s == DeliverStep::Done(Delivery { delivered: false, block: false })
                    && final(self)@ == old(self)@,
                SendOutcome::Closed => s == DeliverStep::Retry && final(self)@ == old(self)@.filter(
                    |e: WaiterEntry| e.id != id,
                ),
            },
    {
        match outcome {
            SendOutcome::Sent => DeliverStep::Done(Delivery { delivered: true, block }),
            SendOutcome::Full => DeliverStep::Done(Delivery { delivered: false, block: false }),
            SendOutcome::Closed => {
                self.remove(id);
                DeliverStep::Retry
            },
        }
    }
}

proof fn lemma_filter_shrinks(entries: Seq<WaiterEntry>, id: u64)
    ensures
        entries.filter(|e: WaiterEntry| e.id != id).len() <= entries.len(),
        (exists|i: int| 0 <= i < entries.len() && entries[i].id == id) ==> entries.filter(
            |e: WaiterEntry| e.id != id,
        ).len() < entries.len(),
    decreases entries.len(),
{
    if entries.len() > 0 {
        let pre = entries.drop_last();
        lemma_filter_shrinks(pre, id);
        assert(pre.push(entries.last()) =~= entries);
        pre.lemma_filter_push(entries.last(), |e: WaiterEntry| e.id != id);
        if exists|i: int| 0 <= i < entries.len() && entries[i].id == id {
            let i = choose|i: int| 0 <= i < entries.len() && entries[i].id == id;
            if i < entries.len() - 1 {
                assert(pre[i].id == id);
            }
        }
    }
}

/// Delivery ends: a retry only follows removing the chosen waiter, which the
/// store held, so the store shrinks with every retry.
pub proof fn law_retry_shrinks(entries: Seq<WaiterEntry>, i: int)
    requires
        0 <= i < entries.len(),
    ensures
        entries.filter(|e: WaiterEntry| e.id != entries[i].id).len() < entries.len(),
{
    lemma_filter_shrinks(entries, entries[i].id);
}

/// The identity of a single-flight scope: the constrained dimensions of a
/// selector (its predicate is not part of it).
#[derive(Clone, Copy, Debug, PartialEq, Eq, Structural)]
pub struct FlightKey {
    pub kind: EventKind,
    pub peer: Option<Peer>,
    pub user: Option<Uin>,
}

impl FlightKey {
    /// The key of a selector.
    pub fn from_selector(sel: &Selector) -> (k: FlightKey)
        ensures
            k == (FlightKey { kind: sel.kind, peer: sel.peer, user: sel.user }),
    {
        FlightKey { kind: sel.kind, peer: sel.peer, user: sel.user }
    }
}

/// The scopes in flight.
pub struct FlightStore {
    held: Vec<FlightKey>,
}

impl View for FlightStore {
    type V = Set<FlightKey>;

    closed spec fn view(&self) -> Set<FlightKey> {
        self.held@.to_set()
    }
}

impl FlightStore {
    #[verifier::type_invariant]
    closed spec fn inv(self) -> bool {
        self.held@.no_duplicates()
    }

    /// No scope in flight.
    pub fn new() -> (s: Self)
        ensures
            s@ == Set::<FlightKey>::empty(),
    {
        let s = FlightStore { held: Vec::new() };
        assert(s.held@.to_set() =~= Set::<FlightKey>::empty());
        s
    }

    fn position(&self, key: FlightKey) -> (r: Option<usize>)
        ensures
            match r {
                Some(i) => i < self.held@.len() && self.held@[i as int] == key,
                None => !self@.contains(key),
            },
    {
        let mut i: usize = 0;
        while i < self.held.len()
            invariant
                i <= self.held@.len(),
                forall|j: int| 0 <= j < i ==> self.held@[j] != key,
            decreases self.held@.len() - i,
        {
            if self.held[i] == key {
                return Some(i);
            }
            i = i + 1;
        }
        None
    }

    /// Claims the scope of `selector`: `true` (now held) when it was free,
    /// `false` when a run of the same scope is already in flight.
    pub fn acquire(&mut self, selector: &Selector) -> (ok: bool)
        ensures
            ok == !old(self)@.contains(FlightKey::from_spec(*selector)),
            final(self)@ == old(self)@.insert(FlightKey::from_spec(*selector)),
    {
        let key = FlightKey::from_selector(selector);
        match self.position(key) {
            Some(_) => {
                assert(old(self)@.insert(key) =~= old(self)@);
                false
            },
            None => {
                proof {
                    use_type_invariant(&*self);
                }
                let ghost before = self.held@;
                let mut held: Vec<FlightKey> = Vec::new();
                std::mem::swap(&mut held, &mut self.held);
                held.push(key);
                proof {
                    before.lemma_push_to_set_commute(key);
                    assert forall|a: int, b: int| 0 <= a < b < held@.len() implies held@[a] != held@[b] by {
                        if b == before.len() {
                            assert(before.to_set().contains(before[a]));
                        }
                    }
                }
                self.held = held;
                true
            },
        }
    }

    /// Releases a scope.
    pub fn release(&mut self, key: FlightKey)
        ensures
            final(self)@ == old(self)@.remove(key),
    {
        proof {
            use_type_invariant(&*self);
        }
        let mut kept: Vec<FlightKey> = Vec::new();
        let mut i: usize = 0;
        while i < self.held.len()
            invariant
                i <= self.held@.len(),
                self.held@.no_duplicates(),
                kept@.no_duplicates(),
                forall|j: int| 0 <= j < kept@.len() ==> self.held@.subrange(0, i as int).contains(#[trigger] kept@[j]),
                kept@.to_set() == self.held@.subrange(0, i as int).to_set().remove(key),
            decreases self.held@.len() - i,
        {
            let ghost pre = self.held@.subrange(0, i as int);
            let k = self.held[i];
            assert(self.held@.subrange(0, i + 1) == pre.push(k));
            proof {
                pre.lemma_push_to_set_commute(k);
            }
            if k != key {
                let ghost before = kept@;
                kept.push(k);
                proof {
                    before.lemma_push_to_set_commute(k);
                    assert forall|a: int, b: int| 0 <= a < b < kept@.len() implies kept@[a] != kept@[b] by {
                        if b == before.len() {
                            assert(pre.contains(before[a]));
                            let q = choose|q: int| 0 <= q < pre.len() && pre[q] == before[a];
                            assert(self.held@[q] == pre[q]);
                        }
                    }
                    assert forall|j: int| 0 <= j < kept@.len() implies self.held@.subrange(0, i + 1).contains(#[trigger] kept@[j]) by {
                        if j < before.len() {
                            let q = choose|q: int| 0 <= q < pre.len() && pre[q] == kept@[j];
                            assert(self.held@.subrange(0, i + 1)[q] == kept@[j]);
                        } else {
                            assert(self.held@.subrange(0, i + 1)[i as int] == kept@[j]);
                        }
                    }
                }
                assert(pre.to_set().remove(key).insert(k) =~= pre.to_set().insert(k).remove(key));
            } else {
                assert(pre.to_set().remove(key) =~= pre.to_set().insert(k).remove(key));
                assert forall|j: int| 0 <= j < kept@.len() implies self.held@.subrange(0, i + 1).contains(#[trigger] kept@[j]) by {
                    let q = choose|q: int| 0 <= q < pre.len() && pre[q] == kept@[j];
                    assert(self.held@.subrange(0, i + 1)[q] == kept@[j]);
                }
            }
            i = i + 1;
        }
        assert(self.held@.subrange(0, self.held@.len() as int) == self.held@);
        self.held = kept;
    }

    /// The number of scopes in flight.
    pub fn len(&self) -> (n: usize)
        ensures
            n == self@.len(),
    {
        proof {
            use_type_invariant(self);
            self.held@.unique_seq_to_set();
        }
        self.held.len()
    }

    /// Whether no scope is in flight.
    pub fn is_empty(&self) -> (r: bool)
        ensures
            r == (self@.len() == 0),
    {
        proof {
            self.held@.lemma_cardinality_of_set();
            if self.held@.len() > 0 {
                assert(self.held@.to_set().contains(self.held@[0]));
            }
        }
        self.held.len() == 0
    }
}

impl FlightKey {
    /// The key of a selector.
    pub open spec fn from_spec(sel: Selector) -> FlightKey {
        FlightKey { kind: sel.kind, peer: sel.peer, user: sel.user }
    }
}

/// A second claim of a scope already in flight is refused; once the first run
/// releases it, the scope can be claimed again.
pub proof fn law_single_flight(held: Set<FlightKey>, k: FlightKey)
    ensures
        held.insert(k).contains(k),
        !held.insert(k).remove(k).contains(k),
{
}

/// The builder of a waiter: the selector, whether a hit is swallowed, and the
/// conversation and user that started the session.
#[derive(Clone, Copy, Debug, PartialEq, Eq, Structural)]
pub struct WaiterBuilder {
    pub depth: u32,
    pub selector: Selector,
    pub block: bool,
    pub starter_peer: Option<Peer>,
    pub starter_user: Option<Uin>,
}

impl WaiterBuilder {
    /// A builder for a waiter at `depth` in a session started by `starter_peer`
    /// and `starter_user`: messages, swallowed on a hit.
    pub fn new(depth: u32, starter_peer: Option<Peer>, starter_user: Option<Uin>) -> (b: Self)
        ensures
            b == (WaiterBuilder {
                depth,
                selector: Selector { kind: EventKind::Message, peer: None, user: None, has_filter: false },
                block: true,
                starter_peer,
                starter_user,
            }),
    {
        WaiterBuilder { depth, selector: Selector::default_selector(), block: true, starter_peer, starter_user }
    }

    /// Listens for `kind`.
    pub fn on(self, kind: EventKind) -> (b: Self)
        ensures
            b == (WaiterBuilder { selector: Selector { kind, ..self.selector }, ..self }),
    {
        WaiterBuilder { selector: Selector { kind, ..self.selector }, ..self }
    }

    /// Replaces the selector with a preset.
    pub fn scope(self, scope: Scope) -> (b: Self)
        ensures
            b == (WaiterBuilder { selector: scope.0, ..self }),
    {
        WaiterBuilder { selector: scope.into_selector(), ..self }
    }

    /// Restricts to conversation `peer`.
    pub fn peer(self, peer: Peer) -> (b: Self)
        ensures
            b == (WaiterBuilder { selector: Selector { peer: Some(peer), ..self.selector }, ..self }),
    {
        WaiterBuilder { selector: Selector { peer: Some(peer), ..self.selector }, ..self }
    }

    /// Restricts to acting user `user`.
    pub fn user(self, user: Uin) -> (b: Self)
        ensures
            b == (WaiterBuilder { selector: Selector { user: Some(user), ..self.selector }, ..self }),
    {
        WaiterBuilder { selector: Selector { user: Some(user), ..self.selector }, ..self }
    }

    /// Restricts to `user` in `peer`.
    pub fn from(self, peer: Peer, user: Uin) -> (b: Self)
        ensures
            b == (WaiterBuilder { selector: Selector { peer: Some(peer), user: Some(user), ..self.selector }, ..self }),
    {
        WaiterBuilder { selector: Selector { peer: Some(peer), user: Some(user), ..self.selector }, ..self }
    }

    /// Restricts to the conversation and user that started the session (a
    /// dimension the session lacks stays open).
    pub fn from_starter(self) -> (b: Self)
        ensures
            b == (WaiterBuilder { selector: Selector { peer: self.starter_peer, user: self.starter_user, ..self.selector }, ..self }),
    {
        WaiterBuilder { selector: Selector { peer: self.starter_peer, user: self.starter_user, ..self.selector }, ..self }
    }

    /// Also requires the caller's predicate.
    pub fn filter(self) -> (b: Self)
        ensures
            b == (WaiterBuilder { selector: Selector { has_filter: true, ..self.selector }, ..self }),
    {
        WaiterBuilder { selector: Selector { has_filter: true, ..self.selector }, ..self }
    }

    /// Whether a hit is swallowed (default `true`).
    pub fn block(self, block: bool) -> (b: Self)
        ensures
            b == (WaiterBuilder { block, ..self }),
    {
        WaiterBuilder { block, ..self }
    }

    /// Registers the waiter and returns its id.
    pub fn build(self, store: &mut WaiterStore) -> (id: u64)
        ensures
            id == old(store).next_id_spec(),
            final(store)@ == old(store)@.push(WaiterEntry { id, depth: self.depth, selector: self.selector, block: self.block }),
    {
        store.register(self.depth, self.selector, self.block)
    }
}

/// A wait's verdict on one delivered event: keep waiting, finish with a
/// value, or give up.
pub enum WaitFlow<T> {
    Continue,
    Done(T),
    Cancel,
}

/// What a yes/no question does with one delivered event.
pub enum ConfirmStep {
    /// Not a message from the one asked: keep waiting.
    Continue,
    /// The answer.
    Done(bool),
    /// Not understood: reply with this prompt and keep waiting.
    Reprompt(String),
}

/// The prompt that asks again: `请回复「yes」或「no」`.
pub open spec fn reprompt_text(yes: Seq<char>, no: Seq<char>) -> Seq<char> {
    "请回复「"@ + lower_text(trim_spec(yes)) + "」或「"@ + lower_text(trim_spec(no)) + "」"@
}

/// The yes/no question: only messages from `who` count; their text, trimmed
/// and lower-cased, is compared with the trimmed, lower-cased answers; anything
/// else asks again. `message` is the sender and text of a message event, `None`
/// for other events.
pub fn confirm_step(message: Option<(Uin, &str)>, who: Uin, yes: &str, no: &str) -> (s: ConfirmStep)
    ensures
        match message {
            None => s is Continue,
            Some((sender, text)) => if sender != who {
                s is Continue
            } else if lower_text(trim_spec(text@)) == lower_text(trim_spec(yes@)) {
                s == ConfirmStep::Done(true)
            } else if lower_text(trim_spec(text@)) == lower_text(trim_spec(no@)) {
                s == ConfirmStep::Done(false)
            } else {
                s matches ConfirmStep::Reprompt(p) && p@ == reprompt_text(yes@, no@)
            },
        },
{
    let (sender, text) = match message {
        None => return ConfirmStep::Continue,
        Some(m) => m,
    };
    if sender.0 != who.0 {
        return ConfirmStep::Continue;
    }
    let y = lowercase(trim(yes).as_str());
    let n = lowercase(trim(no).as_str());
    let t = lowercase(trim(text).as_str());
    if str_eq(t.as_str(), y.as_str()) {
        ConfirmStep::Done(true)
    } else if str_eq(t.as_str(), n.as_str()) {
        ConfirmStep::Done(false)
    } else {
        let mut p = String::from_str("请回复「");
        p.append(y.as_str());
        p.append("」或「");
        p.append(n.as_str());
        p.append("」");
        ConfirmStep::Reprompt(p)
    }
}

/// One line of free text: a message whose text is blank is ignored; one that
/// says the cancel word (trimmed, lower-cased) gives up; any other finishes
/// with its text as sent. `text` is the text of a message event, `None` for
/// other events.
pub fn text_step(text: Option<&str>, cancel: &str) -> (s: WaitFlow<String>)
    ensures
        match text {
            None => s is Continue,
            Some(t) => if trim_spec(t@).len() == 0 {
                s is Continue
            } else if lower_text(trim_spec(t@)) == lower_text(trim_spec(cancel@)) {
                s is Cancel
            } else {
                s matches WaitFlow::Done(d) && d@ == t@
            },
        },
{
    let t = match text {
        None => return WaitFlow::Continue,
        Some(t) => t,
    };
    let trimmed = trim(t);
    if trimmed.as_str().unicode_len() == 0 {
        return WaitFlow::Continue;
    }
    let c = lowercase(trim(cancel).as_str());
    let l = lowercase(trimmed.as_str());
    if str_eq(l.as_str(), c.as_str()) {
        WaitFlow::Cancel
    } else {
        WaitFlow::Done(t.to_owned())
    }
}

/// What a parsed line of text does with one delivered event, before the parse.
pub enum ParseInput {
    /// Not a message, or blank: keep waiting.
    Skip,
    /// The cancel word: give up.
    Cancel,
    /// Parse this trimmed text: a value finishes the wait, a hint is replied
    /// and the wait goes on.
    Parse(String),
}

/// The first half of a parsed line: blank and non-message events are skipped,
/// the cancel word gives up, anything else goes to the parser trimmed.
pub fn parse_input(text: Option<&str>, cancel: &str) -> (s: ParseInput)
    ensures
        match text {
            None => s is Skip,
            Some(t) => if trim_spec(t@).len() == 0 {
                s is Skip
            } else if lower_text(trim_spec(t@)) == lower_text(trim_spec(cancel@)) {
                s is Cancel
            } else {
                s matches ParseInput::Parse(p) && p@ == trim_spec(t@)
            },
        },
{
    let t = match text {
        None => return ParseInput::Skip,
        Some(t) => t,
    };
    let trimmed = trim(t);
    if trimmed.as_str().unicode_len() == 0 {
        return ParseInput::Skip;
    }
    let c = lowercase(trim(cancel).as_str());
    let l = lowercase(trimmed.as_str());
    if str_eq(l.as_str(), c.as_str()) {
        ParseInput::Cancel
    } else {
        ParseInput::Parse(trimmed)
    }
}

} // verus!
