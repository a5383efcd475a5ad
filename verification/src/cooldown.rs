//! Cooldown gating: sliding windows of `(count, first)` per key, where a window
//! admits `max_exec` runs before it refuses, and an expired window starts over.
//!
//! By default a key is the sender alone (`UserGlobal`: one bucket per person
//! across every trigger); per-trigger, per-conversation and global buckets are
//! opt-in. Times are milliseconds on a monotonic clock that the caller reads.
use vstd::prelude::*;
use crate::ids::{Peer, Uin};
use crate::text::str_eq;

verus! {

/// The scope of a cooldown key.
#[derive(Clone, Copy, Debug, PartialEq, Eq, Structural)]
pub enum CooldownScope {
    /// Default: per person, across every trigger (the key is the sender alone).
    UserGlobal,
    /// Per person and per trigger.
    User,
    /// Per conversation (group or friend), whatever the trigger.
    Peer,
    /// One bucket for everyone.
    Global,
}

/// The stable identity of a trigger: its plugin key and its trigger key.
pub struct TriggerId {
    plugin: String,
    trigger: String,
}

impl TriggerId {
    /// Builds the identity of a trigger from its plugin key and trigger key.
    pub fn of(plugin: &str, trigger: &str) -> (t: TriggerId)
        ensures
            t.plugin_spec() == plugin@,
            t.trigger_spec() == trigger@,
    {
        TriggerId { plugin: plugin.to_owned(), trigger: trigger.to_owned() }
    }

    /// The plugin key.
    pub closed spec fn plugin_spec(&self) -> Seq<char> {
        self.plugin@
    }

    /// The trigger key.
    pub closed spec fn trigger_spec(&self) -> Seq<char> {
        self.trigger@
    }

    fn duplicate(&self) -> (t: TriggerId)
        ensures
            t.plugin_spec() == self.plugin_spec(),
            t.trigger_spec() == self.trigger_spec(),
    {
        TriggerId { plugin: self.plugin.clone(), trigger: self.trigger.clone() }
    }
}

/// The key of a cooldown bucket.
pub enum CdKey {
    /// Per person, across triggers.
    UserGlobal(Uin),
    /// Per person and trigger.
    User(Uin, TriggerId),
    /// Per conversation.
    Peer(Peer),
    /// The single global bucket.
    Global,
    /// A key chosen by the handler (derived from data, such as `bili:<aid>`).
    Custom(String),
}

/// What identifies a bucket.
pub enum KeyModel {
    UserGlobal(Uin),
    User(Uin, Seq<char>, Seq<char>),
    Peer(Peer),
    Global,
    Custom(Seq<char>),
}

impl View for CdKey {
    type V = KeyModel;

    open spec fn view(&self) -> KeyModel {
        match self {
            CdKey::UserGlobal(u) => KeyModel::UserGlobal(*u),
            CdKey::User(u, t) => KeyModel::User(*u, t.plugin_spec(), t.trigger_spec()),
            CdKey::Peer(p) => KeyModel::Peer(*p),
            CdKey::Global => KeyModel::Global,
            CdKey::Custom(s) => KeyModel::Custom(s@),
        }
    }
}

impl CdKey {
    /// A handler-chosen key.
    pub fn custom(s: &str) -> (k: CdKey)
        ensures
            k@ == KeyModel::Custom(s@),
    {
        CdKey::Custom(s.to_owned())
    }

    fn duplicate(&self) -> (k: CdKey)
        ensures
            k@ == self@,
    {
        match self {
            CdKey::UserGlobal(u) => CdKey::UserGlobal(*u),
            CdKey::User(u, t) => CdKey::User(*u, t.duplicate()),
            CdKey::Peer(p) => CdKey::Peer(*p),
            CdKey::Global => CdKey::Global,
            CdKey::Custom(s) => CdKey::Custom(s.clone()),
        }
    }

    fn same(&self, other: &CdKey) -> (r: bool)
        ensures
            r == (self@ == other@),
    {
        match (self, other) {
            (CdKey::UserGlobal(a), CdKey::UserGlobal(b)) => a.0 == b.0,
            (CdKey::User(a, s), CdKey::User(b, t)) => a.0 == b.0 && str_eq(
                s.plugin.as_str(),
                t.plugin.as_str(),
            ) && str_eq(s.trigger.as_str(), t.trigger.as_str()),
            (CdKey::Peer(a), CdKey::Peer(b)) => *a == *b,
            (CdKey::Global, CdKey::Global) => true,
            (CdKey::Custom(a), CdKey::Custom(b)) => str_eq(a.as_str(), b.as_str()),
            _ => false,
        }
    }
}

/// A bucket's window: `count` runs since `first`.
#[derive(Clone, Copy, Debug, PartialEq, Eq, Structural)]
pub struct Window {
    pub count: u32,
    pub first: u64,
}

/// Milliseconds from `first` to `now`, zero if `now` is earlier.
pub open spec fn elapsed(now: u64, first: u64) -> int {
    if now >= first { now - first } else { 0 }
}

/// `w` is still open at `now` for windows of `interval` milliseconds.
pub open spec fn open_at(w: Window, now: u64, interval: u64) -> bool {
    elapsed(now, w.first) < interval
}

/// One attempt on bucket `k`: the new buckets and whether it passes. An open
/// window with room counts the run; a full open window refuses and stays as it
/// is; a missing or expired window starts over at one run.
pub open spec fn try_stamp_spec(m: Map<KeyModel, Window>, k: KeyModel, now: u64, interval: u64, max_exec: u32) -> (Map<KeyModel, Window>, bool) {
    if m.contains_key(k) && open_at(m[k], now, interval) {
        if m[k].count < max_exec {
            (m.insert(k, Window { count: (m[k].count + 1) as u32, first: m[k].first }), true)
        } else {
            (m, false)
        }
    } else {
        (m.insert(k, Window { count: 1, first: now }), true)
    }
}

/// Whether an attempt on `k` would pass now.
pub open spec fn ready_spec(m: Map<KeyModel, Window>, k: KeyModel, now: u64, interval: u64, max_exec: u32) -> bool {
    if m.contains_key(k) && open_at(m[k], now, interval) {
        m[k].count < max_exec
    } else {
        true
    }
}

/// A forced stamp: counts a run in an open window, or starts a new window.
pub open spec fn stamp_spec(m: Map<KeyModel, Window>, k: KeyModel, now: u64, interval: u64) -> Map<KeyModel, Window> {
    if m.contains_key(k) && open_at(m[k], now, interval) {
        m.insert(k, Window { count: (m[k].count + 1) as u32, first: m[k].first })
    } else {
        m.insert(k, Window { count: 1, first: now })
    }
}

/// The buckets a list of `(key, window)` entries stands for; later entries win.
pub open spec fn buckets(s: Seq<(KeyModel, Window)>) -> Map<KeyModel, Window>
    decreases s.len(),
{
    if s.len() == 0 {
        Map::empty()
    } else {
        buckets(s.drop_last()).insert(s.last().0, s.last().1)
    }
}

proof fn lemma_buckets_lookup(s: Seq<(KeyModel, Window)>, k: KeyModel, i: int)
    requires
        -1 <= i < s.len(),
        i >= 0 ==> s[i].0 == k,
        forall|j: int| i < j < s.len() ==> s[j].0 != k,
    ensures
        i >= 0 ==> buckets(s).contains_key(k) && buckets(s)[k] == s[i].1,
        i < 0 ==> !buckets(s).contains_key(k),
    decreases s.len(),
{
    if s.len() > 0 && i < s.len() - 1 {
        lemma_buckets_lookup(s.drop_last(), k, i);
    }
}

proof fn lemma_buckets_update(s: Seq<(KeyModel, Window)>, i: int, w: Window)
    requires
        0 <= i < s.len(),
        forall|j: int| i < j < s.len() ==> s[j].0 != s[i].0,
    ensures
        buckets(s.update(i, (s[i].0, w))) == buckets(s).insert(s[i].0, w),
    decreases s.len(),
{
    let t = s.update(i, (s[i].0, w));
    if i == s.len() - 1 {
        assert(t.drop_last() == s.drop_last());
    } else {
        lemma_buckets_update(s.drop_last(), i, w);
        assert(t.drop_last() == s.drop_last().update(i, (s[i].0, w)));
        assert(buckets(s).insert(s[i].0, w) =~= buckets(s.drop_last()).insert(s[i].0, w).insert(
            s.last().0,
            s.last().1,
        ));
    }
}

/// The entries of a store as plain values.
pub open spec fn entries_view(v: Seq<(CdKey, Window)>) -> Seq<(KeyModel, Window)> {
    v.map_values(|e: (CdKey, Window)| (e.0@, e.1))
}

/// The cooldown store: the windows of every bucket, shared by the declarative
/// check and the handler-side handle.
pub struct CooldownStore {
    entries: Vec<(CdKey, Window)>,
}

impl View for CooldownStore {
    type V = Map<KeyModel, Window>;

    closed spec fn view(&self) -> Map<KeyModel, Window> {
        buckets(entries_view(self.entries@))
    }
}

impl CooldownStore {
    /// An empty store.
    pub fn new() -> (s: Self)
        ensures
            s@ == Map::<KeyModel, Window>::empty(),
    {
        let s = CooldownStore { entries: Vec::new() };
        assert(entries_view(s.entries@) =~= Seq::<(KeyModel, Window)>::empty());
        s
    }

    /// The position of the last entry for `key`, if any.
    fn find(&self, key: &CdKey) -> (r: Option<usize>)
        ensures
            match r {
                Some(i) => i < self.entries@.len() && self.entries@[i as int].0@ == key@
                    && self@.contains_key(key@) && self@[key@] == self.entries@[i as int].1
                    && forall|j: int|
                    i < j < self.entries@.len() ==> entries_view(self.entries@)[j].0 != key@,
                None => !self@.contains_key(key@),
            },
    {
        let ghost s = entries_view(self.entries@);
        let mut i = self.entries.len();
        while i > 0
            invariant
                i <= self.entries@.len(),
                s == entries_view(self.entries@),
                forall|j: int| i <= j < s.len() ==> s[j].0 != key@,
            decreases i,
        {
            if self.entries[i - 1].0.same(key) {
                proof {
                    lemma_buckets_lookup(s, key@, i - 1);
                }
                return Some(i - 1);
            }
            i = i - 1;
        }
        proof {
            lemma_buckets_lookup(s, key@, -1);
        }
        None
    }

    fn put(&mut self, key: CdKey, w: Window)
        ensures
            final(self)@ == old(self)@.insert(key@, w),
    {
        match self.find(&key) {
            Some(i) => {
                let ghost s = entries_view(self.entries@);
                proof {
                    lemma_buckets_update(s, i as int, w);
                }
                self.entries.set(i, (key, w));
                assert(entries_view(self.entries@) =~= s.update(i as int, (s[i as int].0, w)));
            },
            None => {
                let ghost s = entries_view(self.entries@);
                let ghost kv = key@;
                self.entries.push((key, w));
                assert(entries_view(self.entries@) =~= s.push((kv, w)));
                assert(entries_view(self.entries@).drop_last() == s);
            },
        }
    }

    /// One attempt on `key` at `now` (windows of `interval` ms, `max_exec` runs):
    /// `true` when it passes and was counted, `false` when the open window is full.
    pub fn try_stamp(&mut self, key: CdKey, now: u64, interval: u64, max_exec: u32) -> (r: bool)
        ensures
            (final(self)@, r) == try_stamp_spec(old(self)@, key@, now, interval, max_exec),
    {
        match self.find(&key) {
            Some(i) => {
                let w = self.entries[i].1;
                let el = if now >= w.first { now - w.first } else { 0 };
                if el < interval {
                    if w.count < max_exec {
                        self.put(key, Window { count: w.count + 1, first: w.first });
                        true
                    } else {
                        false
                    }
                } else {
                    self.put(key, Window { count: 1, first: now });
                    true
                }
            },
            None => {
                self.put(key, Window { count: 1, first: now });
                true
            },
        }
    }

    /// Whether an attempt on `key` would pass now; changes nothing.
    pub fn ready(&self, key: &CdKey, now: u64, interval: u64, max_exec: u32) -> (r: bool)
        ensures
            r == ready_spec(self@, key@, now, interval, max_exec),
    {
        match self.find(key) {
            Some(i) => {
                let w = self.entries[i].1;
                let el = if now >= w.first { now - w.first } else { 0 };
                if el < interval {
                    w.count < max_exec
                } else {
                    true
                }
            },
            None => true,
        }
    }

    /// Forces one stamp on `key` (for "charge the cooldown only after success").
    pub fn stamp(&mut self, key: CdKey, now: u64, interval: u64)
        requires
            old(self)@.contains_key(key@) && open_at(old(self)@[key@], now, interval) ==> old(
                self,
            )@[key@].count < u32::MAX,
        ensures
            final(self)@ == stamp_spec(old(self)@, key@, now, interval),
    {
        match self.find(&key) {
            Some(i) => {
                let w = self.entries[i].1;
                let el = if now >= w.first { now - w.first } else { 0 };
                if el < interval {
                    self.put(key, Window { count: w.count + 1, first: w.first });
                } else {
                    self.put(key, Window { count: 1, first: now });
                }
            },
            None => {
                self.put(key, Window { count: 1, first: now });
            },
        }
    }
}

/// An attempt passes exactly when the store said it was ready, and a refused
/// attempt leaves every bucket as it was.
pub proof fn law_ready_matches_attempt(m: Map<KeyModel, Window>, k: KeyModel, now: u64, interval: u64, max_exec: u32)
    ensures
        try_stamp_spec(m, k, now, interval, max_exec).1 == ready_spec(m, k, now, interval, max_exec),
        !try_stamp_spec(m, k, now, interval, max_exec).1 ==> try_stamp_spec(m, k, now, interval, max_exec).0 == m,
{
}

/// An attempt touches no bucket but its own.
pub proof fn law_other_buckets_untouched(m: Map<KeyModel, Window>, k: KeyModel, other: KeyModel, now: u64, interval: u64, max_exec: u32)
    requires
        other != k,
    ensures
        try_stamp_spec(m, k, now, interval, max_exec).0.contains_key(other) == m.contains_key(other),
        m.contains_key(other) ==> try_stamp_spec(m, k, now, interval, max_exec).0[other] == m[other],
{
}

/// Attempts alone never push a window past `max_exec` runs: if a bucket's
/// window is within its limit before an attempt, it is after.
pub proof fn law_window_bounded(m: Map<KeyModel, Window>, k: KeyModel, now: u64, interval: u64, max_exec: u32)
    requires
        max_exec >= 1,
        m.contains_key(k) ==> m[k].count <= max_exec,
    ensures
        try_stamp_spec(m, k, now, interval, max_exec).0[k].count <= max_exec,
{
}

/// A window that is still open and already holds `max_exec` runs refuses the
/// next attempt.
pub proof fn law_refused_when_full(m: Map<KeyModel, Window>, k: KeyModel, now: u64, interval: u64, max_exec: u32)
    requires
        m.contains_key(k),
        open_at(m[k], now, interval),
        m[k].count >= max_exec,
    ensures
        !try_stamp_spec(m, k, now, interval, max_exec).1,
{
}

/// An attempt on a missing or expired window passes and opens a new window
/// at `now` holding that one run.
pub proof fn law_fresh_window_starts_now(m: Map<KeyModel, Window>, k: KeyModel, now: u64, interval: u64, max_exec: u32)
    requires
        !m.contains_key(k) || (now >= m[k].first && now - m[k].first >= interval),
    ensures
        try_stamp_spec(m, k, now, interval, max_exec).1,
        try_stamp_spec(m, k, now, interval, max_exec).0.contains_key(k),
        try_stamp_spec(m, k, now, interval, max_exec).0[k].first == now,
        try_stamp_spec(m, k, now, interval, max_exec).0[k].count == 1,
{
}

/// An attempt within an open window that has room passes, counts one more
/// run and keeps the window's start.
pub proof fn law_open_window_counts(m: Map<KeyModel, Window>, k: KeyModel, now: u64, interval: u64, max_exec: u32)
    requires
        m.contains_key(k),
        interval > 0,
        now < m[k].first || now - m[k].first < interval,
        m[k].count < max_exec,
    ensures
        try_stamp_spec(m, k, now, interval, max_exec).1,
        try_stamp_spec(m, k, now, interval, max_exec).0[k].first == m[k].first,
        try_stamp_spec(m, k, now, interval, max_exec).0[k].count == m[k].count + 1,
{
}

/// With one run per window: once an attempt opens a window at `now`, every
/// attempt less than `interval` later is refused, and the first attempt
/// `interval` or more later passes again.
pub proof fn law_one_run_per_window(m: Map<KeyModel, Window>, k: KeyModel, now: u64, later: u64, interval: u64)
    requires
        !m.contains_key(k) || (now >= m[k].first && now - m[k].first >= interval),
        now <= later,
    ensures
        later - now < interval ==> !try_stamp_spec(try_stamp_spec(m, k, now, interval, 1).0, k, later, interval, 1).1,
        later - now >= interval ==> try_stamp_spec(try_stamp_spec(m, k, now, interval, 1).0, k, later, interval, 1).1,
{
}

/// A forced stamp on a missing or expired window opens a window at `now`
/// with one run; in an open window it counts one more run and keeps the start.
pub proof fn law_stamp_windows(m: Map<KeyModel, Window>, k: KeyModel, now: u64, interval: u64)
    ensures
        !m.contains_key(k) || (now >= m[k].first && now - m[k].first >= interval) ==> stamp_spec(m, k, now, interval)[k]
            == (Window { count: 1, first: now }),
        m.contains_key(k) && interval > 0 && (now < m[k].first || now - m[k].first < interval) ==> stamp_spec(m, k, now, interval)[k].first
            == m[k].first && stamp_spec(m, k, now, interval)[k].count == (m[k].count + 1) as u32,
{
}

/// The declarative cooldown builder: interval, scope and runs per window.
#[derive(Clone, Copy, Debug)]
pub struct Cooldown {
    pub interval_ms: u64,
    pub scope: CooldownScope,
    pub max_exec: u32,
}

impl Cooldown {
    /// A cooldown of `secs` seconds: per person across triggers, one run per window.
    pub fn new(secs: u64) -> (c: Cooldown)
        ensures
            c.interval_ms == (if secs * 1000 <= u64::MAX { secs * 1000 } else { u64::MAX as int }),
            c.scope == CooldownScope::UserGlobal,
            c.max_exec == 1,
    {
        let interval_ms = if secs <= u64::MAX / 1000 { secs * 1000 } else { u64::MAX };
        Cooldown { interval_ms, scope: CooldownScope::UserGlobal, max_exec: 1 }
    }

    /// One bucket per conversation.
    pub fn per_peer(self) -> (c: Cooldown)
        ensures
            c == (Cooldown { scope: CooldownScope::Peer, ..self }),
    {
        Cooldown { scope: CooldownScope::Peer, ..self }
    }

    /// One bucket per person and trigger.
    pub fn per_trigger(self) -> (c: Cooldown)
        ensures
            c == (Cooldown { scope: CooldownScope::User, ..self }),
    {
        Cooldown { scope: CooldownScope::User, ..self }
    }

    /// One bucket for everyone.
    pub fn global(self) -> (c: Cooldown)
        ensures
            c == (Cooldown { scope: CooldownScope::Global, ..self }),
    {
        Cooldown { scope: CooldownScope::Global, ..self }
    }

    /// Runs allowed per window; `0` counts as `1`.
    pub fn max_exec(self, n: u32) -> (c: Cooldown)
        ensures
            c == (Cooldown { max_exec: if n == 0 { 1 } else { n }, ..self }),
    {
        Cooldown { max_exec: if n == 0 { 1 } else { n }, ..self }
    }
}

/// What the key derivation reads of the current message.
#[derive(Clone, Copy, Debug, PartialEq, Eq, Structural)]
pub struct MessageFacts {
    /// The message is the bot's own echo.
    pub is_self: bool,
    pub sender: Uin,
    pub peer: Peer,
}

/// The bucket of the current event in `scope`: none for an event without a
/// sender (it is never cooled down) and none for the bot's own echoed messages.
pub open spec fn key_for_spec(msg: Option<MessageFacts>, scope: CooldownScope, trigger: (Seq<char>, Seq<char>)) -> Option<KeyModel> {
    if msg is None || (msg matches Some(m) && m.is_self) {
        None
    } else {
        match scope {
            CooldownScope::UserGlobal => match msg {
                Some(m) => Some(KeyModel::UserGlobal(m.sender)),
                None => None,
            },
            CooldownScope::User => match msg {
                Some(m) => Some(KeyModel::User(m.sender, trigger.0, trigger.1)),
                None => None,
            },
            CooldownScope::Peer => match msg {
                Some(m) => Some(KeyModel::Peer(m.peer)),
                None => None,
            },
            CooldownScope::Global => Some(KeyModel::Global),
        }
    }
}

/// Derives the bucket of the current event (see [`key_for_spec`]).
pub fn key_for(msg: Option<MessageFacts>, scope: CooldownScope, trigger: &TriggerId) -> (r: Option<CdKey>)
    ensures
        match r {
            Some(k) => key_for_spec(msg, scope, (trigger.plugin_spec(), trigger.trigger_spec())) == Some(k@),
            None => key_for_spec(msg, scope, (trigger.plugin_spec(), trigger.trigger_spec())) is None,
        },
{
    match msg {
        None => return None,
        Some(m) => if m.is_self {
            return None;
        },
    }
    match scope {
        CooldownScope::UserGlobal => match msg {
            Some(m) => Some(CdKey::UserGlobal(m.sender)),
            None => None,
        },
        CooldownScope::User => match msg {
            Some(m) => Some(CdKey::User(m.sender, trigger.duplicate())),
            None => None,
        },
        CooldownScope::Peer => match msg {
            Some(m) => Some(CdKey::Peer(m.peer)),
            None => None,
        },
        CooldownScope::Global => Some(CdKey::Global),
    }
}

/// An event without a sender is never cooled down, whatever the scope.
pub proof fn law_no_sender_no_key(scope: CooldownScope, trigger: (Seq<char>, Seq<char>))
    ensures
        key_for_spec(None, scope, trigger) is None,
{
}

/// The stateful cooldown check of one trigger.
pub struct CooldownCheck {
    pub cd: Cooldown,
    pub trigger: TriggerId,
}

impl CooldownCheck {
    /// The check: a passing bypass rule lets the event through without a stamp;
    /// an event with no bucket passes; otherwise the attempt is counted in the
    /// window and refused when the window is full. (With no store at all the
    /// caller lets the event through.)
    pub fn check(&self, bypassed: bool, msg: Option<MessageFacts>, store: &mut CooldownStore, now: u64) -> (r: bool)
        ensures
            match (bypassed, key_for_spec(msg, self.cd.scope, (self.trigger.plugin_spec(), self.trigger.trigger_spec()))) {
                (false, Some(k)) => (final(store)@, r) == try_stamp_spec(old(store)@, k, now, self.cd.interval_ms, self.cd.max_exec),
                _ => r && final(store)@ == old(store)@,
            },
    {
        if bypassed {
            return true;
        }
        let key = match key_for(msg, self.cd.scope, &self.trigger) {
            Some(k) => k,
            None => return true,
        };
        store.try_stamp(key, now, self.cd.interval_ms, self.cd.max_exec)
    }
}

/// The imperative cooldown handle of a handler body, for keys derived from
/// data: one run per window.
pub struct Cd<'a>(pub &'a mut CooldownStore);

impl<'a> Cd<'a> {
    /// Checks and stamps `key` (one run per `dur` ms window): `true` passes
    /// and counts the run, `false` means the key is cooling down.
    pub fn gate(&mut self, key: CdKey, dur: u64, now: u64) -> (r: bool)
        ensures
            (final(self).0@, r) == try_stamp_spec(old(self).0@, key@, now, dur, 1),
    {
        self.0.try_stamp(key, now, dur, 1)
    }

    /// Whether `key` would pass now (one run per window); changes nothing.
    pub fn ready(&self, key: &CdKey, dur: u64, now: u64) -> (r: bool)
        ensures
            r == ready_spec(old(self.0)@, key@, now, dur, 1),
    {
        self.0.ready(key, now, dur, 1)
    }

    /// Stamps `key` after the fact ("charge only after success").
    pub fn stamp(&mut self, key: CdKey, dur: u64, now: u64)
        requires
            old(self).0@.contains_key(key@) && open_at(old(self).0@[key@], now, dur) ==> old(self).0@[key@].count
                < u32::MAX,
        ensures
            final(self).0@ == stamp_spec(old(self).0@, key@, now, dur),
    {
        self.0.stamp(key, now, dur)
    }
}

} // verus!
