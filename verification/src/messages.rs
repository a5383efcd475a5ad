//! The recent-message cache: the last messages by a stable anchor (sender and
//! content), bounded, evicting the oldest first. Recall notices carry only the
//! id of the recalled message, so this is where its content is found again.
use vstd::prelude::*;
use crate::ids::{Peer, Uin};

verus! {

/// A message id as the adapters report it: its conversation, the sequence
/// number within it, and OneBot's message id when there is one.
#[derive(Clone, Copy, Debug, PartialEq, Eq, Structural)]
pub struct MessageId {
    pub peer: Peer,
    pub seq: i64,
    pub onebot_id: Option<i32>,
}

/// The cache key: stable across the original message, its recall notice and
/// later lookups. OneBot messages are anchored by `(peer, onebot id)` (recall
/// notices carry no sequence number); others by `(peer, seq)`.
#[derive(Clone, Copy, Debug, PartialEq, Eq, Structural)]
pub enum MsgKey {
    OneBot(Peer, i32),
    Sequence(Peer, i64),
}

impl MsgKey {
    /// The key of a message id.
    pub fn of(id: &MessageId) -> (k: MsgKey)
        ensures
            k == match id.onebot_id {
                Some(ob) => MsgKey::OneBot(id.peer, ob),
                None => MsgKey::Sequence(id.peer, id.seq),
            },
    {
        match id.onebot_id {
            Some(ob) => MsgKey::OneBot(id.peer, ob),
            None => MsgKey::Sequence(id.peer, id.seq),
        }
    }
}

/// A remembered message: its sender and content.
pub struct StoredMessage<C> {
    pub sender: Uin,
    pub content: C,
}

/// `new_e` is `old_e` after remembering `(key, sender, content)` with capacity
/// `cap`: nothing with capacity zero; a held key is replaced in place; a new
/// key goes last, evicting the oldest entry when the cache is full.
pub open spec fn recorded<C>(old_e: Seq<(MsgKey, Uin, C)>, cap: int, key: MsgKey, sender: Uin, content: C, new_e: Seq<(MsgKey, Uin, C)>) -> bool {
    if cap == 0 {
        new_e == old_e
    } else if exists|i: int| 0 <= i < old_e.len() && old_e[i].0 == key {
        exists|i: int| 0 <= i < old_e.len() && old_e[i].0 == key && new_e == old_e.update(i, (key, sender, content))
    } else if old_e.len() < cap {
        new_e == old_e.push((key, sender, content))
    } else {
        new_e == old_e.push((key, sender, content)).subrange(1, old_e.len() as int + 1)
    }
}

/// With a non-zero capacity, a message just remembered is found again, and the
/// cache stays within its capacity.
pub proof fn law_record_then_get<C>(old_e: Seq<(MsgKey, Uin, C)>, cap: int, key: MsgKey, sender: Uin, content: C, new_e: Seq<(MsgKey, Uin, C)>)
    requires
        cap > 0,
        old_e.len() <= cap,
        recorded(old_e, cap, key, sender, content, new_e),
    ensures
        exists|i: int| 0 <= i < new_e.len() && new_e[i] == (key, sender, content),
        new_e.len() <= cap,
{
    if exists|i: int| 0 <= i < old_e.len() && old_e[i].0 == key {
        let i = choose|i: int| 0 <= i < old_e.len() && old_e[i].0 == key && new_e == old_e.update(i, (key, sender, content));
        assert(new_e[i] == (key, sender, content));
    } else if old_e.len() < cap {
        assert(new_e[old_e.len() as int] == (key, sender, content));
    } else {
        assert(new_e[old_e.len() - 1] == (key, sender, content));
    }
}

/// The bounded cache, oldest first.
pub struct MessageStore<C> {
    entries: Vec<(MsgKey, StoredMessage<C>)>,
    cap: usize,
}

/// The keys of entries, in order.
pub open spec fn keys_of<C>(s: Seq<(MsgKey, StoredMessage<C>)>) -> Seq<MsgKey> {
    s.map_values(|e: (MsgKey, StoredMessage<C>)| e.0)
}

impl<C> MessageStore<C> {
    #[verifier::type_invariant]
    closed spec fn inv(self) -> bool {
        &&& self.entries@.len() <= self.cap
        &&& keys_of(self.entries@).no_duplicates()
    }

    /// The entries, oldest first: key, sender, content.
    pub closed spec fn entries_spec(&self) -> Seq<(MsgKey, Uin, C)> {
        self.entries@.map_values(|e: (MsgKey, StoredMessage<C>)| (e.0, e.1.sender, e.1.content))
    }

    /// The capacity.
    pub closed spec fn cap_spec(&self) -> usize {
        self.cap
    }

    /// A cache holding at most `cap` messages (`0` disables it).
    pub fn new(cap: usize) -> (s: Self)
        ensures
            s.entries_spec() == Seq::<(MsgKey, Uin, C)>::empty(),
            s.cap_spec() == cap,
    {
        let s = MessageStore { entries: Vec::new(), cap };
        assert(s.entries_spec() =~= Seq::<(MsgKey, Uin, C)>::empty());
        assert(keys_of(s.entries@) =~= Seq::<MsgKey>::empty());
        s
    }

    /// The number of cached messages: never more than the capacity, and no
    /// key is held twice.
    pub fn len(&self) -> (n: usize)
        ensures
            n == self.entries_spec().len(),
            n <= self.cap_spec(),
            forall|i: int, j: int|
                0 <= i < j < self.entries_spec().len() ==> self.entries_spec()[i].0 != self.entries_spec()[j].0,
    {
        proof {
            use_type_invariant(self);
        }
        assert forall|i: int, j: int|
            0 <= i < j < self.entries_spec().len() implies self.entries_spec()[i].0 != self.entries_spec()[j].0 by {
            assert(keys_of(self.entries@)[i] == self.entries_spec()[i].0);
            assert(keys_of(self.entries@)[j] == self.entries_spec()[j].0);
        }
        self.entries.len()
    }

    fn position(&self, key: MsgKey) -> (r: Option<usize>)
        ensures
            match r {
                Some(i) => i < self.entries_spec().len() && self.entries_spec()[i as int].0 == key,
                None => forall|j: int| 0 <= j < self.entries_spec().len() ==> self.entries_spec()[j].0 != key,
            },
    {
        let mut i: usize = 0;
        while i < self.entries.len()
            invariant
                i <= self.entries@.len(),
                forall|j: int| 0 <= j < i ==> self.entries_spec()[j].0 != key,
            decreases self.entries@.len() - i,
        {
            if self.entries[i].0 == key {
                return Some(i);
            }
            i = i + 1;
        }
        None
    }

    /// Remembers a message. With capacity zero nothing happens. A key already
    /// held has its entry replaced in place (it keeps its age); a new key goes
    /// last, and the oldest entry leaves when that overflows the capacity.
    pub fn record(&mut self, id: MessageId, sender: Uin, content: C)
        ensures
            final(self).cap_spec() == old(self).cap_spec(),
            recorded(old(self).entries_spec(), old(self).cap_spec() as int, MsgKey::of_spec(id), sender, content, final(self).entries_spec()),
    {
        proof {
            use_type_invariant(&*self);
        }
        if self.cap == 0 {
            return;
        }
        let key = MsgKey::of(&id);
        let ghost old_e = self.entries_spec();
        let ghost ok = keys_of(self.entries@);
        let mut all: Vec<(MsgKey, StoredMessage<C>)> = Vec::new();
        std::mem::swap(&mut all, &mut self.entries);
        assert(old_e == all@.map_values(|e: (MsgKey, StoredMessage<C>)| (e.0, e.1.sender, e.1.content)));
        match self.position_in(&all, key) {
            Some(i) => {
                assert(old_e[i as int].0 == key);
                all.set(i, (key, StoredMessage { sender, content }));
                assert(keys_of(all@) =~= ok.update(i as int, key));
                assert(ok.update(i as int, key) =~= ok);
                self.entries = all;
                assert(self.entries_spec() =~= old_e.update(i as int, (key, sender, content)));
            },
            None => {
                assert forall|j: int| 0 <= j < old_e.len() implies old_e[j].0 != key by {
                    assert(old_e[j].0 == all@[j].0);
                }
                all.push((key, StoredMessage { sender, content }));
                assert(keys_of(all@) =~= ok.push(key));
                if all.len() > self.cap {
                    let _ = all.remove(0);
                    assert(keys_of(all@) =~= ok.push(key).subrange(1, ok.len() as int + 1));
                }
                self.entries = all;
                assert(self.entries_spec() =~= if old_e.len() < self.cap { old_e.push((key, sender, content)) } else {
                    old_e.push((key, sender, content)).subrange(1, old_e.len() as int + 1)
                });
            },
        }
    }

    fn position_in(&self, all: &Vec<(MsgKey, StoredMessage<C>)>, key: MsgKey) -> (r: Option<usize>)
        ensures
            match r {
                Some(i) => i < all@.len() && all@[i as int].0 == key,
                None => forall|j: int| 0 <= j < all@.len() ==> all@[j].0 != key,
            },
    {
        let mut i: usize = 0;
        while i < all.len()
            invariant
                i <= all@.len(),
                forall|j: int| 0 <= j < i ==> all@[j].0 != key,
            decreases all@.len() - i,
        {
            if all[i].0 == key {
                return Some(i);
            }
            i = i + 1;
        }
        None
    }
}

impl MsgKey {
    /// The key of a message id.
    pub open spec fn of_spec(id: MessageId) -> MsgKey {
        match id.onebot_id {
            Some(ob) => MsgKey::OneBot(id.peer, ob),
            None => MsgKey::Sequence(id.peer, id.seq),
        }
    }
}

impl<C: Clone> MessageStore<C> {
    /// The remembered message of `id`, if it is still cached (a clone).
    pub fn get(&self, id: &MessageId) -> (r: Option<StoredMessage<C>>)
        ensures
            match r {
                Some(m) => exists|i: int|
                    0 <= i < self.entries_spec().len() && self.entries_spec()[i].0 == MsgKey::of_spec(*id)
                        && self.entries_spec()[i].1 == m.sender && cloned(self.entries_spec()[i].2, m.content),
                None => forall|j: int|
                    0 <= j < self.entries_spec().len() ==> self.entries_spec()[j].0 != MsgKey::of_spec(*id),
            },
    {
        let key = MsgKey::of(id);
        match self.position(key) {
            Some(i) => {
                let e = &self.entries[i];
                let content = e.1.content.clone();
                Some(StoredMessage { sender: e.1.sender, content })
            },
            None => None,
        }
    }
}

/// The sender and content held under `key`, if any.
pub open spec fn entry_for<C>(es: Seq<(MsgKey, Uin, C)>, key: MsgKey) -> Option<(Uin, C)> {
    if exists|i: int| 0 <= i < es.len() && es[i].0 == key {
        let i = choose|i: int| 0 <= i < es.len() && es[i].0 == key;
        Some((es[i].1, es[i].2))
    } else {
        None
    }
}

/// With distinct keys, the entry found at `i` is the one held under its key.
proof fn lemma_entry_for<C>(es: Seq<(MsgKey, Uin, C)>, key: MsgKey, i: int)
    requires
        0 <= i < es.len(),
        es[i].0 == key,
        forall|a: int, b: int| 0 <= a < b < es.len() ==> es[a].0 != es[b].0,
    ensures
        entry_for(es, key) == Some((es[i].1, es[i].2)),
{
    let j = choose|j: int| 0 <= j < es.len() && es[j].0 == key;
    if j < i {
        assert(es[j].0 != es[i].0);
    } else if i < j {
        assert(es[i].0 != es[j].0);
    }
}

impl<C> MessageStore<C> {
    /// The remembered message of `id`, if it is still cached, borrowed.
    pub fn lookup(&self, id: &MessageId) -> (r: Option<&StoredMessage<C>>)
        ensures
            match r {
                Some(m) => entry_for(self.entries_spec(), MsgKey::of_spec(*id)) == Some((m.sender, m.content)),
                None => entry_for(self.entries_spec(), MsgKey::of_spec(*id)) is None,
            },
    {
        proof {
            use_type_invariant(self);
        }
        let key = MsgKey::of(id);
        match self.position(key) {
            Some(i) => {
                proof {
                    let es = self.entries_spec();
                    assert forall|a: int, b: int| 0 <= a < b < es.len() implies es[a].0 != es[b].0 by {
                        assert(keys_of(self.entries@)[a] == es[a].0);
                        assert(keys_of(self.entries@)[b] == es[b].0);
                    }
                    lemma_entry_for(es, MsgKey::of_spec(*id), i as int);
                }
                let m = &self.entries[i].1;
                assert(m.sender == self.entries@[i as int].1.sender);
                Some(m)
            },
            None => None,
        }
    }
}

/// The index of the last of the first `m` records under `key`, if any.
pub open spec fn last_record<C>(ops: Seq<(MsgKey, Uin, C)>, key: MsgKey, m: int) -> Option<int>
    decreases m,
{
    if m <= 0 {
        None
    } else if ops[m - 1].0 == key {
        Some(m - 1)
    } else {
        last_record(ops, key, m - 1)
    }
}

/// Every entry holds the latest record made under its key.
pub open spec fn holds_latest<C>(es: Seq<(MsgKey, Uin, C)>, ops: Seq<(MsgKey, Uin, C)>, m: int) -> bool {
    forall|j: int| 0 <= j < es.len() ==> (#[trigger] last_record(ops, es[j].0, m) matches Some(i) && es[j] == ops[i])
}

/// No key is held twice.
pub open spec fn keys_distinct<C>(es: Seq<(MsgKey, Uin, C)>) -> bool {
    forall|a: int, b: int| 0 <= a < b < es.len() ==> es[a].0 != es[b].0
}

proof fn lemma_record_step<C>(es: Seq<(MsgKey, Uin, C)>, es2: Seq<(MsgKey, Uin, C)>, ops: Seq<(MsgKey, Uin, C)>, cap: int, m: int)
    requires
        0 <= m < ops.len(),
        cap > 0,
        es.len() <= cap,
        keys_distinct(es),
        holds_latest(es, ops, m),
        recorded(es, cap, ops[m].0, ops[m].1, ops[m].2, es2),
    ensures
        es2.len() <= cap,
        keys_distinct(es2),
        holds_latest(es2, ops, m + 1),
{
    let key = ops[m].0;
    let op = (ops[m].0, ops[m].1, ops[m].2);
    assert(op == ops[m]);
    if exists|i: int| 0 <= i < es.len() && es[i].0 == key {
        let i = choose|i: int| 0 <= i < es.len() && es[i].0 == key && es2 == es.update(i, (key, ops[m].1, ops[m].2));
        assert forall|j: int| 0 <= j < es2.len() implies (#[trigger] last_record(ops, es2[j].0, m + 1) matches Some(x) && es2[j] == ops[x]) by {
            if j == i {
            } else {
                assert(es2[j] == es[j]);
                assert(last_record(ops, es[j].0, m) matches Some(x) && es[j] == ops[x]);
                if j < i {
                    assert(es[j].0 != es[i].0);
                } else {
                    assert(es[i].0 != es[j].0);
                }
            }
        }
        assert forall|a: int, b: int| 0 <= a < b < es2.len() implies es2[a].0 != es2[b].0 by {
            assert(es2[a].0 == es[a].0);
            assert(es2[b].0 == es[b].0);
        }
    } else {
        let pushed = es.push(op);
        assert forall|j: int| 0 <= j < pushed.len() implies (#[trigger] last_record(ops, pushed[j].0, m + 1) matches Some(x) && pushed[j] == ops[x]) by {
            if j < es.len() {
                assert(pushed[j] == es[j]);
                assert(last_record(ops, es[j].0, m) matches Some(x) && es[j] == ops[x]);
                assert(es[j].0 != key);
            }
        }
        assert forall|a: int, b: int| 0 <= a < b < pushed.len() implies pushed[a].0 != pushed[b].0 by {
            if b == es.len() {
                assert(pushed[a] == es[a]);
            }
        }
        if es.len() < cap {
            assert(es2 == pushed);
        } else {
            assert(es2 == pushed.subrange(1, es.len() as int + 1));
            assert forall|j: int| 0 <= j < es2.len() implies (#[trigger] last_record(ops, es2[j].0, m + 1) matches Some(x) && es2[j] == ops[x]) by {
                assert(es2[j] == pushed[j + 1]);
                assert(last_record(ops, pushed[j + 1].0, m + 1) matches Some(x) && pushed[j + 1] == ops[x]);
            }
            assert forall|a: int, b: int| 0 <= a < b < es2.len() implies es2[a].0 != es2[b].0 by {
                assert(es2[a] == pushed[a + 1]);
                assert(es2[b] == pushed[b + 1]);
            }
        }
    }
}

/// Over any sequence of records (`states[i + 1]` is `states[i]` after record
/// `i`, from an empty cache): with capacity zero nothing is held; otherwise at
/// most `cap` messages are held, no key twice, and each held entry is the
/// latest record made under its key (a re-recorded key is updated).
pub proof fn law_records<C>(states: Seq<Seq<(MsgKey, Uin, C)>>, ops: Seq<(MsgKey, Uin, C)>, cap: int)
    requires
        cap >= 0,
        states.len() == ops.len() + 1,
        states[0] == Seq::<(MsgKey, Uin, C)>::empty(),
        forall|i: int| 0 <= i < ops.len() ==> recorded(#[trigger] states[i], cap, ops[i].0, ops[i].1, ops[i].2, states[i + 1]),
    ensures
        cap == 0 ==> states[ops.len() as int].len() == 0,
        states[ops.len() as int].len() <= cap,
        keys_distinct(states[ops.len() as int]),
        holds_latest(states[ops.len() as int], ops, ops.len() as int),
{
    lemma_records_prefix(states, ops, cap, ops.len() as int);
}

proof fn lemma_records_prefix<C>(states: Seq<Seq<(MsgKey, Uin, C)>>, ops: Seq<(MsgKey, Uin, C)>, cap: int, m: int)
    requires
        cap >= 0,
        0 <= m <= ops.len(),
        states.len() == ops.len() + 1,
        states[0] == Seq::<(MsgKey, Uin, C)>::empty(),
        forall|i: int| 0 <= i < ops.len() ==> recorded(#[trigger] states[i], cap, ops[i].0, ops[i].1, ops[i].2, states[i + 1]),
    ensures
        cap == 0 ==> states[m].len() == 0,
        states[m].len() <= cap,
        keys_distinct(states[m]),
        holds_latest(states[m], ops, m),
    decreases m,
{
    if m > 0 {
        lemma_records_prefix(states, ops, cap, m - 1);
        assert(recorded(states[m - 1], cap, ops[m - 1].0, ops[m - 1].1, ops[m - 1].2, states[m]));
        if cap == 0 {
            assert(states[m] == states[m - 1]);
        } else {
            lemma_record_step(states[m - 1], states[m], ops, cap, m - 1);
        }
    }
}

} // verus!
