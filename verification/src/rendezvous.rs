//! A cross-conversation rendezvous: a TTL store where one event issues a
//! `token → value` and a later, independent event claims it by the token.
//!
//! Claiming removes the entry and yields the value only while it is alive;
//! peeking treats expired entries as absent but keeps them; only `sweep` drops
//! every expired entry. Times are milliseconds on a monotonic clock.
use vstd::prelude::*;
use crate::text::str_eq;

verus! {

/// The default time to live of an entry: five minutes.
pub const DEFAULT_TTL_MS: u64 = 300_000;

/// A serialisable snapshot: every live entry with its remaining lifetime in ms.
pub struct RendezvousSnapshot<V> {
    pub entries: Vec<(String, V, u64)>,
}

/// Entries as `(token, (value, deadline))`.
pub open spec fn entries_model<V>(v: Seq<(String, V, u64)>) -> Seq<(Seq<char>, (V, u64))> {
    v.map_values(|e: (String, V, u64)| (e.0@, (e.1, e.2)))
}

/// The map a list of entries stands for; later entries win.
pub open spec fn table<V>(s: Seq<(Seq<char>, (V, u64))>) -> Map<Seq<char>, (V, u64)>
    decreases s.len(),
{
    if s.len() == 0 {
        Map::empty()
    } else {
        table(s.drop_last()).insert(s.last().0, s.last().1)
    }
}

proof fn lemma_table_push<V>(s: Seq<(Seq<char>, (V, u64))>, e: (Seq<char>, (V, u64)))
    ensures
        table(s.push(e)) == table(s).insert(e.0, e.1),
{
    assert(s.push(e).drop_last() == s);
}

proof fn lemma_table_lookup<V>(s: Seq<(Seq<char>, (V, u64))>, k: Seq<char>, i: int)
    requires
        -1 <= i < s.len(),
        i >= 0 ==> s[i].0 == k,
        forall|j: int| i < j < s.len() ==> s[j].0 != k,
    ensures
        i >= 0 ==> table(s).contains_key(k) && table(s)[k] == s[i].1,
        i < 0 ==> !table(s).contains_key(k),
    decreases s.len(),
{
    if s.len() > 0 && i < s.len() - 1 {
        lemma_table_lookup(s.drop_last(), k, i);
    }
}

/// No two entries share a token.
pub open spec fn distinct_keys<V>(s: Seq<(Seq<char>, (V, u64))>) -> bool {
    forall|i: int, j: int| 0 <= i < j < s.len() ==> s[i].0 != s[j].0
}

proof fn lemma_table_distinct<V>(s: Seq<(Seq<char>, (V, u64))>)
    requires
        distinct_keys(s),
    ensures
        table(s).dom().finite(),
        table(s).len() == s.len(),
        forall|j: int| 0 <= j < s.len() ==> table(s).contains_key(#[trigger] s[j].0) && table(s)[s[j].0] == s[j].1,
        forall|k: Seq<char>| table(s).contains_key(k) ==> exists|j: int| 0 <= j < s.len() && #[trigger] s[j].0 == k,
    decreases s.len(),
{
    if s.len() > 0 {
        let t = s.drop_last();
        assert(distinct_keys(t));
        lemma_table_distinct(t);
        if table(t).contains_key(s.last().0) {
            let j = choose|j: int| 0 <= j < t.len() && #[trigger] t[j].0 == s.last().0;
            assert(s[j].0 == s[s.len() - 1].0);
        }
        assert forall|k: Seq<char>| table(s).contains_key(k) implies exists|j: int| 0 <= j < s.len() && #[trigger] s[j].0 == k by {
            if k != s.last().0 {
                let j = choose|j: int| 0 <= j < t.len() && #[trigger] t[j].0 == k;
                assert(s[j].0 == k);
            } else {
                assert(s[s.len() - 1].0 == k);
            }
        }
        assert forall|j: int| 0 <= j < s.len() implies table(s).contains_key(#[trigger] s[j].0) && table(s)[s[j].0] == s[j].1 by {
            if j < s.len() - 1 {
                assert(t[j] == s[j]);
            }
        }
    }
}

/// The entries of `m` that are alive at `now`.
pub open spec fn alive_at<V>(m: Map<Seq<char>, (V, u64)>, now: u64) -> Map<Seq<char>, (V, u64)> {
    Map::new(|k: Seq<char>| m.contains_key(k) && now < m[k].1, |k: Seq<char>| m[k])
}

/// The live entries of `m` at `now`, with their remaining lifetimes.
pub open spec fn live_at<V>(m: Map<Seq<char>, (V, u64)>, now: u64) -> Map<Seq<char>, (V, u64)> {
    Map::new(|k: Seq<char>| m.contains_key(k) && now < m[k].1, |k: Seq<char>| (m[k].0, (m[k].1 - now) as u64))
}

/// The entries of a snapshot, re-anchored at `now`.
pub open spec fn reanchored<V>(m: Map<Seq<char>, (V, u64)>, now: u64) -> Map<Seq<char>, (V, u64)> {
    Map::new(|k: Seq<char>| m.contains_key(k), |k: Seq<char>| (m[k].0, (now + m[k].1) as u64))
}

/// `b` holds the entries of `a`, each value a clone, each lifetime the same.
pub open spec fn clone_maps<V: Clone>(a: Map<Seq<char>, (V, u64)>, b: Map<Seq<char>, (V, u64)>) -> bool {
    &&& a.dom() == b.dom()
    &&& forall|k: Seq<char>| #[trigger] a.contains_key(k) ==> a[k].1 == b[k].1 && cloned(a[k].0, b[k].0)
}

proof fn lemma_clone_insert<V: Clone>(
    a: Map<Seq<char>, (V, u64)>,
    b: Map<Seq<char>, (V, u64)>,
    k: Seq<char>,
    v: V,
    w: V,
    life: u64,
)
    requires
        clone_maps(a, b),
        cloned(v, w),
    ensures
        clone_maps(a.insert(k, (v, life)), b.insert(k, (w, life))),
{
    assert(a.insert(k, (v, life)).dom() =~= b.insert(k, (w, life)).dom());
}

/// The TTL rendezvous store.
pub struct Rendezvous<V> {
    entries: Vec<(String, V, u64)>,
    ttl: u64,
}

impl<V> View for Rendezvous<V> {
    type V = Map<Seq<char>, (V, u64)>;

    closed spec fn view(&self) -> Map<Seq<char>, (V, u64)> {
        table(entries_model(self.entries@))
    }
}

impl<V> Rendezvous<V> {
    #[verifier::type_invariant]
    closed spec fn inv(self) -> bool {
        distinct_keys(entries_model(self.entries@))
    }

    /// The default time to live of this store.
    pub closed spec fn ttl_spec(&self) -> u64 {
        self.ttl
    }

    /// An empty store whose entries live `ttl` ms by default.
    pub fn new(ttl: u64) -> (r: Self)
        ensures
            r@ == Map::<Seq<char>, (V, u64)>::empty(),
            r@.dom().finite(),
            r.ttl_spec() == ttl,
    {
        let r = Rendezvous { entries: Vec::new(), ttl };
        assert(entries_model(r.entries@) =~= Seq::<(Seq<char>, (V, u64))>::empty());
        r
    }

    fn find(&self, key: &str) -> (r: Option<usize>)
        ensures
            match r {
                Some(i) => i < self.entries@.len() && self@.contains_key(key@) && self@[key@] == (
                    self.entries@[i as int].1,
                    self.entries@[i as int].2,
                ),
                None => !self@.contains_key(key@),
            },
    {
        let ghost s = entries_model(self.entries@);
        let mut i = self.entries.len();
        while i > 0
            invariant
                i <= self.entries@.len(),
                s == entries_model(self.entries@),
                forall|j: int| i <= j < s.len() ==> s[j].0 != key@,
            decreases i,
        {
            if str_eq(self.entries[i - 1].0.as_str(), key) {
                proof {
                    lemma_table_lookup(s, key@, i - 1);
                }
                return Some(i - 1);
            }
            i = i - 1;
        }
        proof {
            lemma_table_lookup(s, key@, -1);
        }
        None
    }

    /// Splits off the entries kept by `keep`: those with token other than `key`
    /// (when `key` is given) or alive at `now` (when it is not). Returns the kept
    /// entries, the removed entry of `key` and the removed tokens.
    fn partition(all: Vec<(String, V, u64)>, key: Option<&str>, now: u64) -> (r: (Vec<(String, V, u64)>, Option<(V, u64)>, Vec<String>))
        requires
            distinct_keys(entries_model(all@)),
        ensures
            distinct_keys(entries_model(r.0@)),
            match key {
                Some(k) => table(entries_model(r.0@)) == table(entries_model(all@)).remove(k@)
                    && r.1 == table(entries_model(all@)).get(k@),
                None => table(entries_model(r.0@)) == alive_at(table(entries_model(all@)), now),
            },
    {
        let ghost whole = entries_model(all@);
        let ghost orig = all@;
        let n = all.len();
        let mut rest = all;
        let mut kept: Vec<(String, V, u64)> = Vec::new();
        let mut got: Option<(V, u64)> = None;
        let mut dropped: Vec<String> = Vec::new();
        let mut i: usize = 0;
        proof {
            lemma_table_distinct(whole.subrange(0, 0));
        }
        while i < n
            invariant
                n == whole.len(),
                i <= n,
                distinct_keys(whole),
                whole == entries_model(orig),
                rest@ == orig.subrange(i as int, n as int),
                distinct_keys(entries_model(kept@)),
                forall|j: int| 0 <= j < kept@.len() ==> table(whole.subrange(0, i as int)).contains_key(#[trigger] entries_model(kept@)[j].0),
                match key {
                    Some(k) => table(entries_model(kept@)) == table(whole.subrange(0, i as int)).remove(k@)
                        && got == table(whole.subrange(0, i as int)).get(k@),
                    None => table(entries_model(kept@)) == alive_at(table(whole.subrange(0, i as int)), now),
                },
            decreases n - i,
        {
            let ghost pre = whole.subrange(0, i as int);
            let ghost e = whole[i as int];
            assert(rest@[0] == orig[i as int]);
            let x = rest.remove(0);
            assert(rest@ =~= orig.subrange(i + 1, n as int));
            assert((x.0@, (x.1, x.2)) == e);
            assert(whole.subrange(0, i + 1) =~= pre.push(e));
            proof {
                lemma_table_push(pre, e);
                lemma_table_distinct(pre);
                assert(distinct_keys(pre));
                if table(pre).contains_key(e.0) {
                    let j = choose|j: int| 0 <= j < pre.len() && #[trigger] pre[j].0 == e.0;
                    assert(whole[j].0 == whole[i as int].0);
                }
            }
            let drop_it = match key {
                Some(k) => str_eq(x.0.as_str(), k),
                None => now >= x.2,
            };
            if drop_it {
                match key {
                    Some(k) => {
                        assert(table(pre).remove(k@) =~= table(pre).insert(e.0, e.1).remove(k@));
                        got = Some((x.1, x.2));
                    },
                    None => {
                        assert(alive_at(table(pre), now) =~= alive_at(table(pre).insert(e.0, e.1), now));
                    },
                }
                dropped.push(x.0);
            } else {
                let ghost before = entries_model(kept@);
                kept.push(x);
                assert(entries_model(kept@) =~= before.push(e));
                proof {
                    lemma_table_push(before, e);
                }
                match key {
                    Some(k) => {
                        assert(table(pre).remove(k@).insert(e.0, e.1) =~= table(pre).insert(e.0, e.1).remove(k@));
                    },
                    None => {
                        assert(alive_at(table(pre), now).insert(e.0, e.1) =~= alive_at(table(pre).insert(e.0, e.1), now));
                    },
                }
                assert forall|a: int, b: int| 0 <= a < b < entries_model(kept@).len() implies entries_model(kept@)[a].0 != entries_model(kept@)[b].0 by {
                    if b == entries_model(kept@).len() - 1 {
                        assert(table(pre).contains_key(before[a].0));
                    } else {
                        assert(before[a] == entries_model(kept@)[a]);
                        assert(before[b] == entries_model(kept@)[b]);
                    }
                }
                assert forall|j: int| 0 <= j < kept@.len() implies table(whole.subrange(0, i + 1)).contains_key(#[trigger] entries_model(kept@)[j].0) by {
                    if j < kept@.len() - 1 {
                        assert(before[j] == entries_model(kept@)[j]);
                    }
                }
            }
            i = i + 1;
        }
        assert(whole.subrange(0, n as int) == whole);
        (kept, got, dropped)
    }

    /// Removes the entry of `key`; returns it, if any.
    fn take(&mut self, key: &str) -> (r: Option<(V, u64)>)
        ensures
            final(self)@ == old(self)@.remove(key@),
            r == old(self)@.get(key@),
            final(self).ttl_spec() == old(self).ttl_spec(),
    {
        proof {
            use_type_invariant(&*self);
        }
        let mut all: Vec<(String, V, u64)> = Vec::new();
        std::mem::swap(&mut all, &mut self.entries);
        let (kept, got, _) = Self::partition(all, Some(key), 0);
        self.entries = kept;
        got
    }

    /// Issues `key → value`, alive for the store's default time to live.
    pub fn issue(&mut self, key: &str, value: V, now: u64)
        requires
            now + old(self).ttl_spec() <= u64::MAX,
        ensures
            final(self)@ == old(self)@.insert(key@, (value, (now + old(self).ttl_spec()) as u64)),
            final(self)@.dom().finite(),
            final(self).ttl_spec() == old(self).ttl_spec(),
    {
        let ttl = self.ttl;
        self.issue_with_ttl(key, value, ttl, now);
    }

    /// Issues `key → value`, alive for `ttl` ms from `now`.
    pub fn issue_with_ttl(&mut self, key: &str, value: V, ttl: u64, now: u64)
        requires
            now + ttl <= u64::MAX,
        ensures
            final(self)@ == old(self)@.insert(key@, (value, (now + ttl) as u64)),
            final(self)@.dom().finite(),
            final(self).ttl_spec() == old(self).ttl_spec(),
    {
        let deadline = now + ttl;
        let _ = self.take(key);
        proof {
            use_type_invariant(&*self);
        }
        let mut all: Vec<(String, V, u64)> = Vec::new();
        std::mem::swap(&mut all, &mut self.entries);
        let ghost before = entries_model(all@);
        proof {
            lemma_table_distinct(before);
        }
        all.push((key.to_owned(), value, deadline));
        assert(entries_model(all@) =~= before.push((key@, (value, deadline))));
        proof {
            lemma_table_push(before, (key@, (value, deadline)));
            assert forall|a: int, b: int| 0 <= a < b < entries_model(all@).len() implies entries_model(all@)[a].0 != entries_model(all@)[b].0 by {
                if b == before.len() {
                    assert(table(before).contains_key(before[a].0));
                } else {
                    assert(before[a] == entries_model(all@)[a]);
                    assert(before[b] == entries_model(all@)[b]);
                }
            }
        }
        self.entries = all;
        assert(old(self)@.remove(key@).insert(key@, (value, deadline)) =~= old(self)@.insert(key@, (value, deadline)));
        proof {
            use_type_invariant(&*self);
            lemma_table_distinct(entries_model(self.entries@));
        }
    }

    /// Whether an entry (alive or expired) is stored under `key`.
    pub fn holds(&self, key: &str) -> (r: bool)
        ensures
            r == self@.contains_key(key@),
    {
        self.find(key).is_some()
    }

    /// Takes and removes the value of `key`: `Some` while the entry is alive,
    /// `None` when it is missing or expired (an expired entry is dropped too).
    pub fn claim(&mut self, key: &str, now: u64) -> (r: Option<V>)
        ensures
            final(self)@ == old(self)@.remove(key@),
            final(self).ttl_spec() == old(self).ttl_spec(),
            match r {
                Some(v) => old(self)@.contains_key(key@) && now < old(self)@[key@].1 && v == old(self)@[key@].0,
                None => !old(self)@.contains_key(key@) || now >= old(self)@[key@].1,
            },
            old(self)@.dom().finite(),
            final(self)@.dom().finite(),
            final(self)@.len() == if old(self)@.contains_key(key@) {
                old(self)@.len() - 1
            } else {
                old(self)@.len() as int
            },
    {
        proof {
            use_type_invariant(&*self);
            lemma_table_distinct(entries_model(self.entries@));
            if old(self)@.contains_key(key@) {
                assert(old(self)@.dom().remove(key@).len() == old(self)@.dom().len() - 1);
            } else {
                assert(old(self)@.remove(key@) =~= old(self)@);
            }
        }
        match self.take(key) {
            Some((v, deadline)) => {
                if now < deadline {
                    Some(v)
                } else {
                    None
                }
            },
            None => None,
        }
    }

    /// Drops every expired entry; returns the tokens it dropped.
    pub fn sweep(&mut self, now: u64) -> (dropped: Vec<String>)
        ensures
            final(self)@ == alive_at(old(self)@, now),
            final(self).ttl_spec() == old(self).ttl_spec(),
    {
        proof {
            use_type_invariant(&*self);
        }
        let mut all: Vec<(String, V, u64)> = Vec::new();
        std::mem::swap(&mut all, &mut self.entries);
        let (kept, _, dropped) = Self::partition(all, None, now);
        self.entries = kept;
        dropped
    }

    /// The number of stored entries, expired ones included.
    pub fn len(&self) -> (n: usize)
        ensures
            n == self@.len(),
            self@.dom().finite(),
    {
        proof {
            use_type_invariant(self);
            lemma_table_distinct(entries_model(self.entries@));
        }
        self.entries.len()
    }

    /// Whether the store has no entries.
    pub fn is_empty(&self) -> (r: bool)
        ensures
            r == (self@.len() == 0),
    {
        self.len() == 0
    }
}

impl<V: Clone> Rendezvous<V> {
    /// Reads the value of `key` without removing it: `Some` (a clone) while the
    /// entry is alive, `None` when it is missing or expired.
    pub fn peek(&self, key: &str, now: u64) -> (r: Option<V>)
        ensures
            match r {
                Some(v) => self@.contains_key(key@) && now < self@[key@].1 && cloned(self@[key@].0, v),
                None => !self@.contains_key(key@) || now >= self@[key@].1,
            },
    {
        match self.find(key) {
            Some(i) => {
                if now < self.entries[i].2 {
                    Some(self.entries[i].1.clone())
                } else {
                    None
                }
            },
            None => None,
        }
    }
}

impl<V: Clone> Rendezvous<V> {
    /// The live entries with their remaining lifetimes in ms (values cloned).
    pub fn snapshot(&self, now: u64) -> (snap: RendezvousSnapshot<V>)
        ensures
            clone_maps(live_at(self@, now), table(entries_model(snap.entries@))),
    {
        proof {
            use_type_invariant(self);
        }
        let ghost whole = entries_model(self.entries@);
        let mut out: Vec<(String, V, u64)> = Vec::new();
        let mut i: usize = 0;
        assert(table(entries_model(out@)) =~= live_at(table(whole.subrange(0, 0)), now));
        while i < self.entries.len()
            invariant
                i <= self.entries@.len(),
                whole == entries_model(self.entries@),
                distinct_keys(whole),
                clone_maps(live_at(table(whole.subrange(0, i as int)), now), table(entries_model(out@))),
            decreases self.entries@.len() - i,
        {
            let ghost pre = whole.subrange(0, i as int);
            let ghost e = whole[i as int];
            assert(whole.subrange(0, i + 1) =~= pre.push(e));
            proof {
                lemma_table_push(pre, e);
                lemma_table_distinct(pre);
                if table(pre).contains_key(e.0) {
                    let j = choose|j: int| 0 <= j < pre.len() && #[trigger] pre[j].0 == e.0;
                    assert(whole[j].0 == whole[i as int].0);
                }
            }
            let d = self.entries[i].2;
            if now < d {
                let ghost before = entries_model(out@);
                let v = self.entries[i].1.clone();
                let x = (self.entries[i].0.clone(), v, d - now);
                out.push(x);
                assert(entries_model(out@) =~= before.push((e.0, (x.1, (d - now) as u64))));
                proof {
                    lemma_table_push(before, (e.0, (x.1, (d - now) as u64)));
                    assert(live_at(table(pre), now).insert(e.0, (e.1.0, (d - now) as u64)) =~= live_at(
                        table(pre).insert(e.0, e.1),
                        now,
                    ));
                    lemma_clone_insert(live_at(table(pre), now), table(before), e.0, e.1.0, x.1, (d - now) as u64);
                }
            } else {
                assert(live_at(table(pre), now) =~= live_at(table(pre).insert(e.0, e.1), now));
            }
            i = i + 1;
        }
        assert(whole.subrange(0, self.entries@.len() as int) == whole);
        RendezvousSnapshot { entries: out }
    }
}

impl<V> Rendezvous<V> {
    /// Replaces the whole store with a snapshot, re-anchoring each deadline at
    /// `now + remaining`.
    pub fn restore(&mut self, snap: RendezvousSnapshot<V>, now: u64)
        requires
            forall|j: int| 0 <= j < snap.entries@.len() ==> now + #[trigger] snap.entries@[j].2 <= u64::MAX,
        ensures
            final(self)@ == reanchored(table(entries_model(snap.entries@)), now),
            final(self).ttl_spec() == old(self).ttl_spec(),
    {
        let ghost orig = snap.entries@;
        let ghost src = entries_model(orig);
        let n = snap.entries.len();
        let mut entries = snap.entries;
        let mut rev: Vec<(String, V, u64)> = Vec::new();
        while entries.len() > 0
            invariant
                n == orig.len(),
                entries@.len() <= n,
                entries@ == orig.subrange(0, entries@.len() as int),
                rev@.len() == n - entries@.len(),
                forall|j: int| 0 <= j < rev@.len() ==> #[trigger] rev@[j] == orig[n - 1 - j],
            decreases entries@.len(),
        {
            let ghost before = entries@;
            match entries.pop() {
                Some(x) => {
                    assert(x == orig[before.len() - 1]);
                    rev.push(x);
                    assert(entries@ =~= orig.subrange(0, entries@.len() as int));
                },
                None => {},
            }
        }
        let mut fresh: Rendezvous<V> = Rendezvous::new(self.ttl);
        let mut i: usize = 0;
        while i < n
            invariant
                i <= n,
                n == orig.len(),
                src == entries_model(orig),
                forall|j: int| 0 <= j < orig.len() ==> now + #[trigger] orig[j].2 <= u64::MAX,
                rev@.len() == n - i,
                forall|j: int| 0 <= j < rev@.len() ==> #[trigger] rev@[j] == orig[n - 1 - j],
                fresh@ == reanchored(table(src.subrange(0, i as int)), now),
                fresh.ttl_spec() == self.ttl_spec(),
            decreases n - i,
        {
            let ghost pre = src.subrange(0, i as int);
            let ghost e = src[i as int];
            assert(src.subrange(0, i + 1) =~= pre.push(e));
            proof {
                lemma_table_push(pre, e);
            }
            match rev.pop() {
                Some(x) => {
                    assert(x == orig[i as int]);
                    let (key, value, rem) = x;
                    fresh.issue_with_ttl(key.as_str(), value, rem, now);
                },
                None => {},
            }
            assert(reanchored(table(pre), now).insert(e.0, (e.1.0, (now + e.1.1) as u64)) =~= reanchored(table(pre).insert(e.0, e.1), now));
            i = i + 1;
        }
        assert(src.subrange(0, n as int) == src);
        *self = fresh;
    }
}

/// A value issued under a token is claimed back intact before its deadline,
/// and the token is gone afterwards: a second claim finds nothing.
pub proof fn law_issue_then_claim<V>(m: Map<Seq<char>, (V, u64)>, key: Seq<char>, value: V, deadline: u64, now: u64)
    requires
        now < deadline,
    ensures
        m.insert(key, (value, deadline)).contains_key(key),
        m.insert(key, (value, deadline))[key].0 == value,
        now < m.insert(key, (value, deadline))[key].1,
        !m.insert(key, (value, deadline)).remove(key).contains_key(key),
{
}

/// Restoring a snapshot at the moment it was taken gives back exactly the live
/// entries, each with its deadline (values as the clones the snapshot holds).
pub proof fn law_snapshot_restore<V: Clone>(m: Map<Seq<char>, (V, u64)>, snap: Map<Seq<char>, (V, u64)>, now: u64)
    requires
        clone_maps(live_at(m, now), snap),
    ensures
        clone_maps(alive_at(m, now), reanchored(snap, now)),
{
    assert(alive_at(m, now).dom() =~= reanchored(snap, now).dom());
    assert forall|k: Seq<char>| #[trigger] alive_at(m, now).contains_key(k) implies alive_at(m, now)[k].1
        == reanchored(snap, now)[k].1 && cloned(alive_at(m, now)[k].0, reanchored(snap, now)[k].0) by {
        assert(live_at(m, now).contains_key(k));
    }
}

} // verus!
