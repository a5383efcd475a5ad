//! The enable table of commands and event handlers: global and per-conversation
//! overrides of a switch key, layered as plugin master switch over trigger
//! switch (a master switch that is off turns everything under it off).
//!
//! A key's default comes from its `default_enable`; a global override beats the
//! default and a per-conversation override beats both. Triggers with
//! `can_disable == false` are always on.
use vstd::prelude::*;
use crate::ids::Peer;
use crate::plugin::{metas, resolve_spec, PluginMeta, SwitchKey};
use crate::text::str_eq;
use crate::assoc::{assoc_view, lemma_assoc_lookup, lemma_assoc_push};

verus! {

/// Global overrides as plain entries.
pub open spec fn global_entries(v: Seq<(String, bool)>) -> Seq<(Seq<char>, bool)> {
    v.map_values(|e: (String, bool)| (e.0@, e.1))
}

/// Per-conversation overrides as plain entries.
pub open spec fn peer_entries(v: Seq<(String, Peer, bool)>) -> Seq<((Seq<char>, Peer), bool)> {
    v.map_values(|e: (String, Peer, bool)| ((e.0@, e.1), e.2))
}

/// What the table holds: key → global override, and (key, peer) → override.
pub struct EnabledView {
    pub global: Map<Seq<char>, bool>,
    pub per_peer: Map<(Seq<char>, Peer), bool>,
}

/// A serialisable snapshot of every override.
pub struct EnabledOverrides {
    pub global: Vec<(String, bool)>,
    pub per_peer: Vec<(String, Peer, bool)>,
}

/// The overrides a snapshot holds (later entries win).
pub open spec fn overrides_view(ov: EnabledOverrides) -> EnabledView {
    EnabledView {
        global: assoc_view(global_entries(ov.global@)),
        per_peer: assoc_view(peer_entries(ov.per_peer@)),
    }
}

/// The command enable table.
pub struct EnabledSet {
    global: Vec<(String, bool)>,
    per_peer: Vec<(String, Peer, bool)>,
}

impl View for EnabledSet {
    type V = EnabledView;

    closed spec fn view(&self) -> EnabledView {
        EnabledView {
            global: assoc_view(global_entries(self.global@)),
            per_peer: assoc_view(peer_entries(self.per_peer@)),
        }
    }
}

/// Resolves `key` in scope `peer`: the per-conversation override, else the
/// global override, else `default`.
pub open spec fn key_on_spec(t: EnabledView, key: Seq<char>, default: bool, peer: Option<Peer>) -> bool {
    if peer is Some && t.per_peer.contains_key((key, peer->0)) {
        t.per_peer[(key, peer->0)]
    } else if t.global.contains_key(key) {
        t.global[key]
    } else {
        default
    }
}

/// The layered decision for a trigger: exempt triggers are on; a switchable
/// plugin whose master switch is off turns the trigger off; otherwise the
/// trigger's own switch decides.
pub open spec fn keyed_spec(
    t: EnabledView,
    plugin_key: Seq<char>,
    trigger_key: Seq<char>,
    plugin_default: bool,
    plugin_can_disable: bool,
    trigger_default: bool,
    trigger_can_disable: bool,
    peer: Option<Peer>,
) -> bool {
    if !trigger_can_disable {
        true
    } else if plugin_can_disable && !key_on_spec(t, plugin_key, plugin_default, peer) {
        false
    } else {
        key_on_spec(t, trigger_key, trigger_default, peer)
    }
}

fn copy_global(v: &Vec<(String, bool)>) -> (out: Vec<(String, bool)>)
    ensures
        global_entries(out@) == global_entries(v@),
{
    let mut out: Vec<(String, bool)> = Vec::new();
    let mut i: usize = 0;
    while i < v.len()
        invariant
            i <= v@.len(),
            global_entries(out@) == global_entries(v@.subrange(0, i as int)),
        decreases v@.len() - i,
    {
        let ghost before = out@;
        let e = (v[i].0.clone(), v[i].1);
        out.push(e);
        assert(global_entries(out@) =~= global_entries(before).push((e.0@, e.1)));
        assert(global_entries(v@.subrange(0, i + 1)) =~= global_entries(
            v@.subrange(0, i as int),
        ).push((v@[i as int].0@, v@[i as int].1)));
        i = i + 1;
    }
    assert(v@.subrange(0, v@.len() as int) == v@);
    out
}

fn copy_peer(v: &Vec<(String, Peer, bool)>) -> (out: Vec<(String, Peer, bool)>)
    ensures
        peer_entries(out@) == peer_entries(v@),
{
    let mut out: Vec<(String, Peer, bool)> = Vec::new();
    let mut i: usize = 0;
    while i < v.len()
        invariant
            i <= v@.len(),
            peer_entries(out@) == peer_entries(v@.subrange(0, i as int)),
        decreases v@.len() - i,
    {
        let ghost before = out@;
        let e = (v[i].0.clone(), v[i].1, v[i].2);
        out.push(e);
        assert(peer_entries(out@) =~= peer_entries(before).push(((e.0@, e.1), e.2)));
        assert(peer_entries(v@.subrange(0, i + 1)) =~= peer_entries(
            v@.subrange(0, i as int),
        ).push(((v@[i as int].0@, v@[i as int].1), v@[i as int].2)));
        i = i + 1;
    }
    assert(v@.subrange(0, v@.len() as int) == v@);
    out
}

/// `v` without the entries for `key`.
fn without_global(v: &Vec<(String, bool)>, key: &str) -> (out: Vec<(String, bool)>)
    ensures
        assoc_view(global_entries(out@)) == assoc_view(global_entries(v@)).remove(key@),
{
    let mut out: Vec<(String, bool)> = Vec::new();
    let mut i: usize = 0;
    while i < v.len()
        invariant
            i <= v@.len(),
            assoc_view(global_entries(out@)) == assoc_view(
                global_entries(v@.subrange(0, i as int)),
            ).remove(key@),
        decreases v@.len() - i,
    {
        let ghost pre = global_entries(v@.subrange(0, i as int));
        let ghost e = (v@[i as int].0@, v@[i as int].1);
        assert(global_entries(v@.subrange(0, i + 1)) =~= pre.push(e));
        proof {
            lemma_assoc_push(pre, e);
        }
        if !str_eq(v[i].0.as_str(), key) {
            let ghost before = out@;
            let x = (v[i].0.clone(), v[i].1);
            out.push(x);
            assert(global_entries(out@) =~= global_entries(before).push(e));
            proof {
                lemma_assoc_push(global_entries(before), e);
            }
            assert(assoc_view(pre).remove(key@).insert(e.0, e.1) =~= assoc_view(pre).insert(
                e.0,
                e.1,
            ).remove(key@));
        } else {
            assert(assoc_view(pre).remove(key@) =~= assoc_view(pre).insert(e.0, e.1).remove(
                key@,
            ));
        }
        i = i + 1;
    }
    assert(v@.subrange(0, v@.len() as int) == v@);
    out
}

/// `v` without the entries for `(key, peer)`.
fn without_peer(v: &Vec<(String, Peer, bool)>, key: &str, peer: Peer) -> (out: Vec<
    (String, Peer, bool),
>)
    ensures
        assoc_view(peer_entries(out@)) == assoc_view(peer_entries(v@)).remove((key@, peer)),
{
    let mut out: Vec<(String, Peer, bool)> = Vec::new();
    let mut i: usize = 0;
    let ghost k = (key@, peer);
    while i < v.len()
        invariant
            i <= v@.len(),
            k == (key@, peer),
            assoc_view(peer_entries(out@)) == assoc_view(
                peer_entries(v@.subrange(0, i as int)),
            ).remove(k),
        decreases v@.len() - i,
    {
        let ghost pre = peer_entries(v@.subrange(0, i as int));
        let ghost e = ((v@[i as int].0@, v@[i as int].1), v@[i as int].2);
        assert(peer_entries(v@.subrange(0, i + 1)) =~= pre.push(e));
        proof {
            lemma_assoc_push(pre, e);
        }
        if !(str_eq(v[i].0.as_str(), key) && v[i].1 == peer) {
            let ghost before = out@;
            let x = (v[i].0.clone(), v[i].1, v[i].2);
            out.push(x);
            assert(peer_entries(out@) =~= peer_entries(before).push(e));
            proof {
                lemma_assoc_push(peer_entries(before), e);
            }
            assert(assoc_view(pre).remove(k).insert(e.0, e.1) =~= assoc_view(pre).insert(
                e.0,
                e.1,
            ).remove(k));
        } else {
            assert(assoc_view(pre).remove(k) =~= assoc_view(pre).insert(e.0, e.1).remove(k));
        }
        i = i + 1;
    }
    assert(v@.subrange(0, v@.len() as int) == v@);
    out
}

impl EnabledSet {
    /// An empty table: no overrides.
    pub fn new() -> (s: Self)
        ensures
            s@.global == Map::<Seq<char>, bool>::empty(),
            s@.per_peer == Map::<(Seq<char>, Peer), bool>::empty(),
    {
        let s = EnabledSet { global: Vec::new(), per_peer: Vec::new() };
        assert(global_entries(s.global@) =~= Seq::<(Seq<char>, bool)>::empty());
        assert(peer_entries(s.per_peer@) =~= Seq::<((Seq<char>, Peer), bool)>::empty());
        s
    }

    /// Sets the override of the resolved key `name`: global for `peer == None`,
    /// for that conversation otherwise.
    pub fn set_key(&mut self, name: &str, peer: Option<Peer>, enabled: bool)
        ensures
            match peer {
                None => final(self)@.global == old(self)@.global.insert(name@, enabled)
                    && final(self)@.per_peer == old(self)@.per_peer,
                Some(p) => final(self)@.per_peer == old(self)@.per_peer.insert((name@, p), enabled)
                    && final(self)@.global == old(self)@.global,
            },
    {
        match peer {
            None => {
                let mut g = without_global(&self.global, name);
                let ghost before = g@;
                let x = (name.to_owned(), enabled);
                g.push(x);
                assert(global_entries(g@) =~= global_entries(before).push((name@, enabled)));
                proof {
                    lemma_assoc_push(global_entries(before), (name@, enabled));
                }
                assert(old(self)@.global.remove(name@).insert(name@, enabled) =~= old(
                    self,
                )@.global.insert(name@, enabled));
                self.global = g;
            },
            Some(p) => {
                let mut g = without_peer(&self.per_peer, name, p);
                let ghost before = g@;
                let x = (name.to_owned(), p, enabled);
                g.push(x);
                assert(peer_entries(g@) =~= peer_entries(before).push(((name@, p), enabled)));
                proof {
                    lemma_assoc_push(peer_entries(before), ((name@, p), enabled));
                }
                assert(old(self)@.per_peer.remove((name@, p)).insert((name@, p), enabled) =~= old(
                    self,
                )@.per_peer.insert((name@, p), enabled));
                self.per_peer = g;
            },
        }
    }

    /// Sets the override of `key` (resolved against the plugin list) and returns
    /// the resolved key, for the change notification.
    pub fn set(&mut self, key: &SwitchKey, plugins: &[PluginMeta], peer: Option<Peer>, enabled: bool) -> (name: String)
        ensures
            name@ == resolve_spec(*key, metas(plugins@)),
            match peer {
                None => final(self)@.global == old(self)@.global.insert(name@, enabled)
                    && final(self)@.per_peer == old(self)@.per_peer,
                Some(p) => final(self)@.per_peer == old(self)@.per_peer.insert((name@, p), enabled)
                    && final(self)@.global == old(self)@.global,
            },
    {
        let name = key.resolve(plugins);
        self.set_key(name.as_str(), peer, enabled);
        name
    }

    /// Clears the override of the resolved key `name` (global for `None`, that
    /// conversation's for `Some`), falling back to the layer beneath.
    pub fn reset_key(&mut self, name: &str, peer: Option<Peer>)
        ensures
            match peer {
                None => final(self)@.global == old(self)@.global.remove(name@)
                    && final(self)@.per_peer == old(self)@.per_peer,
                Some(p) => final(self)@.per_peer == old(self)@.per_peer.remove((name@, p))
                    && final(self)@.global == old(self)@.global,
            },
    {
        match peer {
            None => {
                self.global = without_global(&self.global, name);
            },
            Some(p) => {
                self.per_peer = without_peer(&self.per_peer, name, p);
            },
        }
    }

    /// Clears the override of `key` (resolved against the plugin list).
    pub fn reset(&mut self, key: &SwitchKey, plugins: &[PluginMeta], peer: Option<Peer>)
        ensures
            match peer {
                None => final(self)@.global == old(self)@.global.remove(
                    resolve_spec(*key, metas(plugins@)),
                ) && final(self)@.per_peer == old(self)@.per_peer,
                Some(p) => final(self)@.per_peer == old(self)@.per_peer.remove(
                    (resolve_spec(*key, metas(plugins@)), p),
                ) && final(self)@.global == old(self)@.global,
            },
    {
        let name = key.resolve(plugins);
        self.reset_key(name.as_str(), peer);
    }

    fn global_get(&self, key: &str) -> (r: Option<bool>)
        ensures
            r == self@.global.get(key@),
    {
        let ghost s = global_entries(self.global@);
        let mut i = self.global.len();
        while i > 0
            invariant
                i <= self.global@.len(),
                s == global_entries(self.global@),
                forall|j: int| i <= j < s.len() ==> s[j].0 != key@,
            decreases i,
        {
            if str_eq(self.global[i - 1].0.as_str(), key) {
                proof {
                    lemma_assoc_lookup(s, key@, i - 1);
                }
                return Some(self.global[i - 1].1);
            }
            i = i - 1;
        }
        proof {
            lemma_assoc_lookup(s, key@, -1);
        }
        None
    }

    fn peer_get(&self, key: &str, peer: Peer) -> (r: Option<bool>)
        ensures
            r == self@.per_peer.get((key@, peer)),
    {
        let ghost s = peer_entries(self.per_peer@);
        let mut i = self.per_peer.len();
        while i > 0
            invariant
                i <= self.per_peer@.len(),
                s == peer_entries(self.per_peer@),
                forall|j: int| i <= j < s.len() ==> s[j].0 != (key@, peer),
            decreases i,
        {
            if str_eq(self.per_peer[i - 1].0.as_str(), key) && self.per_peer[i - 1].1 == peer {
                proof {
                    lemma_assoc_lookup(s, (key@, peer), i - 1);
                }
                return Some(self.per_peer[i - 1].2);
            }
            i = i - 1;
        }
        proof {
            lemma_assoc_lookup(s, (key@, peer), -1);
        }
        None
    }

    /// Resolves `key` in scope `peer`: per-conversation override > global override > `default`.
    pub fn key_on(&self, key: &str, default: bool, peer: Option<Peer>) -> (r: bool)
        ensures
            r == key_on_spec(self@, key@, default, peer),
    {
        if let Some(p) = peer {
            if let Some(v) = self.peer_get(key, p) {
                return v;
            }
        }
        if let Some(v) = self.global_get(key) {
            return v;
        }
        default
    }

    /// The layered decision for a trigger (see [`keyed_spec`]).
    pub fn is_enabled_keyed(
        &self,
        plugin_key: &str,
        trigger_key: &str,
        plugin_default: bool,
        plugin_can_disable: bool,
        trigger_default: bool,
        trigger_can_disable: bool,
        peer: Option<Peer>,
    ) -> (r: bool)
        ensures
            r == keyed_spec(
                self@,
                plugin_key@,
                trigger_key@,
                plugin_default,
                plugin_can_disable,
                trigger_default,
                trigger_can_disable,
                peer,
            ),
    {
        if !trigger_can_disable {
            return true;
        }
        if plugin_can_disable && !self.key_on(plugin_key, plugin_default, peer) {
            return false;
        }
        self.key_on(trigger_key, trigger_default, peer)
    }

    /// A single-key query, for switches with no plugin layer.
    pub fn is_enabled(&self, name: &str, default_enable: bool, peer: Option<Peer>) -> (r: bool)
        ensures
            r == key_on_spec(self@, name@, default_enable, peer),
    {
        self.key_on(name, default_enable, peer)
    }

    /// Every override, as a serialisable snapshot.
    pub fn snapshot(&self) -> (ov: EnabledOverrides)
        ensures
            overrides_view(ov) == self@,
    {
        EnabledOverrides { global: copy_global(&self.global), per_peer: copy_peer(&self.per_peer) }
    }

    /// Replaces every override with those of a snapshot.
    pub fn restore(&mut self, ov: EnabledOverrides)
        ensures
            final(self)@ == overrides_view(ov),
    {
        self.global = ov.global;
        self.per_peer = ov.per_peer;
    }
}

/// After a key is set in a scope, reading it in that scope gives the value set,
/// whatever the default.
pub proof fn law_set_then_read(t: EnabledView, key: Seq<char>, peer: Option<Peer>, v: bool, default: bool)
    ensures
        key_on_spec(
            match peer {
                None => EnabledView { global: t.global.insert(key, v), per_peer: t.per_peer },
                Some(p) => EnabledView { global: t.global, per_peer: t.per_peer.insert((key, p), v) },
            },
            key,
            default,
            peer,
        ) == v,
{
}

/// A key with no override anywhere reads as its default; clearing the global
/// override of a key with no conversation override brings back the default.
pub proof fn law_reset_restores_default(t: EnabledView, key: Seq<char>, default: bool)
    ensures
        key_on_spec(
            EnabledView { global: t.global.remove(key), per_peer: t.per_peer },
            key,
            default,
            None,
        ) == default,
{
}

/// A conversation override beats the global override.
pub proof fn law_peer_beats_global(t: EnabledView, key: Seq<char>, p: Peer, default: bool)
    requires
        t.per_peer.contains_key((key, p)),
    ensures
        key_on_spec(t, key, default, Some(p)) == t.per_peer[(key, p)],
{
}

/// A trigger that cannot be disabled is on, whatever the table says.
pub proof fn law_exempt_always_on(
    t: EnabledView,
    plugin_key: Seq<char>,
    trigger_key: Seq<char>,
    plugin_default: bool,
    plugin_can_disable: bool,
    trigger_default: bool,
    peer: Option<Peer>,
)
    ensures
        keyed_spec(t, plugin_key, trigger_key, plugin_default, plugin_can_disable, trigger_default, false, peer),
{
}

/// A switchable plugin whose master switch is off turns off every switchable
/// trigger under it, whatever the trigger's own switch says.
pub proof fn law_master_switch_off(
    t: EnabledView,
    plugin_key: Seq<char>,
    trigger_key: Seq<char>,
    plugin_default: bool,
    trigger_default: bool,
    peer: Option<Peer>,
)
    requires
        !key_on_spec(t, plugin_key, plugin_default, peer),
    ensures
        !keyed_spec(t, plugin_key, trigger_key, plugin_default, true, trigger_default, true, peer),
{
}

/// A switchable trigger under a plugin that is not switched off (or cannot
/// be switched off) is decided by its own switch alone: its override for the
/// conversation, else its global override, else its default.
pub proof fn law_trigger_switch_decides(
    t: EnabledView,
    plugin_key: Seq<char>,
    trigger_key: Seq<char>,
    plugin_default: bool,
    plugin_can_disable: bool,
    trigger_default: bool,
    peer: Option<Peer>,
)
    requires
        !plugin_can_disable || key_on_spec(t, plugin_key, plugin_default, peer),
    ensures
        keyed_spec(t, plugin_key, trigger_key, plugin_default, plugin_can_disable, trigger_default, true, peer)
            == key_on_spec(t, trigger_key, trigger_default, peer),
        keyed_spec(t, plugin_key, trigger_key, plugin_default, plugin_can_disable, trigger_default, true, peer) == if peer
            is Some && t.per_peer.contains_key((trigger_key, peer->0)) {
            t.per_peer[(trigger_key, peer->0)]
        } else if t.global.contains_key(trigger_key) {
            t.global[trigger_key]
        } else {
            trigger_default
        },
{
}

/// Restoring a snapshot gives back the overrides that were snapshotted.
pub proof fn law_snapshot_restore(before: EnabledView, ov: EnabledOverrides, after: EnabledView)
    requires
        overrides_view(ov) == before,
        after == overrides_view(ov),
    ensures
        after == before,
{
}

} // verus!
