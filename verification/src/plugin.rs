//! The static plugin model: a plugin per file or folder, and triggers (commands
//! and event handlers) that belong to the plugin whose module path is the
//! longest module-path prefix of the trigger's own module path.
//!
//! The registry of declared plugins and triggers is collected at link time by the
//! caller; every function here takes that list as an argument.
use vstd::prelude::*;
use crate::event_trigger::EventKind;
use crate::text::{push_char, str_eq};

verus! {

/// Plugin category.
#[derive(Clone, Copy, PartialEq, Eq, Debug, Structural)]
pub enum Category {
    Core,
    User,
    Tool,
    Fun,
    Push,
    Admin,
}

/// Plugin metadata and the policy of its master switch.
pub struct PluginMeta {
    pub key: String,
    pub name: String,
    pub category: Category,
    pub version: String,
    pub description: String,
    /// Detailed usage for help menus; empty means none.
    pub usage: String,
    /// Whether the master switch can be turned off at all.
    pub can_disable: bool,
    /// Whether the plugin is on before any override.
    pub default_enable: bool,
    /// Left out of generated menus.
    pub hidden: bool,
    /// Once disabled, it may not be enabled again (checked by admin commands).
    pub maintain: bool,
    pub mod_path: String,
}

/// The mathematical content of a [`PluginMeta`].
pub struct PluginMetaView {
    pub key: Seq<char>,
    pub name: Seq<char>,
    pub category: Category,
    pub version: Seq<char>,
    pub description: Seq<char>,
    pub usage: Seq<char>,
    pub can_disable: bool,
    pub default_enable: bool,
    pub hidden: bool,
    pub maintain: bool,
    pub mod_path: Seq<char>,
}

impl View for PluginMeta {
    type V = PluginMetaView;

    open spec fn view(&self) -> PluginMetaView {
        PluginMetaView {
            key: self.key@,
            name: self.name@,
            category: self.category,
            version: self.version@,
            description: self.description@,
            usage: self.usage@,
            can_disable: self.can_disable,
            default_enable: self.default_enable,
            hidden: self.hidden,
            maintain: self.maintain,
            mod_path: self.mod_path@,
        }
    }
}

impl PluginMeta {
    /// The field defaults of an implicit plugin: empty key (filled in from the
    /// module path when linking), `User` category, switchable, on by default,
    /// shown, not locked.
    pub fn default_meta() -> (m: PluginMeta)
        ensures
            m@ == (PluginMetaView {
                key: Seq::empty(),
                name: Seq::empty(),
                category: Category::User,
                version: Seq::empty(),
                description: Seq::empty(),
                usage: Seq::empty(),
                can_disable: true,
                default_enable: true,
                hidden: false,
                maintain: false,
                mod_path: Seq::empty(),
            }),
    {
        PluginMeta {
            key: String::new(),
            name: String::new(),
            category: Category::User,
            version: String::new(),
            description: String::new(),
            usage: String::new(),
            can_disable: true,
            default_enable: true,
            hidden: false,
            maintain: false,
            mod_path: String::new(),
        }
    }

    /// A field-by-field copy.
    pub fn duplicate(&self) -> (m: PluginMeta)
        ensures
            m@ == self@,
    {
        PluginMeta {
            key: self.key.clone(),
            name: self.name.clone(),
            category: self.category,
            version: self.version.clone(),
            description: self.description.clone(),
            usage: self.usage.clone(),
            can_disable: self.can_disable,
            default_enable: self.default_enable,
            hidden: self.hidden,
            maintain: self.maintain,
            mod_path: self.mod_path.clone(),
        }
    }
}

/// Whether a trigger fires on a command match or on an event.
#[derive(Clone, Copy, Debug, PartialEq, Eq, Structural)]
pub enum TriggerKind {
    Command,
    Event(EventKind),
}

/// Trigger metadata (a command or an event handler). Once linked,
/// `key == "<plugin_key>.<id>"`.
pub struct TriggerMeta {
    pub id: String,
    pub key: String,
    pub plugin_key: String,
    pub name: String,
    pub description: String,
    pub usage: String,
    /// The literal command words: the main word first, then aliases.
    pub words: Vec<String>,
    /// Display order within its plugin in help output (smaller first).
    pub order: i32,
    pub can_disable: bool,
    pub default_enable: bool,
    pub hidden: bool,
    pub kind: TriggerKind,
    pub mod_path: String,
}

/// The mathematical content of a [`TriggerMeta`].
pub struct TriggerMetaView {
    pub id: Seq<char>,
    pub key: Seq<char>,
    pub plugin_key: Seq<char>,
    pub name: Seq<char>,
    pub description: Seq<char>,
    pub usage: Seq<char>,
    pub words: Seq<Seq<char>>,
    pub order: i32,
    pub can_disable: bool,
    pub default_enable: bool,
    pub hidden: bool,
    pub kind: TriggerKind,
    pub mod_path: Seq<char>,
}

impl View for TriggerMeta {
    type V = TriggerMetaView;

    open spec fn view(&self) -> TriggerMetaView {
        TriggerMetaView {
            id: self.id@,
            key: self.key@,
            plugin_key: self.plugin_key@,
            name: self.name@,
            description: self.description@,
            usage: self.usage@,
            words: self.words@.map_values(|w: String| w@),
            order: self.order,
            can_disable: self.can_disable,
            default_enable: self.default_enable,
            hidden: self.hidden,
            kind: self.kind,
            mod_path: self.mod_path@,
        }
    }
}

fn clone_words(words: &Vec<String>) -> (out: Vec<String>)
    ensures
        out@.map_values(|w: String| w@) == words@.map_values(|w: String| w@),
{
    let mut out: Vec<String> = Vec::new();
    let mut i: usize = 0;
    while i < words.len()
        invariant
            i <= words@.len(),
            out@.map_values(|w: String| w@) == words@.subrange(0, i as int).map_values(
                |w: String| w@,
            ),
        decreases words@.len() - i,
    {
        let ghost before = out@;
        let w = words[i].clone();
        out.push(w);
        assert(out@ == before.push(w));
        assert(out@.map_values(|w: String| w@) =~= before.map_values(|w: String| w@).push(w@));
        assert(words@.subrange(0, i + 1) == words@.subrange(0, i as int).push(words@[i as int]));
        assert(words@.subrange(0, i + 1).map_values(|w: String| w@) =~= words@.subrange(
            0,
            i as int,
        ).map_values(|w: String| w@).push(words@[i as int]@));
        i = i + 1;
    }
    assert(words@.subrange(0, words@.len() as int) == words@);
    out
}

/// One declared plugin.
pub struct PluginSpec {
    pub meta: PluginMeta,
}

/// `s` holds the separator `::` at positions `k` and `k + 1`.
pub open spec fn sep_at(s: Seq<char>, k: int) -> bool {
    0 <= k && k + 1 < s.len() && s[k] == ':' && s[k + 1] == ':'
}

/// `prefix` equals `path` or names one of its ancestor modules (the boundary is
/// `::`, so `a::horse` is not a prefix of `a::horseshoe`).
pub open spec fn module_prefix(prefix: Seq<char>, path: Seq<char>) -> bool {
    path == prefix || (prefix.len() <= path.len() && path.subrange(0, prefix.len() as int)
        == prefix && sep_at(path, prefix.len() as int))
}

/// `i` is the plugin a trigger at `path` links to: its module path is a module
/// prefix of `path`, no other such path is longer, and none after it is as long
/// (of equally long ones the last wins).
pub open spec fn best_link(path: Seq<char>, plugins: Seq<PluginMetaView>, i: int) -> bool {
    &&& 0 <= i < plugins.len()
    &&& module_prefix(plugins[i].mod_path, path)
    &&& forall|j: int|
        0 <= j < plugins.len() && module_prefix(plugins[j].mod_path, path) ==> (
        plugins[j].mod_path.len() <= plugins[i].mod_path.len())
    &&& forall|j: int|
        i < j < plugins.len() && module_prefix(plugins[j].mod_path, path) ==> (
        plugins[j].mod_path.len() < plugins[i].mod_path.len())
}

/// No plugin's module path is a module prefix of `path`.
pub open spec fn no_link(path: Seq<char>, plugins: Seq<PluginMetaView>) -> bool {
    forall|j: int| 0 <= j < plugins.len() ==> !module_prefix(plugins[j].mod_path, path)
}

/// The views of a list of plugins.
pub open spec fn metas(plugins: Seq<PluginMeta>) -> Seq<PluginMetaView> {
    plugins.map_values(|p: PluginMeta| p@)
}

/// Whether `prefix` is `path` or an ancestor module of it.
pub fn is_module_prefix(prefix: &str, path: &str) -> (r: bool)
    ensures
        r == module_prefix(prefix@, path@),
{
    if str_eq(prefix, path) {
        return true;
    }
    let m = prefix.unicode_len();
    let n = path.unicode_len();
    if n < 2 || m > n - 2 {
        return false;
    }
    let mut i: usize = 0;
    while i < m
        invariant
            m == prefix@.len(),
            n == path@.len(),
            m + 2 <= n,
            i <= m,
            forall|k: int| 0 <= k < i ==> path@[k] == prefix@[k],
        decreases m - i,
    {
        if path.get_char(i) != prefix.get_char(i) {
            assert(path@.subrange(0, m as int)[i as int] != prefix@[i as int]);
            return false;
        }
        i = i + 1;
    }
    assert(path@.subrange(0, m as int) == prefix@);
    path.get_char(m) == ':' && path.get_char(m + 1) == ':'
}

/// The index of the plugin a trigger at `trigger_path` links to.
pub fn link_index(trigger_path: &str, plugins: &[PluginMeta]) -> (r: Option<usize>)
    ensures
        match r {
            Some(i) => best_link(trigger_path@, metas(plugins@), i as int),
            None => no_link(trigger_path@, metas(plugins@)),
        },
{
    let ghost ps = metas(plugins@);
    let mut best: Option<usize> = None;
    let mut best_len: usize = 0;
    let mut i: usize = 0;
    while i < plugins.len()
        invariant
            ps == metas(plugins@),
            i <= plugins@.len(),
            match best {
                Some(b) => {
                    &&& b < i
                    &&& module_prefix(ps[b as int].mod_path, trigger_path@)
                    &&& best_len == ps[b as int].mod_path.len()
                    &&& forall|j: int|
                        0 <= j < i && module_prefix(ps[j].mod_path, trigger_path@) ==> (
                        ps[j].mod_path.len() <= best_len)
                    &&& forall|j: int|
                        b < j < i && module_prefix(ps[j].mod_path, trigger_path@) ==> (
                        ps[j].mod_path.len() < best_len)
                },
                None => forall|j: int|
                    0 <= j < i ==> !module_prefix(ps[j].mod_path, trigger_path@),
            },
        decreases plugins@.len() - i,
    {
        assert(ps[i as int] == plugins@[i as int]@);
        if is_module_prefix(plugins[i].mod_path.as_str(), trigger_path) {
            let len = plugins[i].mod_path.as_str().unicode_len();
            match best {
                Some(_) => {
                    if len >= best_len {
                        best = Some(i);
                        best_len = len;
                    }
                },
                None => {
                    best = Some(i);
                    best_len = len;
                },
            }
        }
        i = i + 1;
    }
    best
}

/// The plugin a trigger at `trigger_path` links to: of the plugins whose module
/// path is a module prefix of it, the one with the longest path.
pub fn link_trigger<'a>(trigger_path: &str, plugins: &'a [PluginMeta]) -> (r: Option<
    &'a PluginMeta,
>)
    ensures
        match r {
            Some(p) => exists|i: int|
                best_link(trigger_path@, metas(plugins@), i) && p@ == metas(plugins@)[i],
            None => no_link(trigger_path@, metas(plugins@)),
        },
{
    match link_index(trigger_path, plugins) {
        Some(i) => {
            assert(metas(plugins@)[i as int] == plugins@[i as int]@);
            Some(&plugins[i])
        },
        None => None,
    }
}

/// The position of the last `::` in `s`.
pub open spec fn last_sep(s: Seq<char>) -> int {
    choose|k: int| sep_at(s, k) && forall|j: int| k < j ==> !sep_at(s, j)
}

/// The last `::`-separated segment of a module path (the whole path if it has
/// no separator).
pub open spec fn last_segment_spec(s: Seq<char>) -> Seq<char> {
    if exists|k: int| sep_at(s, k) {
        s.subrange(last_sep(s) + 2, s.len() as int)
    } else {
        s
    }
}

/// The last `::`-separated segment of `mod_path`.
pub fn last_segment(mod_path: &str) -> (r: String)
    ensures
        r@ == last_segment_spec(mod_path@),
{
    let n = mod_path.unicode_len();
    let mut k: usize = n;
    // Scan for the last separator, from the end.
    while k >= 2
        invariant
            n == mod_path@.len(),
            k <= n,
            forall|j: int| k - 1 <= j ==> !sep_at(mod_path@, j),
        decreases k,
    {
        if mod_path.get_char(k - 2) == ':' && mod_path.get_char(k - 1) == ':' {
            let ghost s = mod_path@;
            let ghost at = k - 2;
            assert(sep_at(s, at));
            assert(sep_at(s, last_sep(s)));
            assert(at == last_sep(s)) by {
                if last_sep(s) < at {
                    assert(!sep_at(s, at));
                }
                if at < last_sep(s) {
                    assert(!sep_at(s, last_sep(s)));
                }
            }
            return mod_path.substring_char(k, n).to_owned();
        }
        k = k - 1;
    }
    assert(forall|j: int| !sep_at(mod_path@, j));
    mod_path.to_owned()
}

/// `m` with an empty key filled in from the last segment of its module path.
pub open spec fn resolved_meta(m: PluginMetaView) -> PluginMetaView {
    if m.key.len() == 0 {
        PluginMetaView { key: last_segment_spec(m.mod_path), ..m }
    } else {
        m
    }
}

/// The declared plugins with every empty key filled in from the last segment of
/// its module path, so that implicit plugins still resolve to a stable key.
pub fn registered_plugins_resolved(registered: &[PluginMeta]) -> (out: Vec<PluginMeta>)
    ensures
        out@.len() == registered@.len(),
        forall|i: int| 0 <= i < out@.len() ==> #[trigger] out@[i]@ == resolved_meta(registered@[i]@),
{
    let mut out: Vec<PluginMeta> = Vec::new();
    let mut i: usize = 0;
    while i < registered.len()
        invariant
            i <= registered@.len(),
            out@.len() == i,
            forall|j: int| 0 <= j < i ==> #[trigger] out@[j]@ == resolved_meta(registered@[j]@),
        decreases registered@.len() - i,
    {
        let mut m = registered[i].duplicate();
        if m.key.as_str().unicode_len() == 0 {
            m.key = last_segment(m.mod_path.as_str());
        }
        out.push(m);
        i = i + 1;
    }
    out
}

/// The plugin key and switch policy `(key, default_enable, can_disable)` that
/// govern a trigger at `mod_path`: those of the plugin linked to it (a plugin
/// declared without a key is keyed by the last segment of its module path);
/// with no plugin above it, an implicit always-present plugin keyed by the
/// module path.
pub open spec fn plugin_for_spec(path: Seq<char>, plugins: Seq<PluginMetaView>) -> (Seq<char>, bool, bool) {
    if no_link(path, plugins) {
        (path, true, true)
    } else {
        let i = choose|i: int| best_link(path, plugins, i);
        (resolved_meta(plugins[i]).key, plugins[i].default_enable, plugins[i].can_disable)
    }
}

proof fn lemma_best_link_unique(path: Seq<char>, plugins: Seq<PluginMetaView>, i: int, j: int)
    requires
        best_link(path, plugins, i),
        best_link(path, plugins, j),
    ensures
        i == j,
{
}

proof fn lemma_plugin_for(path: Seq<char>, plugins: Seq<PluginMetaView>, i: int)
    requires
        best_link(path, plugins, i),
    ensures
        plugin_for_spec(path, plugins) == (
            resolved_meta(plugins[i]).key,
            plugins[i].default_enable,
            plugins[i].can_disable,
        ),
{
    let c = choose|c: int| best_link(path, plugins, c);
    lemma_best_link_unique(path, plugins, i, c);
}

/// Resolves the plugin `(key, default_enable, can_disable)` of a trigger at `mod_path`.
pub fn resolve_plugin_for(mod_path: &str, plugins: &[PluginMeta]) -> (r: (String, bool, bool))
    ensures
        (r.0@, r.1, r.2) == plugin_for_spec(mod_path@, metas(plugins@)),
{
    match link_index(mod_path, plugins) {
        Some(i) => {
            proof {
                lemma_plugin_for(mod_path@, metas(plugins@), i as int);
            }
            assert(metas(plugins@)[i as int] == plugins@[i as int]@);
            let p = &plugins[i];
            let key = if p.key.as_str().unicode_len() == 0 {
                last_segment(p.mod_path.as_str())
            } else {
                p.key.clone()
            };
            (key, p.default_enable, p.can_disable)
        },
        None => (mod_path.to_owned(), true, true),
    }
}

/// The dotted switch key `"<plugin_key>.<id>"`.
pub open spec fn trigger_key_spec(plugin_key: Seq<char>, id: Seq<char>) -> Seq<char> {
    plugin_key + seq!['.'] + id
}

/// Builds the switch key `"<plugin_key>.<id>"` of a trigger.
pub fn trigger_key(plugin_key: &str, id: &str) -> (r: String)
    ensures
        r@ == trigger_key_spec(plugin_key@, id@),
{
    let mut s = plugin_key.to_owned();
    push_char(&mut s, '.');
    s.append(id);
    s
}

/// A typed handle on a switch key, accepted by the enable table.
pub enum SwitchKey {
    /// A key given as is: a plugin master switch, or any literal string.
    Literal(String),
    /// The trigger `id` declared at `mod_path`; resolves to `"<plugin_key>.<id>"`.
    Trigger { mod_path: String, id: String },
}

/// The switch key that `k` names, given the resolved plugin list.
pub open spec fn resolve_spec(k: SwitchKey, plugins: Seq<PluginMetaView>) -> Seq<char> {
    match k {
        SwitchKey::Literal(s) => s@,
        SwitchKey::Trigger { mod_path, id } => trigger_key_spec(
            plugin_for_spec(mod_path@, plugins).0,
            id@,
        ),
    }
}

impl SwitchKey {
    /// A handle on the trigger `id` declared at `mod_path`.
    pub fn trigger(mod_path: &str, id: &str) -> (k: SwitchKey)
        ensures
            k matches SwitchKey::Trigger { mod_path: m, id: i } && m@ == mod_path@ && i@
                == id@,
    {
        SwitchKey::Trigger { mod_path: mod_path.to_owned(), id: id.to_owned() }
    }

    /// A handle on a literal key.
    pub fn literal(s: &str) -> (k: SwitchKey)
        ensures
            k matches SwitchKey::Literal(t) && t@ == s@,
    {
        SwitchKey::Literal(s.to_owned())
    }

    /// The dotted switch key that the table stores, given the resolved plugins.
    pub fn resolve(&self, plugins: &[PluginMeta]) -> (r: String)
        ensures
            r@ == resolve_spec(*self, metas(plugins@)),
    {
        match self {
            SwitchKey::Literal(s) => s.clone(),
            SwitchKey::Trigger { mod_path, id } => {
                let (plugin_key, _, _) = resolve_plugin_for(mod_path.as_str(), plugins);
                trigger_key(plugin_key.as_str(), id.as_str())
            },
        }
    }
}

/// `t` once linked: its plugin key and its dotted key filled in.
pub open spec fn resolved_trigger(t: TriggerMetaView, plugins: Seq<PluginMetaView>) -> TriggerMetaView {
    let pk = plugin_for_spec(t.mod_path, plugins).0;
    TriggerMetaView { plugin_key: pk, key: trigger_key_spec(pk, t.id), ..t }
}

/// The declared triggers with `plugin_key` and `key` resolved against the
/// resolved plugin list.
pub fn registered_triggers_resolved(triggers: &[TriggerMeta], plugins: &[PluginMeta]) -> (out: Vec<
    TriggerMeta,
>)
    ensures
        out@.len() == triggers@.len(),
        forall|i: int|
            0 <= i < out@.len() ==> #[trigger] out@[i]@ == resolved_trigger(
                triggers@[i]@,
                metas(plugins@),
            ),
{
    let mut out: Vec<TriggerMeta> = Vec::new();
    let mut i: usize = 0;
    while i < triggers.len()
        invariant
            i <= triggers@.len(),
            out@.len() == i,
            forall|j: int|
                0 <= j < i ==> #[trigger] out@[j]@ == resolved_trigger(
                    triggers@[j]@,
                    metas(plugins@),
                ),
        decreases triggers@.len() - i,
    {
        let t = &triggers[i];
        let (pk, _, _) = resolve_plugin_for(t.mod_path.as_str(), plugins);
        let key = trigger_key(pk.as_str(), t.id.as_str());
        let m = TriggerMeta {
            id: t.id.clone(),
            key,
            plugin_key: pk,
            name: t.name.clone(),
            description: t.description.clone(),
            usage: t.usage.clone(),
            words: clone_words(&t.words),
            order: t.order,
            can_disable: t.can_disable,
            default_enable: t.default_enable,
            hidden: t.hidden,
            kind: t.kind,
            mod_path: t.mod_path.clone(),
        };
        out.push(m);
        i = i + 1;
    }
    out
}

} // verus!
