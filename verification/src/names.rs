//! The name cache of the event log: group numbers and QQ numbers resolved to
//! readable names, learned from observed events and from backfills, plus the
//! canonical names of market stickers.
//!
//! Lookups are read-only; writes trim the name and ignore empty names and zero
//! ids. Which backfills to start is decided here (each group and sticker
//! package at most once per process); the fetching itself is the caller's.
use vstd::prelude::*;
use crate::assoc::{assoc_view, lemma_assoc_lookup, lemma_assoc_push, lemma_assoc_update};
use crate::text::{decimal, push_char, push_decimal, str_eq, trim, trim_spec};
use crate::event::{event_group, Event, Meta, Notice, Segment};
use crate::ids::Scene;

verus! {

/// Keys compared by value.
pub trait PlainKey: Sized {
    /// Whether two keys are equal.
    fn same(&self, other: &Self) -> (r: bool)
        ensures
            r == (*self == *other);

    /// A copy of the key.
    fn dup(&self) -> (r: Self)
        ensures
            r == *self;
}

impl PlainKey for i64 {
    fn same(&self, other: &Self) -> (r: bool) {
        *self == *other
    }

    fn dup(&self) -> (r: Self) {
        *self
    }
}

impl PlainKey for i32 {
    fn same(&self, other: &Self) -> (r: bool) {
        *self == *other
    }

    fn dup(&self) -> (r: Self) {
        *self
    }
}

impl PlainKey for (i64, i64) {
    fn same(&self, other: &Self) -> (r: bool) {
        self.0 == other.0 && self.1 == other.1
    }

    fn dup(&self) -> (r: Self) {
        (self.0, self.1)
    }
}

/// Entries with string values, as plain values.
pub open spec fn named<K>(v: Seq<(K, String)>) -> Seq<(K, Seq<char>)> {
    v.map_values(|e: (K, String)| (e.0, e.1@))
}

/// Sticker entries, as plain values.
pub open spec fn faces_model(v: Seq<((i32, String), String)>) -> Seq<((i32, Seq<char>), Seq<char>)> {
    v.map_values(|e: ((i32, String), String)| ((e.0.0, e.0.1@), e.1@))
}

fn find_key<K: PlainKey>(v: &Vec<(K, String)>, k: &K) -> (r: Option<usize>)
    ensures
        match r {
            Some(i) => i < v@.len() && v@[i as int].0 == *k && assoc_view(named(v@)).contains_key(*k)
                && assoc_view(named(v@))[*k] == v@[i as int].1@ && forall|j: int|
                i < j < v@.len() ==> named(v@)[j].0 != *k,
            None => !assoc_view(named(v@)).contains_key(*k),
        },
{
    let ghost s = named(v@);
    let mut i = v.len();
    while i > 0
        invariant
            i <= v@.len(),
            s == named(v@),
            forall|j: int| i <= j < s.len() ==> s[j].0 != *k,
        decreases i,
    {
        if v[i - 1].0.same(k) {
            proof {
                lemma_assoc_lookup(s, *k, i - 1);
            }
            return Some(i - 1);
        }
        i = i - 1;
    }
    proof {
        lemma_assoc_lookup(s, *k, -1);
    }
    None
}

fn get_key<K: PlainKey>(v: &Vec<(K, String)>, k: &K) -> (r: Option<String>)
    ensures
        match r {
            Some(s) => assoc_view(named(v@)).contains_key(*k) && s@ == assoc_view(named(v@))[*k],
            None => !assoc_view(named(v@)).contains_key(*k),
        },
{
    match find_key(v, k) {
        Some(i) => Some(v[i].1.clone()),
        None => None,
    }
}

fn upsert_key<K: PlainKey>(v: &mut Vec<(K, String)>, k: K, val: String)
    ensures
        assoc_view(named(final(v)@)) == assoc_view(named(old(v)@)).insert(k, val@),
{
    let ghost s = named(v@);
    let ghost vv = val@;
    match find_key(v, &k) {
        Some(i) => {
            proof {
                lemma_assoc_update(s, i as int, vv);
            }
            v.set(i, (k, val));
            assert(named(v@) =~= s.update(i as int, (k, vv)));
        },
        None => {
            v.push((k, val));
            assert(named(v@) =~= s.push((k, vv)));
            proof {
                lemma_assoc_push(s, (k, vv));
            }
        },
    }
}

fn has_key<K: PlainKey>(v: &Vec<K>, k: &K) -> (r: bool)
    ensures
        r == v@.contains(*k),
{
    let mut i: usize = 0;
    while i < v.len()
        invariant
            i <= v@.len(),
            forall|j: int| 0 <= j < i ==> v@[j] != *k,
        decreases v@.len() - i,
    {
        if v[i].same(k) {
            assert(v@[i as int] == *k);
            return true;
        }
        i = i + 1;
    }
    false
}

/// What the name cache holds.
pub struct NamesView {
    /// Global names: QQ number → nickname.
    pub users: Map<i64, Seq<char>>,
    /// Per-group names: (group, QQ number) → group card (or in-group nickname).
    pub members: Map<(i64, i64), Seq<char>>,
    /// Group number → group name.
    pub groups: Map<i64, Seq<char>>,
    /// Groups whose backfill has been started.
    pub attempted: Set<i64>,
    /// Whether the one-off prefetch has been started.
    pub prefetched: bool,
    /// (package, sticker id) → canonical sticker name.
    pub faces: Map<(i32, Seq<char>), Seq<char>>,
    /// Package id → package name.
    pub packages: Map<i32, Seq<char>>,
    /// Sticker packages whose list has been fetched or is being fetched.
    pub packages_attempted: Set<i32>,
}

/// The process-wide name cache.
pub struct NameStore {
    users: Vec<(i64, String)>,
    group_members: Vec<((i64, i64), String)>,
    groups: Vec<(i64, String)>,
    attempted: Vec<i64>,
    prefetched: bool,
    market_faces: Vec<((i32, String), String)>,
    mface_packages: Vec<(i32, String)>,
    mface_attempted: Vec<i32>,
}

impl View for NameStore {
    type V = NamesView;

    closed spec fn view(&self) -> NamesView {
        NamesView {
            users: assoc_view(named(self.users@)),
            members: assoc_view(named(self.group_members@)),
            groups: assoc_view(named(self.groups@)),
            attempted: self.attempted@.to_set(),
            prefetched: self.prefetched,
            faces: assoc_view(faces_model(self.market_faces@)),
            packages: assoc_view(named(self.mface_packages@)),
            packages_attempted: self.mface_attempted@.to_set(),
        }
    }
}

/// `name` trimmed, or `None` when nothing is left.
pub open spec fn clean_name(name: Seq<char>) -> Option<Seq<char>> {
    if trim_spec(name).len() == 0 {
        None
    } else {
        Some(trim_spec(name))
    }
}

/// Learning a global name.
pub open spec fn put_user_spec(v: NamesView, uin: i64, name: Seq<char>) -> NamesView {
    match clean_name(name) {
        Some(t) => if uin == 0 { v } else { NamesView { users: v.users.insert(uin, t), ..v } },
        None => v,
    }
}

/// Learning a per-group name.
pub open spec fn put_member_spec(v: NamesView, group: i64, uin: i64, name: Seq<char>) -> NamesView {
    match clean_name(name) {
        Some(t) => if group == 0 || uin == 0 {
            v
        } else {
            NamesView { members: v.members.insert((group, uin), t), ..v }
        },
        None => v,
    }
}

/// Learning a group name.
pub open spec fn put_group_spec(v: NamesView, gid: i64, name: Seq<char>) -> NamesView {
    match clean_name(name) {
        Some(t) => if gid == 0 { v } else { NamesView { groups: v.groups.insert(gid, t), ..v } },
        None => v,
    }
}

/// `Some` of a non-empty string's characters.
pub open spec fn present(s: Option<String>) -> Option<Seq<char>> {
    match s {
        Some(x) => if x@.len() > 0 { Some(x@) } else { None },
        None => None,
    }
}

/// The cache after learning from `ev`: in a group message, the sender's
/// display name for that group, the sender's nickname and the group's name;
/// in another message, the friend's display name; a group's new name; a
/// member's new card; the bot's own nickname when the framework is ready.
pub open spec fn learn_spec(v: NamesView, ev: Event) -> NamesView {
    match ev {
        Event::Message(m) => if m.peer.scene == Scene::Group {
            let group = m.peer.id.0;
            let sender = m.sender.0;
            let v1 = match present(m.member_name) {
                Some(n) => put_member_spec(v, group, sender, n),
                None => v,
            };
            let v2 = match m.member_nickname {
                Some(n) => put_user_spec(v1, sender, n@),
                None => v1,
            };
            match m.group_name {
                Some(n) => put_group_spec(v2, group, n@),
                None => v2,
            }
        } else {
            match present(m.friend_name) {
                Some(n) => put_user_spec(v, m.sender.0, n),
                None => v,
            }
        },
        Event::Notice(Notice::GroupNameChange { group, new_name, .. }) => put_group_spec(v, group.0, new_name@),
        Event::Notice(Notice::GroupCardChange { group, user, new_card, .. }) => put_member_spec(
            v,
            group.0,
            user.0,
            new_card@,
        ),
        Event::Meta(Meta::Ready { self_id, nickname }) => put_user_spec(v, self_id.0, nickname@),
        _ => v,
    }
}

/// The display name of a sticker: `package·sticker` when the package name is
/// known, the sticker name alone otherwise; none without a sticker name.
pub open spec fn face_display_spec(v: NamesView, package_id: i32, emoji_id: Seq<char>) -> Option<Seq<char>> {
    if v.faces.contains_key((package_id, emoji_id)) {
        let sticker = v.faces[(package_id, emoji_id)];
        if v.packages.contains_key(package_id) {
            Some(v.packages[package_id] + seq!['·'] + sticker)
        } else {
            Some(sticker)
        }
    } else {
        None
    }
}

impl NameStore {
    /// An empty cache.
    pub fn new() -> (s: Self)
        ensures
            s@.users == Map::<i64, Seq<char>>::empty(),
            s@.members == Map::<(i64, i64), Seq<char>>::empty(),
            s@.groups == Map::<i64, Seq<char>>::empty(),
            s@.attempted == Set::<i64>::empty(),
            !s@.prefetched,
            s@.faces == Map::<(i32, Seq<char>), Seq<char>>::empty(),
            s@.packages == Map::<i32, Seq<char>>::empty(),
            s@.packages_attempted == Set::<i32>::empty(),
    {
        let s = NameStore {
            users: Vec::new(),
            group_members: Vec::new(),
            groups: Vec::new(),
            attempted: Vec::new(),
            prefetched: false,
            market_faces: Vec::new(),
            mface_packages: Vec::new(),
            mface_attempted: Vec::new(),
        };
        assert(named(s.users@) =~= Seq::<(i64, Seq<char>)>::empty());
        assert(named(s.group_members@) =~= Seq::<((i64, i64), Seq<char>)>::empty());
        assert(named(s.groups@) =~= Seq::<(i64, Seq<char>)>::empty());
        assert(faces_model(s.market_faces@) =~= Seq::<((i32, Seq<char>), Seq<char>)>::empty());
        assert(named(s.mface_packages@) =~= Seq::<(i32, Seq<char>)>::empty());
        assert(s.attempted@.to_set() =~= Set::<i64>::empty());
        assert(s.mface_attempted@.to_set() =~= Set::<i32>::empty());
        s
    }

    /// The global name of a QQ number, if known.
    pub fn user(&self, uin: i64) -> (r: Option<String>)
        ensures
            match r {
                Some(s) => self@.users.contains_key(uin) && s@ == self@.users[uin],
                None => !self@.users.contains_key(uin),
            },
    {
        get_key(&self.users, &uin)
    }

    /// The name of a person in a group: the group card, else the global name.
    pub fn member(&self, group: i64, uin: i64) -> (r: Option<String>)
        ensures
            match r {
                Some(s) => if self@.members.contains_key((group, uin)) {
                    s@ == self@.members[(group, uin)]
                } else {
                    self@.users.contains_key(uin) && s@ == self@.users[uin]
                },
                None => !self@.members.contains_key((group, uin)) && !self@.users.contains_key(uin),
            },
    {
        match get_key(&self.group_members, &(group, uin)) {
            Some(s) => Some(s),
            None => self.user(uin),
        }
    }

    /// The name of a group, if known.
    pub fn group(&self, gid: i64) -> (r: Option<String>)
        ensures
            match r {
                Some(s) => self@.groups.contains_key(gid) && s@ == self@.groups[gid],
                None => !self@.groups.contains_key(gid),
            },
    {
        get_key(&self.groups, &gid)
    }

    /// Learns a per-group name (trimmed; empty names and zero ids are ignored).
    pub fn put_member(&mut self, group: i64, uin: i64, name: &str)
        ensures
            final(self)@ == put_member_spec(old(self)@, group, uin, name@),
    {
        let t = trim(name);
        if group == 0 || uin == 0 || t.as_str().unicode_len() == 0 {
            return;
        }
        upsert_key(&mut self.group_members, (group, uin), t);
    }

    /// Learns a global name (trimmed; empty names and zero ids are ignored).
    pub fn put_user(&mut self, uin: i64, name: &str)
        ensures
            final(self)@ == put_user_spec(old(self)@, uin, name@),
    {
        let t = trim(name);
        if uin == 0 || t.as_str().unicode_len() == 0 {
            return;
        }
        upsert_key(&mut self.users, uin, t);
    }

    /// Learns a group name (trimmed; empty names and zero ids are ignored).
    pub fn put_group(&mut self, gid: i64, name: &str)
        ensures
            final(self)@ == put_group_spec(old(self)@, gid, name@),
    {
        let t = trim(name);
        if gid == 0 || t.as_str().unicode_len() == 0 {
            return;
        }
        upsert_key(&mut self.groups, gid, t);
    }

    /// Learns names from an observed event: the sender's group card and
    /// nickname and the group name of a group message, a friend's name, a group
    /// rename, a group card change, and the bot's own name when ready.
    pub fn learn_from_event(&mut self, ev: &Event)
        ensures
            final(self)@ == learn_spec(old(self)@, *ev),
    {
        match ev {
            Event::Message(m) => {
                if m.peer.scene == Scene::Group {
                    let group = m.peer.id.0;
                    let sender = m.sender.0;
                    if let Some(name) = &m.member_name {
                        if name.as_str().unicode_len() > 0 {
                            self.put_member(group, sender, name.as_str());
                        }
                    }
                    if let Some(nick) = &m.member_nickname {
                        self.put_user(sender, nick.as_str());
                    }
                    if let Some(g) = &m.group_name {
                        self.put_group(group, g.as_str());
                    }
                } else {
                    if let Some(name) = &m.friend_name {
                        if name.as_str().unicode_len() > 0 {
                            self.put_user(m.sender.0, name.as_str());
                        }
                    }
                }
            },
            Event::Notice(Notice::GroupNameChange { group, new_name, .. }) => {
                self.put_group(group.0, new_name.as_str());
            },
            Event::Notice(Notice::GroupCardChange { group, user, new_card, .. }) => {
                self.put_member(group.0, user.0, new_card.as_str());
            },
            Event::Meta(Meta::Ready { self_id, nickname }) => {
                self.put_user(self_id.0, nickname.as_str());
            },
            _ => {},
        }
    }

    fn find_face(&self, package_id: i32, emoji_id: &str) -> (r: Option<usize>)
        ensures
            match r {
                Some(i) => i < self.market_faces@.len() && faces_model(self.market_faces@)[i as int].0 == (package_id, emoji_id@)
                    && self@.faces.contains_key((package_id, emoji_id@))
                    && self@.faces[(package_id, emoji_id@)] == self.market_faces@[i as int].1@
                    && forall|j: int| i < j < self.market_faces@.len() ==> faces_model(self.market_faces@)[j].0 != (package_id, emoji_id@),
                None => !self@.faces.contains_key((package_id, emoji_id@)),
            },
    {
        let ghost s = faces_model(self.market_faces@);
        let ghost k = (package_id, emoji_id@);
        let mut i = self.market_faces.len();
        while i > 0
            invariant
                i <= self.market_faces@.len(),
                s == faces_model(self.market_faces@),
                k == (package_id, emoji_id@),
                forall|j: int| i <= j < s.len() ==> s[j].0 != k,
            decreases i,
        {
            let e = &self.market_faces[i - 1];
            if e.0.0 == package_id && str_eq(e.0.1.as_str(), emoji_id) {
                proof {
                    lemma_assoc_lookup(s, k, i - 1);
                }
                return Some(i - 1);
            }
            i = i - 1;
        }
        proof {
            lemma_assoc_lookup(s, k, -1);
        }
        None
    }

    /// The canonical name of a market sticker, if known.
    pub fn market_face(&self, package_id: i32, emoji_id: &str) -> (r: Option<String>)
        ensures
            match r {
                Some(s) => self@.faces.contains_key((package_id, emoji_id@)) && s@ == self@.faces[(package_id, emoji_id@)],
                None => !self@.faces.contains_key((package_id, emoji_id@)),
            },
    {
        match self.find_face(package_id, emoji_id) {
            Some(i) => Some(self.market_faces[i].1.clone()),
            None => None,
        }
    }

    /// The name of a sticker package, if known.
    pub fn market_face_package(&self, package_id: i32) -> (r: Option<String>)
        ensures
            match r {
                Some(s) => self@.packages.contains_key(package_id) && s@ == self@.packages[package_id],
                None => !self@.packages.contains_key(package_id),
            },
    {
        get_key(&self.mface_packages, &package_id)
    }

    /// The display name of a sticker (see [`face_display_spec`]).
    pub fn market_face_display(&self, package_id: i32, emoji_id: &str) -> (r: Option<String>)
        ensures
            match r {
                Some(s) => face_display_spec(self@, package_id, emoji_id@) == Some(s@),
                None => face_display_spec(self@, package_id, emoji_id@) is None,
            },
    {
        let sticker = match self.market_face(package_id, emoji_id) {
            Some(s) => s,
            None => return None,
        };
        match self.market_face_package(package_id) {
            Some(pkg) => {
                let mut out = pkg;
                push_char(&mut out, '·');
                out.append(sticker.as_str());
                Some(out)
            },
            None => Some(sticker),
        }
    }

    /// Stores the canonical name of a sticker (trimmed; ignored when the name
    /// is empty or the sticker id is empty).
    pub fn put_market_face(&mut self, package_id: i32, emoji_id: &str, name: &str)
        ensures
            final(self)@ == if emoji_id@.len() == 0 || trim_spec(name@).len() == 0 {
                old(self)@
            } else {
                NamesView { faces: old(self)@.faces.insert((package_id, emoji_id@), trim_spec(name@)), ..old(self)@ }
            },
    {
        let t = trim(name);
        if emoji_id.unicode_len() == 0 || t.as_str().unicode_len() == 0 {
            return;
        }
        let ghost s = faces_model(self.market_faces@);
        let ghost k = (package_id, emoji_id@);
        let ghost tv = t@;
        match self.find_face(package_id, emoji_id) {
            Some(i) => {
                proof {
                    lemma_assoc_update(s, i as int, tv);
                }
                let key = (package_id, emoji_id.to_owned());
                self.market_faces.set(i, (key, t));
                assert(faces_model(self.market_faces@) =~= s.update(i as int, (k, tv)));
            },
            None => {
                let key = (package_id, emoji_id.to_owned());
                self.market_faces.push((key, t));
                assert(faces_model(self.market_faces@) =~= s.push((k, tv)));
                proof {
                    lemma_assoc_push(s, (k, tv));
                }
            },
        }
    }

    /// Stores the name of a sticker package (trimmed; ignored when empty).
    pub fn put_market_face_package(&mut self, package_id: i32, name: &str)
        ensures
            final(self)@ == if trim_spec(name@).len() == 0 {
                old(self)@
            } else {
                NamesView { packages: old(self)@.packages.insert(package_id, trim_spec(name@)), ..old(self)@ }
            },
    {
        let t = trim(name);
        if t.as_str().unicode_len() == 0 {
            return;
        }
        upsert_key(&mut self.mface_packages, package_id, t);
    }

    /// Whether to start the backfill of group `gid`: never for group 0, never
    /// for a group whose name is already known, and otherwise only the first
    /// time for each group (the attempt is recorded).
    pub fn begin_group_fetch(&mut self, gid: i64) -> (go: bool)
        ensures
            go == (gid != 0 && !old(self)@.groups.contains_key(gid) && !old(self)@.attempted.contains(gid)),
            final(self)@ == if gid == 0 || old(self)@.groups.contains_key(gid) {
                old(self)@
            } else {
                NamesView { attempted: old(self)@.attempted.insert(gid), ..old(self)@ }
            },
    {
        if gid == 0 {
            return false;
        }
        if self.group(gid).is_some() {
            return false;
        }
        if has_key(&self.attempted, &gid) {
            assert(old(self)@.attempted.insert(gid) =~= old(self)@.attempted);
            return false;
        }
        let ghost before = self.attempted@;
        self.attempted.push(gid);
        proof {
            before.lemma_push_to_set_commute(gid);
        }
        true
    }

    /// Whether to fetch the list of sticker package `package_id`: never for 0,
    /// and only the first time for each package (the attempt is recorded).
    pub fn begin_package_fetch(&mut self, package_id: i32) -> (go: bool)
        ensures
            go == (package_id != 0 && !old(self)@.packages_attempted.contains(package_id)),
            final(self)@ == if package_id == 0 {
                old(self)@
            } else {
                NamesView { packages_attempted: old(self)@.packages_attempted.insert(package_id), ..old(self)@ }
            },
    {
        if package_id == 0 {
            return false;
        }
        if has_key(&self.mface_attempted, &package_id) {
            assert(old(self)@.packages_attempted.insert(package_id) =~= old(self)@.packages_attempted);
            return false;
        }
        let ghost before = self.mface_attempted@;
        self.mface_attempted.push(package_id);
        proof {
            before.lemma_push_to_set_commute(package_id);
        }
        true
    }

    /// Whether to start the one-off prefetch: only the first time.
    pub fn begin_prefetch(&mut self) -> (go: bool)
        ensures
            go == !old(self)@.prefetched,
            final(self)@ == (NamesView { prefetched: true, ..old(self)@ }),
    {
        let go = !self.prefetched;
        self.prefetched = true;
        go
    }
}

/// Whether to fetch a single new member: both ids must be non-zero.
pub fn begin_member_fetch(group: i64, uin: i64) -> (go: bool)
    ensures
        go == (group != 0 && uin != 0),
{
    group != 0 && uin != 0
}

/// A string's characters when it is non-empty.
pub fn non_empty(s: &str) -> (r: Option<String>)
    ensures
        match r {
            Some(x) => s@.len() > 0 && x@ == s@,
            None => s@.len() == 0,
        },
{
    if s.unicode_len() == 0 {
        None
    } else {
        Some(s.to_owned())
    }
}

/// The URL of a sticker package's list: directory = last decimal digit of the
/// id (Euclidean remainder by 10), file = `<id>_android.json`.
pub open spec fn gtimg_url_spec(package_id: i32) -> Seq<char> {
    "https://i.gtimg.cn/club/item/parcel/"@ + decimal(package_id as int % 10) + "/"@ + decimal(
        package_id as int,
    ) + "_android.json?mType=VIP_emosm"@
}

/// Builds the URL of a sticker package's list, for instance
/// `.../parcel/9/240869_android.json?mType=VIP_emosm` for `240869`.
pub fn gtimg_url(package_id: i32) -> (r: String)
    ensures
        r@ == gtimg_url_spec(package_id),
{
    let mut s = String::from_str("https://i.gtimg.cn/club/item/parcel/");
    let m = package_id % 10;
    let dir: i64 = if m < 0 { (m + 10) as i64 } else { m as i64 };
    assert(dir == package_id as int % 10);
    push_decimal(&mut s, dir);
    s.append("/");
    push_decimal(&mut s, package_id as i64);
    s.append("_android.json?mType=VIP_emosm");
    s
}

/// The sticker packages named by a message's segments, in order.
pub open spec fn sticker_packages(segs: Seq<Segment>) -> Seq<i32>
    decreases segs.len(),
{
    if segs.len() == 0 {
        Seq::empty()
    } else {
        sticker_packages(segs.drop_last()) + match segs.last() {
            Segment::MarketFace { package_id, .. } => seq![package_id],
            _ => Seq::empty(),
        }
    }
}

/// What to fetch in the background after seeing an event (each fetch is
/// still subject to its own once-only check): the group's name and members for
/// a group-scoped event, the one new member of a join notice, and the sticker
/// packages of a message's stickers.
pub struct Backfill {
    pub group: Option<i64>,
    pub member: Option<(i64, i64)>,
    pub packages: Vec<i32>,
}

/// The background fetches that an event calls for (see [`Backfill`]).
pub fn backfill_plan(ev: &Event) -> (b: Backfill)
    ensures
        b.group == event_group(*ev),
        b.member == match *ev {
            Event::Notice(Notice::MemberIncrease { group, user, .. }) => Some((group.0, user.0)),
            _ => None,
        },
        b.packages@ == match *ev {
            Event::Message(m) => sticker_packages(m.content@),
            _ => Seq::empty(),
        },
{
    let group = ev.group();
    let member = match ev {
        Event::Notice(Notice::MemberIncrease { group, user, .. }) => Some((group.0, user.0)),
        _ => None,
    };
    let mut packages: Vec<i32> = Vec::new();
    if let Event::Message(m) = ev {
        let mut i: usize = 0;
        assert(m.content@.subrange(0, 0) =~= Seq::<Segment>::empty());
        while i < m.content.len()
            invariant
                i <= m.content@.len(),
                packages@ == sticker_packages(m.content@.subrange(0, i as int)),
            decreases m.content@.len() - i,
        {
            let ghost next = m.content@.subrange(0, i + 1);
            assert(next.drop_last() =~= m.content@.subrange(0, i as int));
            assert(next.last() == m.content@[i as int]);
            if let Segment::MarketFace { package_id, .. } = &m.content[i] {
                packages.push(*package_id);
            }
            assert(packages@ =~= sticker_packages(next));
            i = i + 1;
        }
        assert(m.content@.subrange(0, m.content@.len() as int) =~= m.content@);
    }
    Backfill { group, member, packages }
}

/// A name learned is read back trimmed: a global name by its account, a card
/// in its group (before the global name), a group name by its number; blank
/// names and zero ids change nothing.
pub proof fn law_put_then_read(v: NamesView, group: i64, uin: i64, name: Seq<char>)
    ensures
        uin != 0 && trim_spec(name).len() > 0 ==> put_user_spec(v, uin, name).users[uin] == trim_spec(name),
        group != 0 && uin != 0 && trim_spec(name).len() > 0 ==> put_member_spec(v, group, uin, name).members[(
            group,
            uin,
        )] == trim_spec(name),
        group != 0 && trim_spec(name).len() > 0 ==> put_group_spec(v, group, name).groups[group] == trim_spec(name),
        trim_spec(name).len() == 0 ==> put_user_spec(v, uin, name) == v && put_member_spec(v, group, uin, name) == v
            && put_group_spec(v, group, name) == v,
{
}

} // verus!
