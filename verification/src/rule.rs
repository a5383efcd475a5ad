//! The built-in guard predicates of commands, over what they read of the
//! current message: who is addressed, the conversation, the sender, keywords,
//! superusers and group roles. (Combining rules and evaluating them lazily is
//! the caller's.)
use vstd::prelude::*;
use crate::ids::{Peer, Scene, Uin};
use crate::enabled::{key_on_spec, EnabledSet};
use crate::plugin::{metas, resolve_spec, PluginMeta, SwitchKey};

verus! {

/// What the built-in rules read of a message.
pub struct MessageInfo {
    pub peer: Peer,
    pub sender: Uin,
    /// Whether the message mentions the bot's own account.
    pub mentions_self: bool,
    /// The plain text of the message.
    pub text: String,
}

/// Private (friend or temporary) conversations.
pub open spec fn is_private(s: Scene) -> bool {
    s == Scene::Friend || s == Scene::Temp
}

/// The message is addressed to the bot: a private message, or one that
/// mentions the bot. No message, no.
pub fn to_me(msg: Option<&MessageInfo>) -> (r: bool)
    ensures
        r == match msg {
            Some(m) => is_private(m.peer.scene) || m.mentions_self,
            None => false,
        },
{
    match msg {
        Some(m) => m.peer.scene == Scene::Friend || m.peer.scene == Scene::Temp || m.mentions_self,
        None => false,
    }
}

/// Group messages only.
pub fn group_only(msg: Option<&MessageInfo>) -> (r: bool)
    ensures
        r == (msg matches Some(m) && m.peer.scene == Scene::Group),
{
    match msg {
        Some(m) => m.peer.scene == Scene::Group,
        None => false,
    }
}

/// Private messages only.
pub fn private(msg: Option<&MessageInfo>) -> (r: bool)
    ensures
        r == (msg matches Some(m) && is_private(m.peer.scene)),
{
    match msg {
        Some(m) => m.peer.scene == Scene::Friend || m.peer.scene == Scene::Temp,
        None => false,
    }
}

/// Messages of group `group` only.
pub fn in_group(msg: Option<&MessageInfo>, group: Uin) -> (r: bool)
    ensures
        r == (msg matches Some(m) && m.peer.scene == Scene::Group && m.peer.id == group),
{
    match msg {
        Some(m) => m.peer.scene == Scene::Group && m.peer.id == group,
        None => false,
    }
}

/// Messages from `user` only.
pub fn from_user(msg: Option<&MessageInfo>, user: Uin) -> (r: bool)
    ensures
        r == (msg matches Some(m) && m.sender == user),
{
    match msg {
        Some(m) => m.sender == user,
        None => false,
    }
}

/// `w` occurs in `t` at position `i`.
pub open spec fn occurs_at(t: Seq<char>, w: Seq<char>, i: int) -> bool {
    0 <= i && i + w.len() <= t.len() && t.subrange(i, i + w.len()) == w
}

/// `w` occurs in `t`.
pub open spec fn contains_word(t: Seq<char>, w: Seq<char>) -> bool {
    exists|i: int| occurs_at(t, w, i)
}

fn occurs_at_exec(t: &str, w: &str, i: usize) -> (r: bool)
    requires
        i + w@.len() <= t@.len(),
    ensures
        r == occurs_at(t@, w@, i as int),
{
    let m = w.unicode_len();
    let n = t.unicode_len();
    let mut k: usize = 0;
    while k < m
        invariant
            m == w@.len(),
            n == t@.len(),
            i + m <= t@.len(),
            k <= m,
            forall|j: int| 0 <= j < k ==> t@[i + j] == w@[j],
        decreases m - k,
    {
        if t.get_char(i + k) != w.get_char(k) {
            assert(t@.subrange(i as int, i + m)[k as int] != w@[k as int]);
            return false;
        }
        k = k + 1;
    }
    assert(t@.subrange(i as int, i + m) == w@);
    true
}

/// Whether `w` occurs in `t` (`str::contains`).
pub fn contains_str(t: &str, w: &str) -> (r: bool)
    ensures
        r == contains_word(t@, w@),
{
    let n = t.unicode_len();
    let m = w.unicode_len();
    if m > n {
        return false;
    }
    if m == 0 {
        assert(t@.subrange(0, 0) =~= w@);
        assert(occurs_at(t@, w@, 0));
        return true;
    }
    let mut i: usize = 0;
    while i <= n - m
        invariant
            n == t@.len(),
            m == w@.len(),
            m <= n,
            m >= 1,
            i <= n - m + 1,
            forall|j: int| 0 <= j < i ==> !occurs_at(t@, w@, j),
        decreases n - m + 1 - i,
    {
        if occurs_at_exec(t, w, i) {
            return true;
        }
        i = i + 1;
    }
    assert forall|j: int| !occurs_at(t@, w@, j) by {
        if 0 <= j < i {
        }
    }
    false
}

/// The text of the message contains any of `words`.
pub fn keyword(msg: Option<&MessageInfo>, words: &Vec<String>) -> (r: bool)
    ensures
        r == match msg {
            Some(m) => exists|k: int| 0 <= k < words@.len() && contains_word(m.text@, words@[k]@),
            None => false,
        },
{
    let m = match msg {
        Some(m) => m,
        None => return false,
    };
    let mut k: usize = 0;
    while k < words.len()
        invariant
            k <= words@.len(),
            msg == Some(m),
            forall|j: int| 0 <= j < k ==> !contains_word(m.text@, words@[j]@),
        decreases words@.len() - k,
    {
        if contains_str(m.text.as_str(), words[k].as_str()) {
            assert(contains_word(m.text@, words@[k as int]@));
            return true;
        }
        k = k + 1;
    }
    false
}

/// The sender is one of the configured superusers.
pub fn superuser(msg: Option<&MessageInfo>, superusers: &Vec<Uin>) -> (r: bool)
    ensures
        r == match msg {
            Some(m) => superusers@.contains(m.sender),
            None => false,
        },
{
    let m = match msg {
        Some(m) => m,
        None => return false,
    };
    let mut k: usize = 0;
    while k < superusers.len()
        invariant
            k <= superusers@.len(),
            msg == Some(m),
            forall|j: int| 0 <= j < k ==> superusers@[j] != m.sender,
        decreases superusers@.len() - k,
    {
        if superusers[k] == m.sender {
            assert(superusers@[k as int] == m.sender);
            assert(superusers@.contains(m.sender));
            return true;
        }
        k = k + 1;
    }
    false
}

/// A member's role in a group.
#[derive(Clone, Copy, Debug, PartialEq, Eq, Structural)]
pub enum Role {
    Owner,
    Admin,
    Member,
}

/// Where the sender's role comes from.
#[derive(Clone, Copy, Debug, PartialEq, Eq, Structural)]
pub enum RoleSource {
    /// The event carries the member's role.
    Known(Role),
    /// A group message without it: ask the protocol once (and remember).
    Query,
    /// A private message without it: there is no group role.
    Unknown,
}

/// The role of the sender: the event's member role in any conversation; else a
/// query in a group; else none (a friend's id is never taken for a group).
pub fn role_source(member_role: Option<Role>, scene: Scene) -> (s: RoleSource)
    ensures
        s == match member_role {
            Some(r) => RoleSource::Known(r),
            None => if scene == Scene::Group { RoleSource::Query } else { RoleSource::Unknown },
        },
{
    match member_role {
        Some(r) => RoleSource::Known(r),
        None => if scene == Scene::Group { RoleSource::Query } else { RoleSource::Unknown },
    }
}

/// The role check: owners pass; admins pass unless only owners may; everyone
/// else, and an unknown role, fails.
pub fn role_at_least(role: Option<Role>, owner_only: bool) -> (r: bool)
    ensures
        r == match role {
            Some(Role::Owner) => true,
            Some(Role::Admin) => !owner_only,
            _ => false,
        },
{
    match role {
        Some(Role::Owner) => true,
        Some(Role::Admin) => !owner_only,
        _ => false,
    }
}

/// The named cross-plugin switch: the global kill switch vetoes everything;
/// otherwise the key is looked up (per-conversation override, then global
/// override, default on). Without a switch table only the kill switch counts.
pub fn switch_allows(killed: bool, table: Option<&EnabledSet>, key: &SwitchKey, plugins: &[PluginMeta], peer: Option<
    Peer,
>) -> (r: bool)
    ensures
        r == (!killed && match table {
            Some(es) => key_on_spec(es@, resolve_spec(*key, metas(plugins@)), true, peer),
            None => true,
        }),
{
    if killed {
        return false;
    }
    match table {
        Some(es) => {
            let name = key.resolve(plugins);
            es.is_enabled(name.as_str(), true, peer)
        },
        None => true,
    }
}

/// The awake check: a sleeping bot vetoes; without a sleep flag the bot is awake.
pub fn awake_allows(asleep: Option<bool>) -> (r: bool)
    ensures
        r == match asleep {
            Some(a) => !a,
            None => true,
        },
{
    match asleep {
        Some(a) => !a,
        None => true,
    }
}

/// The reply a vetoing check leaves for the router: a single slot in which the
/// first reply stays.
pub struct GateReply<R> {
    pub reply: Option<R>,
}

/// The slot after a replying check: a veto fills an empty slot.
pub open spec fn recorded_reply<R>(slot: Option<R>, passed: bool, on_veto: R) -> Option<R> {
    if !passed && slot is None {
        Some(on_veto)
    } else {
        slot
    }
}

impl<R> GateReply<R> {
    /// An empty slot.
    pub fn new() -> (g: Self)
        ensures
            g.reply is None,
    {
        GateReply { reply: None }
    }

    /// Records the outcome of a replying check: a pass leaves the slot alone;
    /// a veto puts `on_veto` in the slot unless a reply is already there (the
    /// leftmost failing check wins). Returns whether the check passed.
    pub fn record(&mut self, passed: bool, on_veto: R) -> (r: bool)
        ensures
            r == passed,
            final(self).reply == recorded_reply(old(self).reply, passed, on_veto),
    {
        if !passed && self.reply.is_none() {
            self.reply = Some(on_veto);
        }
        passed
    }
}

/// First writer wins: once the slot holds a reply, no later check replaces it;
/// a veto on an empty slot leaves exactly its reply.
pub proof fn law_first_reply_wins<R>(slot: Option<R>, passed: bool, on_veto: R)
    ensures
        slot is Some ==> recorded_reply(slot, passed, on_veto) == slot,
        slot is None && !passed ==> recorded_reply(slot, passed, on_veto) == Some(on_veto),
        passed ==> recorded_reply(slot, passed, on_veto) == slot,
{
}

/// A combinator of the guard algebra.
#[derive(Clone, Copy, Debug, PartialEq, Eq, Structural)]
pub enum Combinator {
    And,
    Or,
    Not,
}

/// The verdict of a combination once its left operand is known: `Some`
/// decides without evaluating the right operand (a false left of `&`, a true
/// left of `|`, and `!` of its only operand); `None` asks for the right one.
pub open spec fn after_left_spec(c: Combinator, left: bool) -> Option<bool> {
    match c {
        Combinator::And => if left {
            None
        } else {
            Some(false)
        },
        Combinator::Or => if left {
            Some(true)
        } else {
            None
        },
        Combinator::Not => Some(!left),
    }
}

/// The verdict after the left operand (see [`after_left_spec`]); operands
/// are evaluated from the left, and the right one only when asked for.
pub fn after_left(c: Combinator, left: bool) -> (r: Option<bool>)
    ensures
        r == after_left_spec(c, left),
{
    match c {
        Combinator::And => if left {
            None
        } else {
            Some(false)
        },
        Combinator::Or => if left {
            Some(true)
        } else {
            None
        },
        Combinator::Not => Some(!left),
    }
}

/// Short-circuit evaluation gives the boolean combination: `&` is and, `|` is
/// or, `!` is not, whatever the right operand would have said.
pub proof fn law_short_circuit(c: Combinator, left: bool, right: bool)
    ensures
        (match after_left_spec(c, left) {
            Some(v) => v,
            None => right,
        }) == match c {
            Combinator::And => left && right,
            Combinator::Or => left || right,
            Combinator::Not => !left,
        },
{
}

} // verus!
