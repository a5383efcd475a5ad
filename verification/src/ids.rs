//! Identifier types shared by the whole library: accounts, conversation scenes
//! and addressable peers.
use vstd::prelude::*;

verus! {

/// A QQ account number (user or group).
#[derive(Clone, Copy, Debug, PartialEq, Eq, Hash, Structural)]
pub struct Uin(pub i64);

/// The kind of conversation a peer denotes.
#[derive(Clone, Copy, Debug, PartialEq, Eq, Hash, Structural)]
pub enum Scene {
    Group,
    Friend,
    Temp,
}

/// An addressable conversation: its scene and its id (group number or user number).
#[derive(Clone, Copy, Debug, PartialEq, Eq, Hash, Structural)]
pub struct Peer {
    pub scene: Scene,
    pub id: Uin,
}

impl Peer {
    /// The group conversation with number `id`.
    pub open spec fn group_spec(id: Uin) -> Peer {
        Peer { scene: Scene::Group, id }
    }

    /// The friend conversation with user `id`.
    pub open spec fn friend_spec(id: Uin) -> Peer {
        Peer { scene: Scene::Friend, id }
    }

    /// A group conversation.
    pub fn group(id: Uin) -> (p: Peer)
        ensures
            p == (Peer { scene: Scene::Group, id }),
    {
        Peer { scene: Scene::Group, id }
    }

    /// A friend (private) conversation.
    pub fn friend(id: Uin) -> (p: Peer)
        ensures
            p == (Peer { scene: Scene::Friend, id }),
    {
        Peer { scene: Scene::Friend, id }
    }
}

} // verus!
