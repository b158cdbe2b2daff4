//! The orchestrator's record of a game server.
use vstd::prelude::*;

verus! {

/// A game server as the orchestrator records it.
#[derive(Debug, Clone)]
pub struct GameServer {
    pub name: String,
    pub address: String,
    pub players_online: u32,
    pub players_max: u32,
}

impl GameServer {
    /// A server with no address yet and nobody online.
    pub fn new(name: String, players_max: u32) -> (r: Self)
        ensures
            r.name@ == name@,
            r.address@ == Seq::<char>::empty(),
            r.players_max == players_max,
            r.players_online == 0,
    {
        GameServer { name, address: String::new(), players_max, players_online: 0 }
    }

    /// A player joins the server.
    pub fn player_joined(&mut self)
        requires
            old(self).players_online < u32::MAX,
        ensures
            final(self).players_online == old(self).players_online + 1,
            final(self).players_max == old(self).players_max,
            final(self).name@ == old(self).name@,
            final(self).address@ == old(self).address@,
    {
        self.players_online = self.players_online + 1;
    }

    /// A player leaves the server; true when nobody is left, and the server
    /// is then to be shut down.
    pub fn player_left(&mut self) -> (r: bool)
        requires
            old(self).players_online > 0,
        ensures
            final(self).players_online == old(self).players_online - 1,
            final(self).players_max == old(self).players_max,
            final(self).name@ == old(self).name@,
            final(self).address@ == old(self).address@,
            r == (final(self).players_online == 0),
    {
        self.players_online = self.players_online - 1;
        self.players_online == 0
    }
}

/// Whether a server has room for one more player.
pub open spec fn has_room(s: GameServer) -> bool {
    s.players_online < s.players_max
}

/// The first of `servers` that has room for one more player, if any.
pub fn pick_available_server(servers: Vec<GameServer>) -> (r: Option<GameServer>)
    ensures
        match r {
            Some(s) => exists|i: int|
                0 <= i < servers@.len() && servers@[i] == s && has_room(s) && forall|j: int|
                    0 <= j < i ==> !has_room(#[trigger] servers@[j]),
            None => forall|j: int| 0 <= j < servers@.len() ==> !has_room(#[trigger] servers@[j]),
        },
{
    let ghost all = servers@;
    let total = servers.len();
    let mut rest = servers;
    let mut k: usize = 0;
    while rest.len() > 0
        invariant
            k <= all.len(),
            total == all.len(),
            all == servers@,
            k + rest@.len() == all.len(),
            rest@ == all.skip(k as int),
            forall|j: int| 0 <= j < k ==> !has_room(#[trigger] all[j]),
        decreases rest@.len(),
    {
        let server = rest.remove(0);
        assert(all[k as int] == server);
        if server.players_online < server.players_max {
            return Some(server);
        }
        assert(rest@ =~= all.skip(k + 1));
        k = k + 1;
    }
    None
}

} // verus!
