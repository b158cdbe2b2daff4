//! Data shared by the login service and the game servers.
use vstd::prelude::*;

verus! {

/// Where a game server can be reached.
#[derive(Debug, Clone)]
pub struct ServerInfo {
    pub ip: String,
    pub port: u16,
}

/// A player logs in.
#[derive(Debug, Clone)]
pub struct Login {
    pub username: String,
    pub password: String,
}

/// A player registers.
#[derive(Debug, Clone)]
pub struct Register {
    pub username: String,
    pub password: String,
}

/// The answer to a login: the player's id and the server to join.
#[derive(Debug, Clone)]
pub struct LoginResponse {
    pub player_id: String,
    pub server: ServerInfo,
}

/// A game server as the registry knows it.
#[derive(Debug, Clone)]
pub struct GameServer {
    pub id: String,
    pub address: String,
    pub port: u16,
    pub area: String,
    pub players_online: u32,
    pub players_max: u32,
}

impl GameServer {
    /// A server with nobody online yet, in the area "NA", reached at
    /// `address` (the host address the server runs with).
    pub fn new(id: String, players_max: u32, port: u16, address: String) -> (r: Self)
        ensures
            r.id@ == id@,
            r.address@ == address@,
            r.port == port,
            r.area@ == seq!['N', 'A'],
            r.players_online == 0,
            r.players_max == players_max,
    {
        let area = "NA".to_string();
        proof {
            reveal_strlit("NA");
            vstd::string::to_string_from_display_ensures_for_str("NA", area);
        }
        GameServer { id, address, port, area, players_online: 0, players_max }
    }
}

/// Whether a server has room for one more player.
pub open spec fn has_room(s: GameServer) -> bool {
    s.players_online < s.players_max
}

/// The servers of `s` that have room for one more player, in their order.
pub open spec fn with_room(s: Seq<GameServer>) -> Seq<GameServer>
    decreases s.len(),
{
    if s.len() == 0 {
        s
    } else if has_room(s.last()) {
        with_room(s.drop_last()).push(s.last())
    } else {
        with_room(s.drop_last())
    }
}

/// The servers that have room for one more player, in their order.
pub fn available_servers(servers: Vec<GameServer>) -> (r: Vec<GameServer>)
    ensures
        r@ == with_room(servers@),
{
    let ghost all = servers@;
    let total = servers.len();
    let mut rest = servers;
    let mut kept: Vec<GameServer> = Vec::new();
    let mut k: usize = 0;
    while rest.len() > 0
        invariant
            k <= all.len(),
            total == all.len(),
            k + rest@.len() == all.len(),
            rest@ == all.skip(k as int),
            kept@ == with_room(all.take(k as int)),
        decreases rest@.len(),
    {
        let server = rest.remove(0);
        assert(all[k as int] == server);
        assert(all.take(k + 1).drop_last() =~= all.take(k as int));
        if server.players_online < server.players_max {
            kept.push(server);
        }
        assert(rest@ =~= all.skip(k + 1));
        k = k + 1;
    }
    assert(all.take(k as int) =~= all);
    kept
}

} // verus!
