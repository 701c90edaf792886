//! The replicated room descriptor and the small lookups the handlers
//! perform on it. Addresses are plain strings; each peer is named by one.

use vstd::prelude::*;
use crate::board::{BoardError, Coord};

verus! {

/// Whether the session as a whole is still playable.
#[derive(Clone, Copy, Debug, PartialEq, Eq, Structural)]
pub enum RoomStatus {
    Active,
    Ended,
}

/// Progress of the match within a room.
#[derive(Clone, Copy, Debug, PartialEq, Eq, Structural)]
pub enum GameState {
    WaitingForPlayer,
    PlacingBoards,
    InGame,
    Ended,
}

/// One participant as the room records it.
#[derive(Clone, Debug, PartialEq)]
pub struct PlayerInfo {
    pub chain_id: String,
    pub name: String,
    pub board_submitted: bool,
}

/// The replicated session descriptor; every peer holds its own copy.
#[derive(Clone, Debug, PartialEq)]
pub struct Room {
    pub room_id: String,
    pub host_chain_id: String,
    pub status: RoomStatus,
    pub game_state: GameState,
    pub players: Vec<PlayerInfo>,
    pub current_attacker: Option<String>,
    pub pending_attack: Option<Coord>,
    pub winner_chain_id: Option<String>,
}

/// Audit record of the last attack exchange, overwritten each exchange.
#[derive(Clone, Debug, PartialEq)]
pub struct RevealInfo {
    pub attacker_chain_id: String,
    pub defender_chain_id: String,
    pub row: u8,
    pub col: u8,
    pub valid: bool,
    pub error: Option<BoardError>,
    pub hit: bool,
    pub sunk: bool,
    pub sunk_ship_cells: Option<Vec<Coord>>,
    pub adjacent_coords: Option<Vec<Coord>>,
    pub next_attacker: String,
    pub game_over: bool,
    pub winner_chain_id: Option<String>,
    pub timestamp: u64,
}

/// A pending room invitation held by the invitee.
#[derive(Clone, Debug, PartialEq)]
pub struct Invitation {
    pub host_chain_id: String,
    pub timestamp: u64,
}

/// One waiting participant in the orchestrator's matchmaking queue.
#[derive(Clone, Debug, PartialEq)]
pub struct MatchmakingPlayer {
    pub chain_id: String,
    pub player_name: String,
}

pub open spec fn player_eq(a: PlayerInfo, b: PlayerInfo) -> bool {
    &&& a.chain_id@ == b.chain_id@
    &&& a.name@ == b.name@
    &&& a.board_submitted == b.board_submitted
}

pub open spec fn players_eq(a: Seq<PlayerInfo>, b: Seq<PlayerInfo>) -> bool {
    &&& a.len() == b.len()
    &&& forall|i: int| 0 <= i < a.len() ==> player_eq(#[trigger] a[i], b[i])
}

pub open spec fn opt_str_eq(a: Option<String>, b: Option<String>) -> bool {
    match (a, b) {
        (Option::None, Option::None) => true,
        (Option::Some(x), Option::Some(y)) => x@ == y@,
        _ => false,
    }
}

/// Field-by-field sameness of two room copies, comparing strings by their
/// characters.
pub open spec fn room_eq(a: Room, b: Room) -> bool {
    &&& a.room_id@ == b.room_id@
    &&& a.host_chain_id@ == b.host_chain_id@
    &&& a.status == b.status
    &&& a.game_state == b.game_state
    &&& players_eq(a.players@, b.players@)
    &&& opt_str_eq(a.current_attacker, b.current_attacker)
    &&& a.pending_attack == b.pending_attack
    &&& opt_str_eq(a.winner_chain_id, b.winner_chain_id)
}

/// Whether the player list holds this address.
pub open spec fn player_in_seq(players: Seq<PlayerInfo>, addr: Seq<char>) -> bool {
    exists|i: int| 0 <= i < players.len() && (#[trigger] players[i]).chain_id@ == addr
}

/// Whether the room records a player with this address.
pub open spec fn room_has_player(room: Room, addr: Seq<char>) -> bool {
    player_in_seq(room.players@, addr)
}

/// Whether some player of the room is not the peer itself.
pub open spec fn has_other_player(players: Seq<PlayerInfo>, self_addr: Seq<char>) -> bool {
    exists|i: int| 0 <= i < players.len() && (#[trigger] players[i]).chain_id@ != self_addr
}

/// Position of the peer's opponent in the player list: the first entry
/// whose address differs from the peer's own.
pub open spec fn is_first_other(players: Seq<PlayerInfo>, self_addr: Seq<char>, i: int) -> bool {
    &&& 0 <= i < players.len()
    &&& players[i].chain_id@ != self_addr
    &&& forall|j: int| 0 <= j < i ==> (#[trigger] players[j]).chain_id@ == self_addr
}

/// Position of the first player entry with the given address.
pub open spec fn is_first_player_at(players: Seq<PlayerInfo>, addr: Seq<char>, i: int) -> bool {
    &&& 0 <= i < players.len()
    &&& players[i].chain_id@ == addr
    &&& forall|j: int| 0 <= j < i ==> (#[trigger] players[j]).chain_id@ != addr
}

/// Whether the string sequence holds this address.
pub open spec fn str_in_seq(v: Seq<String>, x: Seq<char>) -> bool {
    exists|i: int| 0 <= i < v.len() && (#[trigger] v[i])@ == x
}

/// Position of the first entry equal to `x`.
pub open spec fn is_first_str_at(v: Seq<String>, x: Seq<char>, i: int) -> bool {
    &&& 0 <= i < v.len()
    &&& v[i]@ == x
    &&& forall|j: int| 0 <= j < i ==> (#[trigger] v[j])@ != x
}

/// Whether an invitation from this host is held.
pub open spec fn invite_in_seq(v: Seq<Invitation>, host: Seq<char>) -> bool {
    exists|i: int| 0 <= i < v.len() && (#[trigger] v[i]).host_chain_id@ == host
}

/// Position of the first invitation from `host`.
pub open spec fn is_first_invite_at(v: Seq<Invitation>, host: Seq<char>, i: int) -> bool {
    &&& 0 <= i < v.len()
    &&& v[i].host_chain_id@ == host
    &&& forall|j: int| 0 <= j < i ==> (#[trigger] v[j]).host_chain_id@ != host
}

/// Whether the matchmaking queue holds this address.
pub open spec fn queue_has_addr(q: Seq<MatchmakingPlayer>, addr: Seq<char>) -> bool {
    exists|i: int| 0 <= i < q.len() && (#[trigger] q[i]).chain_id@ == addr
}

/// Player list `post` is `pre` with the first entry for `addr`, if any,
/// marked as having submitted a board; every other entry is untouched.
pub open spec fn players_with_submitted(
    pre: Seq<PlayerInfo>,
    post: Seq<PlayerInfo>,
    addr: Seq<char>,
) -> bool {
    &&& post.len() == pre.len()
    &&& forall|j: int|
        0 <= j < pre.len() && !is_first_player_at(pre, addr, j) ==> #[trigger] post[j] == pre[j]
    &&& forall|j: int|
        0 <= j < pre.len() && is_first_player_at(pre, addr, j) ==> (#[trigger] post[j]).chain_id
            == pre[j].chain_id && post[j].name == pre[j].name && post[j].board_submitted
}

/// Every room field but the player list is untouched.
pub open spec fn room_same_but_players(pre: Room, post: Room) -> bool {
    &&& post.room_id == pre.room_id
    &&& post.host_chain_id == pre.host_chain_id
    &&& post.status == pre.status
    &&& post.game_state == pre.game_state
    &&& post.current_attacker == pre.current_attacker
    &&& post.pending_attack == pre.pending_attack
    &&& post.winner_chain_id == pre.winner_chain_id
}

/// Mark the first player entry with this address as having submitted a
/// board; without such an entry nothing changes.
pub fn mark_player_submitted(players: &mut Vec<PlayerInfo>, addr: &String)
    ensures
        players_with_submitted(old(players)@, final(players)@, addr@),
{
    match find_player_index(players, addr) {
        Option::None => {},
        Option::Some(i) => {
            let p = players.remove(i);
            players.insert(
                i,
                PlayerInfo { chain_id: p.chain_id, name: p.name, board_submitted: true },
            );
            proof {
                assert forall|j: int|
                    0 <= j < old(players)@.len() && j != i as int implies #[trigger] players@[j]
                    == old(players)@[j] by {
                    if j < i as int {
                        assert(players@[j] == old(players)@.remove(i as int).insert(
                            i as int,
                            players@[i as int],
                        )[j]);
                    }
                }
            }
        },
    }
}

pub fn clone_player(p: &PlayerInfo) -> (r: PlayerInfo)
    ensures
        player_eq(r, *p),
{
    PlayerInfo {
        chain_id: p.chain_id.clone(),
        name: p.name.clone(),
        board_submitted: p.board_submitted,
    }
}

/// A deep copy of a room, equal field by field.
pub fn clone_room(room: &Room) -> (r: Room)
    ensures
        room_eq(r, *room),
{
    let mut players: Vec<PlayerInfo> = Vec::new();
    let mut i: usize = 0;
    while i < room.players.len()
        invariant
            i <= room.players@.len(),
            players@.len() == i as int,
            forall|j: int| 0 <= j < i as int ==> player_eq(#[trigger] players@[j], room.players@[j]),
        decreases room.players@.len() - i,
    {
        let p = clone_player(&room.players[i]);
        players.push(p);
        i += 1;
    }
    Room {
        room_id: room.room_id.clone(),
        host_chain_id: room.host_chain_id.clone(),
        status: room.status,
        game_state: room.game_state,
        players,
        current_attacker: match &room.current_attacker {
            Option::Some(a) => Option::Some(a.clone()),
            Option::None => Option::None,
        },
        pending_attack: room.pending_attack,
        winner_chain_id: match &room.winner_chain_id {
            Option::Some(w) => Option::Some(w.clone()),
            Option::None => Option::None,
        },
    }
}

/// The first player whose address is not the peer's own: the opponent, if
/// one has joined.
pub fn find_enemy_chain_id(room: &Room, self_chain: &String) -> (r: Option<String>)
    ensures
        match r {
            Option::Some(s) => exists|i: int|
                is_first_other(room.players@, self_chain@, i) && s@ == (
                #[trigger] room.players@[i]).chain_id@,
            Option::None => !has_other_player(room.players@, self_chain@),
        },
{
    let mut i: usize = 0;
    while i < room.players.len()
        invariant
            i <= room.players@.len(),
            forall|j: int| 0 <= j < i as int ==> (#[trigger] room.players@[j]).chain_id@ == self_chain@,
        decreases room.players@.len() - i,
    {
        if !(room.players[i].chain_id == *self_chain) {
            let s = room.players[i].chain_id.clone();
            proof {
                assert(is_first_other(room.players@, self_chain@, i as int));
            }
            return Option::Some(s);
        }
        i += 1;
    }
    Option::None
}

/// Position of the first player entry with the given address, if any.
pub fn find_player_index(players: &Vec<PlayerInfo>, addr: &String) -> (r: Option<usize>)
    ensures
        match r {
            Option::Some(i) => is_first_player_at(players@, addr@, i as int),
            Option::None => !player_in_seq(players@, addr@),
        },
{
    let mut i: usize = 0;
    while i < players.len()
        invariant
            i <= players@.len(),
            forall|j: int| 0 <= j < i as int ==> (#[trigger] players@[j]).chain_id@ != addr@,
        decreases players@.len() - i,
    {
        if players[i].chain_id == *addr {
            return Option::Some(i);
        }
        i += 1;
    }
    Option::None
}

/// Position of the first string equal to `x`, if any.
pub fn find_str_index(v: &Vec<String>, x: &String) -> (r: Option<usize>)
    ensures
        match r {
            Option::Some(i) => is_first_str_at(v@, x@, i as int),
            Option::None => !str_in_seq(v@, x@),
        },
{
    let mut i: usize = 0;
    while i < v.len()
        invariant
            i <= v@.len(),
            forall|j: int| 0 <= j < i as int ==> (#[trigger] v@[j])@ != x@,
        decreases v@.len() - i,
    {
        if v[i] == *x {
            return Option::Some(i);
        }
        i += 1;
    }
    Option::None
}

/// Position of the first invitation from `host`, if any.
pub fn find_invite_index(v: &Vec<Invitation>, host: &String) -> (r: Option<usize>)
    ensures
        match r {
            Option::Some(i) => is_first_invite_at(v@, host@, i as int),
            Option::None => !invite_in_seq(v@, host@),
        },
{
    let mut i: usize = 0;
    while i < v.len()
        invariant
            i <= v@.len(),
            forall|j: int| 0 <= j < i as int ==> (#[trigger] v@[j]).host_chain_id@ != host@,
        decreases v@.len() - i,
    {
        if v[i].host_chain_id == *host {
            return Option::Some(i);
        }
        i += 1;
    }
    Option::None
}

/// Whether the matchmaking queue already holds this address.
pub fn queue_contains(q: &Vec<MatchmakingPlayer>, addr: &String) -> (r: bool)
    ensures
        r == queue_has_addr(q@, addr@),
{
    let mut i: usize = 0;
    while i < q.len()
        invariant
            i <= q@.len(),
            forall|j: int| 0 <= j < i as int ==> (#[trigger] q@[j]).chain_id@ != addr@,
        decreases q@.len() - i,
    {
        if q[i].chain_id == *addr {
            return true;
        }
        i += 1;
    }
    false
}

} // verus!
