//! The whole of one peer's replicated state, and the runtime facts a
//! handler needs: the peer's own address, the clock reading, and a fresh
//! room identifier. Handlers never read a clock or a transport themselves.

use vstd::prelude::*;
use crate::board::{board_wf, Board, BoardError};
use crate::room::{room_has_player, Invitation, MatchmakingPlayer, RevealInfo, Room};
use crate::view::{empty_enemy_view, fresh_view_10, view_wf, EnemyBoardView};

verus! {

/// Everything a peer persists between events.
#[derive(Clone, Debug)]
pub struct BattleshipState {
    pub room: Option<Room>,
    pub board: Option<Board>,
    pub enemy_view: Option<EnemyBoardView>,
    pub subscribed_to_host: Option<String>,
    pub last_reveal: Option<RevealInfo>,
    pub last_notification: Option<String>,
    pub friends: Vec<String>,
    pub friend_requests_received: Vec<String>,
    pub friend_requests_sent: Vec<String>,
    pub room_invitations: Vec<Invitation>,
    pub sent_invitations: Vec<String>,
    pub matchmaking_queue: Vec<MatchmakingPlayer>,
}

/// Facts the runtime supplies with each event: the peer's own address,
/// the clock reading in microseconds, and a fresh identifier for any room
/// created while handling the event.
#[derive(Clone, Debug)]
pub struct PeerContext {
    pub self_chain: String,
    pub now: u64,
    pub fresh_room_id: String,
}

/// A fatal precondition violation: the whole operation or message is
/// rejected and no state change is committed.
#[derive(Clone, Copy, Debug, PartialEq, Eq, Structural)]
pub enum OpError {
    NoRoom,
    NotHost,
    RoomNotActive,
    RoomFull,
    NeedTwoPlayers,
    BoardsNotSubmitted,
    GameNotStarted,
    NotYourTurn,
    PendingAttackUnresolved,
    CellAlreadyRevealed,
    EnemyNotFound,
    NotFriends,
    InvalidBoard(BoardError),
    BoardNotSubmitted,
}

/// Any board or enemy view the state holds is well formed.
pub open spec fn state_wf(s: BattleshipState) -> bool {
    &&& (s.board matches Some(b) ==> board_wf(b))
    &&& (s.enemy_view matches Some(v) ==> view_wf(v) && v.size > 0)
}

/// The friend sets and request sets are untouched.
pub open spec fn same_social(pre: BattleshipState, post: BattleshipState) -> bool {
    &&& post.friends == pre.friends
    &&& post.friend_requests_received == pre.friend_requests_received
    &&& post.friend_requests_sent == pre.friend_requests_sent
}

/// Invitations held and sent are untouched.
pub open spec fn same_invites(pre: BattleshipState, post: BattleshipState) -> bool {
    &&& post.room_invitations == pre.room_invitations
    &&& post.sent_invitations == pre.sent_invitations
}

/// The matchmaking queue is untouched.
pub open spec fn same_queue(pre: BattleshipState, post: BattleshipState) -> bool {
    post.matchmaking_queue == pre.matchmaking_queue
}

/// Room, board, enemy view, audit record, subscription and notification
/// are untouched.
pub open spec fn same_game(pre: BattleshipState, post: BattleshipState) -> bool {
    &&& post.room == pre.room
    &&& post.board == pre.board
    &&& post.enemy_view == pre.enemy_view
    &&& post.subscribed_to_host == pre.subscribed_to_host
    &&& post.last_reveal == pre.last_reveal
    &&& post.last_notification == pre.last_notification
}

/// Nothing at all changed.
pub open spec fn same_state(pre: BattleshipState, post: BattleshipState) -> bool {
    &&& same_game(pre, post)
    &&& same_social(pre, post)
    &&& same_invites(pre, post)
    &&& same_queue(pre, post)
}

/// How the enemy view looks after a handler made sure it exists: an
/// existing view is kept; otherwise a fresh 10 x 10 view is created, but
/// only when the room really records the opponent.
pub open spec fn view_ensured(
    pre_view: Option<EnemyBoardView>,
    post_view: Option<EnemyBoardView>,
    room: Room,
    enemy: Seq<char>,
) -> bool {
    if pre_view is Some {
        post_view == pre_view
    } else if room_has_player(room, enemy) {
        post_view matches Some(v) && fresh_view_10(v)
    } else {
        post_view == pre_view
    }
}

/// Create the enemy view lazily, the first time a room and a known
/// opponent address exist together.
pub fn ensure_enemy_view_created(state: &mut BattleshipState, room: &Room, enemy: &String)
    ensures
        view_ensured(old(state).enemy_view, final(state).enemy_view, *room, enemy@),
        old(state).enemy_view is None && final(state).enemy_view is Some
            ==> (final(state).enemy_view matches Some(v) && view_wf(v) && v.size > 0),
        final(state).room == old(state).room,
        final(state).board == old(state).board,
        final(state).subscribed_to_host == old(state).subscribed_to_host,
        final(state).last_reveal == old(state).last_reveal,
        final(state).last_notification == old(state).last_notification,
        same_social(*old(state), *final(state)),
        same_invites(*old(state), *final(state)),
        same_queue(*old(state), *final(state)),
{
    if state.enemy_view.is_some() {
        return ;
    }
    let mut found = false;
    let mut i: usize = 0;
    while i < room.players.len()
        invariant
            i <= room.players@.len(),
            found == exists|j: int|
                0 <= j < i as int && (#[trigger] room.players@[j]).chain_id@ == enemy@,
        decreases room.players@.len() - i,
    {
        if room.players[i].chain_id == *enemy {
            found = true;
        }
        i += 1;
    }
    if found {
        state.enemy_view = Option::Some(empty_enemy_view(10));
    }
}

impl BattleshipState {
    /// The state of a freshly instantiated peer: nothing held anywhere.
    pub fn new() -> (s: BattleshipState)
        ensures
            s.room is None,
            s.board is None,
            s.enemy_view is None,
            s.subscribed_to_host is None,
            s.last_reveal is None,
            s.last_notification is None,
            s.friends@.len() == 0,
            s.friend_requests_received@.len() == 0,
            s.friend_requests_sent@.len() == 0,
            s.room_invitations@.len() == 0,
            s.sent_invitations@.len() == 0,
            s.matchmaking_queue@.len() == 0,
            state_wf(s),
    {
        BattleshipState {
            room: Option::None,
            board: Option::None,
            enemy_view: Option::None,
            subscribed_to_host: Option::None,
            last_reveal: Option::None,
            last_notification: Option::None,
            friends: Vec::new(),
            friend_requests_received: Vec::new(),
            friend_requests_sent: Vec::new(),
            room_invitations: Vec::new(),
            sent_invitations: Vec::new(),
            matchmaking_queue: Vec::new(),
        }
    }
}

} // verus!
