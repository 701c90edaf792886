//! The receive side of the cross-peer protocol: one handler per message
//! variant, each a pure function of the local state and the message. A
//! handler re-validates everything it depends on, because the local room
//! copy may be stale relative to the sender's; stale or duplicate
//! messages are dropped silently, and only a missing room is fatal.

use vstd::prelude::*;
use vstd::string::StringExecFns;
use crate::board::{
    apply_attack, apply_sunk_padding, attack_allowed, attack_in_bounds, board_after_exchange,
    board_wf, cell_at, clone_coords, coord_in_seq, game_over_after, grid_in_bounds,
    lemma_mid_board_equiv, lemma_ship_id_bounds, splash_cell, sunk_by_attack, Board, BoardError,
    Cell, Coord,
};
use crate::view::{
    apply_reveal_to_view, empty_enemy_view, fresh_view_10, revealed_cell, view_cell_at, view_wf,
    EnemyCell,
};
use crate::protocol::{
    sends_initial_state_sync, sends_matchmaking_enqueued, sends_matchmaking_found,
    sends_matchmaking_start, sends_room_sync, CrossChainMessage, Outbound,
};
use crate::room::{
    find_invite_index, find_str_index, has_other_player, invite_in_seq, is_first_invite_at,
    is_first_other, is_first_str_at, opt_str_eq, queue_contains, queue_has_addr, room_eq,
    str_in_seq, GameState, Invitation, MatchmakingPlayer, PlayerInfo, RevealInfo, Room,
    RoomStatus,
};
use crate::state::{
    ensure_enemy_view_created, same_invites, same_queue, same_social, same_state, state_wf,
    view_ensured, BattleshipState, OpError, PeerContext,
};

verus! {

/// Effect of `InitialStateSync` and `RoomSync`: the sender is
/// authoritative, so the local room copy is overwritten outright, and the
/// enemy view is created lazily once an opponent address is known. Only
/// `InitialStateSync` also notes that the room is ready.
pub open spec fn room_sync_post(
    pre: BattleshipState,
    ctx: PeerContext,
    room: Room,
    initial: bool,
    post: BattleshipState,
    r: Result<Vec<Outbound>, OpError>,
) -> bool {
    &&& post.room matches Some(room2) && room_eq(room2, room)
    &&& post.board == pre.board
    &&& post.subscribed_to_host == pre.subscribed_to_host
    &&& post.last_reveal == pre.last_reveal
    &&& if initial {
        post.last_notification matches Some(n) && n@ == "Room ready"@
    } else {
        post.last_notification == pre.last_notification
    }
    &&& same_social(pre, post)
    &&& same_invites(pre, post)
    &&& same_queue(pre, post)
    &&& if has_other_player(room.players@, ctx.self_chain@) {
        exists|i: int|
            is_first_other(room.players@, ctx.self_chain@, i) && view_ensured(
                pre.enemy_view,
                post.enemy_view,
                room,
                (#[trigger] room.players@[i]).chain_id@,
            )
    } else {
        post.enemy_view == pre.enemy_view
    }
    &&& r matches Ok(ms) && ms@.len() == 0
}

fn sync_room_common(state: &mut BattleshipState, ctx: &PeerContext, room: Room, initial: bool) -> (
    r: Result<Vec<Outbound>, OpError>)
    requires
        state_wf(*old(state)),
    ensures
        state_wf(*final(state)),
        room_sync_post(*old(state), *ctx, room, initial, *final(state), r),
{
    if initial {
        state.last_notification = Option::Some(String::from_str("Room ready"));
    }
    match crate::room::find_enemy_chain_id(&room, &ctx.self_chain) {
        Option::Some(enemy) => {
            ensure_enemy_view_created(state, &room, &enemy);
        },
        Option::None => {},
    }
    proof {
        assert(room_eq(room, room));
    }
    state.room = Option::Some(room);
    Ok(Vec::new())
}

pub fn on_initial_state_sync(state: &mut BattleshipState, ctx: &PeerContext, room: Room) -> (r:
    Result<Vec<Outbound>, OpError>)
    requires
        state_wf(*old(state)),
    ensures
        state_wf(*final(state)),
        room_sync_post(*old(state), *ctx, room, true, *final(state), r),
{
    sync_room_common(state, ctx, room, true)
}

pub fn on_room_sync(state: &mut BattleshipState, ctx: &PeerContext, room: Room) -> (r: Result<
    Vec<Outbound>,
    OpError,
>)
    requires
        state_wf(*old(state)),
    ensures
        state_wf(*final(state)),
        room_sync_post(*old(state), *ctx, room, false, *final(state), r),
{
    sync_room_common(state, ctx, room, false)
}

/// Effect of `LeaveNotice`: an already ended room ignores it; an active
/// room ends at once, in every respect, with the notified peer — this
/// peer — as winner, regardless of whose turn it was.
pub open spec fn leave_notice_post(
    pre: BattleshipState,
    ctx: PeerContext,
    post: BattleshipState,
    r: Result<Vec<Outbound>, OpError>,
) -> bool {
    match pre.room {
        Option::None => same_state(pre, post) && r == Err::<Vec<Outbound>, OpError>(
            OpError::NoRoom,
        ),
        Option::Some(room) => {
            if room.status != RoomStatus::Active {
                same_state(pre, post) && (r matches Ok(ms) && ms@.len() == 0)
            } else {
                &&& post.room matches Some(room2) && {
                    &&& room2.room_id == room.room_id
                    &&& room2.host_chain_id == room.host_chain_id
                    &&& room2.status == RoomStatus::Ended
                    &&& room2.game_state == GameState::Ended
                    &&& room2.players == room.players
                    &&& room2.current_attacker == room.current_attacker
                    &&& room2.pending_attack == room.pending_attack
                    &&& room2.winner_chain_id matches Some(w) && w@ == ctx.self_chain@
                }
                &&& post.board == pre.board
                &&& post.enemy_view == pre.enemy_view
                &&& post.subscribed_to_host == pre.subscribed_to_host
                &&& post.last_reveal == pre.last_reveal
                &&& post.last_notification == pre.last_notification
                &&& same_social(pre, post)
                &&& same_invites(pre, post)
                &&& same_queue(pre, post)
                &&& r matches Ok(ms) && ms@.len() == 0
            }
        },
    }
}

pub fn on_leave_notice(state: &mut BattleshipState, ctx: &PeerContext) -> (r: Result<
    Vec<Outbound>,
    OpError,
>)
    requires
        state_wf(*old(state)),
    ensures
        state_wf(*final(state)),
        leave_notice_post(*old(state), *ctx, *final(state), r),
{
    let room_opt = state.room.take();
    let mut room = match room_opt {
        Option::None => {
            return Err(OpError::NoRoom);
        },
        Option::Some(room) => room,
    };
    if !(room.status == RoomStatus::Active) {
        state.room = Option::Some(room);
        return Ok(Vec::new());
    }
    room.status = RoomStatus::Ended;
    room.game_state = GameState::Ended;
    room.winner_chain_id = Option::Some(ctx.self_chain.clone());
    state.room = Option::Some(room);
    Ok(Vec::new())
}

/// Effect of `FriendRequest`: recorded once in the received set, unless
/// the requester is already a friend or already recorded.
pub open spec fn friend_request_post(
    pre: BattleshipState,
    requester_chain_id: String,
    post: BattleshipState,
    r: Result<Vec<Outbound>, OpError>,
) -> bool {
    &&& post.room == pre.room
    &&& post.board == pre.board
    &&& post.enemy_view == pre.enemy_view
    &&& post.subscribed_to_host == pre.subscribed_to_host
    &&& post.last_reveal == pre.last_reveal
    &&& post.last_notification == pre.last_notification
    &&& post.friends == pre.friends
    &&& post.friend_requests_sent == pre.friend_requests_sent
    &&& same_invites(pre, post)
    &&& same_queue(pre, post)
    &&& r matches Ok(ms) && ms@.len() == 0
    &&& if str_in_seq(pre.friends@, requester_chain_id@) || str_in_seq(
        pre.friend_requests_received@,
        requester_chain_id@,
    ) {
        post.friend_requests_received == pre.friend_requests_received
    } else {
        &&& post.friend_requests_received@.len() == pre.friend_requests_received@.len() + 1
        &&& forall|j: int|
            0 <= j < pre.friend_requests_received@.len()
                ==> #[trigger] post.friend_requests_received@[j]
                == pre.friend_requests_received@[j]
        &&& post.friend_requests_received@[pre.friend_requests_received@.len() as int]@
            == requester_chain_id@
    }
}

pub fn on_friend_request(state: &mut BattleshipState, requester_chain_id: String) -> (r: Result<
    Vec<Outbound>,
    OpError,
>)
    requires
        state_wf(*old(state)),
    ensures
        state_wf(*final(state)),
        friend_request_post(*old(state), requester_chain_id, *final(state), r),
{
    if find_str_index(&state.friends, &requester_chain_id).is_some() {
        return Ok(Vec::new());
    }
    if find_str_index(&state.friend_requests_received, &requester_chain_id).is_none() {
        state.friend_requests_received.push(requester_chain_id);
    }
    Ok(Vec::new())
}

/// Effect of `FriendAccepted`: the acceptor becomes a friend if not one
/// already, and the matching sent request is consumed.
pub open spec fn friend_accepted_post(
    pre: BattleshipState,
    target_chain_id: String,
    post: BattleshipState,
    r: Result<Vec<Outbound>, OpError>,
) -> bool {
    &&& post.room == pre.room
    &&& post.board == pre.board
    &&& post.enemy_view == pre.enemy_view
    &&& post.subscribed_to_host == pre.subscribed_to_host
    &&& post.last_reveal == pre.last_reveal
    &&& post.last_notification == pre.last_notification
    &&& post.friend_requests_received == pre.friend_requests_received
    &&& same_invites(pre, post)
    &&& same_queue(pre, post)
    &&& r matches Ok(ms) && ms@.len() == 0
    &&& if str_in_seq(pre.friends@, target_chain_id@) {
        post.friends == pre.friends
    } else {
        &&& post.friends@.len() == pre.friends@.len() + 1
        &&& forall|j: int|
            0 <= j < pre.friends@.len() ==> #[trigger] post.friends@[j] == pre.friends@[j]
        &&& post.friends@[pre.friends@.len() as int]@ == target_chain_id@
    }
    &&& if str_in_seq(pre.friend_requests_sent@, target_chain_id@) {
        exists|i: int|
            #[trigger] is_first_str_at(pre.friend_requests_sent@, target_chain_id@, i)
                && post.friend_requests_sent@ == pre.friend_requests_sent@.remove(i)
    } else {
        post.friend_requests_sent == pre.friend_requests_sent
    }
}

pub fn on_friend_accepted(state: &mut BattleshipState, target_chain_id: String) -> (r: Result<
    Vec<Outbound>,
    OpError,
>)
    requires
        state_wf(*old(state)),
    ensures
        state_wf(*final(state)),
        friend_accepted_post(*old(state), target_chain_id, *final(state), r),
{
    if find_str_index(&state.friends, &target_chain_id).is_none() {
        state.friends.push(target_chain_id.clone());
    }
    match find_str_index(&state.friend_requests_sent, &target_chain_id) {
        Option::Some(pos) => {
            state.friend_requests_sent.remove(pos);
        },
        Option::None => {},
    }
    Ok(Vec::new())
}

/// Effect of `RoomInvitation`: held once per host, stamped with the
/// sender's clock reading.
pub open spec fn room_invitation_post(
    pre: BattleshipState,
    host_chain_id: String,
    timestamp: u64,
    post: BattleshipState,
    r: Result<Vec<Outbound>, OpError>,
) -> bool {
    &&& post.room == pre.room
    &&& post.board == pre.board
    &&& post.enemy_view == pre.enemy_view
    &&& post.subscribed_to_host == pre.subscribed_to_host
    &&& post.last_reveal == pre.last_reveal
    &&& post.last_notification == pre.last_notification
    &&& same_social(pre, post)
    &&& same_queue(pre, post)
    &&& post.sent_invitations == pre.sent_invitations
    &&& r matches Ok(ms) && ms@.len() == 0
    &&& if invite_in_seq(pre.room_invitations@, host_chain_id@) {
        post.room_invitations == pre.room_invitations
    } else {
        &&& post.room_invitations@.len() == pre.room_invitations@.len() + 1
        &&& forall|j: int|
            0 <= j < pre.room_invitations@.len() ==> #[trigger] post.room_invitations@[j]
                == pre.room_invitations@[j]
        &&& post.room_invitations@[pre.room_invitations@.len() as int].host_chain_id@
            == host_chain_id@
        &&& post.room_invitations@[pre.room_invitations@.len() as int].timestamp == timestamp
    }
}

pub fn on_room_invitation(state: &mut BattleshipState, host_chain_id: String, timestamp: u64) -> (
    r: Result<Vec<Outbound>, OpError>)
    requires
        state_wf(*old(state)),
    ensures
        state_wf(*final(state)),
        room_invitation_post(*old(state), host_chain_id, timestamp, *final(state), r),
{
    if find_invite_index(&state.room_invitations, &host_chain_id).is_none() {
        state.room_invitations.push(Invitation { host_chain_id, timestamp });
    }
    Ok(Vec::new())
}

/// Effect of `RoomInvitationCancelled`: the first invitation from that
/// host, if held, is dropped.
pub open spec fn invitation_cancelled_post(
    pre: BattleshipState,
    host_chain_id: String,
    post: BattleshipState,
    r: Result<Vec<Outbound>, OpError>,
) -> bool {
    &&& post.room == pre.room
    &&& post.board == pre.board
    &&& post.enemy_view == pre.enemy_view
    &&& post.subscribed_to_host == pre.subscribed_to_host
    &&& post.last_reveal == pre.last_reveal
    &&& post.last_notification == pre.last_notification
    &&& same_social(pre, post)
    &&& same_queue(pre, post)
    &&& post.sent_invitations == pre.sent_invitations
    &&& r matches Ok(ms) && ms@.len() == 0
    &&& if invite_in_seq(pre.room_invitations@, host_chain_id@) {
        exists|i: int|
            #[trigger] is_first_invite_at(pre.room_invitations@, host_chain_id@, i)
                && post.room_invitations@ == pre.room_invitations@.remove(i)
    } else {
        post.room_invitations == pre.room_invitations
    }
}

pub fn on_room_invitation_cancelled(state: &mut BattleshipState, host_chain_id: String) -> (r:
    Result<Vec<Outbound>, OpError>)
    requires
        state_wf(*old(state)),
    ensures
        state_wf(*final(state)),
        invitation_cancelled_post(*old(state), host_chain_id, *final(state), r),
{
    match find_invite_index(&state.room_invitations, &host_chain_id) {
        Option::Some(pos) => {
            state.room_invitations.remove(pos);
        },
        Option::None => {},
    }
    Ok(Vec::new())
}

/// Effect of `MatchmakingEnqueued`: only a note naming the orchestrator.
pub open spec fn matchmaking_enqueued_post(
    pre: BattleshipState,
    orchestrator_chain_id: String,
    post: BattleshipState,
    r: Result<Vec<Outbound>, OpError>,
) -> bool {
    &&& post.last_notification matches Some(n) && n@ == "Enqueued on "@ + orchestrator_chain_id@
    &&& post.room == pre.room
    &&& post.board == pre.board
    &&& post.enemy_view == pre.enemy_view
    &&& post.subscribed_to_host == pre.subscribed_to_host
    &&& post.last_reveal == pre.last_reveal
    &&& same_social(pre, post)
    &&& same_invites(pre, post)
    &&& same_queue(pre, post)
    &&& r matches Ok(ms) && ms@.len() == 0
}

pub fn on_matchmaking_enqueued(state: &mut BattleshipState, orchestrator_chain_id: String) -> (r:
    Result<Vec<Outbound>, OpError>)
    requires
        state_wf(*old(state)),
    ensures
        state_wf(*final(state)),
        matchmaking_enqueued_post(*old(state), orchestrator_chain_id, *final(state), r),
{
    let note = String::from_str("Enqueued on ").concat(orchestrator_chain_id.as_str());
    state.last_notification = Option::Some(note);
    Ok(Vec::new())
}

/// Effect of `MatchmakingFound`: only a note naming the future host.
pub open spec fn matchmaking_found_post(
    pre: BattleshipState,
    host_chain_id: String,
    post: BattleshipState,
    r: Result<Vec<Outbound>, OpError>,
) -> bool {
    &&& post.last_notification matches Some(n) && n@ == "Match found. Host: "@ + host_chain_id@
    &&& post.room == pre.room
    &&& post.board == pre.board
    &&& post.enemy_view == pre.enemy_view
    &&& post.subscribed_to_host == pre.subscribed_to_host
    &&& post.last_reveal == pre.last_reveal
    &&& same_social(pre, post)
    &&& same_invites(pre, post)
    &&& same_queue(pre, post)
    &&& r matches Ok(ms) && ms@.len() == 0
}

pub fn on_matchmaking_found(state: &mut BattleshipState, host_chain_id: String) -> (r: Result<
    Vec<Outbound>,
    OpError,
>)
    requires
        state_wf(*old(state)),
    ensures
        state_wf(*final(state)),
        matchmaking_found_post(*old(state), host_chain_id, *final(state), r),
{
    let note = String::from_str("Match found. Host: ").concat(host_chain_id.as_str());
    state.last_notification = Option::Some(note);
    Ok(Vec::new())
}

/// Effect of `JoinRequest`, on the host side: a non-host, an inactive
/// room, or a full room rejects it outright; otherwise any matching sent
/// invitation is consumed, the player is appended with no board yet, the
/// room moves to placing boards, and the new player gets the full state.
pub open spec fn join_request_post(
    pre: BattleshipState,
    ctx: PeerContext,
    player_chain_id: String,
    player_name: String,
    post: BattleshipState,
    r: Result<Vec<Outbound>, OpError>,
) -> bool {
    match pre.room {
        Option::None => same_state(pre, post) && r == Err::<Vec<Outbound>, OpError>(
            OpError::NoRoom,
        ),
        Option::Some(room) => {
            if room.host_chain_id@ != ctx.self_chain@ {
                same_state(pre, post) && r == Err::<Vec<Outbound>, OpError>(OpError::NotHost)
            } else if room.status != RoomStatus::Active {
                same_state(pre, post) && r == Err::<Vec<Outbound>, OpError>(OpError::RoomNotActive)
            } else if room.players@.len() >= 2 {
                same_state(pre, post) && r == Err::<Vec<Outbound>, OpError>(OpError::RoomFull)
            } else {
                &&& if str_in_seq(pre.sent_invitations@, player_chain_id@) {
                    exists|i: int|
                        #[trigger] is_first_str_at(pre.sent_invitations@, player_chain_id@, i)
                            && post.sent_invitations@ == pre.sent_invitations@.remove(i)
                } else {
                    post.sent_invitations == pre.sent_invitations
                }
                &&& post.room matches Some(room2) && {
                    &&& room2.room_id == room.room_id
                    &&& room2.host_chain_id == room.host_chain_id
                    &&& room2.status == room.status
                    &&& room2.game_state == GameState::PlacingBoards
                    &&& room2.players@.len() == room.players@.len() + 1
                    &&& forall|j: int|
                        0 <= j < room.players@.len() ==> #[trigger] room2.players@[j]
                            == room.players@[j]
                    &&& room2.players@[room.players@.len() as int].chain_id@ == player_chain_id@
                    &&& room2.players@[room.players@.len() as int].name@ == player_name@
                    &&& !room2.players@[room.players@.len() as int].board_submitted
                    &&& room2.current_attacker == room.current_attacker
                    &&& room2.pending_attack == room.pending_attack
                    &&& room2.winner_chain_id == room.winner_chain_id
                }
                &&& post.board == pre.board
                &&& post.enemy_view == pre.enemy_view
                &&& post.subscribed_to_host == pre.subscribed_to_host
                &&& post.last_reveal == pre.last_reveal
                &&& post.last_notification == pre.last_notification
                &&& same_social(pre, post)
                &&& post.room_invitations == pre.room_invitations
                &&& same_queue(pre, post)
                &&& r matches Ok(ms) && ms@.len() == 1 && sends_initial_state_sync(
                    ms@[0],
                    player_chain_id@,
                    post.room.unwrap(),
                )
            }
        },
    }
}

pub fn on_join_request(
    state: &mut BattleshipState,
    ctx: &PeerContext,
    player_chain_id: String,
    player_name: String,
) -> (r: Result<Vec<Outbound>, OpError>)
    requires
        state_wf(*old(state)),
    ensures
        state_wf(*final(state)),
        join_request_post(*old(state), *ctx, player_chain_id, player_name, *final(state), r),
{
    let room_opt = state.room.take();
    let mut room = match room_opt {
        Option::None => {
            return Err(OpError::NoRoom);
        },
        Option::Some(room) => room,
    };
    if !(room.host_chain_id == ctx.self_chain) {
        state.room = Option::Some(room);
        return Err(OpError::NotHost);
    }
    if !(room.status == RoomStatus::Active) {
        state.room = Option::Some(room);
        return Err(OpError::RoomNotActive);
    }
    if room.players.len() >= 2 {
        state.room = Option::Some(room);
        return Err(OpError::RoomFull);
    }
    match find_str_index(&state.sent_invitations, &player_chain_id) {
        Option::Some(pos) => {
            state.sent_invitations.remove(pos);
        },
        Option::None => {},
    }
    room.players.push(
        PlayerInfo {
            chain_id: player_chain_id.clone(),
            name: player_name,
            board_submitted: false,
        },
    );
    room.game_state = GameState::PlacingBoards;
    let sync_room = crate::room::clone_room(&room);
    state.room = Option::Some(room);
    let mut out: Vec<Outbound> = Vec::new();
    out.push(
        Outbound {
            target: player_chain_id,
            message: CrossChainMessage::InitialStateSync { room: sync_room },
        },
    );
    Ok(out)
}

/// The messages that a fan-out of the room to every player but the peer
/// itself produces, in player order, for the first `k` players.
pub open spec fn fanout_upto(
    ms: Seq<Outbound>,
    players: Seq<PlayerInfo>,
    k: int,
    self_addr: Seq<char>,
    room: Room,
) -> bool
    decreases k,
{
    if k <= 0 {
        ms.len() == 0
    } else if players[k - 1].chain_id@ != self_addr {
        &&& ms.len() >= 1
        &&& fanout_upto(ms.drop_last(), players, k - 1, self_addr, room)
        &&& sends_room_sync(ms.last(), players[k - 1].chain_id@, room)
    } else {
        fanout_upto(ms, players, k - 1, self_addr, room)
    }
}

/// Effect of `BoardSubmittedNotice`, on the host side: a non-host drops
/// it silently; the host marks the named player submitted and sends the
/// fresh room copy to every player but itself.
pub open spec fn board_submitted_notice_post(
    pre: BattleshipState,
    ctx: PeerContext,
    player_chain_id: String,
    post: BattleshipState,
    r: Result<Vec<Outbound>, OpError>,
) -> bool {
    match pre.room {
        Option::None => same_state(pre, post) && r == Err::<Vec<Outbound>, OpError>(
            OpError::NoRoom,
        ),
        Option::Some(room) => {
            if room.host_chain_id@ != ctx.self_chain@ {
                same_state(pre, post) && (r matches Ok(ms) && ms@.len() == 0)
            } else {
                &&& post.room matches Some(room2) && crate::room::room_same_but_players(
                    room,
                    room2,
                ) && crate::room::players_with_submitted(
                    room.players@,
                    room2.players@,
                    player_chain_id@,
                )
                &&& post.board == pre.board
                &&& post.enemy_view == pre.enemy_view
                &&& post.subscribed_to_host == pre.subscribed_to_host
                &&& post.last_reveal == pre.last_reveal
                &&& post.last_notification == pre.last_notification
                &&& same_social(pre, post)
                &&& same_invites(pre, post)
                &&& same_queue(pre, post)
                &&& r matches Ok(ms) && fanout_upto(
                    ms@,
                    post.room.unwrap().players@,
                    post.room.unwrap().players@.len() as int,
                    ctx.self_chain@,
                    post.room.unwrap(),
                )
            }
        },
    }
}

pub fn on_board_submitted_notice(
    state: &mut BattleshipState,
    ctx: &PeerContext,
    player_chain_id: String,
) -> (r: Result<Vec<Outbound>, OpError>)
    requires
        state_wf(*old(state)),
    ensures
        state_wf(*final(state)),
        board_submitted_notice_post(*old(state), *ctx, player_chain_id, *final(state), r),
{
    let room_opt = state.room.take();
    let mut room = match room_opt {
        Option::None => {
            return Err(OpError::NoRoom);
        },
        Option::Some(room) => room,
    };
    if !(room.host_chain_id == ctx.self_chain) {
        state.room = Option::Some(room);
        return Ok(Vec::new());
    }
    crate::room::mark_player_submitted(&mut room.players, &player_chain_id);
    let mut out: Vec<Outbound> = Vec::new();
    let mut i: usize = 0;
    while i < room.players.len()
        invariant
            i <= room.players@.len(),
            fanout_upto(out@, room.players@, i as int, ctx.self_chain@, room),
        decreases room.players@.len() - i,
    {
        if !(room.players[i].chain_id == ctx.self_chain) {
            let target = room.players[i].chain_id.clone();
            let sync_room = crate::room::clone_room(&room);
            let ghost pre_out = out@;
            out.push(Outbound { target, message: CrossChainMessage::RoomSync { room: sync_room } });
            proof {
                assert(out@.drop_last() == pre_out);
            }
        }
        i += 1;
    }
    state.room = Option::Some(room);
    Ok(out)
}

/// Effect of `MatchmakingEnqueue`, on the orchestrator: the player is
/// queued once per address and always acknowledged; as soon as the queue
/// holds two entries the two oldest are paired first-in-first-out, the
/// earlier as host, and each side is told how to build the room.
pub open spec fn matchmaking_enqueue_post(
    pre: BattleshipState,
    ctx: PeerContext,
    player_chain_id: String,
    player_name: String,
    post: BattleshipState,
    r: Result<Vec<Outbound>, OpError>,
) -> bool {
    let q = pre.matchmaking_queue@;
    &&& post.room == pre.room
    &&& post.board == pre.board
    &&& post.enemy_view == pre.enemy_view
    &&& post.subscribed_to_host == pre.subscribed_to_host
    &&& post.last_reveal == pre.last_reveal
    &&& post.last_notification == pre.last_notification
    &&& same_social(pre, post)
    &&& same_invites(pre, post)
    &&& r matches Ok(ms) && {
        &&& ms@.len() >= 1
        &&& sends_matchmaking_enqueued(ms@[0], player_chain_id@, ctx.self_chain@)
        &&& if queue_has_addr(q, player_chain_id@) {
            if q.len() < 2 {
                post.matchmaking_queue == pre.matchmaking_queue && ms@.len() == 1
            } else {
                &&& post.matchmaking_queue@ == q.skip(2)
                &&& ms@.len() == 3
                &&& sends_matchmaking_start(
                    ms@[1],
                    q[0].chain_id@,
                    q[0].player_name@,
                    q[1].chain_id@,
                    q[1].player_name@,
                )
                &&& sends_matchmaking_found(ms@[2], q[1].chain_id@, q[0].chain_id@)
            }
        } else if q.len() == 0 {
            &&& post.matchmaking_queue@.len() == 1
            &&& post.matchmaking_queue@[0].chain_id@ == player_chain_id@
            &&& post.matchmaking_queue@[0].player_name@ == player_name@
            &&& ms@.len() == 1
        } else if q.len() == 1 {
            &&& post.matchmaking_queue@.len() == 0
            &&& ms@.len() == 3
            &&& sends_matchmaking_start(
                ms@[1],
                q[0].chain_id@,
                q[0].player_name@,
                player_chain_id@,
                player_name@,
            )
            &&& sends_matchmaking_found(ms@[2], player_chain_id@, q[0].chain_id@)
        } else {
            &&& post.matchmaking_queue@.len() == q.len() - 1
            &&& forall|j: int|
                0 <= j < q.len() - 2 ==> #[trigger] post.matchmaking_queue@[j] == q[j + 2]
            &&& post.matchmaking_queue@[q.len() - 2].chain_id@ == player_chain_id@
            &&& post.matchmaking_queue@[q.len() - 2].player_name@ == player_name@
            &&& ms@.len() == 3
            &&& sends_matchmaking_start(
                ms@[1],
                q[0].chain_id@,
                q[0].player_name@,
                q[1].chain_id@,
                q[1].player_name@,
            )
            &&& sends_matchmaking_found(ms@[2], q[1].chain_id@, q[0].chain_id@)
        }
    }
}

pub fn on_matchmaking_enqueue(
    state: &mut BattleshipState,
    ctx: &PeerContext,
    player_chain_id: String,
    player_name: String,
) -> (r: Result<Vec<Outbound>, OpError>)
    requires
        state_wf(*old(state)),
    ensures
        state_wf(*final(state)),
        matchmaking_enqueue_post(
            *old(state),
            *ctx,
            player_chain_id,
            player_name,
            *final(state),
            r,
        ),
{
    let ghost q = state.matchmaking_queue@;
    if !queue_contains(&state.matchmaking_queue, &player_chain_id) {
        state.matchmaking_queue.push(
            MatchmakingPlayer { chain_id: player_chain_id.clone(), player_name },
        );
    }
    let mut out: Vec<Outbound> = Vec::new();
    out.push(
        Outbound {
            target: player_chain_id,
            message: CrossChainMessage::MatchmakingEnqueued {
                orchestrator_chain_id: ctx.self_chain.clone(),
            },
        },
    );
    if state.matchmaking_queue.len() < 2 {
        return Ok(out);
    }
    let ghost q1 = state.matchmaking_queue@;
    let host = state.matchmaking_queue.remove(0);
    let guest = state.matchmaking_queue.remove(0);
    proof {
        assert(state.matchmaking_queue@ =~= q1.skip(2));
        if queue_has_addr(q, player_chain_id@) {
            assert(state.matchmaking_queue@ =~= q.skip(2));
        }
    }
    out.push(
        Outbound {
            target: host.chain_id.clone(),
            message: CrossChainMessage::MatchmakingStart {
                host_name: host.player_name,
                guest_chain_id: guest.chain_id.clone(),
                guest_name: guest.player_name,
            },
        },
    );
    out.push(
        Outbound {
            target: guest.chain_id,
            message: CrossChainMessage::MatchmakingFound { host_chain_id: host.chain_id },
        },
    );
    Ok(out)
}

/// The room a matchmaking host builds on `MatchmakingStart`: itself as
/// host, the guest as second player, straight into board placement.
pub open spec fn matchmaking_start_creates(
    pre: BattleshipState,
    ctx: PeerContext,
    host_name: String,
    guest_chain_id: String,
    guest_name: String,
    post: BattleshipState,
    r: Result<Vec<Outbound>, OpError>,
) -> bool {
    &&& post.room matches Some(room2) && {
        &&& room2.room_id@ == ctx.fresh_room_id@
        &&& room2.host_chain_id@ == ctx.self_chain@
        &&& room2.status == RoomStatus::Active
        &&& room2.game_state == GameState::PlacingBoards
        &&& room2.players@.len() == 2
        &&& room2.players@[0].chain_id@ == ctx.self_chain@
        &&& room2.players@[0].name@ == host_name@
        &&& !room2.players@[0].board_submitted
        &&& room2.players@[1].chain_id@ == guest_chain_id@
        &&& room2.players@[1].name@ == guest_name@
        &&& !room2.players@[1].board_submitted
        &&& room2.current_attacker is None
        &&& room2.pending_attack is None
        &&& room2.winner_chain_id is None
    }
    &&& post.board is None
    &&& post.enemy_view matches Some(v) && fresh_view_10(v)
    &&& post.last_reveal is None
    &&& post.last_notification matches Some(n) && n@ == "Match found (host)"@
    &&& post.subscribed_to_host == pre.subscribed_to_host
    &&& same_social(pre, post)
    &&& same_invites(pre, post)
    &&& same_queue(pre, post)
    &&& r matches Ok(ms) && ms@.len() == 1 && sends_initial_state_sync(
        ms@[0],
        guest_chain_id@,
        post.room.unwrap(),
    )
}

/// Effect of `MatchmakingStart`: ignored while an active room exists;
/// otherwise game state is reset, the fresh two-player room is built, and
/// the guest gets the full state.
pub open spec fn matchmaking_start_post(
    pre: BattleshipState,
    ctx: PeerContext,
    host_name: String,
    guest_chain_id: String,
    guest_name: String,
    post: BattleshipState,
    r: Result<Vec<Outbound>, OpError>,
) -> bool {
    match pre.room {
        Option::Some(room) => {
            if room.status == RoomStatus::Active {
                same_state(pre, post) && (r matches Ok(ms) && ms@.len() == 0)
            } else {
                matchmaking_start_creates(
                    pre,
                    ctx,
                    host_name,
                    guest_chain_id,
                    guest_name,
                    post,
                    r,
                )
            }
        },
        Option::None => matchmaking_start_creates(
            pre,
            ctx,
            host_name,
            guest_chain_id,
            guest_name,
            post,
            r,
        ),
    }
}

pub fn on_matchmaking_start(
    state: &mut BattleshipState,
    ctx: &PeerContext,
    host_name: String,
    guest_chain_id: String,
    guest_name: String,
) -> (r: Result<Vec<Outbound>, OpError>)
    requires
        state_wf(*old(state)),
    ensures
        state_wf(*final(state)),
        matchmaking_start_post(
            *old(state),
            *ctx,
            host_name,
            guest_chain_id,
            guest_name,
            *final(state),
            r,
        ),
{
    match &state.room {
        Option::Some(room) => {
            if room.status == RoomStatus::Active {
                return Ok(Vec::new());
            }
        },
        Option::None => {},
    }
    let mut players: Vec<PlayerInfo> = Vec::new();
    players.push(
        PlayerInfo { chain_id: ctx.self_chain.clone(), name: host_name, board_submitted: false },
    );
    players.push(
        PlayerInfo {
            chain_id: guest_chain_id.clone(),
            name: guest_name,
            board_submitted: false,
        },
    );
    let room = Room {
        room_id: ctx.fresh_room_id.clone(),
        host_chain_id: ctx.self_chain.clone(),
        status: RoomStatus::Active,
        game_state: GameState::PlacingBoards,
        players,
        current_attacker: Option::None,
        pending_attack: Option::None,
        winner_chain_id: Option::None,
    };
    state.board = Option::None;
    state.enemy_view = Option::None;
    state.last_reveal = Option::None;
    state.last_notification = Option::Some(String::from_str("Match found (host)"));
    proof {
        assert(room.players@[1].chain_id@ == guest_chain_id@);
        assert(crate::room::room_has_player(room, guest_chain_id@));
    }
    ensure_enemy_view_created(state, &room, &guest_chain_id);
    let sync_room = crate::room::clone_room(&room);
    state.room = Option::Some(room);
    let mut out: Vec<Outbound> = Vec::new();
    out.push(
        Outbound {
            target: guest_chain_id,
            message: CrossChainMessage::InitialStateSync { room: sync_room },
        },
    );
    Ok(out)
}

/// The audit record of a rejected attack: invalid, carrying the error,
/// with the turn left with the attacker and nothing revealed.
pub open spec fn invalid_reveal_record(
    ri: RevealInfo,
    attacker: Seq<char>,
    defender: Seq<char>,
    row: u8,
    col: u8,
    e: BoardError,
    now: u64,
) -> bool {
    &&& ri.attacker_chain_id@ == attacker
    &&& ri.defender_chain_id@ == defender
    &&& ri.row == row && ri.col == col
    &&& !ri.valid && ri.error == Some(e)
    &&& !ri.hit && !ri.sunk
    &&& ri.sunk_ship_cells is None && ri.adjacent_coords is None
    &&& ri.next_attacker@ == attacker
    &&& !ri.game_over && ri.winner_chain_id is None
    &&& ri.timestamp == now
}

pub open spec fn sends_invalid_reveal(
    o: Outbound,
    attacker: Seq<char>,
    defender: Seq<char>,
    row: u8,
    col: u8,
    e: BoardError,
) -> bool {
    &&& o.target@ == attacker
    &&& o.message matches CrossChainMessage::RevealResult {
        defender_chain_id,
        row: mr,
        col: mc,
        valid,
        error,
        hit,
        sunk,
        sunk_ship_cells,
        adjacent_coords,
        next_attacker,
        game_over,
        winner_chain_id,
    } && {
        &&& defender_chain_id@ == defender
        &&& mr == row && mc == col
        &&& !valid && error == Some(e)
        &&& !hit && !sunk
        &&& sunk_ship_cells is None && adjacent_coords is None
        &&& next_attacker@ == attacker
        &&& !game_over && winner_chain_id is None
    }
}

/// What a landed attack at `(row, col)` on board `b` reports: whether it
/// hit, whether it sank that ship, whether it ended the game, and — only
/// on a sink — the ship's cells and exactly the open border around them.
pub open spec fn exchange_payload(
    b: Board,
    row: u8,
    col: u8,
    hit: bool,
    sunk: bool,
    scells: Option<Vec<Coord>>,
    adj: Option<Vec<Coord>>,
    game_over: bool,
) -> bool {
    let sid_opt = cell_at(b.cells@, b.size, row as int, col as int).ship_id;
    &&& hit == (sid_opt is Some)
    &&& sunk == (sid_opt matches Some(s) && sunk_by_attack(b, s as int, row, col))
    &&& game_over == game_over_after(b, row, col)
    &&& if sunk {
        &&& scells matches Some(sc) && sc@ == b.ships@[sid_opt.unwrap() as int].cells@
        &&& adj matches Some(av) && {
            let sid = sid_opt.unwrap() as int;
            &&& forall|m: int|
                0 <= m < av@.len() ==> splash_cell(
                    b,
                    sid,
                    (#[trigger] av@[m]).row as int,
                    av@[m].col as int,
                )
            &&& forall|r2: int, c2: int|
                #[trigger] splash_cell(b, sid, r2, c2) ==> coord_in_seq(av@, r2, c2)
            &&& forall|m1: int, m2: int|
                0 <= m1 < av@.len() && 0 <= m2 < av@.len() && m1 != m2 ==> av@[m1] != av@[m2]
        }
    } else {
        scells is None && adj is None
    }
}

/// The audit record of a landed attack.
pub open spec fn valid_reveal_record(
    ri: RevealInfo,
    attacker: Seq<char>,
    defender: Seq<char>,
    row: u8,
    col: u8,
    b: Board,
    now: u64,
) -> bool {
    &&& ri.attacker_chain_id@ == attacker
    &&& ri.defender_chain_id@ == defender
    &&& ri.row == row && ri.col == col
    &&& ri.valid && ri.error is None
    &&& exchange_payload(b, row, col, ri.hit, ri.sunk, ri.sunk_ship_cells, ri.adjacent_coords, ri.game_over)
    &&& ri.next_attacker@ == (if ri.hit {
        attacker
    } else {
        defender
    })
    &&& (ri.game_over ==> (ri.winner_chain_id matches Some(w) && w@ == attacker))
    &&& (!ri.game_over ==> ri.winner_chain_id is None)
    &&& ri.timestamp == now
}

pub open spec fn sends_valid_reveal(
    o: Outbound,
    attacker: Seq<char>,
    defender: Seq<char>,
    row: u8,
    col: u8,
    b: Board,
) -> bool {
    &&& o.target@ == attacker
    &&& o.message matches CrossChainMessage::RevealResult {
        defender_chain_id,
        row: mr,
        col: mc,
        valid,
        error,
        hit,
        sunk,
        sunk_ship_cells,
        adjacent_coords,
        next_attacker,
        game_over,
        winner_chain_id,
    } && {
        &&& defender_chain_id@ == defender
        &&& mr == row && mc == col
        &&& valid && error is None
        &&& exchange_payload(b, row, col, hit, sunk, sunk_ship_cells, adjacent_coords, game_over)
        &&& next_attacker@ == (if hit {
            attacker
        } else {
            defender
        })
        &&& (game_over ==> (winner_chain_id matches Some(w) && w@ == attacker))
        &&& (!game_over ==> winner_chain_id is None)
    }
}

/// How the defender's room moves after a landed attack: the attacker
/// keeps the turn on a hit and loses it on a miss, the pending attack is
/// cleared, and a finished game ends the room with the attacker as
/// winner.
pub open spec fn attack_room_updated(
    room: Room,
    room2: Room,
    attacker: Seq<char>,
    defender: Seq<char>,
    b: Board,
    row: u8,
    col: u8,
) -> bool {
    let hit = cell_at(b.cells@, b.size, row as int, col as int).ship_id is Some;
    let go = game_over_after(b, row, col);
    &&& room2.room_id == room.room_id
    &&& room2.host_chain_id == room.host_chain_id
    &&& room2.players == room.players
    &&& room2.current_attacker matches Some(a) && a@ == (if hit {
        attacker
    } else {
        defender
    })
    &&& room2.pending_attack is None
    &&& if go {
        &&& room2.status == RoomStatus::Ended
        &&& room2.game_state == GameState::Ended
        &&& room2.winner_chain_id matches Some(w) && w@ == attacker
    } else {
        &&& room2.status == room.status
        &&& room2.game_state == room.game_state
        &&& room2.winner_chain_id == room.winner_chain_id
    }
}

/// Effect of `AttackRequest`, on the defender: stale or out-of-turn
/// requests are dropped silently; a missing board is fatal. A rejected
/// attack (out of bounds or repeated) advances nothing and is answered
/// with an invalid reveal, so the attacker may retry; a landed attack
/// advances the board, the turn and, on a finished game, the room, and is
/// answered with the full outcome.
pub open spec fn attack_request_post(
    pre: BattleshipState,
    ctx: PeerContext,
    attacker_chain_id: String,
    row: u8,
    col: u8,
    post: BattleshipState,
    r: Result<Vec<Outbound>, OpError>,
) -> bool {
    match pre.room {
        Option::None => same_state(pre, post) && r == Err::<Vec<Outbound>, OpError>(
            OpError::NoRoom,
        ),
        Option::Some(room) => {
            if room.game_state != GameState::InGame {
                same_state(pre, post) && (r matches Ok(ms) && ms@.len() == 0)
            } else if !(room.current_attacker matches Some(a) && a@ == attacker_chain_id@) {
                same_state(pre, post) && (r matches Ok(ms) && ms@.len() == 0)
            } else if pre.board is None {
                same_state(pre, post) && r == Err::<Vec<Outbound>, OpError>(
                    OpError::BoardNotSubmitted,
                )
            } else {
                let b = pre.board.unwrap();
                &&& post.enemy_view == pre.enemy_view
                &&& post.subscribed_to_host == pre.subscribed_to_host
                &&& post.last_notification == pre.last_notification
                &&& same_social(pre, post)
                &&& same_invites(pre, post)
                &&& same_queue(pre, post)
                &&& if !attack_allowed(b, row, col) {
                    let e = if !attack_in_bounds(b, row, col) {
                        BoardError::OutOfBounds
                    } else {
                        BoardError::AlreadyAttacked
                    };
                    &&& post.room == pre.room
                    &&& post.board == pre.board
                    &&& post.last_reveal matches Some(ri) && invalid_reveal_record(
                        ri,
                        attacker_chain_id@,
                        ctx.self_chain@,
                        row,
                        col,
                        e,
                        ctx.now,
                    )
                    &&& r matches Ok(ms) && ms@.len() == 1 && sends_invalid_reveal(
                        ms@[0],
                        attacker_chain_id@,
                        ctx.self_chain@,
                        row,
                        col,
                        e,
                    )
                } else {
                    &&& post.board matches Some(b2) && board_wf(b2) && board_after_exchange(
                        b,
                        b2,
                        row,
                        col,
                    )
                    &&& post.room matches Some(room2) && attack_room_updated(
                        room,
                        room2,
                        attacker_chain_id@,
                        ctx.self_chain@,
                        b,
                        row,
                        col,
                    )
                    &&& post.last_reveal matches Some(ri) && valid_reveal_record(
                        ri,
                        attacker_chain_id@,
                        ctx.self_chain@,
                        row,
                        col,
                        b,
                        ctx.now,
                    )
                    &&& r matches Ok(ms) && ms@.len() == 1 && sends_valid_reveal(
                        ms@[0],
                        attacker_chain_id@,
                        ctx.self_chain@,
                        row,
                        col,
                        b,
                    )
                }
            }
        },
    }
}

pub fn on_attack_request(
    state: &mut BattleshipState,
    ctx: &PeerContext,
    attacker_chain_id: String,
    row: u8,
    col: u8,
) -> (r: Result<Vec<Outbound>, OpError>)
    requires
        state_wf(*old(state)),
    ensures
        state_wf(*final(state)),
        attack_request_post(*old(state), *ctx, attacker_chain_id, row, col, *final(state), r),
{
    let room_opt = state.room.take();
    let mut room = match room_opt {
        Option::None => {
            return Err(OpError::NoRoom);
        },
        Option::Some(room) => room,
    };
    if !(room.game_state == GameState::InGame) {
        state.room = Option::Some(room);
        return Ok(Vec::new());
    }
    let is_turn = match &room.current_attacker {
        Option::Some(a) => *a == attacker_chain_id,
        Option::None => false,
    };
    if !is_turn {
        state.room = Option::Some(room);
        return Ok(Vec::new());
    }
    let board_opt = state.board.take();
    let mut board = match board_opt {
        Option::None => {
            state.room = Option::Some(room);
            return Err(OpError::BoardNotSubmitted);
        },
        Option::Some(b) => b,
    };
    let ghost b0 = board;
    match apply_attack(&mut board, row, col) {
        Result::Err(e) => {
            state.board = Option::Some(board);
            state.room = Option::Some(room);
            state.last_reveal = Option::Some(
                RevealInfo {
                    attacker_chain_id: attacker_chain_id.clone(),
                    defender_chain_id: ctx.self_chain.clone(),
                    row,
                    col,
                    valid: false,
                    error: Option::Some(e),
                    hit: false,
                    sunk: false,
                    sunk_ship_cells: Option::None,
                    adjacent_coords: Option::None,
                    next_attacker: attacker_chain_id.clone(),
                    game_over: false,
                    winner_chain_id: Option::None,
                    timestamp: ctx.now,
                },
            );
            let mut out: Vec<Outbound> = Vec::new();
            out.push(
                Outbound {
                    target: attacker_chain_id.clone(),
                    message: CrossChainMessage::RevealResult {
                        defender_chain_id: ctx.self_chain.clone(),
                        row,
                        col,
                        valid: false,
                        error: Option::Some(e),
                        hit: false,
                        sunk: false,
                        sunk_ship_cells: Option::None,
                        adjacent_coords: Option::None,
                        next_attacker: attacker_chain_id,
                        game_over: false,
                        winner_chain_id: Option::None,
                    },
                },
            );
            Ok(out)
        },
        Result::Ok((hit, sunk, ship_id, game_over)) => {
            let ghost bmid = board;
            proof {
                lemma_mid_board_equiv(b0, bmid, row, col);
            }
            let mut sunk_ship_cells: Option<Vec<Coord>> = Option::None;
            let mut adjacent_coords: Option<Vec<Coord>> = Option::None;
            if sunk {
                match ship_id {
                    Option::Some(sid) => {
                        proof {
                            lemma_ship_id_bounds(b0, row, col);
                        }
                        match apply_sunk_padding(&mut board, sid) {
                            Result::Ok((sc, adj)) => {
                                proof {
                                    crate::board::lemma_grid_after_mark(b0, bmid.cells@, row, col);
                                    assert forall|m: int| 0 <= m < adj@.len() implies splash_cell(
                                        b0,
                                        sid as int,
                                        (#[trigger] adj@[m]).row as int,
                                        adj@[m].col as int,
                                    ) by {
                                        assert(splash_cell(
                                            bmid,
                                            sid as int,
                                            adj@[m].row as int,
                                            adj@[m].col as int,
                                        ));
                                    }
                                    assert forall|r2: int, c2: int| #[trigger] splash_cell(
                                        b0,
                                        sid as int,
                                        r2,
                                        c2,
                                    ) implies coord_in_seq(adj@, r2, c2) by {
                                        assert(splash_cell(bmid, sid as int, r2, c2));
                                    }
                                    assert forall|r2: int, c2: int|
                                        grid_in_bounds(b0.size, r2, c2) implies #[trigger] cell_at(
                                        board.cells@,
                                        board.size,
                                        r2,
                                        c2,
                                    ) == (Cell {
                                        ship_id: cell_at(b0.cells@, b0.size, r2, c2).ship_id,
                                        attacked: cell_at(b0.cells@, b0.size, r2, c2).attacked || (
                                        r2 == row as int && c2 == col as int) || splash_cell(
                                            b0,
                                            sid as int,
                                            r2,
                                            c2,
                                        ),
                                    }) by {
                                        assert(cell_at(board.cells@, board.size, r2, c2) == (Cell {
                                            ship_id: cell_at(
                                                bmid.cells@,
                                                bmid.size,
                                                r2,
                                                c2,
                                            ).ship_id,
                                            attacked: cell_at(
                                                bmid.cells@,
                                                bmid.size,
                                                r2,
                                                c2,
                                            ).attacked || splash_cell(bmid, sid as int, r2, c2),
                                        }));
                                    }
                                    assert(board_after_exchange(b0, board, row, col));
                                }
                                sunk_ship_cells = Option::Some(sc);
                                adjacent_coords = Option::Some(adj);
                            },
                            Result::Err(_) => {
                                proof {
                                    assert(false);
                                }
                            },
                        }
                    },
                    Option::None => {
                        proof {
                            assert(false);
                        }
                    },
                }
            } else {
                proof {
                    crate::board::lemma_grid_after_mark(b0, bmid.cells@, row, col);
                    assert forall|r2: int, c2: int|
                        grid_in_bounds(b0.size, r2, c2) implies #[trigger] cell_at(
                        board.cells@,
                        board.size,
                        r2,
                        c2,
                    ) == (Cell {
                        ship_id: cell_at(b0.cells@, b0.size, r2, c2).ship_id,
                        attacked: cell_at(b0.cells@, b0.size, r2, c2).attacked || (r2
                            == row as int && c2 == col as int),
                    }) by {
                        if !(r2 == row as int && c2 == col as int) {
                            assert(cell_at(board.cells@, board.size, r2, c2) == cell_at(
                                b0.cells@,
                                b0.size,
                                r2,
                                c2,
                            ));
                        }
                    }
                    assert(board_after_exchange(b0, board, row, col));
                }
            }
            state.board = Option::Some(board);
            let next_attacker = if hit {
                attacker_chain_id.clone()
            } else {
                ctx.self_chain.clone()
            };
            room.current_attacker = Option::Some(next_attacker.clone());
            room.pending_attack = Option::None;
            if game_over {
                room.game_state = GameState::Ended;
                room.status = RoomStatus::Ended;
                room.winner_chain_id = Option::Some(attacker_chain_id.clone());
            }
            state.room = Option::Some(room);
            let reveal_scells = match &sunk_ship_cells {
                Option::Some(v) => Option::Some(clone_coords(v)),
                Option::None => Option::None,
            };
            let reveal_adj = match &adjacent_coords {
                Option::Some(v) => Option::Some(clone_coords(v)),
                Option::None => Option::None,
            };
            state.last_reveal = Option::Some(
                RevealInfo {
                    attacker_chain_id: attacker_chain_id.clone(),
                    defender_chain_id: ctx.self_chain.clone(),
                    row,
                    col,
                    valid: true,
                    error: Option::None,
                    hit,
                    sunk,
                    sunk_ship_cells: reveal_scells,
                    adjacent_coords: reveal_adj,
                    next_attacker: next_attacker.clone(),
                    game_over,
                    winner_chain_id: if game_over {
                        Option::Some(attacker_chain_id.clone())
                    } else {
                        Option::None
                    },
                    timestamp: ctx.now,
                },
            );
            let winner_msg = if game_over {
                Option::Some(attacker_chain_id.clone())
            } else {
                Option::None
            };
            let mut out: Vec<Outbound> = Vec::new();
            out.push(
                Outbound {
                    target: attacker_chain_id,
                    message: CrossChainMessage::RevealResult {
                        defender_chain_id: ctx.self_chain.clone(),
                        row,
                        col,
                        valid: true,
                        error: Option::None,
                        hit,
                        sunk,
                        sunk_ship_cells,
                        adjacent_coords,
                        next_attacker,
                        game_over,
                        winner_chain_id: winner_msg,
                    },
                },
            );
            Ok(out)
        },
    }
}

/// The coordinate list an optional field carries, the empty one when the
/// field is absent.
pub open spec fn opt_coords_view(o: Option<Vec<Coord>>) -> Seq<Coord> {
    match o {
        Option::Some(v) => v@,
        Option::None => Seq::empty(),
    }
}

pub open spec fn opt_coords_eq(a: Option<Vec<Coord>>, b: Option<Vec<Coord>>) -> bool {
    match (a, b) {
        (Option::None, Option::None) => true,
        (Option::Some(x), Option::Some(y)) => x@ == y@,
        _ => false,
    }
}

/// Effect of `RevealResult`, on the attacker: accepted only while a
/// pending attack exists and matches the reply's coordinate, so stale
/// replies change nothing. The reply is recorded as the audit record; a
/// valid one is folded into the enemy view cell by cell, and the turn and
/// room advance exactly as the defender computed them.
pub open spec fn reveal_result_post(
    pre: BattleshipState,
    ctx: PeerContext,
    defender_chain_id: String,
    row: u8,
    col: u8,
    valid: bool,
    error: Option<BoardError>,
    hit: bool,
    sunk: bool,
    sunk_ship_cells: Option<Vec<Coord>>,
    adjacent_coords: Option<Vec<Coord>>,
    next_attacker: String,
    game_over: bool,
    winner_chain_id: Option<String>,
    post: BattleshipState,
    r: Result<Vec<Outbound>, OpError>,
) -> bool {
    match pre.room {
        Option::None => same_state(pre, post) && r == Err::<Vec<Outbound>, OpError>(
            OpError::NoRoom,
        ),
        Option::Some(room) => {
            if room.game_state != GameState::InGame && room.game_state != GameState::Ended {
                same_state(pre, post) && (r matches Ok(ms) && ms@.len() == 0)
            } else if !(room.pending_attack matches Some(p) && p.row == row && p.col == col) {
                same_state(pre, post) && (r matches Ok(ms) && ms@.len() == 0)
            } else {
                &&& post.board == pre.board
                &&& post.subscribed_to_host == pre.subscribed_to_host
                &&& post.last_notification == pre.last_notification
                &&& same_social(pre, post)
                &&& same_invites(pre, post)
                &&& same_queue(pre, post)
                &&& post.last_reveal matches Some(ri) && {
                    &&& ri.attacker_chain_id@ == ctx.self_chain@
                    &&& ri.defender_chain_id@ == defender_chain_id@
                    &&& ri.row == row && ri.col == col
                    &&& ri.valid == valid && ri.error == error
                    &&& ri.hit == hit && ri.sunk == sunk
                    &&& opt_coords_eq(ri.sunk_ship_cells, sunk_ship_cells)
                    &&& opt_coords_eq(ri.adjacent_coords, adjacent_coords)
                    &&& ri.next_attacker@ == next_attacker@
                    &&& ri.game_over == game_over
                    &&& opt_str_eq(ri.winner_chain_id, winner_chain_id)
                    &&& ri.timestamp == ctx.now
                }
                &&& if valid {
                    post.enemy_view matches Some(v2) && {
                        let base_size = match pre.enemy_view {
                            Option::Some(v) => v.size,
                            Option::None => 10u8,
                        };
                        &&& v2.size == base_size
                        &&& view_wf(v2)
                        &&& forall|r2: int, c2: int|
                            grid_in_bounds(base_size, r2, c2) ==> #[trigger] view_cell_at(
                                v2,
                                r2,
                                c2,
                            ) == revealed_cell(
                                (match pre.enemy_view {
                                    Option::Some(v) => view_cell_at(v, r2, c2),
                                    Option::None => EnemyCell::Unknown,
                                }),
                                row,
                                col,
                                hit,
                                sunk,
                                opt_coords_view(sunk_ship_cells),
                                opt_coords_view(adjacent_coords),
                                r2,
                                c2,
                            )
                    }
                } else {
                    post.enemy_view == pre.enemy_view
                }
                &&& post.room matches Some(room2) && {
                    &&& room2.room_id == room.room_id
                    &&& room2.host_chain_id == room.host_chain_id
                    &&& room2.players == room.players
                    &&& room2.current_attacker matches Some(a) && a@ == next_attacker@
                    &&& room2.pending_attack is None
                    &&& if game_over {
                        &&& room2.status == RoomStatus::Ended
                        &&& room2.game_state == GameState::Ended
                        &&& opt_str_eq(room2.winner_chain_id, winner_chain_id)
                    } else {
                        &&& room2.status == room.status
                        &&& room2.game_state == room.game_state
                        &&& room2.winner_chain_id == room.winner_chain_id
                    }
                }
                &&& r matches Ok(ms) && ms@.len() == 0
            }
        },
    }
}

pub fn on_reveal_result(
    state: &mut BattleshipState,
    ctx: &PeerContext,
    defender_chain_id: String,
    row: u8,
    col: u8,
    valid: bool,
    error: Option<BoardError>,
    hit: bool,
    sunk: bool,
    sunk_ship_cells: Option<Vec<Coord>>,
    adjacent_coords: Option<Vec<Coord>>,
    next_attacker: String,
    game_over: bool,
    winner_chain_id: Option<String>,
) -> (r: Result<Vec<Outbound>, OpError>)
    requires
        state_wf(*old(state)),
    ensures
        state_wf(*final(state)),
        reveal_result_post(
            *old(state),
            *ctx,
            defender_chain_id,
            row,
            col,
            valid,
            error,
            hit,
            sunk,
            sunk_ship_cells,
            adjacent_coords,
            next_attacker,
            game_over,
            winner_chain_id,
            *final(state),
            r,
        ),
{
    let room_opt = state.room.take();
    let mut room = match room_opt {
        Option::None => {
            return Err(OpError::NoRoom);
        },
        Option::Some(room) => room,
    };
    if !(room.game_state == GameState::InGame) && !(room.game_state == GameState::Ended) {
        state.room = Option::Some(room);
        return Ok(Vec::new());
    }
    let pending_matches = match &room.pending_attack {
        Option::Some(p) => p.row == row && p.col == col,
        Option::None => false,
    };
    if !pending_matches {
        state.room = Option::Some(room);
        return Ok(Vec::new());
    }
    let reveal_scells = match &sunk_ship_cells {
        Option::Some(v) => Option::Some(clone_coords(v)),
        Option::None => Option::None,
    };
    let reveal_adj = match &adjacent_coords {
        Option::Some(v) => Option::Some(clone_coords(v)),
        Option::None => Option::None,
    };
    let reveal_winner = match &winner_chain_id {
        Option::Some(w) => Option::Some(w.clone()),
        Option::None => Option::None,
    };
    state.last_reveal = Option::Some(
        RevealInfo {
            attacker_chain_id: ctx.self_chain.clone(),
            defender_chain_id,
            row,
            col,
            valid,
            error,
            hit,
            sunk,
            sunk_ship_cells: reveal_scells,
            adjacent_coords: reveal_adj,
            next_attacker: next_attacker.clone(),
            game_over,
            winner_chain_id: reveal_winner,
            timestamp: ctx.now,
        },
    );
    if valid {
        let view_opt = state.enemy_view.take();
        let mut view = match view_opt {
            Option::Some(v) => v,
            Option::None => empty_enemy_view(10),
        };
        let empty_list: Vec<Coord> = Vec::new();
        let sc_ref: &Vec<Coord> = match &sunk_ship_cells {
            Option::Some(v) => v,
            Option::None => &empty_list,
        };
        let adj_ref: &Vec<Coord> = match &adjacent_coords {
            Option::Some(v) => v,
            Option::None => &empty_list,
        };
        apply_reveal_to_view(&mut view, row, col, hit, sunk, sc_ref, adj_ref);
        state.enemy_view = Option::Some(view);
    }
    room.current_attacker = Option::Some(next_attacker);
    room.pending_attack = Option::None;
    if game_over {
        room.game_state = GameState::Ended;
        room.status = RoomStatus::Ended;
        room.winner_chain_id = winner_chain_id;
    }
    state.room = Option::Some(room);
    Ok(Vec::new())
}

/// What each inbound message does: the per-variant effect predicates,
/// gathered under one roof for `execute_message`'s contract.
pub open spec fn message_post(
    pre: BattleshipState,
    ctx: PeerContext,
    msg: CrossChainMessage,
    post: BattleshipState,
    r: Result<Vec<Outbound>, OpError>,
) -> bool {
    match msg {
        CrossChainMessage::JoinRequest { player_chain_id, player_name } => join_request_post(
            pre,
            ctx,
            player_chain_id,
            player_name,
            post,
            r,
        ),
        CrossChainMessage::InitialStateSync { room } => room_sync_post(
            pre,
            ctx,
            room,
            true,
            post,
            r,
        ),
        CrossChainMessage::RoomSync { room } => room_sync_post(pre, ctx, room, false, post, r),
        CrossChainMessage::BoardSubmittedNotice { player_chain_id } => board_submitted_notice_post(
            pre,
            ctx,
            player_chain_id,
            post,
            r,
        ),
        CrossChainMessage::AttackRequest { attacker_chain_id, row, col } => attack_request_post(
            pre,
            ctx,
            attacker_chain_id,
            row,
            col,
            post,
            r,
        ),
        CrossChainMessage::RevealResult {
            defender_chain_id,
            row,
            col,
            valid,
            error,
            hit,
            sunk,
            sunk_ship_cells,
            adjacent_coords,
            next_attacker,
            game_over,
            winner_chain_id,
        } => reveal_result_post(
            pre,
            ctx,
            defender_chain_id,
            row,
            col,
            valid,
            error,
            hit,
            sunk,
            sunk_ship_cells,
            adjacent_coords,
            next_attacker,
            game_over,
            winner_chain_id,
            post,
            r,
        ),
        CrossChainMessage::LeaveNotice { player_chain_id: _ } => leave_notice_post(
            pre,
            ctx,
            post,
            r,
        ),
        CrossChainMessage::FriendRequest { requester_chain_id } => friend_request_post(
            pre,
            requester_chain_id,
            post,
            r,
        ),
        CrossChainMessage::FriendAccepted { target_chain_id } => friend_accepted_post(
            pre,
            target_chain_id,
            post,
            r,
        ),
        CrossChainMessage::RoomInvitation { host_chain_id, timestamp } => room_invitation_post(
            pre,
            host_chain_id,
            timestamp,
            post,
            r,
        ),
        CrossChainMessage::RoomInvitationCancelled { host_chain_id } => invitation_cancelled_post(
            pre,
            host_chain_id,
            post,
            r,
        ),
        CrossChainMessage::MatchmakingEnqueue { player_chain_id, player_name } =>
            matchmaking_enqueue_post(
            pre,
            ctx,
            player_chain_id,
            player_name,
            post,
            r,
        ),
        CrossChainMessage::MatchmakingEnqueued { orchestrator_chain_id } =>
            matchmaking_enqueued_post(
            pre,
            orchestrator_chain_id,
            post,
            r,
        ),
        CrossChainMessage::MatchmakingStart { host_name, guest_chain_id, guest_name } =>
            matchmaking_start_post(
            pre,
            ctx,
            host_name,
            guest_chain_id,
            guest_name,
            post,
            r,
        ),
        CrossChainMessage::MatchmakingFound { host_chain_id } => matchmaking_found_post(
            pre,
            host_chain_id,
            post,
            r,
        ),
    }
}

/// React to one inbound message against the peer's own state: the pure
/// heart of the receive loop. An `Err` is a fatal precondition violation,
/// and the state is then exactly as it was; stale or duplicate messages
/// come back `Ok` with nothing changed and nothing to send.
pub fn execute_message(state: &mut BattleshipState, ctx: &PeerContext, msg: CrossChainMessage) -> (
    r: Result<Vec<Outbound>, OpError>)
    requires
        state_wf(*old(state)),
    ensures
        state_wf(*final(state)),
        message_post(*old(state), *ctx, msg, *final(state), r),
{
    match msg {
        CrossChainMessage::JoinRequest { player_chain_id, player_name } => on_join_request(
            state,
            ctx,
            player_chain_id,
            player_name,
        ),
        CrossChainMessage::InitialStateSync { room } => on_initial_state_sync(state, ctx, room),
        CrossChainMessage::RoomSync { room } => on_room_sync(state, ctx, room),
        CrossChainMessage::BoardSubmittedNotice { player_chain_id } => on_board_submitted_notice(
            state,
            ctx,
            player_chain_id,
        ),
        CrossChainMessage::AttackRequest { attacker_chain_id, row, col } => on_attack_request(
            state,
            ctx,
            attacker_chain_id,
            row,
            col,
        ),
        CrossChainMessage::RevealResult {
            defender_chain_id,
            row,
            col,
            valid,
            error,
            hit,
            sunk,
            sunk_ship_cells,
            adjacent_coords,
            next_attacker,
            game_over,
            winner_chain_id,
        } => on_reveal_result(
            state,
            ctx,
            defender_chain_id,
            row,
            col,
            valid,
            error,
            hit,
            sunk,
            sunk_ship_cells,
            adjacent_coords,
            next_attacker,
            game_over,
            winner_chain_id,
        ),
        CrossChainMessage::LeaveNotice { player_chain_id: _ } => on_leave_notice(state, ctx),
        CrossChainMessage::FriendRequest { requester_chain_id } => on_friend_request(
            state,
            requester_chain_id,
        ),
        CrossChainMessage::FriendAccepted { target_chain_id } => on_friend_accepted(
            state,
            target_chain_id,
        ),
        CrossChainMessage::RoomInvitation { host_chain_id, timestamp } => on_room_invitation(
            state,
            host_chain_id,
            timestamp,
        ),
        CrossChainMessage::RoomInvitationCancelled { host_chain_id } =>
            on_room_invitation_cancelled(state, host_chain_id),
        CrossChainMessage::MatchmakingEnqueue { player_chain_id, player_name } =>
            on_matchmaking_enqueue(state, ctx, player_chain_id, player_name),
        CrossChainMessage::MatchmakingEnqueued { orchestrator_chain_id } =>
            on_matchmaking_enqueued(state, orchestrator_chain_id),
        CrossChainMessage::MatchmakingStart { host_name, guest_chain_id, guest_name } =>
            on_matchmaking_start(state, ctx, host_name, guest_chain_id, guest_name),
        CrossChainMessage::MatchmakingFound { host_chain_id } => on_matchmaking_found(
            state,
            host_chain_id,
        ),
    }
}

/// Turn alternation: when the defender accepts and lands an attack, the
/// attacker keeps the turn exactly on a hit and loses it to the defender
/// on a miss; and when the attack finishes the game, the room is ended
/// outright, so a later `Attack` operation in that room is rejected
/// without any state change.
pub proof fn lemma_turn_alternation(
    pre: BattleshipState,
    ctx: PeerContext,
    attacker_chain_id: String,
    row: u8,
    col: u8,
    post: BattleshipState,
    r: Result<Vec<Outbound>, OpError>,
)
    requires
        attack_request_post(pre, ctx, attacker_chain_id, row, col, post, r),
        pre.room matches Some(room) && room.game_state == GameState::InGame && (
        room.current_attacker matches Some(a) && a@ == attacker_chain_id@),
        pre.board matches Some(b) && attack_allowed(b, row, col),
    ensures
        post.room is Some,
        cell_at(
            pre.board.unwrap().cells@,
            pre.board.unwrap().size,
            row as int,
            col as int,
        ).ship_id is Some ==> (post.room.unwrap().current_attacker matches Some(a) && a@
            == attacker_chain_id@),
        cell_at(
            pre.board.unwrap().cells@,
            pre.board.unwrap().size,
            row as int,
            col as int,
        ).ship_id is None ==> (post.room.unwrap().current_attacker matches Some(a) && a@
            == ctx.self_chain@),
        game_over_after(pre.board.unwrap(), row, col) ==> post.room.unwrap().game_state
            == GameState::Ended && post.room.unwrap().status == RoomStatus::Ended,
        game_over_after(pre.board.unwrap(), row, col) ==> forall|
            post2: BattleshipState,
            r2: Result<Vec<Outbound>, OpError>,
            row2: u8,
            col2: u8,
        |
            crate::operations::attack_post(post, ctx, row2, col2, post2, r2) ==> r2 is Err
                && crate::state::same_state(post, post2),
{
    let b = pre.board.unwrap();
    if game_over_after(b, row, col) {
        assert forall|
            post2: BattleshipState,
            r2: Result<Vec<Outbound>, OpError>,
            row2: u8,
            col2: u8,
        |
            crate::operations::attack_post(post, ctx, row2, col2, post2, r2) implies r2 is Err
            && crate::state::same_state(post, post2) by {
            assert(post.room.unwrap().game_state != GameState::InGame);
        }
    }
}

/// Matchmaking is idempotent per address: enqueueing a player who is
/// already waiting leaves the queue exactly as it was (and, when fewer
/// than two are waiting, pairs nobody).
pub proof fn lemma_enqueue_idempotent(
    pre: BattleshipState,
    ctx: PeerContext,
    player_chain_id: String,
    player_name: String,
    post: BattleshipState,
    r: Result<Vec<Outbound>, OpError>,
)
    requires
        matchmaking_enqueue_post(pre, ctx, player_chain_id, player_name, post, r),
        queue_has_addr(pre.matchmaking_queue@, player_chain_id@),
        pre.matchmaking_queue@.len() < 2,
    ensures
        post.matchmaking_queue == pre.matchmaking_queue,
        r matches Ok(ms) && ms@.len() == 1,
{
}

} // verus!
