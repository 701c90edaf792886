//! The local operation surface: each operation is a pure handler from the
//! peer's own state to a new state and the messages to send. A fatal
//! precondition violation rejects the whole operation and commits nothing.

use vstd::prelude::*;
use vstd::string::StringExecFns;
use crate::board::{build_error, built_from, board_wf, ShipPlacementInput};
use crate::protocol::{
    sends_attack_request, sends_board_submitted_notice, sends_friend_accepted,
    sends_friend_request, sends_invitation_cancelled, sends_join_request,
    sends_leave_notice, sends_matchmaking_enqueue, sends_room_invitation, sends_room_sync,
    CrossChainMessage, Operation, Outbound,
};
use crate::board::{validate_and_build_board, Coord};
use crate::room::{
    clone_room, find_enemy_chain_id, find_invite_index, find_str_index, has_other_player,
    invite_in_seq, is_first_invite_at, is_first_other, is_first_str_at, mark_player_submitted,
    players_with_submitted, room_same_but_players, str_in_seq, GameState, PlayerInfo, Room,
    RoomStatus,
};
use crate::view::EnemyBoardView;
use crate::state::{
    ensure_enemy_view_created, same_invites, same_queue, same_social, same_state, state_wf,
    view_ensured, BattleshipState, OpError, PeerContext,
};
use crate::view::{EnemyCell};

verus! {

/// The acceptance window for a room invitation, in microseconds.
pub const INVITATION_WINDOW_MICROS: u64 = 300_000_000;

/// An invitation stamped `ts` is fresh at time `now` when `now` is
/// strictly after `ts` and no more than the window has elapsed.
pub open spec fn invitation_fresh(now: u64, ts: u64) -> bool {
    now > ts && now - ts <= INVITATION_WINDOW_MICROS
}

/// The acceptance boundary of the invitation window: a stamp not
/// strictly in the past is never fresh, elapsed time equal to the window
/// is still fresh, and one microsecond more is not.
pub proof fn lemma_invitation_window_boundary(now: u64, ts: u64)
    ensures
        now <= ts ==> !invitation_fresh(now, ts),
        now as int == ts as int + (INVITATION_WINDOW_MICROS as int) ==> invitation_fresh(now, ts),
        now as int == ts as int + (INVITATION_WINDOW_MICROS as int) + 1 ==> !invitation_fresh(
            now,
            ts,
        ),
{
}

/// Effect of `CreateRoom`: a fresh active room waiting for an opponent,
/// with the peer as host and sole player; the audit record is cleared and
/// nothing is sent.
pub open spec fn create_room_post(
    pre: BattleshipState,
    ctx: PeerContext,
    host_name: String,
    post: BattleshipState,
    r: Result<Vec<Outbound>, OpError>,
) -> bool {
    &&& r matches Ok(ms) && ms@.len() == 0
    &&& post.room matches Some(room) && {
        &&& room.room_id@ == ctx.fresh_room_id@
        &&& room.host_chain_id@ == ctx.self_chain@
        &&& room.status == RoomStatus::Active
        &&& room.game_state == GameState::WaitingForPlayer
        &&& room.players@.len() == 1
        &&& room.players@[0].chain_id@ == ctx.self_chain@
        &&& room.players@[0].name@ == host_name@
        &&& !room.players@[0].board_submitted
        &&& room.current_attacker is None
        &&& room.pending_attack is None
        &&& room.winner_chain_id is None
    }
    &&& post.last_reveal is None
    &&& post.board == pre.board
    &&& post.enemy_view == pre.enemy_view
    &&& post.subscribed_to_host == pre.subscribed_to_host
    &&& post.last_notification == pre.last_notification
    &&& same_social(pre, post)
    &&& same_invites(pre, post)
    &&& same_queue(pre, post)
}

pub fn op_create_room(state: &mut BattleshipState, ctx: &PeerContext, host_name: String) -> (r:
    Result<Vec<Outbound>, OpError>)
    requires
        state_wf(*old(state)),
    ensures
        state_wf(*final(state)),
        create_room_post(*old(state), *ctx, host_name, *final(state), r),
{
    let mut players: Vec<PlayerInfo> = Vec::new();
    players.push(
        PlayerInfo { chain_id: ctx.self_chain.clone(), name: host_name, board_submitted: false },
    );
    let room = Room {
        room_id: ctx.fresh_room_id.clone(),
        host_chain_id: ctx.self_chain.clone(),
        status: RoomStatus::Active,
        game_state: GameState::WaitingForPlayer,
        players,
        current_attacker: Option::None,
        pending_attack: Option::None,
        winner_chain_id: Option::None,
    };
    state.room = Option::Some(room);
    state.last_reveal = Option::None;
    Ok(Vec::new())
}

/// Effect of `JoinRoom`: nothing changes locally; a join request carrying
/// the peer's address and name goes to the named host.
pub open spec fn join_room_post(
    pre: BattleshipState,
    ctx: PeerContext,
    host_chain_id: String,
    player_name: String,
    post: BattleshipState,
    r: Result<Vec<Outbound>, OpError>,
) -> bool {
    &&& same_state(pre, post)
    &&& r matches Ok(ms) && ms@.len() == 1 && sends_join_request(
        ms@[0],
        host_chain_id@,
        ctx.self_chain@,
        player_name@,
    )
}

pub fn op_join_room(
    state: &mut BattleshipState,
    ctx: &PeerContext,
    host_chain_id: String,
    player_name: String,
) -> (r: Result<Vec<Outbound>, OpError>)
    requires
        state_wf(*old(state)),
    ensures
        state_wf(*final(state)),
        join_room_post(*old(state), *ctx, host_chain_id, player_name, *final(state), r),
{
    let message = CrossChainMessage::JoinRequest {
        player_chain_id: ctx.self_chain.clone(),
        player_name,
    };
    let mut out: Vec<Outbound> = Vec::new();
    out.push(Outbound { target: host_chain_id, message });
    Ok(out)
}

/// Effect of `SearchPlayer`: a note that the search started, and an
/// enqueue request to the orchestrator.
pub open spec fn search_player_post(
    pre: BattleshipState,
    ctx: PeerContext,
    orchestrator_chain_id: String,
    player_name: String,
    post: BattleshipState,
    r: Result<Vec<Outbound>, OpError>,
) -> bool {
    &&& post.last_notification matches Some(n) && n@ == "Matchmaking search started"@
    &&& post.room == pre.room
    &&& post.board == pre.board
    &&& post.enemy_view == pre.enemy_view
    &&& post.subscribed_to_host == pre.subscribed_to_host
    &&& post.last_reveal == pre.last_reveal
    &&& same_social(pre, post)
    &&& same_invites(pre, post)
    &&& same_queue(pre, post)
    &&& r matches Ok(ms) && ms@.len() == 1 && sends_matchmaking_enqueue(
        ms@[0],
        orchestrator_chain_id@,
        ctx.self_chain@,
        player_name@,
    )
}

pub fn op_search_player(
    state: &mut BattleshipState,
    ctx: &PeerContext,
    orchestrator_chain_id: String,
    player_name: String,
) -> (r: Result<Vec<Outbound>, OpError>)
    requires
        state_wf(*old(state)),
    ensures
        state_wf(*final(state)),
        search_player_post(*old(state), *ctx, orchestrator_chain_id, player_name, *final(state), r),
{
    state.last_notification = Option::Some(String::from_str("Matchmaking search started"));
    let message = CrossChainMessage::MatchmakingEnqueue {
        player_chain_id: ctx.self_chain.clone(),
        player_name,
    };
    let mut out: Vec<Outbound> = Vec::new();
    out.push(Outbound { target: orchestrator_chain_id, message });
    Ok(out)
}

/// Effect of `LeaveRoom`: if an active room with an opponent exists, a
/// leave notice goes to that opponent; either way the room, board, enemy
/// view, subscription and audit record are cleared.
pub open spec fn leave_room_post(
    pre: BattleshipState,
    ctx: PeerContext,
    post: BattleshipState,
    r: Result<Vec<Outbound>, OpError>,
) -> bool {
    &&& post.room is None
    &&& post.board is None
    &&& post.enemy_view is None
    &&& post.subscribed_to_host is None
    &&& post.last_reveal is None
    &&& post.last_notification == pre.last_notification
    &&& same_social(pre, post)
    &&& same_invites(pre, post)
    &&& same_queue(pre, post)
    &&& r matches Ok(ms) && (match pre.room {
        Option::Some(room) => {
            if room.status == RoomStatus::Active && has_other_player(
                room.players@,
                ctx.self_chain@,
            ) {
                exists|i: int|
                    is_first_other(room.players@, ctx.self_chain@, i) && ms@.len() == 1
                        && sends_leave_notice(
                        ms@[0],
                        (#[trigger] room.players@[i]).chain_id@,
                        ctx.self_chain@,
                    )
            } else {
                ms@.len() == 0
            }
        },
        Option::None => ms@.len() == 0,
    })
}

pub fn op_leave_room(state: &mut BattleshipState, ctx: &PeerContext) -> (r: Result<
    Vec<Outbound>,
    OpError,
>)
    requires
        state_wf(*old(state)),
    ensures
        state_wf(*final(state)),
        leave_room_post(*old(state), *ctx, *final(state), r),
{
    let mut out: Vec<Outbound> = Vec::new();
    match &state.room {
        Option::Some(room) => {
            if room.status == RoomStatus::Active {
                match find_enemy_chain_id(room, &ctx.self_chain) {
                    Option::Some(enemy) => {
                        out.push(
                            Outbound {
                                target: enemy,
                                message: CrossChainMessage::LeaveNotice {
                                    player_chain_id: ctx.self_chain.clone(),
                                },
                            },
                        );
                    },
                    Option::None => {},
                }
            }
        },
        Option::None => {},
    }
    state.room = Option::None;
    state.board = Option::None;
    state.enemy_view = Option::None;
    state.subscribed_to_host = Option::None;
    state.last_reveal = Option::None;
    Ok(out)
}

/// Effect of `RequestFriend`: a no-op if the target is already a friend
/// or already asked; otherwise the target is recorded as asked and a
/// friend request goes out.
pub open spec fn request_friend_post(
    pre: BattleshipState,
    ctx: PeerContext,
    target_chain_id: String,
    post: BattleshipState,
    r: Result<Vec<Outbound>, OpError>,
) -> bool {
    &&& post.room == pre.room
    &&& post.board == pre.board
    &&& post.enemy_view == pre.enemy_view
    &&& post.subscribed_to_host == pre.subscribed_to_host
    &&& post.last_reveal == pre.last_reveal
    &&& post.last_notification == pre.last_notification
    &&& post.friends == pre.friends
    &&& post.friend_requests_received == pre.friend_requests_received
    &&& same_invites(pre, post)
    &&& same_queue(pre, post)
    &&& r matches Ok(ms) && {
        if str_in_seq(pre.friends@, target_chain_id@) || str_in_seq(
            pre.friend_requests_sent@,
            target_chain_id@,
        ) {
            post.friend_requests_sent == pre.friend_requests_sent && ms@.len() == 0
        } else {
            &&& post.friend_requests_sent@.len() == pre.friend_requests_sent@.len() + 1
            &&& forall|j: int|
                0 <= j < pre.friend_requests_sent@.len()
                    ==> #[trigger] post.friend_requests_sent@[j] == pre.friend_requests_sent@[j]
            &&& post.friend_requests_sent@[pre.friend_requests_sent@.len() as int]@
                == target_chain_id@
            &&& ms@.len() == 1
            &&& sends_friend_request(ms@[0], target_chain_id@, ctx.self_chain@)
        }
    }
}

pub fn op_request_friend(
    state: &mut BattleshipState,
    ctx: &PeerContext,
    target_chain_id: String,
) -> (r: Result<Vec<Outbound>, OpError>)
    requires
        state_wf(*old(state)),
    ensures
        state_wf(*final(state)),
        request_friend_post(*old(state), *ctx, target_chain_id, *final(state), r),
{
    if find_str_index(&state.friends, &target_chain_id).is_some() {
        return Ok(Vec::new());
    }
    if find_str_index(&state.friend_requests_sent, &target_chain_id).is_some() {
        return Ok(Vec::new());
    }
    state.friend_requests_sent.push(target_chain_id.clone());
    let mut out: Vec<Outbound> = Vec::new();
    out.push(
        Outbound {
            target: target_chain_id,
            message: CrossChainMessage::FriendRequest { requester_chain_id: ctx.self_chain.clone() },
        },
    );
    Ok(out)
}

/// Effect of `AcceptFriend`: only an actually received request does
/// anything; it leaves the received set, and unless the requester is
/// already a friend they are added and told so.
pub open spec fn accept_friend_post(
    pre: BattleshipState,
    ctx: PeerContext,
    requester_chain_id: String,
    post: BattleshipState,
    r: Result<Vec<Outbound>, OpError>,
) -> bool {
    &&& post.room == pre.room
    &&& post.board == pre.board
    &&& post.enemy_view == pre.enemy_view
    &&& post.subscribed_to_host == pre.subscribed_to_host
    &&& post.last_reveal == pre.last_reveal
    &&& post.last_notification == pre.last_notification
    &&& post.friend_requests_sent == pre.friend_requests_sent
    &&& same_invites(pre, post)
    &&& same_queue(pre, post)
    &&& r matches Ok(ms) && {
        if !str_in_seq(pre.friend_requests_received@, requester_chain_id@) {
            &&& post.friend_requests_received == pre.friend_requests_received
            &&& post.friends == pre.friends
            &&& ms@.len() == 0
        } else {
            &&& exists|i: int|
                is_first_str_at(pre.friend_requests_received@, requester_chain_id@, i)
                    && post.friend_requests_received@ == pre.friend_requests_received@.remove(i)
            &&& if str_in_seq(pre.friends@, requester_chain_id@) {
                post.friends == pre.friends && ms@.len() == 0
            } else {
                &&& post.friends@.len() == pre.friends@.len() + 1
                &&& forall|j: int|
                    0 <= j < pre.friends@.len() ==> #[trigger] post.friends@[j] == pre.friends@[j]
                &&& post.friends@[pre.friends@.len() as int]@ == requester_chain_id@
                &&& ms@.len() == 1
                &&& sends_friend_accepted(ms@[0], requester_chain_id@, ctx.self_chain@)
            }
        }
    }
}

pub fn op_accept_friend(
    state: &mut BattleshipState,
    ctx: &PeerContext,
    requester_chain_id: String,
) -> (r: Result<Vec<Outbound>, OpError>)
    requires
        state_wf(*old(state)),
    ensures
        state_wf(*final(state)),
        accept_friend_post(*old(state), *ctx, requester_chain_id, *final(state), r),
{
    match find_str_index(&state.friend_requests_received, &requester_chain_id) {
        Option::None => Ok(Vec::new()),
        Option::Some(pos) => {
            state.friend_requests_received.remove(pos);
            if find_str_index(&state.friends, &requester_chain_id).is_some() {
                return Ok(Vec::new());
            }
            state.friends.push(requester_chain_id.clone());
            let mut out: Vec<Outbound> = Vec::new();
            out.push(
                Outbound {
                    target: requester_chain_id,
                    message: CrossChainMessage::FriendAccepted {
                        target_chain_id: ctx.self_chain.clone(),
                    },
                },
            );
            Ok(out)
        },
    }
}

/// Effect of `DeclineFriend`: the first matching received request leaves
/// the received set; nothing is sent on decline.
pub open spec fn decline_friend_post(
    pre: BattleshipState,
    requester_chain_id: String,
    post: BattleshipState,
    r: Result<Vec<Outbound>, OpError>,
) -> bool {
    &&& post.room == pre.room
    &&& post.board == pre.board
    &&& post.enemy_view == pre.enemy_view
    &&& post.subscribed_to_host == pre.subscribed_to_host
    &&& post.last_reveal == pre.last_reveal
    &&& post.last_notification == pre.last_notification
    &&& post.friends == pre.friends
    &&& post.friend_requests_sent == pre.friend_requests_sent
    &&& same_invites(pre, post)
    &&& same_queue(pre, post)
    &&& r matches Ok(ms) && ms@.len() == 0
    &&& if str_in_seq(pre.friend_requests_received@, requester_chain_id@) {
        exists|i: int|
            is_first_str_at(pre.friend_requests_received@, requester_chain_id@, i)
                && post.friend_requests_received@ == pre.friend_requests_received@.remove(i)
    } else {
        post.friend_requests_received == pre.friend_requests_received
    }
}

pub fn op_decline_friend(state: &mut BattleshipState, requester_chain_id: String) -> (r: Result<
    Vec<Outbound>,
    OpError,
>)
    requires
        state_wf(*old(state)),
    ensures
        state_wf(*final(state)),
        decline_friend_post(*old(state), requester_chain_id, *final(state), r),
{
    match find_str_index(&state.friend_requests_received, &requester_chain_id) {
        Option::None => Ok(Vec::new()),
        Option::Some(pos) => {
            state.friend_requests_received.remove(pos);
            Ok(Vec::new())
        },
    }
}

/// Effect of `AcceptInvite`: only a held invitation does anything; it is
/// consumed either way, and only a fresh one turns into a join request to
/// its host. A stale invitation is dropped silently.
pub open spec fn accept_invite_post(
    pre: BattleshipState,
    ctx: PeerContext,
    host_chain_id: String,
    player_name: String,
    post: BattleshipState,
    r: Result<Vec<Outbound>, OpError>,
) -> bool {
    &&& post.room == pre.room
    &&& post.board == pre.board
    &&& post.enemy_view == pre.enemy_view
    &&& post.subscribed_to_host == pre.subscribed_to_host
    &&& post.last_reveal == pre.last_reveal
    &&& post.last_notification == pre.last_notification
    &&& same_social(pre, post)
    &&& same_queue(pre, post)
    &&& post.sent_invitations == pre.sent_invitations
    &&& r matches Ok(ms) && {
        if !invite_in_seq(pre.room_invitations@, host_chain_id@) {
            post.room_invitations == pre.room_invitations && ms@.len() == 0
        } else {
            exists|i: int|
                {
                    &&& #[trigger] is_first_invite_at(pre.room_invitations@, host_chain_id@, i)
                    &&& post.room_invitations@ == pre.room_invitations@.remove(i)
                    &&& if invitation_fresh(ctx.now, pre.room_invitations@[i].timestamp) {
                        ms@.len() == 1 && sends_join_request(
                            ms@[0],
                            host_chain_id@,
                            ctx.self_chain@,
                            player_name@,
                        )
                    } else {
                        ms@.len() == 0
                    }
                }
        }
    }
}

pub fn op_accept_invite(
    state: &mut BattleshipState,
    ctx: &PeerContext,
    host_chain_id: String,
    player_name: String,
) -> (r: Result<Vec<Outbound>, OpError>)
    requires
        state_wf(*old(state)),
    ensures
        state_wf(*final(state)),
        accept_invite_post(*old(state), *ctx, host_chain_id, player_name, *final(state), r),
{
    match find_invite_index(&state.room_invitations, &host_chain_id) {
        Option::None => Ok(Vec::new()),
        Option::Some(pos) => {
            let invite = state.room_invitations.remove(pos);
            if ctx.now > invite.timestamp && ctx.now - invite.timestamp
                <= INVITATION_WINDOW_MICROS {
                let message = CrossChainMessage::JoinRequest {
                    player_chain_id: ctx.self_chain.clone(),
                    player_name,
                };
                let mut out: Vec<Outbound> = Vec::new();
                out.push(Outbound { target: host_chain_id, message });
                Ok(out)
            } else {
                Ok(Vec::new())
            }
        },
    }
}

/// Effect of `DeclineInvite`: the first invitation from that host leaves
/// the held set; nothing is sent.
pub open spec fn decline_invite_post(
    pre: BattleshipState,
    host_chain_id: String,
    post: BattleshipState,
    r: Result<Vec<Outbound>, OpError>,
) -> bool {
    &&& post.room == pre.room
    &&& post.board == pre.board
    &&& post.enemy_view == pre.enemy_view
    &&& post.subscribed_to_host == pre.subscribed_to_host
    &&& post.last_reveal == pre.last_reveal
    &&& post.last_notification == pre.last_notification
    &&& same_social(pre, post)
    &&& same_queue(pre, post)
    &&& post.sent_invitations == pre.sent_invitations
    &&& r matches Ok(ms) && ms@.len() == 0
    &&& if invite_in_seq(pre.room_invitations@, host_chain_id@) {
        exists|i: int|
            #[trigger] is_first_invite_at(pre.room_invitations@, host_chain_id@, i)
                && post.room_invitations@ == pre.room_invitations@.remove(i)
    } else {
        post.room_invitations == pre.room_invitations
    }
}

pub fn op_decline_invite(state: &mut BattleshipState, host_chain_id: String) -> (r: Result<
    Vec<Outbound>,
    OpError,
>)
    requires
        state_wf(*old(state)),
    ensures
        state_wf(*final(state)),
        decline_invite_post(*old(state), host_chain_id, *final(state), r),
{
    match find_invite_index(&state.room_invitations, &host_chain_id) {
        Option::None => Ok(Vec::new()),
        Option::Some(pos) => {
            state.room_invitations.remove(pos);
            Ok(Vec::new())
        },
    }
}

/// Effect of `SubmitBoard`: a malformed placement list or a missing room
/// rejects the whole operation; otherwise the built board is stored, the
/// peer's own entry is marked submitted, and either the opponent gets a
/// room sync (host side, with the enemy view created lazily) or the host
/// gets a submission notice.
pub open spec fn submit_board_post(
    pre: BattleshipState,
    ctx: PeerContext,
    ships: Vec<ShipPlacementInput>,
    post: BattleshipState,
    r: Result<Vec<Outbound>, OpError>,
) -> bool {
    if build_error(10, ships@) is Some {
        same_state(pre, post) && r == Err::<Vec<Outbound>, OpError>(
            OpError::InvalidBoard(build_error(10, ships@).unwrap()),
        )
    } else if pre.room is None {
        same_state(pre, post) && r == Err::<Vec<Outbound>, OpError>(OpError::NoRoom)
    } else {
        let pre_room = pre.room.unwrap();
        &&& post.board matches Some(b) && board_wf(b) && built_from(b, 10, ships@)
        &&& post.room matches Some(room2) && room_same_but_players(pre_room, room2)
            && players_with_submitted(pre_room.players@, room2.players@, ctx.self_chain@)
        &&& post.subscribed_to_host == pre.subscribed_to_host
        &&& post.last_reveal == pre.last_reveal
        &&& post.last_notification == pre.last_notification
        &&& same_social(pre, post)
        &&& same_invites(pre, post)
        &&& same_queue(pre, post)
        &&& r matches Ok(ms) && {
            let room2 = post.room.unwrap();
            if pre_room.host_chain_id@ == ctx.self_chain@ {
                if has_other_player(room2.players@, ctx.self_chain@) {
                    exists|i: int|
                        is_first_other(room2.players@, ctx.self_chain@, i) && view_ensured(
                            pre.enemy_view,
                            post.enemy_view,
                            room2,
                            (#[trigger] room2.players@[i]).chain_id@,
                        ) && ms@.len() == 1 && sends_room_sync(
                            ms@[0],
                            room2.players@[i].chain_id@,
                            room2,
                        )
                } else {
                    post.enemy_view == pre.enemy_view && ms@.len() == 0
                }
            } else {
                &&& post.enemy_view == pre.enemy_view
                &&& ms@.len() == 1
                &&& sends_board_submitted_notice(
                    ms@[0],
                    pre_room.host_chain_id@,
                    ctx.self_chain@,
                )
            }
        }
    }
}

pub fn op_submit_board(
    state: &mut BattleshipState,
    ctx: &PeerContext,
    ships: Vec<ShipPlacementInput>,
) -> (r: Result<Vec<Outbound>, OpError>)
    requires
        state_wf(*old(state)),
        ships@.len() <= 256,
    ensures
        state_wf(*final(state)),
        submit_board_post(*old(state), *ctx, ships, *final(state), r),
{
    let board = match validate_and_build_board(10, &ships) {
        Result::Err(e) => {
            return Err(OpError::InvalidBoard(e));
        },
        Result::Ok(b) => b,
    };
    let room_opt = state.room.take();
    let mut room = match room_opt {
        Option::None => {
            return Err(OpError::NoRoom);
        },
        Option::Some(room) => room,
    };
    state.board = Option::Some(board);
    mark_player_submitted(&mut room.players, &ctx.self_chain);
    let is_host = room.host_chain_id == ctx.self_chain;
    let mut out: Vec<Outbound> = Vec::new();
    if is_host {
        match find_enemy_chain_id(&room, &ctx.self_chain) {
            Option::Some(enemy) => {
                ensure_enemy_view_created(state, &room, &enemy);
                let sync_room = clone_room(&room);
                out.push(
                    Outbound {
                        target: enemy,
                        message: CrossChainMessage::RoomSync { room: sync_room },
                    },
                );
            },
            Option::None => {},
        }
    } else {
        let host = room.host_chain_id.clone();
        out.push(
            Outbound {
                target: host,
                message: CrossChainMessage::BoardSubmittedNotice {
                    player_chain_id: ctx.self_chain.clone(),
                },
            },
        );
    }
    state.room = Option::Some(room);
    Ok(out)
}

/// Effect of `StartGame`: only the host of an active room with two
/// players and both boards in may start. Every outstanding sent
/// invitation is cancelled, the game moves to `InGame` with the host to
/// attack first, and the opponent gets a room sync.
pub open spec fn start_game_post(
    pre: BattleshipState,
    ctx: PeerContext,
    post: BattleshipState,
    r: Result<Vec<Outbound>, OpError>,
) -> bool {
    match pre.room {
        Option::None => same_state(pre, post) && r == Err::<Vec<Outbound>, OpError>(
            OpError::NoRoom,
        ),
        Option::Some(room) => {
            if room.host_chain_id@ != ctx.self_chain@ {
                same_state(pre, post) && r == Err::<Vec<Outbound>, OpError>(OpError::NotHost)
            } else if room.status != RoomStatus::Active {
                same_state(pre, post) && r == Err::<Vec<Outbound>, OpError>(OpError::RoomNotActive)
            } else if room.players@.len() != 2 {
                same_state(pre, post) && r == Err::<Vec<Outbound>, OpError>(OpError::NeedTwoPlayers)
            } else if !(room.players@[0].board_submitted && room.players@[1].board_submitted) {
                same_state(pre, post) && r == Err::<Vec<Outbound>, OpError>(
                    OpError::BoardsNotSubmitted,
                )
            } else {
                &&& post.sent_invitations@.len() == 0
                &&& post.room matches Some(room2) && {
                    &&& room2.room_id == room.room_id
                    &&& room2.host_chain_id == room.host_chain_id
                    &&& room2.status == room.status
                    &&& room2.game_state == GameState::InGame
                    &&& room2.players == room.players
                    &&& room2.current_attacker matches Some(a) && a@ == room.host_chain_id@
                    &&& room2.pending_attack is None
                    &&& room2.winner_chain_id == room.winner_chain_id
                }
                &&& post.board == pre.board
                &&& post.enemy_view == pre.enemy_view
                &&& post.subscribed_to_host == pre.subscribed_to_host
                &&& post.last_reveal == pre.last_reveal
                &&& post.last_notification == pre.last_notification
                &&& same_social(pre, post)
                &&& post.room_invitations == pre.room_invitations
                &&& same_queue(pre, post)
                &&& r matches Ok(ms) && {
                    let n = pre.sent_invitations@.len() as int;
                    let room2 = post.room.unwrap();
                    &&& forall|j: int|
                        0 <= j < n ==> sends_invitation_cancelled(
                            #[trigger] ms@[j],
                            pre.sent_invitations@[j]@,
                            ctx.self_chain@,
                        )
                    &&& if has_other_player(room.players@, ctx.self_chain@) {
                        ms@.len() == n + 1 && exists|i: int|
                            is_first_other(room.players@, ctx.self_chain@, i) && sends_room_sync(
                                ms@[n],
                                (#[trigger] room.players@[i]).chain_id@,
                                room2,
                            )
                    } else {
                        ms@.len() == n
                    }
                }
            }
        },
    }
}

pub fn op_start_game(state: &mut BattleshipState, ctx: &PeerContext) -> (r: Result<
    Vec<Outbound>,
    OpError,
>)
    requires
        state_wf(*old(state)),
    ensures
        state_wf(*final(state)),
        start_game_post(*old(state), *ctx, *final(state), r),
{
    let room_opt = state.room.take();
    let mut room = match room_opt {
        Option::None => {
            return Err(OpError::NoRoom);
        },
        Option::Some(room) => room,
    };
    if !(room.host_chain_id == ctx.self_chain) {
        state.room = Option::Some(room);
        return Err(OpError::NotHost);
    }
    if !(room.status == RoomStatus::Active) {
        state.room = Option::Some(room);
        return Err(OpError::RoomNotActive);
    }
    if room.players.len() != 2 {
        state.room = Option::Some(room);
        return Err(OpError::NeedTwoPlayers);
    }
    if !(room.players[0].board_submitted && room.players[1].board_submitted) {
        state.room = Option::Some(room);
        return Err(OpError::BoardsNotSubmitted);
    }
    let mut out: Vec<Outbound> = Vec::new();
    let mut i: usize = 0;
    while i < state.sent_invitations.len()
        invariant
            i <= state.sent_invitations@.len(),
            out@.len() == i as int,
            forall|j: int|
                0 <= j < i as int ==> sends_invitation_cancelled(
                    #[trigger] out@[j],
                    state.sent_invitations@[j]@,
                    ctx.self_chain@,
                ),
            state.sent_invitations == old(state).sent_invitations,
        decreases state.sent_invitations@.len() - i,
    {
        let target = state.sent_invitations[i].clone();
        out.push(
            Outbound {
                target,
                message: CrossChainMessage::RoomInvitationCancelled {
                    host_chain_id: ctx.self_chain.clone(),
                },
            },
        );
        i += 1;
    }
    state.sent_invitations = Vec::new();
    let host_chain = room.host_chain_id.clone();
    room.game_state = GameState::InGame;
    room.current_attacker = Option::Some(host_chain);
    room.pending_attack = Option::None;
    match find_enemy_chain_id(&room, &ctx.self_chain) {
        Option::Some(enemy) => {
            let sync_room = clone_room(&room);
            out.push(
                Outbound { target: enemy, message: CrossChainMessage::RoomSync { room: sync_room } },
            );
        },
        Option::None => {},
    }
    state.room = Option::Some(room);
    Ok(out)
}

/// Whether the attacker's own view already shows something at the target
/// cell, computed exactly as the attacker does: over the raw row-major
/// index, with no separate bounds check on row and column.
pub open spec fn attack_blocked_by_view(view: Option<EnemyBoardView>, row: u8, col: u8) -> bool {
    view matches Some(v) && {
        let index = (row as int) * (v.size as int) + (col as int);
        index < v.cells@.len() && v.cells@[index] != EnemyCell::Unknown
    }
}

/// Effect of `Attack`: only the recorded current attacker of a running
/// game with no attack outstanding and no local knowledge of the target
/// cell may attack; the target becomes the pending attack, the audit
/// record is cleared, and an attack request goes to the opponent.
pub open spec fn attack_post(
    pre: BattleshipState,
    ctx: PeerContext,
    row: u8,
    col: u8,
    post: BattleshipState,
    r: Result<Vec<Outbound>, OpError>,
) -> bool {
    match pre.room {
        Option::None => same_state(pre, post) && r == Err::<Vec<Outbound>, OpError>(
            OpError::NoRoom,
        ),
        Option::Some(room) => {
            if room.game_state != GameState::InGame {
                same_state(pre, post) && r == Err::<Vec<Outbound>, OpError>(OpError::GameNotStarted)
            } else if !(room.current_attacker matches Some(a) && a@ == ctx.self_chain@) {
                same_state(pre, post) && r == Err::<Vec<Outbound>, OpError>(OpError::NotYourTurn)
            } else if room.pending_attack is Some {
                same_state(pre, post) && r == Err::<Vec<Outbound>, OpError>(
                    OpError::PendingAttackUnresolved,
                )
            } else if attack_blocked_by_view(pre.enemy_view, row, col) {
                same_state(pre, post) && r == Err::<Vec<Outbound>, OpError>(
                    OpError::CellAlreadyRevealed,
                )
            } else if !has_other_player(room.players@, ctx.self_chain@) {
                same_state(pre, post) && r == Err::<Vec<Outbound>, OpError>(OpError::EnemyNotFound)
            } else {
                &&& post.room matches Some(room2) && {
                    &&& room2.room_id == room.room_id
                    &&& room2.host_chain_id == room.host_chain_id
                    &&& room2.status == room.status
                    &&& room2.game_state == room.game_state
                    &&& room2.players == room.players
                    &&& room2.current_attacker == room.current_attacker
                    &&& room2.pending_attack == Some(Coord { row, col })
                    &&& room2.winner_chain_id == room.winner_chain_id
                }
                &&& post.last_reveal is None
                &&& post.board == pre.board
                &&& post.enemy_view == pre.enemy_view
                &&& post.subscribed_to_host == pre.subscribed_to_host
                &&& post.last_notification == pre.last_notification
                &&& same_social(pre, post)
                &&& same_invites(pre, post)
                &&& same_queue(pre, post)
                &&& r matches Ok(ms) && ms@.len() == 1 && exists|i: int|
                    is_first_other(room.players@, ctx.self_chain@, i) && sends_attack_request(
                        ms@[0],
                        (#[trigger] room.players@[i]).chain_id@,
                        ctx.self_chain@,
                        row,
                        col,
                    )
            }
        },
    }
}

pub fn op_attack(state: &mut BattleshipState, ctx: &PeerContext, row: u8, col: u8) -> (r: Result<
    Vec<Outbound>,
    OpError,
>)
    requires
        state_wf(*old(state)),
    ensures
        state_wf(*final(state)),
        attack_post(*old(state), *ctx, row, col, *final(state), r),
{
    let room_opt = state.room.take();
    let mut room = match room_opt {
        Option::None => {
            return Err(OpError::NoRoom);
        },
        Option::Some(room) => room,
    };
    if !(room.game_state == GameState::InGame) {
        state.room = Option::Some(room);
        return Err(OpError::GameNotStarted);
    }
    let my_turn = match &room.current_attacker {
        Option::Some(a) => *a == ctx.self_chain,
        Option::None => false,
    };
    if !my_turn {
        state.room = Option::Some(room);
        return Err(OpError::NotYourTurn);
    }
    if room.pending_attack.is_some() {
        state.room = Option::Some(room);
        return Err(OpError::PendingAttackUnresolved);
    }
    match &state.enemy_view {
        Option::Some(view) => {
            proof {
                assert((row as int) * (view.size as int) + (col as int) <= 255 * 255 + 255)
                    by (nonlinear_arith)
                    requires
                        row <= 255,
                        col <= 255,
                        view.size <= 255,
                ;
            }
            let index = (row as usize) * (view.size as usize) + (col as usize);
            if index < view.cells.len() {
                if !(view.cells[index] == EnemyCell::Unknown) {
                    state.room = Option::Some(room);
                    return Err(OpError::CellAlreadyRevealed);
                }
            }
        },
        Option::None => {},
    }
    match find_enemy_chain_id(&room, &ctx.self_chain) {
        Option::None => {
            state.room = Option::Some(room);
            Err(OpError::EnemyNotFound)
        },
        Option::Some(enemy) => {
            room.pending_attack = Option::Some(Coord { row, col });
            state.room = Option::Some(room);
            state.last_reveal = Option::None;
            let mut out: Vec<Outbound> = Vec::new();
            out.push(
                Outbound {
                    target: enemy,
                    message: CrossChainMessage::AttackRequest {
                        attacker_chain_id: ctx.self_chain.clone(),
                        row,
                        col,
                    },
                },
            );
            Ok(out)
        },
    }
}

/// Effect of `InviteFriend`: only the host of an active room with a free
/// seat may invite, and only a friend; inviting someone already invited
/// is a no-op, otherwise the invitation is recorded as sent and goes out
/// stamped with the current time.
pub open spec fn invite_friend_post(
    pre: BattleshipState,
    ctx: PeerContext,
    friend_chain_id: String,
    post: BattleshipState,
    r: Result<Vec<Outbound>, OpError>,
) -> bool {
    match pre.room {
        Option::None => same_state(pre, post) && r == Err::<Vec<Outbound>, OpError>(
            OpError::NoRoom,
        ),
        Option::Some(room) => {
            if room.host_chain_id@ != ctx.self_chain@ {
                same_state(pre, post) && r == Err::<Vec<Outbound>, OpError>(OpError::NotHost)
            } else if room.status != RoomStatus::Active {
                same_state(pre, post) && r == Err::<Vec<Outbound>, OpError>(OpError::RoomNotActive)
            } else if room.players@.len() >= 2 {
                same_state(pre, post) && r == Err::<Vec<Outbound>, OpError>(OpError::RoomFull)
            } else if !str_in_seq(pre.friends@, friend_chain_id@) {
                same_state(pre, post) && r == Err::<Vec<Outbound>, OpError>(OpError::NotFriends)
            } else if str_in_seq(pre.sent_invitations@, friend_chain_id@) {
                same_state(pre, post) && (r matches Ok(ms) && ms@.len() == 0)
            } else {
                &&& post.room == pre.room
                &&& post.board == pre.board
                &&& post.enemy_view == pre.enemy_view
                &&& post.subscribed_to_host == pre.subscribed_to_host
                &&& post.last_reveal == pre.last_reveal
                &&& post.last_notification == pre.last_notification
                &&& same_social(pre, post)
                &&& post.room_invitations == pre.room_invitations
                &&& same_queue(pre, post)
                &&& post.sent_invitations@.len() == pre.sent_invitations@.len() + 1
                &&& forall|j: int|
                    0 <= j < pre.sent_invitations@.len() ==> #[trigger] post.sent_invitations@[j]
                        == pre.sent_invitations@[j]
                &&& post.sent_invitations@[pre.sent_invitations@.len() as int]@
                    == friend_chain_id@
                &&& r matches Ok(ms) && ms@.len() == 1 && sends_room_invitation(
                    ms@[0],
                    friend_chain_id@,
                    ctx.self_chain@,
                    ctx.now,
                )
            }
        },
    }
}

pub fn op_invite_friend(
    state: &mut BattleshipState,
    ctx: &PeerContext,
    friend_chain_id: String,
) -> (r: Result<Vec<Outbound>, OpError>)
    requires
        state_wf(*old(state)),
    ensures
        state_wf(*final(state)),
        invite_friend_post(*old(state), *ctx, friend_chain_id, *final(state), r),
{
    let room_opt = state.room.take();
    let room = match room_opt {
        Option::None => {
            return Err(OpError::NoRoom);
        },
        Option::Some(room) => room,
    };
    if !(room.host_chain_id == ctx.self_chain) {
        state.room = Option::Some(room);
        return Err(OpError::NotHost);
    }
    if !(room.status == RoomStatus::Active) {
        state.room = Option::Some(room);
        return Err(OpError::RoomNotActive);
    }
    if room.players.len() >= 2 {
        state.room = Option::Some(room);
        return Err(OpError::RoomFull);
    }
    if find_str_index(&state.friends, &friend_chain_id).is_none() {
        state.room = Option::Some(room);
        return Err(OpError::NotFriends);
    }
    if find_str_index(&state.sent_invitations, &friend_chain_id).is_some() {
        state.room = Option::Some(room);
        return Ok(Vec::new());
    }
    state.room = Option::Some(room);
    state.sent_invitations.push(friend_chain_id.clone());
    let mut out: Vec<Outbound> = Vec::new();
    out.push(
        Outbound {
            target: friend_chain_id,
            message: CrossChainMessage::RoomInvitation {
                host_chain_id: ctx.self_chain.clone(),
                timestamp: ctx.now,
            },
        },
    );
    Ok(out)
}

/// What each local operation does: the per-variant effect predicates,
/// gathered under one roof for `execute_operation`'s contract.
pub open spec fn operation_post(
    pre: BattleshipState,
    ctx: PeerContext,
    op: Operation,
    post: BattleshipState,
    r: Result<Vec<Outbound>, OpError>,
) -> bool {
    match op {
        Operation::CreateRoom { host_name } => create_room_post(pre, ctx, host_name, post, r),
        Operation::JoinRoom { host_chain_id, player_name } => join_room_post(
            pre,
            ctx,
            host_chain_id,
            player_name,
            post,
            r,
        ),
        Operation::SearchPlayer { orchestrator_chain_id, player_name } => search_player_post(
            pre,
            ctx,
            orchestrator_chain_id,
            player_name,
            post,
            r,
        ),
        Operation::SubmitBoard { ships } => submit_board_post(pre, ctx, ships, post, r),
        Operation::StartGame => start_game_post(pre, ctx, post, r),
        Operation::Attack { row, col } => attack_post(pre, ctx, row, col, post, r),
        Operation::LeaveRoom => leave_room_post(pre, ctx, post, r),
        Operation::RequestFriend { target_chain_id } => request_friend_post(
            pre,
            ctx,
            target_chain_id,
            post,
            r,
        ),
        Operation::AcceptFriend { requester_chain_id } => accept_friend_post(
            pre,
            ctx,
            requester_chain_id,
            post,
            r,
        ),
        Operation::DeclineFriend { requester_chain_id } => decline_friend_post(
            pre,
            requester_chain_id,
            post,
            r,
        ),
        Operation::InviteFriend { friend_chain_id } => invite_friend_post(
            pre,
            ctx,
            friend_chain_id,
            post,
            r,
        ),
        Operation::AcceptInvite { host_chain_id, player_name } => accept_invite_post(
            pre,
            ctx,
            host_chain_id,
            player_name,
            post,
            r,
        ),
        Operation::DeclineInvite { host_chain_id } => decline_invite_post(
            pre,
            host_chain_id,
            post,
            r,
        ),
    }
}

/// Run one local operation against the peer's own state: the pure heart
/// of the per-peer command loop. An `Err` is a fatal precondition
/// violation, and the state is then exactly as it was.
pub fn execute_operation(state: &mut BattleshipState, ctx: &PeerContext, op: Operation) -> (r:
    Result<Vec<Outbound>, OpError>)
    requires
        state_wf(*old(state)),
        op matches Operation::SubmitBoard { ships } ==> ships@.len() <= 256,
    ensures
        state_wf(*final(state)),
        operation_post(*old(state), *ctx, op, *final(state), r),
{
    match op {
        Operation::CreateRoom { host_name } => op_create_room(state, ctx, host_name),
        Operation::JoinRoom { host_chain_id, player_name } => op_join_room(
            state,
            ctx,
            host_chain_id,
            player_name,
        ),
        Operation::SearchPlayer { orchestrator_chain_id, player_name } => op_search_player(
            state,
            ctx,
            orchestrator_chain_id,
            player_name,
        ),
        Operation::SubmitBoard { ships } => op_submit_board(state, ctx, ships),
        Operation::StartGame => op_start_game(state, ctx),
        Operation::Attack { row, col } => op_attack(state, ctx, row, col),
        Operation::LeaveRoom => op_leave_room(state, ctx),
        Operation::RequestFriend { target_chain_id } => op_request_friend(
            state,
            ctx,
            target_chain_id,
        ),
        Operation::AcceptFriend { requester_chain_id } => op_accept_friend(
            state,
            ctx,
            requester_chain_id,
        ),
        Operation::DeclineFriend { requester_chain_id } => op_decline_friend(
            state,
            requester_chain_id,
        ),
        Operation::InviteFriend { friend_chain_id } => op_invite_friend(
            state,
            ctx,
            friend_chain_id,
        ),
        Operation::AcceptInvite { host_chain_id, player_name } => op_accept_invite(
            state,
            ctx,
            host_chain_id,
            player_name,
        ),
        Operation::DeclineInvite { host_chain_id } => op_decline_invite(state, host_chain_id),
    }
}

} // verus!
