//! The local operation surface and the one-directional cross-peer message
//! protocol: the variants, and the vocabulary the handler contracts use to
//! pin down exactly which messages leave a handler.

use vstd::prelude::*;
use crate::board::{Coord, ShipPlacementInput, BoardError};
use crate::room::{room_eq, Room};

verus! {

/// A command issued locally against the issuing peer's own state.
#[derive(Clone, Debug)]
pub enum Operation {
    CreateRoom { host_name: String },
    JoinRoom { host_chain_id: String, player_name: String },
    SearchPlayer { orchestrator_chain_id: String, player_name: String },
    SubmitBoard { ships: Vec<ShipPlacementInput> },
    StartGame,
    Attack { row: u8, col: u8 },
    LeaveRoom,
    RequestFriend { target_chain_id: String },
    AcceptFriend { requester_chain_id: String },
    DeclineFriend { requester_chain_id: String },
    InviteFriend { friend_chain_id: String },
    AcceptInvite { host_chain_id: String, player_name: String },
    DeclineInvite { host_chain_id: String },
}

/// A fire-and-forget message from one peer to another. A reply is itself
/// a new message; there is no synchronous channel.
#[derive(Clone, Debug, PartialEq)]
pub enum CrossChainMessage {
    JoinRequest { player_chain_id: String, player_name: String },
    InitialStateSync { room: Room },
    RoomSync { room: Room },
    BoardSubmittedNotice { player_chain_id: String },
    AttackRequest { attacker_chain_id: String, row: u8, col: u8 },
    RevealResult {
        defender_chain_id: String,
        row: u8,
        col: u8,
        valid: bool,
        error: Option<BoardError>,
        hit: bool,
        sunk: bool,
        sunk_ship_cells: Option<Vec<Coord>>,
        adjacent_coords: Option<Vec<Coord>>,
        next_attacker: String,
        game_over: bool,
        winner_chain_id: Option<String>,
    },
    LeaveNotice { player_chain_id: String },
    FriendRequest { requester_chain_id: String },
    FriendAccepted { target_chain_id: String },
    RoomInvitation { host_chain_id: String, timestamp: u64 },
    RoomInvitationCancelled { host_chain_id: String },
    MatchmakingEnqueue { player_chain_id: String, player_name: String },
    MatchmakingEnqueued { orchestrator_chain_id: String },
    MatchmakingStart { host_name: String, guest_chain_id: String, guest_name: String },
    MatchmakingFound { host_chain_id: String },
}

/// One message addressed to one peer, as a handler hands it back to the
/// transport.
#[derive(Clone, Debug, PartialEq)]
pub struct Outbound {
    pub target: String,
    pub message: CrossChainMessage,
}

pub open spec fn sends_join_request(o: Outbound, target: Seq<char>, player: Seq<char>, name: Seq<char>) -> bool {
    &&& o.target@ == target
    &&& o.message matches CrossChainMessage::JoinRequest { player_chain_id, player_name }
        && player_chain_id@ == player && player_name@ == name
}

pub open spec fn sends_initial_state_sync(o: Outbound, target: Seq<char>, room: Room) -> bool {
    &&& o.target@ == target
    &&& o.message matches CrossChainMessage::InitialStateSync { room: sent } && room_eq(sent, room)
}

pub open spec fn sends_room_sync(o: Outbound, target: Seq<char>, room: Room) -> bool {
    &&& o.target@ == target
    &&& o.message matches CrossChainMessage::RoomSync { room: sent } && room_eq(sent, room)
}

pub open spec fn sends_board_submitted_notice(o: Outbound, target: Seq<char>, player: Seq<char>) -> bool {
    &&& o.target@ == target
    &&& o.message matches CrossChainMessage::BoardSubmittedNotice { player_chain_id }
        && player_chain_id@ == player
}

pub open spec fn sends_attack_request(o: Outbound, target: Seq<char>, attacker: Seq<char>, row: u8, col: u8) -> bool {
    &&& o.target@ == target
    &&& o.message matches CrossChainMessage::AttackRequest { attacker_chain_id, row: r, col: c }
        && attacker_chain_id@ == attacker && r == row && c == col
}

pub open spec fn sends_leave_notice(o: Outbound, target: Seq<char>, player: Seq<char>) -> bool {
    &&& o.target@ == target
    &&& o.message matches CrossChainMessage::LeaveNotice { player_chain_id }
        && player_chain_id@ == player
}

pub open spec fn sends_friend_request(o: Outbound, target: Seq<char>, requester: Seq<char>) -> bool {
    &&& o.target@ == target
    &&& o.message matches CrossChainMessage::FriendRequest { requester_chain_id }
        && requester_chain_id@ == requester
}

pub open spec fn sends_friend_accepted(o: Outbound, target: Seq<char>, acceptor: Seq<char>) -> bool {
    &&& o.target@ == target
    &&& o.message matches CrossChainMessage::FriendAccepted { target_chain_id }
        && target_chain_id@ == acceptor
}

pub open spec fn sends_room_invitation(o: Outbound, target: Seq<char>, host: Seq<char>, timestamp: u64) -> bool {
    &&& o.target@ == target
    &&& o.message matches CrossChainMessage::RoomInvitation { host_chain_id, timestamp: ts }
        && host_chain_id@ == host && ts == timestamp
}

pub open spec fn sends_invitation_cancelled(o: Outbound, target: Seq<char>, host: Seq<char>) -> bool {
    &&& o.target@ == target
    &&& o.message matches CrossChainMessage::RoomInvitationCancelled { host_chain_id }
        && host_chain_id@ == host
}

pub open spec fn sends_matchmaking_enqueue(o: Outbound, target: Seq<char>, player: Seq<char>, name: Seq<char>) -> bool {
    &&& o.target@ == target
    &&& o.message matches CrossChainMessage::MatchmakingEnqueue { player_chain_id, player_name }
        && player_chain_id@ == player && player_name@ == name
}

pub open spec fn sends_matchmaking_enqueued(o: Outbound, target: Seq<char>, orchestrator: Seq<char>) -> bool {
    &&& o.target@ == target
    &&& o.message matches CrossChainMessage::MatchmakingEnqueued { orchestrator_chain_id }
        && orchestrator_chain_id@ == orchestrator
}

pub open spec fn sends_matchmaking_start(o: Outbound, target: Seq<char>, host_name: Seq<char>, guest: Seq<char>, guest_name: Seq<char>) -> bool {
    &&& o.target@ == target
    &&& o.message matches CrossChainMessage::MatchmakingStart { host_name: hn, guest_chain_id, guest_name: gn }
        && hn@ == host_name && guest_chain_id@ == guest && gn@ == guest_name
}

pub open spec fn sends_matchmaking_found(o: Outbound, target: Seq<char>, host: Seq<char>) -> bool {
    &&& o.target@ == target
    &&& o.message matches CrossChainMessage::MatchmakingFound { host_chain_id }
        && host_chain_id@ == host
}

} // verus!
