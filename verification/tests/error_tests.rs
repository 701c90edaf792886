use battleship_game::board::{Axis, BoardError, ShipPlacementInput};
use battleship_game::messages::execute_message;
use battleship_game::operations::execute_operation;
use battleship_game::protocol::{CrossChainMessage, Operation};
use battleship_game::queries::my_board_view;
use battleship_game::room::{GameState, PlayerInfo, Room, RoomStatus};
use battleship_game::state::{BattleshipState, OpError, PeerContext};

fn ctx(addr: &str, now: u64) -> PeerContext {
    PeerContext {
        self_chain: addr.to_string(),
        now,
        fresh_room_id: format!("room-{}", now),
    }
}

fn ship(row: u8, col: u8, length: u8) -> ShipPlacementInput {
    ShipPlacementInput { row, col, length, axis: Axis::Horiz }
}

fn player(addr: &str, submitted: bool) -> PlayerInfo {
    PlayerInfo { chain_id: addr.to_string(), name: addr.to_lowercase(), board_submitted: submitted }
}

fn two_player_room(host: &str, other: &str, state: GameState, attacker: &str) -> Room {
    Room {
        room_id: "r".to_string(),
        host_chain_id: host.to_string(),
        status: RoomStatus::Active,
        game_state: state,
        players: vec![player(host, true), player(other, true)],
        current_attacker: Some(attacker.to_string()),
        pending_attack: None,
        winner_chain_id: None,
    }
}

#[test]
fn only_the_host_may_start_or_invite() {
    let cg = ctx("G", 1);
    let mut g = BattleshipState::new();
    g.room = Some(two_player_room("H", "G", GameState::PlacingBoards, "H"));
    assert_eq!(
        execute_operation(&mut g, &cg, Operation::StartGame).unwrap_err(),
        OpError::NotHost
    );
    g.friends.push("F".to_string());
    assert_eq!(
        execute_operation(&mut g, &cg, Operation::InviteFriend {
            friend_chain_id: "F".to_string(),
        })
        .unwrap_err(),
        OpError::NotHost
    );
}

#[test]
fn start_needs_both_boards_submitted() {
    let ch = ctx("H", 1);
    let mut h = BattleshipState::new();
    let mut room = two_player_room("H", "G", GameState::PlacingBoards, "H");
    room.players[1].board_submitted = false;
    room.current_attacker = None;
    h.room = Some(room);
    assert_eq!(
        execute_operation(&mut h, &ch, Operation::StartGame).unwrap_err(),
        OpError::BoardsNotSubmitted
    );
}

#[test]
fn attacking_out_of_turn_or_twice_is_fatal_locally() {
    let cg = ctx("G", 1);
    let mut g = BattleshipState::new();
    g.room = Some(two_player_room("H", "G", GameState::InGame, "H"));
    assert_eq!(
        execute_operation(&mut g, &cg, Operation::Attack { row: 0, col: 0 }).unwrap_err(),
        OpError::NotYourTurn
    );

    let ch = ctx("H", 2);
    let mut h = BattleshipState::new();
    h.room = Some(two_player_room("H", "G", GameState::InGame, "H"));
    execute_operation(&mut h, &ch, Operation::Attack { row: 0, col: 0 }).unwrap();
    assert_eq!(
        execute_operation(&mut h, &ch, Operation::Attack { row: 0, col: 1 }).unwrap_err(),
        OpError::PendingAttackUnresolved
    );
}

#[test]
fn attack_without_an_opponent_is_fatal() {
    let ch = ctx("H", 1);
    let mut h = BattleshipState::new();
    let mut room = two_player_room("H", "G", GameState::InGame, "H");
    room.players.truncate(1);
    h.room = Some(room);
    assert_eq!(
        execute_operation(&mut h, &ch, Operation::Attack { row: 0, col: 0 }).unwrap_err(),
        OpError::EnemyNotFound
    );
}

#[test]
fn join_request_into_a_full_room_is_rejected() {
    let ch = ctx("H", 1);
    let mut h = BattleshipState::new();
    h.room = Some(two_player_room("H", "G", GameState::PlacingBoards, "H"));
    assert_eq!(
        execute_message(&mut h, &ch, CrossChainMessage::JoinRequest {
            player_chain_id: "X".to_string(),
            player_name: "xeno".to_string(),
        })
        .unwrap_err(),
        OpError::RoomFull
    );
}

#[test]
fn submitting_a_malformed_board_is_fatal_and_commits_nothing() {
    let ch = ctx("H", 1);
    let mut h = BattleshipState::new();
    h.room = Some(two_player_room("H", "G", GameState::PlacingBoards, "H"));
    let r = execute_operation(&mut h, &ch, Operation::SubmitBoard {
        ships: vec![ship(0, 0, 3), ship(0, 1, 2)],
    });
    assert_eq!(r.unwrap_err(), OpError::InvalidBoard(BoardError::Overlap));
    assert!(h.board.is_none());
    assert_eq!(
        h.room.as_ref().unwrap(),
        &two_player_room("H", "G", GameState::PlacingBoards, "H")
    );
}

#[test]
fn attack_request_without_a_board_is_fatal() {
    let cg = ctx("G", 1);
    let mut g = BattleshipState::new();
    g.room = Some(two_player_room("H", "G", GameState::InGame, "H"));
    assert_eq!(
        execute_message(&mut g, &cg, CrossChainMessage::AttackRequest {
            attacker_chain_id: "H".to_string(),
            row: 0,
            col: 0,
        })
        .unwrap_err(),
        OpError::BoardNotSubmitted
    );
}

#[test]
fn board_view_lists_every_cell_with_its_coordinates() {
    let ch = ctx("H", 1);
    let mut h = BattleshipState::new();
    h.room = Some(two_player_room("H", "G", GameState::PlacingBoards, "H"));
    execute_operation(&mut h, &ch, Operation::SubmitBoard { ships: vec![ship(2, 3, 2)] })
        .unwrap();
    let v = my_board_view(h.board.as_ref().unwrap());
    assert_eq!(v.size, 10);
    assert_eq!(v.cells.len(), 100);
    let cell = &v.cells[2 * 10 + 3];
    assert_eq!((cell.row, cell.col), (2, 3));
    assert_eq!(cell.ship_id, Some(0));
    assert!(!cell.attacked);
    assert_eq!(v.ships.len(), 1);
    assert_eq!(v.ships[0].id, 0);
    assert_eq!(v.ships[0].cells.len(), 2);
}
