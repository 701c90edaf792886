use battleship_game::board::{idx, Axis, ShipPlacementInput};
use battleship_game::operations::execute_operation;
use battleship_game::messages::execute_message;
use battleship_game::protocol::{CrossChainMessage, Operation, Outbound};
use battleship_game::queries::is_my_turn;
use battleship_game::room::{GameState, RoomStatus};
use battleship_game::state::{BattleshipState, OpError, PeerContext};
use battleship_game::view::EnemyCell;

fn ctx(addr: &str, now: u64) -> PeerContext {
    PeerContext {
        self_chain: addr.to_string(),
        now,
        fresh_room_id: format!("room-{}", now),
    }
}

fn ship(row: u8, col: u8, length: u8) -> ShipPlacementInput {
    ShipPlacementInput { row, col, length, axis: Axis::Horiz }
}

/// Drive both peers to a running game: H hosts, G joins, both submit a
/// two-cell ship at the top-left, H starts. Returns (host, guest).
fn started_game() -> (BattleshipState, BattleshipState) {
    let ch = ctx("H", 1);
    let cg = ctx("G", 2);
    let mut h = BattleshipState::new();
    let mut g = BattleshipState::new();

    execute_operation(&mut h, &ch, Operation::CreateRoom { host_name: "hans".to_string() })
        .unwrap();

    let out = execute_operation(
        &mut g,
        &cg,
        Operation::JoinRoom { host_chain_id: "H".to_string(), player_name: "greta".to_string() },
    )
    .unwrap();
    assert_eq!(out.len(), 1);
    assert_eq!(out[0].target, "H");
    let out = execute_message(&mut h, &ch, out.into_iter().next().unwrap().message).unwrap();
    assert_eq!(out.len(), 1);
    assert_eq!(out[0].target, "G");
    execute_message(&mut g, &cg, out.into_iter().next().unwrap().message).unwrap();

    let out = execute_operation(
        &mut g,
        &cg,
        Operation::SubmitBoard { ships: vec![ship(0, 0, 2)] },
    )
    .unwrap();
    assert_eq!(out.len(), 1);
    assert_eq!(out[0].target, "H");
    let out = execute_message(&mut h, &ch, out.into_iter().next().unwrap().message).unwrap();
    for o in out {
        assert_eq!(o.target, "G");
        execute_message(&mut g, &cg, o.message).unwrap();
    }

    let out = execute_operation(
        &mut h,
        &ch,
        Operation::SubmitBoard { ships: vec![ship(0, 0, 2)] },
    )
    .unwrap();
    for o in out {
        assert_eq!(o.target, "G");
        execute_message(&mut g, &cg, o.message).unwrap();
    }

    let out = execute_operation(&mut h, &ch, Operation::StartGame).unwrap();
    for o in out {
        assert_eq!(o.target, "G");
        execute_message(&mut g, &cg, o.message).unwrap();
    }
    (h, g)
}

#[test]
fn create_room_waits_for_player() {
    let ch = ctx("H", 7);
    let mut h = BattleshipState::new();
    let out = execute_operation(&mut h, &ch, Operation::CreateRoom {
        host_name: "hans".to_string(),
    })
    .unwrap();
    assert!(out.is_empty());
    let room = h.room.as_ref().unwrap();
    assert_eq!(room.room_id, "room-7");
    assert_eq!(room.host_chain_id, "H");
    assert_eq!(room.status, RoomStatus::Active);
    assert_eq!(room.game_state, GameState::WaitingForPlayer);
    assert_eq!(room.players.len(), 1);
    assert_eq!(room.players[0].chain_id, "H");
    assert_eq!(room.players[0].name, "hans");
    assert!(!room.players[0].board_submitted);
}

#[test]
fn start_game_needs_host_and_two_submitted_boards() {
    let ch = ctx("H", 1);
    let mut h = BattleshipState::new();
    assert_eq!(
        execute_operation(&mut h, &ch, Operation::StartGame).unwrap_err(),
        OpError::NoRoom
    );
    execute_operation(&mut h, &ch, Operation::CreateRoom { host_name: "hans".to_string() })
        .unwrap();
    assert_eq!(
        execute_operation(&mut h, &ch, Operation::StartGame).unwrap_err(),
        OpError::NeedTwoPlayers
    );
}

#[test]
fn started_game_gives_host_the_first_turn() {
    let (h, g) = started_game();
    let hr = h.room.as_ref().unwrap();
    assert_eq!(hr.game_state, GameState::InGame);
    assert_eq!(hr.current_attacker.as_deref(), Some("H"));
    assert!(is_my_turn(&h.room, &"H".to_string()));
    let gr = g.room.as_ref().unwrap();
    assert_eq!(gr.game_state, GameState::InGame);
    assert_eq!(gr.current_attacker.as_deref(), Some("H"));
    assert!(!is_my_turn(&g.room, &"G".to_string()));
}

#[test]
fn miss_passes_the_turn_to_the_defender() {
    let (mut h, mut g) = started_game();
    let ch = ctx("H", 10);
    let cg = ctx("G", 11);

    // The attacker fires at an empty cell.
    let out = execute_operation(&mut h, &ch, Operation::Attack { row: 5, col: 5 }).unwrap();
    assert_eq!(out.len(), 1);
    assert_eq!(out[0].target, "G");
    assert_eq!(
        h.room.as_ref().unwrap().pending_attack.map(|c| (c.row, c.col)),
        Some((5, 5))
    );

    // The defender resolves it as a miss and hands the turn to itself.
    let out = execute_message(&mut g, &cg, out.into_iter().next().unwrap().message).unwrap();
    assert_eq!(out.len(), 1);
    assert_eq!(out[0].target, "H");
    assert_eq!(g.room.as_ref().unwrap().current_attacker.as_deref(), Some("G"));
    let reveal = g.last_reveal.as_ref().unwrap();
    assert!(reveal.valid && !reveal.hit && !reveal.sunk && !reveal.game_over);

    // The attacker folds the reply in: a recorded miss, turn gone.
    execute_message(&mut h, &ch, out.into_iter().next().unwrap().message).unwrap();
    let view = h.enemy_view.as_ref().unwrap();
    assert_eq!(view.cells[idx(10, 5, 5)], EnemyCell::Miss);
    assert_eq!(h.room.as_ref().unwrap().current_attacker.as_deref(), Some("G"));
    assert_eq!(h.room.as_ref().unwrap().pending_attack, None);
    assert!(!is_my_turn(&h.room, &"H".to_string()));
}

#[test]
fn hit_keeps_the_turn_and_sinking_ends_the_game() {
    let (mut h, mut g) = started_game();
    let ch = ctx("H", 20);
    let cg = ctx("G", 21);

    // First hit: attacker keeps the turn.
    let out = execute_operation(&mut h, &ch, Operation::Attack { row: 0, col: 0 }).unwrap();
    let out = execute_message(&mut g, &cg, out.into_iter().next().unwrap().message).unwrap();
    assert_eq!(g.room.as_ref().unwrap().current_attacker.as_deref(), Some("H"));
    execute_message(&mut h, &ch, out.into_iter().next().unwrap().message).unwrap();
    assert_eq!(h.enemy_view.as_ref().unwrap().cells[idx(10, 0, 0)], EnemyCell::Hit);
    assert!(is_my_turn(&h.room, &"H".to_string()));

    // Second hit sinks the only ship: game over, attacker wins.
    let out = execute_operation(&mut h, &ch, Operation::Attack { row: 0, col: 1 }).unwrap();
    let out = execute_message(&mut g, &cg, out.into_iter().next().unwrap().message).unwrap();
    let gr = g.room.as_ref().unwrap();
    assert_eq!(gr.status, RoomStatus::Ended);
    assert_eq!(gr.game_state, GameState::Ended);
    assert_eq!(gr.winner_chain_id.as_deref(), Some("H"));
    let reveal = g.last_reveal.as_ref().unwrap();
    assert!(reveal.hit && reveal.sunk && reveal.game_over);

    execute_message(&mut h, &ch, out.into_iter().next().unwrap().message).unwrap();
    let hr = h.room.as_ref().unwrap();
    assert_eq!(hr.status, RoomStatus::Ended);
    assert_eq!(hr.winner_chain_id.as_deref(), Some("H"));
    let view = h.enemy_view.as_ref().unwrap();
    // Both ship cells show sunk, the splash border shows confirmed misses.
    assert_eq!(view.cells[idx(10, 0, 0)], EnemyCell::Sunk);
    assert_eq!(view.cells[idx(10, 0, 1)], EnemyCell::Sunk);
    assert_eq!(view.cells[idx(10, 1, 0)], EnemyCell::Miss);
    assert_eq!(view.cells[idx(10, 1, 1)], EnemyCell::Miss);
    assert_eq!(view.cells[idx(10, 0, 2)], EnemyCell::Miss);
    assert_eq!(view.cells[idx(10, 1, 2)], EnemyCell::Miss);

    // No further attack is accepted in the ended room.
    assert_eq!(
        execute_operation(&mut h, &ch, Operation::Attack { row: 9, col: 9 }).unwrap_err(),
        OpError::GameNotStarted
    );
}

#[test]
fn repeated_attack_on_known_cell_is_rejected_locally() {
    let (mut h, mut g) = started_game();
    let ch = ctx("H", 30);
    let cg = ctx("G", 31);
    let out = execute_operation(&mut h, &ch, Operation::Attack { row: 5, col: 5 }).unwrap();
    let out = execute_message(&mut g, &cg, out.into_iter().next().unwrap().message).unwrap();
    execute_message(&mut h, &ch, out.into_iter().next().unwrap().message).unwrap();
    // Now it is G's turn; bring the turn back to H with a miss by G.
    let out = execute_operation(&mut g, &cg, Operation::Attack { row: 9, col: 9 }).unwrap();
    let out = execute_message(&mut h, &ch, out.into_iter().next().unwrap().message).unwrap();
    execute_message(&mut g, &cg, out.into_iter().next().unwrap().message).unwrap();
    // H already knows (5,5): the local precondition rejects the repeat.
    assert_eq!(
        execute_operation(&mut h, &ch, Operation::Attack { row: 5, col: 5 }).unwrap_err(),
        OpError::CellAlreadyRevealed
    );
}

#[test]
fn out_of_turn_attack_request_is_dropped_silently() {
    let (_h, mut g) = started_game();
    let cg = ctx("G", 40);
    // G is not the recorded attacker: the defender ignores such a request.
    let out = execute_message(
        &mut g,
        &cg,
        CrossChainMessage::AttackRequest { attacker_chain_id: "G".to_string(), row: 0, col: 0 },
    )
    .unwrap();
    assert!(out.is_empty());
    assert!(g.last_reveal.is_none());
}

#[test]
fn stale_reveal_result_is_dropped() {
    let (mut h, _g) = started_game();
    let ch = ctx("H", 50);
    // No pending attack: any reveal is stale and changes nothing.
    let out = execute_message(
        &mut h,
        &ch,
        CrossChainMessage::RevealResult {
            defender_chain_id: "G".to_string(),
            row: 4,
            col: 4,
            valid: true,
            error: None,
            hit: true,
            sunk: false,
            sunk_ship_cells: None,
            adjacent_coords: None,
            next_attacker: "H".to_string(),
            game_over: false,
            winner_chain_id: None,
        },
    )
    .unwrap();
    assert!(out.is_empty());
    assert!(h.last_reveal.is_none());
    assert_eq!(h.room.as_ref().unwrap().current_attacker.as_deref(), Some("H"));
}

#[test]
fn leaving_an_active_room_awards_the_remaining_peer() {
    let (mut h, mut g) = started_game();
    let ch = ctx("H", 60);
    let cg = ctx("G", 61);

    // G walks out mid-game, whoever's turn it was.
    let out = execute_operation(&mut g, &cg, Operation::LeaveRoom).unwrap();
    assert!(g.room.is_none());
    assert!(g.board.is_none());
    assert!(g.enemy_view.is_none());
    assert_eq!(out.len(), 1);
    assert_eq!(out[0].target, "H");
    let Outbound { message, .. } = out.into_iter().next().unwrap();
    execute_message(&mut h, &ch, message).unwrap();
    let hr = h.room.as_ref().unwrap();
    assert_eq!(hr.status, RoomStatus::Ended);
    assert_eq!(hr.game_state, GameState::Ended);
    assert_eq!(hr.winner_chain_id.as_deref(), Some("H"));
}

#[test]
fn invalid_attack_keeps_state_and_reports_back() {
    let (mut h, mut g) = started_game();
    let ch = ctx("H", 70);
    let cg = ctx("G", 71);
    // An out-of-bounds attack is a non-fatal structured failure: the room
    // and turn stay as they were, and the attacker may retry.
    let out = execute_operation(&mut h, &ch, Operation::Attack { row: 9, col: 9 }).unwrap();
    // Tamper en route: pretend the defender got coordinates off the board.
    let _ = out;
    let out = execute_message(
        &mut g,
        &cg,
        CrossChainMessage::AttackRequest { attacker_chain_id: "H".to_string(), row: 10, col: 0 },
    )
    .unwrap();
    assert_eq!(out.len(), 1);
    let reveal = g.last_reveal.as_ref().unwrap();
    assert!(!reveal.valid);
    assert!(!reveal.hit && !reveal.sunk && !reveal.game_over);
    assert_eq!(reveal.next_attacker, "H");
    assert_eq!(g.room.as_ref().unwrap().current_attacker.as_deref(), Some("H"));
    assert_eq!(g.room.as_ref().unwrap().status, RoomStatus::Active);
}
