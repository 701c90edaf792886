use battleship_game::board::{
    apply_attack, apply_sunk_padding, idx, validate_and_build_board, Axis, BoardError, Coord,
    ShipPlacementInput,
};
use battleship_game::view::{empty_enemy_view, set_enemy_view_cell, EnemyCell};

fn placement(row: u8, col: u8, length: u8, axis: Axis) -> ShipPlacementInput {
    ShipPlacementInput { row, col, length, axis }
}

#[test]
fn idx_is_row_major() {
    assert_eq!(idx(10, 0, 0), 0);
    assert_eq!(idx(10, 2, 3), 23);
    assert_eq!(idx(3, 1, 2), 5);
}

#[test]
fn build_rejects_zero_size() {
    let r = validate_and_build_board(0, &vec![]);
    assert_eq!(r.unwrap_err(), BoardError::InvalidSize);
}

#[test]
fn build_rejects_zero_length_ship() {
    let r = validate_and_build_board(10, &vec![placement(0, 0, 0, Axis::Horiz)]);
    assert_eq!(r.unwrap_err(), BoardError::InvalidLength);
}

#[test]
fn build_rejects_start_out_of_bounds() {
    let r = validate_and_build_board(10, &vec![placement(10, 0, 1, Axis::Horiz)]);
    assert_eq!(r.unwrap_err(), BoardError::OutOfBounds);
}

#[test]
fn build_rejects_tail_out_of_bounds() {
    let r = validate_and_build_board(10, &vec![placement(0, 8, 3, Axis::Horiz)]);
    assert_eq!(r.unwrap_err(), BoardError::OutOfBounds);
}

#[test]
fn build_rejects_overlap() {
    let r = validate_and_build_board(
        10,
        &vec![placement(0, 0, 3, Axis::Horiz), placement(0, 1, 2, Axis::Vert)],
    );
    assert_eq!(r.unwrap_err(), BoardError::Overlap);
}

#[test]
fn build_rejects_diagonal_touch() {
    let r = validate_and_build_board(
        10,
        &vec![placement(0, 0, 2, Axis::Horiz), placement(1, 2, 1, Axis::Horiz)],
    );
    assert_eq!(r.unwrap_err(), BoardError::Adjacency);
}

#[test]
fn build_assigns_ids_in_placement_order() {
    let b = validate_and_build_board(
        10,
        &vec![placement(0, 0, 2, Axis::Horiz), placement(5, 5, 3, Axis::Vert)],
    )
    .unwrap();
    assert_eq!(b.size, 10);
    assert_eq!(b.ships.len(), 2);
    assert_eq!(b.ships[0].id, 0);
    assert_eq!(b.ships[1].id, 1);
    assert_eq!(b.ships[0].cells, vec![Coord { row: 0, col: 0 }, Coord { row: 0, col: 1 }]);
    assert_eq!(
        b.ships[1].cells,
        vec![Coord { row: 5, col: 5 }, Coord { row: 6, col: 5 }, Coord { row: 7, col: 5 }]
    );
    assert_eq!(b.cells[idx(10, 0, 0)].ship_id, Some(0));
    assert_eq!(b.cells[idx(10, 0, 1)].ship_id, Some(0));
    assert_eq!(b.cells[idx(10, 6, 5)].ship_id, Some(1));
    assert_eq!(b.cells[idx(10, 0, 2)].ship_id, None);
    assert!(b.cells.iter().all(|c| !c.attacked));
}

#[test]
fn attack_rejects_out_of_bounds() {
    let mut b = validate_and_build_board(10, &vec![placement(0, 0, 2, Axis::Horiz)]).unwrap();
    let r = apply_attack(&mut b, 10, 0);
    assert_eq!(r.unwrap_err(), BoardError::OutOfBounds);
    assert!(!b.cells.iter().any(|c| c.attacked));
}

#[test]
fn attack_rejects_repeat_and_keeps_board() {
    let mut b = validate_and_build_board(10, &vec![placement(0, 0, 2, Axis::Horiz)]).unwrap();
    let first = apply_attack(&mut b, 4, 4).unwrap();
    assert_eq!(first, (false, false, None, false));
    let again = apply_attack(&mut b, 4, 4);
    assert_eq!(again.unwrap_err(), BoardError::AlreadyAttacked);
    assert!(b.cells[idx(10, 4, 4)].attacked);
    assert_eq!(b.cells.iter().filter(|c| c.attacked).count(), 1);
}

#[test]
fn sunk_padding_rejects_unknown_ship() {
    let mut b = validate_and_build_board(10, &vec![placement(0, 0, 2, Axis::Horiz)]).unwrap();
    let r = apply_sunk_padding(&mut b, 7);
    assert_eq!(r.unwrap_err(), BoardError::ShipNotFound);
}

#[test]
fn two_ship_game_over_needs_both_ships() {
    let mut b = validate_and_build_board(
        10,
        &vec![placement(0, 0, 1, Axis::Horiz), placement(9, 9, 1, Axis::Horiz)],
    )
    .unwrap();
    let (hit, sunk, sid, over) = apply_attack(&mut b, 0, 0).unwrap();
    assert!(hit && sunk);
    assert_eq!(sid, Some(0));
    assert!(!over, "one sunk ship of two must not end the game");
    let (hit2, sunk2, sid2, over2) = apply_attack(&mut b, 9, 9).unwrap();
    assert!(hit2 && sunk2 && over2);
    assert_eq!(sid2, Some(1));
}

#[test]
fn small_board_full_exchange() {
    // A 3 x 3 board with one two-cell ship across the top-left corner.
    let mut b = validate_and_build_board(3, &vec![placement(0, 0, 2, Axis::Horiz)]).unwrap();

    let (hit, sunk, sid, over) = apply_attack(&mut b, 0, 0).unwrap();
    assert!(hit);
    assert!(!sunk);
    assert_eq!(sid, Some(0));
    assert!(!over);

    let (hit, sunk, sid, over) = apply_attack(&mut b, 0, 1).unwrap();
    assert!(hit);
    assert!(sunk);
    assert_eq!(sid, Some(0));
    assert!(over);

    let (ship_cells, splash) = apply_sunk_padding(&mut b, 0).unwrap();
    assert_eq!(ship_cells, vec![Coord { row: 0, col: 0 }, Coord { row: 0, col: 1 }]);
    assert_eq!(
        splash,
        vec![
            Coord { row: 1, col: 0 },
            Coord { row: 1, col: 1 },
            Coord { row: 0, col: 2 },
            Coord { row: 1, col: 2 },
        ]
    );
    // The whole border of the ship is now attacked, the far row is not.
    assert!(b.cells[idx(3, 1, 0)].attacked);
    assert!(b.cells[idx(3, 1, 1)].attacked);
    assert!(b.cells[idx(3, 0, 2)].attacked);
    assert!(b.cells[idx(3, 1, 2)].attacked);
    assert!(!b.cells[idx(3, 2, 0)].attacked);
    assert!(!b.cells[idx(3, 2, 1)].attacked);
    assert!(!b.cells[idx(3, 2, 2)].attacked);
}

#[test]
fn enemy_view_starts_unknown_and_records_cells() {
    let mut v = empty_enemy_view(10);
    assert_eq!(v.size, 10);
    assert_eq!(v.cells.len(), 100);
    assert!(v.cells.iter().all(|c| *c == EnemyCell::Unknown));
    set_enemy_view_cell(&mut v, 3, 4, EnemyCell::Hit).unwrap();
    assert_eq!(v.cells[idx(10, 3, 4)], EnemyCell::Hit);
    let r = set_enemy_view_cell(&mut v, 10, 0, EnemyCell::Miss);
    assert_eq!(r.unwrap_err(), BoardError::OutOfBounds);
    assert_eq!(v.cells.iter().filter(|c| **c != EnemyCell::Unknown).count(), 1);
}
