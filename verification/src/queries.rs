//! Read-only projections of a peer's state for presentation: the owning
//! peer's full board laid out cell by cell, and whose turn it is. These
//! recompute nothing; they only re-shape what the state already holds.

use vstd::prelude::*;
use crate::board::{board_wf, cell_at, grid_in_bounds, grid_index, idx, lemma_grid_index_bounds, Board, Coord};
use crate::room::Room;

verus! {

/// One cell of the owner's board, with its coordinates spelled out.
#[derive(Clone, Copy, Debug, PartialEq, Eq, Structural)]
pub struct MyCellView {
    pub row: u8,
    pub col: u8,
    pub ship_id: Option<u8>,
    pub attacked: bool,
}

/// One ship of the owner's board.
#[derive(Clone, Debug, PartialEq)]
pub struct ShipView {
    pub id: u8,
    pub cells: Vec<Coord>,
}

/// The owner's full board, ship identities included; never shown to the
/// opponent.
#[derive(Clone, Debug, PartialEq)]
pub struct MyBoardView {
    pub size: u8,
    pub cells: Vec<MyCellView>,
    pub ships: Vec<ShipView>,
}

/// Lay the owner's board out row by row, each cell with its coordinates,
/// and copy the ship list.
pub fn my_board_view(board: &Board) -> (v: MyBoardView)
    requires
        board_wf(*board),
    ensures
        v.size == board.size,
        v.cells@.len() == (board.size as int) * (board.size as int),
        forall|r: int, c: int|
            grid_in_bounds(board.size, r, c) ==> {
                let cv = #[trigger] v.cells@[grid_index(board.size, r, c)];
                &&& cv.row as int == r
                &&& cv.col as int == c
                &&& cv.ship_id == cell_at(board.cells@, board.size, r, c).ship_id
                &&& cv.attacked == cell_at(board.cells@, board.size, r, c).attacked
            },
        v.ships@.len() == board.ships@.len(),
        forall|i: int|
            0 <= i < board.ships@.len() ==> (#[trigger] v.ships@[i]).id == board.ships@[i].id
                && v.ships@[i].cells@ == board.ships@[i].cells@,
{
    let size = board.size;
    let mut cells: Vec<MyCellView> = Vec::new();
    let mut row: u8 = 0;
    while row < size
        invariant
            row <= size,
            board_wf(*board),
            size == board.size,
            cells@.len() == (row as int) * (size as int),
            forall|r: int, c: int|
                0 <= r < row as int && 0 <= c < size as int ==> {
                    let cv = #[trigger] cells@[grid_index(size, r, c)];
                    &&& cv.row as int == r
                    &&& cv.col as int == c
                    &&& cv.ship_id == cell_at(board.cells@, size, r, c).ship_id
                    &&& cv.attacked == cell_at(board.cells@, size, r, c).attacked
                },
        decreases size as int - row as int,
    {
        let mut col: u8 = 0;
        while col < size
            invariant
                row < size,
                col <= size,
                board_wf(*board),
                size == board.size,
                cells@.len() == (row as int) * (size as int) + (col as int),
                forall|r: int, c: int|
                    (0 <= r < row as int && 0 <= c < size as int) || (r == row as int && 0 <= c
                        < col as int) ==> {
                        let cv = #[trigger] cells@[grid_index(size, r, c)];
                        &&& cv.row as int == r
                        &&& cv.col as int == c
                        &&& cv.ship_id == cell_at(board.cells@, size, r, c).ship_id
                        &&& cv.attacked == cell_at(board.cells@, size, r, c).attacked
                    },
            decreases size as int - col as int,
        {
            proof {
                lemma_grid_index_bounds(size, row as int, col as int);
            }
            let index = idx(size, row, col);
            let cell = board.cells[index];
            cells.push(
                MyCellView { row, col, ship_id: cell.ship_id, attacked: cell.attacked },
            );
            proof {
                assert forall|r: int, c: int|
                    (0 <= r < row as int && 0 <= c < size as int) || (r == row as int && 0 <= c
                        < col as int + 1) implies {
                    let cv = #[trigger] cells@[grid_index(size, r, c)];
                    &&& cv.row as int == r
                    &&& cv.col as int == c
                    &&& cv.ship_id == cell_at(board.cells@, size, r, c).ship_id
                    &&& cv.attacked == cell_at(board.cells@, size, r, c).attacked
                } by {
                    lemma_grid_index_bounds(size, r, c);
                    if !(r == row as int && c == col as int) {
                        assert(grid_index(size, r, c) < (row as int) * (size as int) + (
                        col as int)) by (nonlinear_arith)
                            requires
                                (0 <= r < row as int && 0 <= c < size as int) || (r == row as int
                                    && 0 <= c < col as int),
                                grid_index(size, r, c) == r * (size as int) + c,
                                row < size,
                                col < size,
                        ;
                    }
                }
            }
            col += 1;
        }
        proof {
            assert((row as int + 1) * (size as int) == (row as int) * (size as int) + (
            size as int)) by (nonlinear_arith);
        }
        row += 1;
    }
    let mut ships: Vec<ShipView> = Vec::new();
    let mut i: usize = 0;
    while i < board.ships.len()
        invariant
            i <= board.ships@.len(),
            ships@.len() == i as int,
            forall|j: int|
                0 <= j < i as int ==> (#[trigger] ships@[j]).id == board.ships@[j].id
                    && ships@[j].cells@ == board.ships@[j].cells@,
        decreases board.ships@.len() - i,
    {
        let cellsv = crate::board::clone_coords(&board.ships[i].cells);
        ships.push(ShipView { id: board.ships[i].id, cells: cellsv });
        i += 1;
    }
    proof {
        assert((row as int) * (size as int) == (size as int) * (size as int)) by (nonlinear_arith)
            requires
                row == size,
        ;
    }
    MyBoardView { size, cells, ships }
}

/// Whether this peer is the recorded current attacker of its room.
pub fn is_my_turn(room: &Option<Room>, self_chain: &String) -> (r: bool)
    ensures
        r == (room matches Some(rm) && (rm.current_attacker matches Some(a) && a@
            == self_chain@)),
{
    match room {
        Option::Some(rm) => match &rm.current_attacker {
            Option::Some(a) => *a == *self_chain,
            Option::None => false,
        },
        Option::None => false,
    }
}

} // verus!
