//! The board engine: validating ship placements, building a board, and
//! resolving attacks with sunk detection and splash padding.

use vstd::prelude::*;

verus! {

/// Direction in which a ship extends from its starting cell.
#[derive(Clone, Copy, Debug, PartialEq, Eq, Structural)]
pub enum Axis {
    Horiz,
    Vert,
}

/// A grid coordinate; `row` and `col` both count from zero.
#[derive(Clone, Copy, Debug, PartialEq, Eq, Hash, Structural)]
pub struct Coord {
    pub row: u8,
    pub col: u8,
}

/// A requested ship placement: starting cell, length, and direction.
#[derive(Clone, Copy, Debug, PartialEq, Eq, Structural)]
pub struct ShipPlacementInput {
    pub row: u8,
    pub col: u8,
    pub length: u8,
    pub axis: Axis,
}

/// One cell of an own board: which ship occupies it, and whether it has
/// been attacked.
#[derive(Clone, Copy, Debug)]
pub struct Cell {
    pub ship_id: Option<u8>,
    pub attacked: bool,
}

/// A placed ship: its identifier and the cells it occupies, in placement
/// order.
#[derive(Clone, Debug)]
pub struct Ship {
    pub id: u8,
    pub cells: Vec<Coord>,
}

/// A peer's own board: a `size` x `size` grid stored row-major, and the
/// list of placed ships.
#[derive(Clone, Debug)]
pub struct Board {
    pub size: u8,
    pub cells: Vec<Cell>,
    pub ships: Vec<Ship>,
}

/// The classes of board-engine rejection.
#[derive(Clone, Copy, Debug, PartialEq, Eq, Structural)]
pub enum BoardError {
    InvalidSize,
    InvalidLength,
    OutOfBounds,
    Overlap,
    Adjacency,
    AlreadyAttacked,
    ShipNotFound,
}

/// Row-major index of a grid coordinate.
pub open spec fn grid_index(size: u8, r: int, c: int) -> int {
    r * (size as int) + c
}

pub open spec fn grid_in_bounds(size: u8, r: int, c: int) -> bool {
    0 <= r < size as int && 0 <= c < size as int
}

/// The cell stored at coordinate `(r, c)` of a row-major grid.
pub open spec fn cell_at(cells: Seq<Cell>, size: u8, r: int, c: int) -> Cell {
    cells[grid_index(size, r, c)]
}

/// Whether two cells coincide or touch, including diagonally
/// (Chebyshev distance at most 1).
pub open spec fn cells_touch(r1: int, c1: int, r2: int, c2: int) -> bool {
    -1 <= r1 - r2 <= 1 && -1 <= c1 - c2 <= 1
}

/// Row of the `k`-th cell of a placement.
pub open spec fn placement_cell_row(p: ShipPlacementInput, k: int) -> int {
    match p.axis {
        Axis::Horiz => p.row as int,
        Axis::Vert => p.row as int + k,
    }
}

/// Column of the `k`-th cell of a placement.
pub open spec fn placement_cell_col(p: ShipPlacementInput, k: int) -> int {
    match p.axis {
        Axis::Horiz => p.col as int + k,
        Axis::Vert => p.col as int,
    }
}

pub open spec fn placement_in_bounds(size: u8, p: ShipPlacementInput) -> bool {
    forall|k: int|
        0 <= k < p.length as int ==> grid_in_bounds(
            size,
            #[trigger] placement_cell_row(p, k),
            placement_cell_col(p, k),
        )
}

/// Whether some cell of a prior placement sits exactly at `(r, c)`.
pub open spec fn overlaps_prior(prior: Seq<ShipPlacementInput>, r: int, c: int) -> bool {
    exists|i: int, k: int|
        0 <= i < prior.len() && 0 <= k < prior[i].length as int
            && #[trigger] placement_cell_row(prior[i], k) == r
            && #[trigger] placement_cell_col(prior[i], k) == c
}

/// Whether some cell of a prior placement, other than `(r, c)` itself,
/// touches `(r, c)` (including diagonally).
pub open spec fn adjacent_to_prior(prior: Seq<ShipPlacementInput>, r: int, c: int) -> bool {
    exists|i: int, k: int|
        0 <= i < prior.len() && 0 <= k < prior[i].length as int
            && cells_touch(
            #[trigger] placement_cell_row(prior[i], k),
            #[trigger] placement_cell_col(prior[i], k),
            r,
            c,
        ) && !(placement_cell_row(prior[i], k) == r && placement_cell_col(prior[i], k) == c)
}

/// First conflict of placement `p` against the placements laid down before
/// it, walking `p`'s cells in order: at each cell an exact overlap is
/// reported before a mere touch.
pub open spec fn cell_conflict_error(
    prior: Seq<ShipPlacementInput>,
    p: ShipPlacementInput,
    k: int,
) -> Option<BoardError>
    decreases p.length as int - k,
{
    if k < 0 || k >= p.length as int {
        None
    } else if overlaps_prior(prior, placement_cell_row(p, k), placement_cell_col(p, k)) {
        Some(BoardError::Overlap)
    } else if adjacent_to_prior(prior, placement_cell_row(p, k), placement_cell_col(p, k)) {
        Some(BoardError::Adjacency)
    } else {
        cell_conflict_error(prior, p, k + 1)
    }
}

/// Why placement `p` is rejected given the placements before it, or `None`
/// if it is accepted: a zero length is reported first, then any cell out of
/// bounds, then the first overlap or adjacency conflict.
pub open spec fn placement_error(
    size: u8,
    prior: Seq<ShipPlacementInput>,
    p: ShipPlacementInput,
) -> Option<BoardError> {
    if p.length == 0 {
        Some(BoardError::InvalidLength)
    } else if !placement_in_bounds(size, p) {
        Some(BoardError::OutOfBounds)
    } else {
        cell_conflict_error(prior, p, 0)
    }
}

pub open spec fn build_error_from(
    size: u8,
    ps: Seq<ShipPlacementInput>,
    i: int,
) -> Option<BoardError>
    decreases ps.len() - i,
{
    if i < 0 || i >= ps.len() {
        None
    } else {
        match placement_error(size, ps.take(i), ps[i]) {
            Some(e) => Some(e),
            None => build_error_from(size, ps, i + 1),
        }
    }
}

/// The error that building a board from `ps` reports, or `None` when the
/// build succeeds: placements are checked in order, each against those
/// before it.
pub open spec fn build_error(size: u8, ps: Seq<ShipPlacementInput>) -> Option<BoardError> {
    if size == 0 {
        Some(BoardError::InvalidSize)
    } else {
        build_error_from(size, ps, 0)
    }
}

/// A direct statement of placement-list validity: every ship is non-empty
/// and on the board, and cells of distinct ships never coincide nor touch,
/// including diagonally.
pub open spec fn placements_valid(size: u8, ps: Seq<ShipPlacementInput>) -> bool {
    &&& size > 0
    &&& forall|i: int|
        0 <= i < ps.len() ==> (#[trigger] ps[i]).length > 0 && placement_in_bounds(size, ps[i])
    &&& forall|i: int, j: int, k1: int, k2: int|
        0 <= i < ps.len() && 0 <= j < ps.len() && i != j && 0 <= k1 < ps[i].length as int && 0 <= k2
            < ps[j].length as int ==> !cells_touch(
            #[trigger] placement_cell_row(ps[i], k1),
            #[trigger] placement_cell_col(ps[i], k1),
            #[trigger] placement_cell_row(ps[j], k2),
            #[trigger] placement_cell_col(ps[j], k2),
        )
}

/// Whether ship `s` occupies `(r, c)`.
pub open spec fn ship_covers(s: Ship, r: int, c: int) -> bool {
    exists|k: int|
        0 <= k < s.cells@.len() && (#[trigger] s.cells@[k]).row as int == r && s.cells@[k].col as int
            == c
}

/// Whether any of `ships` occupies `(r, c)`.
pub open spec fn ships_cover(ships: Seq<Ship>, r: int, c: int) -> bool {
    exists|i: int| 0 <= i < ships.len() && ship_covers(#[trigger] ships[i], r, c)
}

/// Structural health of a ship list: identifiers equal positions, every
/// ship is non-empty and on the board, no ship cell repeats, and cells of
/// distinct ships never coincide nor touch.
pub open spec fn ships_wf(ships: Seq<Ship>, size: u8) -> bool {
    &&& forall|i: int| 0 <= i < ships.len() ==> (#[trigger] ships[i]).id as int == i
    &&& forall|i: int| 0 <= i < ships.len() ==> (#[trigger] ships[i]).cells@.len() > 0
    &&& forall|i: int, k: int|
        0 <= i < ships.len() && 0 <= k < ships[i].cells@.len() ==> grid_in_bounds(
            size,
            (#[trigger] ships[i].cells@[k]).row as int,
            ships[i].cells@[k].col as int,
        )
    &&& forall|i: int, k1: int, k2: int|
        0 <= i < ships.len() && 0 <= k1 < ships[i].cells@.len() && 0 <= k2
            < ships[i].cells@.len() && k1 != k2 ==> !((#[trigger] ships[i].cells@[k1]).row == (
        #[trigger] ships[i].cells@[k2]).row && ships[i].cells@[k1].col == ships[i].cells@[k2].col)
    &&& forall|i: int, j: int, k1: int, k2: int|
        0 <= i < ships.len() && 0 <= j < ships.len() && i != j && 0 <= k1
            < ships[i].cells@.len() && 0 <= k2 < ships[j].cells@.len() ==> !cells_touch(
            (#[trigger] ships[i].cells@[k1]).row as int,
            ships[i].cells@[k1].col as int,
            (#[trigger] ships[j].cells@[k2]).row as int,
            ships[j].cells@[k2].col as int,
        )
}

/// The grid agrees with the ship list: each ship cell records its ship's
/// identifier and every other cell records no ship.
pub open spec fn grid_matches_ships(cells: Seq<Cell>, size: u8, ships: Seq<Ship>) -> bool {
    &&& forall|i: int, k: int|
        0 <= i < ships.len() && 0 <= k < ships[i].cells@.len() ==> cell_at(
            cells,
            size,
            (#[trigger] ships[i].cells@[k]).row as int,
            ships[i].cells@[k].col as int,
        ).ship_id == Some(i as u8)
    &&& forall|r: int, c: int|
        grid_in_bounds(size, r, c) && !ships_cover(ships, r, c) ==> (#[trigger] cell_at(
            cells,
            size,
            r,
            c,
        )).ship_id is None
}

/// Invariant of every board the engine hands out or accepts.
pub open spec fn board_wf(b: Board) -> bool {
    &&& b.size > 0
    &&& b.cells@.len() == (b.size as int) * (b.size as int)
    &&& b.ships@.len() <= 256
    &&& ships_wf(b.ships@, b.size)
    &&& grid_matches_ships(b.cells@, b.size, b.ships@)
}

/// The `i`-th ship has every cell attacked.
pub open spec fn ship_sunk(b: Board, i: int) -> bool {
    forall|k: int|
        0 <= k < b.ships@[i].cells@.len() ==> cell_at(
            b.cells@,
            b.size,
            (#[trigger] b.ships@[i].cells@[k]).row as int,
            b.ships@[i].cells@[k].col as int,
        ).attacked
}

/// Every cell of every ship is attacked: the game is over.
pub open spec fn all_ships_sunk(b: Board) -> bool {
    forall|i: int| 0 <= i < b.ships@.len() ==> ship_sunk(b, i)
}

pub open spec fn attack_in_bounds(b: Board, row: u8, col: u8) -> bool {
    grid_in_bounds(b.size, row as int, col as int)
}

/// An attack lands only on an in-bounds cell not attacked before.
pub open spec fn attack_allowed(b: Board, row: u8, col: u8) -> bool {
    attack_in_bounds(b, row, col) && !cell_at(b.cells@, b.size, row as int, col as int).attacked
}

/// The grid after an attack at `(row, col)` lands: that one cell becomes
/// attacked and keeps its ship; everything else is untouched.
pub open spec fn cells_after_attack(b: Board, row: u8, col: u8) -> Seq<Cell> {
    b.cells@.update(
        grid_index(b.size, row as int, col as int),
        Cell { ship_id: cell_at(b.cells@, b.size, row as int, col as int).ship_id, attacked: true },
    )
}

pub proof fn lemma_grid_index_bounds(size: u8, r: int, c: int)
    requires
        grid_in_bounds(size, r, c),
    ensures
        0 <= grid_index(size, r, c) < (size as int) * (size as int),
{
    assert(0 <= r * (size as int) + c < (size as int) * (size as int)) by (nonlinear_arith)
        requires
            0 <= r < size as int,
            0 <= c < size as int,
    ;
}

pub proof fn lemma_grid_index_injective(size: u8, r1: int, c1: int, r2: int, c2: int)
    requires
        grid_in_bounds(size, r1, c1),
        grid_in_bounds(size, r2, c2),
        grid_index(size, r1, c1) == grid_index(size, r2, c2),
    ensures
        r1 == r2 && c1 == c2,
{
    assert(r1 == r2 && c1 == c2) by (nonlinear_arith)
        requires
            0 <= r1 < size as int,
            0 <= c1 < size as int,
            0 <= r2 < size as int,
            0 <= c2 < size as int,
            r1 * (size as int) + c1 == r2 * (size as int) + c2,
    ;
}

/// Marking one cell attacked moves no ship: the grid keeps agreeing with
/// the ship list, and every other cell is untouched.
pub proof fn lemma_grid_after_mark(b: Board, cells2: Seq<Cell>, row: u8, col: u8)
    requires
        board_wf(b),
        attack_in_bounds(b, row, col),
        cells2 == cells_after_attack(b, row, col),
    ensures
        cells2.len() == b.cells@.len(),
        grid_matches_ships(cells2, b.size, b.ships@),
        forall|r: int, c: int|
            grid_in_bounds(b.size, r, c) ==> (#[trigger] cell_at(cells2, b.size, r, c)).ship_id
                == cell_at(b.cells@, b.size, r, c).ship_id,
        forall|r: int, c: int|
            grid_in_bounds(b.size, r, c) && !(r == row as int && c == col as int) ==> (
            #[trigger] cell_at(cells2, b.size, r, c)).attacked == cell_at(
                b.cells@,
                b.size,
                r,
                c,
            ).attacked,
        cell_at(cells2, b.size, row as int, col as int).attacked,
{
    lemma_grid_index_bounds(b.size, row as int, col as int);
    assert forall|r: int, c: int| grid_in_bounds(b.size, r, c) implies (#[trigger] cell_at(
        cells2,
        b.size,
        r,
        c,
    )).ship_id == cell_at(b.cells@, b.size, r, c).ship_id && (!(r == row as int && c
        == col as int) ==> cell_at(cells2, b.size, r, c).attacked == cell_at(
        b.cells@,
        b.size,
        r,
        c,
    ).attacked) by {
        lemma_grid_index_bounds(b.size, r, c);
        if grid_index(b.size, r, c) == grid_index(b.size, row as int, col as int) {
            lemma_grid_index_injective(b.size, r, c, row as int, col as int);
        }
    }
    assert forall|i: int, k: int|
        0 <= i < b.ships@.len() && 0 <= k < b.ships@[i].cells@.len() implies cell_at(
        cells2,
        b.size,
        (#[trigger] b.ships@[i].cells@[k]).row as int,
        b.ships@[i].cells@[k].col as int,
    ).ship_id == Some(i as u8) by {
        assert(grid_in_bounds(
            b.size,
            b.ships@[i].cells@[k].row as int,
            b.ships@[i].cells@[k].col as int,
        ));
    }
}

fn ship_all_attacked(board: &Board, i: usize) -> (r: bool)
    requires
        board_wf(*board),
        (i as int) < board.ships@.len(),
    ensures
        r == ship_sunk(*board, i as int),
{
    let n = board.ships[i].cells.len();
    let mut k: usize = 0;
    while k < n
        invariant
            board_wf(*board),
            (i as int) < board.ships@.len(),
            n == board.ships@[i as int].cells@.len(),
            k <= n,
            forall|k2: int|
                0 <= k2 < k ==> cell_at(
                    board.cells@,
                    board.size,
                    (#[trigger] board.ships@[i as int].cells@[k2]).row as int,
                    board.ships@[i as int].cells@[k2].col as int,
                ).attacked,
        decreases n - k,
    {
        let coord = board.ships[i].cells[k];
        proof {
            lemma_grid_index_bounds(board.size, coord.row as int, coord.col as int);
        }
        let index = idx(board.size, coord.row, coord.col);
        if !board.cells[index].attacked {
            proof {
                assert(!cell_at(
                    board.cells@,
                    board.size,
                    board.ships@[i as int].cells@[k as int].row as int,
                    board.ships@[i as int].cells@[k as int].col as int,
                ).attacked);
            }
            return false;
        }
        k += 1;
    }
    true
}

fn all_ships_attacked(board: &Board) -> (r: bool)
    requires
        board_wf(*board),
    ensures
        r == all_ships_sunk(*board),
{
    let n = board.ships.len();
    let mut i: usize = 0;
    while i < n
        invariant
            board_wf(*board),
            n == board.ships@.len(),
            i <= n,
            forall|i2: int| 0 <= i2 < i ==> ship_sunk(*board, i2),
        decreases n - i,
    {
        if !ship_all_attacked(board, i) {
            return false;
        }
        i += 1;
    }
    true
}

/// Resolve an attack at `(row, col)`: out-of-bounds and repeated attacks
/// are rejected without changing the board; otherwise the cell is marked
/// attacked and the outcome reports whether a ship was hit, whether that
/// ship is now fully attacked, its identifier, and whether every ship on
/// the board is now fully attacked.
pub fn apply_attack(board: &mut Board, row: u8, col: u8) -> (r: Result<
    (bool, bool, Option<u8>, bool),
    BoardError,
>)
    requires
        board_wf(*old(board)),
    ensures
        board_wf(*final(board)),
        final(board).size == old(board).size,
        final(board).ships == old(board).ships,
        !attack_in_bounds(*old(board), row, col) ==> *final(board) == *old(board) && r == Err::<
            (bool, bool, Option<u8>, bool),
            BoardError,
        >(BoardError::OutOfBounds),
        attack_in_bounds(*old(board), row, col) && !attack_allowed(*old(board), row, col)
            ==> *final(board) == *old(board) && r == Err::<(bool, bool, Option<u8>, bool), BoardError>(
            BoardError::AlreadyAttacked,
        ),
        attack_allowed(*old(board), row, col) ==> {
            &&& final(board).cells@ == cells_after_attack(*old(board), row, col)
            &&& r matches Ok(t) && {
                let sid = cell_at(
                    old(board).cells@,
                    old(board).size,
                    row as int,
                    col as int,
                ).ship_id;
                &&& t.2 == sid
                &&& t.0 == sid is Some
                &&& t.1 == (sid matches Some(s) && ship_sunk(*final(board), s as int))
                &&& t.3 == all_ships_sunk(*final(board))
            }
        },
{
    if row >= board.size || col >= board.size {
        return Err(BoardError::OutOfBounds);
    }
    proof {
        lemma_grid_index_bounds(board.size, row as int, col as int);
    }
    let index = idx(board.size, row, col);
    if board.cells[index].attacked {
        return Err(BoardError::AlreadyAttacked);
    }
    let ship_id = board.cells[index].ship_id;
    board.cells[index] = Cell { ship_id, attacked: true };
    proof {
        lemma_grid_after_mark(*old(board), board.cells@, row, col);
    }
    let hit = ship_id.is_some();
    let mut sunk = false;
    if let Some(sid) = ship_id {
        proof {
            assert(ships_cover(old(board).ships@, row as int, col as int) || cell_at(
                old(board).cells@,
                old(board).size,
                row as int,
                col as int,
            ).ship_id is None);
            assert((sid as int) < board.ships@.len()) by {
                let (i, k) = choose|i: int, k: int|
                    0 <= i < old(board).ships@.len() && 0 <= k < old(
                        board,
                    ).ships@[i].cells@.len() && (#[trigger] old(board).ships@[i].cells@[k]).row
                        as int == row as int && old(board).ships@[i].cells@[k].col as int
                        == col as int;
                assert(cell_at(
                    old(board).cells@,
                    old(board).size,
                    row as int,
                    col as int,
                ).ship_id == Some(i as u8));
            }
        }
        sunk = ship_all_attacked(board, sid as usize);
    }
    let game_over = all_ships_attacked(board);
    Ok((hit, sunk, ship_id, game_over))
}

/// On a well-formed board, no two distinct ships share a cell, and no cell
/// of one ship lies within Chebyshev distance 1 of a cell of another ship.
pub proof fn lemma_ships_separated(b: Board)
    requires
        board_wf(b),
    ensures
        forall|i: int, j: int, k1: int, k2: int|
            0 <= i < b.ships@.len() && 0 <= j < b.ships@.len() && i != j && 0 <= k1
                < b.ships@[i].cells@.len() && 0 <= k2 < b.ships@[j].cells@.len()
                ==> #[trigger] b.ships@[i].cells@[k1] != #[trigger] b.ships@[j].cells@[k2],
        forall|i: int, j: int, k1: int, k2: int|
            0 <= i < b.ships@.len() && 0 <= j < b.ships@.len() && i != j && 0 <= k1
                < b.ships@[i].cells@.len() && 0 <= k2 < b.ships@[j].cells@.len() ==> !cells_touch(
                (#[trigger] b.ships@[i].cells@[k1]).row as int,
                b.ships@[i].cells@[k1].col as int,
                (#[trigger] b.ships@[j].cells@[k2]).row as int,
                b.ships@[j].cells@[k2].col as int,
            ),
{
}

/// Attacking the same cell twice is rejected: once an attack has landed,
/// the cell is no longer open, so a second `apply_attack` there returns
/// `AlreadyAttacked` and leaves the board unchanged.
pub proof fn lemma_attack_rejects_repeat(b1: Board, b2: Board, row: u8, col: u8)
    requires
        board_wf(b1),
        attack_allowed(b1, row, col),
        b2.size == b1.size,
        b2.cells@ == cells_after_attack(b1, row, col),
    ensures
        attack_in_bounds(b2, row, col),
        !attack_allowed(b2, row, col),
{
    lemma_grid_index_bounds(b1.size, row as int, col as int);
}

/// Whether the game is over depends only on which cells are attacked, not
/// on the order the attacks arrived in: two boards with the same ships and
/// the same attacked cells agree on every ship's sunk state.
pub proof fn lemma_game_over_from_attacked_cells(b1: Board, b2: Board)
    requires
        board_wf(b1),
        board_wf(b2),
        b1.size == b2.size,
        b1.ships@ == b2.ships@,
        forall|r: int, c: int|
            grid_in_bounds(b1.size, r, c) ==> (#[trigger] cell_at(b1.cells@, b1.size, r, c)).attacked
                == cell_at(b2.cells@, b2.size, r, c).attacked,
    ensures
        forall|i: int| 0 <= i < b1.ships@.len() ==> ship_sunk(b1, i) == ship_sunk(b2, i),
        all_ships_sunk(b1) == all_ships_sunk(b2),
{
    assert forall|i: int| 0 <= i < b1.ships@.len() implies ship_sunk(b1, i) == ship_sunk(
        b2,
        i,
    ) by {
        if ship_sunk(b1, i) {
            assert forall|k: int| 0 <= k < b2.ships@[i].cells@.len() implies cell_at(
                b2.cells@,
                b2.size,
                (#[trigger] b2.ships@[i].cells@[k]).row as int,
                b2.ships@[i].cells@[k].col as int,
            ).attacked by {
                assert(cell_at(
                    b1.cells@,
                    b1.size,
                    b1.ships@[i].cells@[k].row as int,
                    b1.ships@[i].cells@[k].col as int,
                ).attacked);
            }
        }
        if ship_sunk(b2, i) {
            assert forall|k: int| 0 <= k < b1.ships@[i].cells@.len() implies cell_at(
                b1.cells@,
                b1.size,
                (#[trigger] b1.ships@[i].cells@[k]).row as int,
                b1.ships@[i].cells@[k].col as int,
            ).attacked by {
                assert(cell_at(
                    b2.cells@,
                    b2.size,
                    b2.ships@[i].cells@[k].row as int,
                    b2.ships@[i].cells@[k].col as int,
                ).attacked);
            }
        }
    }
}

/// Ship `s` is placement `p` realised: same length, and cell `k` of the
/// ship sits where cell `k` of the placement falls.
pub open spec fn ship_matches_placement(s: Ship, p: ShipPlacementInput) -> bool {
    &&& s.cells@.len() == p.length as int
    &&& forall|k: int|
        0 <= k < p.length as int ==> (#[trigger] s.cells@[k]).row as int == placement_cell_row(p, k)
            && s.cells@[k].col as int == placement_cell_col(p, k)
}

/// A freshly built board: ship `i` realises placement `i`, and nothing is
/// attacked yet.
pub open spec fn built_from(b: Board, size: u8, ps: Seq<ShipPlacementInput>) -> bool {
    &&& b.size == size
    &&& b.ships@.len() == ps.len()
    &&& forall|i: int| 0 <= i < ps.len() ==> ship_matches_placement(#[trigger] b.ships@[i], ps[i])
    &&& forall|n: int| 0 <= n < b.cells@.len() ==> !(#[trigger] b.cells@[n]).attacked
}

/// Whether one of the first `k` cells of placement `p` falls on `(r, c)`.
pub open spec fn placement_covers_upto(p: ShipPlacementInput, k: int, r: int, c: int) -> bool {
    exists|k2: int|
        0 <= k2 < k && #[trigger] placement_cell_row(p, k2) == r && #[trigger] placement_cell_col(
            p,
            k2,
        ) == c
}

proof fn lemma_build_error_skip(size: u8, ps: Seq<ShipPlacementInput>, i: int)
    requires
        0 <= i <= ps.len(),
        forall|j: int| 0 <= j < i ==> placement_error(size, ps.take(j), #[trigger] ps[j]) is None,
    ensures
        build_error_from(size, ps, 0) == build_error_from(size, ps, i),
    decreases i,
{
    if i > 0 {
        lemma_build_error_skip(size, ps, i - 1);
        assert(build_error_from(size, ps, i - 1) == build_error_from(size, ps, i));
    }
}

proof fn lemma_cell_conflict_skip(prior: Seq<ShipPlacementInput>, p: ShipPlacementInput, k: int)
    requires
        0 <= k <= p.length as int,
        forall|k2: int|
            0 <= k2 < k ==> !overlaps_prior(
                prior,
                #[trigger] placement_cell_row(p, k2),
                placement_cell_col(p, k2),
            ) && !adjacent_to_prior(prior, placement_cell_row(p, k2), placement_cell_col(p, k2)),
    ensures
        cell_conflict_error(prior, p, 0) == cell_conflict_error(prior, p, k),
    decreases k,
{
    if k > 0 {
        lemma_cell_conflict_skip(prior, p, k - 1);
        assert(cell_conflict_error(prior, p, k - 1) == cell_conflict_error(prior, p, k));
    }
}

/// With ships realising exactly the prior placements, the grid's notion of
/// "some ship sits here" coincides with the placements' notion.
proof fn lemma_cover_equiv(ships: Seq<Ship>, ps: Seq<ShipPlacementInput>, r: int, c: int)
    requires
        ships.len() == ps.len(),
        forall|i: int| 0 <= i < ps.len() ==> ship_matches_placement(#[trigger] ships[i], ps[i]),
    ensures
        ships_cover(ships, r, c) == overlaps_prior(ps, r, c),
{
    if ships_cover(ships, r, c) {
        let i = choose|i: int| 0 <= i < ships.len() && ship_covers(#[trigger] ships[i], r, c);
        let k = choose|k: int|
            0 <= k < ships[i].cells@.len() && (#[trigger] ships[i].cells@[k]).row as int == r
                && ships[i].cells@[k].col as int == c;
        assert(placement_cell_row(ps[i], k) == r && placement_cell_col(ps[i], k) == c);
        assert(overlaps_prior(ps, r, c));
    }
    if overlaps_prior(ps, r, c) {
        let (i, k) = choose|i: int, k: int|
            0 <= i < ps.len() && 0 <= k < ps[i].length as int && #[trigger] placement_cell_row(
                ps[i],
                k,
            ) == r && #[trigger] placement_cell_col(ps[i], k) == c;
        assert(ship_matches_placement(ships[i], ps[i]));
        assert((ships[i].cells@[k]).row as int == r && ships[i].cells@[k].col as int == c);
        assert(ship_covers(ships[i], r, c));
        assert(ships_cover(ships, r, c));
    }
}

/// If every in-bounds neighbour of `(r, c)` holds no ship in the grid, no
/// prior placement has a cell adjacent to `(r, c)`.
proof fn lemma_no_adjacent(
    ships: Seq<Ship>,
    ps: Seq<ShipPlacementInput>,
    size: u8,
    cells: Seq<Cell>,
    r: int,
    c: int,
)
    requires
        ships.len() == ps.len(),
        forall|i: int| 0 <= i < ps.len() ==> ship_matches_placement(#[trigger] ships[i], ps[i]),
        ships_wf(ships, size),
        grid_matches_ships(cells, size, ships),
        forall|r2: int, c2: int|
            cells_touch(r2, c2, r, c) && !(r2 == r && c2 == c) && grid_in_bounds(size, r2, c2) ==> (
            #[trigger] cell_at(cells, size, r2, c2)).ship_id is None,
    ensures
        !adjacent_to_prior(ps, r, c),
{
    if adjacent_to_prior(ps, r, c) {
        let (i, k) = choose|i: int, k: int|
            0 <= i < ps.len() && 0 <= k < ps[i].length as int && cells_touch(
                #[trigger] placement_cell_row(ps[i], k),
                #[trigger] placement_cell_col(ps[i], k),
                r,
                c,
            ) && !(placement_cell_row(ps[i], k) == r && placement_cell_col(ps[i], k) == c);
        assert(ship_matches_placement(ships[i], ps[i]));
        let r2 = placement_cell_row(ps[i], k);
        let c2 = placement_cell_col(ps[i], k);
        assert((ships[i].cells@[k]).row as int == r2 && ships[i].cells@[k].col as int == c2);
        assert(grid_in_bounds(size, r2, c2));
        assert(cell_at(cells, size, r2, c2).ship_id == Some(i as u8));
        assert(false);
    }
}

/// Whether the grid records a ship at offset `(dr, dc)` from `(r, c)`,
/// with positions off the board counting as empty.
fn prior_at_offset(cells: &Vec<Cell>, size: u8, r: u8, c: u8, dr: i8, dc: i8) -> (res: bool)
    requires
        cells@.len() == (size as int) * (size as int),
        size > 0,
        (r as int) < size as int,
        (c as int) < size as int,
        -1 <= dr as int <= 1,
        -1 <= dc as int <= 1,
    ensures
        res == (grid_in_bounds(size, r as int + dr as int, c as int + dc as int) && cell_at(
            cells@,
            size,
            r as int + dr as int,
            c as int + dc as int,
        ).ship_id is Some),
{
    let nr: i16 = r as i16 + dr as i16;
    let nc: i16 = c as i16 + dc as i16;
    if nr < 0 || nc < 0 {
        return false;
    }
    if nr >= size as i16 || nc >= size as i16 {
        return false;
    }
    let nru = nr as u8;
    let ncu = nc as u8;
    proof {
        lemma_grid_index_bounds(size, nru as int, ncu as int);
    }
    let index = idx(size, nru, ncu);
    cells[index].ship_id.is_some()
}

/// Validate a list of ship placements against a square board of the given
/// size and build the board: ship identifiers count up from zero in
/// placement order, the grid mirrors the ships, and no cell starts
/// attacked. Rejections report, in checking order, a zero board size, a
/// zero ship length, a cell off the board, a cell already owned by an
/// earlier ship, or a cell touching an earlier ship (diagonals included).
#[verifier::loop_isolation(false)]
pub fn validate_and_build_board(size: u8, placements: &Vec<ShipPlacementInput>) -> (r: Result<
    Board,
    BoardError,
>)
    requires
        placements@.len() <= 256,
    ensures
        build_error(size, placements@) matches Some(e) ==> r == Err::<Board, BoardError>(e),
        build_error(size, placements@) is None ==> (r matches Ok(b) && board_wf(b) && built_from(
            b,
            size,
            placements@,
        )),
{
    if size == 0 {
        return Err(BoardError::InvalidSize);
    }
    proof {
        assert((size as int) * (size as int) <= 255 * 255) by (nonlinear_arith)
            requires
                size <= 255,
        ;
    }
    let total = (size as usize) * (size as usize);
    let mut cells: Vec<Cell> = Vec::new();
    while cells.len() < total
        invariant
            total == (size as int) * (size as int),
            cells@.len() <= total,
            forall|n: int|
                0 <= n < cells@.len() ==> #[trigger] cells@[n] == (Cell {
                    ship_id: None::<u8>,
                    attacked: false,
                }),
        decreases total - cells@.len(),
    {
        cells.push(Cell { ship_id: None, attacked: false });
    }
    proof {
        assert forall|r2: int, c2: int| grid_in_bounds(size, r2, c2) implies (#[trigger] cell_at(
            cells@,
            size,
            r2,
            c2,
        )).ship_id is None by {
            lemma_grid_index_bounds(size, r2, c2);
        }
    }
    let mut ships: Vec<Ship> = Vec::new();
    let max_index = size - 1;
    let mut pi: usize = 0;
    while pi < placements.len()
        invariant
            size > 0,
            max_index == size - 1,
            total == (size as int) * (size as int),
            placements@.len() <= 256,
            pi <= placements@.len(),
            cells@.len() == total,
            ships@.len() == pi,
            forall|j: int|
                0 <= j < pi ==> placement_error(
                    size,
                    placements@.take(j),
                    #[trigger] placements@[j],
                ) is None,
            forall|i: int|
                0 <= i < pi ==> ship_matches_placement(#[trigger] ships@[i], placements@[i]),
            ships_wf(ships@, size),
            grid_matches_ships(cells@, size, ships@),
            forall|n: int| 0 <= n < cells@.len() ==> !(#[trigger] cells@[n]).attacked,
        decreases placements@.len() - pi,
    {
        let p = placements[pi];
        let ghost prior = placements@.take(pi as int);
        proof {
            assert(forall|i: int| 0 <= i < pi ==> prior[i] == placements@[i]);
        }
        if p.length == 0 {
            proof {
                assert(placement_error(size, prior, p) == Some(BoardError::InvalidLength));
                lemma_build_error_skip(size, placements@, pi as int);
            }
            return Err(BoardError::InvalidLength);
        }
        if p.row > max_index || p.col > max_index {
            proof {
                assert(placement_cell_row(p, 0) == p.row as int && placement_cell_col(p, 0)
                    == p.col as int);
                assert(!placement_in_bounds(size, p));
                assert(placement_error(size, prior, p) == Some(BoardError::OutOfBounds));
                lemma_build_error_skip(size, placements@, pi as int);
            }
            return Err(BoardError::OutOfBounds);
        }
        let mut ship_cells: Vec<Coord> = Vec::new();
        let mut k: u8 = 0;
        while k < p.length
            invariant
                size > 0,
                max_index == size - 1,
                k <= p.length,
                ship_cells@.len() == k as int,
                forall|k2: int|
                    0 <= k2 < k as int ==> (#[trigger] ship_cells@[k2]).row as int
                        == placement_cell_row(p, k2) && ship_cells@[k2].col as int
                        == placement_cell_col(p, k2) && grid_in_bounds(
                        size,
                        placement_cell_row(p, k2),
                        placement_cell_col(p, k2),
                    ),
            decreases p.length as int - k as int,
        {
            let (rr, cc): (u16, u16) = match p.axis {
                Axis::Horiz => (p.row as u16, p.col as u16 + k as u16),
                Axis::Vert => (p.row as u16 + k as u16, p.col as u16),
            };
            if rr > max_index as u16 || cc > max_index as u16 {
                proof {
                    assert(!grid_in_bounds(size, placement_cell_row(p, k as int), placement_cell_col(p, k as int)));
                    assert(!placement_in_bounds(size, p));
                    assert(placement_error(size, prior, p) == Some(BoardError::OutOfBounds));
                    lemma_build_error_skip(size, placements@, pi as int);
                }
                return Err(BoardError::OutOfBounds);
            }
            ship_cells.push(Coord { row: rr as u8, col: cc as u8 });
            k += 1;
        }
        proof {
            assert forall|k2: int| 0 <= k2 < p.length as int implies grid_in_bounds(
                size,
                #[trigger] placement_cell_row(p, k2),
                placement_cell_col(p, k2),
            ) by {
                assert(ship_cells@[k2].row as int == placement_cell_row(p, k2));
            }
            assert(placement_in_bounds(size, p));
        }
        let mut k: usize = 0;
        while k < ship_cells.len()
            invariant
                size > 0,
                total == (size as int) * (size as int),
                cells@.len() == total,
                k <= ship_cells@.len(),
                ship_cells@.len() == p.length as int,
                forall|k2: int|
                    0 <= k2 < p.length as int ==> (#[trigger] ship_cells@[k2]).row as int
                        == placement_cell_row(p, k2) && ship_cells@[k2].col as int
                        == placement_cell_col(p, k2) && grid_in_bounds(
                        size,
                        placement_cell_row(p, k2),
                        placement_cell_col(p, k2),
                    ),
                ships@.len() == pi,
                forall|i: int|
                    0 <= i < pi ==> ship_matches_placement(#[trigger] ships@[i], placements@[i]),
                ships_wf(ships@, size),
                grid_matches_ships(cells@, size, ships@),
                prior == placements@.take(pi as int),
                prior.len() == pi,
                forall|i: int| 0 <= i < pi ==> #[trigger] prior[i] == placements@[i],
                forall|k2: int|
                    0 <= k2 < k ==> !overlaps_prior(
                        prior,
                        #[trigger] placement_cell_row(p, k2),
                        placement_cell_col(p, k2),
                    ) && !adjacent_to_prior(
                        prior,
                        placement_cell_row(p, k2),
                        placement_cell_col(p, k2),
                    ),
            decreases ship_cells@.len() - k,
        {
            let coord = ship_cells[k];
            proof {
                lemma_grid_index_bounds(size, coord.row as int, coord.col as int);
            }
            let index = idx(size, coord.row, coord.col);
            if cells[index].ship_id.is_some() {
                proof {
                    assert(ships_cover(ships@, coord.row as int, coord.col as int)) by {
                        if !ships_cover(ships@, coord.row as int, coord.col as int) {
                            assert(cell_at(
                                cells@,
                                size,
                                coord.row as int,
                                coord.col as int,
                            ).ship_id is None);
                        }
                    }
                    lemma_cover_equiv(ships@, prior, coord.row as int, coord.col as int);
                    lemma_cell_conflict_skip(prior, p, k as int);
                    assert(cell_conflict_error(prior, p, k as int) == Some(BoardError::Overlap));
                    assert(placement_error(size, prior, p) == Some(BoardError::Overlap));
                    lemma_build_error_skip(size, placements@, pi as int);
                }
                return Err(BoardError::Overlap);
            }
            let mut found = false;
            let mut d: u8 = 0;
            while d < 9
                invariant
                    cells@.len() == (size as int) * (size as int),
                    size > 0,
                    (coord.row as int) < size as int,
                    (coord.col as int) < size as int,
                    d <= 9,
                    found == exists|d2: int|
                        0 <= d2 < d as int && d2 != 4 && grid_in_bounds(
                            size,
                            coord.row as int + (d2 / 3 - 1),
                            coord.col as int + (d2 % 3 - 1),
                        ) && (#[trigger] cell_at(
                            cells@,
                            size,
                            coord.row as int + (d2 / 3 - 1),
                            coord.col as int + (d2 % 3 - 1),
                        )).ship_id is Some,
                decreases 9 - d as int,
            {
                if d != 4 {
                    let dr: i8 = (d / 3) as i8 - 1;
                    let dc: i8 = (d % 3) as i8 - 1;
                    let here = prior_at_offset(&cells, size, coord.row, coord.col, dr, dc);
                    if here {
                        found = true;
                    }
                }
                d += 1;
            }
            if found {
                proof {
                    let d2 = choose|d2: int|
                        0 <= d2 < 9 && d2 != 4 && grid_in_bounds(
                            size,
                            coord.row as int + (d2 / 3 - 1),
                            coord.col as int + (d2 % 3 - 1),
                        ) && (#[trigger] cell_at(
                            cells@,
                            size,
                            coord.row as int + (d2 / 3 - 1),
                            coord.col as int + (d2 % 3 - 1),
                        )).ship_id is Some;
                    let r2 = coord.row as int + (d2 / 3 - 1);
                    let c2 = coord.col as int + (d2 % 3 - 1);
                    assert(ships_cover(ships@, r2, c2)) by {
                        if !ships_cover(ships@, r2, c2) {
                            assert(cell_at(cells@, size, r2, c2).ship_id is None);
                        }
                    }
                    let i = choose|i: int|
                        0 <= i < ships@.len() && ship_covers(#[trigger] ships@[i], r2, c2);
                    let k2 = choose|k2: int|
                        0 <= k2 < ships@[i].cells@.len() && (#[trigger] ships@[i].cells@[k2]).row
                            as int == r2 && ships@[i].cells@[k2].col as int == c2;
                    assert(ship_matches_placement(ships@[i], prior[i]));
                    assert(placement_cell_row(prior[i], k2) == r2 && placement_cell_col(
                        prior[i],
                        k2,
                    ) == c2);
                    assert(!(r2 == coord.row as int && c2 == coord.col as int));
                    assert(cells_touch(r2, c2, coord.row as int, coord.col as int));
                    assert(adjacent_to_prior(prior, coord.row as int, coord.col as int));
                    assert(!overlaps_prior(prior, coord.row as int, coord.col as int)) by {
                        lemma_cover_equiv(ships@, prior, coord.row as int, coord.col as int);
                    }
                    lemma_cell_conflict_skip(prior, p, k as int);
                    assert(cell_conflict_error(prior, p, k as int) == Some(BoardError::Adjacency));
                    assert(placement_error(size, prior, p) == Some(BoardError::Adjacency));
                    lemma_build_error_skip(size, placements@, pi as int);
                }
                return Err(BoardError::Adjacency);
            }
            proof {
                lemma_cover_equiv(ships@, prior, coord.row as int, coord.col as int);
                assert forall|r2: int, c2: int|
                    cells_touch(r2, c2, coord.row as int, coord.col as int) && !(r2
                        == coord.row as int && c2 == coord.col as int) && grid_in_bounds(
                        size,
                        r2,
                        c2,
                    ) implies (#[trigger] cell_at(cells@, size, r2, c2)).ship_id is None by {
                    let d2 = (r2 - coord.row as int + 1) * 3 + (c2 - coord.col as int + 1);
                    assert(0 <= d2 < 9 && d2 != 4);
                    assert(r2 == coord.row as int + (d2 / 3 - 1) && c2 == coord.col as int + (d2 % 3
                        - 1));
                }
                lemma_no_adjacent(ships@, prior, size, cells@, coord.row as int, coord.col as int);
            }
            k += 1;
        }
        proof {
            lemma_cell_conflict_skip(prior, p, p.length as int);
            assert(cell_conflict_error(prior, p, 0) is None);
            assert(placement_error(size, prior, p) is None);
        }
        let ghost cells_before = cells@;
        let sid = pi as u8;
        let mut k: usize = 0;
        while k < ship_cells.len()
            invariant
                size > 0,
                total == (size as int) * (size as int),
                cells@.len() == total,
                k <= ship_cells@.len(),
                ship_cells@.len() == p.length as int,
                forall|k2: int|
                    0 <= k2 < p.length as int ==> (#[trigger] ship_cells@[k2]).row as int
                        == placement_cell_row(p, k2) && ship_cells@[k2].col as int
                        == placement_cell_col(p, k2) && grid_in_bounds(
                        size,
                        placement_cell_row(p, k2),
                        placement_cell_col(p, k2),
                    ),
                cells_before.len() == total,
                forall|r2: int, c2: int|
                    grid_in_bounds(size, r2, c2) && !placement_covers_upto(p, k as int, r2, c2)
                        ==> #[trigger] cell_at(cells@, size, r2, c2) == cell_at(
                        cells_before,
                        size,
                        r2,
                        c2,
                    ),
                forall|r2: int, c2: int|
                    grid_in_bounds(size, r2, c2) && placement_covers_upto(p, k as int, r2, c2)
                        ==> #[trigger] cell_at(cells@, size, r2, c2) == (Cell {
                        ship_id: Some(sid),
                        attacked: false,
                    }),
            decreases ship_cells@.len() - k,
        {
            let coord = ship_cells[k];
            proof {
                lemma_grid_index_bounds(size, coord.row as int, coord.col as int);
            }
            let index = idx(size, coord.row, coord.col);
            let ghost pre = cells@;
            cells[index] = Cell { ship_id: Some(sid), attacked: false };
            proof {
                let prev = k as int;
                assert(coord.row as int == placement_cell_row(p, prev) && coord.col as int
                    == placement_cell_col(p, prev));
                assert forall|r2: int, c2: int| grid_in_bounds(size, r2, c2) implies {
                    let covered = placement_covers_upto(p, k as int + 1, r2, c2);
                    (covered ==> #[trigger] cell_at(cells@, size, r2, c2) == (Cell {
                        ship_id: Some(sid),
                        attacked: false,
                    })) && (!covered ==> cell_at(cells@, size, r2, c2) == cell_at(
                        cells_before,
                        size,
                        r2,
                        c2,
                    ))
                } by {
                    lemma_grid_index_bounds(size, r2, c2);
                    if grid_index(size, r2, c2) == grid_index(
                        size,
                        coord.row as int,
                        coord.col as int,
                    ) {
                        lemma_grid_index_injective(
                            size,
                            r2,
                            c2,
                            coord.row as int,
                            coord.col as int,
                        );
                        assert(placement_covers_upto(p, prev + 1, r2, c2));
                        assert(cell_at(cells@, size, r2, c2) == (Cell {
                            ship_id: Some(sid),
                            attacked: false,
                        }));
                    } else {
                        assert(cell_at(cells@, size, r2, c2) == cell_at(pre, size, r2, c2));
                        if placement_covers_upto(p, prev + 1, r2, c2) {
                            let k2 = choose|k2: int|
                                0 <= k2 < prev + 1 && #[trigger] placement_cell_row(p, k2) == r2
                                    && #[trigger] placement_cell_col(p, k2) == c2;
                            assert(k2 != prev);
                            assert(placement_covers_upto(p, prev, r2, c2));
                            assert(cell_at(pre, size, r2, c2) == (Cell {
                                ship_id: Some(sid),
                                attacked: false,
                            }));
                        } else {
                            assert(!placement_covers_upto(p, prev, r2, c2)) by {
                                if placement_covers_upto(p, prev, r2, c2) {
                                    let k2 = choose|k2: int|
                                        0 <= k2 < prev && #[trigger] placement_cell_row(p, k2)
                                            == r2 && #[trigger] placement_cell_col(p, k2) == c2;
                                    assert(placement_covers_upto(p, prev + 1, r2, c2));
                                }
                            }
                            assert(cell_at(pre, size, r2, c2) == cell_at(
                                cells_before,
                                size,
                                r2,
                                c2,
                            ));
                        }
                    }
                }
            }
            k += 1;
        }
        let ghost ships_before = ships@;
        ships.push(Ship { id: sid, cells: ship_cells });
        proof {
            let ships2 = ships@;
            let np = ships2.len() - 1;
            assert(ships2[np].id as int == np);
            assert(ship_matches_placement(ships2[np], placements@[np]));
            assert forall|i: int| 0 <= i < ships2.len() implies ship_matches_placement(
                #[trigger] ships2[i],
                placements@[i],
            ) by {
                if i < np {
                    assert(ships2[i] == ships_before[i]);
                }
            }
            assert(ships_wf(ships2, size)) by {
                assert forall|i: int, k1: int, k2: int|
                    0 <= i < ships2.len() && 0 <= k1 < ships2[i].cells@.len() && 0 <= k2
                        < ships2[i].cells@.len() && k1 != k2 implies !((
                #[trigger] ships2[i].cells@[k1]).row == (#[trigger] ships2[i].cells@[k2]).row
                    && ships2[i].cells@[k1].col == ships2[i].cells@[k2].col) by {
                    assert(ship_matches_placement(ships2[i], placements@[i]));
                }
                assert forall|i: int, j: int, k1: int, k2: int|
                    0 <= i < ships2.len() && 0 <= j < ships2.len() && i != j && 0 <= k1
                        < ships2[i].cells@.len() && 0 <= k2
                        < ships2[j].cells@.len() implies !cells_touch(
                    (#[trigger] ships2[i].cells@[k1]).row as int,
                    ships2[i].cells@[k1].col as int,
                    (#[trigger] ships2[j].cells@[k2]).row as int,
                    ships2[j].cells@[k2].col as int,
                ) by {
                    if i == np || j == np {
                        let (o, ko, kn) = if i == np {
                            (j, k2, k1)
                        } else {
                            (i, k1, k2)
                        };
                        assert(ship_matches_placement(ships2[o], prior[o]));
                        assert(ship_matches_placement(ships2[np], p));
                        let nr = placement_cell_row(p, kn);
                        let nc = placement_cell_col(p, kn);
                        assert(!overlaps_prior(prior, nr, nc) && !adjacent_to_prior(
                            prior,
                            nr,
                            nc,
                        ));
                        if cells_touch(
                            placement_cell_row(prior[o], ko),
                            placement_cell_col(prior[o], ko),
                            nr,
                            nc,
                        ) {
                            if placement_cell_row(prior[o], ko) == nr && placement_cell_col(
                                prior[o],
                                ko,
                            ) == nc {
                                assert(overlaps_prior(prior, nr, nc));
                            } else {
                                assert(adjacent_to_prior(prior, nr, nc));
                            }
                            assert(false);
                        }
                    }
                }
            }
            assert(grid_matches_ships(cells@, size, ships2)) by {
                assert forall|i: int, k2: int|
                    0 <= i < ships2.len() && 0 <= k2 < ships2[i].cells@.len() implies cell_at(
                    cells@,
                    size,
                    (#[trigger] ships2[i].cells@[k2]).row as int,
                    ships2[i].cells@[k2].col as int,
                ).ship_id == Some(i as u8) by {
                    let r2 = ships2[i].cells@[k2].row as int;
                    let c2 = ships2[i].cells@[k2].col as int;
                    if i == np {
                        assert(ship_matches_placement(ships2[np], p));
                        assert(placement_covers_upto(p, p.length as int, r2, c2));
                    } else {
                        assert(ship_matches_placement(ships2[i], prior[i]));
                        assert(!placement_covers_upto(p, p.length as int, r2, c2)) by {
                            if placement_covers_upto(p, p.length as int, r2, c2) {
                                let kk = choose|kk: int|
                                    0 <= kk < p.length as int && #[trigger] placement_cell_row(
                                        p,
                                        kk,
                                    ) == r2 && #[trigger] placement_cell_col(p, kk) == c2;
                                assert(ships2[i] == ships_before[i]);
                                assert(ship_covers(ships_before[i], r2, c2));
                                assert(ships_cover(ships_before, r2, c2));
                                lemma_cover_equiv(ships_before, prior, r2, c2);
                                assert(overlaps_prior(prior, r2, c2));
                                assert(false);
                            }
                        }
                        assert(cell_at(cells@, size, r2, c2) == cell_at(cells_before, size, r2, c2));
                    }
                }
                assert forall|r2: int, c2: int|
                    grid_in_bounds(size, r2, c2) && !ships_cover(ships2, r2, c2) implies (
                #[trigger] cell_at(cells@, size, r2, c2)).ship_id is None by {
                    assert(!ship_covers(ships2[np], r2, c2));
                    assert(!placement_covers_upto(p, p.length as int, r2, c2)) by {
                        if placement_covers_upto(p, p.length as int, r2, c2) {
                            let kk = choose|kk: int|
                                0 <= kk < p.length as int && #[trigger] placement_cell_row(p, kk)
                                    == r2 && #[trigger] placement_cell_col(p, kk) == c2;
                            assert((ships2[np].cells@[kk]).row as int == r2
                                && ships2[np].cells@[kk].col as int == c2);
                            assert(ship_covers(ships2[np], r2, c2));
                            assert(false);
                        }
                    }
                    assert(cell_at(cells@, size, r2, c2) == cell_at(cells_before, size, r2, c2));
                    assert(!ships_cover(ships_before, r2, c2)) by {
                        if ships_cover(ships_before, r2, c2) {
                            let i = choose|i: int|
                                0 <= i < ships_before.len() && ship_covers(
                                    #[trigger] ships_before[i],
                                    r2,
                                    c2,
                                );
                            assert(ships2[i] == ships_before[i]);
                            assert(ship_covers(ships2[i], r2, c2));
                            assert(ships_cover(ships2, r2, c2));
                            assert(false);
                        }
                    }
                }
            }
            assert forall|n: int| 0 <= n < cells@.len() implies !(#[trigger] cells@[n]).attacked by {
                let r2 = n / (size as int);
                let c2 = n % (size as int);
                assert(grid_in_bounds(size, r2, c2) && grid_index(size, r2, c2) == n) by (nonlinear_arith)
                    requires
                        0 <= n < (size as int) * (size as int),
                        r2 == n / (size as int),
                        c2 == n % (size as int),
                        size > 0,
                ;
                assert(cell_at(cells@, size, r2, c2) == cell_at(cells_before, size, r2, c2)
                    || cell_at(cells@, size, r2, c2) == (Cell {
                    ship_id: Some(sid),
                    attacked: false,
                }));
            }
            assert(placements@.take(pi as int + 1).take(pi as int) == placements@.take(
                pi as int,
            ));
            assert(forall|j: int|
                0 <= j < pi + 1 ==> placement_error(
                    size,
                    placements@.take(j),
                    #[trigger] placements@[j],
                ) is None);
        }
        pi += 1;
    }
    proof {
        lemma_build_error_skip(size, placements@, placements@.len() as int);
        assert(build_error_from(size, placements@, placements@.len() as int) is None);
    }
    Ok(Board { size, cells, ships })
}

proof fn lemma_cell_conflict_none_implies(
    prior: Seq<ShipPlacementInput>,
    p: ShipPlacementInput,
    k: int,
)
    requires
        0 <= k <= p.length as int,
        cell_conflict_error(prior, p, k) is None,
    ensures
        forall|k2: int|
            k <= k2 < p.length as int ==> !overlaps_prior(
                prior,
                #[trigger] placement_cell_row(p, k2),
                placement_cell_col(p, k2),
            ) && !adjacent_to_prior(prior, placement_cell_row(p, k2), placement_cell_col(p, k2)),
    decreases p.length as int - k,
{
    if k < p.length as int {
        assert(!overlaps_prior(prior, placement_cell_row(p, k), placement_cell_col(p, k)));
        assert(!adjacent_to_prior(prior, placement_cell_row(p, k), placement_cell_col(p, k)));
        lemma_cell_conflict_none_implies(prior, p, k + 1);
    }
}

proof fn lemma_build_none_implies(size: u8, ps: Seq<ShipPlacementInput>, i: int)
    requires
        0 <= i <= ps.len(),
        build_error_from(size, ps, i) is None,
    ensures
        forall|j: int|
            i <= j < ps.len() ==> placement_error(size, ps.take(j), #[trigger] ps[j]) is None,
    decreases ps.len() - i,
{
    if i < ps.len() {
        lemma_build_none_implies(size, ps, i + 1);
    }
}

/// Building a board succeeds exactly on the valid placement lists: every
/// ship non-empty and on the board, and cells of distinct ships never
/// coinciding nor touching, including diagonally.
pub proof fn lemma_build_ok_iff_valid(size: u8, ps: Seq<ShipPlacementInput>)
    ensures
        build_error(size, ps) is None <==> placements_valid(size, ps),
{
    if build_error(size, ps) is None {
        lemma_build_none_implies(size, ps, 0);
        assert forall|i: int| 0 <= i < ps.len() implies (#[trigger] ps[i]).length > 0
            && placement_in_bounds(size, ps[i]) by {
            assert(placement_error(size, ps.take(i), ps[i]) is None);
        }
        assert forall|i: int, j: int, k1: int, k2: int|
            0 <= i < ps.len() && 0 <= j < ps.len() && i != j && 0 <= k1 < ps[i].length as int && 0
                <= k2 < ps[j].length as int implies !cells_touch(
            #[trigger] placement_cell_row(ps[i], k1),
            #[trigger] placement_cell_col(ps[i], k1),
            #[trigger] placement_cell_row(ps[j], k2),
            #[trigger] placement_cell_col(ps[j], k2),
        ) by {
            let (a, b, ka, kb) = if i < j {
                (i, j, k1, k2)
            } else {
                (j, i, k2, k1)
            };
            assert(placement_error(size, ps.take(b), ps[b]) is None);
            lemma_cell_conflict_none_implies(ps.take(b), ps[b], 0);
            let rb = placement_cell_row(ps[b], kb);
            let cb = placement_cell_col(ps[b], kb);
            assert(!overlaps_prior(ps.take(b), rb, cb));
            assert(!adjacent_to_prior(ps.take(b), rb, cb));
            let ra = placement_cell_row(ps[a], ka);
            let ca = placement_cell_col(ps[a], ka);
            if cells_touch(ra, ca, rb, cb) {
                assert(ps.take(b)[a] == ps[a]);
                if ra == rb && ca == cb {
                    assert(overlaps_prior(ps.take(b), rb, cb));
                } else {
                    assert(adjacent_to_prior(ps.take(b), rb, cb));
                }
                assert(false);
            }
        }
    }
    if placements_valid(size, ps) {
        assert forall|j: int| 0 <= j < ps.len() implies placement_error(
            size,
            ps.take(j),
            #[trigger] ps[j],
        ) is None by {
            assert(ps[j].length > 0 && placement_in_bounds(size, ps[j]));
            assert forall|k: int| 0 <= k < ps[j].length as int implies !overlaps_prior(
                ps.take(j),
                #[trigger] placement_cell_row(ps[j], k),
                placement_cell_col(ps[j], k),
            ) && !adjacent_to_prior(
                ps.take(j),
                placement_cell_row(ps[j], k),
                placement_cell_col(ps[j], k),
            ) by {
                let rj = placement_cell_row(ps[j], k);
                let cj = placement_cell_col(ps[j], k);
                if overlaps_prior(ps.take(j), rj, cj) {
                    let (i2, k2) = choose|i2: int, k2: int|
                        0 <= i2 < ps.take(j).len() && 0 <= k2 < ps.take(j)[i2].length as int
                            && #[trigger] placement_cell_row(ps.take(j)[i2], k2) == rj
                            && #[trigger] placement_cell_col(ps.take(j)[i2], k2) == cj;
                    assert(ps.take(j)[i2] == ps[i2]);
                    assert(cells_touch(
                        placement_cell_row(ps[i2], k2),
                        placement_cell_col(ps[i2], k2),
                        placement_cell_row(ps[j], k),
                        placement_cell_col(ps[j], k),
                    ));
                    assert(false);
                }
                if adjacent_to_prior(ps.take(j), rj, cj) {
                    let (i2, k2) = choose|i2: int, k2: int|
                        0 <= i2 < ps.take(j).len() && 0 <= k2 < ps.take(j)[i2].length as int
                            && cells_touch(
                            #[trigger] placement_cell_row(ps.take(j)[i2], k2),
                            #[trigger] placement_cell_col(ps.take(j)[i2], k2),
                            rj,
                            cj,
                        ) && !(placement_cell_row(ps.take(j)[i2], k2) == rj && placement_cell_col(
                            ps.take(j)[i2],
                            k2,
                        ) == cj);
                    assert(ps.take(j)[i2] == ps[i2]);
                    assert(cells_touch(
                        placement_cell_row(ps[i2], k2),
                        placement_cell_col(ps[i2], k2),
                        placement_cell_row(ps[j], k),
                        placement_cell_col(ps[j], k),
                    ));
                    assert(false);
                }
            }
            lemma_cell_conflict_skip(ps.take(j), ps[j], ps[j].length as int);
        }
        lemma_build_error_skip(size, ps, ps.len() as int);
    }
}

/// Whether one of the first `k` cells of ship `s` coincides with or
/// touches `(r, c)`, including diagonally.
pub open spec fn touched_by_prefix(s: Ship, k: int, r: int, c: int) -> bool {
    exists|k2: int|
        0 <= k2 < k && k2 < s.cells@.len() && cells_touch(
            (#[trigger] s.cells@[k2]).row as int,
            s.cells@[k2].col as int,
            r,
            c,
        )
}

/// An in-bounds cell holding no ship and not yet attacked.
pub open spec fn open_cell(b: Board, r: int, c: int) -> bool {
    &&& grid_in_bounds(b.size, r, c)
    &&& cell_at(b.cells@, b.size, r, c).ship_id is None
    &&& !cell_at(b.cells@, b.size, r, c).attacked
}

pub open spec fn splash_upto(b: Board, sid: int, k: int, r: int, c: int) -> bool {
    open_cell(b, r, c) && touched_by_prefix(b.ships@[sid], k, r, c)
}

/// A splash cell of ship `sid` on board `b`: open, and coinciding with or
/// touching one of the ship's cells (the coinciding case is vacuous, since
/// a ship cell is never open).
pub open spec fn splash_cell(b: Board, sid: int, r: int, c: int) -> bool {
    splash_upto(b, sid, b.ships@[sid].cells@.len() as int, r, c)
}

/// Whether `(r, c)` is one of the first `d` of the nine offsets around
/// `(r0, c0)`, walked row by row.
pub open spec fn offset_done(r0: int, c0: int, d: int, r: int, c: int) -> bool {
    cells_touch(r, c, r0, c0) && (r - r0 + 1) * 3 + (c - c0 + 1) < d
}

/// Whether some entry of `s` is the coordinate `(r, c)`.
pub open spec fn coord_in_seq(s: Seq<Coord>, r: int, c: int) -> bool {
    exists|m: int| 0 <= m < s.len() && (#[trigger] s[m]).row as int == r && s[m].col as int == c
}

/// A grid whose cells hold the same ships as a well-formed board's still
/// matches that board's ship list.
proof fn lemma_grid_matches_pointwise(b: Board, cells2: Seq<Cell>)
    requires
        board_wf(b),
        cells2.len() == b.cells@.len(),
        forall|r: int, c: int|
            grid_in_bounds(b.size, r, c) ==> (#[trigger] cell_at(cells2, b.size, r, c)).ship_id
                == cell_at(b.cells@, b.size, r, c).ship_id,
    ensures
        grid_matches_ships(cells2, b.size, b.ships@),
{
    assert forall|i: int, k: int|
        0 <= i < b.ships@.len() && 0 <= k < b.ships@[i].cells@.len() implies cell_at(
        cells2,
        b.size,
        (#[trigger] b.ships@[i].cells@[k]).row as int,
        b.ships@[i].cells@[k].col as int,
    ).ship_id == Some(i as u8) by {
        assert(grid_in_bounds(
            b.size,
            b.ships@[i].cells@[k].row as int,
            b.ships@[i].cells@[k].col as int,
        ));
    }
}

/// After a ship sinks, mark every open cell around it attacked, so the
/// whole border of the ship is revealed at once. Returns the ship's cells
/// and the newly revealed border cells; rejects an unknown ship
/// identifier without changing the board.
#[verifier::loop_isolation(false)]
pub fn apply_sunk_padding(board: &mut Board, ship_id: u8) -> (r: Result<
    (Vec<Coord>, Vec<Coord>),
    BoardError,
>)
    requires
        board_wf(*old(board)),
    ensures
        board_wf(*final(board)),
        final(board).size == old(board).size,
        final(board).ships == old(board).ships,
        (ship_id as int) >= old(board).ships@.len() ==> *final(board) == *old(board) && r == Err::<
            (Vec<Coord>, Vec<Coord>),
            BoardError,
        >(BoardError::ShipNotFound),
        (ship_id as int) < old(board).ships@.len() ==> (r matches Ok(t) && {
            &&& t.0@ == old(board).ships@[ship_id as int].cells@
            &&& forall|m: int|
                0 <= m < t.1@.len() ==> splash_cell(
                    *old(board),
                    ship_id as int,
                    (#[trigger] t.1@[m]).row as int,
                    t.1@[m].col as int,
                )
            &&& forall|r2: int, c2: int|
                #[trigger] splash_cell(*old(board), ship_id as int, r2, c2) ==> coord_in_seq(
                    t.1@,
                    r2,
                    c2,
                )
            &&& forall|m1: int, m2: int|
                0 <= m1 < t.1@.len() && 0 <= m2 < t.1@.len() && m1 != m2 ==> t.1@[m1] != t.1@[m2]
            &&& final(board).cells@.len() == old(board).cells@.len()
            &&& forall|r2: int, c2: int|
                grid_in_bounds(old(board).size, r2, c2) ==> #[trigger] cell_at(
                    final(board).cells@,
                    final(board).size,
                    r2,
                    c2,
                ) == (Cell {
                    ship_id: cell_at(old(board).cells@, old(board).size, r2, c2).ship_id,
                    attacked: cell_at(old(board).cells@, old(board).size, r2, c2).attacked
                        || splash_cell(*old(board), ship_id as int, r2, c2),
                })
        }),
{
    let sid = ship_id as usize;
    if sid >= board.ships.len() {
        return Err(BoardError::ShipNotFound);
    }
    let ghost orig = *old(board);
    let size = board.size;
    let n = board.ships[sid].cells.len();
    let mut ship_cells_out: Vec<Coord> = Vec::new();
    let mut k: usize = 0;
    while k < n
        invariant
            k <= n,
            ship_cells_out@.len() == k as int,
            forall|k2: int|
                0 <= k2 < k as int ==> #[trigger] ship_cells_out@[k2] == orig.ships@[sid as int].cells@[k2],
        decreases n - k,
    {
        let coordv = board.ships[sid].cells[k];
        ship_cells_out.push(coordv);
        k += 1;
    }
    proof {
        assert(ship_cells_out@ =~= orig.ships@[sid as int].cells@);
    }
    let mut adjacent: Vec<Coord> = Vec::new();
    let mut k: usize = 0;
    while k < n
        invariant
            k <= n,
            board.size == orig.size,
            board.ships == orig.ships,
            board.cells@.len() == orig.cells@.len(),
            forall|r2: int, c2: int|
                grid_in_bounds(size, r2, c2) ==> (#[trigger] cell_at(
                    board.cells@,
                    size,
                    r2,
                    c2,
                )).ship_id == cell_at(orig.cells@, size, r2, c2).ship_id,
            forall|r2: int, c2: int|
                grid_in_bounds(size, r2, c2) ==> ((#[trigger] cell_at(
                    board.cells@,
                    size,
                    r2,
                    c2,
                )).attacked == (cell_at(orig.cells@, size, r2, c2).attacked || splash_upto(
                    orig,
                    sid as int,
                    k as int,
                    r2,
                    c2,
                ))),
            forall|m: int|
                0 <= m < adjacent@.len() ==> splash_cell(
                    orig,
                    sid as int,
                    (#[trigger] adjacent@[m]).row as int,
                    adjacent@[m].col as int,
                ),
            forall|m: int|
                0 <= m < adjacent@.len() ==> (#[trigger] cell_at(
                    board.cells@,
                    size,
                    adjacent@[m].row as int,
                    adjacent@[m].col as int,
                )).attacked,
            forall|r2: int, c2: int|
                grid_in_bounds(size, r2, c2) && (#[trigger] cell_at(
                    board.cells@,
                    size,
                    r2,
                    c2,
                )).attacked && !cell_at(orig.cells@, size, r2, c2).attacked ==> coord_in_seq(
                    adjacent@,
                    r2,
                    c2,
                ),
            forall|m1: int, m2: int|
                0 <= m1 < adjacent@.len() && 0 <= m2 < adjacent@.len() && m1 != m2
                    ==> adjacent@[m1] != adjacent@[m2],
        decreases n - k,
    {
        let coord = board.ships[sid].cells[k];
        let ghost r0 = coord.row as int;
        let ghost c0 = coord.col as int;
        let mut d: u8 = 0;
        while d < 9
            invariant
                d <= 9,
                board.size == orig.size,
                board.ships == orig.ships,
                board.cells@.len() == orig.cells@.len(),
                forall|r2: int, c2: int|
                    grid_in_bounds(size, r2, c2) ==> (#[trigger] cell_at(
                        board.cells@,
                        size,
                        r2,
                        c2,
                    )).ship_id == cell_at(orig.cells@, size, r2, c2).ship_id,
                forall|r2: int, c2: int|
                    grid_in_bounds(size, r2, c2) ==> ((#[trigger] cell_at(
                        board.cells@,
                        size,
                        r2,
                        c2,
                    )).attacked == (cell_at(orig.cells@, size, r2, c2).attacked || splash_upto(
                        orig,
                        sid as int,
                        k as int,
                        r2,
                        c2,
                    ) || (open_cell(orig, r2, c2) && offset_done(r0, c0, d as int, r2, c2)))),
                forall|m: int|
                    0 <= m < adjacent@.len() ==> splash_cell(
                        orig,
                        sid as int,
                        (#[trigger] adjacent@[m]).row as int,
                        adjacent@[m].col as int,
                    ),
                forall|m: int|
                    0 <= m < adjacent@.len() ==> (#[trigger] cell_at(
                        board.cells@,
                        size,
                        adjacent@[m].row as int,
                        adjacent@[m].col as int,
                    )).attacked,
                forall|r2: int, c2: int|
                    grid_in_bounds(size, r2, c2) && (#[trigger] cell_at(
                        board.cells@,
                        size,
                        r2,
                        c2,
                    )).attacked && !cell_at(orig.cells@, size, r2, c2).attacked ==> coord_in_seq(
                        adjacent@,
                        r2,
                        c2,
                    ),
                forall|m1: int, m2: int|
                    0 <= m1 < adjacent@.len() && 0 <= m2 < adjacent@.len() && m1 != m2
                        ==> adjacent@[m1] != adjacent@[m2],
            decreases 9 - d as int,
        {
            let dr: i8 = (d / 3) as i8 - 1;
            let dc: i8 = (d % 3) as i8 - 1;
            let nr16: i16 = coord.row as i16 + dr as i16;
            let nc16: i16 = coord.col as i16 + dc as i16;
            if nr16 >= 0 && nc16 >= 0 && nr16 < size as i16 && nc16 < size as i16 {
                let nr = nr16 as u8;
                let nc = nc16 as u8;
                proof {
                    lemma_grid_index_bounds(size, nr as int, nc as int);
                }
                let index = idx(size, nr, nc);
                let cellv = board.cells[index];
                if cellv.ship_id.is_none() && !cellv.attacked {
                    let ghost pre = board.cells@;
                    let ghost pre_adj = adjacent@;
                    board.cells[index] = Cell { ship_id: None, attacked: true };
                    adjacent.push(Coord { row: nr, col: nc });
                    proof {
                        assert(cell_at(pre, size, nr as int, nc as int) == cellv);
                        assert(open_cell(orig, nr as int, nc as int));
                        assert(cells_touch(nr as int, nc as int, r0, c0));
                        assert((nr as int - r0 + 1) * 3 + (nc as int - c0 + 1) == d as int);
                        assert(splash_cell(orig, sid as int, nr as int, nc as int)) by {
                            assert((k as int) < orig.ships@[sid as int].cells@.len());
                            assert(cells_touch(
                                orig.ships@[sid as int].cells@[k as int].row as int,
                                orig.ships@[sid as int].cells@[k as int].col as int,
                                nr as int,
                                nc as int,
                            ));
                        }
                        assert forall|r2: int, c2: int| grid_in_bounds(size, r2, c2) implies (
                        #[trigger] cell_at(board.cells@, size, r2, c2)) == (if r2 == nr as int && c2
                            == nc as int {
                            Cell { ship_id: None, attacked: true }
                        } else {
                            cell_at(pre, size, r2, c2)
                        }) by {
                            lemma_grid_index_bounds(size, r2, c2);
                            if grid_index(size, r2, c2) == grid_index(size, nr as int, nc as int) {
                                lemma_grid_index_injective(size, r2, c2, nr as int, nc as int);
                            }
                        }
                        assert forall|m: int| 0 <= m < adjacent@.len() implies (#[trigger] cell_at(
                            board.cells@,
                            size,
                            adjacent@[m].row as int,
                            adjacent@[m].col as int,
                        )).attacked by {
                            if m < pre_adj.len() {
                                assert(adjacent@[m] == pre_adj[m]);
                                assert(cell_at(
                                    pre,
                                    size,
                                    pre_adj[m].row as int,
                                    pre_adj[m].col as int,
                                ).attacked);
                            }
                        }
                        assert forall|m1: int, m2: int|
                            0 <= m1 < adjacent@.len() && 0 <= m2 < adjacent@.len() && m1
                                != m2 implies adjacent@[m1] != adjacent@[m2] by {
                            if m1 < pre_adj.len() && m2 < pre_adj.len() {
                                assert(adjacent@[m1] == pre_adj[m1] && adjacent@[m2] == pre_adj[m2]);
                            } else {
                                let (mo, mn) = if m2 == pre_adj.len() {
                                    (m1, m2)
                                } else {
                                    (m2, m1)
                                };
                                assert(adjacent@[mo] == pre_adj[mo]);
                                assert(cell_at(
                                    pre,
                                    size,
                                    pre_adj[mo].row as int,
                                    pre_adj[mo].col as int,
                                ).attacked);
                            }
                        }
                        assert forall|r2: int, c2: int|
                            grid_in_bounds(size, r2, c2) && (#[trigger] cell_at(
                                board.cells@,
                                size,
                                r2,
                                c2,
                            )).attacked && !cell_at(orig.cells@, size, r2, c2).attacked implies coord_in_seq(
                            adjacent@,
                            r2,
                            c2,
                        ) by {
                            if r2 == nr as int && c2 == nc as int {
                                assert(adjacent@[adjacent@.len() - 1].row as int == r2
                                    && adjacent@[adjacent@.len() - 1].col as int == c2);
                            } else {
                                assert(coord_in_seq(pre_adj, r2, c2));
                                let m = choose|m: int|
                                    0 <= m < pre_adj.len() && (#[trigger] pre_adj[m]).row as int
                                        == r2 && pre_adj[m].col as int == c2;
                                assert(adjacent@[m] == pre_adj[m]);
                            }
                        }
                    }
                }
            }
            proof {
                assert forall|r2: int, c2: int| grid_in_bounds(size, r2, c2) implies ((
                #[trigger] cell_at(board.cells@, size, r2, c2)).attacked == (cell_at(
                    orig.cells@,
                    size,
                    r2,
                    c2,
                ).attacked || splash_upto(orig, sid as int, k as int, r2, c2) || (open_cell(
                    orig,
                    r2,
                    c2,
                ) && offset_done(r0, c0, d as int + 1, r2, c2)))) by {
                    assert(offset_done(r0, c0, d as int + 1, r2, c2) == (offset_done(
                        r0,
                        c0,
                        d as int,
                        r2,
                        c2,
                    ) || (r2 == r0 + d as int / 3 - 1 && c2 == c0 + d as int % 3 - 1)));
                }
            }
            d += 1;
        }
        proof {
            assert forall|r2: int, c2: int| grid_in_bounds(size, r2, c2) implies ((
            #[trigger] cell_at(board.cells@, size, r2, c2)).attacked == (cell_at(
                orig.cells@,
                size,
                r2,
                c2,
            ).attacked || splash_upto(orig, sid as int, k as int + 1, r2, c2))) by {
                assert(offset_done(r0, c0, 9, r2, c2) == cells_touch(r2, c2, r0, c0));
                assert(orig.ships@[sid as int].cells@[k as int].row as int == r0
                    && orig.ships@[sid as int].cells@[k as int].col as int == c0);
                if splash_upto(orig, sid as int, k as int + 1, r2, c2) && !splash_upto(
                    orig,
                    sid as int,
                    k as int,
                    r2,
                    c2,
                ) {
                    let k2 = choose|k2: int|
                        0 <= k2 < k as int + 1 && k2 < orig.ships@[sid as int].cells@.len()
                            && cells_touch(
                            (#[trigger] orig.ships@[sid as int].cells@[k2]).row as int,
                            orig.ships@[sid as int].cells@[k2].col as int,
                            r2,
                            c2,
                        );
                    assert(k2 == k as int);
                    assert(cells_touch(r2, c2, r0, c0));
                }
                if open_cell(orig, r2, c2) && offset_done(r0, c0, 9, r2, c2) {
                    assert(touched_by_prefix(orig.ships@[sid as int], k as int + 1, r2, c2));
                }
            }
        }
        k += 1;
    }
    proof {
        assert forall|r2: int, c2: int| grid_in_bounds(size, r2, c2) implies (#[trigger] cell_at(
            board.cells@,
            size,
            r2,
            c2,
        )) == (Cell {
            ship_id: cell_at(orig.cells@, size, r2, c2).ship_id,
            attacked: cell_at(orig.cells@, size, r2, c2).attacked || splash_cell(
                orig,
                sid as int,
                r2,
                c2,
            ),
        }) by {
            assert(splash_upto(orig, sid as int, n as int, r2, c2) == splash_cell(
                orig,
                sid as int,
                r2,
                c2,
            ));
        }
        lemma_grid_matches_pointwise(orig, board.cells@);
        assert forall|r2: int, c2: int|
            #[trigger] splash_cell(orig, sid as int, r2, c2) implies coord_in_seq(
            adjacent@,
            r2,
            c2,
        ) by {
            assert(splash_upto(orig, sid as int, n as int, r2, c2));
            assert(cell_at(board.cells@, size, r2, c2).attacked);
        }
    }
    Ok((ship_cells_out, adjacent))
}

/// Once an attack at `(row, col)` lands on `b`, ship `sid` is fully
/// attacked: every one of its cells was attacked before or is the target.
pub open spec fn sunk_by_attack(b: Board, sid: int, row: u8, col: u8) -> bool {
    forall|k: int|
        0 <= k < b.ships@[sid].cells@.len() ==> {
            let cr = (#[trigger] b.ships@[sid].cells@[k]).row as int;
            let cc = b.ships@[sid].cells@[k].col as int;
            cell_at(b.cells@, b.size, cr, cc).attacked || (cr == row as int && cc == col as int)
        }
}

/// Once an attack at `(row, col)` lands on `b`, every ship is fully
/// attacked: the game is over.
pub open spec fn game_over_after(b: Board, row: u8, col: u8) -> bool {
    forall|i: int| 0 <= i < b.ships@.len() ==> sunk_by_attack(b, i, row, col)
}

/// `b2` is `b` after a whole attack exchange at `(row, col)`: the target
/// cell is attacked, and if that sank a ship, so is the ship's whole open
/// border.
pub open spec fn board_after_exchange(b: Board, b2: Board, row: u8, col: u8) -> bool {
    let sid_opt = cell_at(b.cells@, b.size, row as int, col as int).ship_id;
    let sunk = sid_opt matches Some(s) && sunk_by_attack(b, s as int, row, col);
    &&& b2.size == b.size
    &&& b2.ships == b.ships
    &&& b2.cells@.len() == b.cells@.len()
    &&& forall|r2: int, c2: int|
        grid_in_bounds(b.size, r2, c2) ==> #[trigger] cell_at(b2.cells@, b2.size, r2, c2) == (Cell {
            ship_id: cell_at(b.cells@, b.size, r2, c2).ship_id,
            attacked: cell_at(b.cells@, b.size, r2, c2).attacked || (r2 == row as int && c2
                == col as int) || (sunk && splash_cell(b, sid_opt.unwrap() as int, r2, c2)),
        })
}

/// The ship identifier a well-formed grid records is always a position
/// into the ship list.
pub proof fn lemma_ship_id_bounds(b: Board, row: u8, col: u8)
    requires
        board_wf(b),
        attack_in_bounds(b, row, col),
        cell_at(b.cells@, b.size, row as int, col as int).ship_id is Some,
    ensures
        (cell_at(b.cells@, b.size, row as int, col as int).ship_id.unwrap() as int)
            < b.ships@.len(),
{
    if !ships_cover(b.ships@, row as int, col as int) {
        assert(cell_at(b.cells@, b.size, row as int, col as int).ship_id is None);
    }
    let i = choose|i: int|
        0 <= i < b.ships@.len() && ship_covers(#[trigger] b.ships@[i], row as int, col as int);
    let k = choose|k: int|
        0 <= k < b.ships@[i].cells@.len() && (#[trigger] b.ships@[i].cells@[k]).row as int
            == row as int && b.ships@[i].cells@[k].col as int == col as int;
    assert(cell_at(b.cells@, b.size, row as int, col as int).ship_id == Some(i as u8));
}

/// Relates the board with just the attack applied to the pre-attack
/// board: sunk state, game over and splash borders can all be read off
/// the pre-attack board.
pub proof fn lemma_mid_board_equiv(b: Board, mid: Board, row: u8, col: u8)
    requires
        board_wf(b),
        attack_allowed(b, row, col),
        mid.size == b.size,
        mid.ships == b.ships,
        mid.cells@ == cells_after_attack(b, row, col),
    ensures
        forall|s: int|
            0 <= s < b.ships@.len() ==> #[trigger] ship_sunk(mid, s) == sunk_by_attack(
                b,
                s,
                row,
                col,
            ),
        all_ships_sunk(mid) == game_over_after(b, row, col),
        cell_at(b.cells@, b.size, row as int, col as int).ship_id is Some ==> forall|
            s: int,
            r2: int,
            c2: int,
        |
            0 <= s < b.ships@.len() ==> (#[trigger] splash_cell(mid, s, r2, c2)) == splash_cell(
                b,
                s,
                r2,
                c2,
            ),
{
    lemma_grid_after_mark(b, mid.cells@, row, col);
    assert forall|s: int| 0 <= s < b.ships@.len() implies #[trigger] ship_sunk(mid, s)
        == sunk_by_attack(b, s, row, col) by {
        if sunk_by_attack(b, s, row, col) {
            assert forall|k: int| 0 <= k < mid.ships@[s].cells@.len() implies cell_at(
                mid.cells@,
                mid.size,
                (#[trigger] mid.ships@[s].cells@[k]).row as int,
                mid.ships@[s].cells@[k].col as int,
            ).attacked by {
                assert(b.ships@[s].cells@[k] == mid.ships@[s].cells@[k]);
                assert(grid_in_bounds(
                    b.size,
                    b.ships@[s].cells@[k].row as int,
                    b.ships@[s].cells@[k].col as int,
                ));
            }
        }
        if ship_sunk(mid, s) {
            assert forall|k: int| 0 <= k < b.ships@[s].cells@.len() implies {
                let cr = (#[trigger] b.ships@[s].cells@[k]).row as int;
                let cc = b.ships@[s].cells@[k].col as int;
                cell_at(b.cells@, b.size, cr, cc).attacked || (cr == row as int && cc
                    == col as int)
            } by {
                assert(b.ships@[s].cells@[k] == mid.ships@[s].cells@[k]);
                assert(grid_in_bounds(
                    b.size,
                    b.ships@[s].cells@[k].row as int,
                    b.ships@[s].cells@[k].col as int,
                ));
                assert(cell_at(
                    mid.cells@,
                    mid.size,
                    b.ships@[s].cells@[k].row as int,
                    b.ships@[s].cells@[k].col as int,
                ).attacked);
            }
        }
    }
    if all_ships_sunk(mid) {
        assert forall|i: int| 0 <= i < b.ships@.len() implies sunk_by_attack(b, i, row, col) by {
            assert(ship_sunk(mid, i));
        }
    }
    if game_over_after(b, row, col) {
        assert forall|i: int| 0 <= i < mid.ships@.len() implies ship_sunk(mid, i) by {
            assert(sunk_by_attack(b, i, row, col));
        }
    }
    if cell_at(b.cells@, b.size, row as int, col as int).ship_id is Some {
        assert forall|s: int, r2: int, c2: int| 0 <= s < b.ships@.len() implies (
        #[trigger] splash_cell(mid, s, r2, c2)) == splash_cell(b, s, r2, c2) by {
            if grid_in_bounds(b.size, r2, c2) {
                assert(cell_at(mid.cells@, mid.size, r2, c2).ship_id == cell_at(
                    b.cells@,
                    b.size,
                    r2,
                    c2,
                ).ship_id);
                if cell_at(b.cells@, b.size, r2, c2).ship_id is None {
                    assert(!(r2 == row as int && c2 == col as int));
                    assert(cell_at(mid.cells@, mid.size, r2, c2).attacked == cell_at(
                        b.cells@,
                        b.size,
                        r2,
                        c2,
                    ).attacked);
                }
            }
        }
    }
}

/// A plain element-for-element copy of a coordinate list.
pub fn clone_coords(v: &Vec<Coord>) -> (r: Vec<Coord>)
    ensures
        r@ == v@,
{
    let mut r: Vec<Coord> = Vec::new();
    let mut i: usize = 0;
    while i < v.len()
        invariant
            i <= v@.len(),
            r@.len() == i as int,
            forall|j: int| 0 <= j < i as int ==> #[trigger] r@[j] == v@[j],
        decreases v@.len() - i,
    {
        r.push(v[i]);
        i += 1;
    }
    proof {
        assert(r@ =~= v@);
    }
    r
}

/// Exact row-major index used by the executable grid code.
pub fn idx(size: u8, row: u8, col: u8) -> (r: usize)
    ensures
        r == grid_index(size, row as int, col as int),
{
    proof {
        assert((row as int) * (size as int) + (col as int) <= 255 * 255 + 255) by (nonlinear_arith)
            requires
                row <= 255,
                size <= 255,
                col <= 255,
        ;
    }
    (row as usize) * (size as usize) + (col as usize)
}

} // verus!
