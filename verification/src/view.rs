//! The attacker's redacted view of the opponent's board, rebuilt purely
//! from protocol replies: it never holds ship identities.

use vstd::prelude::*;
use crate::board::{
    cells_touch, coord_in_seq, grid_in_bounds, grid_index, idx, lemma_grid_index_bounds,
    lemma_grid_index_injective, BoardError, Coord,
};

verus! {

/// What the attacker knows of one opponent cell.
#[derive(Clone, Copy, Debug, PartialEq, Eq, Structural)]
pub enum EnemyCell {
    Unknown,
    Miss,
    Hit,
    Sunk,
}

/// A `size` x `size` grid of redacted cell states, stored row-major.
#[derive(Clone, Debug, PartialEq)]
pub struct EnemyBoardView {
    pub size: u8,
    pub cells: Vec<EnemyCell>,
}

pub open spec fn view_wf(v: EnemyBoardView) -> bool {
    v.cells@.len() == (v.size as int) * (v.size as int)
}

/// The redacted state recorded at `(r, c)`.
pub open spec fn view_cell_at(v: EnemyBoardView, r: int, c: int) -> EnemyCell {
    v.cells@[grid_index(v.size, r, c)]
}

/// A fresh view with every cell unknown.
pub fn empty_enemy_view(size: u8) -> (v: EnemyBoardView)
    ensures
        v.size == size,
        view_wf(v),
        forall|r: int, c: int|
            grid_in_bounds(size, r, c) ==> #[trigger] view_cell_at(v, r, c) == EnemyCell::Unknown,
{
    proof {
        assert((size as int) * (size as int) <= 255 * 255) by (nonlinear_arith)
            requires
                size <= 255,
        ;
    }
    let total = (size as usize) * (size as usize);
    let mut cells: Vec<EnemyCell> = Vec::new();
    while cells.len() < total
        invariant
            total == (size as int) * (size as int),
            cells@.len() <= total,
            forall|n: int| 0 <= n < cells@.len() ==> #[trigger] cells@[n] == EnemyCell::Unknown,
        decreases total - cells@.len(),
    {
        cells.push(EnemyCell::Unknown);
    }
    let v = EnemyBoardView { size, cells };
    proof {
        assert forall|r: int, c: int| grid_in_bounds(size, r, c) implies #[trigger] view_cell_at(
            v,
            r,
            c,
        ) == EnemyCell::Unknown by {
            lemma_grid_index_bounds(size, r, c);
        }
    }
    v
}

/// Record `value` at `(r, c)` of the view; out-of-bounds coordinates are
/// rejected and change nothing.
pub fn set_enemy_view_cell(view: &mut EnemyBoardView, row: u8, col: u8, value: EnemyCell) -> (r:
    Result<(), BoardError>)
    requires
        view_wf(*old(view)),
        old(view).size > 0,
    ensures
        view_wf(*final(view)),
        final(view).size == old(view).size,
        !grid_in_bounds(old(view).size, row as int, col as int) ==> *final(view) == *old(view) && r
            == Err::<(), BoardError>(BoardError::OutOfBounds),
        grid_in_bounds(old(view).size, row as int, col as int) ==> r == Ok::<(), BoardError>(())
            && forall|r2: int, c2: int|
            grid_in_bounds(old(view).size, r2, c2) ==> #[trigger] view_cell_at(*final(view), r2, c2)
                == (if r2 == row as int && c2 == col as int {
                value
            } else {
                view_cell_at(*old(view), r2, c2)
            }),
{
    if row >= view.size || col >= view.size {
        return Err(BoardError::OutOfBounds);
    }
    proof {
        lemma_grid_index_bounds(view.size, row as int, col as int);
    }
    let index = idx(view.size, row, col);
    view.cells[index] = value;
    proof {
        assert forall|r2: int, c2: int| grid_in_bounds(view.size, r2, c2) implies
            #[trigger] view_cell_at(*view, r2, c2) == (if r2 == row as int && c2 == col as int {
            value
        } else {
            view_cell_at(*old(view), r2, c2)
        }) by {
            lemma_grid_index_bounds(view.size, r2, c2);
            if grid_index(view.size, r2, c2) == grid_index(view.size, row as int, col as int) {
                lemma_grid_index_injective(view.size, r2, c2, row as int, col as int);
            }
        }
    }
    Ok(())
}

/// A freshly created 10 x 10 view with every cell unknown, as the
/// handlers build it the first time an opponent is known.
pub open spec fn fresh_view_10(v: EnemyBoardView) -> bool {
    &&& v.size == 10
    &&& view_wf(v)
    &&& forall|r: int, c: int|
        grid_in_bounds(10u8, r, c) ==> #[trigger] view_cell_at(v, r, c) == EnemyCell::Unknown
}

/// What one view cell becomes when a reveal reply is folded in. A sunk
/// reply paints the hit cell and the whole sunk ship `Sunk` and the splash
/// border `Miss` where it was still unknown; an ordinary reply paints the
/// single attacked cell `Hit` or `Miss`. Coordinates off the board are
/// ignored.
pub open spec fn revealed_cell(
    old_cell: EnemyCell,
    row: u8,
    col: u8,
    hit: bool,
    sunk: bool,
    ship_cells: Seq<Coord>,
    splash: Seq<Coord>,
    r: int,
    c: int,
) -> EnemyCell {
    if sunk {
        if (r == row as int && c == col as int) || coord_in_seq(ship_cells, r, c) {
            EnemyCell::Sunk
        } else if coord_in_seq(splash, r, c) && old_cell == EnemyCell::Unknown {
            EnemyCell::Miss
        } else {
            old_cell
        }
    } else if r == row as int && c == col as int {
        if hit {
            EnemyCell::Hit
        } else {
            EnemyCell::Miss
        }
    } else {
        old_cell
    }
}

/// Fold a valid reveal reply into the view, cell by cell.
#[verifier::loop_isolation(false)]
pub fn apply_reveal_to_view(
    view: &mut EnemyBoardView,
    row: u8,
    col: u8,
    hit: bool,
    sunk: bool,
    ship_cells: &Vec<Coord>,
    splash: &Vec<Coord>,
)
    requires
        view_wf(*old(view)),
        old(view).size > 0,
    ensures
        view_wf(*final(view)),
        final(view).size == old(view).size,
        forall|r2: int, c2: int|
            grid_in_bounds(old(view).size, r2, c2) ==> #[trigger] view_cell_at(*final(view), r2, c2)
                == revealed_cell(
                view_cell_at(*old(view), r2, c2),
                row,
                col,
                hit,
                sunk,
                ship_cells@,
                splash@,
                r2,
                c2,
            ),
{
    let size = view.size;
    if sunk {
        if row < size && col < size {
            let _ = set_enemy_view_cell(view, row, col, EnemyCell::Sunk);
        }
        let mut k: usize = 0;
        while k < ship_cells.len()
            invariant
                view_wf(*view),
                view.size == size,
                k <= ship_cells@.len(),
                forall|r2: int, c2: int|
                    grid_in_bounds(size, r2, c2) ==> #[trigger] view_cell_at(*view, r2, c2) == (if (
                    r2 == row as int && c2 == col as int) || coord_in_seq(
                        ship_cells@.take(k as int),
                        r2,
                        c2,
                    ) {
                        EnemyCell::Sunk
                    } else {
                        view_cell_at(*old(view), r2, c2)
                    }),
            decreases ship_cells@.len() - k,
        {
            let coord = ship_cells[k];
            let ghost pre = *view;
            if coord.row < size && coord.col < size {
                let _ = set_enemy_view_cell(view, coord.row, coord.col, EnemyCell::Sunk);
            }
            proof {
                assert forall|r2: int, c2: int| grid_in_bounds(size, r2, c2) implies
                    #[trigger] view_cell_at(*view, r2, c2) == (if (r2 == row as int && c2
                    == col as int) || coord_in_seq(ship_cells@.take(k as int + 1), r2, c2) {
                    EnemyCell::Sunk
                } else {
                    view_cell_at(*old(view), r2, c2)
                }) by {
                    assert(ship_cells@.take(k as int + 1)[k as int] == ship_cells@[k as int]);
                    if coord_in_seq(ship_cells@.take(k as int + 1), r2, c2) && !(r2
                        == coord.row as int && c2 == coord.col as int) {
                        let m = choose|m: int|
                            0 <= m < ship_cells@.take(k as int + 1).len() && (#[trigger] ship_cells@.take(
                                k as int + 1,
                            )[m]).row as int == r2 && ship_cells@.take(k as int + 1)[m].col as int
                                == c2;
                        assert(m < k as int);
                        assert(ship_cells@.take(k as int)[m] == ship_cells@[m]);
                        assert(coord_in_seq(ship_cells@.take(k as int), r2, c2));
                    }
                    if coord_in_seq(ship_cells@.take(k as int), r2, c2) {
                        let m = choose|m: int|
                            0 <= m < ship_cells@.take(k as int).len() && (#[trigger] ship_cells@.take(
                                k as int,
                            )[m]).row as int == r2 && ship_cells@.take(k as int)[m].col as int
                                == c2;
                        assert(ship_cells@.take(k as int + 1)[m] == ship_cells@[m]);
                        assert(coord_in_seq(ship_cells@.take(k as int + 1), r2, c2));
                    }
                }
            }
            k += 1;
        }
        proof {
            assert(ship_cells@.take(ship_cells@.len() as int) == ship_cells@);
        }
        let ghost mid = *view;
        let mut k: usize = 0;
        while k < splash.len()
            invariant
                view_wf(*view),
                view.size == size,
                k <= splash@.len(),
                forall|r2: int, c2: int|
                    grid_in_bounds(size, r2, c2) ==> #[trigger] view_cell_at(*view, r2, c2) == (if
                    coord_in_seq(splash@.take(k as int), r2, c2) && view_cell_at(mid, r2, c2)
                        == EnemyCell::Unknown {
                        EnemyCell::Miss
                    } else {
                        view_cell_at(mid, r2, c2)
                    }),
            decreases splash@.len() - k,
        {
            let coord = splash[k];
            if coord.row < size && coord.col < size {
                proof {
                    lemma_grid_index_bounds(size, coord.row as int, coord.col as int);
                }
                let index = idx(size, coord.row, coord.col);
                if view.cells[index] == EnemyCell::Unknown {
                    let _ = set_enemy_view_cell(view, coord.row, coord.col, EnemyCell::Miss);
                }
            }
            proof {
                assert(splash@.take(k as int + 1)[k as int] == splash@[k as int]);
                assert forall|r2: int, c2: int| grid_in_bounds(size, r2, c2) implies
                    #[trigger] view_cell_at(*view, r2, c2) == (if coord_in_seq(
                    splash@.take(k as int + 1),
                    r2,
                    c2,
                ) && view_cell_at(mid, r2, c2) == EnemyCell::Unknown {
                    EnemyCell::Miss
                } else {
                    view_cell_at(mid, r2, c2)
                }) by {
                    if coord_in_seq(splash@.take(k as int + 1), r2, c2) && !(r2
                        == coord.row as int && c2 == coord.col as int) {
                        let m = choose|m: int|
                            0 <= m < splash@.take(k as int + 1).len() && (#[trigger] splash@.take(
                                k as int + 1,
                            )[m]).row as int == r2 && splash@.take(k as int + 1)[m].col as int
                                == c2;
                        assert(m < k as int);
                        assert(splash@.take(k as int)[m] == splash@[m]);
                        assert(coord_in_seq(splash@.take(k as int), r2, c2));
                    }
                    if coord_in_seq(splash@.take(k as int), r2, c2) {
                        let m = choose|m: int|
                            0 <= m < splash@.take(k as int).len() && (#[trigger] splash@.take(
                                k as int,
                            )[m]).row as int == r2 && splash@.take(k as int)[m].col as int == c2;
                        assert(splash@.take(k as int + 1)[m] == splash@[m]);
                        assert(coord_in_seq(splash@.take(k as int + 1), r2, c2));
                    }
                }
            }
            k += 1;
        }
        proof {
            assert(splash@.take(splash@.len() as int) == splash@);
        }
    } else if row < size && col < size {
        let _ = set_enemy_view_cell(view, row, col, if hit {
            EnemyCell::Hit
        } else {
            EnemyCell::Miss
        });
    }
}

} // verus!
