use vstd::prelude::*;
use crate::board::{Board, BoardError, Tile};
use crate::connect::{can_connect, path, Pos};
use crate::selection::SelectedTiles;

verus! {

/// The outcome of resolving a selected pair.
#[derive(Debug)]
pub enum Resolution {
    /// The pair connects; both cells are vacated and the path is handed back.
    Matched(Vec<Pos>),
    /// Kinds differ or no path exists; the board is untouched.
    Rejected,
}

/// What a tile activation led to.
#[derive(Debug)]
pub enum Activation {
    /// The tile is now the one selected tile.
    Selected,
    /// The selected tile was activated again and is no longer selected.
    Deselected,
    /// The tile completed a pair, which was resolved at once.
    Resolved(Resolution),
}

/// Cell `t.pos()` is on the grid and holds a tile of `t.kind`.
pub open spec fn holds(b: &Board, t: Tile) -> bool {
    b.in_bounds(t.row as int, t.col as int) && b.cell(t.row as int, t.col as int) == Some(t.kind)
}

/// Why a pair cannot be resolved at all, if it cannot.
pub open spec fn pair_error(b: &Board, t1: Tile, t2: Tile) -> Option<BoardError> {
    if t1.pos() == t2.pos() {
        Some(BoardError::InvalidSelection)
    } else if !b.in_bounds(t1.row as int, t1.col as int) || !b.in_bounds(
        t2.row as int,
        t2.col as int,
    ) {
        Some(BoardError::OutOfBounds)
    } else if !holds(b, t1) || !holds(b, t2) {
        Some(BoardError::InvariantViolation)
    } else {
        None
    }
}

/// The path that joins a pair, when the kinds agree and the search finds one.
pub open spec fn match_path(b: &Board, t1: Tile, t2: Tile) -> Option<Seq<Pos>> {
    if t1.kind == t2.kind {
        path(b, t1.pos(), t2.pos())
    } else {
        None
    }
}

/// `after` is `before` with cells `p` and `q` emptied and nothing else changed.
pub open spec fn cleared_pair(after: &Board, before: &Board, p: Pos, q: Pos) -> bool {
    &&& after.wf()
    &&& after.n_rows() == before.n_rows()
    &&& after.n_cols() == before.n_cols()
    &&& forall|i: int, j: int|
        #![trigger after.cell(i, j)]
        after.in_bounds(i, j) ==> after.cell(i, j) == if (i == p.0 && j == p.1) || (i == q.0 && j
            == q.1) {
            None
        } else {
            before.cell(i, j)
        }
}

/// Resolving the pair `t1`, `t2` on `before` gave `res` and left `after`.
pub open spec fn resolved(
    before: &Board,
    after: &Board,
    t1: Tile,
    t2: Tile,
    res: Result<Resolution, BoardError>,
) -> bool {
    match pair_error(before, t1, t2) {
        Some(e) => res == Err::<Resolution, BoardError>(e) && *after == *before,
        None => match match_path(before, t1, t2) {
            Some(s) => match res {
                Ok(Resolution::Matched(v)) => v@ == s && cleared_pair(after, before, t1.pos(), t2.pos()),
                _ => false,
            },
            None => res matches Ok(Resolution::Rejected) && *after == *before,
        },
    }
}

/// Resolves the pair `t1`, `t2`. A pair on one cell is an `InvalidSelection`;
/// a tile off the grid is `OutOfBounds`; a tile that its cell does not hold is
/// an `InvariantViolation`. Otherwise tiles of one kind that the search joins
/// are `Matched`, their cells vacated, and any other pair is `Rejected`.
pub fn resolve(board: &mut Board, t1: Tile, t2: Tile) -> (res: Result<Resolution, BoardError>)
    requires
        old(board).wf(),
    ensures
        final(board).wf(),
        resolved(old(board), final(board), t1, t2, res),
        res matches Ok(Resolution::Matched(_)) ==> final(board).empty_at(t1.row as int, t1.col as int)
            && final(board).empty_at(t2.row as int, t2.col as int),
        res matches Ok(Resolution::Rejected) ==> *final(board) == *old(board),
{
    if t1.row == t2.row && t1.col == t2.col {
        return Err(BoardError::InvalidSelection);
    }
    if t1.row >= board.rows() || t1.col >= board.cols() || t2.row >= board.rows() || t2.col
        >= board.cols() {
        return Err(BoardError::OutOfBounds);
    }
    let held1 = match board.tile_at(t1.row, t1.col) {
        Some(t) => t.kind == t1.kind,
        None => false,
    };
    let held2 = match board.tile_at(t2.row, t2.col) {
        Some(t) => t.kind == t2.kind,
        None => false,
    };
    if !held1 || !held2 {
        return Err(BoardError::InvariantViolation);
    }
    if t1.kind != t2.kind {
        return Ok(Resolution::Rejected);
    }
    match can_connect(board, &t1, &t2) {
        None => Ok(Resolution::Rejected),
        Some(v) => {
            let ghost before = *board;
            let _ = board.vacate(t1.row, t1.col);
            let ghost mid = *board;
            let _ = board.vacate(t2.row, t2.col);
            assert(cleared_pair(board, &before, t1.pos(), t2.pos())) by {
                assert forall|i: int, j: int| board.in_bounds(i, j) implies #[trigger] board.cell(
                    i,
                    j,
                ) == if (i == t1.row && j == t1.col) || (i == t2.row && j == t2.col) {
                    None
                } else {
                    before.cell(i, j)
                } by {
                    assert(mid.cell(i, j) == if i == t1.row && j == t1.col {
                        None
                    } else {
                        before.cell(i, j)
                    });
                }
            }
            Ok(Resolution::Matched(v))
        },
    }
}

/// Resolves the selected pair and clears the selection. Unless exactly two
/// tiles are selected this is an `InvalidSelection` and nothing changes.
pub fn process_selection(board: &mut Board, selected: &mut SelectedTiles) -> (res: Result<
    Resolution,
    BoardError,
>)
    requires
        old(board).wf(),
        old(selected).wf(),
    ensures
        final(board).wf(),
        final(selected).wf(),
        old(selected)@.len() != 2 ==> res == Err::<Resolution, BoardError>(
            BoardError::InvalidSelection,
        ) && *final(board) == *old(board) && final(selected)@ == old(selected)@,
        old(selected)@.len() == 2 ==> final(selected)@ == Seq::<Tile>::empty() && resolved(
            old(board),
            final(board),
            old(selected)@[0],
            old(selected)@[1],
            res,
        ),
        res matches Ok(Resolution::Matched(_)) ==> final(board).empty_at(
            old(selected)@[0].row as int,
            old(selected)@[0].col as int,
        ) && final(board).empty_at(old(selected)@[1].row as int, old(selected)@[1].col as int),
        res matches Ok(Resolution::Rejected) ==> *final(board) == *old(board),
{
    if selected.len() != 2 {
        return Err(BoardError::InvalidSelection);
    }
    let t1 = selected.get(0);
    let t2 = selected.get(1);
    let res = resolve(board, t1, t2);
    selected.clear();
    res
}

/// Handles one activation of `tile`: updates the selection and, when that
/// completes a pair, resolves it at once, so that at most one tile stays
/// selected between activations.
pub fn select_tile(board: &mut Board, selected: &mut SelectedTiles, tile: Tile) -> (res: Result<
    Activation,
    BoardError,
>)
    requires
        old(board).wf(),
        old(selected)@.len() <= 1,
    ensures
        final(board).wf(),
        final(selected)@.len() <= 1,
        old(selected)@.len() == 0 ==> res == Ok::<Activation, BoardError>(Activation::Selected)
            && final(selected)@ == seq![tile] && *final(board) == *old(board),
        old(selected)@.len() == 1 && old(selected)@[0].pos() == tile.pos() ==> res == Ok::<
            Activation,
            BoardError,
        >(Activation::Deselected) && final(selected)@ == Seq::<Tile>::empty() && *final(board)
            == *old(board),
        old(selected)@.len() == 1 && old(selected)@[0].pos() != tile.pos() ==> final(selected)@
            == Seq::<Tile>::empty() && match res {
            Ok(Activation::Resolved(r)) => resolved(
                old(board),
                final(board),
                old(selected)@[0],
                tile,
                Ok(r),
            ),
            Err(e) => resolved(old(board), final(board), old(selected)@[0], tile, Err(e)),
            _ => false,
        },
{
    if !selected.activate(tile) {
        if selected.len() == 1 {
            return Ok(Activation::Selected);
        }
        return Ok(Activation::Deselected);
    }
    match process_selection(board, selected) {
        Ok(r) => Ok(Activation::Resolved(r)),
        Err(e) => Err(e),
    }
}

/// After a match, both cells of the pair are empty, so asking the board about
/// either of them reports it empty.
pub proof fn lemma_match_vacates(before: &Board, after: &Board, t1: Tile, t2: Tile, v: Vec<Pos>)
    requires
        resolved(before, after, t1, t2, Ok(Resolution::Matched(v))),
    ensures
        after.wf(),
        after.empty_at(t1.row as int, t1.col as int),
        after.empty_at(t2.row as int, t2.col as int),
{
}

/// A rejected pair leaves the board exactly as it was.
pub proof fn lemma_reject_keeps_board(before: &Board, after: &Board, t1: Tile, t2: Tile)
    requires
        resolved(before, after, t1, t2, Ok(Resolution::Rejected)),
    ensures
        *after == *before,
{
}

} // verus!
