use vstd::prelude::*;

verus! {

/// Number of rows of the standard board.
pub const ROWS: usize = 7;

/// Number of columns of the standard board.
pub const COLS: usize = 10;

/// Number of tile kinds on the standard board.
pub const KINDS: u32 = 5;

/// A tile: its grid position and the category it matches on.
#[derive(Clone, Copy, Debug, PartialEq, Eq, Structural)]
pub struct Tile {
    pub row: usize,
    pub col: usize,
    pub kind: u32,
}

impl Tile {
    /// The cell the tile occupies.
    pub open spec fn pos(self) -> (usize, usize) {
        (self.row, self.col)
    }
}

/// Errors signalled at the board's boundary.
#[derive(Clone, Copy, Debug, PartialEq, Eq, Structural)]
pub enum BoardError {
    /// A position outside the grid.
    OutOfBounds,
    /// Placing onto an occupied cell, vacating an empty one, or a tile whose
    /// recorded position does not hold it.
    InvariantViolation,
    /// Resolving a selection that does not hold exactly two distinct tiles.
    InvalidSelection,
}

/// Grid occupancy: each cell is empty or holds the kind of the tile on it.
/// A tile's position is the cell that holds it, so the two always agree.
pub struct Board {
    rows: usize,
    cols: usize,
    cells: Vec<Vec<Option<u32>>>,
}

impl Board {
    pub closed spec fn n_rows(&self) -> usize {
        self.rows
    }

    pub closed spec fn n_cols(&self) -> usize {
        self.cols
    }

    /// Every row of the grid has `n_cols` cells.
    pub closed spec fn wf(&self) -> bool {
        &&& self.cells@.len() == self.rows
        &&& forall|r: int| 0 <= r < self.rows ==> (#[trigger] self.cells@[r])@.len() == self.cols
    }

    /// What cell `(r, c)` holds: `None` when empty, else the kind of its tile.
    pub closed spec fn cell(&self, r: int, c: int) -> Option<u32> {
        self.cells@[r]@[c]
    }

    pub open spec fn in_bounds(&self, r: int, c: int) -> bool {
        0 <= r < self.n_rows() && 0 <= c < self.n_cols()
    }

    pub open spec fn empty_at(&self, r: int, c: int) -> bool {
        self.cell(r, c) is None
    }

    /// `self` is `old` with exactly cell `(r, c)` changed to `v`.
    pub open spec fn updated(&self, old: &Board, r: int, c: int, v: Option<u32>) -> bool {
        &&& self.wf()
        &&& self.n_rows() == old.n_rows()
        &&& self.n_cols() == old.n_cols()
        &&& forall|i: int, j: int|
            #![trigger self.cell(i, j)]
            self.in_bounds(i, j) ==> self.cell(i, j) == if i == r && j == c {
                v
            } else {
                old.cell(i, j)
            }
    }

    /// A board of `rows` by `cols` cells, all empty.
    pub fn new(rows: usize, cols: usize) -> (b: Board)
        ensures
            b.wf(),
            b.n_rows() == rows,
            b.n_cols() == cols,
            forall|r: int, c: int| b.in_bounds(r, c) ==> #[trigger] b.cell(r, c) is None,
    {
        let mut cells: Vec<Vec<Option<u32>>> = Vec::new();
        let mut i: usize = 0;
        while i < rows
            invariant
                i <= rows,
                cells@.len() == i,
                forall|r: int| 0 <= r < i ==> (#[trigger] cells@[r])@.len() == cols,
                forall|r: int, c: int|
                    0 <= r < i && 0 <= c < cols ==> #[trigger] cells@[r]@[c] is None,
            decreases rows - i,
        {
            let mut row: Vec<Option<u32>> = Vec::new();
            let mut j: usize = 0;
            while j < cols
                invariant
                    j <= cols,
                    row@.len() == j,
                    forall|c: int| 0 <= c < j ==> #[trigger] row@[c] is None,
                decreases cols - j,
            {
                row.push(None);
                j = j + 1;
            }
            cells.push(row);
            i = i + 1;
        }
        Board { rows, cols, cells }
    }

    pub fn rows(&self) -> (r: usize)
        ensures
            r == self.n_rows(),
    {
        self.rows
    }

    pub fn cols(&self) -> (c: usize)
        ensures
            c == self.n_cols(),
    {
        self.cols
    }

    /// Whether cell `(row, col)` holds no tile.
    pub fn is_empty(&self, row: usize, col: usize) -> (e: bool)
        requires
            self.wf(),
            self.in_bounds(row as int, col as int),
        ensures
            e == self.empty_at(row as int, col as int),
    {
        self.cells[row][col].is_none()
    }

    /// The tile on cell `(row, col)`, if any.
    pub fn tile_at(&self, row: usize, col: usize) -> (t: Option<Tile>)
        requires
            self.wf(),
            self.in_bounds(row as int, col as int),
        ensures
            match self.cell(row as int, col as int) {
                None => t is None,
                Some(k) => t == Some(Tile { row, col, kind: k }),
            },
    {
        match self.cells[row][col] {
            None => None,
            Some(kind) => Some(Tile { row, col, kind }),
        }
    }

    fn set_cell(&mut self, row: usize, col: usize, v: Option<u32>)
        requires
            old(self).wf(),
            old(self).in_bounds(row as int, col as int),
        ensures
            final(self).updated(old(self), row as int, col as int, v),
    {
        let mut line = self.cells.remove(row);
        line.set(col, v);
        self.cells.insert(row, line);
        assert forall|r: int| 0 <= r < self.rows implies (#[trigger] self.cells@[r])@.len()
            == self.cols by {
            if r != row {
                assert(self.cells@[r] == old(self).cells@[r]);
            }
        }
    }

    /// Records `tile` on its cell. Fails with `OutOfBounds` when the position
    /// is outside the grid and with `InvariantViolation` when the cell is
    /// already occupied; the board is unchanged on failure.
    pub fn place(&mut self, tile: Tile) -> (res: Result<(), BoardError>)
        requires
            old(self).wf(),
        ensures
            !old(self).in_bounds(tile.row as int, tile.col as int) ==> res == Err::<(), BoardError>(BoardError::OutOfBounds),
            old(self).in_bounds(tile.row as int, tile.col as int) && !old(self).empty_at(tile.row as int, tile.col as int)
                ==> res == Err::<(), BoardError>(BoardError::InvariantViolation),
            res is Err ==> *final(self) == *old(self),
            res is Ok <==> old(self).in_bounds(tile.row as int, tile.col as int) && old(self).empty_at(tile.row as int, tile.col as int),
            res is Ok ==> final(self).updated(old(self), tile.row as int, tile.col as int, Some(tile.kind)),
            final(self).wf(),
    {
        if tile.row >= self.rows || tile.col >= self.cols {
            return Err(BoardError::OutOfBounds);
        }
        if !self.is_empty(tile.row, tile.col) {
            return Err(BoardError::InvariantViolation);
        }
        self.set_cell(tile.row, tile.col, Some(tile.kind));
        Ok(())
    }

    /// Clears cell `(row, col)`. Fails with `OutOfBounds` when the position is
    /// outside the grid and with `InvariantViolation` when the cell is already
    /// empty; the board is unchanged on failure.
    pub fn vacate(&mut self, row: usize, col: usize) -> (res: Result<(), BoardError>)
        requires
            old(self).wf(),
        ensures
            !old(self).in_bounds(row as int, col as int) ==> res == Err::<(), BoardError>(BoardError::OutOfBounds),
            old(self).in_bounds(row as int, col as int) && old(self).empty_at(row as int, col as int)
                ==> res == Err::<(), BoardError>(BoardError::InvariantViolation),
            res is Err ==> *final(self) == *old(self),
            res is Ok <==> old(self).in_bounds(row as int, col as int) && !old(self).empty_at(row as int, col as int),
            res is Ok ==> final(self).updated(old(self), row as int, col as int, None),
            final(self).wf(),
    {
        if row >= self.rows || col >= self.cols {
            return Err(BoardError::OutOfBounds);
        }
        if self.is_empty(row, col) {
            return Err(BoardError::InvariantViolation);
        }
        self.set_cell(row, col, None);
        Ok(())
    }
}

/// The kind that the standard layout gives cell `(r, c)` of a grid with `cols`
/// columns: kinds are dealt in reading order, cycling through `n_kinds`.
pub open spec fn layout_kind(r: int, c: int, cols: int, n_kinds: int) -> int {
    (r * cols + c) % n_kinds
}

/// A fully populated board of `rows` by `cols` cells whose cell `(r, c)` holds
/// kind `(r * cols + c) % n_kinds`.
pub fn setup(rows: usize, cols: usize, n_kinds: u32) -> (b: Board)
    requires
        n_kinds > 0,
        rows * cols <= usize::MAX,
    ensures
        b.wf(),
        b.n_rows() == rows,
        b.n_cols() == cols,
        forall|r: int, c: int|
            b.in_bounds(r, c) ==> #[trigger] b.cell(r, c) == Some(
                layout_kind(r, c, cols as int, n_kinds as int) as u32,
            ),
{
    let mut board = Board::new(rows, cols);
    let mut row: usize = 0;
    while row < rows
        invariant
            row <= rows,
            rows * cols <= usize::MAX,
            n_kinds > 0,
            board.wf(),
            board.n_rows() == rows,
            board.n_cols() == cols,
            forall|r: int, c: int|
                board.in_bounds(r, c) ==> #[trigger] board.cell(r, c) == if r < row {
                    Some(layout_kind(r, c, cols as int, n_kinds as int) as u32)
                } else {
                    None::<u32>
                },
        decreases rows - row,
    {
        let mut col: usize = 0;
        while col < cols
            invariant
                row < rows,
                col <= cols,
                rows * cols <= usize::MAX,
                n_kinds > 0,
                board.wf(),
                board.n_rows() == rows,
                board.n_cols() == cols,
                forall|r: int, c: int|
                    board.in_bounds(r, c) ==> #[trigger] board.cell(r, c) == if r < row || (r
                        == row && c < col) {
                        Some(layout_kind(r, c, cols as int, n_kinds as int) as u32)
                    } else {
                        None::<u32>
                    },
            decreases cols - col,
        {
            assert(row * cols + col < rows * cols) by (nonlinear_arith)
                requires
                    row < rows,
                    col < cols,
            ;
            let idx: usize = row * cols + col;
            let kind: u32 = (idx % (n_kinds as usize)) as u32;
            let placed = board.place(Tile { row, col, kind });
            assert(placed is Ok);
            col = col + 1;
        }
        row = row + 1;
    }
    board
}

} // verus!
