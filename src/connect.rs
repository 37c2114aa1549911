use vstd::prelude::*;
use crate::board::{Board, Tile};

verus! {

/// A grid position, `(row, col)`.
pub type Pos = (usize, usize);

/// Every cell of row `r` strictly between columns `c1` and `c2` is empty.
pub open spec fn clear_in_row(b: &Board, r: int, c1: int, c2: int) -> bool {
    forall|c: int| (c1 < c < c2 || c2 < c < c1) ==> #[trigger] b.empty_at(r, c)
}

/// Every cell of column `c` strictly between rows `r1` and `r2` is empty.
pub open spec fn clear_in_col(b: &Board, c: int, r1: int, r2: int) -> bool {
    forall|r: int| (r1 < r < r2 || r2 < r < r1) ==> #[trigger] b.empty_at(r, c)
}

/// `p` and `q` share a row or a column and every cell between them is empty.
pub open spec fn straight(b: &Board, p: Pos, q: Pos) -> bool {
    ||| (p.0 == q.0 && clear_in_row(b, p.0 as int, p.1 as int, q.1 as int))
    ||| (p.1 == q.1 && clear_in_col(b, p.1 as int, p.0 as int, q.0 as int))
}

/// `k` is an empty cell reached in a straight line from `p`, and from which
/// `q` is reached in a straight line.
pub open spec fn corner_ok(b: &Board, p: Pos, k: Pos, q: Pos) -> bool {
    b.empty_at(k.0 as int, k.1 as int) && straight(b, p, k) && straight(b, k, q)
}

/// The corner of the first one-turn route from `p` to `q`: the elbow on `p`'s
/// row is tried before the one on `p`'s column.
pub open spec fn one_turn(b: &Board, p: Pos, q: Pos) -> Option<Pos> {
    let k1 = (p.0, q.1);
    let k2 = (q.0, p.1);
    if corner_ok(b, p, k1, q) {
        Some(k1)
    } else if corner_ok(b, p, k2, q) {
        Some(k2)
    } else {
        None
    }
}

/// `k` can be the first corner of a two-turn route from `p` to `q`.
pub open spec fn first_corner_ok(b: &Board, p: Pos, k: Pos, q: Pos) -> bool {
    b.empty_at(k.0 as int, k.1 as int) && straight(b, p, k) && one_turn(b, k, q) is Some
}

/// The least row `r >= from` such that `(r, p.1)` can be a first corner.
pub open spec fn scan_rows(b: &Board, p: Pos, q: Pos, from: nat) -> Option<usize>
    decreases b.n_rows() - from,
{
    if from >= b.n_rows() {
        None
    } else if first_corner_ok(b, p, (from as usize, p.1), q) {
        Some(from as usize)
    } else {
        scan_rows(b, p, q, from + 1)
    }
}

/// The least column `c >= from` such that `(p.0, c)` can be a first corner.
pub open spec fn scan_cols(b: &Board, p: Pos, q: Pos, from: nat) -> Option<usize>
    decreases b.n_cols() - from,
{
    if from >= b.n_cols() {
        None
    } else if first_corner_ok(b, p, (p.0, from as usize), q) {
        Some(from as usize)
    } else {
        scan_cols(b, p, q, from + 1)
    }
}

/// The two corners of the first two-turn route from `p` to `q`: first
/// corners on `p`'s column are tried row by row, then those on `p`'s row
/// column by column; the second corner is the one-turn corner onward to `q`.
pub open spec fn two_turn(b: &Board, p: Pos, q: Pos) -> Option<(Pos, Pos)> {
    match scan_rows(b, p, q, 0) {
        Some(r) => {
            let k = (r, p.1);
            Some((k, one_turn(b, k, q)->Some_0))
        },
        None => match scan_cols(b, p, q, 0) {
            Some(c) => {
                let k = (p.0, c);
                Some((k, one_turn(b, k, q)->Some_0))
            },
            None => None,
        },
    }
}

/// The path that the search finds from `p` to `q`: straight, else one turn,
/// else two turns, each with both endpoints, in traversal order.
pub open spec fn path(b: &Board, p: Pos, q: Pos) -> Option<Seq<Pos>> {
    if straight(b, p, q) {
        Some(seq![p, q])
    } else {
        match one_turn(b, p, q) {
            Some(k) => Some(seq![p, k, q]),
            None => match two_turn(b, p, q) {
                Some((k1, k2)) => Some(seq![p, k1, k2, q]),
                None => None,
            },
        }
    }
}

pub open spec fn pos_in(b: &Board, p: Pos) -> bool {
    b.in_bounds(p.0 as int, p.1 as int)
}

/// Whether `p` and `q` are joined by a straight line of empty cells.
pub fn can_connect_straight(board: &Board, p: Pos, q: Pos) -> (ok: bool)
    requires
        board.wf(),
        pos_in(board, p),
        pos_in(board, q),
    ensures
        ok == straight(board, p, q),
{
    if p.0 == q.0 {
        let (lo, hi) = if p.1 <= q.1 {
            (p.1, q.1)
        } else {
            (q.1, p.1)
        };
        let mut c: usize = lo;
        while hi - c > 1
            invariant
                board.wf(),
                pos_in(board, p),
                p.0 == q.0,
                lo <= c,
                c <= hi,
                hi < board.n_cols(),
                (lo == p.1 && hi == q.1) || (lo == q.1 && hi == p.1),
                forall|k: int| lo < k <= c ==> #[trigger] board.empty_at(p.0 as int, k),
            decreases hi - c,
        {
            c = c + 1;
            if !board.is_empty(p.0, c) {
                return false;
            }
        }
        return true;
    }
    if p.1 == q.1 {
        let (lo, hi) = if p.0 <= q.0 {
            (p.0, q.0)
        } else {
            (q.0, p.0)
        };
        let mut r: usize = lo;
        while hi - r > 1
            invariant
                board.wf(),
                pos_in(board, p),
                p.1 == q.1,
                lo <= r,
                r <= hi,
                hi < board.n_rows(),
                (lo == p.0 && hi == q.0) || (lo == q.0 && hi == p.0),
                forall|k: int| lo < k <= r ==> #[trigger] board.empty_at(k, p.1 as int),
            decreases hi - r,
        {
            r = r + 1;
            if !board.is_empty(r, p.1) {
                return false;
            }
        }
        return true;
    }
    false
}

/// The corner of the first one-turn route from `p` to `q`, if any.
pub fn can_connect_one_turn(board: &Board, p: Pos, q: Pos) -> (k: Option<Pos>)
    requires
        board.wf(),
        pos_in(board, p),
        pos_in(board, q),
    ensures
        k == one_turn(board, p, q),
{
    let k1 = (p.0, q.1);
    if board.is_empty(k1.0, k1.1) && can_connect_straight(board, p, k1) && can_connect_straight(
        board,
        k1,
        q,
    ) {
        return Some(k1);
    }
    let k2 = (q.0, p.1);
    if board.is_empty(k2.0, k2.1) && can_connect_straight(board, p, k2) && can_connect_straight(
        board,
        k2,
        q,
    ) {
        return Some(k2);
    }
    None
}

/// The two corners of the first two-turn route from `p` to `q`, if any.
pub fn can_connect_two_turn(board: &Board, p: Pos, q: Pos) -> (ks: Option<(Pos, Pos)>)
    requires
        board.wf(),
        pos_in(board, p),
        pos_in(board, q),
    ensures
        ks == two_turn(board, p, q),
{
    let rows = board.rows();
    let mut r: usize = 0;
    while r < rows
        invariant
            board.wf(),
            pos_in(board, p),
            pos_in(board, q),
            rows == board.n_rows(),
            r <= rows,
            scan_rows(board, p, q, 0) == scan_rows(board, p, q, r as nat),
        decreases rows - r,
    {
        let k = (r, p.1);
        if board.is_empty(k.0, k.1) && can_connect_straight(board, p, k) {
            if let Some(k2) = can_connect_one_turn(board, k, q) {
                return Some((k, k2));
            }
        }
        r = r + 1;
    }
    let cols = board.cols();
    let mut c: usize = 0;
    while c < cols
        invariant
            board.wf(),
            pos_in(board, p),
            pos_in(board, q),
            cols == board.n_cols(),
            c <= cols,
            scan_rows(board, p, q, 0) is None,
            scan_cols(board, p, q, 0) == scan_cols(board, p, q, c as nat),
        decreases cols - c,
    {
        let k = (p.0, c);
        if board.is_empty(k.0, k.1) && can_connect_straight(board, p, k) {
            if let Some(k2) = can_connect_one_turn(board, k, q) {
                return Some((k, k2));
            }
        }
        c = c + 1;
    }
    None
}

/// The path from `t1` to `t2` that the search finds, if any: both endpoints
/// with zero, one or two corners between them. Only occupancy is consulted
/// along the way; the tiles' kinds play no part.
pub fn can_connect(board: &Board, t1: &Tile, t2: &Tile) -> (res: Option<Vec<Pos>>)
    requires
        board.wf(),
        pos_in(board, t1.pos()),
        pos_in(board, t2.pos()),
    ensures
        match res {
            Some(v) => path(board, t1.pos(), t2.pos()) == Some(v@),
            None => path(board, t1.pos(), t2.pos()) is None,
        },
{
    let p = (t1.row, t1.col);
    let q = (t2.row, t2.col);
    if can_connect_straight(board, p, q) {
        let v = vec![p, q];
        assert(v@ =~= seq![p, q]);
        return Some(v);
    }
    if let Some(k) = can_connect_one_turn(board, p, q) {
        let v = vec![p, k, q];
        assert(v@ =~= seq![p, k, q]);
        return Some(v);
    }
    if let Some((k1, k2)) = can_connect_two_turn(board, p, q) {
        let v = vec![p, k1, k2, q];
        assert(v@ =~= seq![p, k1, k2, q]);
        return Some(v);
    }
    None
}

/// Along one column, a straight run from `a` to an empty `m` and from `m` to
/// `c` makes a straight run from `a` to `c`.
proof fn lemma_chain_in_col(b: &Board, a: Pos, m: Pos, c: Pos)
    requires
        a.1 == m.1,
        m.1 == c.1,
        straight(b, a, m),
        straight(b, m, c),
        b.empty_at(m.0 as int, m.1 as int),
    ensures
        straight(b, a, c),
{
    assert(clear_in_col(b, a.1 as int, a.0 as int, m.0 as int));
    assert(clear_in_col(b, a.1 as int, m.0 as int, c.0 as int));
    assert(clear_in_col(b, a.1 as int, a.0 as int, c.0 as int));
}

/// Along one row, a straight run from `a` to an empty `m` and from `m` to `c`
/// makes a straight run from `a` to `c`.
proof fn lemma_chain_in_row(b: &Board, a: Pos, m: Pos, c: Pos)
    requires
        a.0 == m.0,
        m.0 == c.0,
        straight(b, a, m),
        straight(b, m, c),
        b.empty_at(m.0 as int, m.1 as int),
    ensures
        straight(b, a, c),
{
    assert(clear_in_row(b, a.0 as int, a.1 as int, m.1 as int));
    assert(clear_in_row(b, a.0 as int, m.1 as int, c.1 as int));
    assert(clear_in_row(b, a.0 as int, a.1 as int, c.1 as int));
}

proof fn lemma_scan_rows_sound(b: &Board, p: Pos, q: Pos, from: nat)
    ensures
        scan_rows(b, p, q, from) matches Some(r) ==> from <= r < b.n_rows()
            && first_corner_ok(b, p, (r, p.1), q),
    decreases b.n_rows() - from,
{
    if from < b.n_rows() && !first_corner_ok(b, p, (from as usize, p.1), q) {
        lemma_scan_rows_sound(b, p, q, from + 1);
    }
}

proof fn lemma_scan_cols_sound(b: &Board, p: Pos, q: Pos, from: nat)
    ensures
        scan_cols(b, p, q, from) matches Some(c) ==> from <= c < b.n_cols()
            && first_corner_ok(b, p, (p.0, c), q),
    decreases b.n_cols() - from,
{
    if from < b.n_cols() && !first_corner_ok(b, p, (p.0, from as usize), q) {
        lemma_scan_cols_sound(b, p, q, from + 1);
    }
}

proof fn lemma_scan_rows_complete(b: &Board, p: Pos, q: Pos, from: nat, r: usize)
    requires
        from <= r < b.n_rows(),
        first_corner_ok(b, p, (r, p.1), q),
    ensures
        scan_rows(b, p, q, from) is Some,
    decreases r - from,
{
    if from < r {
        lemma_scan_rows_complete(b, p, q, from + 1, r);
    }
}

proof fn lemma_scan_cols_complete(b: &Board, p: Pos, q: Pos, from: nat, c: usize)
    requires
        from <= c < b.n_cols(),
        first_corner_ok(b, p, (p.0, c), q),
    ensures
        scan_cols(b, p, q, from) is Some,
    decreases c - from,
{
    if from < c {
        lemma_scan_cols_complete(b, p, q, from + 1, c);
    }
}

/// A two-turn route from `p` to `q`, run backwards, is found from `q` to `p`.
proof fn lemma_two_turn_reverse(b: &Board, p: Pos, q: Pos)
    requires
        pos_in(b, p),
        pos_in(b, q),
        two_turn(b, p, q) is Some,
    ensures
        two_turn(b, q, p) is Some,
{
    lemma_scan_rows_sound(b, p, q, 0);
    lemma_scan_cols_sound(b, p, q, 0);
    let k1 = two_turn(b, p, q)->Some_0.0;
    let k2 = two_turn(b, p, q)->Some_0.1;
    assert(first_corner_ok(b, p, k1, q));
    assert(k1.1 == p.1 || k1.0 == p.0);
    assert(corner_ok(b, k1, k2, q));
    assert(k2 == (k1.0, q.1) || k2 == (q.0, k1.1));
    // the second corner becomes the first one of the route back
    if k1.1 == p.1 {
        if k2 == (k1.0, q.1) {
            assert(corner_ok(b, k2, (k2.0, p.1), p));
        } else {
            lemma_chain_in_col(b, p, k1, k2);
            assert(corner_ok(b, k2, (k2.0, p.1), p));
        }
    } else {
        if k2 == (q.0, k1.1) {
            assert(corner_ok(b, k2, (p.0, k2.1), p));
        } else {
            lemma_chain_in_row(b, p, k1, k2);
            assert(corner_ok(b, k2, (p.0, k2.1), p));
        }
    }
    assert(first_corner_ok(b, q, k2, p));
    if k2.1 == q.1 {
        lemma_scan_rows_complete(b, q, p, 0, k2.0);
    } else {
        lemma_scan_cols_complete(b, q, p, 0, k2.1);
    }
}

/// Connectivity is symmetric: a path is found from `p` to `q` exactly when
/// one is found from `q` to `p`.
pub proof fn lemma_connect_symmetric(b: &Board, p: Pos, q: Pos)
    requires
        b.wf(),
        pos_in(b, p),
        pos_in(b, q),
    ensures
        path(b, p, q) is Some <==> path(b, q, p) is Some,
{
    if two_turn(b, p, q) is Some {
        lemma_two_turn_reverse(b, p, q);
    }
    if two_turn(b, q, p) is Some {
        lemma_two_turn_reverse(b, q, p);
    }
}

/// Two cells joined by a straight line of empty cells get the direct path,
/// with no corner, whatever the rest of the board holds.
pub proof fn lemma_straight_is_direct(b: &Board, p: Pos, q: Pos)
    requires
        straight(b, p, q),
    ensures
        path(b, p, q) == Some(seq![p, q]),
{
}

/// A tile on the one cell `m` between `p` and `q` blocks the straight line
/// between them: any path found then turns at least once.
pub proof fn lemma_blocked_midpoint(b: &Board, p: Pos, m: Pos, q: Pos)
    requires
        ({
            ||| p.0 == m.0 && m.0 == q.0 && ((m.1 == p.1 + 1 && q.1 == p.1 + 2) || (m.1 == q.1 + 1
                && p.1 == q.1 + 2))
            ||| p.1 == m.1 && m.1 == q.1 && ((m.0 == p.0 + 1 && q.0 == p.0 + 2) || (m.0 == q.0 + 1
                && p.0 == q.0 + 2))
        }),
        !b.empty_at(m.0 as int, m.1 as int),
    ensures
        !straight(b, p, q),
        path(b, p, q) matches Some(s) ==> s.len() >= 3,
{
    if p.0 == q.0 {
        assert(!clear_in_row(b, p.0 as int, p.1 as int, q.1 as int));
    }
    if p.1 == q.1 {
        assert(!clear_in_col(b, p.1 as int, p.0 as int, q.0 as int));
    }
}

} // verus!
