use tile_connect::board::{setup, Board, BoardError, Tile, COLS, KINDS, ROWS};
use tile_connect::connect::{can_connect, can_connect_one_turn, can_connect_straight, can_connect_two_turn};
use tile_connect::resolve::{process_selection, resolve, select_tile, Activation, Resolution};
use tile_connect::selection::SelectedTiles;

fn standard() -> Board {
    setup(ROWS, COLS, KINDS)
}

fn tile(board: &Board, row: usize, col: usize) -> Tile {
    board.tile_at(row, col).expect("occupied cell")
}

fn snapshot(board: &Board) -> Vec<Option<Tile>> {
    let mut cells = Vec::new();
    for r in 0..board.rows() {
        for c in 0..board.cols() {
            cells.push(board.tile_at(r, c));
        }
    }
    cells
}

fn vacate_all(board: &mut Board, cells: &[(usize, usize)]) {
    for &(r, c) in cells {
        board.vacate(r, c).unwrap();
    }
}

#[test]
fn new_board_is_empty() {
    let board = Board::new(3, 4);
    assert_eq!(board.rows(), 3);
    assert_eq!(board.cols(), 4);
    for r in 0..3 {
        for c in 0..4 {
            assert!(board.is_empty(r, c));
            assert_eq!(board.tile_at(r, c), None);
        }
    }
}

#[test]
fn setup_deals_kinds_in_reading_order() {
    let board = standard();
    assert_eq!(board.tile_at(0, 0), Some(Tile { row: 0, col: 0, kind: 0 }));
    assert_eq!(board.tile_at(0, 5), Some(Tile { row: 0, col: 5, kind: 0 }));
    assert_eq!(board.tile_at(1, 1), Some(Tile { row: 1, col: 1, kind: 1 }));
    assert_eq!(board.tile_at(6, 9), Some(Tile { row: 6, col: 9, kind: 4 }));
    assert_eq!(board.tile_at(3, 7), Some(Tile { row: 3, col: 7, kind: 2 }));
    for r in 0..ROWS {
        for c in 0..COLS {
            assert!(!board.is_empty(r, c));
        }
    }
}

#[test]
fn place_and_vacate_signal_misuse() {
    let mut board = Board::new(2, 2);
    assert_eq!(board.place(Tile { row: 1, col: 0, kind: 3 }), Ok(()));
    assert_eq!(board.tile_at(1, 0), Some(Tile { row: 1, col: 0, kind: 3 }));
    assert_eq!(board.place(Tile { row: 1, col: 0, kind: 2 }), Err(BoardError::InvariantViolation));
    assert_eq!(board.tile_at(1, 0), Some(Tile { row: 1, col: 0, kind: 3 }));
    assert_eq!(board.place(Tile { row: 2, col: 0, kind: 2 }), Err(BoardError::OutOfBounds));
    assert_eq!(board.vacate(0, 2), Err(BoardError::OutOfBounds));
    assert_eq!(board.vacate(0, 0), Err(BoardError::InvariantViolation));
    assert_eq!(board.vacate(1, 0), Ok(()));
    assert!(board.is_empty(1, 0));
    assert_eq!(board.vacate(1, 0), Err(BoardError::InvariantViolation));
}

#[test]
fn straight_needs_shared_line_of_empty_cells() {
    let mut board = standard();
    assert!(can_connect_straight(&board, (0, 0), (0, 1)));
    assert!(can_connect_straight(&board, (2, 3), (3, 3)));
    assert!(!can_connect_straight(&board, (0, 0), (0, 5)));
    assert!(!can_connect_straight(&board, (0, 0), (1, 1)));
    vacate_all(&mut board, &[(1, 4), (2, 4), (3, 4)]);
    assert!(can_connect_straight(&board, (0, 4), (4, 4)));
    assert!(can_connect_straight(&board, (4, 4), (0, 4)));
    assert!(!can_connect_straight(&board, (0, 4), (5, 4)));
}

#[test]
fn straight_match_in_emptied_row() {
    let mut board = standard();
    vacate_all(&mut board, &[(0, 1), (0, 2), (0, 3), (0, 4)]);
    let t1 = tile(&board, 0, 0);
    let t2 = tile(&board, 0, 5);
    assert_eq!(t1.kind, t2.kind);
    match resolve(&mut board, t1, t2) {
        Ok(Resolution::Matched(path)) => assert_eq!(path, vec![(0, 0), (0, 5)]),
        other => panic!("expected a match, got {:?}", other),
    }
    assert!(board.is_empty(0, 0));
    assert!(board.is_empty(0, 5));
    assert!(!board.is_empty(0, 6));
}

#[test]
fn different_kinds_are_rejected() {
    let mut board = standard();
    let before = snapshot(&board);
    let t1 = tile(&board, 0, 0);
    let t2 = tile(&board, 1, 1);
    assert_ne!(t1.kind, t2.kind);
    assert!(matches!(resolve(&mut board, t1, t2), Ok(Resolution::Rejected)));
    assert_eq!(snapshot(&board), before);
}

#[test]
fn one_turn_match_through_empty_corner() {
    let mut board = standard();
    vacate_all(&mut board, &[(1, 0), (1, 1), (1, 2), (1, 3), (1, 4)]);
    let t1 = tile(&board, 0, 0);
    let t2 = tile(&board, 1, 5);
    assert_eq!(t1.kind, t2.kind);
    assert_eq!(can_connect_one_turn(&board, (0, 0), (1, 5)), Some((1, 0)));
    match resolve(&mut board, t1, t2) {
        Ok(Resolution::Matched(path)) => assert_eq!(path, vec![(0, 0), (1, 0), (1, 5)]),
        other => panic!("expected a match, got {:?}", other),
    }
    assert!(board.is_empty(0, 0));
    assert!(board.is_empty(1, 5));
}

#[test]
fn two_turn_match_around_the_edge() {
    let mut board = standard();
    vacate_all(&mut board, &[(0, 0), (0, 1), (0, 2), (0, 3), (0, 4), (0, 5)]);
    let t1 = tile(&board, 1, 0);
    let t2 = tile(&board, 1, 5);
    assert_eq!(t1.kind, t2.kind);
    assert_eq!(can_connect_one_turn(&board, (1, 0), (1, 5)), None);
    assert_eq!(can_connect_two_turn(&board, (1, 0), (1, 5)), Some(((0, 0), (0, 5))));
    match resolve(&mut board, t1, t2) {
        Ok(Resolution::Matched(path)) => assert_eq!(path, vec![(1, 0), (0, 0), (0, 5), (1, 5)]),
        other => panic!("expected a match, got {:?}", other),
    }
    assert!(board.is_empty(1, 0));
    assert!(board.is_empty(1, 5));
}

#[test]
fn boxed_in_pair_is_rejected() {
    let mut board = standard();
    vacate_all(&mut board, &[(6, 9), (6, 8)]);
    let before = snapshot(&board);
    let t1 = tile(&board, 3, 2);
    let t2 = tile(&board, 3, 7);
    assert_eq!(t1.kind, t2.kind);
    assert_eq!(can_connect(&board, &t1, &t2), None);
    assert!(matches!(resolve(&mut board, t1, t2), Ok(Resolution::Rejected)));
    assert_eq!(snapshot(&board), before);
}

#[test]
fn selecting_a_tile_twice_deselects_it() {
    let mut board = standard();
    let mut selected = SelectedTiles::new();
    let t = tile(&board, 2, 2);
    assert!(matches!(select_tile(&mut board, &mut selected, t), Ok(Activation::Selected)));
    assert_eq!(selected.len(), 1);
    assert_eq!(selected.get(0), t);
    assert!(matches!(select_tile(&mut board, &mut selected, t), Ok(Activation::Deselected)));
    assert_eq!(selected.len(), 0);
    assert!(!board.is_empty(2, 2));
}

#[test]
fn completing_a_pair_resolves_and_clears_selection() {
    let mut board = standard();
    let mut selected = SelectedTiles::new();
    let before = snapshot(&board);
    let a = tile(&board, 0, 0);
    let b = tile(&board, 1, 1);
    assert!(matches!(select_tile(&mut board, &mut selected, a), Ok(Activation::Selected)));
    assert!(matches!(
        select_tile(&mut board, &mut selected, b),
        Ok(Activation::Resolved(Resolution::Rejected))
    ));
    assert_eq!(selected.len(), 0);
    assert_eq!(snapshot(&board), before);

    let c = tile(&board, 0, 1);
    let d = tile(&board, 1, 1);
    assert_eq!(c.kind, d.kind);
    assert!(matches!(select_tile(&mut board, &mut selected, c), Ok(Activation::Selected)));
    match select_tile(&mut board, &mut selected, d) {
        Ok(Activation::Resolved(Resolution::Matched(path))) => {
            assert_eq!(path, vec![(0, 1), (1, 1)])
        }
        other => panic!("expected a match, got {:?}", other),
    }
    assert_eq!(selected.len(), 0);
    assert!(board.is_empty(0, 1));
    assert!(board.is_empty(1, 1));
}

#[test]
fn activate_tracks_selection_states() {
    let mut selected = SelectedTiles::new();
    let a = Tile { row: 0, col: 0, kind: 1 };
    let b = Tile { row: 0, col: 3, kind: 1 };
    assert!(!selected.activate(a));
    assert!(selected.activate(b));
    assert_eq!(selected.len(), 2);
    assert_eq!(selected.get(0), a);
    assert_eq!(selected.get(1), b);
    selected.clear();
    assert_eq!(selected.len(), 0);
}

#[test]
fn process_selection_needs_a_pair() {
    let mut board = standard();
    let mut selected = SelectedTiles::new();
    assert_eq!(process_selection(&mut board, &mut selected).unwrap_err(), BoardError::InvalidSelection);
    let a = tile(&board, 0, 0);
    selected.activate(a);
    assert_eq!(process_selection(&mut board, &mut selected).unwrap_err(), BoardError::InvalidSelection);
    assert_eq!(selected.len(), 1);
    let b = tile(&board, 0, 5);
    selected.activate(b);
    assert!(matches!(process_selection(&mut board, &mut selected), Ok(Resolution::Rejected)));
    assert_eq!(selected.len(), 0);
}

#[test]
fn resolve_reports_each_error() {
    let mut board = standard();
    let before = snapshot(&board);
    let a = tile(&board, 0, 0);
    assert_eq!(resolve(&mut board, a, a).unwrap_err(), BoardError::InvalidSelection);
    let off = Tile { row: ROWS, col: 0, kind: 0 };
    assert_eq!(resolve(&mut board, a, off).unwrap_err(), BoardError::OutOfBounds);
    let wrong_kind = Tile { row: 0, col: 1, kind: 0 };
    assert_eq!(resolve(&mut board, a, wrong_kind).unwrap_err(), BoardError::InvariantViolation);
    assert_eq!(snapshot(&board), before);
    board.vacate(0, 5).unwrap();
    let gone = Tile { row: 0, col: 5, kind: 0 };
    assert_eq!(resolve(&mut board, a, gone).unwrap_err(), BoardError::InvariantViolation);
}

#[test]
fn connection_is_symmetric() {
    let mut board = standard();
    vacate_all(&mut board, &[(0, 0), (0, 1), (0, 2), (0, 3), (0, 4), (0, 5)]);
    let t1 = tile(&board, 1, 0);
    let t2 = tile(&board, 1, 5);
    assert_eq!(can_connect(&board, &t1, &t2), Some(vec![(1, 0), (0, 0), (0, 5), (1, 5)]));
    assert_eq!(can_connect(&board, &t2, &t1), Some(vec![(1, 5), (0, 5), (0, 0), (1, 0)]));
    let t3 = tile(&board, 3, 3);
    let t4 = tile(&board, 4, 8);
    assert_eq!(can_connect(&board, &t3, &t4), None);
    assert_eq!(can_connect(&board, &t4, &t3), None);
}

#[test]
fn straight_path_ignores_the_rest_of_the_board() {
    let mut board = standard();
    vacate_all(&mut board, &[(2, 6), (3, 6), (4, 6)]);
    let t1 = tile(&board, 1, 6);
    let t2 = tile(&board, 5, 6);
    assert_eq!(can_connect(&board, &t1, &t2), Some(vec![(1, 6), (5, 6)]));
}

#[test]
fn tile_between_blocks_straight_line() {
    let mut board = Board::new(3, 3);
    board.place(Tile { row: 0, col: 0, kind: 1 }).unwrap();
    board.place(Tile { row: 0, col: 2, kind: 1 }).unwrap();
    let t1 = tile(&board, 0, 0);
    let t2 = tile(&board, 0, 2);
    assert_eq!(can_connect(&board, &t1, &t2), Some(vec![(0, 0), (0, 2)]));
    board.place(Tile { row: 0, col: 1, kind: 4 }).unwrap();
    assert!(!can_connect_straight(&board, (0, 0), (0, 2)));
    assert_eq!(can_connect(&board, &t1, &t2), Some(vec![(0, 0), (1, 0), (1, 2), (0, 2)]));
}
