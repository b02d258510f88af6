use tetris_core::Tetris;
use tetris_core::Tetromino;
use tetris_core::Tetromino::Empty;
use tetris_core::Tetromino::I;
use tetris_core::Tetromino::O;

fn cell(board: &[Tetromino], width: usize, r: usize, c: usize) -> Tetromino {
    board[r * width + c]
}

fn drop_horizontal_i(t: &mut Tetris, target_x: usize) {
    t.spawn_piece_index(0);
    let spawn_x = t.width() / 2 - 2;
    if target_x < spawn_x {
        for _ in 0..spawn_x - target_x {
            assert!(t.move_left());
        }
    } else {
        for _ in 0..target_x - spawn_x {
            assert!(t.move_right());
        }
    }
    t.hard_drop();
}

fn drop_vertical_i(t: &mut Tetris, target_x: usize) {
    t.spawn_piece_index(0);
    assert!(t.rotate());
    let spawn_x = t.width() / 2 - 2;
    if target_x < spawn_x {
        for _ in 0..spawn_x - target_x {
            assert!(t.move_left());
        }
    } else {
        for _ in 0..target_x - spawn_x {
            assert!(t.move_right());
        }
    }
    t.hard_drop();
}

#[test]
fn clear_lines_scores_zero_on_empty_board() {
    let mut t = Tetris::new(5, 5);
    assert_eq!(t.clear_lines(), 0);
    assert_eq!(t.get_score(), 0);
}

#[test]
fn completing_one_row_scores_one_hundred() {
    let mut t = Tetris::new(8, 6);
    drop_horizontal_i(&mut t, 0);
    assert_eq!(t.get_score(), 0);
    drop_horizontal_i(&mut t, 4);
    assert_eq!(t.get_score(), 100);
    let board = t.get_board();
    for c in 0..8 {
        assert_eq!(cell(&board, 8, 5, c), Empty);
    }
}

#[test]
fn completing_two_rows_scores_three_hundred() {
    let mut t = Tetris::new(2, 6);
    t.spawn_piece_index(1);
    t.hard_drop();
    assert_eq!(t.get_score(), 300);
}

#[test]
fn completing_three_rows_scores_five_hundred() {
    let mut t = Tetris::new(8, 8);
    drop_horizontal_i(&mut t, 0);
    drop_horizontal_i(&mut t, 0);
    drop_horizontal_i(&mut t, 0);
    drop_vertical_i(&mut t, 4);
    drop_vertical_i(&mut t, 5);
    drop_vertical_i(&mut t, 6);
    assert_eq!(t.get_score(), 0);
    drop_vertical_i(&mut t, 7);
    assert_eq!(t.get_score(), 500);
    let board = t.get_board();
    for c in 0..4 {
        assert_eq!(cell(&board, 8, 7, c), Empty);
    }
    for c in 4..8 {
        assert_eq!(cell(&board, 8, 7, c), I);
    }
}

#[test]
fn completing_four_rows_scores_eight_hundred() {
    let mut t = Tetris::new(4, 8);
    drop_vertical_i(&mut t, 0);
    drop_vertical_i(&mut t, 1);
    drop_vertical_i(&mut t, 2);
    assert_eq!(t.get_score(), 0);
    drop_vertical_i(&mut t, 3);
    assert_eq!(t.get_score(), 800);
}

#[test]
fn clearing_shifts_rows_above_and_keeps_rows_below() {
    let mut t = Tetris::new(4, 8);
    t.spawn_piece_index(1);
    assert!(t.move_left());
    t.hard_drop();
    t.spawn_piece_index(0);
    t.hard_drop();
    assert_eq!(t.get_score(), 100);
    let board = t.get_board();
    assert_eq!(cell(&board, 4, 6, 0), O);
    assert_eq!(cell(&board, 4, 6, 1), O);
    assert_eq!(cell(&board, 4, 6, 2), Empty);
    assert_eq!(cell(&board, 4, 6, 3), Empty);
    assert_eq!(cell(&board, 4, 7, 0), O);
    assert_eq!(cell(&board, 4, 7, 1), O);
    assert_eq!(cell(&board, 4, 7, 2), Empty);
    assert_eq!(cell(&board, 4, 7, 3), Empty);
    for r in 2..6 {
        for c in 0..4 {
            assert_eq!(cell(&board, 4, r, c), Empty);
        }
    }
}
