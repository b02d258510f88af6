use tetris_core::Tetris;
use tetris_core::Tetromino;
use tetris_core::Tetromino::Empty;
use tetris_core::Tetromino::I;
use tetris_core::Tetromino::J;
use tetris_core::Tetromino::L;
use tetris_core::Tetromino::O;
use tetris_core::Tetromino::S;
use tetris_core::Tetromino::T;
use tetris_core::Tetromino::Z;

fn cell(board: &[Tetromino], width: usize, r: usize, c: usize) -> Tetromino {
    board[r * width + c]
}

fn count_occupied(board: &[Tetromino]) -> usize {
    board.iter().filter(|&&v| v != Empty).count()
}

fn shape_cells(k: usize) -> Vec<Vec<Tetromino>> {
    match k {
        0 => vec![vec![I, I, I, I]],
        1 => vec![vec![O, O], vec![O, O]],
        2 => vec![vec![T, T, T], vec![Empty, T, Empty]],
        3 => vec![vec![Empty, S, S], vec![S, S, Empty]],
        4 => vec![vec![Z, Z, Empty], vec![Empty, Z, Z]],
        5 => vec![vec![J, Empty, Empty], vec![J, J, J]],
        _ => vec![vec![Empty, Empty, L], vec![L, L, L]],
    }
}

#[test]
fn new_board_is_empty() {
    let t = Tetris::new(10, 20);
    let board = t.get_board();
    assert_eq!(board.len(), 200);
    assert_eq!(count_occupied(&board), 0);
    assert_eq!(t.get_score(), 0);
    assert!(!t.is_game_over());
}

#[test]
fn getters_report_dimensions() {
    let t = Tetris::new(7, 13);
    assert_eq!(t.width(), 7);
    assert_eq!(t.height(), 13);
}

#[test]
fn spawn_centering_all_shapes() {
    for k in 0..7 {
        let mut t = Tetris::new(11, 6);
        t.spawn_piece_index(k);
        let board = t.get_board();
        let shape = shape_cells(k);
        let x = 11 / 2 - shape[0].len() / 2;
        let mut expected = vec![Empty; 11 * 6];
        for (r, row) in shape.iter().enumerate() {
            for (c, &v) in row.iter().enumerate() {
                if v != Empty {
                    expected[r * 11 + x + c] = v;
                }
            }
        }
        assert_eq!(board, expected);
    }
}

#[test]
fn spawn_centers_o_on_narrow_board() {
    let mut t = Tetris::new(4, 6);
    t.spawn_piece_index(1);
    let board = t.get_board();
    assert_eq!(cell(&board, 4, 0, 1), O);
    assert_eq!(cell(&board, 4, 0, 2), O);
    assert_eq!(cell(&board, 4, 1, 1), O);
    assert_eq!(cell(&board, 4, 1, 2), O);
    assert_eq!(count_occupied(&board), 4);
}

#[test]
fn one_tall_board_locks_and_ends_on_first_drop() {
    let mut t = Tetris::new(4, 1);
    t.spawn_piece_index(1);
    assert!(!t.move_down());
    assert!(t.is_game_over());
    assert_eq!(t.get_score(), 0);
}

#[test]
fn game_over_freezes_all_movement() {
    let mut t = Tetris::new(4, 1);
    t.spawn_piece_index(1);
    assert!(!t.move_down());
    assert!(t.is_game_over());
    let snapshot = t.get_board();
    let score = t.get_score();
    assert!(!t.move_down());
    assert!(!t.move_left());
    assert!(!t.move_right());
    assert!(!t.rotate());
    assert_eq!(t.get_board(), snapshot);
    assert_eq!(t.get_score(), score);
    t.new_game();
    assert!(!t.is_game_over());
    assert_eq!(t.get_score(), 0);
}

#[test]
fn rejected_moves_leave_state_unchanged() {
    let mut t = Tetris::new(4, 6);
    t.spawn_piece_index(1);
    assert!(t.move_left());
    let at_wall = t.get_board();
    assert!(!t.move_left());
    assert_eq!(t.get_board(), at_wall);
    assert!(t.move_right());
    assert!(t.move_right());
    let at_right = t.get_board();
    assert!(!t.move_right());
    assert_eq!(t.get_board(), at_right);
    assert_eq!(t.get_score(), 0);
    assert!(!t.is_game_over());
}

#[test]
fn piece_stacks_on_settled_blocks() {
    let mut t = Tetris::new(4, 6);
    t.spawn_piece_index(1);
    t.hard_drop();
    let board = t.get_board();
    assert_eq!(cell(&board, 4, 4, 1), O);
    assert_eq!(cell(&board, 4, 4, 2), O);
    assert_eq!(cell(&board, 4, 5, 1), O);
    assert_eq!(cell(&board, 4, 5, 2), O);
    t.spawn_piece_index(1);
    assert!(t.move_down());
    assert!(t.move_down());
    assert!(!t.move_down());
    let stacked = t.get_board();
    assert_eq!(cell(&stacked, 4, 2, 1), O);
    assert_eq!(cell(&stacked, 4, 3, 2), O);
    assert_eq!(cell(&stacked, 4, 4, 1), O);
    assert_eq!(cell(&stacked, 4, 5, 2), O);
}

#[test]
fn four_rotations_restore_the_piece() {
    let mut t = Tetris::new(10, 10);
    t.spawn_piece_index(2);
    let before = t.get_board();
    assert!(t.rotate());
    assert!(t.rotate());
    assert!(t.rotate());
    assert!(t.rotate());
    assert_eq!(t.get_board(), before);
}

#[test]
fn rotated_i_piece_stands_upright() {
    let mut t = Tetris::new(4, 8);
    t.spawn_piece_index(0);
    assert!(t.rotate());
    let board = t.get_board();
    for r in 0..4 {
        assert_eq!(cell(&board, 4, r, 0), I);
    }
    assert_eq!(count_occupied(&board), 4);
}

#[test]
fn random_spawn_always_places_one_tetromino() {
    let mut t = Tetris::new(10, 6);
    for _ in 0..10 {
        t.new_game();
        assert!(!t.is_game_over());
        assert_eq!(count_occupied(&t.get_board()), 4);
        assert_eq!(t.get_score(), 0);
    }
}

#[test]
fn hard_drop_locks_and_respawns() {
    let mut t = Tetris::new(4, 8);
    t.spawn_piece_index(1);
    t.hard_drop();
    assert!(!t.is_game_over());
    assert_eq!(t.get_score(), 0);
    let board = t.get_board();
    assert_eq!(cell(&board, 4, 6, 1), O);
    assert_eq!(cell(&board, 4, 6, 2), O);
    assert_eq!(cell(&board, 4, 7, 1), O);
    assert_eq!(cell(&board, 4, 7, 2), O);
    assert_eq!(count_occupied(&board), 8);
}
