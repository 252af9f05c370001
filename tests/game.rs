use tetris_core::game::{GameState, BOARD_HEIGHT, BOARD_WIDTH};
use tetris_core::piece::Input;
use tetris_core::position::GridPosition;
use tetris_core::shape::{PieceColor, ShapeKind};

fn at(x: i32, y: i32) -> GridPosition {
    GridPosition::new(x, y)
}

const NONE: Input = Input { left: false, right: false, down_held: false };
const LEFT: Input = Input { left: true, right: false, down_held: false };
const RIGHT: Input = Input { left: false, right: true, down_held: false };
const DROP: Input = Input { left: false, right: false, down_held: true };

fn fill_row_except(g: &mut GameState, y: i32, skip: &[i32]) {
    let cells: Vec<GridPosition> = (0..g.board.width as i32)
        .filter(|x| !skip.contains(x))
        .map(|x| at(x, y))
        .collect();
    g.board.lock(&cells, PieceColor::Teal);
}

fn filled_count(g: &GameState) -> usize {
    let mut n = 0;
    for y in 0..g.board.height {
        for x in 0..g.board.width {
            if g.board.cell_at(x, y).is_some() {
                n += 1;
            }
        }
    }
    n
}

#[test]
fn new_game_starts_empty_with_spawned_piece() {
    let g = GameState::new(BOARD_WIDTH, BOARD_HEIGHT, ShapeKind::Bar);
    assert_eq!((BOARD_WIDTH, BOARD_HEIGHT), (10, 20));
    assert_eq!(g.score, 0);
    assert!(!g.game_over);
    assert_eq!(filled_count(&g), 0);
    assert_eq!(g.active.cells, vec![at(4, 0), at(5, 0), at(6, 0), at(7, 0)]);
    let r = GameState::new_random(10, 20);
    assert_eq!(r.active.cells.len(), 4);
    assert!(r.active.cells.iter().all(|p| p.y <= 1));
}

#[test]
fn square_falls_one_row_per_fall_interval() {
    let mut g = GameState::new(11, 22, ShapeKind::Square);
    assert_eq!(g.active.cells, vec![at(5, 0), at(6, 0), at(5, 1), at(6, 1)]);
    // the timer of a fresh piece has run out: it descends on the first tick
    assert_eq!(g.tick(NONE, 0, ShapeKind::Bar), 0);
    assert_eq!(g.active.cells, vec![at(5, 1), at(6, 1), at(5, 2), at(6, 2)]);
    // 0.5 s with no input: the piece waits out the interval
    for _ in 0..5 {
        g.tick(NONE, 100, ShapeKind::Bar);
        assert_eq!(g.active.cells[0], at(5, 1));
    }
    // then descends exactly one row
    g.tick(NONE, 100, ShapeKind::Bar);
    assert_eq!(g.active.cells, vec![at(5, 2), at(6, 2), at(5, 3), at(6, 3)]);
}

#[test]
fn soft_drop_and_expired_timer_descend_one_row() {
    let mut g = GameState::new(10, 20, ShapeKind::Square);
    assert_eq!(g.active.gravity_timer, 0);
    g.tick(DROP, 16, ShapeKind::Bar);
    assert_eq!(g.active.cells, vec![at(5, 1), at(6, 1), at(5, 2), at(6, 2)]);
    g.active.gravity_timer = -5;
    g.tick(DROP, 16, ShapeKind::Bar);
    assert_eq!(g.active.cells, vec![at(5, 2), at(6, 2), at(5, 3), at(6, 3)]);
}

#[test]
fn horizontal_moves_apply_when_free() {
    let mut g = GameState::new(10, 20, ShapeKind::Square);
    g.active.gravity_timer = 300;
    g.tick(LEFT, 16, ShapeKind::Bar);
    assert_eq!(g.active.cells, vec![at(4, 0), at(5, 0), at(4, 1), at(5, 1)]);
    g.tick(RIGHT, 16, ShapeKind::Bar);
    g.tick(RIGHT, 16, ShapeKind::Bar);
    assert_eq!(g.active.cells, vec![at(6, 0), at(7, 0), at(6, 1), at(7, 1)]);
    assert_eq!(g.active.gravity_timer, 300 - 3 * 16);
}

#[test]
fn horizontal_move_into_filled_slot_is_refused() {
    let mut g = GameState::new(10, 20, ShapeKind::Square);
    g.active.gravity_timer = 300;
    g.board.lock(&vec![at(4, 1)], PieceColor::Navy);
    g.tick(LEFT, 16, ShapeKind::Bar);
    assert_eq!(g.active.cells, vec![at(5, 0), at(6, 0), at(5, 1), at(6, 1)]);
}

#[test]
fn piece_at_left_wall_stays_against_it() {
    let mut g = GameState::new(10, 20, ShapeKind::Square);
    g.active.gravity_timer = 300;
    for _ in 0..5 {
        g.tick(LEFT, 1, ShapeKind::Bar);
    }
    assert_eq!(g.active.cells, vec![at(0, 0), at(1, 0), at(0, 1), at(1, 1)]);
    g.tick(LEFT, 1, ShapeKind::Bar);
    assert_eq!(g.active.cells[0], at(0, 0));
    assert_eq!(g.active.cells[2], at(0, 1));
}

#[test]
fn landing_piece_locks_and_next_spawns() {
    let mut g = GameState::new(10, 20, ShapeKind::Square);
    for _ in 0..18 {
        assert_eq!(g.tick(DROP, 16, ShapeKind::Bar), 0);
    }
    assert_eq!(g.active.cells, vec![at(5, 18), at(6, 18), at(5, 19), at(6, 19)]);
    assert_eq!(g.tick(DROP, 16, ShapeKind::Bar), 0);
    assert_eq!(g.board.cell_at(5, 19), Some(PieceColor::Gold));
    assert_eq!(g.board.cell_at(6, 18), Some(PieceColor::Gold));
    assert_eq!(g.active.cells, vec![at(4, 0), at(5, 0), at(6, 0), at(7, 0)]);
    assert_eq!(g.active.color, PieceColor::Teal);
    assert_eq!(g.active.gravity_timer, 0);
    assert_eq!(g.score, 0);
    assert!(!g.game_over);
}

#[test]
fn completed_row_clears_and_scores_one_point() {
    let mut g = GameState::new(11, 22, ShapeKind::Square);
    fill_row_except(&mut g, 21, &[5, 6]);
    fill_row_except(&mut g, 20, &[0, 5, 6]);
    for _ in 0..20 {
        assert_eq!(g.tick(DROP, 16, ShapeKind::Square), 0);
    }
    let before = filled_count(&g);
    assert_eq!(g.tick(DROP, 16, ShapeKind::Square), 1);
    assert_eq!(g.score, 1);
    assert_eq!(filled_count(&g), before + 4 - 11);
    // the row above, still missing one cell, came down to the bottom
    assert!(!g.board.row_is_full(21));
    assert_eq!(g.board.cell_at(0, 21), None);
    assert_eq!(g.board.cell_at(5, 21), Some(PieceColor::Gold));
    assert!(g.board.row_is_empty(20));
}

#[test]
fn row_missing_a_cell_is_not_cleared_until_filled() {
    let mut g = GameState::new(11, 22, ShapeKind::Square);
    fill_row_except(&mut g, 21, &[5, 6, 10]);
    for _ in 0..20 {
        g.tick(DROP, 16, ShapeKind::Bar);
    }
    assert_eq!(g.tick(DROP, 16, ShapeKind::Bar), 0);
    assert_eq!(g.score, 0);
    assert!(!g.board.row_is_full(21));
    g.board.lock(&vec![at(10, 21)], PieceColor::Navy);
    assert_eq!(g.board.clear_full_rows(), 1);
    assert_eq!(g.board.cell_at(5, 21), Some(PieceColor::Gold));
}

#[test]
fn two_rows_at_once_score_two_points() {
    let mut g = GameState::new(10, 20, ShapeKind::Square);
    fill_row_except(&mut g, 19, &[5, 6]);
    fill_row_except(&mut g, 18, &[5, 6]);
    g.score = 7;
    for _ in 0..18 {
        g.tick(DROP, 16, ShapeKind::Bar);
    }
    assert_eq!(g.tick(DROP, 16, ShapeKind::Bar), 2);
    assert_eq!(g.score, 9);
    assert_eq!(filled_count(&g), 0);
}

#[test]
fn blocked_spawn_ends_the_game() {
    let mut g = GameState::new(10, 20, ShapeKind::Square);
    g.board.lock(&vec![at(5, 2)], PieceColor::Navy);
    g.score = 3;
    let before = g.board.rows.clone();
    assert_eq!(g.tick(NONE, 16, ShapeKind::Bar), 0);
    assert!(g.game_over);
    assert_eq!(g.score, 3);
    assert_eq!(g.board.rows, before);
    assert_eq!(g.active.cells, vec![at(5, 0), at(6, 0), at(5, 1), at(6, 1)]);
}

#[test]
fn spawn_overlapping_content_ends_the_game() {
    let mut g = GameState::new(10, 20, ShapeKind::Bar);
    fill_row_except(&mut g, 1, &[]);
    fill_row_except(&mut g, 0, &[]);
    let before = g.board.rows.clone();
    assert_eq!(g.tick(DROP, 16, ShapeKind::Bar), 0);
    assert!(g.game_over);
    assert_eq!(g.board.rows, before);
    assert_eq!(g.score, 0);
}

#[test]
fn finished_game_is_frozen() {
    let mut g = GameState::new(10, 20, ShapeKind::Square);
    g.board.lock(&vec![at(6, 2)], PieceColor::Navy);
    g.tick(NONE, 16, ShapeKind::Bar);
    assert!(g.game_over);
    let cells = g.active.cells.clone();
    let rows = g.board.rows.clone();
    assert_eq!(g.tick(LEFT, 16, ShapeKind::Bar), 0);
    assert_eq!(g.tick_random(DROP, 16), 0);
    assert!(g.game_over);
    assert_eq!(g.active.cells, cells);
    assert_eq!(g.board.rows, rows);
    assert_eq!(g.score, 0);
}

#[test]
fn random_ticks_play_until_the_board_tops_out() {
    let mut g = GameState::new_random(10, 20);
    let mut ticks = 0;
    while !g.game_over && ticks < 100_000 {
        let before = g.score;
        let n = g.tick_random(DROP, 16);
        assert_eq!(g.score, before + n as u64);
        assert!(g.active.cells.iter().all(|p| p.x >= 0 && p.x < 10 && p.y >= 0 && p.y < 20));
        ticks += 1;
    }
    assert!(g.game_over);
}
