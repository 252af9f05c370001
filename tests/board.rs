use tetris_core::board::{Board, BoardCell};
use tetris_core::position::GridPosition;
use tetris_core::shape::PieceColor;

fn at(x: i32, y: i32) -> GridPosition {
    GridPosition::new(x, y)
}

fn fill_row_except(b: &mut Board, y: i32, skip: &[i32], color: PieceColor) {
    let cells: Vec<GridPosition> = (0..b.width as i32)
        .filter(|x| !skip.contains(x))
        .map(|x| at(x, y))
        .collect();
    b.lock(&cells, color);
}

fn filled_count(b: &Board) -> usize {
    let mut n = 0;
    for y in 0..b.height {
        for x in 0..b.width {
            if b.cell_at(x, y).is_some() {
                n += 1;
            }
        }
    }
    n
}

fn origins_consistent(b: &Board) -> bool {
    for y in 0..b.height {
        for x in 0..b.width {
            let c = b.rows[y][x];
            if c.filled && c.origin != at(x as i32, y as i32) {
                return false;
            }
        }
    }
    true
}

#[test]
fn new_board_is_empty() {
    let b = Board::new(10, 20);
    assert_eq!(b.rows.len(), 20);
    assert!(b.rows.iter().all(|r| r.len() == 10));
    assert_eq!(filled_count(&b), 0);
}

#[test]
fn board_cell_constructors() {
    let c = BoardCell::new(PieceColor::Teal, at(3, 4));
    assert!(c.filled);
    assert_eq!(c.color, PieceColor::Teal);
    assert_eq!(c.origin, at(3, 4));
    let z = BoardCell::zero();
    assert!(!z.filled);
    assert_eq!(z.origin, at(0, 0));
}

#[test]
fn collides_below_bottom_row() {
    let b = Board::new(10, 20);
    assert!(b.collides(&vec![at(3, 20)]));
    assert!(b.collides(&vec![at(3, 5), at(4, 25)]));
    assert!(!b.collides(&vec![at(3, 19)]));
}

#[test]
fn collides_on_filled_slot_only() {
    let mut b = Board::new(10, 20);
    b.lock(&vec![at(4, 10)], PieceColor::Navy);
    assert!(b.collides(&vec![at(0, 0), at(4, 10)]));
    assert!(!b.collides(&vec![at(5, 10), at(4, 9), at(4, 11)]));
}

#[test]
fn collides_ignores_cells_outside_the_columns() {
    let b = Board::new(10, 20);
    assert!(!b.collides(&vec![at(-1, 3)]));
    assert!(!b.collides(&vec![at(10, 3)]));
    assert!(!b.collides(&vec![at(2, -1)]));
    assert!(!b.collides(&vec![]));
}

#[test]
fn empty_slot_at_origin_does_not_collide() {
    let b = Board::new(10, 20);
    assert!(!b.collides(&vec![at(0, 0)]));
}

#[test]
fn lock_fills_slots_with_color_and_origin() {
    let mut b = Board::new(10, 20);
    b.lock(&vec![at(2, 18), at(3, 19)], PieceColor::Gold);
    assert_eq!(b.cell_at(2, 18), Some(PieceColor::Gold));
    assert_eq!(b.cell_at(3, 19), Some(PieceColor::Gold));
    assert_eq!(b.cell_at(2, 19), None);
    assert_eq!(b.rows[18][2].origin, at(2, 18));
    assert_eq!(b.rows[19][3].origin, at(3, 19));
    assert_eq!(filled_count(&b), 2);
}

#[test]
fn row_predicates() {
    let mut b = Board::new(5, 4);
    fill_row_except(&mut b, 3, &[], PieceColor::Teal);
    fill_row_except(&mut b, 2, &[1], PieceColor::Teal);
    assert!(b.row_is_full(3));
    assert!(!b.row_is_empty(3));
    assert!(!b.row_is_full(2));
    assert!(!b.row_is_empty(2));
    assert!(b.row_is_empty(0));
    assert!(!b.row_is_full(0));
}

#[test]
fn no_full_row_clears_nothing() {
    let mut b = Board::new(10, 20);
    fill_row_except(&mut b, 19, &[7], PieceColor::Gold);
    assert_eq!(b.clear_full_rows(), 0);
    assert_eq!(filled_count(&b), 9);
    assert_eq!(b.cell_at(7, 19), None);
    assert_eq!(b.cell_at(6, 19), Some(PieceColor::Gold));
}

#[test]
fn single_full_row_is_cleared_and_rows_above_fall() {
    let mut b = Board::new(10, 20);
    fill_row_except(&mut b, 19, &[], PieceColor::Gold);
    b.lock(&vec![at(4, 18)], PieceColor::Navy);
    assert_eq!(b.clear_full_rows(), 1);
    assert_eq!(filled_count(&b), 1);
    assert_eq!(b.cell_at(4, 19), Some(PieceColor::Navy));
    assert_eq!(b.cell_at(4, 18), None);
    assert_eq!(b.rows[19][4].origin, at(4, 19));
}

#[test]
fn clearing_two_separated_rows_cascades() {
    // rows 2 and 5 of a 20-row board are full; rows 0, 1, 3, 4 hold one cell each
    let mut b = Board::new(10, 20);
    fill_row_except(&mut b, 2, &[], PieceColor::Teal);
    fill_row_except(&mut b, 5, &[], PieceColor::Teal);
    b.lock(&vec![at(0, 0)], PieceColor::Gold);
    b.lock(&vec![at(1, 1)], PieceColor::Navy);
    b.lock(&vec![at(2, 3)], PieceColor::DarkGreen);
    b.lock(&vec![at(3, 4)], PieceColor::BlueViolet);
    let before = filled_count(&b);
    assert_eq!(before, 24);
    assert_eq!(b.clear_full_rows(), 2);
    assert_eq!(filled_count(&b), before - 2 * 10);
    // remaining rows, top to bottom, packed at the bottom in their order
    assert_eq!(b.cell_at(0, 16), Some(PieceColor::Gold));
    assert_eq!(b.cell_at(1, 17), Some(PieceColor::Navy));
    assert_eq!(b.cell_at(2, 18), Some(PieceColor::DarkGreen));
    assert_eq!(b.cell_at(3, 19), Some(PieceColor::BlueViolet));
    for y in 0..16 {
        assert!(b.row_is_empty(y));
    }
    assert!(origins_consistent(&b));
}

#[test]
fn clearing_keeps_colors_and_relative_order() {
    let mut b = Board::new(6, 8);
    b.lock(&vec![at(0, 4), at(5, 4)], PieceColor::Gold);
    fill_row_except(&mut b, 5, &[], PieceColor::Teal);
    b.lock(&vec![at(2, 6)], PieceColor::Navy);
    fill_row_except(&mut b, 7, &[], PieceColor::Teal);
    assert_eq!(b.clear_full_rows(), 2);
    assert_eq!(b.cell_at(0, 6), Some(PieceColor::Gold));
    assert_eq!(b.cell_at(5, 6), Some(PieceColor::Gold));
    assert_eq!(b.cell_at(2, 7), Some(PieceColor::Navy));
    assert_eq!(filled_count(&b), 3);
    assert!(origins_consistent(&b));
}

#[test]
fn clearing_every_row_empties_the_board() {
    let mut b = Board::new(5, 3);
    for y in 0..3 {
        fill_row_except(&mut b, y, &[], PieceColor::DarkMagenta);
    }
    assert_eq!(b.clear_full_rows(), 3);
    assert_eq!(filled_count(&b), 0);
}

#[test]
fn origins_match_indices_after_clear() {
    let mut b = Board::new(7, 10);
    fill_row_except(&mut b, 9, &[], PieceColor::Teal);
    fill_row_except(&mut b, 8, &[0, 3], PieceColor::Navy);
    fill_row_except(&mut b, 6, &[1], PieceColor::Gold);
    assert_eq!(b.clear_full_rows(), 1);
    assert!(origins_consistent(&b));
    assert_eq!(b.rows[9][1].origin, at(1, 9));
    assert_eq!(b.rows[8][0].origin, at(0, 8));
    assert!(b.row_is_empty(7));
}
