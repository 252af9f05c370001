use tetris_core::layout::{cell_to_screen_x, cell_to_screen_y, Layout, BOARD_TOP};

#[test]
fn layout_of_full_hd_screen() {
    let l = Layout::new(1920, 1080);
    assert_eq!(l.cw, 38);
    assert_eq!(l.ch, 43);
    assert_eq!(l.bw, 380);
    assert_eq!(l.bh, 860);
    assert_eq!(l.bx0, 770);
    assert_eq!(l.by0, BOARD_TOP);
    assert_eq!(BOARD_TOP, 100);
}

#[test]
fn layout_follows_screen_resize() {
    let mut l = Layout::new(1920, 1080);
    l.update(1000, 500);
    assert_eq!((l.sw, l.sh), (1000, 500));
    assert_eq!(l.cw, 20);
    assert_eq!(l.ch, 20);
    assert_eq!(l.bw, 200);
    assert_eq!(l.bh, 400);
    assert_eq!(l.bx0, 400);
}

#[test]
fn cells_map_to_screen_pixels() {
    let l = Layout::new(1920, 1080);
    assert_eq!(cell_to_screen_x(0, &l), 770);
    assert_eq!(cell_to_screen_x(3, &l), 770 + 3 * 38);
    assert_eq!(cell_to_screen_y(0, &l), 100);
    assert_eq!(cell_to_screen_y(2, &l), 186);
}
