use vstd::prelude::*;
use crate::game::{BOARD_HEIGHT, BOARD_WIDTH};

verus! {

/// Screen pixels per column; a row is as many pixels high as the board's
/// height-to-width ratio allows within the same budget.
pub const CELL_SIZE: i32 = 50;

/// Screen row of the board's top edge, in pixels.
pub const BOARD_TOP: i32 = 100;

/// Where the board sits on a screen: screen size, cell size, board size and
/// top-left corner, all in pixels.
#[derive(Clone, Copy, Debug, PartialEq, Eq, Structural)]
pub struct Layout {
    pub sw: i32,
    pub sh: i32,
    pub cw: i32,
    pub ch: i32,
    pub bw: i32,
    pub bh: i32,
    pub bx0: i32,
    pub by0: i32,
}

/// `l` is the layout of a screen `sw` by `sh` pixels: cells sized from the
/// screen, the board centered horizontally below the top margin.
pub open spec fn layout_for(l: Layout, sw: int, sh: int) -> bool {
    &&& l.sw == sw
    &&& l.sh == sh
    &&& l.cw == sw / CELL_SIZE as int
    &&& l.ch == sh / (CELL_SIZE as int / (BOARD_HEIGHT as int / BOARD_WIDTH as int))
    &&& l.bw == l.cw * BOARD_WIDTH
    &&& l.bh == l.ch * BOARD_HEIGHT
    &&& l.bx0 == sw / 2 - l.bw / 2
    &&& l.by0 == BOARD_TOP
}

impl Layout {
    /// The layout of a screen `sw` by `sh` pixels.
    pub fn new(sw: i32, sh: i32) -> (r: Layout)
        requires
            sw >= 0,
            sh >= 0,
        ensures
            layout_for(r, sw as int, sh as int),
    {
        let mut l = Layout { sw, sh, cw: 0, ch: 0, bw: 0, bh: 0, bx0: 0, by0: 0 };
        l.recalculate();
        l
    }

    /// The layout after the screen has become `sw` by `sh` pixels.
    pub fn update(&mut self, sw: i32, sh: i32)
        requires
            sw >= 0,
            sh >= 0,
        ensures
            layout_for(*final(self), sw as int, sh as int),
    {
        self.sw = sw;
        self.sh = sh;
        self.recalculate();
    }

    /// Derives the cell and board sizes from the screen size.
    pub fn recalculate(&mut self)
        requires
            old(self).sw >= 0,
            old(self).sh >= 0,
        ensures
            layout_for(*final(self), old(self).sw as int, old(self).sh as int),
    {
        let ratio: i32 = (BOARD_HEIGHT / BOARD_WIDTH) as i32;
        assert(ratio == 2);
        self.cw = self.sw / CELL_SIZE;
        self.ch = self.sh / (CELL_SIZE / ratio);
        assert(self.cw <= i32::MAX / 50);
        assert(self.ch <= i32::MAX / 25);
        let cols: i32 = BOARD_WIDTH as i32;
        let rows: i32 = BOARD_HEIGHT as i32;
        assert(cols == 10 && rows == 20 && self.cw >= 0 && self.ch >= 0);
        let cw: i32 = self.cw;
        assert(0 <= cw * cols <= i32::MAX) by (nonlinear_arith)
            requires
                0 <= cw <= i32::MAX / 50,
                cols == 10,
        ;
        self.bw = cw * cols;
        self.bh = self.ch * rows;
        self.bx0 = self.sw / 2 - self.bw / 2;
        self.by0 = BOARD_TOP;
    }
}

/// Screen x of the left edge of column `cell_x`.
pub fn cell_to_screen_x(cell_x: i32, l: &Layout) -> (r: i32)
    requires
        i32::MIN <= l.bx0 + cell_x * l.cw <= i32::MAX,
    ensures
        r == l.bx0 + cell_x * l.cw,
{
    (l.bx0 as i64 + cell_x as i64 * l.cw as i64) as i32
}

/// Screen y of the top edge of row `cell_y`.
pub fn cell_to_screen_y(cell_y: i32, l: &Layout) -> (r: i32)
    requires
        i32::MIN <= l.by0 + cell_y * l.ch <= i32::MAX,
    ensures
        r == l.by0 + cell_y * l.ch,
{
    (l.by0 as i64 + cell_y as i64 * l.ch as i64) as i32
}

} // verus!
