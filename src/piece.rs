use vstd::prelude::*;
use crate::board::MAX_BOARD_DIM;
use crate::position::GridPosition;
use crate::shape::{lemma_offsets_bounded, pos, shape_color, spawn_cells, PieceColor, ShapeKind};

verus! {

/// Time between two rows of natural descent, in milliseconds.
pub const FALL_INTERVAL_MS: i64 = 500;

/// The player's intents for one tick: `left` and `right` are fresh presses,
/// `down_held` is the soft-drop key held down.
#[derive(Clone, Copy, Debug, PartialEq, Eq, Structural)]
pub struct Input {
    pub left: bool,
    pub right: bool,
    pub down_held: bool,
}

/// The falling piece: its absolute cells, its color and its gravity timer in
/// milliseconds (natural descent is due once it is zero or less).
pub struct ActivePiece {
    pub cells: Vec<GridPosition>,
    pub color: PieceColor,
    pub gravity_timer: i64,
}

/// The range the gravity timer stays in: at most one fall interval, and
/// above minus the largest elapsed time a tick can report.
pub open spec fn timer_ok(t: int) -> bool {
    -(u32::MAX as int) < t <= FALL_INTERVAL_MS
}

/// One column left, unless that would leave the board: then the cell stays.
pub open spec fn step_left(p: GridPosition) -> GridPosition {
    if p.x > 0 {
        pos(p.x - 1, p.y as int)
    } else {
        p
    }
}

/// One column right, unless that would leave a board `w` wide: then the
/// cell stays.
pub open spec fn step_right(p: GridPosition, w: int) -> GridPosition {
    if p.x < w - 1 {
        pos(p.x + 1, p.y as int)
    } else {
        p
    }
}

/// The horizontal candidate: each cell moved one column in the intended
/// direction and held inside columns `0..w` on its own; left wins over right.
pub open spec fn shifted_h(cells: Seq<GridPosition>, input: Input, w: int) -> Seq<GridPosition> {
    if input.left {
        cells.map_values(|p: GridPosition| step_left(p))
    } else if input.right {
        cells.map_values(|p: GridPosition| step_right(p, w))
    } else {
        cells
    }
}

pub open spec fn shifted_down(cells: Seq<GridPosition>) -> Seq<GridPosition> {
    cells.map_values(|p: GridPosition| pos(p.x as int, p.y + 1))
}

/// The vertical candidate: one row down when soft drop is held or the timer
/// has run out, otherwise the cells as they are; never more than one row.
pub open spec fn shifted_v(cells: Seq<GridPosition>, timer: int, down_held: bool) -> Seq<
    GridPosition,
> {
    if down_held || timer <= 0 {
        shifted_down(cells)
    } else {
        cells
    }
}

/// The timer after a committed vertical step of a tick `dt` long.
pub open spec fn timer_after(timer: int, dt: int) -> int {
    if timer <= 0 {
        FALL_INTERVAL_MS as int
    } else {
        timer - dt
    }
}

/// Some cell is on the top row (or above it).
pub open spec fn reaches_top(cells: Seq<GridPosition>) -> bool {
    exists|i: int| 0 <= i < cells.len() && (#[trigger] cells[i]).y <= 0
}

impl ActivePiece {
    /// A fresh piece of shape `kind` at the top of a board `width` wide,
    /// centered on the middle column, with its timer run out so that it
    /// starts falling at once.
    pub fn spawn(kind: ShapeKind, width: usize) -> (r: ActivePiece)
        requires
            crate::shape::MIN_SPAWN_WIDTH <= width <= MAX_BOARD_DIM,
        ensures
            r.cells@ == spawn_cells(kind, width as int),
            r.color == shape_color(kind),
            r.gravity_timer == 0,
    {
        let offsets = kind.offsets();
        proof {
            lemma_offsets_bounded(kind);
        }
        let mid: i32 = (width / 2) as i32;
        let mut cells: Vec<GridPosition> = Vec::new();
        let mut i: usize = 0;
        while i < offsets.len()
            invariant
                offsets@ == crate::shape::shape_offsets(kind),
                offsets@.len() == 4,
                mid == width / 2,
                width <= MAX_BOARD_DIM,
                forall|j: int|
                    0 <= j < 4 ==> -1 <= #[trigger] offsets@[j].x <= 2 && 0 <= offsets@[j].y <= 1,
                i <= offsets@.len(),
                cells@ == spawn_cells(kind, width as int).subrange(0, i as int),
            decreases offsets@.len() - i,
        {
            let o = offsets[i];
            cells.push(GridPosition::new(o.x + mid, o.y));
            i = i + 1;
            assert(cells@ =~= spawn_cells(kind, width as int).subrange(0, i as int));
        }
        assert(cells@ =~= spawn_cells(kind, width as int));
        ActivePiece { cells, color: kind.color(), gravity_timer: 0 }
    }

    /// A fresh piece of a shape drawn uniformly from the catalog.
    pub fn random(width: usize) -> (r: ActivePiece)
        requires
            crate::shape::MIN_SPAWN_WIDTH <= width <= MAX_BOARD_DIM,
        ensures
            exists|k: ShapeKind|
                r.cells@ == spawn_cells(k, width as int) && r.color == shape_color(k),
            r.gravity_timer == 0,
    {
        ActivePiece::spawn(ShapeKind::random(), width)
    }

    /// The cells shifted one column by the horizontal intent, each held
    /// inside the board on its own; unchanged without a horizontal intent.
    pub fn candidate_horizontal(&self, input: Input, width: usize) -> (r: Vec<GridPosition>)
        requires
            1 <= width <= MAX_BOARD_DIM,
        ensures
            r@ == shifted_h(self.cells@, input, width as int),
            forall|i: int|
                0 <= i < self.cells@.len() && input.left && #[trigger] self.cells@[i].x <= 0
                    ==> r@[i] == self.cells@[i],
            forall|i: int|
                0 <= i < self.cells@.len() && !input.left && input.right && #[trigger]
                self.cells@[i].x >= width - 1 ==> r@[i] == self.cells@[i],
    {
        let w: i32 = width as i32;
        let mut r: Vec<GridPosition> = Vec::new();
        let mut i: usize = 0;
        while i < self.cells.len()
            invariant
                w == width,
                1 <= width <= MAX_BOARD_DIM,
                i <= self.cells@.len(),
                r@ == shifted_h(self.cells@, input, width as int).subrange(0, i as int),
            decreases self.cells@.len() - i,
        {
            let p = self.cells[i];
            let q = if input.left {
                if p.x > 0 {
                    p.move_left()
                } else {
                    p
                }
            } else if input.right {
                if p.x < w - 1 {
                    p.move_right()
                } else {
                    p
                }
            } else {
                p
            };
            r.push(q);
            i = i + 1;
            assert(r@ =~= shifted_h(self.cells@, input, width as int).subrange(0, i as int));
        }
        assert(r@ =~= shifted_h(self.cells@, input, width as int));
        r
    }

    /// The cells one row lower when soft drop is held or the timer has run
    /// out, otherwise unchanged.
    pub fn candidate_vertical(&self, down_held: bool) -> (r: Vec<GridPosition>)
        requires
            forall|i: int| 0 <= i < self.cells@.len() ==> #[trigger] self.cells@[i].y < i32::MAX,
        ensures
            r@ == shifted_v(self.cells@, self.gravity_timer as int, down_held),
    {
        let fall = down_held || self.gravity_timer <= 0;
        let mut r: Vec<GridPosition> = Vec::new();
        let mut i: usize = 0;
        while i < self.cells.len()
            invariant
                fall == (down_held || self.gravity_timer <= 0),
                forall|j: int| 0 <= j < self.cells@.len() ==> #[trigger] self.cells@[j].y < i32::MAX,
                i <= self.cells@.len(),
                r@ == shifted_v(self.cells@, self.gravity_timer as int, down_held).subrange(
                    0,
                    i as int,
                ),
            decreases self.cells@.len() - i,
        {
            let p = self.cells[i];
            if fall {
                r.push(p.move_down());
            } else {
                r.push(p);
            }
            i = i + 1;
            assert(r@ =~= shifted_v(self.cells@, self.gravity_timer as int, down_held).subrange(
                0,
                i as int,
            ));
        }
        assert(r@ =~= shifted_v(self.cells@, self.gravity_timer as int, down_held));
        r
    }

    /// Runs the gravity timer for a tick of `dt_ms` milliseconds: a timer
    /// that has run out starts a new fall interval, any other counts down.
    pub fn advance_timer(&mut self, dt_ms: u32)
        requires
            timer_ok(old(self).gravity_timer as int),
        ensures
            final(self).gravity_timer == timer_after(old(self).gravity_timer as int, dt_ms as int),
            timer_ok(final(self).gravity_timer as int),
            final(self).cells == old(self).cells,
            final(self).color == old(self).color,
    {
        if self.gravity_timer <= 0 {
            self.gravity_timer = FALL_INTERVAL_MS;
        } else {
            self.gravity_timer = self.gravity_timer - dt_ms as i64;
        }
    }

    /// Replaces the cells.
    pub fn set_cells(&mut self, cells: Vec<GridPosition>)
        ensures
            final(self).cells == cells,
            final(self).color == old(self).color,
            final(self).gravity_timer == old(self).gravity_timer,
    {
        self.cells = cells;
    }

    /// The topmost row the piece occupies (the smallest `y`).
    pub fn top_row(&self) -> (r: i32)
        requires
            self.cells@.len() > 0,
        ensures
            exists|i: int| 0 <= i < self.cells@.len() && #[trigger] self.cells@[i].y == r,
            forall|i: int| 0 <= i < self.cells@.len() ==> r <= #[trigger] self.cells@[i].y,
            (r <= 0) == reaches_top(self.cells@),
    {
        let mut r: i32 = self.cells[0].y;
        let mut i: usize = 1;
        while i < self.cells.len()
            invariant
                self.cells@.len() > 0,
                1 <= i <= self.cells@.len(),
                exists|j: int| 0 <= j < i && #[trigger] self.cells@[j].y == r,
                forall|j: int| 0 <= j < i ==> r <= #[trigger] self.cells@[j].y,
            decreases self.cells@.len() - i,
        {
            if self.cells[i].y < r {
                r = self.cells[i].y;
            }
            i = i + 1;
        }
        r
    }
}

} // verus!
