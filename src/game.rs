use vstd::prelude::*;
use crate::board::{
    collides_spec, empty_row, full_count, in_bounds, lemma_kept_len, locked, settled, Board,
    MAX_BOARD_DIM,
};
use crate::piece::{
    reaches_top, shifted_h, shifted_v, timer_after, timer_ok, ActivePiece, Input,
};
use crate::position::GridPosition;
use crate::shape::{
    lemma_offsets_bounded, shape_color, shape_offsets, spawn_cells, ShapeKind, MIN_SPAWN_WIDTH,
};

verus! {

/// Columns of the standard board.
pub const BOARD_WIDTH: usize = 10;

/// Rows of the standard board.
pub const BOARD_HEIGHT: usize = 20;

/// Fewest rows a board needs: every shape spans two rows at spawn.
pub const MIN_BOARD_HEIGHT: usize = 2;

/// The whole game: the falling piece, the locked cells, the score and
/// whether the game has ended.
pub struct GameState {
    pub active: ActivePiece,
    pub board: Board,
    pub score: u64,
    pub game_over: bool,
}

/// Every cell lies on a board `w` wide and `h` high.
pub open spec fn all_in_bounds(cells: Seq<GridPosition>, w: int, h: int) -> bool {
    forall|i: int| 0 <= i < cells.len() ==> in_bounds(#[trigger] cells[i], w, h)
}

impl GameState {
    pub open spec fn wf(&self) -> bool {
        &&& self.board.wf()
        &&& MIN_SPAWN_WIDTH <= self.board.width
        &&& MIN_BOARD_HEIGHT <= self.board.height
        &&& self.active.cells@.len() > 0
        &&& all_in_bounds(
            self.active.cells@,
            self.board.width as int,
            self.board.height as int,
        )
        &&& timer_ok(self.active.gravity_timer as int)
    }

    pub open spec fn width(&self) -> int {
        self.board.width as int
    }

    pub open spec fn height(&self) -> int {
        self.board.height as int
    }

    /// The piece's cells after the horizontal step of a tick: the candidate
    /// when it does not collide, else the cells as they were.
    pub open spec fn after_horizontal(&self, input: Input) -> Seq<GridPosition> {
        let c = shifted_h(self.active.cells@, input, self.width());
        if collides_spec(self.board.grid(), self.width(), self.height(), c) {
            self.active.cells@
        } else {
            c
        }
    }

    /// The vertical candidate of a tick.
    pub open spec fn vertical_candidate(&self, input: Input) -> Seq<GridPosition> {
        shifted_v(self.after_horizontal(input), self.active.gravity_timer as int, input.down_held)
    }

    /// The vertical candidate collides.
    pub open spec fn blocked(&self, input: Input) -> bool {
        collides_spec(
            self.board.grid(),
            self.width(),
            self.height(),
            self.vertical_candidate(input),
        )
    }

    /// The tick ends the game: the piece is blocked while still on the top row.
    pub open spec fn tops_out(&self, input: Input) -> bool {
        !self.game_over && self.blocked(input) && reaches_top(self.after_horizontal(input))
    }

    /// The tick locks the piece into the board.
    pub open spec fn locks(&self, input: Input) -> bool {
        !self.game_over && self.blocked(input) && !reaches_top(self.after_horizontal(input))
    }

    /// The grid once the piece has been locked, before rows are cleared.
    pub open spec fn grid_with_piece(&self, input: Input) -> Seq<Seq<Option<crate::shape::PieceColor>>> {
        locked(self.board.grid(), self.after_horizontal(input), self.active.color)
    }

    /// Rows the tick clears.
    pub open spec fn lines_cleared(&self, input: Input) -> nat {
        if self.locks(input) {
            full_count(self.grid_with_piece(input))
        } else {
            0
        }
    }

    /// `post` is what one tick makes of `self`, with intents `input`,
    /// `dt` milliseconds elapsed and `next` as the shape spawned if the piece
    /// locks.
    pub open spec fn steps_to(&self, post: &GameState, input: Input, dt: int, next: ShapeKind) -> bool {
        &&& post.board.width == self.board.width
        &&& post.board.height == self.board.height
        &&& if self.game_over {
            &&& post.game_over
            &&& post.active.cells@ == self.active.cells@
            &&& post.active.color == self.active.color
            &&& post.active.gravity_timer == self.active.gravity_timer
            &&& post.board.grid() == self.board.grid()
            &&& post.score == self.score
        } else if self.tops_out(input) {
            &&& post.game_over
            &&& post.active.cells@ == self.after_horizontal(input)
            &&& post.active.color == self.active.color
            &&& post.active.gravity_timer == self.active.gravity_timer
            &&& post.board.grid() == self.board.grid()
            &&& post.score == self.score
        } else if self.locks(input) {
            &&& !post.game_over
            &&& post.active.cells@ == spawn_cells(next, self.width())
            &&& post.active.color == shape_color(next)
            &&& post.active.gravity_timer == 0
            &&& post.board.grid() == settled(self.grid_with_piece(input), self.width())
            &&& post.score == self.score + self.lines_cleared(input)
        } else {
            &&& !post.game_over
            &&& post.active.cells@ == self.vertical_candidate(input)
            &&& post.active.color == self.active.color
            &&& post.active.gravity_timer == timer_after(self.active.gravity_timer as int, dt)
            &&& post.board.grid() == self.board.grid()
            &&& post.score == self.score
        }
    }

    /// A new game on an empty board `width` by `height`, with a piece of
    /// shape `first` at the top.
    pub fn new(width: usize, height: usize, first: ShapeKind) -> (r: GameState)
        requires
            MIN_SPAWN_WIDTH <= width <= MAX_BOARD_DIM,
            MIN_BOARD_HEIGHT <= height <= MAX_BOARD_DIM,
        ensures
            r.wf(),
            r.board.width == width,
            r.board.height == height,
            r.board.grid() == Seq::new(height as nat, |y: int| empty_row(width as int)),
            r.active.cells@ == spawn_cells(first, width as int),
            r.active.color == shape_color(first),
            r.active.gravity_timer == 0,
            r.score == 0,
            !r.game_over,
    {
        let board = Board::new(width, height);
        let active = ActivePiece::spawn(first, width);
        proof {
            lemma_spawn_in_bounds(first, width as int, height as int);
        }
        GameState { active, board, score: 0, game_over: false }
    }

    /// A new game whose first piece is drawn at random.
    pub fn new_random(width: usize, height: usize) -> (r: GameState)
        requires
            MIN_SPAWN_WIDTH <= width <= MAX_BOARD_DIM,
            MIN_BOARD_HEIGHT <= height <= MAX_BOARD_DIM,
        ensures
            r.wf(),
            r.board.width == width,
            r.board.height == height,
            r.board.grid() == Seq::new(height as nat, |y: int| empty_row(width as int)),
            exists|k: ShapeKind|
                r.active.cells@ == spawn_cells(k, width as int) && r.active.color == shape_color(
                    k,
                ),
            r.active.gravity_timer == 0,
            r.score == 0,
            !r.game_over,
    {
        GameState::new(width, height, ShapeKind::random())
    }

    /// One tick: the horizontal intent is applied when it does not collide;
    /// then the piece descends one row if soft drop is held or its timer ran
    /// out. A piece that cannot descend ends the game when it is still on the
    /// top row, and is otherwise locked, full rows are cleared and counted
    /// into the score, and a piece of shape `next` takes its place. Returns
    /// the number of rows cleared. A finished game does not change.
    pub fn tick(&mut self, input: Input, dt_ms: u32, next: ShapeKind) -> (cleared: usize)
        requires
            old(self).wf(),
            old(self).score + old(self).board.height <= u64::MAX,
        ensures
            final(self).wf(),
            old(self).steps_to(final(self), input, dt_ms as int, next),
            cleared == old(self).lines_cleared(input),
    {
        if self.game_over {
            return 0;
        }
        let ghost pre = *self;
        let w = self.board.width;
        let hc = self.active.candidate_horizontal(input, w);
        proof {
            lemma_shift_in_bounds(self.active.cells@, input, w as int, self.height());
        }
        if !self.board.collides(&hc) {
            self.active.set_cells(hc);
        }
        assert(self.active.cells@ == pre.after_horizontal(input));
        let vc = self.active.candidate_vertical(input.down_held);
        if self.board.collides(&vc) {
            if self.active.top_row() <= 0 {
                self.game_over = true;
                return 0;
            }
            self.board.lock(&self.active.cells, self.active.color);
            let n = self.board.clear_full_rows();
            proof {
                lemma_kept_len(pre.grid_with_piece(input));
            }
            self.score = self.score + n as u64;
            self.active = ActivePiece::spawn(next, w);
            proof {
                lemma_spawn_in_bounds(next, w as int, self.height());
            }
            n
        } else {
            proof {
                lemma_descend_in_bounds(
                    self.active.cells@,
                    vc@,
                    self.board.grid(),
                    w as int,
                    self.height(),
                );
            }
            self.active.set_cells(vc);
            self.active.advance_timer(dt_ms);
            0
        }
    }

    /// A tick whose next piece, if one is needed, is drawn at random.
    pub fn tick_random(&mut self, input: Input, dt_ms: u32) -> (cleared: usize)
        requires
            old(self).wf(),
            old(self).score + old(self).board.height <= u64::MAX,
        ensures
            final(self).wf(),
            exists|k: ShapeKind| old(self).steps_to(final(self), input, dt_ms as int, k),
            cleared == old(self).lines_cleared(input),
    {
        let next = ShapeKind::random();
        self.tick(input, dt_ms, next)
    }
}

/// Within one tick a piece that is not locked descends by at most one row,
/// whether soft drop is held, its timer has run out, or both.
pub proof fn lemma_descends_at_most_one_row(
    pre: GameState,
    post: GameState,
    input: Input,
    dt: int,
    next: ShapeKind,
)
    requires
        pre.wf(),
        pre.steps_to(&post, input, dt, next),
        !pre.locks(input),
    ensures
        post.active.cells@.len() == pre.active.cells@.len(),
        forall|i: int|
            0 <= i < pre.active.cells@.len() ==> #[trigger] post.active.cells@[i].y
                == pre.active.cells@[i].y || post.active.cells@[i].y == pre.active.cells@[i].y + 1,
{
    lemma_shift_in_bounds(pre.active.cells@, input, pre.width(), pre.height());
    let a = pre.after_horizontal(input);
    assert forall|i: int| 0 <= i < a.len() implies (#[trigger] a[i]).y == pre.active.cells@[i].y
        && in_bounds(a[i], pre.width(), pre.height()) by {
        assert(in_bounds(pre.active.cells@[i], pre.width(), pre.height()));
        assert(in_bounds(shifted_h(pre.active.cells@, input, pre.width())[i], pre.width(), pre.height()));
    }
}

/// A tick adds one point per row it clears to the score, and never lowers it.
pub proof fn lemma_score_counts_cleared_rows(
    pre: GameState,
    post: GameState,
    input: Input,
    dt: int,
    next: ShapeKind,
)
    requires
        pre.steps_to(&post, input, dt, next),
    ensures
        post.score == pre.score + pre.lines_cleared(input),
        post.score >= pre.score,
{
}

/// A piece that has just spawned and cannot descend ends the game, and the
/// board and the score stay as they were.
pub proof fn lemma_blocked_spawn_ends_game(
    pre: GameState,
    post: GameState,
    input: Input,
    dt: int,
    next: ShapeKind,
    spawned: ShapeKind,
)
    requires
        pre.wf(),
        !pre.game_over,
        pre.active.cells@ == spawn_cells(spawned, pre.width()),
        pre.blocked(input),
        pre.steps_to(&post, input, dt, next),
    ensures
        post.game_over,
        post.board.grid() == pre.board.grid(),
        post.score == pre.score,
{
    lemma_spawn_in_bounds(spawned, pre.width(), pre.height());
    lemma_shift_in_bounds(pre.active.cells@, input, pre.width(), pre.height());
    let c = pre.active.cells@;
    let i = choose|i: int| 0 <= i < c.len() && (#[trigger] c[i]).y <= 0;
    let a = pre.after_horizontal(input);
    assert(a[i].y == c[i].y);
    assert(reaches_top(a));
}

/// Once the game is over, a tick changes nothing.
pub proof fn lemma_game_over_is_final(
    pre: GameState,
    post: GameState,
    input: Input,
    dt: int,
    next: ShapeKind,
)
    requires
        pre.game_over,
        pre.steps_to(&post, input, dt, next),
    ensures
        post.game_over,
        post.active.cells@ == pre.active.cells@,
        post.board.grid() == pre.board.grid(),
        post.score == pre.score,
{
}

proof fn lemma_spawn_in_bounds(k: ShapeKind, w: int, h: int)
    requires
        MIN_SPAWN_WIDTH <= w <= MAX_BOARD_DIM,
        MIN_BOARD_HEIGHT <= h,
    ensures
        spawn_cells(k, w).len() > 0,
        all_in_bounds(spawn_cells(k, w), w, h),
        reaches_top(spawn_cells(k, w)),
{
    lemma_offsets_bounded(k);
    let s = spawn_cells(k, w);
    assert forall|i: int| 0 <= i < s.len() implies in_bounds(#[trigger] s[i], w, h) by {
        assert(-1 <= shape_offsets(k)[i].x <= 2);
    }
    let i = choose|i: int| 0 <= i < 4 && #[trigger] shape_offsets(k)[i].y == 0;
    assert(s[i].y <= 0);
}

proof fn lemma_shift_in_bounds(cells: Seq<GridPosition>, input: Input, w: int, h: int)
    requires
        1 <= w <= MAX_BOARD_DIM,
        all_in_bounds(cells, w, h),
    ensures
        shifted_h(cells, input, w).len() == cells.len(),
        all_in_bounds(shifted_h(cells, input, w), w, h),
        forall|i: int|
            0 <= i < cells.len() ==> (#[trigger] shifted_h(cells, input, w)[i]).y == cells[i].y,
{
    let s = shifted_h(cells, input, w);
    assert forall|i: int| 0 <= i < s.len() implies in_bounds(#[trigger] s[i], w, h) && s[i].y
        == cells[i].y by {
        assert(in_bounds(cells[i], w, h));
    }
}

proof fn lemma_descend_in_bounds(
    cells: Seq<GridPosition>,
    vc: Seq<GridPosition>,
    g: Seq<Seq<Option<crate::shape::PieceColor>>>,
    w: int,
    h: int,
)
    requires
        all_in_bounds(cells, w, h),
        vc.len() == cells.len(),
        forall|i: int|
            0 <= i < cells.len() ==> (#[trigger] vc[i]).x == cells[i].x && (vc[i].y == cells[i].y
                || vc[i].y == cells[i].y + 1),
        !collides_spec(g, w, h, vc),
    ensures
        all_in_bounds(vc, w, h),
{
    assert forall|i: int| 0 <= i < vc.len() implies in_bounds(#[trigger] vc[i], w, h) by {
        assert(!crate::board::hits(g, w, h, vc[i]));
        assert(in_bounds(cells[i], w, h));
    }
}

} // verus!
