use vstd::prelude::*;
use crate::position::GridPosition;
use crate::shape::{pos, PieceColor};

verus! {

/// Largest board side accepted, in cells.
pub const MAX_BOARD_DIM: usize = 65536;

/// One slot of the board. Only `filled` is authoritative: the color and
/// origin of an empty slot carry no meaning.
#[derive(Clone, Copy, Debug, PartialEq, Eq, Structural)]
pub struct BoardCell {
    pub color: PieceColor,
    pub origin: GridPosition,
    pub filled: bool,
}

pub open spec fn zero_cell() -> BoardCell {
    BoardCell { color: PieceColor::Background, origin: pos(0, 0), filled: false }
}

impl BoardCell {
    /// A filled slot of `color` that records its own coordinate.
    pub fn new(color: PieceColor, origin: GridPosition) -> (r: BoardCell)
        ensures
            r == (BoardCell { color, origin, filled: true }),
    {
        BoardCell { color, origin, filled: true }
    }

    /// An empty slot.
    pub fn zero() -> (r: BoardCell)
        ensures
            r == zero_cell(),
    {
        BoardCell { color: PieceColor::Background, origin: GridPosition::new(0, 0), filled: false }
    }
}

/// What a slot shows: the color of a filled slot, nothing for an empty one.
pub open spec fn cell_view(c: BoardCell) -> Option<PieceColor> {
    if c.filled {
        Some(c.color)
    } else {
        None
    }
}

pub open spec fn row_view(r: Vec<BoardCell>) -> Seq<Option<PieceColor>> {
    r@.map_values(|c: BoardCell| cell_view(c))
}

/// Every filled slot records the coordinate at which it is stored.
pub open spec fn origins_match(rows: Seq<Vec<BoardCell>>) -> bool {
    forall|y: int, x: int|
        0 <= y < rows.len() && 0 <= x < rows[y]@.len() && (#[trigger] rows[y]@[x]).filled
            ==> rows[y]@[x].origin == pos(x, y)
}

pub open spec fn in_bounds(p: GridPosition, w: int, h: int) -> bool {
    0 <= p.x < w && 0 <= p.y < h
}

/// A cell collides when it is below the bottom row or on a filled slot.
pub open spec fn hits(g: Seq<Seq<Option<PieceColor>>>, w: int, h: int, p: GridPosition) -> bool {
    p.y >= h || (in_bounds(p, w, h) && g[p.y as int][p.x as int] is Some)
}

pub open spec fn collides_spec(
    g: Seq<Seq<Option<PieceColor>>>,
    w: int,
    h: int,
    cells: Seq<GridPosition>,
) -> bool {
    exists|i: int| 0 <= i < cells.len() && #[trigger] hits(g, w, h, cells[i])
}

/// Some cell of `cells` sits at `(x, y)`.
pub open spec fn covers(cells: Seq<GridPosition>, x: int, y: int) -> bool {
    exists|i: int| 0 <= i < cells.len() && (#[trigger] cells[i]).x == x && cells[i].y == y
}

/// The grid with every slot under `cells` filled with `color`.
pub open spec fn locked(
    g: Seq<Seq<Option<PieceColor>>>,
    cells: Seq<GridPosition>,
    color: PieceColor,
) -> Seq<Seq<Option<PieceColor>>> {
    Seq::new(
        g.len(),
        |y: int|
            Seq::new(
                g[y].len(),
                |x: int|
                    if covers(cells, x, y) {
                        Some(color)
                    } else {
                        g[y][x]
                    },
            ),
    )
}

pub open spec fn empty_row(w: int) -> Seq<Option<PieceColor>> {
    Seq::new(w as nat, |x: int| None)
}

/// Every slot of the row is filled.
pub open spec fn row_full(r: Seq<Option<PieceColor>>) -> bool {
    forall|x: int| 0 <= x < r.len() ==> (#[trigger] r[x]) is Some
}

/// No slot of the row is filled.
pub open spec fn row_empty(r: Seq<Option<PieceColor>>) -> bool {
    forall|x: int| 0 <= x < r.len() ==> (#[trigger] r[x]) is None
}

/// A row that survives a clear: neither full (cleared) nor empty (a gap).
pub open spec fn row_kept(r: Seq<Option<PieceColor>>) -> bool {
    !row_full(r) && !row_empty(r)
}

/// The rows that survive a clear, top to bottom, in their order.
pub open spec fn kept_rows(g: Seq<Seq<Option<PieceColor>>>) -> Seq<Seq<Option<PieceColor>>>
    decreases g.len(),
{
    if g.len() == 0 {
        seq![]
    } else if row_kept(g.last()) {
        kept_rows(g.drop_last()).push(g.last())
    } else {
        kept_rows(g.drop_last())
    }
}

/// Number of full rows.
pub open spec fn full_count(g: Seq<Seq<Option<PieceColor>>>) -> nat
    decreases g.len(),
{
    if g.len() == 0 {
        0
    } else {
        full_count(g.drop_last()) + if row_full(g.last()) {
            1nat
        } else {
            0nat
        }
    }
}

/// The grid after a clear: the surviving rows pulled down to the bottom in
/// their order, empty rows above them.
pub open spec fn settled(g: Seq<Seq<Option<PieceColor>>>, w: int) -> Seq<Seq<Option<PieceColor>>> {
    Seq::new((g.len() - kept_rows(g).len()) as nat, |i: int| empty_row(w)) + kept_rows(g)
}

pub proof fn lemma_kept_len(g: Seq<Seq<Option<PieceColor>>>)
    ensures
        kept_rows(g).len() + full_count(g) <= g.len(),
    decreases g.len(),
{
    if g.len() > 0 {
        lemma_kept_len(g.drop_last());
    }
}

/// Number of filled slots in a row.
pub open spec fn row_filled(r: Seq<Option<PieceColor>>) -> nat
    decreases r.len(),
{
    if r.len() == 0 {
        0
    } else {
        row_filled(r.drop_last()) + if r.last() is Some {
            1nat
        } else {
            0nat
        }
    }
}

/// Number of filled slots in a grid.
pub open spec fn filled_total(g: Seq<Seq<Option<PieceColor>>>) -> nat
    decreases g.len(),
{
    if g.len() == 0 {
        0
    } else {
        filled_total(g.drop_last()) + row_filled(g.last())
    }
}

proof fn lemma_row_filled_extremes(r: Seq<Option<PieceColor>>)
    ensures
        row_full(r) ==> row_filled(r) == r.len(),
        row_empty(r) ==> row_filled(r) == 0,
    decreases r.len(),
{
    if r.len() > 0 {
        let d = r.drop_last();
        assert(row_full(r) ==> row_full(d)) by {
            assert forall|x: int| 0 <= x < d.len() implies (#[trigger] d[x]) == r[x] by {}
        }
        assert(row_empty(r) ==> row_empty(d)) by {
            assert forall|x: int| 0 <= x < d.len() implies (#[trigger] d[x]) == r[x] by {}
        }
        lemma_row_filled_extremes(d);
        assert(r.last() == r[r.len() - 1]);
    }
}

proof fn lemma_total_append(a: Seq<Seq<Option<PieceColor>>>, b: Seq<Seq<Option<PieceColor>>>)
    ensures
        filled_total(a + b) == filled_total(a) + filled_total(b),
    decreases b.len(),
{
    if b.len() == 0 {
        assert(a + b =~= a);
    } else {
        assert((a + b).drop_last() =~= a + b.drop_last());
        lemma_total_append(a, b.drop_last());
    }
}

proof fn lemma_total_of_empty_rows(g: Seq<Seq<Option<PieceColor>>>)
    requires
        forall|y: int| 0 <= y < g.len() ==> row_empty(#[trigger] g[y]),
    ensures
        filled_total(g) == 0,
    decreases g.len(),
{
    if g.len() > 0 {
        let d = g.drop_last();
        assert forall|y: int| 0 <= y < d.len() implies row_empty(#[trigger] d[y]) by {
            assert(d[y] == g[y]);
        }
        lemma_total_of_empty_rows(d);
        assert(row_empty(g[g.len() - 1]));
        lemma_row_filled_extremes(g.last());
    }
}

proof fn lemma_total_split(g: Seq<Seq<Option<PieceColor>>>, w: int)
    requires
        forall|y: int| 0 <= y < g.len() ==> (#[trigger] g[y]).len() == w,
    ensures
        filled_total(g) == filled_total(kept_rows(g)) + full_count(g) * w,
    decreases g.len(),
{
    if g.len() > 0 {
        let d = g.drop_last();
        let last = g.last();
        assert(last == g[g.len() - 1]);
        assert forall|y: int| 0 <= y < d.len() implies (#[trigger] d[y]).len() == w by {
            assert(d[y] == g[y]);
        }
        lemma_total_split(d, w);
        lemma_row_filled_extremes(last);
        let kd = kept_rows(d);
        let c = full_count(d);
        if row_kept(last) {
            assert(kd.push(last).drop_last() =~= kd);
        } else if row_full(last) {
            assert((c + 1) * w == c * w + w) by (nonlinear_arith);
        }
    } else {
        let c = full_count(g);
        assert(c * w == 0) by (nonlinear_arith)
            requires
                c == 0,
        ;
    }
}

/// Clearing the full rows of a grid `w` columns wide takes away exactly `w`
/// filled slots per full row; the rows that stay are the grid's rows that
/// were neither full nor empty, in their order and with their colors, now at
/// the bottom under empty rows.
pub proof fn lemma_clear_conserves_cells(g: Seq<Seq<Option<PieceColor>>>, w: int)
    requires
        w >= 1,
        forall|y: int| 0 <= y < g.len() ==> (#[trigger] g[y]).len() == w,
    ensures
        settled(g, w).len() == g.len(),
        filled_total(settled(g, w)) + full_count(g) * w == filled_total(g),
        settled(g, w).subrange(g.len() - kept_rows(g).len(), g.len() as int) == kept_rows(g),
        forall|y: int|
            0 <= y < g.len() - kept_rows(g).len() ==> #[trigger] settled(g, w)[y] == empty_row(w),
{
    lemma_kept_len(g);
    let k = kept_rows(g);
    let e = Seq::new((g.len() - k.len()) as nat, |i: int| empty_row(w));
    assert(settled(g, w) == e + k);
    assert forall|y: int| 0 <= y < e.len() implies row_empty(#[trigger] e[y]) by {}
    lemma_total_of_empty_rows(e);
    lemma_total_append(e, k);
    lemma_total_split(g, w);
    assert((e + k).subrange(g.len() - k.len(), g.len() as int) =~= k);
}

/// A fixed-size grid of locked cells, row 0 on top.
pub struct Board {
    pub width: usize,
    pub height: usize,
    pub rows: Vec<Vec<BoardCell>>,
}

impl Board {
    /// The board as rows of slot contents.
    pub open spec fn grid(&self) -> Seq<Seq<Option<PieceColor>>> {
        self.rows@.map_values(|r: Vec<BoardCell>| row_view(r))
    }

    pub open spec fn wf(&self) -> bool {
        &&& 1 <= self.width <= MAX_BOARD_DIM
        &&& 1 <= self.height <= MAX_BOARD_DIM
        &&& self.rows@.len() == self.height
        &&& forall|y: int| 0 <= y < self.height ==> (#[trigger] self.rows@[y])@.len() == self.width
        &&& origins_match(self.rows@)
    }

    /// An all-empty board `width` columns wide and `height` rows high.
    pub fn new(width: usize, height: usize) -> (r: Board)
        requires
            1 <= width <= MAX_BOARD_DIM,
            1 <= height <= MAX_BOARD_DIM,
        ensures
            r.wf(),
            r.width == width,
            r.height == height,
            r.grid() == Seq::new(height as nat, |y: int| empty_row(width as int)),
    {
        let mut rows: Vec<Vec<BoardCell>> = Vec::new();
        let mut y: usize = 0;
        while y < height
            invariant
                y <= height,
                rows@.len() == y,
                forall|j: int| 0 <= j < y ==> (#[trigger] rows@[j])@.len() == width,
                forall|j: int| 0 <= j < y ==> row_view(#[trigger] rows@[j]) == empty_row(width as int),
                origins_match(rows@),
            decreases height - y,
        {
            let row = empty_row_vec(width);
            rows.push(row);
            y = y + 1;
        }
        let b = Board { width, height, rows };
        assert(b.grid() =~= Seq::new(height as nat, |y: int| empty_row(width as int)));
        b
    }

    /// What the slot at column `x`, row `y` holds.
    pub fn cell_at(&self, x: usize, y: usize) -> (r: Option<PieceColor>)
        requires
            self.wf(),
            x < self.width,
            y < self.height,
        ensures
            r == self.grid()[y as int][x as int],
    {
        let c = self.rows[y][x];
        if c.filled {
            Some(c.color)
        } else {
            None
        }
    }

    /// Whether a piece on `cells` would collide: some cell is below the
    /// bottom row or on a filled slot.
    pub fn collides(&self, cells: &Vec<GridPosition>) -> (r: bool)
        requires
            self.wf(),
        ensures
            r == collides_spec(self.grid(), self.width as int, self.height as int, cells@),
    {
        let h: i32 = self.height as i32;
        let w: i32 = self.width as i32;
        let mut i: usize = 0;
        while i < cells.len()
            invariant
                self.wf(),
                h == self.height,
                w == self.width,
                i <= cells@.len(),
                forall|j: int|
                    0 <= j < i ==> !hits(
                        self.grid(),
                        self.width as int,
                        self.height as int,
                        #[trigger] cells@[j],
                    ),
            decreases cells@.len() - i,
        {
            let p = cells[i];
            if p.y >= h {
                assert(hits(self.grid(), w as int, h as int, cells@[i as int]));
                return true;
            }
            if 0 <= p.x && p.x < w && 0 <= p.y {
                if self.rows[p.y as usize][p.x as usize].filled {
                    assert(hits(self.grid(), w as int, h as int, cells@[i as int]));
                    return true;
                }
            }
            i = i + 1;
        }
        false
    }

    /// Replaces the slot at `(x, y)`.
    fn set_cell(&mut self, x: usize, y: usize, c: BoardCell)
        requires
            old(self).wf(),
            x < old(self).width,
            y < old(self).height,
            c.filled ==> c.origin == pos(x as int, y as int),
        ensures
            final(self).wf(),
            final(self).width == old(self).width,
            final(self).height == old(self).height,
            final(self).rows@ == old(self).rows@.update(
                y as int,
                final(self).rows@[y as int],
            ),
            final(self).rows@[y as int]@ == old(self).rows@[y as int]@.update(x as int, c),
    {
        let mut row: Vec<BoardCell> = Vec::new();
        let mut j: usize = 0;
        while j < self.width
            invariant
                self.wf(),
                x < self.width,
                y < self.height,
                j <= self.width,
                row@ == self.rows@[y as int]@.update(x as int, c).subrange(0, j as int),
            decreases self.width - j,
        {
            if j == x {
                row.push(c);
            } else {
                row.push(self.rows[y][j]);
            }
            j = j + 1;
            assert(row@ =~= self.rows@[y as int]@.update(x as int, c).subrange(0, j as int));
        }
        assert(row@ =~= self.rows@[y as int]@.update(x as int, c));
        let ghost before = self.rows@;
        self.rows.set(y, row);
        assert(self.rows@ =~= before.update(y as int, self.rows@[y as int]));
    }

    /// Fills the slot under each of `cells` with `color`, each recording its
    /// own coordinate as origin.
    pub fn lock(&mut self, cells: &Vec<GridPosition>, color: PieceColor)
        requires
            old(self).wf(),
            forall|i: int|
                0 <= i < cells@.len() ==> in_bounds(
                    #[trigger] cells@[i],
                    old(self).width as int,
                    old(self).height as int,
                ),
        ensures
            final(self).wf(),
            final(self).width == old(self).width,
            final(self).height == old(self).height,
            final(self).grid() == locked(old(self).grid(), cells@, color),
    {
        let ghost g0 = self.grid();
        assert(g0 =~= locked(g0, cells@.subrange(0, 0), color)) by {
            assert forall|y: int| 0 <= y < g0.len() implies (#[trigger] g0[y]) =~= locked(
                g0,
                cells@.subrange(0, 0),
                color,
            )[y] by {}
        }
        let mut i: usize = 0;
        while i < cells.len()
            invariant
                self.wf(),
                self.width == old(self).width,
                self.height == old(self).height,
                g0 == old(self).grid(),
                g0.len() == self.height,
                forall|y: int| 0 <= y < self.height ==> (#[trigger] g0[y]).len() == self.width,
                i <= cells@.len(),
                forall|k: int|
                    0 <= k < cells@.len() ==> in_bounds(
                        #[trigger] cells@[k],
                        self.width as int,
                        self.height as int,
                    ),
                self.grid() == locked(g0, cells@.subrange(0, i as int), color),
            decreases cells@.len() - i,
        {
            let p = cells[i];
            let ghost gb = self.grid();
            let ghost rb = self.rows@;
            self.set_cell(p.x as usize, p.y as usize, BoardCell::new(color, p));
            proof {
                let pre = cells@.subrange(0, i as int);
                let post = cells@.subrange(0, i as int + 1);
                assert forall|y: int, x: int|
                    0 <= y < self.height && 0 <= x < self.width implies #[trigger] covers(post, x, y)
                    == (covers(pre, x, y) || (p.x == x && p.y == y)) by {
                    if covers(pre, x, y) {
                        let k = choose|k: int|
                            0 <= k < pre.len() && (#[trigger] pre[k]).x == x && pre[k].y == y;
                        assert(post[k] == pre[k]);
                    }
                    if p.x == x && p.y == y {
                        assert(post[i as int] == p);
                    }
                    if covers(post, x, y) {
                        let k = choose|k: int|
                            0 <= k < post.len() && (#[trigger] post[k]).x == x && post[k].y == y;
                        if k < i {
                            assert(pre[k] == post[k]);
                        }
                    }
                }
                assert forall|y: int| 0 <= y < self.height implies (#[trigger] self.grid()[y])
                    == locked(g0, post, color)[y] by {
                    assert forall|x: int| 0 <= x < self.width implies (#[trigger] self.grid()[y][x])
                        == locked(g0, post, color)[y][x] by {
                        assert(covers(post, x, y) == (covers(pre, x, y) || (p.x == x && p.y == y)));
                        if !(p.x == x && p.y == y) {
                            assert(self.rows@[y]@[x] == rb[y]@[x]);
                            assert(gb[y][x] == locked(g0, pre, color)[y][x]);
                        }
                    }
                    assert(self.grid()[y] =~= locked(g0, post, color)[y]);
                }
                assert(self.grid() =~= locked(g0, post, color));
            }
            i = i + 1;
        }
        assert(cells@.subrange(0, cells@.len() as int) =~= cells@);
    }

    /// Whether every slot of row `y` is filled.
    pub fn row_is_full(&self, y: usize) -> (r: bool)
        requires
            self.wf(),
            y < self.height,
        ensures
            r == row_full(self.grid()[y as int]),
    {
        let ghost r = self.grid()[y as int];
        let mut x: usize = 0;
        while x < self.width
            invariant
                self.wf(),
                y < self.height,
                r == self.grid()[y as int],
                x <= self.width,
                forall|j: int| 0 <= j < x ==> (#[trigger] r[j]) is Some,
            decreases self.width - x,
        {
            if !self.rows[y][x].filled {
                assert(r[x as int] is None);
                return false;
            }
            x = x + 1;
        }
        true
    }

    /// Whether no slot of row `y` is filled.
    pub fn row_is_empty(&self, y: usize) -> (r: bool)
        requires
            self.wf(),
            y < self.height,
        ensures
            r == row_empty(self.grid()[y as int]),
    {
        let ghost r = self.grid()[y as int];
        let mut x: usize = 0;
        while x < self.width
            invariant
                self.wf(),
                y < self.height,
                r == self.grid()[y as int],
                x <= self.width,
                forall|j: int| 0 <= j < x ==> (#[trigger] r[j]) is None,
            decreases self.width - x,
        {
            if self.rows[y][x].filled {
                assert(r[x as int] is Some);
                return false;
            }
            x = x + 1;
        }
        true
    }

    /// A copy of row `src` whose filled slots record row `y` as theirs.
    fn restamped_row(&self, src: usize, y: usize) -> (r: Vec<BoardCell>)
        requires
            self.wf(),
            src < self.height,
            y < self.height,
        ensures
            r@.len() == self.width,
            row_view(r) == self.grid()[src as int],
            forall|x: int|
                0 <= x < r@.len() && (#[trigger] r@[x]).filled ==> r@[x].origin == pos(x, y as int),
    {
        let mut r: Vec<BoardCell> = Vec::new();
        let mut x: usize = 0;
        while x < self.width
            invariant
                self.wf(),
                src < self.height,
                y < self.height,
                x <= self.width,
                r@.len() == x,
                forall|j: int| 0 <= j < x ==> cell_view(#[trigger] r@[j]) == self.grid()[src as int][j],
                forall|j: int|
                    0 <= j < x && (#[trigger] r@[j]).filled ==> r@[j].origin == pos(j, y as int),
            decreases self.width - x,
        {
            let c = self.rows[src][x];
            if c.filled {
                r.push(BoardCell::new(c.color, GridPosition::new(x as i32, y as i32)));
            } else {
                r.push(BoardCell::zero());
            }
            x = x + 1;
        }
        assert(row_view(r) =~= self.grid()[src as int]);
        r
    }

    /// Empties every full row, pulls the remaining non-empty rows down to the
    /// bottom in their order, and returns how many rows were full. Every
    /// filled slot records its new coordinate afterwards.
    pub fn clear_full_rows(&mut self) -> (n: usize)
        requires
            old(self).wf(),
        ensures
            final(self).wf(),
            final(self).width == old(self).width,
            final(self).height == old(self).height,
            n == full_count(old(self).grid()),
            final(self).grid() == settled(old(self).grid(), old(self).width as int),
            origins_match(final(self).rows@),
    {
        let ghost g = self.grid();
        let mut n: usize = 0;
        let mut kept: Vec<usize> = Vec::new();
        let mut y: usize = 0;
        while y < self.height
            invariant
                self.wf(),
                g == self.grid(),
                y <= self.height,
                n == full_count(g.subrange(0, y as int)),
                n <= y,
                kept@.len() == kept_rows(g.subrange(0, y as int)).len(),
                forall|j: int|
                    0 <= j < kept@.len() ==> #[trigger] kept@[j] < y && g[kept@[j] as int]
                        == kept_rows(g.subrange(0, y as int))[j],
            decreases self.height - y,
        {
            let ghost pre = g.subrange(0, y as int);
            let ghost post = g.subrange(0, y as int + 1);
            assert(post.drop_last() =~= pre);
            assert(post.last() == g[y as int]);
            if self.row_is_full(y) {
                n = n + 1;
            } else if !self.row_is_empty(y) {
                kept.push(y);
                assert(kept_rows(post) == kept_rows(pre).push(g[y as int]));
            }
            y = y + 1;
        }
        assert(g.subrange(0, self.height as int) =~= g);
        proof {
            lemma_kept_len(g);
        }
        let ghost target = settled(g, self.width as int);
        let e: usize = self.height - kept.len();
        let mut rows: Vec<Vec<BoardCell>> = Vec::new();
        let mut i: usize = 0;
        while i < self.height
            invariant
                self.wf(),
                g == self.grid(),
                target == settled(g, self.width as int),
                kept@.len() == kept_rows(g).len(),
                e == self.height - kept@.len(),
                forall|j: int|
                    0 <= j < kept@.len() ==> #[trigger] kept@[j] < self.height && g[kept@[j] as int]
                        == kept_rows(g)[j],
                i <= self.height,
                rows@.len() == i,
                forall|j: int| 0 <= j < i ==> (#[trigger] rows@[j])@.len() == self.width,
                forall|j: int| 0 <= j < i ==> row_view(#[trigger] rows@[j]) == target[j],
                origins_match(rows@),
            decreases self.height - i,
        {
            let ghost before = rows@;
            if i < e {
                let row = empty_row_vec(self.width);
                rows.push(row);
            } else {
                let row = self.restamped_row(kept[i - e], i);
                rows.push(row);
            }
            assert(origins_match(rows@)) by {
                assert forall|j: int, x: int|
                    0 <= j < rows@.len() && 0 <= x < rows@[j]@.len()
                        && (#[trigger] rows@[j]@[x]).filled implies rows@[j]@[x].origin == pos(x, j) by {
                    if j < i {
                        assert(rows@[j] == before[j]);
                    }
                }
            }
            i = i + 1;
        }
        self.rows = rows;
        assert(self.grid() =~= target);
        n
    }
}

/// A row of `width` empty slots.
fn empty_row_vec(width: usize) -> (r: Vec<BoardCell>)
    ensures
        r@.len() == width,
        forall|x: int| 0 <= x < width ==> r@[x] == zero_cell(),
        row_view(r) == empty_row(width as int),
{
    let mut r: Vec<BoardCell> = Vec::new();
    let mut x: usize = 0;
    while x < width
        invariant
            x <= width,
            r@.len() == x,
            forall|j: int| 0 <= j < x ==> r@[j] == zero_cell(),
        decreases width - x,
    {
        r.push(BoardCell::zero());
        x = x + 1;
    }
    assert(row_view(r) =~= empty_row(width as int));
    r
}

} // verus!
