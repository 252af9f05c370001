use vstd::prelude::*;
use crate::position::GridPosition;
use rand::Rng;

verus! {

/// Display color of a cell; `Background` is the color of an empty slot.
#[derive(Clone, Copy, Debug, PartialEq, Eq, Structural)]
pub enum PieceColor {
    Background,
    Gold,
    Teal,
    Navy,
    YellowGreen,
    DarkGreen,
    DarkMagenta,
    BlueViolet,
}

/// The seven shapes of the catalog. Pieces never rotate, so each
/// orientation that the game offers is a shape of its own.
#[derive(Clone, Copy, Debug, PartialEq, Eq, Structural)]
pub enum ShapeKind {
    /// `##` over `##`
    Square,
    /// `####`
    Bar,
    /// ` #` over `###`
    Tee,
    /// `  #` over `###`
    RightHook,
    /// `#` over `###`
    LeftHook,
    /// `##` over ` ##`
    SkewLeft,
    /// ` ##` over `##`
    SkewRight,
}

/// Number of shapes in the catalog.
pub const SHAPE_COUNT: u8 = 7;

/// Narrowest board on which every shape spawns inside the columns.
pub const MIN_SPAWN_WIDTH: usize = 5;

/// Position of a shape's catalog entry, `0..SHAPE_COUNT`.
pub open spec fn shape_index(k: ShapeKind) -> int {
    match k {
        ShapeKind::Square => 0,
        ShapeKind::Bar => 1,
        ShapeKind::Tee => 2,
        ShapeKind::RightHook => 3,
        ShapeKind::LeftHook => 4,
        ShapeKind::SkewLeft => 5,
        ShapeKind::SkewRight => 6,
    }
}

pub open spec fn pos(x: int, y: int) -> GridPosition {
    GridPosition { x: x as i32, y: y as i32 }
}

/// Cell offsets of a shape relative to its spawn anchor (the board's middle
/// column, row 0).
pub open spec fn shape_offsets(k: ShapeKind) -> Seq<GridPosition> {
    match k {
        ShapeKind::Square => seq![pos(0, 0), pos(1, 0), pos(0, 1), pos(1, 1)],
        ShapeKind::Bar => seq![pos(-1, 0), pos(0, 0), pos(1, 0), pos(2, 0)],
        ShapeKind::Tee => seq![pos(0, 0), pos(-1, 1), pos(0, 1), pos(1, 1)],
        ShapeKind::RightHook => seq![pos(1, 0), pos(-1, 1), pos(0, 1), pos(1, 1)],
        ShapeKind::LeftHook => seq![pos(-1, 0), pos(-1, 1), pos(0, 1), pos(1, 1)],
        ShapeKind::SkewLeft => seq![pos(-1, 0), pos(0, 0), pos(0, 1), pos(1, 1)],
        ShapeKind::SkewRight => seq![pos(0, 0), pos(1, 0), pos(-1, 1), pos(0, 1)],
    }
}

pub open spec fn shape_color(k: ShapeKind) -> PieceColor {
    match k {
        ShapeKind::Square => PieceColor::Gold,
        ShapeKind::Bar => PieceColor::Teal,
        ShapeKind::Tee => PieceColor::Navy,
        ShapeKind::RightHook => PieceColor::YellowGreen,
        ShapeKind::LeftHook => PieceColor::DarkGreen,
        ShapeKind::SkewLeft => PieceColor::DarkMagenta,
        ShapeKind::SkewRight => PieceColor::BlueViolet,
    }
}

/// Absolute cells of a freshly spawned shape: its offsets moved so that the
/// anchor sits in the middle column of a board `width` columns wide, top row 0.
pub open spec fn spawn_cells(k: ShapeKind, width: int) -> Seq<GridPosition> {
    shape_offsets(k).map_values(|o: GridPosition| pos(o.x + width / 2, o.y as int))
}

/// Relies on rand's `Rng::gen_range` on the thread-local generator: for a
/// non-empty range `0..n` it returns a value below `n`, drawn uniformly.
#[verifier::external_body]
fn random_below(n: u8) -> (r: u8)
    requires
        n > 0,
    ensures
        r < n,
{
    rand::thread_rng().gen_range(0..n)
}

impl ShapeKind {
    /// The catalog entry at `index`.
    pub fn from_index(index: u8) -> (r: ShapeKind)
        requires
            index < SHAPE_COUNT,
        ensures
            shape_index(r) == index,
    {
        match index {
            0 => ShapeKind::Square,
            1 => ShapeKind::Bar,
            2 => ShapeKind::Tee,
            3 => ShapeKind::RightHook,
            4 => ShapeKind::LeftHook,
            5 => ShapeKind::SkewLeft,
            _ => ShapeKind::SkewRight,
        }
    }

    /// A shape drawn uniformly from the catalog.
    pub fn random() -> (r: ShapeKind)
        ensures
            0 <= shape_index(r) < SHAPE_COUNT,
    {
        ShapeKind::from_index(random_below(SHAPE_COUNT))
    }

    pub fn color(&self) -> (r: PieceColor)
        ensures
            r == shape_color(*self),
    {
        match self {
            ShapeKind::Square => PieceColor::Gold,
            ShapeKind::Bar => PieceColor::Teal,
            ShapeKind::Tee => PieceColor::Navy,
            ShapeKind::RightHook => PieceColor::YellowGreen,
            ShapeKind::LeftHook => PieceColor::DarkGreen,
            ShapeKind::SkewLeft => PieceColor::DarkMagenta,
            ShapeKind::SkewRight => PieceColor::BlueViolet,
        }
    }

    /// Cell offsets relative to the spawn anchor.
    pub fn offsets(&self) -> (r: Vec<GridPosition>)
        ensures
            r@ == shape_offsets(*self),
    {
        let v = match self {
            ShapeKind::Square => vec![
                GridPosition::new(0, 0),
                GridPosition::new(1, 0),
                GridPosition::new(0, 1),
                GridPosition::new(1, 1),
            ],
            ShapeKind::Bar => vec![
                GridPosition::new(-1, 0),
                GridPosition::new(0, 0),
                GridPosition::new(1, 0),
                GridPosition::new(2, 0),
            ],
            ShapeKind::Tee => vec![
                GridPosition::new(0, 0),
                GridPosition::new(-1, 1),
                GridPosition::new(0, 1),
                GridPosition::new(1, 1),
            ],
            ShapeKind::RightHook => vec![
                GridPosition::new(1, 0),
                GridPosition::new(-1, 1),
                GridPosition::new(0, 1),
                GridPosition::new(1, 1),
            ],
            ShapeKind::LeftHook => vec![
                GridPosition::new(-1, 0),
                GridPosition::new(-1, 1),
                GridPosition::new(0, 1),
                GridPosition::new(1, 1),
            ],
            ShapeKind::SkewLeft => vec![
                GridPosition::new(-1, 0),
                GridPosition::new(0, 0),
                GridPosition::new(0, 1),
                GridPosition::new(1, 1),
            ],
            ShapeKind::SkewRight => vec![
                GridPosition::new(0, 0),
                GridPosition::new(1, 0),
                GridPosition::new(-1, 1),
                GridPosition::new(0, 1),
            ],
        };
        assert(v@ =~= shape_offsets(*self));
        v
    }
}

/// Every offset lies in columns `-1..=2` and rows `0..=1`.
pub proof fn lemma_offsets_bounded(k: ShapeKind)
    ensures
        shape_offsets(k).len() == 4,
        forall|i: int|
            0 <= i < 4 ==> -1 <= #[trigger] shape_offsets(k)[i].x <= 2 && 0
                <= shape_offsets(k)[i].y <= 1,
        exists|i: int| 0 <= i < 4 && #[trigger] shape_offsets(k)[i].y == 0,
{
    assert(shape_offsets(k)[0].y == 0 || shape_offsets(k)[1].y == 0);
}

} // verus!
