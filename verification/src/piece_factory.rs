use vstd::prelude::*;

use crate::piece::{Color, Piece, Position, RotationType, Square};

verus! {

/// The shared spawn anchor: every freshly built piece places its first
/// square here, far away from the play field until the board repositions it.
pub const SPAWN_X: isize = 100;

pub const SPAWN_Y: isize = 100;

/// The seven tetromino shapes.
#[derive(Copy, Clone, Debug, PartialEq, Eq, Structural, Hash)]
pub enum PieceType {
    T,
    LeftL,
    RightL,
    LeftSkew,
    RightSkew,
    Square,
    Straight,
}

/// The four cell offsets of each shape from the spawn anchor, in the order
/// the squares are built; the first entry is always the anchor itself.
pub open spec fn spawn_offsets(t: PieceType) -> Seq<(int, int)> {
    match t {
        PieceType::T => seq![(0, 0), (-1, 0), (1, 0), (0, 1)],
        PieceType::LeftL => seq![(0, 0), (-1, 0), (1, 0), (-1, 1)],
        PieceType::RightL => seq![(0, 0), (-1, 0), (1, 0), (1, 1)],
        PieceType::LeftSkew => seq![(0, 0), (-1, 0), (0, 1), (1, 1)],
        PieceType::RightSkew => seq![(0, 0), (1, 0), (-1, 1), (0, 1)],
        PieceType::Square => seq![(0, 0), (1, 0), (0, 1), (1, 1)],
        PieceType::Straight => seq![(0, 0), (-1, 0), (1, 0), (2, 0)],
    }
}

/// The fixed color of each shape.
pub open spec fn type_color(t: PieceType) -> Color {
    match t {
        PieceType::T => Color::Purple,
        PieceType::LeftL => Color::DarkBlue,
        PieceType::RightL => Color::Orange,
        PieceType::LeftSkew => Color::Green,
        PieceType::RightSkew => Color::Red,
        PieceType::Square => Color::Yellow,
        PieceType::Straight => Color::Cyan,
    }
}

/// The shapes whose natural center lies between cells rotate around a fixed
/// point; all others rotate around one of their own squares.
pub open spec fn uses_point_pivot(t: PieceType) -> bool {
    t == PieceType::Square || t == PieceType::Straight
}

/// `p` is exactly the piece of type `t` as the factory builds it, with its
/// anchor at (`ax`, `ay`): four squares at the type's fixed offsets, the
/// type's fixed color, and the type's rotation convention (a fixed-point
/// pivot sits on the anchor).
pub open spec fn is_piece_at(p: Piece, t: PieceType, ax: int, ay: int) -> bool {
    &&& p.squares@.len() == 4
    &&& forall|i: int|
        0 <= i < 4 ==> {
            &&& p.squares@[i].position.x as int == ax + #[trigger] spawn_offsets(t)[i].0
            &&& p.squares@[i].position.y as int == ay + spawn_offsets(t)[i].1
            &&& p.squares@[i].color == type_color(t)
        }
    &&& p.rotation == if uses_point_pivot(t) {
        RotationType::AroundPoint(Position { x: ax as isize, y: ay as isize })
    } else {
        RotationType::AroundSquare
    }
    &&& p.piece_type == t
}

/// `p` is a freshly built piece of type `t`, still at the spawn anchor.
pub open spec fn is_spawn_piece(p: Piece, t: PieceType) -> bool {
    is_piece_at(p, t, SPAWN_X as int, SPAWN_Y as int)
}

/// Every shape is four cells, the first of which is the anchor itself, and
/// no cell lies more than two columns or one row away from the anchor.
pub proof fn lemma_spawn_offsets_bounds(t: PieceType)
    ensures
        spawn_offsets(t).len() == 4,
        spawn_offsets(t)[0] == (0int, 0int),
        forall|i: int|
            0 <= i < 4 ==> -1 <= (#[trigger] spawn_offsets(t)[i]).0 <= 2 && 0 <= spawn_offsets(
                t,
            )[i].1 <= 1,
{
    match t {
        PieceType::T => {
            assert(forall|i: int|
                0 <= i < 4 ==> -1 <= (#[trigger] spawn_offsets(t)[i]).0 <= 2 && 0 <= spawn_offsets(
                    t,
                )[i].1 <= 1);
        },
        PieceType::LeftL => {
            assert(forall|i: int|
                0 <= i < 4 ==> -1 <= (#[trigger] spawn_offsets(t)[i]).0 <= 2 && 0 <= spawn_offsets(
                    t,
                )[i].1 <= 1);
        },
        PieceType::RightL => {
            assert(forall|i: int|
                0 <= i < 4 ==> -1 <= (#[trigger] spawn_offsets(t)[i]).0 <= 2 && 0 <= spawn_offsets(
                    t,
                )[i].1 <= 1);
        },
        PieceType::LeftSkew => {
            assert(forall|i: int|
                0 <= i < 4 ==> -1 <= (#[trigger] spawn_offsets(t)[i]).0 <= 2 && 0 <= spawn_offsets(
                    t,
                )[i].1 <= 1);
        },
        PieceType::RightSkew => {
            assert(forall|i: int|
                0 <= i < 4 ==> -1 <= (#[trigger] spawn_offsets(t)[i]).0 <= 2 && 0 <= spawn_offsets(
                    t,
                )[i].1 <= 1);
        },
        PieceType::Square => {
            assert(forall|i: int|
                0 <= i < 4 ==> -1 <= (#[trigger] spawn_offsets(t)[i]).0 <= 2 && 0 <= spawn_offsets(
                    t,
                )[i].1 <= 1);
        },
        PieceType::Straight => {
            assert(forall|i: int|
                0 <= i < 4 ==> -1 <= (#[trigger] spawn_offsets(t)[i]).0 <= 2 && 0 <= spawn_offsets(
                    t,
                )[i].1 <= 1);
        },
    }
}

/// A factory-built piece that is rigidly moved keeps its shape: it is the
/// same piece anchored at the shifted point.
pub proof fn lemma_translated_piece_at(
    p0: Piece,
    p1: Piece,
    t: PieceType,
    ax: int,
    ay: int,
    dx: int,
    dy: int,
)
    requires
        is_piece_at(p0, t, ax, ay),
        crate::piece::is_translated(p0, p1, dx, dy),
    ensures
        is_piece_at(p1, t, ax + dx, ay + dy),
{
    assert forall|i: int| 0 <= i < 4 implies {
        &&& p1.squares@[i].position.x as int == (ax + dx) + #[trigger] spawn_offsets(t)[i].0
        &&& p1.squares@[i].position.y as int == (ay + dy) + spawn_offsets(t)[i].1
        &&& p1.squares@[i].color == type_color(t)
    } by {
        assert(p0.squares@[i].position.x as int == ax + spawn_offsets(t)[i].0);
        assert(p1.squares@[i].position.x as int == p0.squares@[i].position.x as int + dx);
    }
    lemma_spawn_offsets_bounds(t);
    assert(p0.squares@[0].position.x as int == ax + spawn_offsets(t)[0].0);
    assert(p0.squares@[0].position.x as int == ax);
    assert(p0.squares@[0].position.y as int == ay);
    match (p0.rotation, p1.rotation) {
        (RotationType::AroundPoint(a), RotationType::AroundPoint(b)) => {
            assert(a == (Position { x: ax as isize, y: ay as isize }));
            assert(a.x as int == ax && a.y as int == ay);
            assert(b.x as int == ax + dx && b.y as int == ay + dy);
            assert(b == (Position { x: (ax + dx) as isize, y: (ay + dy) as isize }));
        },
        _ => {},
    }
}

/// Pure factory for the seven shapes: spawn geometry, color tag, and
/// rotation pivot convention.
pub struct PieceFactory;

impl PieceFactory {
    /// Build the piece of the given type at the spawn anchor. Deterministic,
    /// pure, no failure mode.
    pub fn get_piece(piece_type: PieceType) -> (r: Piece)
        ensures
            is_spawn_piece(r, piece_type),
            r.wf(),
    {
        match piece_type {
            PieceType::T => Self::get_t_piece(),
            PieceType::LeftL => Self::get_left_l_piece(),
            PieceType::RightL => Self::get_right_l_piece(),
            PieceType::LeftSkew => Self::get_left_skew_piece(),
            PieceType::RightSkew => Self::get_right_skew_piece(),
            PieceType::Square => Self::get_square_piece(),
            PieceType::Straight => Self::get_straight_piece(),
        }
    }

    fn build(
        off1x: isize,
        off1y: isize,
        off2x: isize,
        off2y: isize,
        off3x: isize,
        off3y: isize,
        color: Color,
        rotation: RotationType,
        piece_type: PieceType,
    ) -> (r: Piece)
        requires
            -2 <= off1x <= 2 && -2 <= off1y <= 2,
            -2 <= off2x <= 2 && -2 <= off2y <= 2,
            -2 <= off3x <= 2 && -2 <= off3y <= 2,
        ensures
            r.squares@.len() == 4,
            r.squares@[0].position == (Position { x: SPAWN_X, y: SPAWN_Y }),
            r.squares@[1].position.x as int == SPAWN_X as int + off1x as int,
            r.squares@[1].position.y as int == SPAWN_Y as int + off1y as int,
            r.squares@[2].position.x as int == SPAWN_X as int + off2x as int,
            r.squares@[2].position.y as int == SPAWN_Y as int + off2y as int,
            r.squares@[3].position.x as int == SPAWN_X as int + off3x as int,
            r.squares@[3].position.y as int == SPAWN_Y as int + off3y as int,
            forall|i: int| 0 <= i < 4 ==> (#[trigger] r.squares@[i]).color == color,
            r.rotation == rotation,
            r.piece_type == piece_type,
    {
        let mut squares: Vec<Square> = Vec::new();
        squares.push(Square::new(Position::new(SPAWN_X, SPAWN_Y), color));
        squares.push(Square::new(Position::new(SPAWN_X + off1x, SPAWN_Y + off1y), color));
        squares.push(Square::new(Position::new(SPAWN_X + off2x, SPAWN_Y + off2y), color));
        squares.push(Square::new(Position::new(SPAWN_X + off3x, SPAWN_Y + off3y), color));
        Piece::new(squares, rotation, piece_type)
    }

    fn get_t_piece() -> (r: Piece)
        ensures
            is_spawn_piece(r, PieceType::T),
    {
        Self::build(
            -1,
            0,
            1,
            0,
            0,
            1,
            Color::Purple,
            RotationType::AroundSquare,
            PieceType::T,
        )
    }

    fn get_left_l_piece() -> (r: Piece)
        ensures
            is_spawn_piece(r, PieceType::LeftL),
    {
        Self::build(
            -1,
            0,
            1,
            0,
            -1,
            1,
            Color::DarkBlue,
            RotationType::AroundSquare,
            PieceType::LeftL,
        )
    }

    fn get_right_l_piece() -> (r: Piece)
        ensures
            is_spawn_piece(r, PieceType::RightL),
    {
        Self::build(
            -1,
            0,
            1,
            0,
            1,
            1,
            Color::Orange,
            RotationType::AroundSquare,
            PieceType::RightL,
        )
    }

    fn get_left_skew_piece() -> (r: Piece)
        ensures
            is_spawn_piece(r, PieceType::LeftSkew),
    {
        Self::build(
            -1,
            0,
            0,
            1,
            1,
            1,
            Color::Green,
            RotationType::AroundSquare,
            PieceType::LeftSkew,
        )
    }

    fn get_right_skew_piece() -> (r: Piece)
        ensures
            is_spawn_piece(r, PieceType::RightSkew),
    {
        Self::build(
            1,
            0,
            -1,
            1,
            0,
            1,
            Color::Red,
            RotationType::AroundSquare,
            PieceType::RightSkew,
        )
    }

    fn get_square_piece() -> (r: Piece)
        ensures
            is_spawn_piece(r, PieceType::Square),
    {
        Self::build(
            1,
            0,
            0,
            1,
            1,
            1,
            Color::Yellow,
            RotationType::AroundPoint(Position { x: SPAWN_X, y: SPAWN_Y }),
            PieceType::Square,
        )
    }

    fn get_straight_piece() -> (r: Piece)
        ensures
            is_spawn_piece(r, PieceType::Straight),
    {
        Self::build(
            -1,
            0,
            1,
            0,
            2,
            0,
            Color::Cyan,
            RotationType::AroundPoint(Position { x: SPAWN_X, y: SPAWN_Y }),
            PieceType::Straight,
        )
    }
}

} // verus!
