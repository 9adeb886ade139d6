use vstd::prelude::*;

use crate::piece_factory::PieceType;

verus! {

/// An integer 2D coordinate on the grid: column (`x`, 0 is the left edge) and
/// row (`y`, 0 is the bottom row).
#[derive(Copy, Clone, Debug, PartialEq, Eq, Structural)]
pub struct Position {
    pub x: isize,
    pub y: isize,
}

impl Position {
    pub fn new(x: isize, y: isize) -> (r: Position)
        ensures
            r == (Position { x, y }),
    {
        Position { x, y }
    }
}

/// Whether a mathematical integer fits into `isize`.
pub open spec fn fits_isize(v: int) -> bool {
    isize::MIN as int <= v <= isize::MAX as int
}

/// The cosmetic tag carried by every cell; one value per piece shape.
#[derive(Copy, Clone, Debug, PartialEq, Eq, Structural)]
pub enum Color {
    Cyan,
    DarkBlue,
    Orange,
    Yellow,
    Green,
    Purple,
    Red,
}

/// How a piece rotates: around one of its own squares (recomputed each time
/// from the first square's current position), or around a fixed point that
/// travels rigidly with the piece but is not one of its cells.
#[derive(Copy, Clone, Debug, PartialEq, Eq, Structural)]
pub enum RotationType {
    AroundSquare,
    AroundPoint(Position),
}

/// The column of the point obtained by rotating (`px`, `py`) 90 degrees
/// clockwise around the pivot (`cx`, `cy`).
pub open spec fn rotated_cw_x(px: int, py: int, cx: int, cy: int) -> int {
    py - cy + cx
}

/// The row of the point obtained by rotating (`px`, `py`) 90 degrees
/// clockwise around the pivot (`cx`, `cy`).
pub open spec fn rotated_cw_y(px: int, py: int, cx: int, cy: int) -> int {
    -(px - cx) + cy
}

/// Where a point ends up after one rotation step of a piece with rotation
/// convention `rt`. For `AroundSquare` the pivot (`cx`, `cy`) is used; for
/// `AroundPoint` the stored point is the pivot and the result is nudged one
/// column left, which reproduces correct rotation for the shapes whose
/// natural center lies between cells.
pub open spec fn rotate_step(px: int, py: int, rt: RotationType, cx: int, cy: int) -> (int, int) {
    match rt {
        RotationType::AroundSquare => (
            rotated_cw_x(px, py, cx, cy),
            rotated_cw_y(px, py, cx, cy),
        ),
        RotationType::AroundPoint(c) => (
            rotated_cw_x(px, py, c.x as int, c.y as int) - 1,
            rotated_cw_y(px, py, c.x as int, c.y as int),
        ),
    }
}

/// Rotating a point four times by the 90-degree-clockwise formula, with a
/// fixed pivot and a fixed rotation convention, returns it to its original
/// position - for both the pivot-is-a-cell and the pivot-is-a-fixed-point
/// variants.
pub proof fn lemma_rotate_four_times_is_identity(
    px: int,
    py: int,
    rt: RotationType,
    cx: int,
    cy: int,
)
    ensures
        ({
            let (x1, y1) = rotate_step(px, py, rt, cx, cy);
            let (x2, y2) = rotate_step(x1, y1, rt, cx, cy);
            let (x3, y3) = rotate_step(x2, y2, rt, cx, cy);
            let (x4, y4) = rotate_step(x3, y3, rt, cx, cy);
            x4 == px && y4 == py
        }),
{
}

/// `p1` is `p0` shifted `dx` columns and then rotated one step: the limited
/// wall-kick outcome. Each square lands on its rotated position shifted by
/// `dx`, and a fixed-point pivot travels `dx` columns.
pub open spec fn is_rotated_with_shift(p0: Piece, p1: Piece, dx: int) -> bool {
    &&& p1.squares@.len() == p0.squares@.len()
    &&& forall|i: int|
        0 <= i < p0.squares@.len() ==> {
            &&& (#[trigger] p1.squares@[i]).position.x as int == piece_rotated_x(p0, i) + dx
            &&& p1.squares@[i].position.y as int == piece_rotated_y(p0, i)
            &&& p1.squares@[i].color == p0.squares@[i].color
        }
    &&& match (p0.rotation, p1.rotation) {
        (RotationType::AroundSquare, RotationType::AroundSquare) => true,
        (RotationType::AroundPoint(a), RotationType::AroundPoint(b)) => b.x as int == a.x as int
            + dx && b.y == a.y,
        _ => false,
    }
    &&& p1.piece_type == p0.piece_type
}

/// Rotation commutes with a horizontal shift: shifting a piece `dx` columns
/// and rotating it lands every square on its original rotated position
/// shifted by `dx`, because the pivot travels with the piece.
pub proof fn lemma_translate_then_rotate(p0: Piece, pmid: Piece, p1: Piece, dx: int)
    requires
        p0.wf(),
        is_translated(p0, pmid, dx, 0),
        is_rotated(pmid, p1),
    ensures
        is_rotated_with_shift(p0, p1, dx),
{
    assert forall|i: int| 0 <= i < p0.squares@.len() implies {
        &&& (#[trigger] p1.squares@[i]).position.x as int == piece_rotated_x(p0, i) + dx
        &&& p1.squares@[i].position.y as int == piece_rotated_y(p0, i)
        &&& p1.squares@[i].color == p0.squares@[i].color
    } by {
        assert(pmid.squares@[i].position.x as int == p0.squares@[i].position.x as int + dx);
        assert(pmid.squares@[0].position.x as int == p0.squares@[0].position.x as int + dx);
        assert(p1.squares@[i].position.x as int == piece_rotated_x(pmid, i));
        assert(p1.squares@[i].position.y as int == piece_rotated_y(pmid, i));
    }
}

/// A single cell of a piece: a grid position plus a color.
#[derive(Copy, Clone, Debug)]
pub struct Square {
    pub position: Position,
    pub color: Color,
}

impl Square {
    pub fn new(position: Position, color: Color) -> (r: Square)
        ensures
            r == (Square { position, color }),
    {
        Square { position, color }
    }

    pub fn get_position(&self) -> (r: Position)
        ensures
            r == self.position,
    {
        self.position
    }

    pub fn get_position_mut(&mut self) -> (r: &mut Position)
        ensures
            *r == old(self).position,
            *final(self) == (Square { position: *final(r), ..*old(self) }),
    {
        &mut self.position
    }

    pub fn set_position(&mut self, value: Position)
        ensures
            *final(self) == (Square { position: value, ..*old(self) }),
    {
        self.position = value;
    }

    pub fn get_color(&self) -> (r: Color)
        ensures
            r == self.color,
    {
        self.color
    }

    /// The position this square would take after one rotation step of a piece
    /// with convention `rotation_type` around `pivot`.
    pub fn get_rotated_position(&self, rotation_type: RotationType, pivot: Position) -> (r:
        Position)
        requires
            fits_isize(
                rotate_step(
                    self.position.x as int,
                    self.position.y as int,
                    rotation_type,
                    pivot.x as int,
                    pivot.y as int,
                ).0,
            ),
            fits_isize(
                rotate_step(
                    self.position.x as int,
                    self.position.y as int,
                    rotation_type,
                    pivot.x as int,
                    pivot.y as int,
                ).1,
            ),
        ensures
            r.x as int == rotate_step(
                self.position.x as int,
                self.position.y as int,
                rotation_type,
                pivot.x as int,
                pivot.y as int,
            ).0,
            r.y as int == rotate_step(
                self.position.x as int,
                self.position.y as int,
                rotation_type,
                pivot.x as int,
                pivot.y as int,
            ).1,
    {
        let (cx, cy, bump) = match rotation_type {
            RotationType::AroundSquare => (pivot.x, pivot.y, 0i128),
            RotationType::AroundPoint(c) => (c.x, c.y, -1i128),
        };
        let rx: i128 = self.position.y as i128 - cy as i128 + cx as i128 + bump;
        let ry: i128 = -(self.position.x as i128 - cx as i128) + cy as i128;
        Position { x: rx as isize, y: ry as isize }
    }

    /// Rigidly move this square by an integer offset.
    pub fn translate(&mut self, translation: Position)
        requires
            fits_isize(old(self).position.x as int + translation.x as int),
            fits_isize(old(self).position.y as int + translation.y as int),
        ensures
            final(self).position.x as int == old(self).position.x as int + translation.x as int,
            final(self).position.y as int == old(self).position.y as int + translation.y as int,
            final(self).color == old(self).color,
    {
        self.position = Position {
            x: self.position.x + translation.x,
            y: self.position.y + translation.y,
        };
    }

    pub fn move_at(&mut self, position: Position)
        ensures
            *final(self) == (Square { position, ..*old(self) }),
    {
        self.position = position;
    }
}

/// A movable group of four squares plus rotation metadata and a type tag.
#[derive(Clone)]
pub struct Piece {
    pub squares: Vec<Square>,
    pub rotation: RotationType,
    pub piece_type: PieceType,
}

/// `p1` is `p0` rigidly moved by (`dx`, `dy`): every square is shifted, a
/// fixed-point pivot travels along, and nothing else changes.
pub open spec fn is_translated(p0: Piece, p1: Piece, dx: int, dy: int) -> bool {
    &&& p1.squares@.len() == p0.squares@.len()
    &&& forall|i: int|
        0 <= i < p0.squares@.len() ==> {
            &&& p1.squares@[i].position.x as int == p0.squares@[i].position.x as int + dx
            &&& p1.squares@[i].position.y as int == p0.squares@[i].position.y as int + dy
            &&& p1.squares@[i].color == p0.squares@[i].color
        }
    &&& match (p0.rotation, p1.rotation) {
        (RotationType::AroundSquare, RotationType::AroundSquare) => true,
        (RotationType::AroundPoint(a), RotationType::AroundPoint(b)) => {
            &&& b.x as int == a.x as int + dx
            &&& b.y as int == a.y as int + dy
        },
        _ => false,
    }
    &&& p1.piece_type == p0.piece_type
}

/// The whole piece, and any fixed-point pivot, can be shifted by
/// (`dx`, `dy`) without leaving the machine integer range.
pub open spec fn can_translate(p: Piece, dx: int, dy: int) -> bool {
    &&& forall|i: int|
        0 <= i < p.squares@.len() ==> fits_isize((#[trigger] p.squares@[i]).position.x as int + dx)
            && fits_isize(p.squares@[i].position.y as int + dy)
    &&& match p.rotation {
        RotationType::AroundPoint(c) => fits_isize(c.x as int + dx) && fits_isize(
            c.y as int + dy,
        ),
        RotationType::AroundSquare => true,
    }
}

/// The column square `i` of `p` takes when `p` rotates: the pivot is the
/// first square's current position for `AroundSquare` pieces, and the stored
/// point for `AroundPoint` pieces.
pub open spec fn piece_rotated_x(p: Piece, i: int) -> int {
    rotate_step(
        p.squares@[i].position.x as int,
        p.squares@[i].position.y as int,
        p.rotation,
        p.squares@[0].position.x as int,
        p.squares@[0].position.y as int,
    ).0
}

/// The row square `i` of `p` takes when `p` rotates.
pub open spec fn piece_rotated_y(p: Piece, i: int) -> int {
    rotate_step(
        p.squares@[i].position.x as int,
        p.squares@[i].position.y as int,
        p.rotation,
        p.squares@[0].position.x as int,
        p.squares@[0].position.y as int,
    ).1
}

/// Every rotated position of `p` stays within the machine integer range.
pub open spec fn rotation_fits(p: Piece, i: int) -> bool {
    fits_isize(piece_rotated_x(p, i)) && fits_isize(piece_rotated_y(p, i))
}

/// `p1` is `p0` after one rotation step: every square has moved to its
/// rotated position and everything else is unchanged.
pub open spec fn is_rotated(p0: Piece, p1: Piece) -> bool {
    &&& p1.squares@.len() == p0.squares@.len()
    &&& forall|i: int|
        0 <= i < p0.squares@.len() ==> {
            &&& (#[trigger] p1.squares@[i]).position.x as int == piece_rotated_x(p0, i)
            &&& p1.squares@[i].position.y as int == piece_rotated_y(p0, i)
            &&& p1.squares@[i].color == p0.squares@[i].color
        }
    &&& p1.rotation == p0.rotation
    &&& p1.piece_type == p0.piece_type
}

impl Piece {
    /// A piece is well formed when it is made of exactly four squares.
    pub open spec fn wf(self) -> bool {
        self.squares@.len() == 4
    }

    pub fn new(squares: Vec<Square>, rotation: RotationType, piece_type: PieceType) -> (r: Piece)
        requires
            squares@.len() == 4,
        ensures
            r == (Piece { squares, rotation, piece_type }),
            r.wf(),
    {
        Piece { squares, rotation, piece_type }
    }

    pub fn get_squares(&self) -> (r: &Vec<Square>)
        ensures
            r == &self.squares,
    {
        &self.squares
    }

    pub fn get_squares_mut(&mut self) -> (r: &mut Vec<Square>)
        ensures
            *r == old(self).squares,
            *final(self) == (Piece { squares: (*final(r)), ..*old(self) }),
    {
        &mut self.squares
    }

    pub fn get_squares_owned(&self) -> (r: Vec<Square>)
        ensures
            r@ == self.squares@,
    {
        self.squares.clone()
    }

    pub fn get_rotation_type(&self) -> (r: RotationType)
        ensures
            r == self.rotation,
    {
        self.rotation
    }

    pub fn get_piece_type(&self) -> (r: PieceType)
        ensures
            r == self.piece_type,
    {
        self.piece_type
    }

    /// Rigidly move the whole piece (and, for a fixed-point pivot, the pivot
    /// too) by an integer offset. Always succeeds; bounds checking is the
    /// board's job.
    pub fn translate(&mut self, translation: Position)
        requires
            can_translate(*old(self), translation.x as int, translation.y as int),
        ensures
            is_translated(*old(self), *final(self), translation.x as int, translation.y as int),
    {
        let n = self.squares.len();
        let mut i: usize = 0;
        while i < n
            invariant
                n == old(self).squares@.len(),
                i <= n,
                self.squares@.len() == n,
                can_translate(*old(self), translation.x as int, translation.y as int),
                forall|j: int|
                    0 <= j < i ==> {
                        &&& self.squares@[j].position.x as int == old(
                            self,
                        ).squares@[j].position.x as int + translation.x as int
                        &&& self.squares@[j].position.y as int == old(
                            self,
                        ).squares@[j].position.y as int + translation.y as int
                        &&& self.squares@[j].color == old(self).squares@[j].color
                    },
                forall|j: int| i <= j < n ==> self.squares@[j] == old(self).squares@[j],
                self.rotation == old(self).rotation,
                self.piece_type == old(self).piece_type,
            decreases n - i,
        {
            let mut sq = self.squares[i];
            sq.translate(translation);
            self.squares.set(i, sq);
            i += 1;
        }
        if let RotationType::AroundPoint(point) = self.rotation {
            self.rotation = RotationType::AroundPoint(
                Position { x: point.x + translation.x, y: point.y + translation.y },
            );
        }
    }

    /// Move the piece so that its first square lands on `position`; the other
    /// squares and any fixed-point pivot keep their relative placement.
    pub fn move_at(&mut self, position: Position)
        requires
            old(self).wf(),
            fits_isize(position.x as int - old(self).squares@[0].position.x as int),
            fits_isize(position.y as int - old(self).squares@[0].position.y as int),
            can_translate(
                *old(self),
                position.x as int - old(self).squares@[0].position.x as int,
                position.y as int - old(self).squares@[0].position.y as int,
            ),
        ensures
            is_translated(
                *old(self),
                *final(self),
                position.x as int - old(self).squares@[0].position.x as int,
                position.y as int - old(self).squares@[0].position.y as int,
            ),
            final(self).squares@[0].position == position,
    {
        let anchor = self.squares[0].position;
        self.translate(Position { x: position.x - anchor.x, y: position.y - anchor.y });
    }

    /// Rotate the piece one step clockwise around its current pivot. This is
    /// a pure geometric transform; whether the target cells are free is the
    /// board's responsibility.
    pub fn rotate(&mut self)
        requires
            old(self).wf(),
            forall|i: int| 0 <= i < 4 ==> #[trigger] rotation_fits(*old(self), i),
        ensures
            is_rotated(*old(self), *final(self)),
    {
        let pivot = self.squares[0].position;
        let rotation = self.rotation;
        let mut i: usize = 0;
        while i < 4
            invariant
                old(self).wf(),
                self.squares@.len() == 4,
                i <= 4,
                pivot == old(self).squares@[0].position,
                rotation == old(self).rotation,
                forall|j: int| 0 <= j < 4 ==> #[trigger] rotation_fits(*old(self), j),
                forall|j: int|
                    0 <= j < i ==> {
                        &&& (#[trigger] self.squares@[j]).position.x as int == piece_rotated_x(
                            *old(self),
                            j,
                        )
                        &&& self.squares@[j].position.y as int == piece_rotated_y(*old(self), j)
                        &&& self.squares@[j].color == old(self).squares@[j].color
                    },
                forall|j: int| i <= j < 4 ==> self.squares@[j] == old(self).squares@[j],
                self.rotation == old(self).rotation,
                self.piece_type == old(self).piece_type,
            decreases 4 - i,
        {
            let sq = self.squares[i];
            proof {
                assert(sq == old(self).squares@[i as int]);
                assert(rotation_fits(*old(self), i as int));
            }
            let rotated = sq.get_rotated_position(rotation, pivot);
            let mut updated = sq;
            updated.set_position(rotated);
            self.squares.set(i, updated);
            i += 1;
        }
    }

    /// Type equality: two pieces are of the same kind regardless of where
    /// they stand or how far they have rotated.
    pub fn has_same_type(&self, other: &Piece) -> (r: bool)
        ensures
            r == (self.piece_type == other.piece_type),
    {
        self.piece_type == other.piece_type
    }

    /// The column square `i` occupies in the 2x4 preview stencil: its offset
    /// from the first square, shifted one column right.
    pub open spec fn stencil_col(self, i: int) -> int {
        self.squares@[i].position.x as int - self.squares@[0].position.x as int + 1
    }

    /// The row square `i` occupies in the 2x4 preview stencil.
    pub open spec fn stencil_row(self, i: int) -> int {
        self.squares@[i].position.y as int - self.squares@[0].position.y as int
    }

    /// A 2-row-by-4-column stencil of the piece, anchored so that its first
    /// square sits at column 1 of the bottom row; row-major, bottom row
    /// first (index `row * 4 + column`). Used by renderers for piece
    /// previews.
    pub fn to_array(&self) -> (r: Vec<bool>)
        requires
            self.wf(),
            forall|i: int|
                0 <= i < 4 ==> 0 <= #[trigger] self.stencil_col(i) < 4 && 0 <= self.stencil_row(i)
                    < 2,
        ensures
            r@.len() == 8,
            forall|cell: int|
                0 <= cell < 8 ==> (r@[cell] <==> exists|i: int|
                    0 <= i < 4 && cell == #[trigger] self.stencil_row(i) * 4 + self.stencil_col(
                        i,
                    )),
    {
        let anchor = self.squares[0].position;
        let mut holder: Vec<bool> = Vec::new();
        let mut fill: usize = 0;
        while fill < 8
            invariant
                fill <= 8,
                holder@.len() == fill,
                forall|c: int| 0 <= c < fill ==> !holder@[c],
            decreases 8 - fill,
        {
            holder.push(false);
            fill += 1;
        }
        let mut i: usize = 0;
        while i < 4
            invariant
                self.wf(),
                i <= 4,
                anchor == self.squares@[0].position,
                holder@.len() == 8,
                forall|k: int|
                    0 <= k < 4 ==> 0 <= #[trigger] self.stencil_col(k) < 4 && 0
                        <= self.stencil_row(k) < 2,
                forall|cell: int|
                    0 <= cell < 8 ==> (holder@[cell] <==> exists|k: int|
                        0 <= k < i && cell == #[trigger] self.stencil_row(k) * 4
                            + self.stencil_col(k)),
            decreases 4 - i,
        {
            proof {
                assert(0 <= self.stencil_col(i as int) < 4);
                assert(0 <= self.stencil_row(i as int) < 2);
            }
            let pos = self.squares[i].position;
            let col = (pos.x - anchor.x + 1) as usize;
            let row = (pos.y - anchor.y) as usize;
            proof {
                assert(col == self.stencil_col(i as int));
                assert(row == self.stencil_row(i as int));
            }
            holder.set(row * 4 + col, true);
            proof {
                assert(self.stencil_row(i as int) * 4 + self.stencil_col(i as int) == row * 4
                    + col);
            }
            i += 1;
        }
        holder
    }
}

impl PartialEq for Piece {
    /// Pieces compare equal exactly when they have the same type tag.
    fn eq(&self, other: &Piece) -> (r: bool) {
        self.piece_type == other.piece_type
    }
}

impl Eq for Piece {

}

impl vstd::std_specs::cmp::PartialEqSpecImpl for Piece {
    open spec fn obeys_eq_spec() -> bool {
        true
    }

    open spec fn eq_spec(&self, other: &Piece) -> bool {
        self.piece_type == other.piece_type
    }
}

} // verus!
