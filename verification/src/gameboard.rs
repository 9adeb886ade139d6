use vstd::prelude::*;

use std::collections::VecDeque;

use crate::piece::{
    can_translate, fits_isize, is_rotated_with_shift, is_translated, piece_rotated_x,
    piece_rotated_y, rotation_fits, Piece, Position, RotationType, Square,
};
use crate::piece_factory::{
    is_piece_at, is_spawn_piece, spawn_offsets, PieceFactory, PieceType, SPAWN_X, SPAWN_Y,
};
use crate::piece_provider::{kind_at, PieceProvider};

verus! {

/// Columns of the play field.
pub const BOARD_WIDTH: usize = 10;

/// Rows of the play field; the top two are a hidden buffer above the visible
/// area.
pub const BOARD_HEIGHT: usize = 22;

/// Where the active piece's anchor stands when a piece enters play.
pub const PLAY_X: isize = 4;

pub const PLAY_Y: isize = 20;

/// Points per row of a manual soft drop.
pub const SOFT_DROP_SCORE: u32 = 1;

/// Points per row of a hard drop.
pub const HARD_DROP_SCORE: u32 = 2;

/// How many upcoming pieces the board keeps visible.
pub const PIECE_QUEUE_SIZE: usize = 5;

pub const SINGLE_LINE_POINTS: u32 = 100;

pub const DOUBLE_LINE_POINTS: u32 = 300;

pub const TRIPLE_LINE_POINTS: u32 = 500;

pub const TETRIS_POINTS: u32 = 800;

/// A movement request for the active piece. `Top` asks for a hard drop;
/// `Bottom` for a single accelerated step down.
#[derive(Copy, Clone, Debug, PartialEq, Eq, Structural, Hash)]
pub enum Direction {
    Right,
    Top,
    Left,
    Bottom,
}

/// The outcome of the limited wall-kick check: rotation is impossible, fits
/// as computed, or fits after shifting the piece one column right or left.
enum Rotation {
    Blocked,
    Regular,
    ShiftedRight,
    ShiftedLeft,
}

/// A discrete input event for the session.
#[derive(Copy, Clone, Debug, PartialEq, Eq, Structural, Hash)]
pub enum Action {
    Move(Direction),
    Rotate,
    Hold,
}

/// The active piece cannot fall.
pub struct FallError;

/// The active piece cannot rotate, even with the one-column kicks.
pub struct RotateError;

/// The active piece cannot move in the requested direction.
pub struct MoveError;

/// The hold slot was already used since the last lock.
pub struct SwapError;

/// The flat index of grid cell (column `c`, row `r`); the grids are stored
/// column-major.
pub open spec fn cell_idx(c: int, r: int) -> int {
    c * (BOARD_HEIGHT as int) + r
}

/// Whether (`c`, `r`) lies on the board.
pub open spec fn in_bounds(c: int, r: int) -> bool {
    0 <= c < BOARD_WIDTH as int && 0 <= r < BOARD_HEIGHT as int
}

/// The unit column offset of a movement direction.
pub open spec fn dir_dx(d: Direction) -> int {
    match d {
        Direction::Left => -1,
        Direction::Right => 1,
        Direction::Top => 0,
        Direction::Bottom => 0,
    }
}

/// The unit row offset of a movement direction; both drop variants probe one
/// row down.
pub open spec fn dir_dy(d: Direction) -> int {
    match d {
        Direction::Left => 0,
        Direction::Right => 0,
        Direction::Top => -1,
        Direction::Bottom => -1,
    }
}

/// All four squares of `p` lie on the board.
pub open spec fn piece_in_grid(p: Piece) -> bool {
    forall|i: int|
        0 <= i < p.squares@.len() ==> in_bounds(
            (#[trigger] p.squares@[i]).position.x as int,
            p.squares@[i].position.y as int,
        )
}

/// For a fixed-point pivot, the first square sits at one of the four
/// offsets from the pivot that the rotation step cycles through; fresh
/// pieces start on the pivot itself. This keeps the pivot within one cell
/// of the piece forever.
pub open spec fn pivot_ok(p: Piece) -> bool {
    match p.rotation {
        RotationType::AroundSquare => true,
        RotationType::AroundPoint(c) => {
            let dx = p.squares@[0].position.x as int - c.x as int;
            let dy = p.squares@[0].position.y as int - c.y as int;
            (dx == 0 && dy == 0) || (dx == -1 && dy == 0) || (dx == -1 && dy == 1) || (dx == 0 && dy
                == 1)
        },
    }
}

/// The board: occupancy and color grids, the active piece, the hold slot,
/// the upcoming queue, and the score/level/lines/game-over state.
pub struct GameBoard {
    /// Occupancy, column-major (`cell_idx`): true means the cell is filled
    /// by a locked square.
    pub space_board: Vec<bool>,
    /// The locked square (for rendering) of each occupied cell; `None`
    /// exactly where `space_board` is false.
    pub square_board: Vec<Option<Square>>,
    pub piece_provider: PieceProvider,
    pub current_piece: Piece,
    pub held_piece: Option<Piece>,
    pub can_swap: bool,
    pub next_pieces: VecDeque<Piece>,
    pub score: u32,
    pub level: u32,
    pub lines_cleared: u32,
    pub game_over: bool,
}

/// `p` is a factory-fresh piece of type `t` repositioned to the play anchor.
pub open spec fn is_play_piece(p: Piece, t: PieceType) -> bool {
    is_piece_at(p, t, PLAY_X as int, PLAY_Y as int)
}

/// The occupancy and color grids agree cell for cell: a cell is occupied
/// exactly when it holds a locked square.
pub open spec fn grids_consistent(sp: Seq<bool>, sq: Seq<Option<Square>>) -> bool {
    forall|i: int| 0 <= i < 220 ==> (sp[i] <==> (#[trigger] sq[i]) is Some)
}

/// Row `r` is completely occupied.
pub open spec fn row_full(g: Seq<bool>, r: int) -> bool {
    forall|c: int| 0 <= c < BOARD_WIDTH as int ==> g[#[trigger] cell_idx(c, r)]
}

/// Row `r` is completely empty.
pub open spec fn row_empty(g: Seq<bool>, r: int) -> bool {
    forall|c: int| 0 <= c < BOARD_WIDTH as int ==> !g[#[trigger] cell_idx(c, r)]
}

/// The first fully-empty row at or above `r`, or the top row when none is
/// empty; clearing a row collapses everything up to here.
pub open spec fn first_free_row_from(g: Seq<bool>, r: int) -> int
    decreases 21 - r,
{
    if r >= 21 {
        21
    } else if row_empty(g, r) {
        r
    } else {
        first_free_row_from(g, r + 1)
    }
}

/// Every row in [`from`, `limit`) takes the contents of the row above it
/// (one step of line-clear collapse); rows at or above `limit` and below
/// `from` keep their contents. In the column-major flat grid, the cell one
/// row up is the next index.
pub open spec fn shift_rows<T>(g: Seq<T>, from: int, limit: int) -> Seq<T> {
    Seq::new(
        g.len(),
        |j: int|
            if from <= j % (BOARD_HEIGHT as int) < limit {
                g[j + 1]
            } else {
                g[j]
            },
    )
}

/// The grids mid-way through a shift pass: columns before `col` are fully
/// shifted, and in column `col` the rows below `row` are shifted.
pub open spec fn shift_progress<T>(g: Seq<T>, from: int, limit: int, col: int, row: int) -> Seq<
    T,
> {
    Seq::new(
        g.len(),
        |j: int|
            if (j / (BOARD_HEIGHT as int) < col && from <= j % (BOARD_HEIGHT as int) < limit) || (
            j / (BOARD_HEIGHT as int) == col && from <= j % (BOARD_HEIGHT as int) < row) {
                g[j + 1]
            } else {
                g[j]
            },
    )
}

/// The points awarded for clearing `cleared` rows at once, before the level
/// multiplier.
pub open spec fn line_points(cleared: nat) -> int {
    if cleared == 1 {
        SINGLE_LINE_POINTS as int
    } else if cleared == 2 {
        DOUBLE_LINE_POINTS as int
    } else if cleared == 3 {
        TRIPLE_LINE_POINTS as int
    } else if cleared == 4 {
        TETRIS_POINTS as int
    } else {
        0
    }
}

/// One line-clear resolution pass over the candidate rows, in the order
/// given (highest first): a candidate that is fully occupied in the current
/// grid is cleared by collapsing everything above it down to the first
/// empty row; returns the two grids and how many rows cleared.
pub open spec fn clear_pass(sp: Seq<bool>, sq: Seq<Option<Square>>, rows: Seq<int>) -> (
    Seq<bool>,
    Seq<Option<Square>>,
    nat,
)
    decreases rows.len(),
{
    if rows.len() == 0 {
        (sp, sq, 0)
    } else {
        let r0 = rows[0];
        if row_full(sp, r0) {
            let limit = first_free_row_from(sp, r0);
            let rest = clear_pass(
                shift_rows(sp, r0, limit),
                shift_rows(sq, r0, limit),
                rows.drop_first(),
            );
            (rest.0, rest.1, (rest.2 + 1) as nat)
        } else {
            clear_pass(sp, sq, rows.drop_first())
        }
    }
}

/// The occupancy grid after marking the first `n` squares of `p` occupied.
pub open spec fn write_piece_sp(g: Seq<bool>, p: Piece, n: int) -> Seq<bool>
    decreases n,
{
    if n <= 0 {
        g
    } else {
        write_piece_sp(g, p, n - 1).update(
            cell_idx(
                p.squares@[n - 1].position.x as int,
                p.squares@[n - 1].position.y as int,
            ),
            true,
        )
    }
}

/// The color grid after storing the first `n` squares of `p`.
pub open spec fn write_piece_sq(g: Seq<Option<Square>>, p: Piece, n: int) -> Seq<Option<Square>>
    decreases n,
{
    if n <= 0 {
        g
    } else {
        write_piece_sq(g, p, n - 1).update(
            cell_idx(
                p.squares@[n - 1].position.x as int,
                p.squares@[n - 1].position.y as int,
            ),
            Some(p.squares@[n - 1]),
        )
    }
}

/// One of `p`'s squares stands on row `r`.
pub open spec fn piece_touches_row(p: Piece, r: int) -> bool {
    exists|i: int|
        0 <= i < p.squares@.len() && (#[trigger] p.squares@[i]).position.y as int == r
}

/// All row indices from the top of the board down.
pub open spec fn rows_desc() -> Seq<int> {
    Seq::new(BOARD_HEIGHT as nat, |i: int| 21 - i)
}

/// The rows among the top `k` entries of the descending scan that `p`
/// touches.
pub open spec fn touched_rows_upto(p: Piece, k: int) -> Seq<int> {
    rows_desc().take(k).filter(|r: int| piece_touches_row(p, r))
}

/// The distinct rows touched by `p`, highest first: the candidate rows of
/// the line-clear pass after locking `p`.
pub open spec fn touched_rows(p: Piece) -> Seq<int> {
    touched_rows_upto(p, BOARD_HEIGHT as int)
}

impl GameBoard {
    /// The occupancy of cell (`c`, `r`).
    pub open spec fn occ(self, c: int, r: int) -> bool {
        self.space_board@[cell_idx(c, r)]
    }

    /// A position is free when it is on the board and unoccupied.
    pub open spec fn spec_is_free(self, c: int, r: int) -> bool {
        in_bounds(c, r) && !self.occ(c, r)
    }

    /// Every square of `p`, shifted by (`dx`, `dy`), lands on a free cell.
    pub open spec fn piece_fits(self, p: Piece, dx: int, dy: int) -> bool {
        forall|i: int|
            0 <= i < p.squares@.len() ==> self.spec_is_free(
                (#[trigger] p.squares@[i]).position.x as int + dx,
                p.squares@[i].position.y as int + dy,
            )
    }

    /// Every rotated position of `p`, shifted `dx` columns, is free.
    pub open spec fn rotation_fits_board(self, p: Piece, dx: int) -> bool {
        forall|i: int|
            0 <= i < p.squares@.len() ==> self.spec_is_free(
                #[trigger] piece_rotated_x(p, i) + dx,
                piece_rotated_y(p, i),
            )
    }

    /// The parts of well-formedness that do not concern the active piece:
    /// grids of the right size that agree cell for cell, a well-formed
    /// supply, a full queue of fresh spawn pieces, and a hold slot that is
    /// empty or holds a play-fresh piece.
    pub open spec fn wf_support(self) -> bool {
        &&& self.space_board@.len() == 220
        &&& self.square_board@.len() == 220
        &&& grids_consistent(self.space_board@, self.square_board@)
        &&& self.piece_provider.wf()
        &&& self.next_pieces@.len() == PIECE_QUEUE_SIZE as int
        &&& forall|i: int|
            0 <= i < self.next_pieces@.len() ==> is_spawn_piece(
                #[trigger] self.next_pieces@[i],
                self.next_pieces@[i].piece_type,
            ) && self.next_pieces@[i].wf()
        &&& match self.held_piece {
            Option::Some(h) => is_play_piece(h, h.piece_type) && h.wf(),
            Option::None => true,
        }
    }

    /// Internal consistency of the board, including a well-formed active
    /// piece standing on the board with its pivot nearby.
    pub open spec fn wf(self) -> bool {
        &&& self.wf_support()
        &&& self.current_piece.wf()
        &&& piece_in_grid(self.current_piece)
        &&& pivot_ok(self.current_piece)
    }

    /// Create a board from a 64-bit seed and a starting level: an empty
    /// grid, the first supplied piece already in play, and a full queue of
    /// upcoming pieces. The whole session is determined by these inputs.
    pub fn new(seed: u64, level: u32) -> (r: GameBoard)
        ensures
            r.wf(),
            r.score == 0,
            r.level == level,
            r.lines_cleared == 0,
            r.game_over == false,
            r.can_swap == true,
            r.held_piece is None,
            is_play_piece(r.current_piece, kind_at(seed, 0)),
            forall|i: int|
                0 <= i < PIECE_QUEUE_SIZE as int ==> is_spawn_piece(
                    #[trigger] r.next_pieces@[i],
                    kind_at(seed, (i + 1) as nat),
                ),
            forall|c: int, rw: int| in_bounds(c, rw) ==> !r.occ(c, rw),
            r.piece_provider.seed == seed,
            r.piece_provider.draws@ == 6,
    {
        let mut piece_provider = PieceProvider::new(seed);
        let mut current_piece = piece_provider.get_piece();
        proof {
            crate::piece_factory::lemma_spawn_offsets_bounds(kind_at(seed, 0));
        }
        let ghost spawn_piece = current_piece;
        current_piece.move_at(Position { x: PLAY_X, y: PLAY_Y });
        proof {
            crate::piece_factory::lemma_translated_piece_at(
                spawn_piece,
                current_piece,
                kind_at(seed, 0),
                SPAWN_X as int,
                SPAWN_Y as int,
                PLAY_X as int - SPAWN_X as int,
                PLAY_Y as int - SPAWN_Y as int,
            );
        }
        let mut next_pieces: VecDeque<Piece> = VecDeque::new();
        let mut i: usize = 0;
        while i < PIECE_QUEUE_SIZE
            invariant
            // 5 == PIECE_QUEUE_SIZE
                i <= 5,
                next_pieces@.len() == i,
                piece_provider.wf(),
                piece_provider.seed == seed,
                piece_provider.draws@ == 1 + i,
                forall|j: int|
                    0 <= j < i ==> is_spawn_piece(
                        #[trigger] next_pieces@[j],
                        kind_at(seed, (j + 1) as nat),
                    ) && next_pieces@[j].wf(),
            decreases 5 - i,
        {
            next_pieces.push_back(piece_provider.get_piece());
            i += 1;
        }
        let mut space_board: Vec<bool> = Vec::new();
        let mut square_board: Vec<Option<Square>> = Vec::new();
        let mut j: usize = 0;
        while j < 220
            invariant
                j <= 220,
                space_board@.len() == j,
                square_board@.len() == j,
                forall|k: int| 0 <= k < j ==> !(#[trigger] space_board@[k]),
                forall|k: int| 0 <= k < j ==> (#[trigger] square_board@[k]) is None,
            decreases 220 - j,
        {
            space_board.push(false);
            square_board.push(None);
            j += 1;
        }
        GameBoard {
            space_board,
            square_board,
            piece_provider,
            current_piece,
            held_piece: None,
            can_swap: true,
            next_pieces,
            score: 0,
            level,
            lines_cleared: 0,
            game_over: false,
        }
    }

    pub fn get_current_piece(&self) -> (r: &Piece)
        ensures
            r == &self.current_piece,
    {
        &self.current_piece
    }

    pub fn get_square_board(&self) -> (r: Vec<Option<Square>>)
        ensures
            r@ == self.square_board@,
    {
        self.square_board.clone()
    }

    pub fn get_score(&self) -> (r: u32)
        ensures
            r == self.score,
    {
        self.score
    }

    pub fn get_lines_cleared(&self) -> (r: u32)
        ensures
            r == self.lines_cleared,
    {
        self.lines_cleared
    }

    pub fn get_level(&self) -> (r: u32)
        ensures
            r == self.level,
    {
        self.level
    }

    pub fn get_held_piece(&self) -> (r: &Option<Piece>)
        ensures
            r == &self.held_piece,
    {
        &self.held_piece
    }

    pub fn get_next_piece(&self) -> (r: &Piece)
        requires
            self.wf(),
        ensures
            r == &self.next_pieces@[0],
    {
        &self.next_pieces[0]
    }

    pub fn set_level(&mut self, value: u32)
        ensures
            *final(self) == (GameBoard { level: value, ..*old(self) }),
    {
        self.level = value;
    }

    /// The game is still running.
    pub fn keep_playing(&self) -> (r: bool)
        ensures
            r == !self.game_over,
    {
        !self.game_over
    }

    /// False for any position off the board - whatever the grid holds - and
    /// for any occupied cell; true otherwise.
    pub fn is_free(&self, position: Position) -> (r: bool)
        requires
            self.wf(),
        ensures
            r == self.spec_is_free(position.x as int, position.y as int),
            !in_bounds(position.x as int, position.y as int) ==> !r,
    {
        if position.x < 0 || position.x >= BOARD_WIDTH as isize {
            return false;
        }
        if position.y < 0 || position.y >= BOARD_HEIGHT as isize {
            return false;
        }
        !self.space_board[(position.x as usize) * BOARD_HEIGHT + (position.y as usize)]
    }

    /// Whether every square of the active piece, shifted by the unit offset
    /// (`dx`, `dy`), would land on a free cell.
    fn piece_would_fit(&self, dx: isize, dy: isize) -> (r: bool)
        requires
            self.wf(),
            -1 <= dx <= 1,
            -1 <= dy <= 1,
        ensures
            r == self.piece_fits(self.current_piece, dx as int, dy as int),
    {
        let n = self.current_piece.squares.len();
        let mut i: usize = 0;
        while i < n
            invariant
                self.wf(),
                n == self.current_piece.squares@.len(),
                i <= n,
                -1 <= dx <= 1,
                -1 <= dy <= 1,
                forall|j: int|
                    0 <= j < i ==> self.spec_is_free(
                        (#[trigger] self.current_piece.squares@[j]).position.x as int + dx as int,
                        self.current_piece.squares@[j].position.y as int + dy as int,
                    ),
            decreases n - i,
        {
            let pos = self.current_piece.squares[i].position;
            if !self.is_free(Position { x: pos.x + dx, y: pos.y + dy }) {
                return false;
            }
            i += 1;
        }
        true
    }

    /// Every square of the active piece stands on a free cell (used right
    /// after a new piece enters play).
    fn can_spawn(&self) -> (r: bool)
        requires
            self.wf(),
        ensures
            r == self.piece_fits(self.current_piece, 0, 0),
    {
        self.piece_would_fit(0, 0)
    }

    /// The active piece can move one row down.
    fn can_fall(&self) -> (r: bool)
        requires
            self.wf(),
        ensures
            r == self.piece_fits(self.current_piece, 0, -1),
    {
        self.piece_would_fit(0, -1)
    }

    /// The active piece can move one step in the given direction; both drop
    /// directions ask whether it can fall.
    fn can_move(&self, direction: Direction) -> (r: bool)
        requires
            self.wf(),
        ensures
            r == self.piece_fits(self.current_piece, dir_dx(direction), dir_dy(direction)),
    {
        match direction {
            Direction::Left => self.piece_would_fit(-1, 0),
            Direction::Right => self.piece_would_fit(1, 0),
            Direction::Bottom => self.can_fall(),
            Direction::Top => self.can_fall(),
        }
    }

    /// Whether every cell of row `r` is empty.
    fn row_is_empty(&self, r: usize) -> (res: bool)
        requires
            self.space_board@.len() == 220,
            r < BOARD_HEIGHT,
        ensures
            res == row_empty(self.space_board@, r as int),
    {
        let mut c: usize = 0;
        while c < BOARD_WIDTH
            invariant
                self.space_board@.len() == 220,
                r < 22,
                c <= 10,
                forall|k: int| 0 <= k < c ==> !self.space_board@[#[trigger] cell_idx(k, r as int)],
            decreases 10 - c,
        {
            if self.space_board[c * BOARD_HEIGHT + r] {
                proof {
                    assert(self.space_board@[cell_idx(c as int, r as int)]);
                }
                return false;
            }
            c += 1;
        }
        true
    }

    /// Whether every cell of row `r` is occupied.
    fn row_is_full(&self, r: usize) -> (res: bool)
        requires
            self.space_board@.len() == 220,
            r < BOARD_HEIGHT,
        ensures
            res == row_full(self.space_board@, r as int),
    {
        let mut c: usize = 0;
        while c < BOARD_WIDTH
            invariant
                self.space_board@.len() == 220,
                r < 22,
                c <= 10,
                forall|k: int| 0 <= k < c ==> self.space_board@[#[trigger] cell_idx(k, r as int)],
            decreases 10 - c,
        {
            if !self.space_board[c * BOARD_HEIGHT + r] {
                proof {
                    assert(!self.space_board@[cell_idx(c as int, r as int)]);
                }
                return false;
            }
            c += 1;
        }
        true
    }

    /// Scan upward from `index` for the first fully-empty row; the top row
    /// bounds the search.
    fn get_first_free_line_from(&self, index: usize) -> (res: usize)
        requires
            self.space_board@.len() == 220,
            index < BOARD_HEIGHT,
        ensures
            res == first_free_row_from(self.space_board@, index as int),
            index <= res < BOARD_HEIGHT,
    {
        let mut i = index;
        while i < BOARD_HEIGHT
            invariant
                self.space_board@.len() == 220,
                index <= i <= 22,
                first_free_row_from(self.space_board@, index as int) == first_free_row_from(
                    self.space_board@,
                    i as int,
                ),
            decreases 22 - i,
        {
            if self.row_is_empty(i) {
                proof {
                    assert(first_free_row_from(self.space_board@, i as int) == i as int || i
                        == 21);
                }
                return i;
            }
            i += 1;
        }
        proof {
            assert(first_free_row_from(self.space_board@, 22) == 21);
        }
        BOARD_HEIGHT - 1
    }

    /// Clear the fully-occupied row `destroy_index`: every row above it,
    /// up to the first fully-empty row, moves down one step in both grids,
    /// and the cleared-lines counter advances.
    fn clear_line(&mut self, destroy_index: usize)
        requires
            old(self).space_board@.len() == 220,
            old(self).square_board@.len() == 220,
            destroy_index < BOARD_HEIGHT,
            old(self).lines_cleared < u32::MAX,
        ensures
            final(self).space_board@ == shift_rows(
                old(self).space_board@,
                destroy_index as int,
                first_free_row_from(old(self).space_board@, destroy_index as int),
            ),
            final(self).square_board@ == shift_rows(
                old(self).square_board@,
                destroy_index as int,
                first_free_row_from(old(self).space_board@, destroy_index as int),
            ),
            final(self).lines_cleared == old(self).lines_cleared + 1,
            *final(self) == (GameBoard {
                space_board: final(self).space_board,
                square_board: final(self).square_board,
                lines_cleared: final(self).lines_cleared,
                ..*old(self)
            }),
    {
        let limit = self.get_first_free_line_from(destroy_index);
        let ghost g0 = self.space_board@;
        let ghost q0 = self.square_board@;
        let ghost dd = destroy_index as int;
        let ghost ll = limit as int;
        let mut i: usize = 0;
        while i < BOARD_WIDTH
            invariant
                self.space_board@.len() == 220,
                self.square_board@.len() == 220,
                g0 == old(self).space_board@,
                q0 == old(self).square_board@,
                g0.len() == 220,
                q0.len() == 220,
                i <= 10,
                dd == destroy_index as int,
                ll == limit as int,
                dd <= ll < 22,
                ll == first_free_row_from(g0, dd),
                self.space_board@ =~= shift_progress(g0, dd, ll, i as int, dd),
                self.square_board@ =~= shift_progress(q0, dd, ll, i as int, dd),
                *self == (GameBoard {
                    space_board: self.space_board,
                    square_board: self.square_board,
                    ..*old(self)
                }),
            decreases 10 - i,
        {
            let mut line = destroy_index;
            while line < limit
                invariant
                    self.space_board@.len() == 220,
                    self.square_board@.len() == 220,
                    g0 == old(self).space_board@,
                    q0 == old(self).square_board@,
                    g0.len() == 220,
                    q0.len() == 220,
                    i < 10,
                    dd == destroy_index as int,
                    ll == limit as int,
                    dd <= line as int <= ll < 22,
                    self.space_board@ =~= shift_progress(g0, dd, ll, i as int, line as int),
                    self.square_board@ =~= shift_progress(q0, dd, ll, i as int, line as int),
                    *self == (GameBoard {
                        space_board: self.space_board,
                        square_board: self.square_board,
                        ..*old(self)
                    }),
                decreases ll - line,
            {
                let idx = i * BOARD_HEIGHT + line;
                proof {
                    vstd::arithmetic::div_mod::lemma_fundamental_div_mod_converse(
                        idx as int,
                        22,
                        i as int,
                        line as int,
                    );
                    vstd::arithmetic::div_mod::lemma_fundamental_div_mod_converse(
                        idx as int + 1,
                        22,
                        i as int,
                        line as int + 1,
                    );
                }
                let v = self.space_board[idx + 1];
                self.space_board.set(idx, v);
                let w = self.square_board[idx + 1];
                self.square_board.set(idx, w);
                proof {
                    let pre_sp = shift_progress(g0, dd, ll, i as int, line as int);
                    assert(pre_sp[idx as int + 1] == g0[idx as int + 1]);
                    assert forall|j: int| 0 <= j < 220 implies self.space_board@[j]
                        == shift_progress(g0, dd, ll, i as int, line as int + 1)[j] by {
                        vstd::arithmetic::div_mod::lemma_fundamental_div_mod(j, 22);
                    }
                    assert forall|j: int| 0 <= j < 220 implies self.square_board@[j]
                        == shift_progress(q0, dd, ll, i as int, line as int + 1)[j] by {
                        vstd::arithmetic::div_mod::lemma_fundamental_div_mod(j, 22);
                    }
                    assert(self.space_board@ =~= shift_progress(
                        g0,
                        dd,
                        ll,
                        i as int,
                        line as int + 1,
                    ));
                    assert(self.square_board@ =~= shift_progress(
                        q0,
                        dd,
                        ll,
                        i as int,
                        line as int + 1,
                    ));
                }
                line += 1;
            }
            proof {
                assert forall|j: int| 0 <= j < 220 implies shift_progress(
                    g0,
                    dd,
                    ll,
                    i as int,
                    ll,
                )[j] == shift_progress(g0, dd, ll, i as int + 1, dd)[j] by {
                    vstd::arithmetic::div_mod::lemma_fundamental_div_mod(j, 22);
                }
                assert forall|j: int| 0 <= j < 220 implies shift_progress(
                    q0,
                    dd,
                    ll,
                    i as int,
                    ll,
                )[j] == shift_progress(q0, dd, ll, i as int + 1, dd)[j] by {
                    vstd::arithmetic::div_mod::lemma_fundamental_div_mod(j, 22);
                }
                assert(shift_progress(g0, dd, ll, i as int, ll) =~= shift_progress(
                    g0,
                    dd,
                    ll,
                    i as int + 1,
                    dd,
                ));
                assert(shift_progress(q0, dd, ll, i as int, ll) =~= shift_progress(
                    q0,
                    dd,
                    ll,
                    i as int + 1,
                    dd,
                ));
            }
            i += 1;
        }
        self.lines_cleared = self.lines_cleared + 1;
        proof {
            assert forall|j: int| 0 <= j < 220 implies shift_progress(g0, dd, ll, 10, dd)[j]
                == shift_rows(g0, dd, ll)[j] by {
                vstd::arithmetic::div_mod::lemma_fundamental_div_mod(j, 22);
                vstd::arithmetic::div_mod::lemma_div_is_ordered_by_denominator(j, 1, 22);
            }
            assert forall|j: int| 0 <= j < 220 implies shift_progress(q0, dd, ll, 10, dd)[j]
                == shift_rows(q0, dd, ll)[j] by {
                vstd::arithmetic::div_mod::lemma_fundamental_div_mod(j, 22);
            }
            assert(self.space_board@ =~= shift_rows(g0, dd, ll));
            assert(self.square_board@ =~= shift_rows(q0, dd, ll));
        }
    }

    /// Resolve line clears over the candidate rows (expected highest
    /// first): each candidate that is fully occupied at the moment it is
    /// examined is cleared, the cleared-lines counter advances by the number
    /// of rows cleared, and the score grows by the table value for that
    /// number times the level.
    fn check_complete_line(&mut self, line_indexes: &Vec<usize>)
        requires
            old(self).space_board@.len() == 220,
            old(self).square_board@.len() == 220,
            grids_consistent(old(self).space_board@, old(self).square_board@),
            forall|i: int| 0 <= i < line_indexes@.len() ==> (#[trigger] line_indexes@[i]) < 22,
            old(self).score + 800 * old(self).level <= u32::MAX,
            old(self).lines_cleared + line_indexes@.len() <= u32::MAX,
        ensures
            ({
                let rows = line_indexes@.map_values(|u: usize| u as int);
                let outcome = clear_pass(old(self).space_board@, old(self).square_board@, rows);
                &&& final(self).space_board@ == outcome.0
                &&& final(self).square_board@ == outcome.1
                &&& final(self).lines_cleared == old(self).lines_cleared + outcome.2
                &&& final(self).score == old(self).score + line_points(outcome.2) * old(self).level
                &&& grids_consistent(final(self).space_board@, final(self).square_board@)
                &&& *final(self) == (GameBoard {
                    space_board: final(self).space_board,
                    square_board: final(self).square_board,
                    lines_cleared: final(self).lines_cleared,
                    score: final(self).score,
                    ..*old(self)
                })
            }),
    {
        let ghost rows: Seq<int> = line_indexes@.map_values(|u: usize| u as int);
        let ghost sp0 = self.space_board@;
        let ghost sq0 = self.square_board@;
        let mut cleared: u32 = 0;
        let mut idx: usize = 0;
        proof {
            assert(rows.skip(0) =~= rows);
        }
        while idx < line_indexes.len()
            invariant
                rows == line_indexes@.map_values(|u: usize| u as int),
                rows.len() == line_indexes@.len(),
                forall|i: int| 0 <= i < line_indexes@.len() ==> (#[trigger] line_indexes@[i]) < 22,
                sp0 == old(self).space_board@,
                sq0 == old(self).square_board@,
                sp0.len() == 220,
                sq0.len() == 220,
                idx <= line_indexes@.len(),
                cleared <= idx,
                self.space_board@.len() == 220,
                self.square_board@.len() == 220,
                grids_consistent(self.space_board@, self.square_board@),
                clear_pass(sp0, sq0, rows).0 == clear_pass(
                    self.space_board@,
                    self.square_board@,
                    rows.skip(idx as int),
                ).0,
                clear_pass(sp0, sq0, rows).1 == clear_pass(
                    self.space_board@,
                    self.square_board@,
                    rows.skip(idx as int),
                ).1,
                clear_pass(sp0, sq0, rows).2 == cleared + clear_pass(
                    self.space_board@,
                    self.square_board@,
                    rows.skip(idx as int),
                ).2,
                self.lines_cleared == old(self).lines_cleared + cleared,
                old(self).lines_cleared + rows.len() <= u32::MAX,
                *self == (GameBoard {
                    space_board: self.space_board,
                    square_board: self.square_board,
                    lines_cleared: self.lines_cleared,
                    ..*old(self)
                }),
            decreases line_indexes@.len() - idx,
        {
            let line = line_indexes[idx];
            let ghost pre_sp = self.space_board@;
            let ghost pre_sq = self.square_board@;
            proof {
                assert(rows.skip(idx as int).len() == rows.len() - idx);
                assert(rows.skip(idx as int)[0] == rows[idx as int]);
                assert(rows.skip(idx as int).drop_first() =~= rows.skip(idx as int + 1));
                assert(rows[idx as int] == line as int);
            }
            if self.row_is_full(line) {
                self.clear_line(line);
                cleared = cleared + 1;
                proof {
                    let limit = first_free_row_from(pre_sp, line as int);
                    lemma_first_free_range(pre_sp, line as int);
                    lemma_shift_preserves_consistency(pre_sp, pre_sq, line as int, limit);
                    assert(row_full(pre_sp, rows.skip(idx as int)[0]));
                    assert(clear_pass(pre_sp, pre_sq, rows.skip(idx as int)).0 == clear_pass(
                        self.space_board@,
                        self.square_board@,
                        rows.skip(idx as int + 1),
                    ).0);
                }
            } else {
                proof {
                    assert(!row_full(self.space_board@, rows.skip(idx as int)[0]));
                }
            }
            idx += 1;
        }
        proof {
            assert(rows.skip(rows.len() as int) =~= Seq::<int>::empty());
            assert(clear_pass(self.space_board@, self.square_board@, Seq::<int>::empty()).2 == 0);
        }
        let points: u32 = if cleared == 1 {
            SINGLE_LINE_POINTS
        } else if cleared == 2 {
            DOUBLE_LINE_POINTS
        } else if cleared == 3 {
            TRIPLE_LINE_POINTS
        } else if cleared == 4 {
            TETRIS_POINTS
        } else {
            0
        };
        proof {
            assert(points as int == line_points(clear_pass(sp0, sq0, rows).2));
            assert(points as int * self.level as int <= 800 * self.level as int)
                by (nonlinear_arith)
                requires
                    0 <= points as int <= 800,
                    0 <= self.level as int,
            ;
        }
        self.score = self.score + points * self.level;
    }

    /// Whether every rotated position of the active piece, shifted `dx`
    /// columns, is free; `rotated` caches the rotated positions.
    fn all_rotated_free(&self, rotated: &Vec<Position>, dx: isize) -> (r: bool)
        requires
            self.wf(),
            rotated@.len() == 4,
            -1 <= dx <= 1,
            forall|j: int|
                0 <= j < 4 ==> (#[trigger] rotated@[j]).x as int == piece_rotated_x(
                    self.current_piece,
                    j,
                ) && rotated@[j].y as int == piece_rotated_y(self.current_piece, j),
            forall|j: int|
                0 <= j < 4 ==> -60 <= #[trigger] piece_rotated_x(self.current_piece, j) <= 60 && -60
                    <= piece_rotated_y(self.current_piece, j) <= 60,
        ensures
            r == self.rotation_fits_board(self.current_piece, dx as int),
    {
        let mut j: usize = 0;
        while j < 4
            invariant
                self.wf(),
                j <= 4,
                rotated@.len() == 4,
                -1 <= dx <= 1,
                forall|k: int|
                    0 <= k < 4 ==> (#[trigger] rotated@[k]).x as int == piece_rotated_x(
                        self.current_piece,
                        k,
                    ) && rotated@[k].y as int == piece_rotated_y(self.current_piece, k),
                forall|k: int|
                    0 <= k < 4 ==> -60 <= #[trigger] piece_rotated_x(self.current_piece, k) <= 60
                        && -60 <= piece_rotated_y(self.current_piece, k) <= 60,
                forall|k: int|
                    0 <= k < j ==> self.spec_is_free(
                        #[trigger] piece_rotated_x(self.current_piece, k) + dx,
                        piece_rotated_y(self.current_piece, k),
                    ),
            decreases 4 - j,
        {
            let pos = rotated[j];
            if !self.is_free(Position { x: pos.x + dx, y: pos.y }) {
                return false;
            }
            j += 1;
        }
        true
    }

    /// The limited wall-kick check: the square piece never rotates;
    /// otherwise try the rotated positions as computed, then shifted one
    /// column right, then one column left. No further kicks are attempted.
    fn can_rotate(&self) -> (r: Rotation)
        requires
            self.wf(),
        ensures
            r is Regular <==> (self.current_piece.piece_type != PieceType::Square
                && self.rotation_fits_board(self.current_piece, 0)),
            r is ShiftedRight <==> (self.current_piece.piece_type != PieceType::Square
                && !self.rotation_fits_board(self.current_piece, 0) && self.rotation_fits_board(
                self.current_piece,
                1,
            )),
            r is ShiftedLeft <==> (self.current_piece.piece_type != PieceType::Square
                && !self.rotation_fits_board(self.current_piece, 0) && !self.rotation_fits_board(
                self.current_piece,
                1,
            ) && self.rotation_fits_board(self.current_piece, -1)),
            r is Blocked <==> (self.current_piece.piece_type == PieceType::Square || (
            !self.rotation_fits_board(self.current_piece, 0) && !self.rotation_fits_board(
                self.current_piece,
                1,
            ) && !self.rotation_fits_board(self.current_piece, -1))),
    {
        if self.current_piece.get_piece_type() == PieceType::Square {
            return Rotation::Blocked;
        }
        proof {
            lemma_in_grid_rotation_range(self.current_piece);
        }
        let rotation = self.current_piece.get_rotation_type();
        let pivot = self.current_piece.squares[0].position;
        let mut rotated: Vec<Position> = Vec::new();
        let mut i: usize = 0;
        while i < 4
            invariant
                self.wf(),
                i <= 4,
                rotated@.len() == i,
                rotation == self.current_piece.rotation,
                pivot == self.current_piece.squares@[0].position,
                forall|j: int| 0 <= j < 4 ==> #[trigger] rotation_fits(self.current_piece, j),
                forall|j: int|
                    0 <= j < 4 ==> -60 <= #[trigger] piece_rotated_x(self.current_piece, j) <= 60
                        && -60 <= piece_rotated_y(self.current_piece, j) <= 60,
                forall|j: int|
                    0 <= j < i ==> (#[trigger] rotated@[j]).x as int == piece_rotated_x(
                        self.current_piece,
                        j,
                    ) && rotated@[j].y as int == piece_rotated_y(self.current_piece, j),
            decreases 4 - i,
        {
            proof {
                assert(rotation_fits(self.current_piece, i as int));
            }
            rotated.push(self.current_piece.squares[i].get_rotated_position(rotation, pivot));
            i += 1;
        }
        if self.all_rotated_free(&rotated, 0) {
            return Rotation::Regular;
        }
        if self.all_rotated_free(&rotated, 1) {
            return Rotation::ShiftedRight;
        }
        if self.all_rotated_free(&rotated, -1) {
            return Rotation::ShiftedLeft;
        }
        Rotation::Blocked
    }

    /// Rotate the active piece if the rotated positions are free, either as
    /// computed or after the one-column wall-kick shifts; fail with no
    /// mutation otherwise.
    pub fn try_rotate(&mut self) -> (r: Result<(), RotateError>)
        requires
            old(self).wf(),
        ensures
            final(self).wf(),
            r is Ok <==> rotation_possible(*old(self)),
            r is Err ==> *final(self) == *old(self),
            r is Ok ==> rotation_applied(*old(self), *final(self)),
    {
        let outcome = self.can_rotate();
        match outcome {
            Rotation::Regular => {
                proof {
                    lemma_in_grid_rotation_range(self.current_piece);
                }
                self.current_piece.rotate();
                proof {
                    self.lemma_rotation_preserves_wf(*old(self), 0);
                }
                Ok(())
            },
            Rotation::ShiftedRight => {
                proof {
                    lemma_in_grid_can_translate(old(self).current_piece, 1, 0);
                }
                self.current_piece.translate(Position { x: 1, y: 0 });
                proof {
                    lemma_shifted_rotation_range(old(self).current_piece, self.current_piece, 1);
                }
                let ghost mid = self.current_piece;
                self.current_piece.rotate();
                proof {
                    crate::piece::lemma_translate_then_rotate(
                        old(self).current_piece,
                        mid,
                        self.current_piece,
                        1,
                    );
                    self.lemma_rotation_preserves_wf(*old(self), 1);
                }
                Ok(())
            },
            Rotation::ShiftedLeft => {
                proof {
                    lemma_in_grid_can_translate(old(self).current_piece, -1, 0);
                }
                self.current_piece.translate(Position { x: -1, y: 0 });
                proof {
                    lemma_shifted_rotation_range(old(self).current_piece, self.current_piece, -1);
                }
                let ghost mid = self.current_piece;
                self.current_piece.rotate();
                proof {
                    crate::piece::lemma_translate_then_rotate(
                        old(self).current_piece,
                        mid,
                        self.current_piece,
                        -1,
                    );
                    self.lemma_rotation_preserves_wf(*old(self), -1);
                }
                Ok(())
            },
            Rotation::Blocked => Err(RotateError),
        }
    }

    /// After a (possibly kicked) rotation whose target cells were free, the
    /// piece is back on the board and its pivot is still within a cell of
    /// its first square.
    proof fn lemma_rotation_preserves_wf(&self, pre: GameBoard, dx: int)
        requires
            pre.wf(),
            self.space_board@ == pre.space_board@,
            pre.rotation_fits_board(pre.current_piece, dx),
            is_rotated_with_shift(pre.current_piece, self.current_piece, dx),
        ensures
            self.current_piece.wf(),
            piece_in_grid(self.current_piece),
            pivot_ok(self.current_piece),
    {
        assert forall|i: int|
            0 <= i < self.current_piece.squares@.len() implies in_bounds(
            (#[trigger] self.current_piece.squares@[i]).position.x as int,
            self.current_piece.squares@[i].position.y as int,
        ) by {
            assert(pre.spec_is_free(
                piece_rotated_x(pre.current_piece, i) + dx,
                piece_rotated_y(pre.current_piece, i),
            ));
        }
        match (pre.current_piece.rotation, self.current_piece.rotation) {
            (RotationType::AroundPoint(a), RotationType::AroundPoint(b)) => {
                assert(self.current_piece.squares@[0].position.x as int == piece_rotated_x(
                    pre.current_piece,
                    0,
                ) + dx);
                assert(piece_rotated_x(pre.current_piece, 0) == pre.current_piece.squares@[0].position.y as int
                    - a.y as int + a.x as int - 1);
            },
            _ => {},
        }
    }

    /// Whether one of the active piece's squares stands on `row`.
    fn piece_touches(&self, row: usize) -> (r: bool)
        requires
            self.current_piece.wf(),
            row < BOARD_HEIGHT,
        ensures
            r == piece_touches_row(self.current_piece, row as int),
    {
        let mut i: usize = 0;
        while i < 4
            invariant
                self.current_piece.wf(),
                i <= 4,
                row < 22,
                forall|j: int|
                    0 <= j < i ==> (#[trigger] self.current_piece.squares@[j]).position.y as int
                        != row as int,
            decreases 4 - i,
        {
            if self.current_piece.squares[i].position.y == row as isize {
                proof {
                    assert(self.current_piece.squares@[i as int].position.y as int == row as int);
                }
                return true;
            }
            i += 1;
        }
        false
    }

    /// Move the just-drawn piece from the spawn anchor to the play anchor.
    fn initialize_piece_position(&mut self)
        requires
            old(self).current_piece.wf(),
            is_spawn_piece(old(self).current_piece, old(self).current_piece.piece_type),
        ensures
            is_play_piece(final(self).current_piece, old(self).current_piece.piece_type),
            final(self).current_piece.wf(),
            *final(self) == (GameBoard {
                current_piece: final(self).current_piece,
                ..*old(self)
            }),
    {
        let ghost t = self.current_piece.piece_type;
        let ghost p0 = self.current_piece;
        proof {
            crate::piece_factory::lemma_spawn_offsets_bounds(t);
            assert forall|i: int|
                0 <= i < p0.squares@.len() implies fits_isize(
                (#[trigger] p0.squares@[i]).position.x as int + (PLAY_X - SPAWN_X) as int,
            ) && fits_isize(
                p0.squares@[i].position.y as int + (PLAY_Y - SPAWN_Y) as int,
            ) by {
                assert(p0.squares@[i].position.x as int == SPAWN_X as int + spawn_offsets(t)[i].0);
                assert(p0.squares@[i].position.y as int == SPAWN_Y as int + spawn_offsets(t)[i].1);
            }
        }
        self.current_piece.translate(
            Position { x: PLAY_X - SPAWN_X, y: PLAY_Y - SPAWN_Y },
        );
        proof {
            crate::piece_factory::lemma_translated_piece_at(
                p0,
                self.current_piece,
                t,
                SPAWN_X as int,
                SPAWN_Y as int,
                PLAY_X as int - SPAWN_X as int,
                PLAY_Y as int - SPAWN_Y as int,
            );
        }
    }

    /// Bring the next piece into play: take the queue's front, replenish the
    /// queue from the supply, position the new piece at the play anchor, and
    /// raise the game-over flag if any of its cells is not free.
    fn draw(&mut self)
        requires
            old(self).wf_support(),
        ensures
            final(self).wf(),
            is_play_piece(final(self).current_piece, old(self).next_pieces@[0].piece_type),
            final(self).next_pieces@.len() == 5,
            forall|i: int|
                0 <= i < 4 ==> final(self).next_pieces@[i] == old(self).next_pieces@[i + 1],
            is_spawn_piece(
                final(self).next_pieces@[4],
                kind_at(old(self).piece_provider.seed, old(self).piece_provider.draws@),
            ),
            final(self).piece_provider.seed == old(self).piece_provider.seed,
            final(self).piece_provider.draws@ == old(self).piece_provider.draws@ + 1,
            final(self).game_over == !final(self).piece_fits(final(self).current_piece, 0, 0),
            *final(self) == (GameBoard {
                current_piece: final(self).current_piece,
                next_pieces: final(self).next_pieces,
                piece_provider: final(self).piece_provider,
                game_over: final(self).game_over,
                ..*old(self)
            }),
    {
        let popped = self.next_pieces.pop_front();
        let piece = match popped {
            Some(p) => p,
            None => {
                proof {
                    assert(false);
                }
                PieceFactory::get_piece(PieceType::T)
            },
        };
        self.current_piece = piece;
        let fresh = self.piece_provider.get_piece();
        self.next_pieces.push_back(fresh);
        self.initialize_piece_position();
        proof {
            lemma_play_piece_ok(self.current_piece, self.current_piece.piece_type);
        }
        let fits = self.can_spawn();
        self.game_over = !fits;
    }

    /// Lock the active piece into the grid, resolve line clears over the
    /// rows it touched (highest first), award the score table value times
    /// the level, bring the next piece into play (raising game-over if it
    /// does not fit), and re-arm the hold slot.
    pub fn lock_current_piece(&mut self)
        requires
            old(self).wf(),
            old(self).score + 800 * old(self).level <= u32::MAX,
            old(self).lines_cleared + 22 <= u32::MAX,
        ensures
            final(self).wf(),
            lock_applied(*old(self), *final(self)),
    {
        let ghost sp0 = self.space_board@;
        let ghost sq0 = self.square_board@;
        let ghost piece = self.current_piece;
        let mut si: usize = 0;
        while si < 4
            invariant
                piece == self.current_piece,
                piece == old(self).current_piece,
                piece.wf(),
                piece_in_grid(piece),
                sp0 == old(self).space_board@,
                sq0 == old(self).square_board@,
                sp0.len() == 220,
                sq0.len() == 220,
                si <= 4,
                self.space_board@.len() == 220,
                self.square_board@.len() == 220,
                self.space_board@ == write_piece_sp(sp0, piece, si as int),
                self.square_board@ == write_piece_sq(sq0, piece, si as int),
                grids_consistent(self.space_board@, self.square_board@),
                *self == (GameBoard {
                    space_board: self.space_board,
                    square_board: self.square_board,
                    ..*old(self)
                }),
            decreases 4 - si,
        {
            let sqr = self.current_piece.squares[si];
            proof {
                assert(in_bounds(sqr.position.x as int, sqr.position.y as int));
            }
            let idx = (sqr.position.x as usize) * BOARD_HEIGHT + (sqr.position.y as usize);
            proof {
                assert(idx as int == cell_idx(sqr.position.x as int, sqr.position.y as int));
                assert(idx < 220);
            }
            self.space_board.set(idx, true);
            self.square_board.set(idx, Some(sqr));
            si += 1;
        }
        let ghost written_sp = self.space_board@;
        let ghost written_sq = self.square_board@;
        let mut rows: Vec<usize> = Vec::new();
        let mut k: usize = 0;
        proof {
            assert(rows_desc().take(0) =~= Seq::<int>::empty());
            assert(rows@.map_values(|u: usize| u as int) =~= touched_rows_upto(piece, 0));
        }
        while k < BOARD_HEIGHT
            invariant
                piece == self.current_piece,
                piece.wf(),
                k <= 22,
                rows@.map_values(|u: usize| u as int) == touched_rows_upto(piece, k as int),
                rows@.len() <= k,
                forall|i: int| 0 <= i < rows@.len() ==> (#[trigger] rows@[i]) < 22,
                *self == (GameBoard {
                    space_board: self.space_board,
                    square_board: self.square_board,
                    ..*old(self)
                }),
                self.space_board@ == written_sp,
                self.square_board@ == written_sq,
            decreases 22 - k,
        {
            let row = BOARD_HEIGHT - 1 - k;
            let ghost pre_rows = rows@;
            let touches = self.piece_touches(row);
            if touches {
                rows.push(row);
            }
            proof {
                reveal_with_fuel(Seq::<_>::filter, 2);
                let taken = rows_desc().take(k as int);
                let taken1 = rows_desc().take(k as int + 1);
                assert(taken1.drop_last() =~= taken);
                assert(taken1.last() == 21 - k as int);
                assert(row as int == 21 - k as int);
                assert(touched_rows_upto(piece, k as int + 1) == if piece_touches_row(
                    piece,
                    21 - k as int,
                ) {
                    touched_rows_upto(piece, k as int).push(21 - k as int)
                } else {
                    touched_rows_upto(piece, k as int)
                });
                if touches {
                    assert(rows@ == pre_rows.push(row));
                    assert(rows@.map_values(|u: usize| u as int) =~= pre_rows.map_values(
                        |u: usize| u as int,
                    ).push(row as int));
                } else {
                    assert(rows@.map_values(|u: usize| u as int) == touched_rows_upto(
                        piece,
                        k as int,
                    ));
                }
            }
            k += 1;
        }
        proof {
            assert(rows_desc().take(22) =~= rows_desc());
            assert(rows@.map_values(|u: usize| u as int) == touched_rows(piece));
        }
        self.check_complete_line(&rows);
        proof {
            lemma_clear_pass_len(written_sp, written_sq, touched_rows(piece));
        }
        self.draw();
        self.can_swap = true;
    }

    /// Set the active piece aside. Fails (with no mutation) when the hold
    /// slot was already used since the last lock. Otherwise the active
    /// piece, reset to its spawn rotation and repositioned to the play
    /// anchor, goes into the hold slot; what was held re-enters play, or -
    /// on the first-ever hold - the next queued piece is drawn instead.
    pub fn try_swap(&mut self) -> (r: Result<(), SwapError>)
        requires
            old(self).wf(),
        ensures
            final(self).wf(),
            r is Ok <==> old(self).can_swap,
            !old(self).can_swap ==> *final(self) == *old(self),
            old(self).can_swap ==> swap_applied(*old(self), *final(self)),
    {
        if !self.can_swap {
            return Err(SwapError);
        }
        let ty = self.current_piece.get_piece_type();
        let mut fresh = PieceFactory::get_piece(ty);
        let ghost fresh0 = fresh;
        proof {
            crate::piece_factory::lemma_spawn_offsets_bounds(ty);
            assert forall|i: int|
                0 <= i < fresh0.squares@.len() implies fits_isize(
                (#[trigger] fresh0.squares@[i]).position.x as int + (PLAY_X as int - SPAWN_X
                    as int),
            ) && fits_isize(
                fresh0.squares@[i].position.y as int + (PLAY_Y as int - SPAWN_Y as int),
            ) by {
                assert(fresh0.squares@[i].position.x as int == SPAWN_X as int + spawn_offsets(
                    ty,
                )[i].0);
                assert(fresh0.squares@[i].position.y as int == SPAWN_Y as int + spawn_offsets(
                    ty,
                )[i].1);
            }
            assert(fresh0.squares@[0].position.x as int == SPAWN_X as int + spawn_offsets(ty)[0].0);
            assert(fresh0.squares@[0].position.y as int == SPAWN_Y as int + spawn_offsets(ty)[0].1);
        }
        fresh.move_at(Position { x: PLAY_X, y: PLAY_Y });
        proof {
            crate::piece_factory::lemma_translated_piece_at(
                fresh0,
                fresh,
                ty,
                SPAWN_X as int,
                SPAWN_Y as int,
                PLAY_X as int - SPAWN_X as int,
                PLAY_Y as int - SPAWN_Y as int,
            );
        }
        let held = self.held_piece.take();
        match held {
            Some(h) => {
                self.current_piece = h;
                self.held_piece = Some(fresh);
                proof {
                    lemma_play_piece_ok(h, h.piece_type);
                }
            },
            None => {
                self.held_piece = Some(fresh);
                self.draw();
            },
        }
        self.can_swap = false;
        Ok(())
    }

    /// Gravity primitive: move the active piece one row down, or fail with
    /// no mutation when it is blocked.
    pub fn try_fall(&mut self) -> (r: Result<(), FallError>)
        requires
            old(self).wf(),
        ensures
            final(self).wf(),
            r is Ok <==> old(self).piece_fits(old(self).current_piece, 0, -1),
            r is Err ==> *final(self) == *old(self),
            r is Ok ==> fall_applied(*old(self), *final(self)),
    {
        if self.can_fall() {
            proof {
                lemma_in_grid_can_translate(old(self).current_piece, 0, -1);
            }
            self.current_piece.translate(Position { x: 0, y: -1 });
            Ok(())
        } else {
            Err(FallError)
        }
    }

    /// Move the active piece one step in the given direction, or fail with
    /// no mutation when it is blocked. A soft drop (`Bottom`) scores one
    /// point; a hard drop (`Top`) repeatedly falls until blocked, scoring
    /// two points per row dropped.
    pub fn try_move(&mut self, direction: Direction) -> (r: Result<(), MoveError>)
        requires
            old(self).wf(),
            direction is Bottom || direction is Top ==> old(self).score as int + 44 <= u32::MAX
                as int,
        ensures
            final(self).wf(),
            r is Ok <==> old(self).piece_fits(
                old(self).current_piece,
                dir_dx(direction),
                dir_dy(direction),
            ),
            r is Err ==> *final(self) == *old(self),
            r is Ok ==> move_applied(*old(self), *final(self), direction),
    {
        if !self.can_move(direction) {
            return Err(MoveError);
        }
        match direction {
            Direction::Left => {
                proof {
                    lemma_in_grid_can_translate(old(self).current_piece, -1, 0);
                }
                self.current_piece.translate(Position { x: -1, y: 0 });
            },
            Direction::Right => {
                proof {
                    lemma_in_grid_can_translate(old(self).current_piece, 1, 0);
                }
                self.current_piece.translate(Position { x: 1, y: 0 });
            },
            Direction::Bottom => {
                proof {
                    lemma_in_grid_can_translate(old(self).current_piece, 0, -1);
                }
                self.current_piece.translate(Position { x: 0, y: -1 });
                self.score = self.score + SOFT_DROP_SCORE;
            },
            Direction::Top => {
                let ghost mut d: int = 0;
                while self.can_fall()
                    invariant
                        old(self).wf(),
                        self.wf(),
                        0 <= d <= 21,
                        old(self).score as int + 44 <= u32::MAX as int,
                        old(self).piece_fits(old(self).current_piece, 0, -1),
                        is_translated(old(self).current_piece, self.current_piece, 0, -d),
                        forall|j: int|
                            -d <= j <= -1 ==> #[trigger] old(self).piece_fits(
                                old(self).current_piece,
                                0,
                                j,
                            ),
                        self.score == old(self).score + HARD_DROP_SCORE * d,
                        *self == (GameBoard {
                            current_piece: self.current_piece,
                            score: self.score,
                            ..*old(self)
                        }),
                    decreases 22 - d,
                {
                    proof {
                        lemma_in_grid_can_translate(self.current_piece, 0, -1);
                        assert(old(self).piece_fits(old(self).current_piece, 0, -(d + 1))) by {
                            assert forall|i: int|
                                0 <= i < old(self).current_piece.squares@.len() implies old(
                                self,
                            ).spec_is_free(
                                (#[trigger] old(self).current_piece.squares@[i]).position.x as int,
                                old(self).current_piece.squares@[i].position.y as int - (d + 1),
                            ) by {
                                assert(self.piece_fits(self.current_piece, 0, -1));
                                assert(self.spec_is_free(
                                    self.current_piece.squares@[i].position.x as int,
                                    self.current_piece.squares@[i].position.y as int - 1,
                                ));
                            }
                        }
                        assert(old(self).current_piece.squares@[0].position.y as int - (d + 1)
                            >= 0);
                    }
                    self.current_piece.translate(Position { x: 0, y: -1 });
                    self.score = self.score + HARD_DROP_SCORE;
                    proof {
                        d = d + 1;
                    }
                }
                proof {
                    if d == 0 {
                        assert forall|i: int|
                            0 <= i < self.current_piece.squares@.len() implies self.spec_is_free(
                            (#[trigger] self.current_piece.squares@[i]).position.x as int,
                            self.current_piece.squares@[i].position.y as int - 1,
                        ) by {
                            assert(old(self).spec_is_free(
                                old(self).current_piece.squares@[i].position.x as int,
                                old(self).current_piece.squares@[i].position.y as int - 1,
                            ));
                        }
                        assert(false);
                    }
                    assert(d >= 1);
                    assert(!self.piece_fits(self.current_piece, 0, -1));
                    assert(!old(self).piece_fits(old(self).current_piece, 0, -(d + 1))) by {
                        if old(self).piece_fits(old(self).current_piece, 0, -(d + 1)) {
                            assert forall|i: int|
                                0 <= i < self.current_piece.squares@.len() implies self.spec_is_free(
                                (#[trigger] self.current_piece.squares@[i]).position.x as int,
                                self.current_piece.squares@[i].position.y as int - 1,
                            ) by {
                                assert(old(self).spec_is_free(
                                    old(self).current_piece.squares@[i].position.x as int,
                                    old(self).current_piece.squares@[i].position.y as int - (d
                                        + 1),
                                ));
                            }
                        }
                    }
                }
            },
        }
        Ok(())
    }
}

/// The rotated positions of a piece whose squares lie in a small box around
/// the board, with its pivot nearby, stay within a small box too - in
/// particular within the machine integer range.
pub proof fn lemma_rotation_range_boxed(p: Piece)
    requires
        p.wf(),
        forall|i: int|
            0 <= i < 4 ==> -2 <= (#[trigger] p.squares@[i]).position.x as int <= 12 && -2
                <= p.squares@[i].position.y as int <= 23,
        match p.rotation {
            RotationType::AroundPoint(c) => -4 <= c.x as int <= 14 && -4 <= c.y as int <= 25,
            RotationType::AroundSquare => true,
        },
    ensures
        forall|i: int| 0 <= i < 4 ==> #[trigger] rotation_fits(p, i),
        forall|i: int|
            0 <= i < 4 ==> -60 <= #[trigger] piece_rotated_x(p, i) <= 60 && -60 <= piece_rotated_y(
                p,
                i,
            ) <= 60,
{
    assert forall|i: int| 0 <= i < 4 implies #[trigger] rotation_fits(p, i) && -60
        <= piece_rotated_x(p, i) <= 60 && -60 <= piece_rotated_y(p, i) <= 60 by {
        assert(-2 <= p.squares@[i].position.x as int <= 12);
        assert(-2 <= p.squares@[0].position.x as int <= 12);
    }
}

/// The rotated positions of a piece standing on the board are bounded.
pub proof fn lemma_in_grid_rotation_range(p: Piece)
    requires
        p.wf(),
        piece_in_grid(p),
        pivot_ok(p),
    ensures
        forall|i: int| 0 <= i < 4 ==> #[trigger] rotation_fits(p, i),
        forall|i: int|
            0 <= i < 4 ==> -60 <= #[trigger] piece_rotated_x(p, i) <= 60 && -60 <= piece_rotated_y(
                p,
                i,
            ) <= 60,
{
    assert forall|i: int|
        0 <= i < 4 implies -2 <= (#[trigger] p.squares@[i]).position.x as int <= 12 && -2
        <= p.squares@[i].position.y as int <= 23 by {
        assert(in_bounds(p.squares@[i].position.x as int, p.squares@[i].position.y as int));
    }
    assert(in_bounds(p.squares@[0].position.x as int, p.squares@[0].position.y as int));
    lemma_rotation_range_boxed(p);
}

/// The rotated positions of a piece that stood on the board and was then
/// shifted one column for a wall kick are bounded.
pub proof fn lemma_shifted_rotation_range(p0: Piece, p1: Piece, dx: int)
    requires
        p0.wf(),
        piece_in_grid(p0),
        pivot_ok(p0),
        -1 <= dx <= 1,
        is_translated(p0, p1, dx, 0),
    ensures
        forall|i: int| 0 <= i < 4 ==> #[trigger] rotation_fits(p1, i),
{
    assert forall|i: int|
        0 <= i < 4 implies -2 <= (#[trigger] p1.squares@[i]).position.x as int <= 12 && -2
        <= p1.squares@[i].position.y as int <= 23 by {
        assert(in_bounds(p0.squares@[i].position.x as int, p0.squares@[i].position.y as int));
        assert(p1.squares@[i].position.x as int == p0.squares@[i].position.x as int + dx);
    }
    match p1.rotation {
        RotationType::AroundPoint(c) => {
            assert(in_bounds(p0.squares@[0].position.x as int, p0.squares@[0].position.y as int));
        },
        RotationType::AroundSquare => {},
    }
    lemma_rotation_range_boxed(p1);
}

/// `post` is `pre` with its active piece fallen one row; nothing else
/// changed.
pub open spec fn fall_applied(pre: GameBoard, post: GameBoard) -> bool {
    &&& is_translated(pre.current_piece, post.current_piece, 0, -1)
    &&& post == (GameBoard { current_piece: post.current_piece, ..pre })
}

/// `post` is `pre` after a successful move in direction `d`: a unit shift
/// for the lateral directions, a scored unit fall for a soft drop, and a
/// scored fall-until-blocked for a hard drop.
pub open spec fn move_applied(pre: GameBoard, post: GameBoard, d: Direction) -> bool {
    match d {
        Direction::Left => is_translated(pre.current_piece, post.current_piece, -1, 0) && post
            == (GameBoard { current_piece: post.current_piece, ..pre }),
        Direction::Right => is_translated(pre.current_piece, post.current_piece, 1, 0) && post
            == (GameBoard { current_piece: post.current_piece, ..pre }),
        Direction::Bottom => is_translated(pre.current_piece, post.current_piece, 0, -1)
            && post.score == pre.score + SOFT_DROP_SCORE && post == (GameBoard {
            current_piece: post.current_piece,
            score: post.score,
            ..pre
        }),
        Direction::Top => exists|dd: int|
            {
                &&& 1 <= dd <= 21
                &&& #[trigger] is_translated(pre.current_piece, post.current_piece, 0, -dd)
                &&& forall|j: int|
                    -dd <= j <= -1 ==> #[trigger] pre.piece_fits(pre.current_piece, 0, j)
                &&& !pre.piece_fits(pre.current_piece, 0, -(dd + 1))
                &&& post.score == pre.score + HARD_DROP_SCORE * dd
                &&& post == (GameBoard {
                    current_piece: post.current_piece,
                    score: post.score,
                    ..pre
                })
            },
    }
}

/// The limited wall-kick policy lets the active piece of `pre` rotate.
pub open spec fn rotation_possible(pre: GameBoard) -> bool {
    pre.current_piece.piece_type != PieceType::Square && (pre.rotation_fits_board(
        pre.current_piece,
        0,
    ) || pre.rotation_fits_board(pre.current_piece, 1) || pre.rotation_fits_board(
        pre.current_piece,
        -1,
    ))
}

/// `post` is `pre` after a successful rotation, with the ordered kick
/// fallback: unshifted if that fits, else one column right, else one left.
pub open spec fn rotation_applied(pre: GameBoard, post: GameBoard) -> bool {
    &&& post == (GameBoard { current_piece: post.current_piece, ..pre })
    &&& (if pre.rotation_fits_board(pre.current_piece, 0) {
        is_rotated_with_shift(pre.current_piece, post.current_piece, 0)
    } else if pre.rotation_fits_board(pre.current_piece, 1) {
        is_rotated_with_shift(pre.current_piece, post.current_piece, 1)
    } else {
        is_rotated_with_shift(pre.current_piece, post.current_piece, -1)
    })
}

/// `post` is `pre` after a successful hold: the active piece, reset to its
/// spawn rotation at the play anchor, fills the hold slot; what was held
/// re-enters play, or on a first-ever hold the queue advances; the hold
/// slot is disarmed.
pub open spec fn swap_applied(pre: GameBoard, post: GameBoard) -> bool {
    &&& post.can_swap == false
    &&& (match post.held_piece {
        Option::Some(nh) => is_play_piece(nh, pre.current_piece.piece_type),
        Option::None => false,
    })
    &&& (match pre.held_piece {
        Option::Some(h) => {
            &&& post.current_piece == h
            &&& post == (GameBoard {
                current_piece: post.current_piece,
                held_piece: post.held_piece,
                can_swap: false,
                ..pre
            })
        },
        Option::None => {
            &&& is_play_piece(post.current_piece, pre.next_pieces@[0].piece_type)
            &&& post.next_pieces@.len() == 5
            &&& forall|i: int| 0 <= i < 4 ==> post.next_pieces@[i] == pre.next_pieces@[i + 1]
            &&& is_spawn_piece(
                post.next_pieces@[4],
                kind_at(pre.piece_provider.seed, pre.piece_provider.draws@),
            )
            &&& post.piece_provider.seed == pre.piece_provider.seed
            &&& post.piece_provider.draws@ == pre.piece_provider.draws@ + 1
            &&& post.game_over == !post.piece_fits(post.current_piece, 0, 0)
            &&& post.space_board@ == pre.space_board@
            &&& post.square_board@ == pre.square_board@
            &&& post.score == pre.score
            &&& post.level == pre.level
            &&& post.lines_cleared == pre.lines_cleared
        },
    })
}

/// `post` is `pre` after locking the active piece: its four cells are
/// written into the grids, a line-clear pass over the touched rows (highest
/// first) resolves, the score table pays out times the level, the queue
/// advances, the next piece enters play (raising game-over if it does not
/// fit), and the hold slot is re-armed.
pub open spec fn lock_applied(pre: GameBoard, post: GameBoard) -> bool {
    let written_sp = write_piece_sp(pre.space_board@, pre.current_piece, 4);
    let written_sq = write_piece_sq(pre.square_board@, pre.current_piece, 4);
    let outcome = clear_pass(written_sp, written_sq, touched_rows(pre.current_piece));
    &&& post.space_board@ == outcome.0
    &&& post.square_board@ == outcome.1
    &&& post.lines_cleared == pre.lines_cleared + outcome.2
    &&& post.score == pre.score + line_points(outcome.2) * pre.level
    &&& post.can_swap == true
    &&& is_play_piece(post.current_piece, pre.next_pieces@[0].piece_type)
    &&& post.next_pieces@.len() == 5
    &&& (forall|i: int| 0 <= i < 4 ==> post.next_pieces@[i] == pre.next_pieces@[i + 1])
    &&& is_spawn_piece(
        post.next_pieces@[4],
        kind_at(pre.piece_provider.seed, pre.piece_provider.draws@),
    )
    &&& post.piece_provider.seed == pre.piece_provider.seed
    &&& post.piece_provider.draws@ == pre.piece_provider.draws@ + 1
    &&& post.game_over == !post.piece_fits(post.current_piece, 0, 0)
    &&& post.held_piece == pre.held_piece
    &&& post.level == pre.level
}

/// A play-fresh piece is well formed, stands on the board, and has its
/// pivot on its first square.
pub proof fn lemma_play_piece_ok(p: Piece, t: PieceType)
    requires
        is_play_piece(p, t),
    ensures
        p.wf(),
        piece_in_grid(p),
        pivot_ok(p),
{
    crate::piece_factory::lemma_spawn_offsets_bounds(t);
    assert forall|i: int|
        0 <= i < p.squares@.len() implies in_bounds(
        (#[trigger] p.squares@[i]).position.x as int,
        p.squares@[i].position.y as int,
    ) by {
        assert(p.squares@[i].position.x as int == PLAY_X as int + spawn_offsets(t)[i].0);
        assert(p.squares@[i].position.y as int == PLAY_Y as int + spawn_offsets(t)[i].1);
    }
    assert(p.squares@[0].position.x as int == PLAY_X as int + spawn_offsets(t)[0].0);
    assert(p.squares@[0].position.y as int == PLAY_Y as int + spawn_offsets(t)[0].1);
}

/// A line-clear pass never changes the size of either grid.
pub proof fn lemma_clear_pass_len(sp: Seq<bool>, sq: Seq<Option<Square>>, rows: Seq<int>)
    ensures
        clear_pass(sp, sq, rows).0.len() == sp.len(),
        clear_pass(sp, sq, rows).1.len() == sq.len(),
    decreases rows.len(),
{
    if rows.len() == 0 {
    } else {
        let r0 = rows[0];
        if row_full(sp, r0) {
            let limit = first_free_row_from(sp, r0);
            lemma_clear_pass_len(
                shift_rows(sp, r0, limit),
                shift_rows(sq, r0, limit),
                rows.drop_first(),
            );
        } else {
            lemma_clear_pass_len(sp, sq, rows.drop_first());
        }
    }
}

/// The first-free-row scan lands between its start and the top row.
pub proof fn lemma_first_free_range(g: Seq<bool>, r: int)
    requires
        r <= 21,
    ensures
        r <= first_free_row_from(g, r) <= 21,
    decreases 21 - r,
{
    if r >= 21 {
    } else if row_empty(g, r) {
    } else {
        lemma_first_free_range(g, r + 1);
    }
}

/// Shifting both grids over the same row span keeps them consistent.
pub proof fn lemma_shift_preserves_consistency(
    sp: Seq<bool>,
    sq: Seq<Option<Square>>,
    from: int,
    limit: int,
)
    requires
        sp.len() == 220,
        sq.len() == 220,
        grids_consistent(sp, sq),
        0 <= from,
        limit < 22,
    ensures
        grids_consistent(shift_rows(sp, from, limit), shift_rows(sq, from, limit)),
{
    assert forall|j: int| 0 <= j < 220 implies (shift_rows(sp, from, limit)[j] <==> (
    #[trigger] shift_rows(sq, from, limit)[j]) is Some) by {
        vstd::arithmetic::div_mod::lemma_fundamental_div_mod(j, 22);
        if from <= j % 22 < limit {
            assert(0 <= j + 1 < 220);
            assert(sp[j + 1] <==> sq[j + 1] is Some);
        } else {
            assert(sp[j] <==> sq[j] is Some);
        }
    }
}

/// A piece on the board (with its pivot within a cell of its first square)
/// can be shifted a few cells without leaving the machine integer range.
pub proof fn lemma_in_grid_can_translate(p: Piece, dx: int, dy: int)
    requires
        p.wf(),
        piece_in_grid(p),
        pivot_ok(p),
        -2 <= dx <= 2,
        -2 <= dy <= 2,
    ensures
        can_translate(p, dx, dy),
{
    assert forall|i: int|
        0 <= i < p.squares@.len() implies fits_isize(
        (#[trigger] p.squares@[i]).position.x as int + dx,
    ) && fits_isize(p.squares@[i].position.y as int + dy) by {
        assert(in_bounds(p.squares@[i].position.x as int, p.squares@[i].position.y as int));
    }
    match p.rotation {
        RotationType::AroundPoint(c) => {
            assert(in_bounds(p.squares@[0].position.x as int, p.squares@[0].position.y as int));
        },
        RotationType::AroundSquare => {},
    }
}

} // verus!
