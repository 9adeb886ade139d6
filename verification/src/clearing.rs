use vstd::prelude::*;

use crate::gameboard::{
    cell_idx, clear_pass, first_free_row_from, lock_applied, piece_in_grid, piece_touches_row,
    row_empty, row_full, rows_desc, shift_rows, touched_rows, touched_rows_upto, write_piece_sp,
    write_piece_sq, GameBoard,
};
use crate::piece::{Piece, Square};

verus! {

/// The stack is settled: above any fully-empty row, every row is fully
/// empty. Boards reached through ordinary play have this shape - pieces
/// rest on the stack and line clears collapse everything above the cleared
/// row - and it is what makes the one-pass collapse of `clear_pass` behave
/// as a deletion of rows.
pub open spec fn settled(g: Seq<bool>) -> bool {
    forall|r1: int, r2: int|
        0 <= r1 < r2 < 22 && #[trigger] row_empty(g, r1) ==> #[trigger] row_empty(g, r2)
}

/// How many rows strictly below `r` are fully occupied.
pub open spec fn full_count_below(g: Seq<bool>, r: int) -> nat
    decreases r,
{
    if r <= 0 {
        0
    } else {
        full_count_below(g, r - 1) + (if row_full(g, r - 1) {
            1nat
        } else {
            0nat
        })
    }
}

/// `rows` is strictly decreasing.
pub open spec fn strictly_desc(rows: Seq<int>) -> bool {
    forall|i: int, j: int| 0 <= i < j < rows.len() ==> rows[i] > rows[j]
}

/// Counting full rows only looks at the rows below the cut.
proof fn lemma_count_congruent(g1: Seq<bool>, g2: Seq<bool>, r: int)
    requires
        forall|q: int| 0 <= q < r ==> (row_full(g1, q) <==> row_full(g2, q)),
    ensures
        full_count_below(g1, r) == full_count_below(g2, r),
    decreases r,
{
    if r > 0 {
        lemma_count_congruent(g1, g2, r - 1);
    }
}

/// The count is constant over a span with no full rows.
proof fn lemma_count_stable(g: Seq<bool>, a: int, b: int)
    requires
        a <= b,
        forall|q: int| a <= q < b ==> !row_full(g, q),
    ensures
        full_count_below(g, b) == full_count_below(g, a),
    decreases b - a,
{
    if a < b {
        lemma_count_stable(g, a, b - 1);
    }
}

/// Clearing a full row of a settled grid whose top row is empty deletes
/// that row: everything at or above it takes the contents of the row one
/// higher, the top row stays empty, rows below are untouched, and the grid
/// is settled again.
proof fn lemma_clear_one_deletes(g: Seq<bool>, r0: int)
    requires
        g.len() == 220,
        settled(g),
        row_empty(g, 21),
        0 <= r0 < 22,
        row_full(g, r0),
    ensures
        ({
            let h = first_free_row_from(g, r0);
            let g1 = shift_rows(g, r0, h);
            &&& forall|c: int, r: int|
                0 <= c < 10 && r0 <= r < 21 ==> g1[#[trigger] cell_idx(c, r)] == g[cell_idx(
                    c,
                    r + 1,
                )]
            &&& forall|c: int| 0 <= c < 10 ==> !g1[#[trigger] cell_idx(c, 21)]
            &&& forall|c: int, r: int|
                0 <= c < 10 && 0 <= r < r0 ==> g1[#[trigger] cell_idx(c, r)] == g[cell_idx(c, r)]
            &&& settled(g1)
            &&& row_empty(g1, 21)
        }),
{
    let h = first_free_row_from(g, r0);
    let g1 = shift_rows(g, r0, h);
    crate::gameboard::lemma_first_free_range(g, r0);
    lemma_first_free_is_free(g, r0);
    // row r0 is full, hence not empty, so the scan went past it
    assert(!row_empty(g, r0)) by {
        assert(g[cell_idx(0, r0)]);
    }
    assert(r0 < h);
    // every row at or above h is empty
    assert forall|r: int| h <= r < 22 implies row_empty(g, r) by {
        if r > h {
            assert(row_empty(g, h));
        }
    }
    assert forall|c: int, r: int| 0 <= c < 10 && 0 <= r < 22 implies #[trigger] g1[cell_idx(c, r)]
        == (if r0 <= r < h {
        g[cell_idx(c, r + 1)]
    } else {
        g[cell_idx(c, r)]
    }) by {
        let j = cell_idx(c, r);
        vstd::arithmetic::div_mod::lemma_fundamental_div_mod_converse(j, 22, c, r);
        assert(0 <= j < 220);
    }
    assert forall|c: int, r: int| 0 <= c < 10 && r0 <= r < 21 implies g1[#[trigger] cell_idx(
        c,
        r,
    )] == g[cell_idx(c, r + 1)] by {
        if r >= h {
            assert(row_empty(g, r));
            assert(row_empty(g, r + 1));
            assert(!g[cell_idx(c, r)]);
            assert(!g[cell_idx(c, r + 1)]);
        }
    }
    assert forall|c: int| 0 <= c < 10 implies !g1[#[trigger] cell_idx(c, 21)] by {
        assert(row_empty(g, 21));
        assert(!g[cell_idx(c, 21)]);
    }
    assert(row_empty(g1, 21));
    assert forall|r1: int, r2: int|
        0 <= r1 < r2 < 22 && #[trigger] row_empty(g1, r1) implies #[trigger] row_empty(
        g1,
        r2,
    ) by {
        if r2 == 21 {
        } else {
            // map both rows back to rows of g
            if r1 < r0 {
                assert(row_empty(g, r1)) by {
                    assert forall|c: int| 0 <= c < 10 implies !g[#[trigger] cell_idx(c, r1)] by {
                        assert(!g1[cell_idx(c, r1)]);
                    }
                }
                assert(row_empty(g, r2 + 1));
                assert(row_empty(g, r2));
                assert forall|c: int| 0 <= c < 10 implies !g1[#[trigger] cell_idx(c, r2)] by {
                    assert(!g[cell_idx(c, r2 + 1)]);
                    assert(!g[cell_idx(c, r2)]);
                }
            } else {
                assert(row_empty(g, r1 + 1)) by {
                    assert forall|c: int| 0 <= c < 10 implies !g[#[trigger] cell_idx(c, r1 + 1)] by {
                        assert(!g1[cell_idx(c, r1)]);
                    }
                }
                assert(row_empty(g, r2 + 1));
                assert forall|c: int| 0 <= c < 10 implies !g1[#[trigger] cell_idx(c, r2)] by {
                    assert(!g[cell_idx(c, r2 + 1)]);
                }
            }
        }
    }
}

/// A line-clear pass on a settled grid whose top row is empty, given every
/// full row among its candidates (strictly descending), acts as a deletion
/// of the full rows: it clears exactly the rows that were fully occupied,
/// each surviving row slides down by the number of full rows that lay below
/// it, and as many rows at the top become empty. This is the line-clear
/// law: every row fully occupied when the pass starts is gone afterwards,
/// and every other row has shifted down by exactly the count of cleared
/// rows below it.
pub proof fn lemma_clear_pass_is_row_deletion(
    g: Seq<bool>,
    q: Seq<Option<Square>>,
    rows: Seq<int>,
)
    requires
        g.len() == 220,
        settled(g),
        row_empty(g, 21),
        strictly_desc(rows),
        forall|i: int| 0 <= i < rows.len() ==> 0 <= #[trigger] rows[i] < 22,
        forall|r: int| 0 <= r < 22 && #[trigger] row_full(g, r) ==> rows.contains(r),
    ensures
        clear_pass(g, q, rows).2 == full_count_below(g, 22),
        forall|c: int, r: int|
            0 <= c < 10 && 0 <= r < 22 && !row_full(g, r) ==> clear_pass(g, q, rows).0[cell_idx(
                c,
                r - full_count_below(g, r),
            )] == g[#[trigger] cell_idx(c, r)],
        forall|c: int, i: int|
            0 <= c < 10 && 22 - full_count_below(g, 22) <= i < 22 ==> !clear_pass(
                g,
                q,
                rows,
            ).0[#[trigger] cell_idx(c, i)],
    decreases rows.len(),
{
    let k = full_count_below(g, 22);
    let res = clear_pass(g, q, rows);
    if rows.len() == 0 {
        assert forall|r: int| 0 <= r < 22 implies !row_full(g, r) by {
            if row_full(g, r) {
                assert(rows.contains(r));
            }
        }
        lemma_count_stable(g, 0, 22);
        assert(k == 0);
        assert forall|c: int, r: int|
            0 <= c < 10 && 0 <= r < 22 && !row_full(g, r) implies res.0[cell_idx(
            c,
            r - full_count_below(g, r),
        )] == g[#[trigger] cell_idx(c, r)] by {
            lemma_count_stable(g, 0, r);
        }
    } else {
        let r0 = rows[0];
        let rest = rows.drop_first();
        assert(rest.len() == rows.len() - 1);
        assert forall|i: int| 0 <= i < rest.len() implies 0 <= #[trigger] rest[i] < 22 && rest[i]
            < r0 by {
            assert(rest[i] == rows[i + 1]);
            assert(rows[0] > rows[i + 1]);
        }
        assert(strictly_desc(rest)) by {
            assert forall|i: int, j: int| 0 <= i < j < rest.len() implies rest[i] > rest[j] by {
                assert(rest[i] == rows[i + 1]);
                assert(rest[j] == rows[j + 1]);
            }
        }
        assert forall|r: int| 0 <= r < 22 && #[trigger] row_full(g, r) implies r <= r0 by {
            assert(rows.contains(r));
            let i = choose|i: int| 0 <= i < rows.len() && rows[i] == r;
            if i > 0 {
                assert(rows[0] > rows[i]);
            }
        }
        if row_full(g, r0) {
            let h = first_free_row_from(g, r0);
            lemma_clear_one_deletes(g, r0);
            let g1 = shift_rows(g, r0, h);
            let q1 = shift_rows(q, r0, h);
            assert(g1.len() == 220);
            // rows of g1: below r0 as in g; at or above r0, the row one
            // higher of g - so nothing at or above r0 is full any more
            assert forall|r: int| 0 <= r < 22 implies (row_full(g1, r) <==> (r < r0 && row_full(
                g,
                r,
            ))) by {
                if r < r0 {
                    assert forall|c: int| 0 <= c < 10 implies g1[#[trigger] cell_idx(c, r)] == g[
                        cell_idx(c, r)
                    ] by {}
                    if row_full(g, r) {
                        assert forall|c: int|
                            0 <= c < 10 implies g1[#[trigger] cell_idx(c, r)] by {
                            assert(g[cell_idx(c, r)]);
                        }
                    }
                    if row_full(g1, r) {
                        assert forall|c: int| 0 <= c < 10 implies g[#[trigger] cell_idx(c, r)] by {
                            assert(g1[cell_idx(c, r)]);
                        }
                    }
                } else if r < 21 {
                    if row_full(g1, r) {
                        assert forall|c: int|
                            0 <= c < 10 implies g[#[trigger] cell_idx(c, r + 1)] by {
                            assert(g1[cell_idx(c, r)]);
                        }
                        assert(row_full(g, r + 1));
                        assert(r + 1 <= r0);
                        assert(false);
                    }
                } else {
                    if row_full(g1, r) {
                        assert(g1[cell_idx(0, 21)]);
                        assert(false);
                    }
                }
            }
            assert forall|r: int|
                0 <= r < 22 && #[trigger] row_full(g1, r) implies rest.contains(r) by {
                assert(r < r0 && row_full(g, r));
                assert(rows.contains(r));
                let i = choose|i: int| 0 <= i < rows.len() && rows[i] == r;
                assert(i > 0);
                assert(rest[i - 1] == r);
            }
            lemma_clear_pass_is_row_deletion(g1, q1, rest);
            let res1 = clear_pass(g1, q1, rest);
            let k1 = full_count_below(g1, 22);
            // counts: g has the full rows of g1 plus r0 itself
            lemma_count_congruent(g1, g, r0);
            lemma_count_stable(g1, r0, 22);
            lemma_count_stable(g, r0 + 1, 22);
            assert(full_count_below(g, r0 + 1) == full_count_below(g, r0) + 1);
            assert(k == full_count_below(g, r0) + 1);
            assert(k1 == full_count_below(g, r0));
            assert(res.0 == res1.0 && res.1 == res1.1 && res.2 == res1.2 + 1);
            assert(res.2 == k);
            assert forall|c: int, r: int|
                0 <= c < 10 && 0 <= r < 22 && !row_full(g, r) implies res.0[cell_idx(
                c,
                r - full_count_below(g, r),
            )] == g[#[trigger] cell_idx(c, r)] by {
                if r < r0 {
                    lemma_count_congruent(g1, g, r);
                    assert(!row_full(g1, r));
                    assert(res1.0[cell_idx(c, r - full_count_below(g1, r))] == g1[cell_idx(c, r)]);
                    assert(g1[cell_idx(c, r)] == g[cell_idx(c, r)]);
                } else {
                    assert(r > r0);
                    assert(g1[cell_idx(c, r - 1)] == g[cell_idx(c, r)]);
                    assert(!row_full(g1, r - 1));
                    assert(res1.0[cell_idx(c, (r - 1) - full_count_below(g1, r - 1))]
                        == g1[cell_idx(c, r - 1)]);
                    lemma_count_stable(g1, r0, r - 1);
                    assert(full_count_below(g1, r - 1) == full_count_below(g, r0));
                    lemma_count_stable(g, r0 + 1, r);
                    assert(full_count_below(g, r) == full_count_below(g, r0) + 1);
                    assert((r - 1) - full_count_below(g1, r - 1) == r - full_count_below(g, r));
                }
            }
            assert forall|c: int, i: int|
                0 <= c < 10 && 22 - k <= i < 22 implies !res.0[#[trigger] cell_idx(c, i)] by {
                if i >= 22 - k1 {
                    assert(!res1.0[cell_idx(c, i)]);
                } else {
                    assert(i == 21 - k1);
                    assert(!row_full(g1, 21));
                    assert(res1.0[cell_idx(c, 21 - full_count_below(g1, 21))] == g1[cell_idx(
                        c,
                        21,
                    )]);
                    assert(!g1[cell_idx(c, 21)]);
                    assert(full_count_below(g1, 22) == full_count_below(g1, 21) + (
                    if row_full(g1, 21) {
                        1nat
                    } else {
                        0nat
                    }));
                    assert(full_count_below(g1, 21) == k1);
                }
            }
        } else {
            assert forall|r: int|
                0 <= r < 22 && #[trigger] row_full(g, r) implies rest.contains(r) by {
                assert(rows.contains(r));
                let i = choose|i: int| 0 <= i < rows.len() && rows[i] == r;
                assert(i > 0);
                assert(rest[i - 1] == r);
            }
            lemma_clear_pass_is_row_deletion(g, q, rest);
            assert(res.0 == clear_pass(g, q, rest).0);
        }
    }
}

/// Writing a piece's cells never changes the length of the grid.
proof fn lemma_write_len(g: Seq<bool>, p: Piece, n: int)
    requires
        p.wf(),
        piece_in_grid(p),
        g.len() == 220,
        0 <= n <= 4,
    ensures
        write_piece_sp(g, p, n).len() == g.len(),
    decreases n,
{
    if n > 0 {
        lemma_write_len(g, p, n - 1);
        let cx = p.squares@[n - 1].position.x as int;
        let cy = p.squares@[n - 1].position.y as int;
        assert(crate::gameboard::in_bounds(cx, cy));
        assert(0 <= cell_idx(cx, cy) < 220);
    }
}

/// A row none of the piece's squares stands on is untouched by the write.
proof fn lemma_write_untouched_row(g: Seq<bool>, p: Piece, r: int)
    requires
        p.wf(),
        piece_in_grid(p),
        g.len() == 220,
        0 <= r < 22,
        !piece_touches_row(p, r),
    ensures
        forall|c: int|
            0 <= c < 10 ==> write_piece_sp(g, p, 4)[#[trigger] cell_idx(c, r)] == g[cell_idx(
                c,
                r,
            )],
{
    assert forall|c: int| 0 <= c < 10 implies write_piece_sp(g, p, 4)[#[trigger] cell_idx(c, r)]
        == g[cell_idx(c, r)] by {
        let j = cell_idx(c, r);
        assert(0 <= j < 220);
        assert forall|i: int|
            0 <= i < 4 implies cell_idx(
            (#[trigger] p.squares@[i]).position.x as int,
            p.squares@[i].position.y as int,
        ) != j && 0 <= cell_idx(
            p.squares@[i].position.x as int,
            p.squares@[i].position.y as int,
        ) < 220 by {
            let cx = p.squares@[i].position.x as int;
            let cy = p.squares@[i].position.y as int;
            assert(crate::gameboard::in_bounds(cx, cy));
            if cell_idx(cx, cy) == j {
                vstd::arithmetic::div_mod::lemma_fundamental_div_mod_converse(j, 22, c, r);
                vstd::arithmetic::div_mod::lemma_fundamental_div_mod_converse(
                    cell_idx(cx, cy),
                    22,
                    cx,
                    cy,
                );
                assert(cy == r);
            }
        }
        lemma_write_len(g, p, 1);
        lemma_write_len(g, p, 2);
        lemma_write_len(g, p, 3);
        lemma_write_len(g, p, 4);
        assert(write_piece_sp(g, p, 4)[j] == write_piece_sp(g, p, 3)[j]);
        assert(write_piece_sp(g, p, 3)[j] == write_piece_sp(g, p, 2)[j]);
        assert(write_piece_sp(g, p, 2)[j] == write_piece_sp(g, p, 1)[j]);
        assert(write_piece_sp(g, p, 1)[j] == write_piece_sp(g, p, 0)[j]);
    }
}

/// The candidate rows built for a piece are strictly descending, on the
/// board, and include every row one of its squares stands on.
proof fn lemma_touched_rows_upto_props(p: Piece, k: int)
    requires
        p.wf(),
        0 <= k <= 22,
    ensures
        strictly_desc(touched_rows_upto(p, k)),
        forall|i: int|
            0 <= i < touched_rows_upto(p, k).len() ==> 22 - k <= #[trigger] touched_rows_upto(
                p,
                k,
            )[i] <= 21,
        forall|r: int|
            22 - k <= r <= 21 && #[trigger] piece_touches_row(p, r) ==> touched_rows_upto(
                p,
                k,
            ).contains(r),
    decreases k,
{
    if k == 0 {
        assert(rows_desc().take(0) =~= Seq::<int>::empty());
        reveal_with_fuel(Seq::<_>::filter, 2);
    } else {
        lemma_touched_rows_upto_props(p, k - 1);
        let prev = touched_rows_upto(p, k - 1);
        let cur = touched_rows_upto(p, k);
        let newest = 22 - k;
        reveal_with_fuel(Seq::<_>::filter, 2);
        let taken = rows_desc().take(k - 1);
        let taken1 = rows_desc().take(k);
        assert(taken1.drop_last() =~= taken);
        assert(taken1.last() == newest);
        assert(cur == if piece_touches_row(p, newest) {
            prev.push(newest)
        } else {
            prev
        });
        if piece_touches_row(p, newest) {
            assert forall|i: int, j: int| 0 <= i < j < cur.len() implies cur[i] > cur[j] by {
                if j < cur.len() - 1 {
                    assert(prev[i] > prev[j]);
                } else {
                    assert(cur[i] == prev[i]);
                    assert(22 - (k - 1) <= prev[i]);
                }
            }
            assert forall|r: int|
                22 - k <= r <= 21 && #[trigger] piece_touches_row(p, r) implies cur.contains(
                r,
            ) by {
                if r == newest {
                    assert(cur[cur.len() - 1] == r);
                } else {
                    assert(prev.contains(r));
                    let i = choose|i: int| 0 <= i < prev.len() && prev[i] == r;
                    assert(cur[i] == r);
                }
            }
        } else {
            assert forall|r: int|
                22 - k <= r <= 21 && #[trigger] piece_touches_row(p, r) implies cur.contains(
                r,
            ) by {
                assert(r != newest);
                assert(prev.contains(r));
            }
        }
    }
}

/// The line-clear law at the board level. Take a lock on a board with no
/// already-full rows, where the grid with the piece's cells written in is
/// settled and keeps its top row empty. Then every row fully occupied at
/// that moment is absent afterwards, every other row has slid down by
/// exactly the number of full rows that lay below it, and that many rows at
/// the top are empty; the cleared-lines counter grows by the same number.
pub proof fn lemma_lock_clears_full_rows(pre: GameBoard, post: GameBoard)
    requires
        pre.wf(),
        lock_applied(pre, post),
        settled(write_piece_sp(pre.space_board@, pre.current_piece, 4)),
        row_empty(write_piece_sp(pre.space_board@, pre.current_piece, 4), 21),
        forall|r: int| 0 <= r < 22 ==> !#[trigger] row_full(pre.space_board@, r),
    ensures
        ({
            let written = write_piece_sp(pre.space_board@, pre.current_piece, 4);
            let k = full_count_below(written, 22);
            &&& post.lines_cleared == pre.lines_cleared + k
            &&& forall|c: int, r: int|
                0 <= c < 10 && 0 <= r < 22 && !row_full(written, r)
                    ==> post.space_board@[cell_idx(c, r - full_count_below(written, r))]
                    == written[#[trigger] cell_idx(c, r)]
            &&& forall|c: int, i: int|
                0 <= c < 10 && 22 - k <= i < 22 ==> !post.space_board@[#[trigger] cell_idx(c, i)]
        }),
{
    let p = pre.current_piece;
    let written = write_piece_sp(pre.space_board@, p, 4);
    let writtenq = write_piece_sq(pre.square_board@, p, 4);
    lemma_write_len(pre.space_board@, p, 4);
    lemma_touched_rows_upto_props(p, 22);
    assert forall|r: int|
        0 <= r < 22 && #[trigger] row_full(written, r) implies touched_rows(p).contains(r) by {
        if !piece_touches_row(p, r) {
            lemma_write_untouched_row(pre.space_board@, p, r);
            assert forall|c: int| 0 <= c < 10 implies pre.space_board@[#[trigger] cell_idx(
                c,
                r,
            )] by {
                assert(written[cell_idx(c, r)]);
            }
            assert(row_full(pre.space_board@, r));
            assert(false);
        }
    }
    assert forall|i: int|
        0 <= i < touched_rows(p).len() implies 0 <= #[trigger] touched_rows(p)[i] < 22 by {
        assert(22 - 22 <= touched_rows_upto(p, 22)[i] <= 21);
    }
    lemma_clear_pass_is_row_deletion(written, writtenq, touched_rows(p));
}

/// The row the first-free scan stops on is empty, provided the top row is
/// empty.
proof fn lemma_first_free_is_free(g: Seq<bool>, r: int)
    requires
        0 <= r < 22,
        row_empty(g, 21),
    ensures
        row_empty(g, first_free_row_from(g, r)),
    decreases 21 - r,
{
    if r >= 21 {
    } else if row_empty(g, r) {
    } else {
        lemma_first_free_is_free(g, r + 1);
    }
}

} // verus!
