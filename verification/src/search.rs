//! Exhaustive full-depth search over the 3x3 board.
//!
//! [`mm_score`] is the search value of a position, always from mark X's
//! perspective: a candidate move that immediately completes a line scores
//! +1 when mark X moved and -1 when mark O moved, any other move scores the
//! value of the position it leads to with the opponent to move, mark X
//! keeps the maximum and mark O the minimum, and a board with no empty cell
//! scores 0.  Ties between equally scored moves keep the first cell in
//! row-major enumeration order; [`best_prefix`] folds the candidates in
//! exactly that order.

use vstd::prelude::*;

use crate::game::{any_win, board_grid, grid_full, line_won, opt_eq, Player};

verus! {

/// 1 when the cell is empty, 0 otherwise.
pub open spec fn empty_one(g: Seq<Option<char>>, i: int) -> nat {
    if g[i] is None {
        1nat
    } else {
        0nat
    }
}

/// Number of empty cells on the board.
pub open spec fn empty_count(g: Seq<Option<char>>) -> nat {
    empty_one(g, 0) + empty_one(g, 1) + empty_one(g, 2) + empty_one(g, 3) + empty_one(g, 4)
        + empty_one(g, 5) + empty_one(g, 6) + empty_one(g, 7) + empty_one(g, 8)
}

/// Sentinel a scan starts from: below every score for mark X, above every
/// score for mark O.
pub open spec fn init_score(p: Player) -> int {
    if p == Player::X {
        -100
    } else {
        100
    }
}

/// Mark X improves on a strictly greater score, mark O on a strictly
/// smaller one.
pub open spec fn better(p: Player, sc: int, best: int) -> bool {
    if p == Player::X {
        sc > best
    } else {
        sc < best
    }
}

/// Score of placing `p` at empty cell `i`, from mark X's perspective: +1
/// or -1 for an immediate win, otherwise the value of the resulting
/// position with the other mark to move.
pub open spec fn move_score(g: Seq<Option<char>>, p: Player, i: int) -> int
    decreases empty_count(g), i, 0int,
    when g.len() == 9
    via move_score_decreases
{
    if 0 <= i < 9 && g[i] is None {
        let g2 = g.update(i, Some(p.spec_char()));
        if any_win(g2) {
            if p == Player::X {
                1
            } else {
                -1
            }
        } else {
            mm_score(g2, p.spec_other())
        }
    } else {
        0
    }
}

#[via_fn]
proof fn move_score_decreases(g: Seq<Option<char>>, p: Player, i: int) {
    if 0 <= i < 9 && g[i] is None {
        let g2 = g.update(i, Some(p.spec_char()));
        if !any_win(g2) {
            lemma_empty_count_update(g, i, p.spec_char());
        }
    }
}

/// Best score and first best cell among the candidate cells with flat index
/// below `k`, folded in row-major order: a later candidate replaces the
/// running best only when strictly better, so the first cell achieving the
/// best score is kept.
pub open spec fn best_prefix(g: Seq<Option<char>>, p: Player, k: int) -> (int, Option<int>)
    decreases empty_count(g), k, 1int,
    when g.len() == 9
{
    if k <= 0 {
        (init_score(p), None)
    } else {
        let prev = best_prefix(g, p, k - 1);
        if g[k - 1] is None {
            let sc = move_score(g, p, k - 1);
            if better(p, sc, prev.0) {
                (sc, Some(k - 1))
            } else {
                prev
            }
        } else {
            prev
        }
    }
}

/// The search value of a position: 0 for a full board, otherwise the best
/// score over all empty cells.
pub open spec fn mm_score(g: Seq<Option<char>>, p: Player) -> int
    decreases empty_count(g), 10int, 0int,
    when g.len() == 9
{
    if empty_count(g) == 0 {
        0
    } else {
        best_prefix(g, p, 9).0
    }
}

/// The cell the search selects: the first empty cell achieving [`mm_score`],
/// or nothing on a full board.
pub open spec fn mm_move(g: Seq<Option<char>>, p: Player) -> Option<int> {
    best_prefix(g, p, 9).1
}

/// The flat index named by a (row, col) move, if any.
pub open spec fn flat_move(m: Option<(usize, usize)>) -> Option<int> {
    match m {
        None => None,
        Some((r, c)) => Some(3 * (r as int) + (c as int)),
    }
}

proof fn lemma_empty_count_update(g: Seq<Option<char>>, i: int, ch: char)
    requires
        g.len() == 9,
        0 <= i < 9,
        g[i] is None,
    ensures
        empty_count(g.update(i, Some(ch))) == empty_count(g) - 1,
{
}

proof fn lemma_empty_count_zero(g: Seq<Option<char>>)
    requires
        g.len() == 9,
    ensures
        (empty_count(g) == 0) <==> grid_full(g),
{
    if empty_count(g) == 0 {
        assert forall|i: int| 0 <= i < 9 implies (#[trigger] g[i]) is Some by {
            assert(empty_one(g, i) == 0);
        }
    }
    if grid_full(g) {
        assert(empty_one(g, 0) == 0);
        assert(empty_one(g, 1) == 0);
        assert(empty_one(g, 2) == 0);
        assert(empty_one(g, 3) == 0);
        assert(empty_one(g, 4) == 0);
        assert(empty_one(g, 5) == 0);
        assert(empty_one(g, 6) == 0);
        assert(empty_one(g, 7) == 0);
        assert(empty_one(g, 8) == 0);
    }
}

proof fn lemma_empty_count_pos(g: Seq<Option<char>>, j: int)
    requires
        g.len() == 9,
        0 <= j < 9,
        g[j] is None,
    ensures
        empty_count(g) > 0,
{
    assert(empty_one(g, j) == 1);
}

proof fn lemma_mm_bounds(g: Seq<Option<char>>, p: Player)
    requires
        g.len() == 9,
    ensures
        -1 <= mm_score(g, p) <= 1,
    decreases empty_count(g), 10int, 0int,
{
    if empty_count(g) != 0 {
        lemma_best_prefix(g, p, 9);
        lemma_empty_count_zero(g);
        if best_prefix(g, p, 9).1 is None {
            assert(grid_full(g));
            assert(false);
        }
    }
}

proof fn lemma_move_score_bounds(g: Seq<Option<char>>, p: Player, i: int)
    requires
        g.len() == 9,
        0 <= i < 9,
        g[i] is None,
    ensures
        -1 <= move_score(g, p, i) <= 1,
    decreases empty_count(g), i, 0int,
{
    let g2 = g.update(i, Some(p.spec_char()));
    if !any_win(g2) {
        lemma_empty_count_update(g, i, p.spec_char());
        lemma_mm_bounds(g2, p.spec_other());
    }
}

proof fn lemma_best_prefix(g: Seq<Option<char>>, p: Player, k: int)
    requires
        g.len() == 9,
        0 <= k <= 9,
    ensures
        best_prefix(g, p, k).1 is None ==> (forall|i: int| 0 <= i < k ==> (#[trigger] g[i]) is Some)
            && best_prefix(g, p, k).0 == init_score(p),
        (forall|i: int| 0 <= i < k ==> (#[trigger] g[i]) is Some) ==> best_prefix(g, p, k).1 is None,
        best_prefix(g, p, k).1 matches Some(j) ==> {
            &&& 0 <= j < k
            &&& g[j] is None
            &&& move_score(g, p, j) == best_prefix(g, p, k).0
            &&& -1 <= best_prefix(g, p, k).0 <= 1
            &&& forall|i: int|
                0 <= i < k && (#[trigger] g[i]) is None && i < j ==> better(
                    p,
                    best_prefix(g, p, k).0,
                    move_score(g, p, i),
                )
            &&& forall|i: int|
                0 <= i < k && (#[trigger] g[i]) is None ==> !better(
                    p,
                    move_score(g, p, i),
                    best_prefix(g, p, k).0,
                )
        },
    decreases empty_count(g), k, 1int,
{
    if k > 0 {
        lemma_best_prefix(g, p, k - 1);
        if g[k - 1] is None {
            lemma_move_score_bounds(g, p, k - 1);
        }
    }
}

/// The move the search returns is as good as any legal move: no empty cell
/// scores strictly better for the mark to move, the chosen cell achieves the
/// search value exactly, and every earlier empty cell scores strictly worse.
pub proof fn lemma_search_optimal(g: Seq<Option<char>>, p: Player)
    requires
        g.len() == 9,
        !grid_full(g),
    ensures
        mm_move(g, p) is Some,
        mm_move(g, p) matches Some(j) ==> {
            &&& 0 <= j < 9
            &&& g[j] is None
            &&& move_score(g, p, j) == mm_score(g, p)
            &&& forall|i: int|
                0 <= i < 9 && (#[trigger] g[i]) is None ==> !better(
                    p,
                    move_score(g, p, i),
                    mm_score(g, p),
                )
            &&& forall|i: int|
                0 <= i < 9 && (#[trigger] g[i]) is None && i < j ==> better(
                    p,
                    mm_score(g, p),
                    move_score(g, p, i),
                )
        },
{
    lemma_best_prefix(g, p, 9);
    let j0 = choose|j0: int| 0 <= j0 < 9 && g[j0] is None;
    assert(0 <= j0 < 9 && g[j0] is None);
    lemma_empty_count_pos(g, j0);
    if best_prefix(g, p, 9).1 is None {
        assert(g[j0] is Some);
    }
}

fn cell_flat(board: &[[Option<char>; 3]; 3], i: usize) -> (o: Option<char>)
    requires
        i < 9,
    ensures
        o == board_grid(*board)[i as int],
{
    proof {
        assert(board_grid(*board)[i as int] == board@[i as int / 3]@[i as int % 3]);
    }
    board[i / 3][i % 3]
}

fn line_at(board: &[[Option<char>; 3]; 3], a: usize, b: usize, c: usize) -> (r: bool)
    requires
        a < 9,
        b < 9,
        c < 9,
    ensures
        r == line_won(board_grid(*board), a as int, b as int, c as int),
{
    let x = cell_flat(board, a);
    let y = cell_flat(board, b);
    let z = cell_flat(board, c);
    opt_eq(x, y) && opt_eq(y, z) && x.is_some()
}

/// Some line of the eight is fully occupied by one mark.
fn check_win(board: &[[Option<char>; 3]; 3]) -> (r: bool)
    ensures
        r == any_win(board_grid(*board)),
{
    line_at(board, 0, 1, 2) || line_at(board, 3, 4, 5) || line_at(board, 6, 7, 8)
        || line_at(board, 0, 3, 6) || line_at(board, 1, 4, 7) || line_at(board, 2, 5, 8)
        || line_at(board, 0, 4, 8) || line_at(board, 2, 4, 6)
}

fn minimax(board: &[[Option<char>; 3]; 3], player: Player) -> (r: (i32, Option<(usize, usize)>))
    ensures
        r.0 as int == mm_score(board_grid(*board), player),
        r.1 is None <==> grid_full(board_grid(*board)),
        r.1 matches Some((row, col)) ==> {
            &&& row < 3
            &&& col < 3
            &&& board_grid(*board)[3 * row + col] is None
            &&& mm_move(board_grid(*board), player) == Some(3 * (row as int) + (col as int))
        },
    decreases empty_count(board_grid(*board)),
{
    let ghost g = board_grid(*board);
    let mut best_score: i32 = if player == Player::X {
        -100
    } else {
        100
    };
    let mut best_move: Option<(usize, usize)> = None;
    let mut row: usize = 0;
    while row < 3
        invariant
            row <= 3,
            g == board_grid(*board),
            best_score as int == best_prefix(g, player, 3 * row).0,
            flat_move(best_move) == best_prefix(g, player, 3 * row).1,
            (best_move matches Some(m) ==> m.0 < 3 && m.1 < 3),
        decreases 3 - row,
    {
        let mut col: usize = 0;
        while col < 3
            invariant
                row < 3,
                col <= 3,
                g == board_grid(*board),
                best_score as int == best_prefix(g, player, 3 * row + col).0,
                flat_move(best_move) == best_prefix(g, player, 3 * row + col).1,
                (best_move matches Some(m) ==> m.0 < 3 && m.1 < 3),
            decreases 3 - col,
        {
            let ghost k = 3 * row + col;
            proof {
                assert((3 * row + col) / 3 == row as int);
                assert((3 * row + col) % 3 == col as int);
                assert(g[k] == board@[row as int]@[col as int]);
            }
            if board[row][col].is_none() {
                let mut new_board = *board;
                let mut line = new_board[row];
                line[col] = Some(player.to_char());
                new_board[row] = line;
                let ghost g2 = g.update(k, Some(player.spec_char()));
                proof {
                    assert forall|i2: int| 0 <= i2 < 9 implies board_grid(new_board)[i2] == g2[i2] by {
                        assert(0 <= i2 / 3 < 3);
                        assert(0 <= i2 % 3 < 3);
                        assert(i2 == 3 * (i2 / 3) + i2 % 3);
                    }
                    assert(board_grid(new_board) =~= g2);
                }
                let score: i32;
                if check_win(&new_board) {
                    score = if player == Player::X {
                        1
                    } else {
                        -1
                    };
                } else {
                    proof {
                        lemma_empty_count_update(g, k, player.spec_char());
                        lemma_mm_bounds(g2, player.spec_other());
                    }
                    let child = minimax(&new_board, player.other());
                    score = child.0;
                }
                proof {
                    assert(score as int == move_score(g, player, k));
                }
                if (player == Player::X && score > best_score) || (player == Player::O && score
                    < best_score) {
                    best_score = score;
                    best_move = Some((row, col));
                }
            }
            col = col + 1;
        }
        row = row + 1;
    }
    proof {
        lemma_best_prefix(g, player, 9);
        lemma_empty_count_zero(g);
    }
    match best_move {
        None => {
            proof {
                assert(grid_full(g));
            }
            (0, None)
        },
        Some((r0, c0)) => {
            proof {
                let j = best_prefix(g, player, 9).1->Some_0;
                lemma_empty_count_pos(g, j);
            }
            (best_score, Some((r0, c0)))
        },
    }
}

/// The cell the exhaustive search selects for `player`, or `None` exactly
/// when the board has no empty cell.  The chosen cell is empty, and by
/// [`lemma_search_optimal`] no empty cell scores strictly better.
pub fn get_best_move(board: &[[Option<char>; 3]; 3], player: Player) -> (r: Option<
    (usize, usize),
>)
    ensures
        r is None <==> grid_full(board_grid(*board)),
        r matches Some((row, col)) ==> {
            &&& row < 3
            &&& col < 3
            &&& board_grid(*board)[3 * row + col] is None
            &&& mm_move(board_grid(*board), player) == Some(3 * (row as int) + (col as int))
        },
{
    minimax(board, player).1
}

} // verus!
