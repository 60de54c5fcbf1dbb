//! Board state, player marks and the outcome classifier for 3x3 tic-tac-toe.
//!
//! The board is a 3x3 grid of optional cells; its mathematical model is the
//! flat row-major sequence of nine cells given by [`board_grid`], together
//! with the mark whose turn it is.  The classifier [`grid_result`] is a total
//! function of that model.

use vstd::prelude::*;
use vstd::string::StringExecFns;

verus! {

/// One of the two marks, rendered as 'X' (moves first) and 'O'.
#[derive(Debug, PartialEq, Eq, Structural, Copy, Clone, Default)]
pub enum Player {
    #[default]
    X,
    O,
}

/// Terminal-or-in-progress classification of a board.  The tie and
/// in-progress variants record whose move comes next, so that the packed
/// encoding can reconstruct the turn without a separate field.
#[derive(Debug, PartialEq, Eq, Structural, Copy, Clone, Default)]
pub enum GameResult {
    X,
    O,
    TieX,
    TieO,
    #[default]
    InProgressX,
    InProgressO,
}

/// Every failure the library can report.  All are local and recoverable.
#[derive(Debug, PartialEq, Eq, Structural, Copy, Clone)]
pub enum GameError {
    /// A move targeted a cell that already holds a mark.
    OccupiedCell,
    /// Decoding saw the cell bit pattern `11`, which stands for no cell.
    InvalidCellEncoding,
    /// Decoding saw a three-bit outcome tag that is assigned to no outcome.
    InvalidOutcomeTag,
    /// The outcome recomputed from a decoded grid disagrees with the
    /// embedded outcome tag.
    ResultMismatch,
    /// A strategy was asked for a move on a full board.
    NoLegalMoves,
}

impl Player {
    /// The opposite mark.
    pub open spec fn spec_other(self) -> Player {
        match self {
            Player::X => Player::O,
            Player::O => Player::X,
        }
    }

    /// The character a mark is rendered as.
    pub open spec fn spec_char(self) -> char {
        match self {
            Player::X => 'X',
            Player::O => 'O',
        }
    }

    pub fn other(&self) -> (r: Player)
        ensures
            r == self.spec_other(),
    {
        match self {
            Player::X => Player::O,
            Player::O => Player::X,
        }
    }

    pub fn to_char(&self) -> (r: char)
        ensures
            r == self.spec_char(),
    {
        match self {
            Player::X => 'X',
            Player::O => 'O',
        }
    }

    pub fn from_char(c: char) -> (r: Player)
        requires
            c == 'X' || c == 'O',
        ensures
            r.spec_char() == c,
    {
        if c == 'X' {
            Player::X
        } else {
            Player::O
        }
    }
}

impl GameResult {
    pub fn from_winning_char(c: char) -> (r: GameResult)
        requires
            c == 'X' || c == 'O',
        ensures
            r == (if c == 'X' {
                GameResult::X
            } else {
                GameResult::O
            }),
    {
        if c == 'X' {
            GameResult::X
        } else {
            GameResult::O
        }
    }
}

/// The flat row-major model of a 3x3 board: cell (row, col) is entry
/// `3 * row + col`.
pub open spec fn board_grid(b: [[Option<char>; 3]; 3]) -> Seq<Option<char>> {
    Seq::new(9, |i: int| b@[i / 3]@[i % 3])
}

/// A cell holds nothing or one of the two mark characters.
pub open spec fn valid_cell(o: Option<char>) -> bool {
    o is None || o == Some('X') || o == Some('O')
}

pub open spec fn grid_wf(g: Seq<Option<char>>) -> bool {
    g.len() == 9 && forall|i: int| 0 <= i < 9 ==> valid_cell(#[trigger] g[i])
}

pub open spec fn grid_full(g: Seq<Option<char>>) -> bool {
    forall|i: int| 0 <= i < 9 ==> (#[trigger] g[i]) is Some
}

/// The three cells at flat indices `a`, `b`, `c` hold one and the same mark.
pub open spec fn line_won(g: Seq<Option<char>>, a: int, b: int, c: int) -> bool {
    g[a] is Some && g[a] == g[b] && g[b] == g[c]
}

/// Some line of the eight (three rows, three columns, two diagonals) is
/// fully occupied by one mark.
pub open spec fn any_win(g: Seq<Option<char>>) -> bool {
    ||| line_won(g, 0, 1, 2)
    ||| line_won(g, 3, 4, 5)
    ||| line_won(g, 6, 7, 8)
    ||| line_won(g, 0, 3, 6)
    ||| line_won(g, 1, 4, 7)
    ||| line_won(g, 2, 5, 8)
    ||| line_won(g, 0, 4, 8)
    ||| line_won(g, 2, 4, 6)
}

/// The winning outcome for the mark held by `o`.
pub open spec fn winner_result(o: Option<char>) -> GameResult {
    if o == Some('O') {
        GameResult::O
    } else {
        GameResult::X
    }
}

/// Total classification of a grid plus the mark to move: the first fully
/// occupied line in the fixed check order (rows, columns, diagonals) names
/// the winner; otherwise a full grid is a tie and anything else is still in
/// progress, each recording whose move comes next.
pub open spec fn grid_result(g: Seq<Option<char>>, p: Player) -> GameResult {
    if line_won(g, 0, 1, 2) {
        winner_result(g[0])
    } else if line_won(g, 3, 4, 5) {
        winner_result(g[3])
    } else if line_won(g, 6, 7, 8) {
        winner_result(g[6])
    } else if line_won(g, 0, 3, 6) {
        winner_result(g[0])
    } else if line_won(g, 1, 4, 7) {
        winner_result(g[1])
    } else if line_won(g, 2, 5, 8) {
        winner_result(g[2])
    } else if line_won(g, 0, 4, 8) {
        winner_result(g[0])
    } else if line_won(g, 2, 4, 6) {
        winner_result(g[2])
    } else if !grid_full(g) {
        if p == Player::X {
            GameResult::InProgressX
        } else {
            GameResult::InProgressO
        }
    } else {
        if p == Player::X {
            GameResult::TieX
        } else {
            GameResult::TieO
        }
    }
}

pub(crate) fn opt_eq(a: Option<char>, b: Option<char>) -> (r: bool)
    ensures
        r == (a == b),
{
    match (a, b) {
        (None, None) => true,
        (Some(x), Some(y)) => x == y,
        _ => false,
    }
}

/// A 3x3 board plus the mark whose turn it is.  A small value type, copied
/// freely; created empty with mark X to move.
#[derive(Debug, PartialEq, Copy, Clone, Default)]
pub struct TicTacToe {
    pub board: [[Option<char>; 3]; 3],
    pub current_player: Player,
}

impl TicTacToe {
    /// The flat row-major model of this board.
    pub open spec fn grid(self) -> Seq<Option<char>> {
        board_grid(self.board)
    }

    /// Every cell is empty or holds one of the two mark characters.
    pub open spec fn wf(self) -> bool {
        grid_wf(self.grid())
    }

    /// The classification of this board.
    pub open spec fn result_spec(self) -> GameResult {
        grid_result(self.grid(), self.current_player)
    }

    pub fn new() -> (g: TicTacToe)
        ensures
            g.current_player == Player::X,
            forall|i: int| 0 <= i < 9 ==> g.grid()[i] is None,
            g.wf(),
    {
        TicTacToe { board: [[None; 3]; 3], current_player: Player::X }
    }

    /// Reinitializes to the `new()` state in place.
    pub fn reset(&mut self)
        ensures
            final(self).current_player == Player::X,
            forall|i: int| 0 <= i < 9 ==> final(self).grid()[i] is None,
            final(self).wf(),
    {
        self.board = [[None; 3]; 3];
        self.current_player = Player::X;
    }

    pub fn set_board_state(&mut self, board: [[Option<char>; 3]; 3])
        ensures
            final(self).board == board,
            final(self).current_player == old(self).current_player,
    {
        self.board = board;
    }

    pub fn set_player(&mut self, player: Player)
        ensures
            final(self).current_player == player,
            final(self).board == old(self).board,
    {
        self.current_player = player;
    }

    /// Read one cell of the model.
    pub fn get(&self, row: usize, col: usize) -> (o: Option<char>)
        requires
            row < 3,
            col < 3,
        ensures
            o == self.grid()[3 * row + col],
    {
        proof {
            assert((3 * row + col) / 3 == row as int);
            assert((3 * row + col) % 3 == col as int);
        }
        self.board[row][col]
    }

    /// Writes the current mark into the addressed cell and flips the turn;
    /// fails with `OccupiedCell`, changing nothing, if the cell is taken.
    pub fn make_move(&mut self, row: usize, col: usize) -> (r: Result<(), GameError>)
        requires
            row < 3,
            col < 3,
        ensures
            old(self).grid()[3 * row + col] is Some ==> {
                &&& r == Err::<(), GameError>(GameError::OccupiedCell)
                &&& final(self).board == old(self).board
                &&& final(self).current_player == old(self).current_player
            },
            old(self).grid()[3 * row + col] is None ==> {
                &&& r == Ok::<(), GameError>(())
                &&& final(self).grid() =~= old(self).grid().update(
                    3 * row + col,
                    Some(old(self).current_player.spec_char()),
                )
                &&& final(self).current_player == old(self).current_player.spec_other()
                &&& (final(self).grid(), final(self).current_player) == spec_step(
                    old(self).grid(),
                    old(self).current_player,
                    (row, col),
                )
            },
            old(self).wf() ==> final(self).wf(),
    {
        proof {
            assert((3 * row + col) / 3 == row as int);
            assert((3 * row + col) % 3 == col as int);
        }
        if self.board[row][col].is_some() {
            return Err(GameError::OccupiedCell);
        }
        let ch = self.current_player.to_char();
        let mut line = self.board[row];
        line[col] = Some(ch);
        self.board[row] = line;
        self.current_player = self.current_player.other();
        proof {
            let g0 = old(self).grid();
            let g1 = self.grid();
            let k = 3 * row + col;
            assert forall|i: int| 0 <= i < 9 implies g1[i] == g0.update(
                k,
                Some(old(self).current_player.spec_char()),
            )[i] by {
                assert(0 <= i / 3 < 3);
                assert(0 <= i % 3 < 3);
                assert(i == 3 * (i / 3) + i % 3);
            }
        }
        Ok(())
    }

    fn line_match(&self, a: (usize, usize), b: (usize, usize), c: (usize, usize)) -> (r: bool)
        requires
            a.0 < 3 && a.1 < 3 && b.0 < 3 && b.1 < 3 && c.0 < 3 && c.1 < 3,
        ensures
            r == line_won(
                self.grid(),
                3 * a.0 + a.1,
                3 * b.0 + b.1,
                3 * c.0 + c.1,
            ),
    {
        let x = self.get(a.0, a.1);
        let y = self.get(b.0, b.1);
        let z = self.get(c.0, c.1);
        opt_eq(x, y) && opt_eq(y, z) && x.is_some()
    }

    pub(crate) fn grid_is_full(&self) -> (r: bool)
        ensures
            r == grid_full(self.grid()),
    {
        let r = self.get(0, 0).is_some() && self.get(0, 1).is_some() && self.get(0, 2).is_some()
            && self.get(1, 0).is_some() && self.get(1, 1).is_some() && self.get(1, 2).is_some()
            && self.get(2, 0).is_some() && self.get(2, 1).is_some() && self.get(2, 2).is_some();
        proof {
            if r {
                assert forall|i: int| 0 <= i < 9 implies (#[trigger] self.grid()[i]) is Some by {
                }
            }
        }
        r
    }

    /// Classifies the board: the first fully occupied line in the fixed
    /// check order names the winner, a full grid without one is a tie, and
    /// anything else is in progress; tie and in-progress record the turn.
    pub fn game_result(&self) -> (r: GameResult)
        requires
            self.wf(),
        ensures
            r == self.result_spec(),
    {
        if self.line_match((0, 0), (0, 1), (0, 2)) {
            return GameResult::from_winning_char(self.get(0, 0).unwrap());
        }
        if self.line_match((1, 0), (1, 1), (1, 2)) {
            return GameResult::from_winning_char(self.get(1, 0).unwrap());
        }
        if self.line_match((2, 0), (2, 1), (2, 2)) {
            return GameResult::from_winning_char(self.get(2, 0).unwrap());
        }
        if self.line_match((0, 0), (1, 0), (2, 0)) {
            return GameResult::from_winning_char(self.get(0, 0).unwrap());
        }
        if self.line_match((0, 1), (1, 1), (2, 1)) {
            return GameResult::from_winning_char(self.get(0, 1).unwrap());
        }
        if self.line_match((0, 2), (1, 2), (2, 2)) {
            return GameResult::from_winning_char(self.get(0, 2).unwrap());
        }
        if self.line_match((0, 0), (1, 1), (2, 2)) {
            return GameResult::from_winning_char(self.get(0, 0).unwrap());
        }
        if self.line_match((0, 2), (1, 1), (2, 0)) {
            return GameResult::from_winning_char(self.get(0, 2).unwrap());
        }
        if !self.grid_is_full() {
            if self.get_current_player() == Player::X {
                GameResult::InProgressX
            } else {
                GameResult::InProgressO
            }
        } else {
            if self.get_current_player() == Player::X {
                GameResult::TieX
            } else {
                GameResult::TieO
            }
        }
    }

    /// True iff the classification is anything but the two in-progress
    /// variants.
    pub fn is_game_over(&self) -> (r: bool)
        requires
            self.wf(),
        ensures
            r == (self.result_spec() != GameResult::InProgressX && self.result_spec()
                != GameResult::InProgressO),
    {
        let res = self.game_result();
        res != GameResult::InProgressX && res != GameResult::InProgressO
    }

    pub fn get_current_player(&self) -> (r: Player)
        ensures
            r == self.current_player,
    {
        self.current_player
    }

    /// A copy of the grid; callers cannot mutate internal state through it.
    pub fn get_board_state(&self) -> (r: [[Option<char>; 3]; 3])
        ensures
            r == self.board,
    {
        self.board
    }

    /// The diagnostic text rendering of the board: rows of cells separated
    /// by a fixed ASCII-art line.  Not a stable wire format.
    pub fn pretty_print(&self) -> (r: String)
        requires
            self.wf(),
        ensures
            r@ == render_text(self.grid()),
    {
        let mut s = String::new();
        s.append("---+---+---\n");
        append_row(&mut s, self, 0);
        s.append("---+---+---\n");
        append_row(&mut s, self, 1);
        s.append("---+---+---\n");
        append_row(&mut s, self, 2);
        s.append("---+---+---\n");
        s.append("\n");
        proof {
            assert(s@ =~= render_text(self.grid()));
        }
        s
    }
}

/// The three characters a cell is rendered as.
pub open spec fn cell_text(o: Option<char>) -> Seq<char> {
    if o == Some('X') {
        " X "@
    } else if o == Some('O') {
        " O "@
    } else {
        "   "@
    }
}

/// One rendered row: three cells, each followed by a bar, then a newline.
pub open spec fn row_text(g: Seq<Option<char>>, r: int) -> Seq<char> {
    cell_text(g[3 * r]) + "|"@ + cell_text(g[3 * r + 1]) + "|"@ + cell_text(g[3 * r + 2]) + "|\n"@
}

/// The whole rendering: a separator line before and after every row, and a
/// blank line at the end.
pub open spec fn render_text(g: Seq<Option<char>>) -> Seq<char> {
    "---+---+---\n"@ + row_text(g, 0) + "---+---+---\n"@ + row_text(g, 1) + "---+---+---\n"@
        + row_text(g, 2) + "---+---+---\n"@ + "\n"@
}

fn append_cell(s: &mut String, o: Option<char>)
    requires
        valid_cell(o),
    ensures
        final(s)@ == old(s)@ + cell_text(o),
{
    match o {
        None => s.append("   "),
        Some(c) => if c == 'X' {
            s.append(" X ")
        } else {
            s.append(" O ")
        },
    }
}

fn append_row(s: &mut String, game: &TicTacToe, r: usize)
    requires
        r < 3,
        game.wf(),
    ensures
        final(s)@ == old(s)@ + row_text(game.grid(), r as int),
{
    append_cell(s, game.get(r, 0));
    s.append("|");
    append_cell(s, game.get(r, 1));
    s.append("|");
    append_cell(s, game.get(r, 2));
    s.append("|\n");
    proof {
        assert(s@ =~= old(s)@ + row_text(game.grid(), r as int));
    }
}

/// The empty grid model.
pub open spec fn empty_grid() -> Seq<Option<char>> {
    Seq::new(9, |i: int| None::<char>)
}

/// Both indices of a move name a row and a column of the board.
pub open spec fn move_in_range(mv: (usize, usize)) -> bool {
    mv.0 < 3 && mv.1 < 3
}

/// The flat index a (row, col) move addresses.
pub open spec fn flat_of(mv: (usize, usize)) -> int {
    3 * (mv.0 as int) + (mv.1 as int)
}

/// One successful move at the model level: the current mark fills the
/// addressed cell and the turn flips.  This is exactly the step
/// [`TicTacToe::make_move`] promises on success.
pub open spec fn spec_step(g: Seq<Option<char>>, p: Player, mv: (usize, usize)) -> (
    Seq<Option<char>>,
    Player,
) {
    (g.update(flat_of(mv), Some(p.spec_char())), p.spec_other())
}

/// The model state after the first `n` moves of `moves`, played from the
/// initial state: the empty grid with mark X to move.
pub open spec fn spec_play(moves: Seq<(usize, usize)>, n: int) -> (Seq<Option<char>>, Player)
    decreases n,
{
    if n <= 0 {
        (empty_grid(), Player::X)
    } else {
        let prev = spec_play(moves, n - 1);
        spec_step(prev.0, prev.1, moves[n - 1])
    }
}

/// The first `n` moves are all in range and each lands on a cell still
/// empty when it is played, so each would succeed.
pub open spec fn play_legal(moves: Seq<(usize, usize)>, n: int) -> bool
    decreases n,
{
    n <= moves.len() && (n <= 0 || (play_legal(moves, n - 1) && move_in_range(moves[n - 1])
        && spec_play(moves, n - 1).0[flat_of(moves[n - 1])] is None))
}

/// Turn alternation: over any sequence of successful moves the mark to move
/// strictly alternates, starting from mark X on the initial state.
pub proof fn lemma_turn_alternation(moves: Seq<(usize, usize)>, n: int)
    requires
        0 <= n <= moves.len(),
        play_legal(moves, n),
    ensures
        spec_play(moves, n).1 == (if n % 2 == 0 {
            Player::X
        } else {
            Player::O
        }),
    decreases n,
{
    if n > 0 {
        lemma_turn_alternation(moves, n - 1);
    }
}

/// 1 when cell `i` holds the mark character `ch`, 0 otherwise.
pub open spec fn mark_one(g: Seq<Option<char>>, i: int, ch: char) -> nat {
    if g[i] == Some(ch) {
        1nat
    } else {
        0nat
    }
}

/// How many cells hold the mark character `ch`.
pub open spec fn count_mark(g: Seq<Option<char>>, ch: char) -> nat {
    mark_one(g, 0, ch) + mark_one(g, 1, ch) + mark_one(g, 2, ch) + mark_one(g, 3, ch) + mark_one(
        g,
        4,
        ch,
    ) + mark_one(g, 5, ch) + mark_one(g, 6, ch) + mark_one(g, 7, ch) + mark_one(g, 8, ch)
}

proof fn lemma_count_mark_update(g: Seq<Option<char>>, i: int, ch: char, ch2: char)
    requires
        g.len() == 9,
        0 <= i < 9,
        g[i] is None,
        ch2 != ch,
    ensures
        count_mark(g.update(i, Some(ch)), ch) == count_mark(g, ch) + 1,
        count_mark(g.update(i, Some(ch)), ch2) == count_mark(g, ch2),
{
}

/// Mark counts under legal play: after `n` successful moves from the
/// initial state, mark X holds the ceiling and mark O the floor of `n / 2`
/// cells, so the two counts differ by at most one and the mark that moves
/// first never trails.
pub proof fn lemma_mark_counts(moves: Seq<(usize, usize)>, n: int)
    requires
        0 <= n <= moves.len(),
        play_legal(moves, n),
    ensures
        spec_play(moves, n).0.len() == 9,
        count_mark(spec_play(moves, n).0, 'X') == (n + 1) / 2,
        count_mark(spec_play(moves, n).0, 'O') == n / 2,
        count_mark(spec_play(moves, n).0, 'O') <= count_mark(spec_play(moves, n).0, 'X') <= count_mark(
            spec_play(moves, n).0,
            'O',
        ) + 1,
    decreases n,
{
    if n > 0 {
        lemma_mark_counts(moves, n - 1);
        lemma_turn_alternation(moves, n - 1);
        let prev = spec_play(moves, n - 1);
        let mv = moves[n - 1];
        if prev.1 == Player::X {
            lemma_count_mark_update(prev.0, flat_of(mv), 'X', 'O');
        } else {
            lemma_count_mark_update(prev.0, flat_of(mv), 'O', 'X');
        }
    } else {
        assert(count_mark(empty_grid(), 'X') == 0);
        assert(count_mark(empty_grid(), 'O') == 0);
    }
}

/// The three cells at flat indices `a`, `b`, `c` all hold the mark
/// character `ch`.
pub open spec fn mark_line(g: Seq<Option<char>>, a: int, b: int, c: int, ch: char) -> bool {
    g[a] == Some(ch) && g[b] == Some(ch) && g[c] == Some(ch)
}

/// Brute-force line inspection: some line of the eight is fully occupied by
/// the mark character `ch`.
pub open spec fn mark_wins(g: Seq<Option<char>>, ch: char) -> bool {
    ||| mark_line(g, 0, 1, 2, ch)
    ||| mark_line(g, 3, 4, 5, ch)
    ||| mark_line(g, 6, 7, 8, ch)
    ||| mark_line(g, 0, 3, 6, ch)
    ||| mark_line(g, 1, 4, 7, ch)
    ||| mark_line(g, 2, 5, 8, ch)
    ||| mark_line(g, 0, 4, 8, ch)
    ||| mark_line(g, 2, 4, 6, ch)
}

/// The classifier agrees with brute-force line inspection on every
/// well-formed grid: when exactly one mark owns a full line that mark wins,
/// a full grid without a winner is a tie, anything else is in progress, and
/// conversely each outcome implies the matching grid shape.
pub proof fn lemma_classifier_matches_lines(g: Seq<Option<char>>, p: Player)
    requires
        grid_wf(g),
    ensures
        mark_wins(g, 'X') && !mark_wins(g, 'O') ==> grid_result(g, p) == GameResult::X,
        mark_wins(g, 'O') && !mark_wins(g, 'X') ==> grid_result(g, p) == GameResult::O,
        !mark_wins(g, 'X') && !mark_wins(g, 'O') && grid_full(g) ==> grid_result(g, p) == (if p
            == Player::X {
            GameResult::TieX
        } else {
            GameResult::TieO
        }),
        !mark_wins(g, 'X') && !mark_wins(g, 'O') && !grid_full(g) ==> grid_result(g, p) == (if p
            == Player::X {
            GameResult::InProgressX
        } else {
            GameResult::InProgressO
        }),
        grid_result(g, p) == GameResult::X ==> mark_wins(g, 'X'),
        grid_result(g, p) == GameResult::O ==> mark_wins(g, 'O'),
        grid_result(g, p) == GameResult::TieX || grid_result(g, p) == GameResult::TieO
            ==> grid_full(g) && !any_win(g),
        grid_result(g, p) == GameResult::InProgressX || grid_result(g, p)
            == GameResult::InProgressO ==> !grid_full(g) && !any_win(g),
{
    assert(!mark_wins(g, 'X') && !mark_wins(g, 'O') ==> !any_win(g)) by {
        if any_win(g) {
            if line_won(g, 0, 1, 2) {
                assert(valid_cell(g[0]));
            } else if line_won(g, 3, 4, 5) {
                assert(valid_cell(g[3]));
            } else if line_won(g, 6, 7, 8) {
                assert(valid_cell(g[6]));
            } else if line_won(g, 0, 3, 6) {
                assert(valid_cell(g[0]));
            } else if line_won(g, 1, 4, 7) {
                assert(valid_cell(g[1]));
            } else if line_won(g, 2, 5, 8) {
                assert(valid_cell(g[2]));
            } else if line_won(g, 0, 4, 8) {
                assert(valid_cell(g[0]));
            } else {
                assert(valid_cell(g[2]));
            }
        }
    }
}

} // verus!
