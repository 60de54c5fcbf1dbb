//! The pluggable move-selection interface and its two strategies: the
//! exhaustive search and a uniformly random legal move.

use vstd::prelude::*;

use rand::Rng;

use crate::game::{grid_full, GameError, Player, TicTacToe};
use crate::search::{get_best_move, mm_move};

verus! {

#[verifier::external_type_specification]
#[verifier::external_body]
pub struct ExThreadRng(rand::rngs::ThreadRng);

/// Relies on rand::thread_rng: retrieves the thread-local generator.
#[verifier::external_body]
fn fresh_rng() -> rand::rngs::ThreadRng {
    rand::thread_rng()
}

/// Relies on Rng::gen_range over the non-empty range 0..n: returns a value
/// below `n`; nothing is promised of which one.
#[verifier::external_body]
fn sample_below(rng: &mut rand::rngs::ThreadRng, n: usize) -> (r: usize)
    requires
        1 <= n,
    ensures
        r < n,
{
    rng.gen_range(0..n)
}

/// A move-selection capability both strategies satisfy, so a driver can ask
/// for a move without knowing which algorithm produced it.
pub trait TicTacToeAI {
    /// Chooses a legal move for the current mark: the returned indices point
    /// to a currently empty cell, and `NoLegalMoves` comes back exactly when
    /// the board is full.
    fn get_move(&self, game: &TicTacToe) -> (r: Result<(usize, usize), GameError>)
        ensures
            (r matches Ok((row, col)) ==> row < 3 && col < 3 && game.grid()[3 * row + col]
                is None),
            r is Err <==> grid_full(game.grid()),
            r is Err ==> r == Err::<(usize, usize), GameError>(GameError::NoLegalMoves),
    ;

    /// Hook reserved for learning strategies; both current strategies do
    /// nothing here and callers must not assume any effect.
    fn update(&self, game: &TicTacToe, move_list: &Vec<((usize, usize), Player)>, win: bool);
}

/// Full-depth adversarial search; deterministic.
#[derive(Debug, Default)]
pub struct MinimaxAI;

impl TicTacToeAI for MinimaxAI {
    /// Returns exactly the cell the exhaustive search selects, the one
    /// [`get_best_move`] names.
    fn get_move(&self, game: &TicTacToe) -> (r: Result<(usize, usize), GameError>)
        ensures
            (r matches Ok((row, col)) ==> mm_move(game.grid(), game.current_player) == Some(
                3 * (row as int) + (col as int),
            )),
    {
        let board = game.get_board_state();
        let player = game.get_current_player();
        match get_best_move(&board, player) {
            Some(mv) => Ok(mv),
            None => Err(GameError::NoLegalMoves),
        }
    }

    fn update(&self, game: &TicTacToe, move_list: &Vec<((usize, usize), Player)>, win: bool) {
    }
}

/// Uniform choice among the legal moves: enumerates the empty cells in one
/// pass and samples one of them directly, which draws from the same
/// distribution as retrying random cells but at a strictly bounded cost.
#[derive(Debug, Default)]
pub struct RandomAI;

impl TicTacToeAI for RandomAI {
    fn get_move(&self, game: &TicTacToe) -> (r: Result<(usize, usize), GameError>) {
        let mut empties: Vec<(usize, usize)> = Vec::new();
        let mut k: usize = 0;
        while k < 9
            invariant
                k <= 9,
                forall|j: int|
                    0 <= j < empties@.len() ==> {
                        let m = #[trigger] empties@[j];
                        &&& m.0 < 3
                        &&& m.1 < 3
                        &&& game.grid()[3 * m.0 + m.1] is None
                    },
                empties@.len() == 0 ==> forall|i: int|
                    0 <= i < k ==> (#[trigger] game.grid()[i]) is Some,
            decreases 9 - k,
        {
            let row = k / 3;
            let col = k % 3;
            if game.get(row, col).is_none() {
                empties.push((row, col));
            }
            k = k + 1;
        }
        if empties.len() == 0 {
            return Err(GameError::NoLegalMoves);
        }
        let mut rng = fresh_rng();
        let pick = sample_below(&mut rng, empties.len());
        let mv = empties[pick];
        Ok(mv)
    }

    fn update(&self, game: &TicTacToe, move_list: &Vec<((usize, usize), Player)>, win: bool) {
    }
}

} // verus!
