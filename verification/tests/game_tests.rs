use tictactoe::game::{GameError, GameResult, Player, TicTacToe};
use tictactoe::search::get_best_move;
use tictactoe::strategy::{MinimaxAI, RandomAI, TicTacToeAI};

// X |   |
//---+---+---
//   | O |
//---+---+---
//   |   | X
#[test]
fn test_make_move() {
    let mut game = TicTacToe::new();
    assert!(game.make_move(0, 0).is_ok());
    assert!(game.make_move(0, 0).is_err());
    assert!(game.make_move(0, 1).is_ok());
    assert!(game.make_move(1, 1).is_ok());
    assert!(game.make_move(2, 2).is_ok());
    assert!(game.make_move(2, 2).is_err());
}

#[test]
fn test_is_game_over() {
    let mut game = TicTacToe::new();
    assert!(!game.is_game_over());
    // X |   |
    //---+---+---
    //   |   |
    //---+---+---
    //   |   |

    game.make_move(0, 0).unwrap();
    // X | O |
    //---+---+---
    //   |   |
    //---+---+---
    //   |   |
    game.make_move(0, 1).unwrap();
    // X | O |
    //---+---+---
    //   | X |
    //---+---+---
    //   |   |
    game.make_move(1, 1).unwrap();
    // X | O |
    //---+---+---
    //   | X |
    //---+---+---
    //   |   | O
    game.make_move(2, 2).unwrap();
    // X | O |
    //---+---+---
    //   | X |
    //---+---+---
    // X |   | O
    game.make_move(2, 0).unwrap();
    println!("{:?}", game.get_board_state());
    assert!(!game.is_game_over());
    game.make_move(2, 1).unwrap();
    game.make_move(1, 0).unwrap();
    assert!(game.is_game_over());
    let mut game = TicTacToe::new();
    game.make_move(0, 0).unwrap();
    game.make_move(0, 1).unwrap();
    game.make_move(0, 2).unwrap();
    game.make_move(1, 0).unwrap();
    game.make_move(1, 1).unwrap();
    game.make_move(1, 2).unwrap();
    game.make_move(2, 0).unwrap();
    game.make_move(2, 1).unwrap();
    game.make_move(2, 2).unwrap();
    println!("{:?}", game.get_board_state());
    assert!(game.is_game_over());
}

#[test]
fn test_player_marks() {
    assert_eq!(Player::X.other(), Player::O);
    assert_eq!(Player::O.other(), Player::X);
    assert_eq!(Player::X.other().other(), Player::X);
    assert_eq!(Player::X.to_char(), 'X');
    assert_eq!(Player::O.to_char(), 'O');
    assert_eq!(Player::from_char('X'), Player::X);
    assert_eq!(Player::from_char('O'), Player::O);
    assert_eq!(GameResult::from_winning_char('X'), GameResult::X);
    assert_eq!(GameResult::from_winning_char('O'), GameResult::O);
}

#[test]
fn test_turn_alternation() {
    let mut game = TicTacToe::new();
    assert_eq!(game.get_current_player(), Player::X);
    game.make_move(0, 0).unwrap();
    assert_eq!(game.get_current_player(), Player::O);
    game.make_move(1, 1).unwrap();
    assert_eq!(game.get_current_player(), Player::X);
    game.make_move(2, 2).unwrap();
    assert_eq!(game.get_current_player(), Player::O);
    // A failed move leaves the turn unchanged.
    assert_eq!(game.make_move(0, 0), Err(GameError::OccupiedCell));
    assert_eq!(game.get_current_player(), Player::O);
}

// Under legal play the mark that moves first always holds the ceiling of
// n/2 cells and the other mark the floor, so the counts differ by at most
// one.
#[test]
fn test_mark_counts() {
    let mut game = TicTacToe::new();
    let moves = [(0usize, 0usize), (0, 2), (0, 1), (1, 0), (1, 2)];
    for (n, mv) in moves.iter().enumerate() {
        game.make_move(mv.0, mv.1).unwrap();
        let board = game.get_board_state();
        let mut xs: usize = 0;
        let mut os: usize = 0;
        for row in board.iter() {
            for cell in row.iter() {
                match cell {
                    Some('X') => xs += 1,
                    Some('O') => os += 1,
                    _ => {}
                }
            }
        }
        assert_eq!(xs, (n + 2) / 2);
        assert_eq!(os, (n + 1) / 2);
        assert!(os <= xs && xs <= os + 1);
    }
}

#[test]
fn test_occupied_cell_error() {
    let mut game = TicTacToe::new();
    game.make_move(1, 2).unwrap();
    assert_eq!(game.make_move(1, 2), Err(GameError::OccupiedCell));
}

#[test]
fn test_classifier_cases() {
    // Top row of X marks wins regardless of whose turn it is.
    let mut game = TicTacToe::new();
    game.set_board_state([
        [Some('X'), Some('X'), Some('X')],
        [Some('O'), Some('O'), None],
        [None, None, None],
    ]);
    game.set_player(Player::O);
    assert_eq!(game.game_result(), GameResult::X);
    assert!(game.is_game_over());

    // Middle column of O marks.
    let mut game = TicTacToe::new();
    game.set_board_state([
        [Some('X'), Some('O'), None],
        [Some('X'), Some('O'), None],
        [None, Some('O'), Some('X')],
    ]);
    game.set_player(Player::X);
    assert_eq!(game.game_result(), GameResult::O);

    // Anti-diagonal of X marks.
    let mut game = TicTacToe::new();
    game.set_board_state([
        [Some('O'), Some('O'), Some('X')],
        [None, Some('X'), None],
        [Some('X'), None, None],
    ]);
    game.set_player(Player::O);
    assert_eq!(game.game_result(), GameResult::X);

    // Full grid with no line: a tie recording whose move it would be.
    let mut game = TicTacToe::new();
    game.set_board_state([
        [Some('X'), Some('X'), Some('O')],
        [Some('O'), Some('O'), Some('X')],
        [Some('X'), Some('O'), Some('X')],
    ]);
    game.set_player(Player::O);
    assert_eq!(game.game_result(), GameResult::TieO);
    game.set_player(Player::X);
    assert_eq!(game.game_result(), GameResult::TieX);

    // Anything else is in progress, recording the turn.
    let game = TicTacToe::new();
    assert_eq!(game.game_result(), GameResult::InProgressX);
    let mut game = TicTacToe::new();
    game.make_move(0, 0).unwrap();
    assert_eq!(game.game_result(), GameResult::InProgressO);
}

// Moves (0,0)A,(0,1)B,(1,1)A,(2,2)B,(2,0)A,(2,1)B,(1,0)A: column 0 is full
// of mark A after the seventh move.
#[test]
fn test_scenario_seven_moves_a_wins() {
    let mut game = TicTacToe::new();
    game.make_move(0, 0).unwrap();
    game.make_move(0, 1).unwrap();
    game.make_move(1, 1).unwrap();
    game.make_move(2, 2).unwrap();
    game.make_move(2, 0).unwrap();
    game.make_move(2, 1).unwrap();
    game.make_move(1, 0).unwrap();
    assert!(game.is_game_over());
    assert_eq!(game.game_result(), GameResult::X);
}

// Moves (0,0)A,(1,0)B,(0,1)A,(1,1)B,(0,2)A: the top row is complete after
// move five.
#[test]
fn test_scenario_five_moves_a_wins() {
    let mut game = TicTacToe::new();
    game.make_move(0, 0).unwrap();
    game.make_move(1, 0).unwrap();
    game.make_move(0, 1).unwrap();
    game.make_move(1, 1).unwrap();
    game.make_move(0, 2).unwrap();
    assert!(game.is_game_over());
    assert_eq!(game.game_result(), GameResult::X);
}

// Nine alternating moves that fill the grid without completing a line
// yield a tie.  (Filling strictly in row-major cell order would complete
// the diagonal of mark A, so the fill order below dodges every line.)
#[test]
fn test_scenario_full_grid_tie() {
    let mut game = TicTacToe::new();
    game.make_move(0, 0).unwrap(); // X
    game.make_move(0, 2).unwrap(); // O
    game.make_move(0, 1).unwrap(); // X
    game.make_move(1, 0).unwrap(); // O
    game.make_move(1, 2).unwrap(); // X
    game.make_move(1, 1).unwrap(); // O
    game.make_move(2, 0).unwrap(); // X
    game.make_move(2, 1).unwrap(); // O
    game.make_move(2, 2).unwrap(); // X
    assert!(game.is_game_over());
    assert_eq!(game.game_result(), GameResult::TieO);
}

// From the empty board, the search playing both sides must end in a tie.
#[test]
fn test_best_move_self_play_ties() {
    let mut game = TicTacToe::new();
    let mut moves: usize = 0;
    while !game.is_game_over() {
        assert!(moves < 9);
        let mv = get_best_move(&game.get_board_state(), game.get_current_player())
            .expect("a non-terminal board must yield a move");
        game.make_move(mv.0, mv.1).unwrap();
        moves += 1;
    }
    let result = game.game_result();
    println!("self-play finished after {} moves: {:?}", moves, result);
    assert!(result == GameResult::TieX || result == GameResult::TieO);
}

// The search never walks into an occupied cell and reports a move for
// every non-full board.
#[test]
fn test_best_move_is_legal() {
    let mut game = TicTacToe::new();
    game.make_move(0, 0).unwrap();
    game.make_move(1, 1).unwrap();
    let mv = get_best_move(&game.get_board_state(), game.get_current_player()).unwrap();
    assert!(mv.0 < 3 && mv.1 < 3);
    assert!(game.get_board_state()[mv.0][mv.1].is_none());

    let full = [
        [Some('X'), Some('O'), Some('X')],
        [Some('O'), Some('X'), Some('O')],
        [Some('O'), Some('X'), Some('O')],
    ];
    assert_eq!(get_best_move(&full, Player::X), None);
}

// The minimax strategy blocks an immediate threat: O is about to complete
// the top row, and X to move must answer at (0,2).
#[test]
fn test_minimax_blocks_threat() {
    let mut game = TicTacToe::new();
    game.set_board_state([
        [Some('O'), Some('O'), None],
        [Some('X'), None, None],
        [Some('X'), None, None],
    ]);
    game.set_player(Player::X);
    let ai = MinimaxAI;
    let mv = ai.get_move(&game).unwrap();
    // Either win down the column is unavailable; (0,2) is the only move
    // that stops O next turn, and no X move wins at once.
    game.make_move(mv.0, mv.1).unwrap();
    let reply = get_best_move(&game.get_board_state(), Player::O);
    if let Some(r) = reply {
        game.make_move(r.0, r.1).unwrap();
    }
    assert_ne!(game.game_result(), GameResult::O);
}

// The minimax strategy returns exactly the move the search names.
#[test]
fn test_minimax_strategy_matches_search() {
    let ai = MinimaxAI;
    let mut game = TicTacToe::new();
    while !game.is_game_over() {
        let expected = get_best_move(&game.get_board_state(), game.get_current_player());
        assert_eq!(ai.get_move(&game), Ok(expected.unwrap()));
        let mv = expected.unwrap();
        game.make_move(mv.0, mv.1).unwrap();
    }
}

// The random strategy on any non-full board returns indices of a
// currently empty cell, and reports NoLegalMoves on a full board.
#[test]
fn test_random_strategy_legality() {
    let ai = RandomAI;
    for _round in 0..20 {
        let mut game = TicTacToe::new();
        while !game.is_game_over() {
            let mv = ai.get_move(&game).unwrap();
            assert!(mv.0 < 3 && mv.1 < 3);
            assert!(game.get_board_state()[mv.0][mv.1].is_none());
            game.make_move(mv.0, mv.1).unwrap();
        }
    }
    let mut game = TicTacToe::new();
    game.set_board_state([
        [Some('X'), Some('O'), Some('X')],
        [Some('O'), Some('X'), Some('O')],
        [Some('O'), Some('X'), Some('O')],
    ]);
    assert_eq!(ai.get_move(&game), Err(GameError::NoLegalMoves));
    let minimax = MinimaxAI;
    assert_eq!(minimax.get_move(&game), Err(GameError::NoLegalMoves));
}

#[test]
fn test_update_is_a_no_op_hook() {
    let game = TicTacToe::new();
    let history: Vec<((usize, usize), Player)> = vec![((0, 0), Player::X)];
    MinimaxAI.update(&game, &history, false);
    RandomAI.update(&game, &history, true);
}

#[test]
fn test_reset_and_accessors() {
    let mut game = TicTacToe::new();
    game.make_move(0, 0).unwrap();
    game.make_move(0, 1).unwrap();
    game.reset();
    assert_eq!(game.get_current_player(), Player::X);
    assert_eq!(game.get_board_state(), [[None; 3]; 3]);
    assert!(!game.is_game_over());
}

#[test]
fn test_pretty_print_empty_board() {
    let game = TicTacToe::new();
    let expected = "---+---+---\n   |   |   |\n---+---+---\n   |   |   |\n---+---+---\n   |   |   |\n---+---+---\n\n";
    assert_eq!(game.pretty_print(), expected);
}

#[test]
fn test_pretty_print_marks() {
    let mut game = TicTacToe::new();
    game.make_move(0, 0).unwrap();
    game.make_move(1, 1).unwrap();
    let expected = "---+---+---\n X |   |   |\n---+---+---\n   | O |   |\n---+---+---\n   |   |   |\n---+---+---\n\n";
    assert_eq!(game.pretty_print(), expected);
}
