use tictactoe::codec::PackedGame;
use tictactoe::game::{GameError, GameResult, Player, TicTacToe};

#[test]
fn test_packed_game_encoding() {
    for i in 0..=0b111111111111111111111u32 {
        let maybe_game: Result<PackedGame, GameError> = PackedGame::try_from_u32(i);
        if maybe_game.is_err() {
            continue;
        }
        let game = maybe_game.unwrap();
        let unpacked = game.get_game();
        let repacked: u32 = unpacked.clone().encode();
        let reunpacked = PackedGame::try_from_u32(repacked);
        if reunpacked.is_err() {
            println!("I: {:b}", i);
            println!("O: {:b}", repacked);
            println!("{:?}", game.get_result());
            println!("{}", game.get_game().pretty_print());
            println!("{:?}", reunpacked.unwrap_err());
        }
        assert!(reunpacked.is_ok());
        if i != repacked || game != reunpacked.unwrap() {
            println!("I: {:b}", i);
            println!("O: {:b}", repacked);
            println!("{:?}", game.get_result());
            println!("{:?}", reunpacked.unwrap());
            println!("{:?}", game);
        }
        assert_eq!(game, reunpacked.unwrap());
        assert_eq!(i, repacked);
    }
}

#[test]
fn test_result_tag_values() {
    assert_eq!(GameResult::InProgressX.to_bits(), 0b000);
    assert_eq!(GameResult::InProgressO.to_bits(), 0b100);
    assert_eq!(GameResult::X.to_bits(), 0b001);
    assert_eq!(GameResult::O.to_bits(), 0b010);
    assert_eq!(GameResult::TieX.to_bits(), 0b011);
    assert_eq!(GameResult::TieO.to_bits(), 0b111);
    for t in 0u8..8 {
        match GameResult::from_bits(t) {
            Ok(r) => assert_eq!(r.to_bits(), t),
            Err(e) => {
                assert_eq!(e, GameError::InvalidOutcomeTag);
                assert!(t == 0b101 || t == 0b110);
            }
        }
    }
}

#[test]
fn test_encode_layout() {
    // One X mark at (0,0), O to move: tag InProgressO (100) in bits 18..21,
    // cell (0,0) as 01 in bits 16..18, all other cells empty.
    let mut game = TicTacToe::new();
    game.make_move(0, 0).unwrap();
    assert_eq!(game.encode(), 0b100_01_00_00_00_00_00_00_00_00u32);

    // The empty board with X to move packs to all-zero bits.
    assert_eq!(TicTacToe::new().encode(), 0);

    // X top row win: cells X,X,X,O,O,empty..., tag 001.
    let mut game = TicTacToe::new();
    game.make_move(0, 0).unwrap();
    game.make_move(1, 0).unwrap();
    game.make_move(0, 1).unwrap();
    game.make_move(1, 1).unwrap();
    game.make_move(0, 2).unwrap();
    assert_eq!(game.game_result(), GameResult::X);
    assert_eq!(game.encode(), 0b001_01_01_01_10_10_00_00_00_00u32);
}

#[test]
fn test_decode_rejects_invalid_cell() {
    // Cell (2,2) holds the invalid pattern 11.
    assert_eq!(
        PackedGame::try_from_u32(0b11),
        Err(GameError::InvalidCellEncoding)
    );
    // Cell (0,0) holds the invalid pattern 11.
    assert_eq!(
        PackedGame::try_from_u32(0b11 << 16),
        Err(GameError::InvalidCellEncoding)
    );
}

#[test]
fn test_decode_rejects_invalid_tag() {
    // Tags 101 and 110 are unassigned.
    assert_eq!(
        PackedGame::try_from_u32(0b101 << 18),
        Err(GameError::InvalidOutcomeTag)
    );
    assert_eq!(
        PackedGame::try_from_u32(0b110 << 18),
        Err(GameError::InvalidOutcomeTag)
    );
}

#[test]
fn test_decode_rejects_high_bits() {
    // A set bit above the tag field is no assigned tag either: accepting
    // such a value would break the round trip, since encoding never
    // produces one.
    assert_eq!(
        PackedGame::try_from_u32(1 << 21),
        Err(GameError::InvalidOutcomeTag)
    );
    assert_eq!(
        PackedGame::try_from_u32(1 << 31),
        Err(GameError::InvalidOutcomeTag)
    );
    // An otherwise self-consistent state with one stray high bit.
    let mut game = TicTacToe::new();
    game.make_move(0, 0).unwrap();
    let packed = game.encode();
    assert!(PackedGame::try_from_u32(packed).is_ok());
    assert_eq!(
        PackedGame::try_from_u32(packed | (1 << 25)),
        Err(GameError::InvalidOutcomeTag)
    );
    // The cell fields are checked first.
    assert_eq!(
        PackedGame::try_from_u32((1 << 25) | 0b11),
        Err(GameError::InvalidCellEncoding)
    );
}

#[test]
fn test_decode_rejects_result_mismatch() {
    // An empty grid claiming a tie: the recomputed outcome is in-progress.
    assert_eq!(
        PackedGame::try_from_u32(0b011 << 18),
        Err(GameError::ResultMismatch)
    );
    // A grid with a full X top row claiming in-progress.
    let x_row = 0b01_01_01u32 << 12;
    assert_eq!(
        PackedGame::try_from_u32(x_row),
        Err(GameError::ResultMismatch)
    );
}

#[test]
fn test_decode_accepts_consistent_states() {
    // The empty board, X to move.
    let pg = PackedGame::try_from_u32(0).unwrap();
    assert_eq!(pg.get_result(), GameResult::InProgressX);
    assert_eq!(pg.get_game().get_current_player(), Player::X);
    assert_eq!(pg.get_game().get_board_state(), [[None; 3]; 3]);

    // A state round-trips through the packed form.
    let mut game = TicTacToe::new();
    game.make_move(2, 0).unwrap();
    game.make_move(1, 1).unwrap();
    game.make_move(0, 2).unwrap();
    let packed = game.encode();
    let pg = PackedGame::try_from_u32(packed).unwrap();
    assert_eq!(pg.get_game().get_board_state(), game.get_board_state());
    assert_eq!(pg.get_game().get_current_player(), game.get_current_player());
    assert_eq!(pg.get_result(), GameResult::InProgressO);
    assert_eq!(pg.get_game().encode(), packed);
}

#[test]
fn test_decode_win_tag_sets_winning_mark() {
    // For win outcomes the reconstructed current mark is by convention the
    // winning mark, whatever mark would really move next.
    let mut game = TicTacToe::new();
    game.make_move(0, 0).unwrap();
    game.make_move(1, 0).unwrap();
    game.make_move(0, 1).unwrap();
    game.make_move(1, 1).unwrap();
    game.make_move(0, 2).unwrap();
    // O would move next, but the X-wins tag reconstructs X as current.
    assert_eq!(game.get_current_player(), Player::O);
    let pg = PackedGame::try_from_u32(game.encode()).unwrap();
    assert_eq!(pg.get_result(), GameResult::X);
    assert_eq!(pg.get_game().get_current_player(), Player::X);
}
