//! The packed 32-bit form of a board and its outcome.
//!
//! The low 18 bits hold the nine cells in row-major order, two bits each
//! with the first cell highest (00 empty, 01 mark X, 10 mark O, 11 invalid);
//! bits 18..21 hold the outcome tag.  The format is self-checking: decoding
//! rejects the cell pattern 11, the two unassigned tags, and any tag that
//! disagrees with the outcome recomputed from the decoded grid.

use vstd::prelude::*;

use crate::game::{
    board_grid, grid_result, valid_cell, GameError, GameResult, Player, TicTacToe,
};

verus! {

/// The three-bit tag of each outcome.
pub open spec fn result_bits(r: GameResult) -> u8 {
    match r {
        GameResult::InProgressX => 0,
        GameResult::InProgressO => 4,
        GameResult::X => 1,
        GameResult::O => 2,
        GameResult::TieX => 3,
        GameResult::TieO => 7,
    }
}

/// The six assigned tags; 5 and 6 stand for no outcome.
pub open spec fn valid_tag(t: u8) -> bool {
    t == 0 || t == 1 || t == 2 || t == 3 || t == 4 || t == 7
}

/// The outcome an assigned tag stands for.
pub open spec fn tag_result(t: u8) -> GameResult {
    if t == 0 {
        GameResult::InProgressX
    } else if t == 1 {
        GameResult::X
    } else if t == 2 {
        GameResult::O
    } else if t == 3 {
        GameResult::TieX
    } else if t == 4 {
        GameResult::InProgressO
    } else {
        GameResult::TieO
    }
}

/// The mark a decoded state records as current: the next mover for tie and
/// in-progress tags, and by convention the winning mark for the win tags,
/// where the game is over and the field has no gameplay significance.
pub open spec fn tag_player(t: u8) -> Player {
    if t == 0 || t == 1 || t == 3 {
        Player::X
    } else {
        Player::O
    }
}

/// The two-bit pattern of one cell.
pub open spec fn cell_bits(o: Option<char>) -> u32 {
    if o is None {
        0
    } else if o == Some('X') {
        1
    } else if o == Some('O') {
        2
    } else {
        3
    }
}

/// The cell a two-bit pattern below 3 stands for.
pub open spec fn cell_of_bits(b: u32) -> Option<char> {
    if b == 0 {
        None
    } else if b == 1 {
        Some('X')
    } else {
        Some('O')
    }
}

/// The packed form of a grid and an outcome.
pub open spec fn encode_of(g: Seq<Option<char>>, res: GameResult) -> u32 {
    ((result_bits(res) as u32) << 18) | (cell_bits(g[0]) << 16) | (cell_bits(g[1]) << 14) | (
    cell_bits(g[2]) << 12) | (cell_bits(g[3]) << 10) | (cell_bits(g[4]) << 8) | (cell_bits(g[5])
        << 6) | (cell_bits(g[6]) << 4) | (cell_bits(g[7]) << 2) | cell_bits(g[8])
}

/// The tag embedded in a packed value.
pub open spec fn tag_of(v: u32) -> u8 {
    ((v >> 18) & 7) as u8
}

/// The two bits of cell `i` in a packed value.
pub open spec fn cbits(v: u32, i: int) -> u32 {
    (v >> ((16 - 2 * i) as u32)) & 3
}

/// No cell of the packed value holds the invalid pattern 11.
pub open spec fn cells_ok(v: u32) -> bool {
    forall|i: int| 0 <= i < 9 ==> (#[trigger] cbits(v, i)) != 3
}

/// The whole field from bit 18 up is an assigned tag: no bit above the
/// three tag bits is set, and the tag itself is assigned.  A set high bit
/// would survive no round trip, since encoding never produces one.
pub open spec fn tag_field_ok(v: u32) -> bool {
    v >> 21 == 0 && valid_tag(tag_of(v))
}

/// The grid a packed value describes.
pub open spec fn grid_of(v: u32) -> Seq<Option<char>> {
    Seq::new(9, |i: int| cell_of_bits(cbits(v, i)))
}

/// The outcome recomputed from the decoded grid and the implied mark.
pub open spec fn decode_result(v: u32) -> GameResult {
    grid_result(grid_of(v), tag_player(tag_of(v)))
}

impl GameResult {
    /// The three-bit tag of this outcome.
    pub fn to_bits(self) -> (r: u8)
        ensures
            r == result_bits(self),
    {
        match self {
            GameResult::InProgressX => 0b000,
            GameResult::InProgressO => 0b100,
            GameResult::X => 0b001,
            GameResult::O => 0b010,
            GameResult::TieX => 0b011,
            GameResult::TieO => 0b111,
        }
    }

    /// The outcome of an assigned tag, or `InvalidOutcomeTag` for the rest.
    pub fn from_bits(bits: u8) -> (r: Result<GameResult, GameError>)
        ensures
            valid_tag(bits) ==> r == Ok::<GameResult, GameError>(tag_result(bits)),
            !valid_tag(bits) ==> r == Err::<GameResult, GameError>(GameError::InvalidOutcomeTag),
    {
        match bits {
            0b000 => Ok(GameResult::InProgressX),
            0b100 => Ok(GameResult::InProgressO),
            0b001 => Ok(GameResult::X),
            0b010 => Ok(GameResult::O),
            0b011 => Ok(GameResult::TieX),
            0b111 => Ok(GameResult::TieO),
            _ => Err(GameError::InvalidOutcomeTag),
        }
    }
}

fn cell_to_bits(o: Option<char>) -> (r: u32)
    requires
        valid_cell(o),
    ensures
        r == cell_bits(o),
        r <= 2,
{
    match o {
        None => 0,
        Some(c) => if c == 'X' {
            1
        } else {
            2
        },
    }
}

fn cell_from_bits(b: u32) -> (o: Option<char>)
    requires
        b <= 3,
        b != 3,
    ensures
        o == cell_of_bits(b),
        valid_cell(o),
{
    if b == 0 {
        None
    } else if b == 1 {
        Some('X')
    } else {
        Some('O')
    }
}

impl TicTacToe {
    /// Packs this board and its outcome: the outcome tag first, then the
    /// nine cells shifted in row-major order, two bits each.
    pub fn encode(&self) -> (r: u32)
        requires
            self.wf(),
        ensures
            r == encode_of(self.grid(), self.result_spec()),
    {
        let t = self.game_result().to_bits();
        let b0 = cell_to_bits(self.get(0, 0));
        let b1 = cell_to_bits(self.get(0, 1));
        let b2 = cell_to_bits(self.get(0, 2));
        let b3 = cell_to_bits(self.get(1, 0));
        let b4 = cell_to_bits(self.get(1, 1));
        let b5 = cell_to_bits(self.get(1, 2));
        let b6 = cell_to_bits(self.get(2, 0));
        let b7 = cell_to_bits(self.get(2, 1));
        let b8 = cell_to_bits(self.get(2, 2));
        let mut packed: u32 = t as u32;
        packed = (packed << 2) | b0;
        packed = (packed << 2) | b1;
        packed = (packed << 2) | b2;
        packed = (packed << 2) | b3;
        packed = (packed << 2) | b4;
        packed = (packed << 2) | b5;
        packed = (packed << 2) | b6;
        packed = (packed << 2) | b7;
        packed = (packed << 2) | b8;
        proof {
            assert(t <= 7);
            assert(packed == ((t as u32) << 18) | (b0 << 16) | (b1 << 14) | (b2 << 12) | (b3
                << 10) | (b4 << 8) | (b5 << 6) | (b6 << 4) | (b7 << 2) | b8) by (bit_vector)
                requires
                    packed == (((((((((((((((((((t as u32) << 2) | b0) << 2) | b1) << 2) | b2)
                        << 2) | b3) << 2) | b4) << 2) | b5) << 2) | b6) << 2) | b7) << 2) | b8),
                    t <= 7,
                    b0 <= 2,
                    b1 <= 2,
                    b2 <= 2,
                    b3 <= 2,
                    b4 <= 2,
                    b5 <= 2,
                    b6 <= 2,
                    b7 <= 2,
                    b8 <= 2,
            ;
        }
        packed
    }
}

/// A decoded packed value: a reconstructed board together with the outcome
/// the packed value embeds, which decoding has checked against the outcome
/// recomputed from the board.
#[derive(Clone, Copy, Debug, PartialEq)]
pub struct PackedGame {
    pub game: TicTacToe,
    pub result: GameResult,
}

impl PackedGame {
    /// Unpacks a 32-bit value, rejecting an invalid cell pattern, an
    /// unassigned outcome tag (any set bit above the three tag bits is no
    /// assigned tag either), and a tag that disagrees with the outcome
    /// recomputed from the decoded grid.  Every accepted value therefore
    /// re-encodes to itself bit for bit.
    pub fn try_from_u32(packed: u32) -> (r: Result<PackedGame, GameError>)
        ensures
            !cells_ok(packed) ==> r == Err::<PackedGame, GameError>(GameError::InvalidCellEncoding),
            cells_ok(packed) && !tag_field_ok(packed) ==> r == Err::<PackedGame, GameError>(
                GameError::InvalidOutcomeTag,
            ),
            cells_ok(packed) && tag_field_ok(packed) && decode_result(packed) != tag_result(
                tag_of(packed),
            ) ==> r == Err::<PackedGame, GameError>(GameError::ResultMismatch),
            cells_ok(packed) && tag_field_ok(packed) && decode_result(packed) == tag_result(
                tag_of(packed),
            ) ==> (r matches Ok(pg) && {
                &&& pg.game.grid() == grid_of(packed)
                &&& pg.game.current_player == tag_player(tag_of(packed))
                &&& pg.game.wf()
                &&& pg.result == tag_result(tag_of(packed))
                &&& pg.game.result_spec() == pg.result
            }),
    {
        let b0: u32 = (packed >> 16) & 3;
        let b1: u32 = (packed >> 14) & 3;
        let b2: u32 = (packed >> 12) & 3;
        let b3: u32 = (packed >> 10) & 3;
        let b4: u32 = (packed >> 8) & 3;
        let b5: u32 = (packed >> 6) & 3;
        let b6: u32 = (packed >> 4) & 3;
        let b7: u32 = (packed >> 2) & 3;
        let b8: u32 = packed & 3;
        proof {
            assert(b0 <= 3 && b1 <= 3 && b2 <= 3 && b3 <= 3 && b4 <= 3 && b5 <= 3 && b6 <= 3 && b7
                <= 3 && b8 <= 3) by (bit_vector)
                requires
                    b0 == (packed >> 16) & 3,
                    b1 == (packed >> 14) & 3,
                    b2 == (packed >> 12) & 3,
                    b3 == (packed >> 10) & 3,
                    b4 == (packed >> 8) & 3,
                    b5 == (packed >> 6) & 3,
                    b6 == (packed >> 4) & 3,
                    b7 == (packed >> 2) & 3,
                    b8 == packed & 3,
            ;
        }
        proof {
            assert(cbits(packed, 0) == b0 && cbits(packed, 1) == b1 && cbits(packed, 2) == b2
                && cbits(packed, 3) == b3 && cbits(packed, 4) == b4 && cbits(packed, 5) == b5
                && cbits(packed, 6) == b6 && cbits(packed, 7) == b7);
            assert(packed >> 0 == packed) by (bit_vector);
            assert(cbits(packed, 8) == b8);
        }
        if b0 == 3 || b1 == 3 || b2 == 3 || b3 == 3 || b4 == 3 || b5 == 3 || b6 == 3 || b7 == 3
            || b8 == 3 {
            return Err(GameError::InvalidCellEncoding);
        }
        if (packed >> 21) != 0 {
            return Err(GameError::InvalidOutcomeTag);
        }
        proof {
            assert forall|i: int| 0 <= i < 9 implies (#[trigger] cbits(packed, i)) != 3 by {
                if i == 0 {
                    assert(cbits(packed, 0) == b0);
                } else if i == 1 {
                    assert(cbits(packed, 1) == b1);
                } else if i == 2 {
                    assert(cbits(packed, 2) == b2);
                } else if i == 3 {
                    assert(cbits(packed, 3) == b3);
                } else if i == 4 {
                    assert(cbits(packed, 4) == b4);
                } else if i == 5 {
                    assert(cbits(packed, 5) == b5);
                } else if i == 6 {
                    assert(cbits(packed, 6) == b6);
                } else if i == 7 {
                    assert(cbits(packed, 7) == b7);
                } else {
                    assert(packed >> 0 == packed) by (bit_vector);
                    assert(cbits(packed, 8) == b8);
                }
            }
        }
        let t: u8 = ((packed >> 18) & 7) as u8;
        let result = match GameResult::from_bits(t) {
            Ok(res) => res,
            Err(e) => {
                return Err(e);
            },
        };
        let row0: [Option<char>; 3] = [cell_from_bits(b0), cell_from_bits(b1), cell_from_bits(b2)];
        let row1: [Option<char>; 3] = [cell_from_bits(b3), cell_from_bits(b4), cell_from_bits(b5)];
        let row2: [Option<char>; 3] = [cell_from_bits(b6), cell_from_bits(b7), cell_from_bits(b8)];
        let board: [[Option<char>; 3]; 3] = [row0, row1, row2];
        let current_player = match result {
            GameResult::X => Player::X,
            GameResult::O => Player::O,
            GameResult::TieO => Player::O,
            GameResult::TieX => Player::X,
            GameResult::InProgressX => Player::X,
            GameResult::InProgressO => Player::O,
        };
        let mut game = TicTacToe::new();
        game.set_board_state(board);
        game.set_player(current_player);
        proof {
            assert(board@[0] == row0 && board@[1] == row1 && board@[2] == row2);
            assert forall|i: int| 0 <= i < 9 implies game.grid()[i] == grid_of(packed)[i] by {
                assert(0 <= i / 3 < 3);
                assert(0 <= i % 3 < 3);
                assert(i == 3 * (i / 3) + i % 3);
                if i == 0 {
                    assert(cbits(packed, 0) == b0);
                } else if i == 1 {
                    assert(cbits(packed, 1) == b1);
                } else if i == 2 {
                    assert(cbits(packed, 2) == b2);
                } else if i == 3 {
                    assert(cbits(packed, 3) == b3);
                } else if i == 4 {
                    assert(cbits(packed, 4) == b4);
                } else if i == 5 {
                    assert(cbits(packed, 5) == b5);
                } else if i == 6 {
                    assert(cbits(packed, 6) == b6);
                } else if i == 7 {
                    assert(cbits(packed, 7) == b7);
                } else {
                    assert(packed >> 0 == packed) by (bit_vector);
                    assert(cbits(packed, 8) == b8);
                }
            }
            assert(game.grid() =~= grid_of(packed));
            assert(game.current_player == tag_player(tag_of(packed)));
        }
        if game.game_result() != result {
            return Err(GameError::ResultMismatch);
        }
        Ok(PackedGame { game, result })
    }

    pub fn get_game(&self) -> (r: &TicTacToe)
        ensures
            *r == self.game,
    {
        &self.game
    }

    pub fn get_result(&self) -> (r: GameResult)
        ensures
            r == self.result,
    {
        self.result
    }
}

/// Round trip, packed side: any value whose cells and tag field are valid
/// and whose embedded tag matches the recomputed outcome — that is, any
/// value decoding accepts — is re-encoded bit for bit from what it decodes
/// to.
pub proof fn lemma_decode_then_encode(v: u32)
    requires
        cells_ok(v),
        tag_field_ok(v),
    ensures
        encode_of(grid_of(v), tag_result(tag_of(v))) == v,
{
    let c0 = cbits(v, 0);
    let c1 = cbits(v, 1);
    let c2 = cbits(v, 2);
    let c3 = cbits(v, 3);
    let c4 = cbits(v, 4);
    let c5 = cbits(v, 5);
    let c6 = cbits(v, 6);
    let c7 = cbits(v, 7);
    let c8 = cbits(v, 8);
    assert(v >> 0 == v) by (bit_vector);
    assert(c0 == (v >> 16) & 3 && c1 == (v >> 14) & 3 && c2 == (v >> 12) & 3 && c3 == (v >> 10)
        & 3 && c4 == (v >> 8) & 3 && c5 == (v >> 6) & 3 && c6 == (v >> 4) & 3 && c7 == (v >> 2)
        & 3 && c8 == v & 3);
    assert((v >> 18) & 7 <= 7 && ((((v >> 18) & 7) as u8) as u32) == (v >> 18) & 7) by (bit_vector);
    assert(((v >> 16) & 3 <= 3) && ((v >> 14) & 3 <= 3) && ((v >> 12) & 3 <= 3) && ((v >> 10) & 3
        <= 3) && ((v >> 8) & 3 <= 3) && ((v >> 6) & 3 <= 3) && ((v >> 4) & 3 <= 3) && ((v >> 2) & 3
        <= 3) && (v & 3 <= 3)) by (bit_vector);
    assert(cbits(v, 0) != 3 && cbits(v, 1) != 3 && cbits(v, 2) != 3 && cbits(v, 3) != 3 && cbits(
        v,
        4,
    ) != 3 && cbits(v, 5) != 3 && cbits(v, 6) != 3 && cbits(v, 7) != 3 && cbits(v, 8) != 3);
    assert(((((v >> 18) & 7) << 18) | (((v >> 16) & 3) << 16) | (((v >> 14) & 3) << 14) | (((v
        >> 12) & 3) << 12) | (((v >> 10) & 3) << 10) | (((v >> 8) & 3) << 8) | (((v >> 6) & 3)
        << 6) | (((v >> 4) & 3) << 4) | (((v >> 2) & 3) << 2) | (v & 3)) == v) by (bit_vector)
        requires
            v >> 21 == 0,
    ;
}

/// Round trip, state side: encoding a well-formed board with its own
/// outcome yields a value that decodes successfully back to the same grid
/// and the same outcome; the reconstructed current mark equals the original
/// except under a win tag, where it is by convention the winning mark.
pub proof fn lemma_encode_then_decode(t: TicTacToe)
    requires
        t.wf(),
    ensures
        ({
            let v = encode_of(t.grid(), t.result_spec());
            &&& v >> 21 == 0
            &&& cells_ok(v)
            &&& tag_of(v) == result_bits(t.result_spec())
            &&& valid_tag(tag_of(v))
            &&& tag_field_ok(v)
            &&& grid_of(v) == t.grid()
            &&& tag_result(tag_of(v)) == t.result_spec()
            &&& decode_result(v) == t.result_spec()
            &&& (t.result_spec() != GameResult::X && t.result_spec() != GameResult::O ==>
                tag_player(tag_of(v)) == t.current_player)
        }),
{
    let g = t.grid();
    let res = t.result_spec();
    let tg: u32 = result_bits(res) as u32;
    let c0 = cell_bits(g[0]);
    let c1 = cell_bits(g[1]);
    let c2 = cell_bits(g[2]);
    let c3 = cell_bits(g[3]);
    let c4 = cell_bits(g[4]);
    let c5 = cell_bits(g[5]);
    let c6 = cell_bits(g[6]);
    let c7 = cell_bits(g[7]);
    let c8 = cell_bits(g[8]);
    assert(c0 <= 2 && c1 <= 2 && c2 <= 2 && c3 <= 2 && c4 <= 2 && c5 <= 2 && c6 <= 2 && c7 <= 2
        && c8 <= 2);
    let v = encode_of(g, res);
    assert(v >> 0 == v) by (bit_vector);
    assert(v == (tg << 18) | (c0 << 16) | (c1 << 14) | (c2 << 12) | (c3 << 10) | (c4 << 8) | (c5
        << 6) | (c6 << 4) | (c7 << 2) | c8);
    assert((v >> 21 == 0) && ((v >> 18) & 7 == tg) && ((v >> 16) & 3 == c0) && ((v >> 14) & 3
        == c1) && ((v >> 12) & 3 == c2) && ((v >> 10) & 3 == c3) && ((v >> 8) & 3 == c4) && ((v
        >> 6) & 3 == c5) && ((v >> 4) & 3 == c6) && ((v >> 2) & 3 == c7) && (v & 3 == c8)
        && (((tg as u8) as u32) == tg)) by (bit_vector)
        requires
            v == (tg << 18) | (c0 << 16) | (c1 << 14) | (c2 << 12) | (c3 << 10) | (c4 << 8) | (c5
                << 6) | (c6 << 4) | (c7 << 2) | c8,
            tg <= 7,
            c0 <= 2,
            c1 <= 2,
            c2 <= 2,
            c3 <= 2,
            c4 <= 2,
            c5 <= 2,
            c6 <= 2,
            c7 <= 2,
            c8 <= 2,
    ;
    assert(tag_of(v) == result_bits(res));
    assert forall|i: int| 0 <= i < 9 implies (#[trigger] cbits(v, i)) != 3 by {
        if i == 0 {
            assert(cbits(v, 0) == c0);
        } else if i == 1 {
            assert(cbits(v, 1) == c1);
        } else if i == 2 {
            assert(cbits(v, 2) == c2);
        } else if i == 3 {
            assert(cbits(v, 3) == c3);
        } else if i == 4 {
            assert(cbits(v, 4) == c4);
        } else if i == 5 {
            assert(cbits(v, 5) == c5);
        } else if i == 6 {
            assert(cbits(v, 6) == c6);
        } else if i == 7 {
            assert(cbits(v, 7) == c7);
        } else {
            assert(cbits(v, 8) == c8);
        }
    }
    assert forall|i: int| 0 <= i < 9 implies grid_of(v)[i] == g[i] by {
        assert(valid_cell(g[i]));
        if i == 0 {
            assert(cbits(v, 0) == c0);
        } else if i == 1 {
            assert(cbits(v, 1) == c1);
        } else if i == 2 {
            assert(cbits(v, 2) == c2);
        } else if i == 3 {
            assert(cbits(v, 3) == c3);
        } else if i == 4 {
            assert(cbits(v, 4) == c4);
        } else if i == 5 {
            assert(cbits(v, 5) == c5);
        } else if i == 6 {
            assert(cbits(v, 6) == c6);
        } else if i == 7 {
            assert(cbits(v, 7) == c7);
        } else {
            assert(cbits(v, 8) == c8);
        }
    }
    assert(grid_of(v) =~= g);
    assert(tag_result(tag_of(v)) == res);
    assert(decode_result(v) == grid_result(g, tag_player(tag_of(v))));
    if res != GameResult::X && res != GameResult::O {
        assert(tag_player(tag_of(v)) == t.current_player);
    }
    assert(decode_result(v) == res);
}

} // verus!
