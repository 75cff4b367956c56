use crate::utils::chess_errors::ChessError;
use crate::utils::game_move::{
    file_of, file_text, is_file, is_move_text, is_rank, kind_text, promotion_kind, rank_of,
    rank_text, spec_castle_of, spec_kind_letter, spec_promotion_kind, spec_rank, spec_rank_char,
    spec_to_let, spec_to_num, CastleTypes, GameMove,
};
use crate::utils::pieces::{PieceColors, Pieces};
use vstd::prelude::*;

verus! {

/// A square of the board by its number in a frame of twelve rows of ten
/// cells around the eight rows of eight squares: a1 is 21, h1 is 28, a2 is
/// 31, and h8 is 98.
#[derive(Clone, Copy, Debug, Default, PartialEq, Eq, Structural)]
pub struct Position {
    pub value: usize,
}

/// What a pawn move has to do with capturing in passing, by the numbers of
/// the squares.
#[derive(Clone, Copy, Debug, PartialEq, Eq, Structural)]
pub enum PassantTypes {
    PassantCapture(usize),
    PassantAvailable(usize),
}

/// A move between two numbered squares.
#[derive(Clone, Copy, Debug, PartialEq, Eq, Structural)]
pub struct GameMove1d {
    pub start: Position,
    pub end: Position,
    pub castle: Option<CastleTypes>,
    pub promote: Option<Pieces>,
    pub passant: Option<PassantTypes>,
    pub capture: bool,
}

/// The number of the square in row `row` and column `col`.
pub open spec fn square_number(row: int, col: int) -> int {
    21 + col + 10 * row
}

/// Whether a number is that of a square of the board.
pub open spec fn is_square_number(num: int) -> bool {
    21 <= num <= 98 && 1 <= (num - 20) % 10 <= 8
}

/// Whether a text names a square.
pub open spec fn is_square_text(text: Seq<char>) -> bool {
    text.len() == 2 && is_file(text[0]) && is_rank(text[1])
}

/// The text of the square with a number.
pub open spec fn spec_to_str(num: int) -> Seq<char> {
    seq![spec_to_let((num - 20) % 10 - 1), spec_rank_char((num - 20) / 10)]
}

/// The number of the square that a text names.
pub fn to_num(pos: &str) -> (num: usize)
    requires
        is_square_text(pos@),
    ensures
        num == square_number(spec_rank(pos@[1]), spec_to_num(pos@[0])),
        is_square_number(num as int),
{
    let col: usize = match file_of(pos.get_char(0)) {
        Some(col) => col,
        None => 0,
    };
    let row: usize = match rank_of(pos.get_char(1)) {
        Some(row) => row,
        None => 0,
    };
    21 + col + (10 * row)
}

/// The text of the square with a number.
pub fn to_str(num: usize) -> (text: String)
    requires
        is_square_number(num as int),
    ensures
        text@ == spec_to_str(num as int),
{
    let temp: usize = num - 20;
    let row: usize = temp / 10;
    let col: usize = temp % 10;
    let mut text: String = String::from_str(file_text(col - 1));
    text.append(rank_text(row));
    proof {
        assert(text@ =~= spec_to_str(num as int));
    }
    text
}

impl Position {
    /// The row and the column of the square.
    pub fn to_square(&self) -> (square: [usize; 2])
        requires
            is_square_number(self.value as int),
        ensures
            square[0] < 8,
            square[1] < 8,
            self.value == square_number(square[0] as int, square[1] as int),
    {
        [(self.value - 20) / 10, (self.value - 20) % 10 - 1]
    }

    /// The numbered square of a row and a column.
    pub fn from_square(square: &[usize; 2]) -> (position: Position)
        requires
            square[0] < 8,
            square[1] < 8,
        ensures
            position.value == square_number(square[0] as int, square[1] as int),
            is_square_number(position.value as int),
    {
        Position { value: 21 + square[1] + 10 * square[0] }
    }
}

/// The piece a move text promotes to: the kind its fifth character names,
/// White's if the move ends on the eighth row, Black's if on the first, and
/// of no colour otherwise.
pub open spec fn spec_promote_1d(text: Seq<char>) -> Option<Pieces> {
    if text.len() != 5 {
        None
    } else {
        match spec_promotion_kind(text[4]) {
            Some(kind) => Some(
                Pieces {
                    piece_type: kind,
                    color: if text[3] == '8' {
                        PieceColors::White
                    } else if text[3] == '1' {
                        PieceColors::Black
                    } else {
                        PieceColors::Empty
                    },
                },
            ),
            None => None,
        }
    }
}

/// What a move text says, by the numbers of its squares.
pub open spec fn spec_parse_1d(text: Seq<char>) -> GameMove1d {
    GameMove1d {
        start: Position {
            value: square_number(spec_rank(text[1]), spec_to_num(text[0])) as usize,
        },
        end: Position { value: square_number(spec_rank(text[3]), spec_to_num(text[2])) as usize },
        castle: spec_castle_of(text),
        promote: spec_promote_1d(text),
        passant: None,
        capture: false,
    }
}

/// The text of a move between numbered squares.
pub open spec fn spec_text_1d(m: GameMove1d) -> Seq<char> {
    let squares = spec_to_str(m.start.value as int) + spec_to_str(m.end.value as int);
    match m.promote {
        Some(piece) => squares.push(spec_kind_letter(piece.piece_type)),
        None => squares,
    }
}

impl GameMove1d {
    /// Reads a move of the shape `e2e4` or `a7a8q`. A text that is neither
    /// four nor five characters long has the wrong length; any other text
    /// that is not two squares and at most a promotion letter is not valid.
    pub fn from_str(input: &str) -> (r: Result<GameMove1d, ChessError>)
        ensures
            r is Ok <==> is_move_text(input@),
            r matches Ok(m) ==> m == spec_parse_1d(input@),
            r matches Err(e) ==> e == (if input@.len() != 4 && input@.len() != 5 {
                ChessError::MoveParseLengthError
            } else {
                ChessError::MoveParseAlphaNumError
            }),
    {
        let length: usize = input.unicode_len();
        if length != 4 && length != 5 {
            return Err(ChessError::MoveParseLengthError);
        }
        let c0: char = input.get_char(0);
        let c1: char = input.get_char(1);
        let c2: char = input.get_char(2);
        let c3: char = input.get_char(3);
        let squares = (file_of(c0), rank_of(c1), file_of(c2), rank_of(c3));
        let (start, end): (usize, usize) = match squares {
            (Some(col), Some(row), Some(end_col), Some(end_row)) => (
                21 + col + 10 * row,
                21 + end_col + 10 * end_row,
            ),
            _ => {
                return Err(ChessError::MoveParseAlphaNumError);
            },
        };
        let promote: Option<Pieces> = if length == 5 {
            let color: PieceColors = if c3 == '8' {
                PieceColors::White
            } else if c3 == '1' {
                PieceColors::Black
            } else {
                PieceColors::Empty
            };
            match promotion_kind(input.get_char(4)) {
                Some(kind) => Some(Pieces { piece_type: kind, color }),
                None => {
                    return Err(ChessError::MoveParseAlphaNumError);
                },
            }
        } else {
            None
        };
        let castle: Option<CastleTypes> = if length != 4 || c0 != 'e' {
            None
        } else if c1 == '1' && c2 == 'g' && c3 == '1' {
            Some(CastleTypes::WhiteKing)
        } else if c1 == '1' && c2 == 'c' && c3 == '1' {
            Some(CastleTypes::WhiteQueen)
        } else if c1 == '8' && c2 == 'g' && c3 == '8' {
            Some(CastleTypes::BlackKing)
        } else if c1 == '8' && c2 == 'c' && c3 == '8' {
            Some(CastleTypes::BlackQueen)
        } else {
            None
        };
        Ok(
            GameMove1d {
                start: Position { value: start },
                end: Position { value: end },
                castle,
                promote,
                passant: None,
                capture: false,
            },
        )
    }

    /// The move as text, `e2e4` or `a7a8q`.
    pub fn to_string(&self) -> (text: String)
        requires
            is_square_number(self.start.value as int),
            is_square_number(self.end.value as int),
        ensures
            text@ == spec_text_1d(*self),
    {
        let mut text: String = to_str(self.start.value);
        let end: String = to_str(self.end.value);
        text.append(end.as_str());
        match self.promote {
            Some(piece) => {
                text.append(kind_text(piece.piece_type));
            },
            None => {},
        }
        proof {
            assert(text@ =~= spec_text_1d(*self));
        }
        text
    }

    /// The same move between squares given by row and column. What the move
    /// has to do with capturing in passing is not carried over.
    pub fn to_game_move(&self) -> (m: GameMove)
        requires
            is_square_number(self.start.value as int),
            is_square_number(self.end.value as int),
        ensures
            self.start.value == square_number(m.start[0] as int, m.start[1] as int),
            self.end.value == square_number(m.end[0] as int, m.end[1] as int),
            m.start[0] < 8 && m.start[1] < 8 && m.end[0] < 8 && m.end[1] < 8,
            m.castle == self.castle,
            m.promote == self.promote,
            m.passant is None,
            m.capture == self.capture,
    {
        GameMove {
            start: self.start.to_square(),
            end: self.end.to_square(),
            castle: self.castle,
            promote: self.promote,
            passant: None,
            capture: self.capture,
        }
    }
}

} // verus!
