use crate::ai_funcs::ai_utils::tables::{
    EG_BISHOP_TABLE, EG_KING_TABLE, EG_KNIGHT_TABLE, EG_PAWN_TABLE, EG_QUEEN_TABLE, EG_ROOK_TABLE,
    MG_BISHOP_TABLE, MG_KING_TABLE, MG_KNIGHT_TABLE, MG_PAWN_TABLE, MG_QUEEN_TABLE, MG_ROOK_TABLE,
};
use crate::board_structs::board::Board;
use crate::board_structs::geometry::{grid_view, on_board, Grid, Squares};
use crate::board_structs::position::PositionView;
use crate::utils::game_move::GameMove;
use crate::utils::pieces::{PieceColors, PieceTypes, Pieces, BLACK, WHITE};
use vstd::prelude::*;

verus! {

pub const MIDGAME: bool = false;

pub const ENDGAME: bool = true;

pub const PAWN_VAL: i32 = 100;

pub const BISHOP_VAL: i32 = 350;

pub const KNIGHT_VAL: i32 = 300;

pub const ROOK_VAL: i32 = 500;

pub const QUEEN_VAL: i32 = 900;

pub const KING_VAL: i32 = 400;

/// What a pair of bishops adds to its side.
pub const BISHOP_PAIR: i32 = 20;

/// What being in check takes from the side to move.
pub const CHECK_PENALTY: i32 = 20;

/// No evaluation is further from zero than this.
pub const EVAL_LIMIT: i32 = 100000;

/// The value of the side to move being mated, when it is White.
pub const WHITE_MATED: i32 = i32::MIN + 1;

/// The value of the side to move being mated, when it is Black.
pub const BLACK_MATED: i32 = i32::MAX - 1;

/// What a piece of a kind is worth, in hundredths of a pawn.
pub open spec fn spec_piece_value(kind: PieceTypes) -> int {
    match kind {
        PieceTypes::Pawn => 100,
        PieceTypes::Knight => 300,
        PieceTypes::Bishop => 350,
        PieceTypes::Rook => 500,
        PieceTypes::Queen => 900,
        PieceTypes::King => 400,
        PieceTypes::Empty => 0,
    }
}

pub fn get_piece_value(piece: &Pieces) -> (value: i32)
    ensures
        value == spec_piece_value(piece.piece_type),
{
    match piece.piece_type {
        PieceTypes::Empty => 0,
        PieceTypes::Knight => KNIGHT_VAL,
        PieceTypes::Bishop => BISHOP_VAL,
        PieceTypes::Pawn => PAWN_VAL,
        PieceTypes::Rook => ROOK_VAL,
        PieceTypes::Queen => QUEEN_VAL,
        PieceTypes::King => KING_VAL,
    }
}

/// What standing on `(row, col)` adds to a white piece of a kind, in the
/// middle game or in the endgame.
pub open spec fn table_entry(kind: PieceTypes, endgame: bool, row: int, col: int) -> int {
    match kind {
        PieceTypes::Pawn => if endgame {
            EG_PAWN_TABLE[row][col] as int
        } else {
            MG_PAWN_TABLE[row][col] as int
        },
        PieceTypes::Knight => if endgame {
            EG_KNIGHT_TABLE[row][col] as int
        } else {
            MG_KNIGHT_TABLE[row][col] as int
        },
        PieceTypes::Bishop => if endgame {
            EG_BISHOP_TABLE[row][col] as int
        } else {
            MG_BISHOP_TABLE[row][col] as int
        },
        PieceTypes::Rook => if endgame {
            EG_ROOK_TABLE[row][col] as int
        } else {
            MG_ROOK_TABLE[row][col] as int
        },
        PieceTypes::Queen => if endgame {
            EG_QUEEN_TABLE[row][col] as int
        } else {
            MG_QUEEN_TABLE[row][col] as int
        },
        PieceTypes::King => if endgame {
            EG_KING_TABLE[row][col] as int
        } else {
            MG_KING_TABLE[row][col] as int
        },
        PieceTypes::Empty => 0,
    }
}

/// What its square adds to a piece, seen from White: the entry of the table
/// for a white piece, and for a black piece the entry of the square mirrored
/// across the middle of the board, negated.
pub open spec fn spec_position_value(piece: Pieces, row: int, col: int, endgame: bool) -> int {
    match piece.color {
        PieceColors::White => table_entry(piece.piece_type, endgame, row, col),
        PieceColors::Black => -table_entry(piece.piece_type, endgame, 7 - row, col),
        PieceColors::Empty => 0,
    }
}

fn table_value(kind: PieceTypes, endgame: bool, row: usize, col: usize) -> (value: i32)
    requires
        row < 8,
        col < 8,
    ensures
        value == table_entry(kind, endgame, row as int, col as int),
        -200 <= value <= 200,
{
    match kind {
        PieceTypes::Pawn => if endgame {
            EG_PAWN_TABLE[row][col]
        } else {
            MG_PAWN_TABLE[row][col]
        },
        PieceTypes::Knight => if endgame {
            EG_KNIGHT_TABLE[row][col]
        } else {
            MG_KNIGHT_TABLE[row][col]
        },
        PieceTypes::Bishop => if endgame {
            EG_BISHOP_TABLE[row][col]
        } else {
            MG_BISHOP_TABLE[row][col]
        },
        PieceTypes::Rook => if endgame {
            EG_ROOK_TABLE[row][col]
        } else {
            MG_ROOK_TABLE[row][col]
        },
        PieceTypes::Queen => if endgame {
            EG_QUEEN_TABLE[row][col]
        } else {
            MG_QUEEN_TABLE[row][col]
        },
        PieceTypes::King => if endgame {
            EG_KING_TABLE[row][col]
        } else {
            MG_KING_TABLE[row][col]
        },
        PieceTypes::Empty => 0,
    }
}

pub fn get_position_value(piece: &Pieces, square: [usize; 2], game_time: bool) -> (value: i32)
    requires
        square[0] < 8,
        square[1] < 8,
    ensures
        value == spec_position_value(*piece, square[0] as int, square[1] as int, game_time),
        -200 <= value <= 200,
{
    match piece.color {
        PieceColors::White => table_value(piece.piece_type, game_time, square[0], square[1]),
        PieceColors::Black => -table_value(piece.piece_type, game_time, 7 - square[0], square[1]),
        PieceColors::Empty => 0,
    }
}

/// What a piece on `(row, col)` is worth, seen from White: its material
/// and what its square adds, positive for a white piece and negative for a
/// black one.
pub open spec fn square_worth(piece: Pieces, row: int, col: int, endgame: bool) -> int {
    spec_position_value(piece, row, col, endgame) + (match piece.color {
        PieceColors::White => spec_piece_value(piece.piece_type),
        PieceColors::Black => -spec_piece_value(piece.piece_type),
        PieceColors::Empty => 0,
    })
}

/// The worth of the first `n` squares of row `r`.
pub open spec fn row_worth(board: Squares, endgame: bool, r: int, n: int) -> int
    decreases n,
{
    if n <= 0 {
        0
    } else {
        row_worth(board, endgame, r, n - 1) + square_worth(board[r][n - 1], r, n - 1, endgame)
    }
}

/// The worth of the first `n` rows.
pub open spec fn board_worth(board: Squares, endgame: bool, n: int) -> int
    decreases n,
{
    if n <= 0 {
        0
    } else {
        board_worth(board, endgame, n - 1) + row_worth(board, endgame, n - 1, 8)
    }
}

/// Whether a piece is neither a pawn nor an empty square.
pub open spec fn is_officer(piece: Pieces) -> bool {
    piece.piece_type != PieceTypes::Empty && piece.piece_type != PieceTypes::Pawn
}

/// Whether a piece is to be counted: an officer if `what` is none, else the
/// piece `what`.
pub open spec fn counts(piece: Pieces, what: Option<Pieces>) -> bool {
    match what {
        Some(wanted) => piece == wanted,
        None => is_officer(piece),
    }
}

/// How many of the first `n` squares of row `r` count.
pub open spec fn row_count(board: Squares, what: Option<Pieces>, r: int, n: int) -> int
    decreases n,
{
    if n <= 0 {
        0
    } else {
        row_count(board, what, r, n - 1) + (if counts(board[r][n - 1], what) {
            1int
        } else {
            0int
        })
    }
}

/// How many squares of the first `n` rows count.
pub open spec fn board_count(board: Squares, what: Option<Pieces>, n: int) -> int
    decreases n,
{
    if n <= 0 {
        0
    } else {
        board_count(board, what, n - 1) + row_count(board, what, n - 1, 8)
    }
}

/// The game is in its endgame when at most six pieces that are not pawns
/// are left.
pub open spec fn is_endgame(board: Squares) -> bool {
    board_count(board, None, 8) <= 6
}

/// How many bishops a player has.
pub open spec fn bishops(board: Squares, player: bool) -> int {
    board_count(board, Some(Pieces::of(PieceTypes::Bishop, player)), 8)
}

/// The value of a position, positive when it favours White: material and
/// what the squares add, twenty for a pair of bishops, and twenty against
/// the side to move when it is in check.
pub open spec fn evaluate(s: PositionView) -> int {
    board_worth(s.board, is_endgame(s.board), 8) + (if bishops(s.board, WHITE) >= 2 {
        20int
    } else {
        0int
    }) - (if bishops(s.board, BLACK) >= 2 {
        20int
    } else {
        0int
    }) + (if !s.in_check(s.curr_move) {
        0int
    } else if s.curr_move == WHITE {
        -20int
    } else {
        20int
    })
}

proof fn lemma_row_worth_bounds(board: Squares, endgame: bool, r: int, n: int)
    requires
        0 <= r < 8,
        0 <= n <= 8,
    ensures
        -1100 * n <= row_worth(board, endgame, r, n) <= 1100 * n,
    decreases n,
{
    if n > 0 {
        lemma_row_worth_bounds(board, endgame, r, n - 1);
        lemma_square_worth_bounds(board[r][n - 1], r, n - 1, endgame);
    }
}

proof fn lemma_square_worth_bounds(piece: Pieces, r: int, c: int, endgame: bool)
    requires
        on_board(r, c),
    ensures
        -1100 <= square_worth(piece, r, c, endgame) <= 1100,
{
    assert(-200 <= table_entry(piece.piece_type, endgame, r, c) <= 200);
    assert(-200 <= table_entry(piece.piece_type, endgame, 7 - r, c) <= 200);
}

proof fn lemma_board_worth_bounds(board: Squares, endgame: bool, n: int)
    requires
        0 <= n <= 8,
    ensures
        -8800 * n <= board_worth(board, endgame, n) <= 8800 * n,
    decreases n,
{
    if n > 0 {
        lemma_board_worth_bounds(board, endgame, n - 1);
        lemma_row_worth_bounds(board, endgame, n - 1, 8);
    }
}

/// No evaluation is further from zero than the limit.
pub proof fn lemma_evaluate_bounds(s: PositionView)
    ensures
        -EVAL_LIMIT <= evaluate(s) <= EVAL_LIMIT,
{
    lemma_board_worth_bounds(s.board, is_endgame(s.board), 8);
}

proof fn lemma_row_count_bounds(board: Squares, what: Option<Pieces>, r: int, n: int)
    requires
        0 <= n,
    ensures
        0 <= row_count(board, what, r, n) <= n,
    decreases n,
{
    if n > 0 {
        lemma_row_count_bounds(board, what, r, n - 1);
    }
}

proof fn lemma_board_count_bounds(board: Squares, what: Option<Pieces>, n: int)
    requires
        0 <= n,
    ensures
        0 <= board_count(board, what, n) <= 8 * n,
    decreases n,
{
    if n > 0 {
        lemma_board_count_bounds(board, what, n - 1);
        lemma_row_count_bounds(board, what, n - 1, 8);
    }
}

/// Counts the squares of a board that hold `what`, or that hold an officer
/// if `what` is none.
pub fn count_pieces(board: &Grid, what: Option<Pieces>) -> (count: usize)
    ensures
        count == board_count(grid_view(*board), what, 8),
{
    let ghost s = grid_view(*board);
    let mut count: usize = 0;
    let mut i: usize = 0;
    while i < 8
        invariant
            i <= 8,
            s == grid_view(*board),
            count == board_count(s, what, i as int),
        decreases 8 - i,
    {
        let mut j: usize = 0;
        while j < 8
            invariant
                i < 8,
                j <= 8,
                s == grid_view(*board),
                count == board_count(s, what, i as int) + row_count(s, what, i as int, j as int),
            decreases 8 - j,
        {
            proof {
                lemma_board_count_bounds(s, what, i as int);
                lemma_row_count_bounds(s, what, i as int, j as int);
                assert(s[i as int][j as int] == board[i as int][j as int]);
            }
            let piece: Pieces = board[i][j];
            let hit: bool = match what {
                Some(wanted) => piece == wanted,
                None => piece.piece_type != PieceTypes::Empty && piece.piece_type
                    != PieceTypes::Pawn,
            };
            if hit {
                count += 1;
            }
            j += 1;
        }
        i += 1;
    }
    count
}

/// Adds up what the pieces of a board are worth.
fn worth_of_board(board: &Grid, endgame: bool) -> (worth: i32)
    ensures
        worth == board_worth(grid_view(*board), endgame, 8),
        -70400 <= worth <= 70400,
{
    let ghost s = grid_view(*board);
    let mut worth: i32 = 0;
    let mut i: usize = 0;
    while i < 8
        invariant
            i <= 8,
            s == grid_view(*board),
            worth == board_worth(s, endgame, i as int),
        decreases 8 - i,
    {
        let mut j: usize = 0;
        while j < 8
            invariant
                i < 8,
                j <= 8,
                s == grid_view(*board),
                worth == board_worth(s, endgame, i as int) + row_worth(
                    s,
                    endgame,
                    i as int,
                    j as int,
                ),
            decreases 8 - j,
        {
            proof {
                lemma_board_worth_bounds(s, endgame, i as int);
                lemma_row_worth_bounds(s, endgame, i as int, j as int);
                assert(s[i as int][j as int] == board[i as int][j as int]);
            }
            let piece: Pieces = board[i][j];
            let material: i32 = match piece.color {
                PieceColors::White => get_piece_value(&piece),
                PieceColors::Black => -get_piece_value(&piece),
                PieceColors::Empty => 0,
            };
            worth = worth + get_position_value(&piece, [i, j], endgame) + material;
            j += 1;
        }
        i += 1;
    }
    proof {
        lemma_board_worth_bounds(s, endgame, 8);
    }
    worth
}

/// The value of a position, positive when it favours White.
pub fn heuristic<T: Board>(game: T) -> (value: i32)
    requires
        game.wf(),
    ensures
        value == evaluate(game.position()),
        -EVAL_LIMIT <= value <= EVAL_LIMIT,
{
    let board: Grid = game.get_board_as_2d();
    let game_time: bool = if count_pieces(&board, None) > 6 {
        MIDGAME
    } else {
        ENDGAME
    };
    let mut result: i32 = worth_of_board(&board, game_time);
    let white_bishop: Pieces = Pieces { piece_type: PieceTypes::Bishop, color: PieceColors::White };
    let black_bishop: Pieces = Pieces { piece_type: PieceTypes::Bishop, color: PieceColors::Black };
    if count_pieces(&board, Some(white_bishop)) >= 2 {
        result += BISHOP_PAIR;
    }
    if count_pieces(&board, Some(black_bishop)) >= 2 {
        result -= BISHOP_PAIR;
    }
    let player: bool = game.get_curr_player();
    proof {
        game.lemma_wf_is_playable();
    }
    match game.get_check() {
        Some(checked) => {
            if checked == player {
                if player == WHITE {
                    result -= CHECK_PENALTY;
                } else {
                    result += CHECK_PENALTY;
                }
            }
        },
        None => {},
    }
    result
}

/// What a game that has ended is worth, seen from White: the value of being
/// mated for the player to move who is in check, nothing for a player who
/// has no move and is not in check. There is none while moves are left.
pub open spec fn terminal_value(s: PositionView, moves: int) -> Option<int> {
    if moves != 0 {
        None
    } else if s.check() is Some {
        if s.curr_move == WHITE {
            Some(WHITE_MATED as int)
        } else {
            Some(BLACK_MATED as int)
        }
    } else {
        Some(0)
    }
}

pub fn is_terminal<T: Board>(game: &T, available_moves: &Vec<GameMove>) -> (value: Option<i32>)
    requires
        game.wf(),
    ensures
        value is Some == terminal_value(game.position(), available_moves@.len() as int) is Some,
        value matches Some(v) ==> terminal_value(
            game.position(),
            available_moves@.len() as int,
        ) == Some(v as int),
{
    if available_moves.len() == 0 {
        if game.get_check().is_some() {
            if game.get_curr_player() {
                Some(BLACK_MATED)
            } else {
                Some(WHITE_MATED)
            }
        } else {
            Some(0)
        }
    } else {
        None
    }
}

/// The value of a position is that of its squares, of the player to move
/// and of the two king squares: nothing else that a game has left in it
/// counts.
pub proof fn lemma_evaluate_reads_board(a: PositionView, b: PositionView)
    requires
        a.board == b.board,
        a.curr_move == b.curr_move,
        a.kings_ok(),
        b.kings_ok(),
    ensures
        evaluate(a) == evaluate(b),
{
    assert(a.board[a.white_king.0][a.white_king.1] == Pieces::of(PieceTypes::King, WHITE));
    assert(a.board[a.black_king.0][a.black_king.1] == Pieces::of(PieceTypes::King, BLACK));
}

} // verus!
