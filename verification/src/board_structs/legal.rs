use crate::board_structs::attacks::attack_count;
use crate::board_structs::geometry::{
    abs, diagonal, forward, king_step, knight_step, path_clear, sign, span, straight,
};
use crate::board_structs::position::{move_on_board, PositionView};
use crate::utils::game_move::{CastleTypes, GameMove, PassantTypes};
use crate::utils::pieces::{color_of, PieceTypes, Pieces, BLACK, WHITE};
use vstd::prelude::*;

verus! {

/// How many rows a move goes up the board.
pub open spec fn rows(m: GameMove) -> int {
    m.end[0] - m.start[0]
}

/// How many columns a move goes to the right.
pub open spec fn cols(m: GameMove) -> int {
    m.end[1] - m.start[1]
}

/// A move that only moves its piece: it says that it captures exactly when
/// its target is occupied, and nothing else.
pub open spec fn plain(s: PositionView, m: GameMove) -> bool {
    &&& m.castle is None
    &&& m.promote is None
    &&& m.passant is None
    &&& m.capture == !s.target(m).is_empty()
}

/// Whether the target of `m` is free for the player to move: empty, or held
/// by the other player.
pub open spec fn lands_ok(s: PositionView, m: GameMove) -> bool {
    s.target(m).color != color_of(s.curr_move)
}

/// Whether the squares from the start of `m` up to its target are empty.
pub open spec fn way_clear(s: PositionView, m: GameMove) -> bool {
    path_clear(
        s.board,
        m.start[0] as int,
        m.start[1] as int,
        sign(rows(m)),
        sign(cols(m)),
        span(rows(m), cols(m)),
    )
}

pub open spec fn knight_rule(s: PositionView, m: GameMove) -> bool {
    knight_step(rows(m), cols(m)) && lands_ok(s, m) && plain(s, m)
}

pub open spec fn rook_rule(s: PositionView, m: GameMove) -> bool {
    straight(rows(m), cols(m)) && way_clear(s, m) && lands_ok(s, m) && plain(s, m)
}

pub open spec fn bishop_rule(s: PositionView, m: GameMove) -> bool {
    diagonal(rows(m), cols(m)) && way_clear(s, m) && lands_ok(s, m) && plain(s, m)
}

pub open spec fn queen_rule(s: PositionView, m: GameMove) -> bool {
    (straight(rows(m), cols(m)) || diagonal(rows(m), cols(m))) && way_clear(s, m) && lands_ok(s, m)
        && plain(s, m)
}

/// The row on which a player's king and rooks start.
pub open spec fn home_row(player: bool) -> int {
    if player == BLACK {
        7
    } else {
        0
    }
}

/// The row on which a player's pawns start.
pub open spec fn forward_row(player: bool) -> int {
    home_row(player) + forward(player)
}

/// The player who castles with `kind`.
pub open spec fn castle_player(kind: CastleTypes) -> bool {
    match kind {
        CastleTypes::WhiteKing => WHITE,
        CastleTypes::WhiteQueen => WHITE,
        CastleTypes::BlackKing => BLACK,
        CastleTypes::BlackQueen => BLACK,
    }
}

/// Whether `kind` is castling towards the h-file.
pub open spec fn castle_short(kind: CastleTypes) -> bool {
    kind == CastleTypes::WhiteKing || kind == CastleTypes::BlackKing
}

/// Whether the position still gives the right to castle with `kind`.
pub open spec fn has_right(s: PositionView, kind: CastleTypes) -> bool {
    match kind {
        CastleTypes::WhiteKing => s.castling_rights.white_king,
        CastleTypes::WhiteQueen => s.castling_rights.white_queen,
        CastleTypes::BlackKing => s.castling_rights.black_king,
        CastleTypes::BlackQueen => s.castling_rights.black_queen,
    }
}

/// Whether the other player attacks no piece on `(r, c)`.
pub open spec fn unattacked(s: PositionView, r: int, c: int) -> bool {
    attack_count(s.board, !s.curr_move, r, c) == 0
}

/// Whether the player to move may castle with `kind`: the right is left, king
/// and rook stand on their first squares, the squares between them are empty,
/// nobody is in check, and the two squares the king crosses are not attacked.
pub open spec fn can_castle(s: PositionView, kind: CastleTypes) -> bool {
    let row = home_row(s.curr_move);
    &&& castle_player(kind) == s.curr_move
    &&& has_right(s, kind)
    &&& s.check() is None
    &&& s.board[row][4] == Pieces::of(PieceTypes::King, s.curr_move)
    &&& if castle_short(kind) {
        &&& s.board[row][7] == Pieces::of(PieceTypes::Rook, s.curr_move)
        &&& s.board[row][5].is_empty()
        &&& s.board[row][6].is_empty()
        &&& unattacked(s, row, 5)
        &&& unattacked(s, row, 6)
    } else {
        &&& s.board[row][0] == Pieces::of(PieceTypes::Rook, s.curr_move)
        &&& s.board[row][1].is_empty()
        &&& s.board[row][2].is_empty()
        &&& s.board[row][3].is_empty()
        &&& unattacked(s, row, 3)
        &&& unattacked(s, row, 2)
    }
}

/// A castling move: the king's two-square move along its first row.
pub open spec fn castle_rule(s: PositionView, m: GameMove) -> bool {
    &&& m.castle matches Some(kind)
    &&& can_castle(s, kind)
    &&& m.start[0] == home_row(s.curr_move)
    &&& m.start[1] == 4
    &&& m.end[0] == home_row(s.curr_move)
    &&& m.end[1] == (if castle_short(kind) {
        6int
    } else {
        2int
    })
    &&& m.promote is None
    &&& m.passant is None
    &&& !m.capture
}

pub open spec fn king_rule(s: PositionView, m: GameMove) -> bool {
    (king_step(rows(m), cols(m)) && lands_ok(s, m) && plain(s, m)) || castle_rule(s, m)
}

/// Whether `kind` is a kind of piece that a pawn can become.
pub open spec fn is_promotion_kind(kind: PieceTypes) -> bool {
    kind == PieceTypes::Queen || kind == PieceTypes::Rook || kind == PieceTypes::Knight || kind
        == PieceTypes::Bishop
}

/// A pawn that reaches the last row names the piece it becomes, of its own
/// colour; any other pawn move names none.
pub open spec fn promotes_ok(s: PositionView, m: GameMove) -> bool {
    if m.end[0] == home_row(!s.curr_move) {
        m.promote matches Some(piece) && piece.color == color_of(s.curr_move) && is_promotion_kind(
            piece.piece_type,
        )
    } else {
        m.promote is None
    }
}

/// A pawn's step to the empty square ahead.
pub open spec fn pawn_push(s: PositionView, m: GameMove) -> bool {
    &&& cols(m) == 0
    &&& rows(m) == forward(s.curr_move)
    &&& s.target(m).is_empty()
    &&& !m.capture
    &&& m.passant is None
    &&& promotes_ok(s, m)
}

/// A pawn's double step from its first square over an empty square to an
/// empty square. The move names the square it skips.
pub open spec fn pawn_double(s: PositionView, m: GameMove) -> bool {
    &&& cols(m) == 0
    &&& rows(m) == 2 * forward(s.curr_move)
    &&& m.start[0] == forward_row(s.curr_move)
    &&& s.board[m.start[0] + forward(s.curr_move)][m.start[1] as int].is_empty()
    &&& s.target(m).is_empty()
    &&& !m.capture
    &&& m.promote is None
    &&& m.passant matches Some(PassantTypes::PassantAvailable(sq))
    &&& sq[0] == m.start[0] + forward(s.curr_move)
    &&& sq[1] == m.start[1]
}

/// A pawn's capture of a piece diagonally ahead.
pub open spec fn pawn_capture(s: PositionView, m: GameMove) -> bool {
    &&& abs(cols(m)) == 1
    &&& rows(m) == forward(s.curr_move)
    &&& s.target(m).color == color_of(!s.curr_move)
    &&& m.capture
    &&& m.passant is None
    &&& promotes_ok(s, m)
}

/// A pawn's capture in passing: onto the empty square that the other
/// player's pawn has just skipped. The move names the square of that pawn.
pub open spec fn pawn_passant(s: PositionView, m: GameMove) -> bool {
    &&& abs(cols(m)) == 1
    &&& rows(m) == forward(s.curr_move)
    &&& s.en_passant == Some((m.end[0] as int, m.end[1] as int))
    &&& s.target(m).is_empty()
    &&& s.board[m.start[0] as int][m.end[1] as int] == Pieces::of(PieceTypes::Pawn, !s.curr_move)
    &&& !m.capture
    &&& m.promote is None
    &&& m.passant matches Some(PassantTypes::PassantCapture(sq))
    &&& sq[0] == m.start[0]
    &&& sq[1] == m.end[1]
}

pub open spec fn pawn_rule(s: PositionView, m: GameMove) -> bool {
    m.castle is None && (pawn_push(s, m) || pawn_double(s, m) || pawn_capture(s, m)
        || pawn_passant(s, m))
}

/// Whether `m` moves a piece of the player to move as that piece moves,
/// whatever becomes of the player's king.
pub open spec fn pseudo_legal(s: PositionView, m: GameMove) -> bool {
    &&& move_on_board(m)
    &&& s.mover(m).color == color_of(s.curr_move)
    &&& match s.mover(m).piece_type {
        PieceTypes::Knight => knight_rule(s, m),
        PieceTypes::Rook => rook_rule(s, m),
        PieceTypes::Bishop => bishop_rule(s, m),
        PieceTypes::Queen => queen_rule(s, m),
        PieceTypes::King => king_rule(s, m),
        PieceTypes::Pawn => pawn_rule(s, m),
        PieceTypes::Empty => false,
    }
}

/// Whether `m` is a legal move: a move of the player to move that does not
/// leave that player's king attacked.
pub open spec fn legal(s: PositionView, m: GameMove) -> bool {
    pseudo_legal(s, m) && !s.apply(m).in_check(s.curr_move)
}

/// The place of a direction among the eight: up and down the column first,
/// then along the row, then the diagonals.
pub open spec fn dir_index(dr: int, dc: int) -> int {
    if dc == 0 {
        if dr < 0 {
            0
        } else {
            1
        }
    } else if dr == 0 {
        if dc < 0 {
            2
        } else {
            3
        }
    } else if dr < 0 {
        if dc < 0 {
            4
        } else {
            5
        }
    } else {
        if dc < 0 {
            6
        } else {
            7
        }
    }
}

/// The place of a knight's step among its eight.
pub open spec fn knight_index(dr: int, dc: int) -> int {
    if dr == -2 {
        if dc < 0 {
            0
        } else {
            1
        }
    } else if dr == 2 {
        if dc < 0 {
            2
        } else {
            3
        }
    } else if dr == -1 {
        if dc < 0 {
            4
        } else {
            5
        }
    } else {
        if dc < 0 {
            6
        } else {
            7
        }
    }
}

/// The place of a promotion among the four: queen, rook, knight, bishop.
pub open spec fn promotion_index(promote: Option<Pieces>) -> int {
    match promote {
        Some(piece) => match piece.piece_type {
            PieceTypes::Queen => 0,
            PieceTypes::Rook => 1,
            PieceTypes::Knight => 2,
            _ => 3,
        },
        None => 0,
    }
}

/// The place of a move among the moves of its piece: the order in which the
/// generator tries them.
pub open spec fn rank(s: PositionView, m: GameMove) -> int {
    match s.mover(m).piece_type {
        PieceTypes::Knight => knight_index(rows(m), cols(m)),
        PieceTypes::Pawn => if cols(m) == 0 {
            if abs(rows(m)) == 1 {
                promotion_index(m.promote)
            } else {
                4
            }
        } else if cols(m) < 0 {
            8 + promotion_index(m.promote)
        } else {
            16 + promotion_index(m.promote)
        },
        PieceTypes::King => match m.castle {
            Some(kind) => if castle_short(kind) {
                64
            } else {
                65
            },
            None => 8 * dir_index(rows(m), cols(m)) + span(rows(m), cols(m)),
        },
        _ => 8 * dir_index(rows(m), cols(m)) + span(rows(m), cols(m)),
    }
}

/// The largest rank and more.
pub open spec fn rank_limit() -> int {
    128
}

/// The place of a move among all moves of a position: by the square it
/// starts from, row by row from a1, then by its rank.
pub open spec fn move_key(s: PositionView, m: GameMove) -> int {
    (8 * m.start[0] + m.start[1]) * rank_limit() + rank(s, m)
}

/// Whether `a` stands before `b` in the list of moves: the move with the
/// higher score first, and of two with the same score the one generated
/// first.
pub open spec fn precedes(s: PositionView, a: GameMove, b: GameMove) -> bool {
    a.spec_score() > b.spec_score() || (a.spec_score() == b.spec_score() && move_key(s, a)
        < move_key(s, b))
}

/// Whether `moves` is the list of the legal moves of `s`: every legal move
/// and nothing else, in order.
pub open spec fn is_move_list(s: PositionView, moves: Seq<GameMove>) -> bool {
    &&& forall|m: GameMove|
        #![trigger moves.contains(m)]
        #![trigger legal(s, m)]
        moves.contains(m) <==> legal(s, m)
    &&& forall|i: int, j: int|
        0 <= i < j < moves.len() ==> precedes(s, #[trigger] moves[i], #[trigger] moves[j])
}

/// Whether `out` holds, in order, the legal moves that start on `(r, c)` and
/// have a rank below `bound`.
pub open spec fn piece_moves(
    s: PositionView,
    out: Seq<GameMove>,
    r: int,
    c: int,
    bound: int,
) -> bool {
    &&& forall|m: GameMove|
        #![trigger out.contains(m)]
        #![trigger legal(s, m)]
        out.contains(m) <==> (legal(s, m) && m.start[0] == r && m.start[1] == c && rank(s, m)
            < bound)
    &&& forall|i: int, j: int|
        0 <= i < j < out.len() ==> rank(s, #[trigger] out[i]) < rank(s, #[trigger] out[j])
}

/// The legal moves of a position, in order.
pub open spec fn legal_moves(s: PositionView) -> Seq<GameMove> {
    choose|moves: Seq<GameMove>| is_move_list(s, moves)
}

} // verus!
