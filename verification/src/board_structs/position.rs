use crate::board_structs::attacks::attack_count;
use crate::board_structs::geometry::{on_board, squares_ok, Squares};
use crate::utils::castling::CastleRights;
use crate::utils::game_move::{CastleTypes, GameMove, PassantTypes};
use crate::utils::pieces::{PieceColors, PieceTypes, Pieces, BLACK, WHITE};
use vstd::prelude::*;

verus! {

/// A position as the rules see it: the squares, whose turn it is, and what
/// the game so far has left of castling, capturing in passing and the two
/// move counters. The two king squares are kept beside the board.
pub struct PositionView {
    pub board: Squares,
    pub curr_move: bool,
    pub castling_rights: CastleRights,
    pub en_passant: Option<(int, int)>,
    pub half_moves: int,
    pub full_moves: int,
    pub white_king: (int, int),
    pub black_king: (int, int),
}

/// The board with `piece` put on `(r, c)`.
pub open spec fn put(s: Squares, r: int, c: int, piece: Pieces) -> Squares {
    s.update(r, s[r].update(c, piece))
}

/// The board with the piece of `(fr, fc)` moved to `(tr, tc)`.
pub open spec fn shift(s: Squares, fr: int, fc: int, tr: int, tc: int) -> Squares {
    put(put(s, fr, fc, Pieces::empty()), tr, tc, s[fr][fc])
}

/// The rook's part of a castling move.
pub open spec fn castle_rook(s: Squares, castle: Option<CastleTypes>) -> Squares {
    match castle {
        Some(CastleTypes::WhiteKing) => shift(s, 0, 7, 0, 5),
        Some(CastleTypes::WhiteQueen) => shift(s, 0, 0, 0, 3),
        Some(CastleTypes::BlackKing) => shift(s, 7, 7, 7, 5),
        Some(CastleTypes::BlackQueen) => shift(s, 7, 0, 7, 3),
        None => s,
    }
}

/// The board without the pawn that a capture in passing takes.
pub open spec fn passant_removed(s: Squares, passant: Option<PassantTypes>) -> Squares {
    match passant {
        Some(PassantTypes::PassantCapture(sq)) => put(s, sq[0] as int, sq[1] as int, Pieces::empty()),
        _ => s,
    }
}

/// The board with the moved piece replaced by the piece it promotes to, in
/// the colour of the player who moved.
pub open spec fn promoted(s: Squares, m: GameMove, mover: PieceColors) -> Squares {
    match m.promote {
        Some(piece) => put(
            s,
            m.end[0] as int,
            m.end[1] as int,
            Pieces { piece_type: piece.piece_type, color: mover },
        ),
        None => s,
    }
}

/// The squares after the move `m`: the piece goes from `m.start` to `m.end`,
/// a castling rook goes to the king's other side, a pawn captured in passing
/// leaves, and a promoted pawn becomes its new piece.
pub open spec fn board_after(s: Squares, m: GameMove) -> Squares {
    let mover = s[m.start[0] as int][m.start[1] as int].color;
    let moved = shift(s, m.start[0] as int, m.start[1] as int, m.end[0] as int, m.end[1] as int);
    promoted(passant_removed(castle_rook(moved, m.castle), m.passant), m, mover)
}

/// Whether the squares of a move, and of the pawn it takes in passing, are
/// squares of the board.
pub open spec fn move_on_board(m: GameMove) -> bool {
    &&& m.start[0] < 8
    &&& m.start[1] < 8
    &&& m.end[0] < 8
    &&& m.end[1] < 8
    &&& m.passant matches Some(PassantTypes::PassantCapture(sq)) ==> sq[0] < 8 && sq[1] < 8
    &&& m.passant matches Some(PassantTypes::PassantAvailable(sq)) ==> sq[0] < 8 && sq[1] < 8
}

/// The castling rights after `piece` has left `(fr, fc)` and `taken` was
/// captured on `(tr, tc)`: a king's move ends both rights of its colour, a
/// rook's move from its corner ends the right of that side, and so does the
/// capture of a rook on its corner.
pub open spec fn rights_after(
    rights: CastleRights,
    piece: Pieces,
    fr: int,
    fc: int,
    taken: Pieces,
    tr: int,
    tc: int,
) -> CastleRights {
    let white_rook = Pieces::of(PieceTypes::Rook, WHITE);
    let black_rook = Pieces::of(PieceTypes::Rook, BLACK);
    let white_moved = piece == Pieces::of(PieceTypes::King, WHITE);
    let black_moved = piece == Pieces::of(PieceTypes::King, BLACK);
    CastleRights {
        white_king: rights.white_king && !white_moved && !(piece == white_rook && fr == 0 && fc
            == 7) && !(taken == white_rook && tr == 0 && tc == 7),
        white_queen: rights.white_queen && !white_moved && !(piece == white_rook && fr == 0 && fc
            == 0) && !(taken == white_rook && tr == 0 && tc == 0),
        black_king: rights.black_king && !black_moved && !(piece == black_rook && fr == 7 && fc
            == 7) && !(taken == black_rook && tr == 7 && tc == 7),
        black_queen: rights.black_queen && !black_moved && !(piece == black_rook && fr == 7 && fc
            == 0) && !(taken == black_rook && tr == 7 && tc == 0),
    }
}

impl PositionView {
    pub open spec fn at(self, r: int, c: int) -> Pieces {
        self.board[r][c]
    }

    /// The square of a player's king.
    pub open spec fn king_of(self, player: bool) -> (int, int) {
        if player == BLACK {
            self.black_king
        } else {
            self.white_king
        }
    }

    /// Each colour has exactly one king, on the square kept for it.
    pub open spec fn kings_ok(self) -> bool {
        &&& on_board(self.white_king.0, self.white_king.1)
        &&& on_board(self.black_king.0, self.black_king.1)
        &&& forall|r: int, c: int|
            on_board(r, c) ==> ((#[trigger] self.board[r][c]) == Pieces::of(PieceTypes::King, WHITE)
                <==> (r, c) == self.white_king)
        &&& forall|r: int, c: int|
            on_board(r, c) ==> ((#[trigger] self.board[r][c]) == Pieces::of(PieceTypes::King, BLACK)
                <==> (r, c) == self.black_king)
    }

    /// Whether a piece of the other player attacks the king of `player`.
    pub open spec fn in_check(self, player: bool) -> bool {
        attack_count(self.board, !player, self.king_of(player).0, self.king_of(player).1) > 0
    }

    /// The player whose king is attacked: White if White's is, else Black if
    /// Black's is.
    pub open spec fn check(self) -> Option<bool> {
        if self.in_check(WHITE) {
            Some(WHITE)
        } else if self.in_check(BLACK) {
            Some(BLACK)
        } else {
            None
        }
    }

    /// A position that a game can be in: a full board with one king of each
    /// colour, in which the player who has just moved is not in check.
    pub open spec fn playable(self) -> bool {
        &&& squares_ok(self.board)
        &&& self.kings_ok()
        &&& !self.in_check(!self.curr_move)
        &&& self.en_passant matches Some(sq) ==> on_board(sq.0, sq.1)
    }

    /// The piece that `m` moves.
    pub open spec fn mover(self, m: GameMove) -> Pieces {
        self.board[m.start[0] as int][m.start[1] as int]
    }

    /// What stands where `m` ends.
    pub open spec fn target(self, m: GameMove) -> Pieces {
        self.board[m.end[0] as int][m.end[1] as int]
    }

    /// The position after the move `m`.
    pub open spec fn apply(self, m: GameMove) -> PositionView {
        let piece = self.mover(m);
        let taken = self.target(m);
        let end = (m.end[0] as int, m.end[1] as int);
        PositionView {
            board: board_after(self.board, m),
            curr_move: !self.curr_move,
            castling_rights: rights_after(
                self.castling_rights,
                piece,
                m.start[0] as int,
                m.start[1] as int,
                taken,
                end.0,
                end.1,
            ),
            en_passant: match m.passant {
                Some(PassantTypes::PassantAvailable(sq)) => Some((sq[0] as int, sq[1] as int)),
                _ => None,
            },
            half_moves: if !taken.is_empty() || piece.piece_type == PieceTypes::Pawn {
                0
            } else {
                self.half_moves + 1
            },
            full_moves: if self.curr_move == BLACK {
                self.full_moves + 1
            } else {
                self.full_moves
            },
            white_king: if piece == Pieces::of(PieceTypes::King, WHITE) {
                end
            } else {
                self.white_king
            },
            black_king: if piece == Pieces::of(PieceTypes::King, BLACK) {
                end
            } else {
                self.black_king
            },
        }
    }
}

} // verus!
