use crate::board_structs::fen::fen_position;
use crate::board_structs::geometry::{grid_view, Grid};
use crate::board_structs::legal::{is_move_list, legal, legal_moves};
use crate::board_structs::position::PositionView;
use crate::utils::chess_errors::ChessError;
use crate::utils::game_move::GameMove;
use vstd::prelude::*;

verus! {

/// The text that `setup_board` reads: the one given, or that of the
/// position from which a game starts.
pub open spec fn position_text(fen: Option<&str>) -> Seq<char> {
    match fen {
        Some(text) => text@,
        None => crate::board_structs::fen::START_POSITION@,
    }
}

/// A board that holds a position of a game and plays by the rules.
pub trait Board: Sized {
    /// The position that the board holds.
    spec fn position(&self) -> PositionView;

    /// Whether the board holds a position of a game, with everything it
    /// keeps beside the squares up to date.
    spec fn wf(&self) -> bool;

    /// A well-formed board holds a position that a game can be in.
    proof fn lemma_wf_is_playable(&self)
        requires
            self.wf(),
        ensures
            self.position().playable(),
    ;

    /// The position that `fen` describes, or the position from which a game
    /// starts.
    fn setup_board(fen: Option<&str>) -> (r: Result<Self, ChessError>)
        ensures
            r matches Ok(game) ==> game.wf() && fen_position(position_text(fen)) == Some(
                game.position(),
            ),
            r matches Err(e) ==> e == ChessError::FENParseError && fen_position(position_text(fen))
                is None,
    ;

    /// The legal moves, in order.
    fn get_valid_moves(&self) -> (moves: Vec<GameMove>)
        requires
            self.wf(),
        ensures
            is_move_list(self.position(), moves@),
            moves@ == legal_moves(self.position()),
    ;

    /// The board after a legal move.
    fn make_move(&self, mov: &GameMove) -> (next: Self)
        requires
            self.wf(),
            legal(self.position(), *mov),
            self.position().half_moves < usize::MAX,
            self.position().full_moves < usize::MAX,
        ensures
            next.wf(),
            next.position() == self.position().apply(*mov),
    ;

    /// The player whose king is attacked.
    fn get_check(&self) -> (check: Option<bool>)
        requires
            self.wf(),
        ensures
            check == self.position().check(),
    ;

    /// The player to move.
    fn get_curr_player(&self) -> (player: bool)
        ensures
            player == self.position().curr_move,
    ;

    fn get_board_as_2d(&self) -> (board: Grid)
        ensures
            grid_view(board) == self.position().board,
    ;

    /// The castling rights in the order white king-side, white queen-side,
    /// black king-side, black queen-side.
    fn get_castle_rights(&self) -> (rights: [bool; 4])
        ensures
            rights[0] == self.position().castling_rights.white_king,
            rights[1] == self.position().castling_rights.white_queen,
            rights[2] == self.position().castling_rights.black_king,
            rights[3] == self.position().castling_rights.black_queen,
    ;
}

} // verus!
