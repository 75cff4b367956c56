use crate::ai_funcs::ai_utils::heuristics;
use crate::ai_funcs::ai_utils::heuristics::{evaluate, terminal_value, EVAL_LIMIT};
use crate::board_structs::board::Board;
use crate::board_structs::board_types::array2d::Array2D;
use crate::board_structs::fen::fen_position;
use crate::board_structs::legal::{is_move_list, legal, legal_moves};
use crate::utils::chess_errors::ChessError;
use crate::utils::game_move::GameMove;
use vstd::prelude::*;

verus! {

/// A position together with the list of its legal moves.
#[derive(Clone, Debug)]
pub struct GameState {
    pub position: Array2D,
    pub available_moves: Vec<GameMove>,
}

impl GameState {
    /// The position is one of a game, and the list holds its legal moves.
    pub open spec fn wf(&self) -> bool {
        self.position.wf() && self.available_moves@ == legal_moves(self.position@)
    }

    /// The position that a text describes, with its legal moves.
    pub fn from_fen(fen: &str) -> (r: Result<GameState, ChessError>)
        ensures
            r matches Ok(game) ==> game.wf() && fen_position(fen@) == Some(game.position@),
            r matches Err(e) ==> e == ChessError::FENParseError && fen_position(fen@) is None,
    {
        match Array2D::setup_board(Some(fen)) {
            Ok(position) => {
                let available_moves: Vec<GameMove> = position.get_valid_moves();
                Ok(GameState { position, available_moves })
            },
            Err(e) => Err(e),
        }
    }

    /// The legal moves of the position, in order.
    pub fn valid_moves(&self) -> (moves: Vec<GameMove>)
        requires
            self.position.wf(),
        ensures
            is_move_list(self.position@, moves@),
            moves@ == legal_moves(self.position@),
    {
        self.position.get_valid_moves()
    }

    /// The position after a legal move, without its list of moves.
    pub fn test_move(&self, mov: GameMove) -> (next: GameState)
        requires
            self.position.wf(),
            legal(self.position@, mov),
            self.position.half_moves < usize::MAX,
            self.position.full_moves < usize::MAX,
        ensures
            next.position.wf(),
            next.position@ == self.position@.apply(mov),
            next.available_moves@.len() == 0,
    {
        GameState { position: self.position.make_move(&mov), available_moves: Vec::new() }
    }

    /// The position after a legal move, with its list of moves.
    pub fn make_move(&self, mov: GameMove) -> (next: GameState)
        requires
            self.position.wf(),
            legal(self.position@, mov),
            self.position.half_moves < usize::MAX,
            self.position.full_moves < usize::MAX,
        ensures
            next.wf(),
            next.position@ == self.position@.apply(mov),
    {
        let mut next: GameState = self.test_move(mov);
        next.available_moves = next.valid_moves();
        next
    }
}

/// What a game that has ended is worth, seen from White; none while moves
/// are left.
pub fn term(game: &GameState) -> (value: Option<i32>)
    requires
        game.wf(),
    ensures
        value is Some == terminal_value(
            game.position@,
            legal_moves(game.position@).len() as int,
        ) is Some,
        value matches Some(v) ==> terminal_value(
            game.position@,
            legal_moves(game.position@).len() as int,
        ) == Some(v as int),
{
    heuristics::is_terminal(&game.position, &game.available_moves)
}

/// The value of a position, positive when it favours White.
pub fn heuristic(game: &GameState) -> (value: i32)
    requires
        game.position.wf(),
    ensures
        value == evaluate(game.position@),
        -EVAL_LIMIT <= value <= EVAL_LIMIT,
{
    heuristics::heuristic(game.position)
}

} // verus!
