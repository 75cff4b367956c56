use crate::board_structs::board::Board;
use crate::board_structs::legal::{legal, legal_moves};
use crate::utils::game_move::GameMove;
use rand::prelude::SliceRandom;
use rand::thread_rng;
use vstd::prelude::*;

verus! {

/// `SliceRandom::choose` of rand on the slice of a list, with the generator
/// of the thread: one element of the list, picked at random; none if the
/// list is empty. Which element comes is left open.
#[verifier::external_body]
fn pick(moves: &Vec<GameMove>) -> (picked: Option<GameMove>)
    ensures
        picked is None <==> moves@.len() == 0,
        picked matches Some(m) ==> moves@.contains(m),
{
    moves.choose(&mut thread_rng()).copied()
}

/// One of `moves` as it was picked, or the first of them if none was.
pub fn picked_or_first(moves: &Vec<GameMove>, picked: Option<GameMove>) -> (chosen: GameMove)
    requires
        moves@.len() > 0,
    ensures
        chosen == match picked {
            Some(m) => m,
            None => moves@[0],
        },
{
    match picked {
        Some(m) => m,
        None => moves[0],
    }
}

/// A player that moves at random.
pub struct Random {}

impl Random {
    /// A legal move, picked at random. The two last arguments are not read.
    pub fn find_move<T: Board>(&self, game: T, max_player: bool, time_left: u128) -> (chosen:
        GameMove)
        requires
            game.wf(),
            legal_moves(game.position()).len() > 0,
        ensures
            legal(game.position(), chosen),
            legal_moves(game.position()).contains(chosen),
    {
        let valid_moves: Vec<GameMove> = game.get_valid_moves();
        let chosen: GameMove = picked_or_first(&valid_moves, pick(&valid_moves));
        assert(valid_moves@.contains(valid_moves@[0]));
        chosen
    }
}

} // verus!
