use rustyai::ai_funcs::ai_utils::heuristics::{
    count_pieces, get_piece_value, get_position_value, heuristic, is_terminal, ENDGAME, MIDGAME,
};
use rustyai::board;
use rustyai::board::GameState;
use rustyai::board_structs::board::Board;
use rustyai::board_structs::board_types::array2d::Array2D;
use rustyai::utils::pieces::PieceColors::{Black, Empty, White};
use rustyai::utils::pieces::PieceTypes;
use rustyai::utils::pieces::Pieces;

fn position(fen: &str) -> Array2D {
    Array2D::setup_board(Some(fen)).unwrap()
}

#[test]
fn the_starting_position_is_balanced() {
    assert_eq!(heuristic(Array2D::setup_board(None).unwrap()), 0);
}

#[test]
fn material_and_squares_are_added_up_in_the_endgame() {
    assert_eq!(heuristic(position("4k3/8/8/8/8/8/8/4K2R w - - 0 1")), 500);
}

#[test]
fn a_missing_queen_counts_with_her_square_in_the_middle_game() {
    assert_eq!(
        heuristic(position("rnbqkbnr/pppppppp/8/8/8/8/PPPPPPPP/RNB1KBNR w KQkq - 0 1")),
        -895
    );
}

#[test]
fn the_side_to_move_pays_for_being_in_check() {
    assert_eq!(heuristic(position("4k3/8/8/8/8/8/4r3/4K3 w - - 0 1")), -530);
    assert_eq!(heuristic(position("4k3/4R3/8/8/8/8/8/4K3 b - - 0 1")), 530);
}

#[test]
fn a_pair_of_bishops_is_worth_twenty() {
    assert_eq!(heuristic(position("4k3/8/8/8/8/8/8/2B1KB2 w - - 0 1")), 681);
    assert_eq!(heuristic(position("2b1kb2/8/8/8/8/8/8/4K3 w - - 0 1")), -681);
    assert_eq!(heuristic(position("4k3/8/8/8/8/8/8/2B1K3 w - - 0 1")), 327);
}

#[test]
fn the_endgame_begins_with_six_officers() {
    let six = position("r3k2r/8/8/8/8/8/8/R3K2R w - - 0 1");
    assert_eq!(count_pieces(&six.get_board_as_2d(), None), 6);
    assert_eq!(heuristic(six), 0);
    let seven = position("r3k2r/8/8/8/8/8/8/RN2K2R w - - 0 1");
    assert_eq!(count_pieces(&seven.get_board_as_2d(), None), 7);
    assert_eq!(heuristic(seven), 300 - 15);
}

#[test]
fn pieces_have_their_values() {
    let values = [
        (PieceTypes::Pawn, 100),
        (PieceTypes::Knight, 300),
        (PieceTypes::Bishop, 350),
        (PieceTypes::Rook, 500),
        (PieceTypes::Queen, 900),
        (PieceTypes::King, 400),
        (PieceTypes::Empty, 0),
    ];
    for (piece_type, value) in values {
        assert_eq!(get_piece_value(&Pieces { piece_type, color: White }), value);
        assert_eq!(get_piece_value(&Pieces { piece_type, color: Black }), value);
    }
}

#[test]
fn squares_count_mirrored_and_negated_for_black() {
    let white_pawn = Pieces { piece_type: PieceTypes::Pawn, color: White };
    let black_pawn = Pieces { piece_type: PieceTypes::Pawn, color: Black };
    let nothing = Pieces { piece_type: PieceTypes::Empty, color: Empty };
    assert_eq!(get_position_value(&white_pawn, [6, 0], MIDGAME), 50);
    assert_eq!(get_position_value(&black_pawn, [1, 0], MIDGAME), -50);
    assert_eq!(get_position_value(&white_pawn, [6, 7], ENDGAME), 187);
    assert_eq!(get_position_value(&black_pawn, [1, 7], ENDGAME), -187);
    assert_eq!(get_position_value(&white_pawn, [1, 3], MIDGAME), -20);
    assert_eq!(get_position_value(&nothing, [3, 3], MIDGAME), 0);
}

#[test]
fn a_mated_player_has_lost() {
    let white_mated =
        position("rnb1kbnr/pppp1ppp/8/4p3/6Pq/5P2/PPPPP2P/RNBQKBNR w KQkq - 1 3");
    assert_eq!(is_terminal(&white_mated, &white_mated.get_valid_moves()), Some(i32::MIN + 1));
    let black_mated = position("R5k1/5ppp/8/8/8/8/5PPP/6K1 b - - 1 1");
    assert_eq!(is_terminal(&black_mated, &black_mated.get_valid_moves()), Some(i32::MAX - 1));
}

#[test]
fn a_stalemate_is_worth_nothing() {
    let stalemate = position("7k/5Q2/6K1/8/8/8/8/8 b - - 0 1");
    assert_eq!(is_terminal(&stalemate, &stalemate.get_valid_moves()), Some(0));
}

#[test]
fn a_game_with_moves_left_has_not_ended() {
    let start = Array2D::setup_board(None).unwrap();
    assert_eq!(is_terminal(&start, &start.get_valid_moves()), None);
}

#[test]
fn a_game_state_keeps_its_moves() {
    let game = GameState::from_fen("rnbqkbnr/pppppppp/8/8/8/8/PPPPPPPP/RNBQKBNR w KQkq - 0 1")
        .unwrap();
    assert_eq!(game.available_moves.len(), 20);
    assert_eq!(game.valid_moves(), game.available_moves);
    assert_eq!(board::term(&game), None);
    assert_eq!(board::heuristic(&game), 0);
    let first = game.available_moves[0];
    let tested = game.test_move(first);
    assert!(tested.available_moves.is_empty());
    assert_eq!(tested.position.curr_move, true);
    let made = game.make_move(first);
    assert_eq!(made.available_moves.len(), 20);
    assert_eq!(made.position.board, tested.position.board);
    let mated = GameState::from_fen("R5k1/5ppp/8/8/8/8/5PPP/6K1 b - - 1 1").unwrap();
    assert_eq!(board::term(&mated), Some(i32::MAX - 1));
    assert!(GameState::from_fen("not a position").is_err());
}

#[test]
fn the_value_of_a_position_does_not_depend_on_the_way_to_it() {
    let play = |texts: &[&str]| -> Array2D {
        let mut game = Array2D::setup_board(None).unwrap();
        for text in texts {
            let mov = game
                .get_valid_moves()
                .into_iter()
                .find(|m| m.to_string() == *text)
                .unwrap();
            game = game.make_move(&mov);
        }
        game
    };
    let one = play(&["g1f3", "g8f6", "b1c3", "b8c6", "e2e4"]);
    let other = play(&["b1c3", "b8c6", "g1f3", "g8f6", "e2e4"]);
    let slow = play(&["g1f3", "g8f6", "f3g1", "f6g8", "g1f3", "g8f6", "b1c3", "b8c6", "e2e4"]);
    assert_eq!(one.board, other.board);
    assert_eq!(one.board, slow.board);
    assert_ne!(one.half_moves + one.full_moves, slow.half_moves + slow.full_moves);
    assert_eq!(heuristic(one), heuristic(other));
    assert_eq!(heuristic(one), heuristic(slow));
    assert_eq!(heuristic(one), 20 + 20);
}
