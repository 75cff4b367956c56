use rustyai::board_structs::board::Board;
use rustyai::board_structs::board_types::array2d::Array2D;
use rustyai::utils::game_move::GameMove;

fn perft(game: &Array2D, depth: usize) -> u64 {
    if depth == 0 {
        return 1;
    }
    let moves = game.get_valid_moves();
    if depth == 1 {
        return moves.len() as u64;
    }
    let mut nodes: u64 = 0;
    for mov in moves.iter() {
        nodes += perft(&game.make_move(mov), depth - 1);
    }
    nodes
}

fn texts(moves: &Vec<GameMove>) -> Vec<String> {
    moves.iter().map(|m| m.to_string()).collect()
}

#[test]
fn test_move_generation() {
    let game = Array2D::setup_board(None).unwrap();
    assert_eq!(game.get_valid_moves().len(), 20)
}

#[test]
fn test_attack_map_generation() {
    const STARTING_ATTACKS_WHITE: [[u8; 8]; 8] = [
        [0, 1, 1, 1, 1, 1, 1, 0],
        [1, 1, 1, 4, 4, 1, 1, 1],
        [2, 2, 3, 2, 2, 3, 2, 2],
        [0, 0, 0, 0, 0, 0, 0, 0],
        [0, 0, 0, 0, 0, 0, 0, 0],
        [0, 0, 0, 0, 0, 0, 0, 0],
        [0, 0, 0, 0, 0, 0, 0, 0],
        [0, 0, 0, 0, 0, 0, 0, 0],
    ];
    const STARTING_ATTACKS_BLACK: [[u8; 8]; 8] = [
        [0, 0, 0, 0, 0, 0, 0, 0],
        [0, 0, 0, 0, 0, 0, 0, 0],
        [0, 0, 0, 0, 0, 0, 0, 0],
        [0, 0, 0, 0, 0, 0, 0, 0],
        [0, 0, 0, 0, 0, 0, 0, 0],
        [2, 2, 3, 2, 2, 3, 2, 2],
        [1, 1, 1, 4, 4, 1, 1, 1],
        [0, 1, 1, 1, 1, 1, 1, 0],
    ];
    let game = Array2D::setup_board(None).unwrap();
    assert_eq!(STARTING_ATTACKS_WHITE, game.white_attack_map);
    assert_eq!(STARTING_ATTACKS_BLACK, game.black_attack_map);
}

#[test]
fn perft_depth_one_and_two() {
    let game = Array2D::setup_board(None).unwrap();
    assert_eq!(perft(&game, 1), 20);
    assert_eq!(perft(&game, 2), 400);
}

#[test]
fn perft_depth_three() {
    let game = Array2D::setup_board(None).unwrap();
    assert_eq!(perft(&game, 3), 8902);
}

#[test]
fn perft_depth_four() {
    let game = Array2D::setup_board(None).unwrap();
    assert_eq!(perft(&game, 4), 197281);
}

#[test]
fn perft_of_a_position_with_every_kind_of_move() {
    let game = Array2D::setup_board(Some(
        "r3k2r/p1ppqpb1/bn2pnp1/3PN3/1p2P3/2N2Q1p/PPPBBPPP/R3K2R w KQkq - 0 1",
    ))
    .unwrap();
    assert_eq!(perft(&game, 1), 48);
    assert_eq!(perft(&game, 2), 2039);
}

#[test]
fn perft_of_a_position_with_promotions() {
    let game = Array2D::setup_board(Some("n1n5/PPPk4/8/8/8/8/4Kppp/5N1N b - - 0 1")).unwrap();
    assert_eq!(perft(&game, 1), 24);
    assert_eq!(perft(&game, 2), 496);
}

#[test]
fn perft_of_an_endgame_with_pins_and_passing_captures() {
    let game = Array2D::setup_board(Some("8/2p5/3p4/KP5r/1R3p1k/8/4P1P1/8 w - - 0 1")).unwrap();
    assert_eq!(perft(&game, 1), 14);
    assert_eq!(perft(&game, 2), 191);
    assert_eq!(perft(&game, 3), 2812);
}

#[test]
fn castling_to_both_sides_is_legal() {
    let game = Array2D::setup_board(Some("r3k2r/8/8/8/8/8/8/R3K2R w KQkq - 0 1")).unwrap();
    let moves = texts(&game.get_valid_moves());
    assert!(moves.contains(&"e1g1".to_string()));
    assert!(moves.contains(&"e1c1".to_string()));
}

#[test]
fn castling_through_check_is_illegal() {
    let game = Array2D::setup_board(Some("4k3/8/8/8/8/8/4r3/R3K2R w KQ - 0 1")).unwrap();
    let moves = texts(&game.get_valid_moves());
    assert!(!moves.contains(&"e1g1".to_string()));
}

#[test]
fn promotion_gives_four_moves() {
    let game = Array2D::setup_board(Some("8/P7/8/8/8/8/8/k6K w - - 0 1")).unwrap();
    let moves = game.get_valid_moves();
    let promotions: Vec<String> = moves
        .iter()
        .filter(|m| m.start == [6, 0] && m.end == [7, 0])
        .map(|m| m.to_string())
        .collect();
    assert_eq!(promotions, vec!["a7a8q", "a7a8r", "a7a8n", "a7a8b"]);
}
