use rustyai::ai_funcs::ai_types::abminimax::{
    deepen, nega_max, root_nega_max, search_root, ABMinimax, HIGHEST, LOWEST,
};
use rustyai::ai_funcs::ai_types::random::{picked_or_first, Random};
use rustyai::ai_funcs::ai_utils::clock::{is_stop, next_depth_fits, time_for_move, Polled};
use rustyai::board_structs::board::Board;
use rustyai::board_structs::board_types::array2d::Array2D;
use rustyai::utils::game_move::GameMove;
use std::sync::mpsc;

fn position(fen: &str) -> Array2D {
    Array2D::setup_board(Some(fen)).unwrap()
}

fn plain_negamax(game: &Array2D, depth: usize, ply: usize) -> i64 {
    let moves = game.get_valid_moves();
    if moves.is_empty() {
        return if game.check.is_some() { i32::MIN as i64 + ply as i64 } else { 0 };
    }
    if depth == 0 {
        let value = rustyai::ai_funcs::ai_utils::heuristics::heuristic(*game) as i64;
        return if game.curr_move { -value } else { value };
    }
    moves.iter().map(|m| -plain_negamax(&game.make_move(m), depth - 1, ply + 1)).max().unwrap()
}

#[test]
fn a_mate_in_one_is_played() {
    let game = position("6k1/5ppp/8/8/8/8/5PPP/R5K1 w - - 0 1");
    let moves = game.get_valid_moves();
    assert_eq!(root_nega_max(&game, 1, &moves).to_string(), "a1a8");
    assert_eq!(root_nega_max(&game, 2, &moves).to_string(), "a1a8");
}

#[test]
fn the_scholars_mate_is_played() {
    let game =
        position("r1bqkbnr/pppp1ppp/2n5/4p3/2B1P3/5Q2/PPPP1PPP/RNB1K1NR w KQkq - 2 3");
    let moves = game.get_valid_moves();
    assert_eq!(root_nega_max(&game, 2, &moves).to_string(), "f3f7");
    assert_eq!(root_nega_max(&game, 3, &moves).to_string(), "f3f7");
}

#[test]
fn pruning_does_not_change_the_value() {
    for fen in [
        "rnbqkbnr/pppppppp/8/8/8/8/PPPPPPPP/RNBQKBNR w KQkq - 0 1",
        "r1bqkbnr/pppp1ppp/2n5/4p3/2B1P3/5Q2/PPPP1PPP/RNB1K1NR w KQkq - 2 3",
        "8/2p5/3p4/KP5r/1R3p1k/8/4P1P1/8 b - - 0 1",
    ] {
        let game = position(fen);
        for depth in 0..3 {
            assert_eq!(
                nega_max(game, depth, LOWEST, HIGHEST, 1) as i64,
                plain_negamax(&game, depth, 1)
            );
        }
    }
}

#[test]
fn a_narrow_window_gives_a_bound() {
    let game = position("r1bqkbnr/pppp1ppp/2n5/4p3/2B1P3/5Q2/PPPP1PPP/RNB1K1NR w KQkq - 2 3");
    let value = plain_negamax(&game, 2, 1);
    assert!(nega_max(game, 2, 0, 1, 1) as i64 >= 1);
    assert!(value >= 1);
    assert!(nega_max(game, 2, HIGHEST - 1, HIGHEST, 1) < HIGHEST);
}

#[test]
fn mates_and_stalemates_have_their_values() {
    let mated = position("R5k1/5ppp/8/8/8/8/5PPP/6K1 b - - 1 1");
    assert_eq!(nega_max(mated, 3, LOWEST, HIGHEST, 1), i32::MIN + 1);
    assert_eq!(nega_max(mated, 0, LOWEST, HIGHEST, 4), i32::MIN + 4);
    let stalemate = position("7k/5Q2/6K1/8/8/8/8/8 b - - 0 1");
    assert_eq!(nega_max(stalemate, 2, LOWEST, HIGHEST, 1), 0);
}

#[test]
fn the_first_of_equally_good_moves_is_chosen() {
    let game = position("7k/8/8/8/8/8/8/K7 w - - 0 1");
    let moves = game.get_valid_moves();
    let best = root_nega_max(&game, 1, &moves);
    let value = |m: &GameMove| -plain_negamax(&game.make_move(m), 0, 1);
    let top = moves.iter().map(|m| value(m)).max().unwrap();
    let first = moves.iter().find(|m| value(m) == top).unwrap();
    assert_eq!(best, *first);
}

#[test]
fn a_search_returns_a_legal_move() {
    let game = Array2D::setup_board(None).unwrap();
    let moves = game.get_valid_moves();
    for depth in 1..4 {
        assert!(moves.contains(&root_nega_max(&game, depth, &moves)));
    }
    let only: Vec<GameMove> = moves.iter().filter(|m| m.to_string() == "h2h4").cloned().collect();
    assert_eq!(root_nega_max(&game, 2, &only).to_string(), "h2h4");
}

#[test]
fn a_search_without_limits_ends_at_its_depth() {
    let game = position("6k1/5ppp/8/8/8/8/5PPP/R5K1 w - - 0 1");
    let moves = game.get_valid_moves();
    let found = deepen(&game, &moves, None, None, 2);
    assert_eq!(found.depth, 2);
    assert_eq!(found.info.len(), 2);
    assert_eq!(found.info[0].depth, 1);
    assert_eq!(found.info[1].depth, 2);
    assert_eq!(found.best_move, found.info[1].best_move);
    assert_eq!(found.best_move.to_string(), "a1a8");
    assert_eq!(deepen(&game, &moves, None, None, 0).depth, 1);
}

#[test]
fn a_stop_before_the_first_depth_gives_the_first_move() {
    let game = Array2D::setup_board(None).unwrap();
    let (tx, rx) = mpsc::channel();
    tx.send("stop").unwrap();
    let found = ABMinimax::uci_infinite_find_move(&game, rx, None);
    assert_eq!(found.depth, 0);
    assert!(found.info.is_empty());
    assert_eq!(found.best_move, game.get_valid_moves()[0]);
}

#[test]
fn a_lost_sender_stops_the_search() {
    let game = Array2D::setup_board(None).unwrap();
    let (tx, rx) = mpsc::channel::<&'static str>();
    drop(tx);
    let found = ABMinimax::uci_timed_find_move(&game, 1000, rx, None, None);
    assert_eq!(found.depth, 0);
    assert_eq!(found.best_move, game.get_valid_moves()[0]);
}

#[test]
fn other_messages_do_not_stop_the_search() {
    let game = position("6k1/5ppp/8/8/8/8/5PPP/R5K1 w - - 0 1");
    let (tx, rx) = mpsc::channel();
    tx.send("ponderhit").unwrap();
    let found = ABMinimax::uci_timed_find_move(&game, 1000000, rx, None, Some(2));
    assert_eq!(found.depth, 2);
    assert_eq!(found.best_move.to_string(), "a1a8");
    drop(tx);
}

#[test]
fn a_stop_inside_a_depth_discards_it() {
    let game = position("6k1/5ppp/8/8/8/8/5PPP/R5K1 w - - 0 1");
    let moves = game.get_valid_moves();
    let (tx, rx) = mpsc::channel();
    tx.send("go on").unwrap();
    tx.send("stop").unwrap();
    assert_eq!(search_root(&game, 1, &moves, Some(&rx)), None);
    assert!(search_root(&game, 1, &moves, None).is_some());
}

#[test]
fn a_timed_search_returns_the_move_of_its_last_depth() {
    let game = Array2D::setup_board(None).unwrap();
    let (_tx, rx) = mpsc::channel();
    let found = ABMinimax::uci_timed_find_move(&game, 100, rx, None, Some(3));
    assert!(found.depth >= 1 && found.depth <= 3);
    assert_eq!(found.info.len(), found.depth);
    assert_eq!(found.best_move, found.info[found.depth - 1].best_move);
    let moves = game.get_valid_moves();
    assert!(moves.contains(&found.best_move));
    assert_eq!(found.best_move, root_nega_max(&game, found.depth, &moves));
}

#[test]
fn the_player_finds_a_legal_move_in_its_time() {
    let game = Array2D::setup_board(None).unwrap();
    let player = ABMinimax {};
    let best = player.find_move(game, false, 2000);
    assert!(game.get_valid_moves().contains(&best));
}

#[test]
fn the_random_player_moves_legally() {
    let game = Array2D::setup_board(None).unwrap();
    let moves = game.get_valid_moves();
    let player = Random {};
    for _ in 0..20 {
        assert!(moves.contains(&player.find_move(game, false, 0)));
    }
    assert_eq!(picked_or_first(&moves, None), moves[0]);
    assert_eq!(picked_or_first(&moves, Some(moves[7])), moves[7]);
}

#[test]
fn the_random_player_does_not_always_play_the_first_move() {
    let game = Array2D::setup_board(None).unwrap();
    let first = game.get_valid_moves()[0];
    let player = Random {};
    assert!((0..200).any(|_| player.find_move(game, false, 0) != first));
}

#[test]
fn the_next_depth_is_predicted_from_the_last_two() {
    assert!(next_depth_fits(10, 90, None, 100));
    assert!(!next_depth_fits(11, 90, None, 100));
    assert!(next_depth_fits(40, 20, Some(10), 80));
    assert!(!next_depth_fits(41, 20, Some(10), 80));
    assert!(next_depth_fits(100, 5, Some(10), 100));
    assert!(!next_depth_fits(101, 0, Some(10), 100));
    assert!(next_depth_fits(0, 29, Some(10), 58));
    assert!(!next_depth_fits(0, 30, Some(10), 89));
    assert!(next_depth_fits(0, 7, Some(0), 49));
    assert!(!next_depth_fits(0, 7, Some(0), 48));
    assert!(!next_depth_fits(1, u128::MAX, Some(1), u128::MAX));
}

#[test]
fn a_move_gets_a_twentieth_of_the_clock_and_half_the_increment() {
    assert_eq!(time_for_move(60000, 2000), 4000);
    assert_eq!(time_for_move(1000, 0), 50);
    assert_eq!(time_for_move(19, 1), 0);
    assert_eq!(time_for_move(u128::MAX, u128::MAX), u128::MAX / 20 + u128::MAX / 2);
}

#[test]
fn only_stop_and_a_lost_sender_end_a_search() {
    assert!(is_stop(Polled::Message("stop")));
    assert!(is_stop(Polled::Disconnected));
    assert!(!is_stop(Polled::Empty));
    assert!(!is_stop(Polled::Message("stopp")));
    assert!(!is_stop(Polled::Message("Stop")));
    assert!(!is_stop(Polled::Message("")));
}
