use rustyai::board_structs::board::Board;
use rustyai::board_structs::board_types::array2d::Array2D;
use rustyai::board_structs::fen::split_text;
use rustyai::uci::{
    filter_uci_moves, find_word, is_word, play_moves, read_if_matched, read_limits,
    read_request, read_setting, same_chars, Action, Engine, Limits, Setting,
};
use rustyai::utils::gamemove1d::GameMove1d;

fn texts(action: &Action) -> Vec<String> {
    match action {
        Action::Search(order) => order.moves.iter().map(|m| m.to_string()).collect(),
        _ => panic!("no search was ordered"),
    }
}

fn limits(action: &Action) -> Limits {
    match action {
        Action::Search(order) => order.limits,
        _ => panic!("no search was ordered"),
    }
}

#[test]
fn words_that_look_like_moves_are_picked_out() {
    let moves = filter_uci_moves(&split_text("position startpos moves e2e4 e7e5 a7a8q zz e2"));
    assert_eq!(
        moves,
        vec![
            GameMove1d::from_str("e2e4").unwrap(),
            GameMove1d::from_str("e7e5").unwrap(),
            GameMove1d::from_str("a7a8q").unwrap(),
        ]
    );
    assert!(filter_uci_moves(&split_text("go movetime 100 depth 3")).is_empty());
    assert!(filter_uci_moves(&split_text("xe2e4y e2e4e e9e4 e2e4!")).is_empty());
    assert_eq!(
        filter_uci_moves(&split_text("a7a8n")),
        vec![GameMove1d::from_str("a7a8n").unwrap()]
    );
}

#[test]
fn a_word_is_read_as_a_move_only_if_it_matched() {
    assert_eq!(read_if_matched(Some(true), "e2e4"), Some(GameMove1d::from_str("e2e4").unwrap()));
    assert_eq!(read_if_matched(Some(false), "e2e4"), None);
    assert_eq!(read_if_matched(None, "e2e4"), None);
    assert_eq!(read_if_matched(Some(true), "e2e4x"), None);
}

#[test]
fn words_are_found_and_compared() {
    let args = split_text("go depth 4 depth 5");
    assert!(is_word(&args[0], "go"));
    assert!(!is_word(&args[0], "g"));
    assert!(!is_word(&args[0], "gone"));
    assert_eq!(find_word(&args, "depth"), Some(1));
    assert_eq!(find_word(&args, "nodes"), None);
    assert!(same_chars(&args[1], &args[3]));
    assert!(!same_chars(&args[1], &args[2]));
    assert_eq!(read_setting(&args, "depth"), Setting::Value(4));
    assert_eq!(read_setting(&args, "nodes"), Setting::Absent);
    assert_eq!(read_setting(&split_text("go depth"), "depth"), Setting::Malformed);
    assert_eq!(read_setting(&split_text("go depth x"), "depth"), Setting::Malformed);
}

#[test]
fn the_limits_of_a_search_are_read() {
    assert_eq!(
        read_limits(&split_text("go movetime 100"), false),
        Some(Limits { budget: Some(100), max_plies: None, max_nodes: None })
    );
    assert_eq!(
        read_limits(&split_text("go depth 3 nodes 500 movetime 7"), true),
        Some(Limits { budget: Some(7), max_plies: Some(3), max_nodes: Some(500) })
    );
    assert_eq!(
        read_limits(&split_text("go infinite depth 6"), false),
        Some(Limits { budget: None, max_plies: Some(6), max_nodes: None })
    );
    assert_eq!(
        read_limits(&split_text("go wtime 60000 btime 30000 winc 2000 binc 1000"), false),
        Some(Limits { budget: Some(4000), max_plies: None, max_nodes: None })
    );
    assert_eq!(
        read_limits(&split_text("go wtime 60000 btime 30000 winc 2000 binc 1000"), true),
        Some(Limits { budget: Some(2000), max_plies: None, max_nodes: None })
    );
    assert_eq!(
        read_limits(&split_text("go wtime 60000 btime 30000"), true),
        Some(Limits { budget: Some(1500), max_plies: None, max_nodes: None })
    );
    assert_eq!(read_limits(&split_text("go"), false), None);
    assert_eq!(read_limits(&split_text("go btime 30000"), false), None);
    assert_eq!(read_limits(&split_text("go movetime"), false), None);
    assert_eq!(read_limits(&split_text("go movetime soon"), false), None);
    assert_eq!(read_limits(&split_text("go movetime 10 depth deep"), false), None);
    assert_eq!(read_limits(&split_text("go wtime 100 winc x"), false), None);
}

#[test]
fn a_position_is_set_with_its_moves() {
    let mut engine = Engine::new().unwrap();
    let action = engine.handle(&split_text("position startpos moves e2e4 e7e5 g1f3"));
    assert!(matches!(action, Action::Nothing));
    assert_eq!(engine.board.curr_move, true);
    assert_eq!(engine.board.full_moves, 2);
    assert_eq!(engine.board.half_moves, 1);
    assert_eq!(
        engine.board.board,
        Array2D::setup_board(Some(
            "rnbqkbnr/pppp1ppp/8/4p3/4P3/5N2/PPPP1PPP/RNBQKB1R b KQkq - 1 2"
        ))
        .unwrap()
        .board
    );
    engine.handle(&split_text("position fen 8/P7/8/8/8/8/8/k6K w - - 0 1 moves a7a8q"));
    assert_eq!(engine.board.board[7][0].piece_type, rustyai::utils::pieces::PieceTypes::Queen);
    engine.handle(&split_text("position fen 4k3/8/8/8/8/8/8/4K3 b - - 3 9"));
    assert_eq!(engine.board.full_moves, 9);
    engine.handle(&split_text("ucinewgame"));
    assert_eq!(engine.board.board, Array2D::setup_board(None).unwrap().board);
    assert_eq!(engine.board.full_moves, 1);
}

#[test]
fn a_position_with_an_illegal_move_changes_nothing() {
    let mut engine = Engine::new().unwrap();
    engine.handle(&split_text("position startpos moves d2d4"));
    let before = engine.board;
    for line in [
        "position startpos moves e2e4 e7e5 e1e3",
        "position startpos moves e2e4 e7e",
        "position startpos moves e2e4 e7e5 zzzz",
        "position startpos e2e4",
        "position fen 4k3/8/8/8/8/8/8/4K3 w - - 0 moves e1e2",
        "position fen 4k3/8/8/8/8/8/8/4X3 w - - 0 1",
        "position",
        "position here",
        "position startpos moves a7a8q",
    ] {
        let action = engine.handle(&split_text(line));
        assert!(matches!(action, Action::Refused));
        assert_eq!(engine.board.board, before.board);
        assert_eq!(engine.board.curr_move, before.curr_move);
        assert_eq!(engine.board.full_moves, before.full_moves);
    }
}

#[test]
fn moves_are_played_one_after_the_other_or_not_at_all() {
    let start = Array2D::setup_board(None).unwrap();
    let after = play_moves(start, &split_text("e2e4 c7c5"), 0).unwrap();
    assert_eq!(after.full_moves, 2);
    assert_eq!(after.en_passant, Some([5, 2]));
    assert_eq!(play_moves(start, &split_text("moves e2e4"), 1).unwrap().curr_move, true);
    assert!(play_moves(start, &split_text("e2e4 e2e4"), 0).is_none());
    assert_eq!(play_moves(start, &split_text(""), 0).unwrap().board, start.board);
    assert!(read_request(&split_text("position startpos")).is_some());
    assert!(read_request(&split_text("position fen 4k3/8/8/8/8/8/8/4K3 w - - 0 1")).is_some());
    assert!(read_request(&split_text("position fen 4k3/8/8/8/8/8/8/4K3 w - -")).is_none());
}

#[test]
fn a_search_is_ordered_with_its_limits_and_moves() {
    let mut engine = Engine::new().unwrap();
    let action = engine.handle(&split_text("go movetime 100"));
    assert_eq!(limits(&action), Limits { budget: Some(100), max_plies: None, max_nodes: None });
    let all: Vec<String> = engine.board.get_valid_moves().iter().map(|m| m.to_string()).collect();
    assert_eq!(texts(&action), all);
    engine.finished();
    let action = engine.handle(&split_text("go searchmoves e2e4 d2d4 b1c3 depth 2 movetime 5"));
    assert_eq!(limits(&action), Limits { budget: Some(5), max_plies: Some(2), max_nodes: None });
    assert_eq!(texts(&action), vec!["b1c3", "d2d4", "e2e4"]);
    engine.finished();
    let action = engine.handle(&split_text("go infinite searchmoves e2e5 a7a6"));
    assert_eq!(texts(&action), all);
    engine.finished();
    let action = engine.handle(&split_text("go infinite e2e4"));
    assert_eq!(texts(&action), all);
    assert_eq!(limits(&action).budget, None);
}

#[test]
fn a_search_is_not_ordered_without_a_time_or_a_move() {
    let mut engine = Engine::new().unwrap();
    assert!(matches!(engine.handle(&split_text("go")), Action::Refused));
    assert!(matches!(engine.handle(&split_text("go movetime")), Action::Refused));
    engine.handle(&split_text("position fen R5k1/5ppp/8/8/8/8/5PPP/6K1 b - - 1 1"));
    assert!(matches!(engine.handle(&split_text("go movetime 100")), Action::NoMove));
    engine.handle(&split_text(&format!(
        "position fen 4k3/8/8/8/8/8/8/4K3 w - - 0 {}",
        usize::MAX
    )));
    assert_eq!(engine.board.full_moves, usize::MAX);
    assert!(matches!(engine.handle(&split_text("go movetime 100")), Action::Refused));
}

#[test]
fn the_other_commands_are_told_apart() {
    let mut engine = Engine::new().unwrap();
    assert!(matches!(engine.handle(&split_text("uci")), Action::Identify));
    assert!(matches!(engine.handle(&split_text("isready")), Action::Ready));
    assert!(matches!(engine.handle(&split_text("stop")), Action::Nothing));
    assert!(matches!(engine.handle(&split_text("quit")), Action::Quit));
    assert!(matches!(engine.handle(&split_text("")), Action::Nothing));
    assert!(matches!(engine.handle(&split_text("ponder")), Action::Nothing));
    assert!(matches!(engine.handle(&split_text("setoption name Hash value 1")), Action::Nothing));
    assert!(matches!(engine.handle(&split_text("ucii")), Action::Nothing));
}

#[test]
fn one_search_runs_at_a_time() {
    let mut engine = Engine::new().unwrap();
    assert!(!engine.searching);
    assert!(matches!(engine.handle(&split_text("go movetime 100")), Action::Search(_)));
    assert!(engine.searching);
    assert!(matches!(engine.handle(&split_text("go movetime 100")), Action::Nothing));
    assert!(engine.searching);
    assert!(matches!(engine.handle(&split_text("isready")), Action::Ready));
    assert!(engine.searching);
    assert!(matches!(engine.handle(&split_text("stop")), Action::Stop));
    assert!(!engine.searching);
    assert!(matches!(engine.handle(&split_text("stop")), Action::Nothing));
    assert!(matches!(engine.handle(&split_text("go infinite")), Action::Search(_)));
    engine.finished();
    assert!(!engine.searching);
    assert!(matches!(engine.handle(&split_text("go infinite")), Action::Search(_)));
}

#[test]
fn a_timed_search_is_ordered_and_answered_with_a_legal_move() {
    let mut engine = Engine::new().unwrap();
    engine.handle(&split_text("position startpos moves e2e4"));
    let order = match engine.handle(&split_text("go movetime 100")) {
        Action::Search(order) => order,
        _ => panic!("no search was ordered"),
    };
    let (_tx, rx) = std::sync::mpsc::channel();
    let found = rustyai::ai_funcs::ai_types::abminimax::ABMinimax::uci_timed_find_move(
        &engine.board,
        order.limits.budget.unwrap(),
        rx,
        Some(order.moves),
        order.limits.max_plies,
    );
    let text = found.best_move.to_string();
    assert!(engine.board.get_valid_moves().iter().any(|m| m.to_string() == text));
    assert!(rustyai::utils::game_move::GameMove::parse(&text).is_ok());
}
