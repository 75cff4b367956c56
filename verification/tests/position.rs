use rustyai::board_structs::board::Board;
use rustyai::board_structs::board_types::array2d::Array2D;
use rustyai::board_structs::fen::{read_number, read_placement, split_text};
use rustyai::utils::castling::CastleRights;
use rustyai::utils::chess_errors::ChessError;
use rustyai::utils::game_move::{GameMove, PassantTypes};
use rustyai::utils::pieces::PieceColors::{Black, Empty, White};
use rustyai::utils::pieces::PieceTypes;
use rustyai::utils::pieces::{Pieces, BLACK, WHITE};

fn position(fen: &str) -> Array2D {
    Array2D::setup_board(Some(fen)).unwrap()
}

fn play(game: &Array2D, text: &str) -> Array2D {
    let wanted = GameMove::from_str(&text);
    let moves = game.get_valid_moves();
    let found = moves
        .iter()
        .find(|m| m.start == wanted.start && m.end == wanted.end)
        .unwrap_or_else(|| panic!("{} is not legal", text));
    game.make_move(found)
}

fn is_legal(game: &Array2D, text: &str) -> bool {
    game.get_valid_moves().iter().any(|m| m.to_string() == text)
}

fn recomputed(game: &Array2D) -> bool {
    let maps = Array2D::generate_attack_maps(game.board);
    maps[0] == game.white_attack_map && maps[1] == game.black_attack_map
}

#[test]
fn the_starting_position_is_read() {
    let game = Array2D::setup_board(None).unwrap();
    assert_eq!(game.curr_move, WHITE);
    assert_eq!(
        game.castling_rights,
        CastleRights { white_king: true, white_queen: true, black_king: true, black_queen: true }
    );
    assert_eq!(game.get_castle_rights(), [true, true, true, true]);
    assert_eq!(game.en_passant, None);
    assert_eq!(game.half_moves, 0);
    assert_eq!(game.full_moves, 1);
    assert_eq!(game.check, None);
    assert_eq!(game.get_check(), None);
    assert_eq!(game.get_curr_player(), WHITE);
    assert_eq!(game.white_king, [0, 4]);
    assert_eq!(game.black_king, [7, 4]);
    assert_eq!(game.board[0][0], Pieces { piece_type: PieceTypes::Rook, color: White });
    assert_eq!(game.board[7][3], Pieces { piece_type: PieceTypes::Queen, color: Black });
    assert_eq!(game.board[1][5], Pieces { piece_type: PieceTypes::Pawn, color: White });
    assert_eq!(game.board[4][4], Pieces { piece_type: PieceTypes::Empty, color: Empty });
    assert_eq!(game.get_board_as_2d(), game.board);
}

#[test]
fn every_field_of_a_position_is_read() {
    let game = position("r3k2r/8/8/3pP3/8/8/8/R3K2R w Kq d6 7 31");
    assert_eq!(
        game.castling_rights,
        CastleRights { white_king: true, white_queen: false, black_king: false, black_queen: true }
    );
    assert_eq!(game.en_passant, Some([5, 3]));
    assert_eq!(game.half_moves, 7);
    assert_eq!(game.full_moves, 31);
    let black = position("4k3/8/8/8/8/8/8/4K3 b - - 0 1");
    assert_eq!(black.curr_move, BLACK);
    let spaced = position("  4k3/8/8/8/8/8/8/4K3 \t b   -  - 12 40  extra");
    assert_eq!(spaced.half_moves, 12);
    assert_eq!(spaced.full_moves, 40);
}

#[test]
fn a_position_with_a_missing_field_is_rejected() {
    for fen in [
        "",
        "4k3/8/8/8/8/8/8/4K3",
        "4k3/8/8/8/8/8/8/4K3 w",
        "4k3/8/8/8/8/8/8/4K3 w -",
        "4k3/8/8/8/8/8/8/4K3 w - -",
        "4k3/8/8/8/8/8/8/4K3 w - - 0",
    ] {
        assert_eq!(Array2D::setup_board(Some(fen)).err(), Some(ChessError::FENParseError));
    }
}

#[test]
fn a_position_with_bad_squares_is_rejected() {
    for fen in [
        "4k3/8/8/8/8/8/8/4X3 w - - 0 1",
        "4k3/8/8/8/8/8/8/4K4 w - - 0 1",
        "4k3/8/8/8/8/8/8/4K2 w - - 0 1",
        "4k3/8/8/8/8/8/4K3 w - - 0 1",
        "4k3/8/8/8/8/8/8/8/4K3 w - - 0 1",
        "4k3/8/8/8/8/8/8/4K9 w - - 0 1",
        "4k3/8/8/8/8/8/8/4K30 w - - 0 1",
        "4k3//8/8/8/8/8/4K3 w - - 0 1",
    ] {
        assert_eq!(Array2D::setup_board(Some(fen)).err(), Some(ChessError::FENParseError));
    }
}

#[test]
fn a_position_with_a_bad_field_is_rejected() {
    for fen in [
        "4k3/8/8/8/8/8/8/4K3 x - - 0 1",
        "4k3/8/8/8/8/8/8/4K3 W - - 0 1",
        "4k3/8/8/8/8/8/8/4K3 w KX - 0 1",
        "4k3/8/8/8/8/8/8/4K3 w - e9 0 1",
        "4k3/8/8/8/8/8/8/4K3 w - i3 0 1",
        "4k3/8/8/8/8/8/8/4K3 w - e 0 1",
        "4k3/8/8/8/8/8/8/4K3 w - - x 1",
        "4k3/8/8/8/8/8/8/4K3 w - - -1 1",
        "4k3/8/8/8/8/8/8/4K3 w - - 0 one",
        "4k3/8/8/8/8/8/8/4K3 w - - 0 0",
        "4k3/8/8/8/8/8/8/4K3 w - - 0 99999999999999999999999999999999999999999",
    ] {
        assert_eq!(Array2D::setup_board(Some(fen)).err(), Some(ChessError::FENParseError));
    }
}

#[test]
fn a_position_that_no_game_can_reach_is_rejected() {
    for fen in [
        "8/8/8/8/8/8/8/4K3 w - - 0 1",
        "4k3/8/8/8/8/8/8/8 w - - 0 1",
        "4k3/8/8/8/8/8/8/3KK3 w - - 0 1",
        "3kk3/8/8/8/8/8/8/4K3 w - - 0 1",
        "4k3/4R3/8/8/8/8/8/4K3 w - - 0 1",
        "4k3/8/8/8/8/8/4r3/4K3 b - - 0 1",
    ] {
        assert_eq!(Array2D::setup_board(Some(fen)).err(), Some(ChessError::FENParseError));
    }
}

#[test]
fn text_is_split_at_its_spaces() {
    let words: Vec<String> = split_text(" go  movetime\t100 \n")
        .iter()
        .map(|w| w.iter().collect())
        .collect();
    assert_eq!(words, vec!["go", "movetime", "100"]);
    assert!(split_text("   ").is_empty());
    assert!(split_text("").is_empty());
}

#[test]
fn numbers_and_rows_are_read() {
    let chars = |text: &str| -> Vec<char> { text.chars().collect() };
    assert_eq!(read_number(&chars("0")), Some(0));
    assert_eq!(read_number(&chars("907")), Some(907));
    assert_eq!(read_number(&chars("")), None);
    assert_eq!(read_number(&chars("9a")), None);
    assert_eq!(read_number(&chars(&usize::MAX.to_string())), Some(usize::MAX));
    assert_eq!(read_number(&chars(&format!("{}0", usize::MAX))), None);
    let board = read_placement(&chars("8/8/8/8/8/8/8/1N4b1")).unwrap();
    assert_eq!(board[0][1], Pieces { piece_type: PieceTypes::Knight, color: White });
    assert_eq!(board[0][6], Pieces { piece_type: PieceTypes::Bishop, color: Black });
    assert_eq!(board[0][0], Pieces { piece_type: PieceTypes::Empty, color: Empty });
    assert!(read_placement(&chars("8/8/8/8/8/8/8/1N4b")).is_none());
}

#[test]
fn a_move_passes_the_turn_and_counts() {
    let start = Array2D::setup_board(None).unwrap();
    let after = play(&start, "g1f3");
    assert_eq!(after.curr_move, BLACK);
    assert_eq!(after.half_moves, 1);
    assert_eq!(after.full_moves, 1);
    assert_eq!(after.board[0][6].piece_type, PieceTypes::Empty);
    assert_eq!(after.board[2][5], Pieces { piece_type: PieceTypes::Knight, color: White });
    let reply = play(&after, "e7e5");
    assert_eq!(reply.curr_move, WHITE);
    assert_eq!(reply.half_moves, 0);
    assert_eq!(reply.full_moves, 2);
    let capture = play(&reply, "f3e5");
    assert_eq!(capture.half_moves, 0);
    assert_eq!(capture.board[4][4], Pieces { piece_type: PieceTypes::Knight, color: White });
}

#[test]
fn a_double_step_can_be_captured_in_passing_at_once_only() {
    let mut game = Array2D::setup_board(None).unwrap();
    for text in ["e2e4", "a7a6", "e4e5", "d7d5"] {
        game = play(&game, text);
    }
    assert_eq!(game.en_passant, Some([5, 3]));
    let passing: Vec<GameMove> =
        game.get_valid_moves().into_iter().filter(|m| m.to_string() == "e5d6").collect();
    assert_eq!(passing.len(), 1);
    assert_eq!(passing[0].passant, Some(PassantTypes::PassantCapture([4, 3])));
    assert!(!passing[0].capture);
    let taken = game.make_move(&passing[0]);
    assert_eq!(taken.board[4][3].piece_type, PieceTypes::Empty);
    assert_eq!(taken.board[5][3], Pieces { piece_type: PieceTypes::Pawn, color: White });
    assert_eq!(taken.board[4][4].piece_type, PieceTypes::Empty);
    assert_eq!(taken.en_passant, None);
    assert_eq!(taken.half_moves, 0);

    let mut later = game;
    for text in ["h2h3", "h7h6"] {
        later = play(&later, text);
    }
    assert_eq!(later.en_passant, None);
    assert!(!is_legal(&later, "e5d6"));
}

#[test]
fn a_double_step_names_the_square_it_skips() {
    let start = Array2D::setup_board(None).unwrap();
    let double: Vec<GameMove> =
        start.get_valid_moves().into_iter().filter(|m| m.to_string() == "e2e4").collect();
    assert_eq!(double[0].passant, Some(PassantTypes::PassantAvailable([2, 4])));
    let after = start.make_move(&double[0]);
    assert_eq!(after.en_passant, Some([2, 4]));
    let single = play(&start, "e2e3");
    assert_eq!(single.en_passant, None);
}

#[test]
fn castling_moves_the_rook_and_ends_the_rights() {
    let game = position("r3k2r/8/8/8/8/8/8/R3K2R w KQkq - 0 1");
    let short = play(&game, "e1g1");
    assert_eq!(short.board[0][6], Pieces { piece_type: PieceTypes::King, color: White });
    assert_eq!(short.board[0][5], Pieces { piece_type: PieceTypes::Rook, color: White });
    assert_eq!(short.board[0][7].piece_type, PieceTypes::Empty);
    assert_eq!(short.board[0][4].piece_type, PieceTypes::Empty);
    assert_eq!(short.white_king, [0, 6]);
    assert_eq!(short.get_castle_rights(), [false, false, true, true]);
    let long = play(&short, "e8c8");
    assert_eq!(long.board[7][2], Pieces { piece_type: PieceTypes::King, color: Black });
    assert_eq!(long.board[7][3], Pieces { piece_type: PieceTypes::Rook, color: Black });
    assert_eq!(long.board[7][0].piece_type, PieceTypes::Empty);
    assert_eq!(long.black_king, [7, 2]);
    assert_eq!(long.get_castle_rights(), [false, false, false, false]);
}

#[test]
fn rook_moves_and_rook_captures_end_one_right() {
    let game = position("r3k2r/8/8/8/8/8/8/R3K2R w KQkq - 0 1");
    let moved = play(&game, "h1h2");
    assert_eq!(moved.get_castle_rights(), [false, true, true, true]);
    let other = play(&game, "a1a2");
    assert_eq!(other.get_castle_rights(), [true, false, true, true]);
    let taken = play(&game, "a1a8");
    assert_eq!(taken.get_castle_rights(), [true, false, true, false]);
    let king = play(&game, "e1e2");
    assert_eq!(king.get_castle_rights(), [false, false, true, true]);
}

#[test]
fn castling_needs_the_right_and_empty_unattacked_squares() {
    assert!(!is_legal(&position("r3k2r/8/8/8/8/8/8/R3K2R w - - 0 1"), "e1g1"));
    assert!(!is_legal(&position("r3k2r/8/8/8/8/8/8/R3KB1R w KQkq - 0 1"), "e1g1"));
    assert!(!is_legal(&position("r3k2r/8/8/8/8/8/8/RN2K2R w KQkq - 0 1"), "e1c1"));
    assert!(!is_legal(&position("4k3/8/8/8/8/8/8/R3K2r w KQ - 0 1"), "e1g1"));
    assert!(!is_legal(&position("3rk3/8/8/8/8/8/8/R3K2R w KQ - 0 1"), "e1c1"));
    assert!(is_legal(&position("1r2k3/8/8/8/8/8/8/R3K2R w KQ - 0 1"), "e1c1"));
    assert!(!is_legal(&position("4k3/8/8/8/8/8/8/R3K2R w KQ - 0 1"), "e1h1"));
    let black = position("r3k2r/8/8/8/8/8/8/R3K2R b KQkq - 0 1");
    assert!(is_legal(&black, "e8g8"));
    assert!(is_legal(&black, "e8c8"));
}

#[test]
fn a_promotion_puts_the_new_piece_on_the_board() {
    let game = position("8/P7/8/8/8/8/8/k6K w - - 0 1");
    let moves = game.get_valid_moves();
    let knight = moves.iter().find(|m| m.to_string() == "a7a8n").unwrap();
    let after = game.make_move(knight);
    assert_eq!(after.board[7][0], Pieces { piece_type: PieceTypes::Knight, color: White });
    assert_eq!(after.board[6][0].piece_type, PieceTypes::Empty);
    assert_eq!(after.half_moves, 0);
}

#[test]
fn the_player_in_check_is_known() {
    let game = position("4k3/8/8/8/8/8/4r3/4K3 w - - 0 1");
    assert_eq!(game.check, Some(WHITE));
    assert!(game.is_white_checked());
    assert!(!game.is_black_checked());
    let escaped = play(&game, "e1e2");
    assert_eq!(escaped.check, None);
    let giving = play(&position("4k3/8/8/8/8/8/8/R3K3 w - - 0 1"), "a1a8");
    assert_eq!(giving.check, Some(BLACK));
}

#[test]
fn no_legal_move_leaves_the_mover_in_check() {
    let mut frontier = vec![
        Array2D::setup_board(None).unwrap(),
        position("r3k2r/p1ppqpb1/bn2pnp1/3PN3/1p2P3/2N2Q1p/PPPBBPPP/R3K2R w KQkq - 0 1"),
        position("8/2p5/3p4/KP5r/1R3p1k/8/4P1P1/8 w - - 0 1"),
    ];
    for _ in 0..2 {
        let mut next = Vec::new();
        for game in frontier.iter() {
            for mov in game.get_valid_moves().iter() {
                let after = game.make_move(mov);
                assert_ne!(after.check, Some(game.curr_move));
                assert!(!(after.is_white_checked() && after.is_black_checked()));
                assert_eq!(after.curr_move, !game.curr_move);
                assert!(recomputed(&after));
                assert_eq!(
                    after.board[after.white_king[0]][after.white_king[1]],
                    Pieces { piece_type: PieceTypes::King, color: White }
                );
                assert_eq!(
                    after.board[after.black_king[0]][after.black_king[1]],
                    Pieces { piece_type: PieceTypes::King, color: Black }
                );
                next.push(after);
            }
        }
        frontier = next;
    }
}

#[test]
fn moves_that_score_higher_come_first() {
    let game = position("r3k2r/p1ppqpb1/bn2pnp1/3PN3/1p2P3/2N2Q1p/PPPBBPPP/R3K2R w KQkq - 0 1");
    let moves = game.get_valid_moves();
    for pair in moves.windows(2) {
        assert!(pair[0].score() >= pair[1].score());
    }
    assert!(moves[0].capture);
    let start = Array2D::setup_board(None).unwrap();
    let texts: Vec<String> = start.get_valid_moves().iter().map(|m| m.to_string()).collect();
    assert_eq!(
        texts,
        vec![
            "b1a3", "b1c3", "g1f3", "g1h3", "a2a3", "a2a4", "b2b3", "b2b4", "c2c3", "c2c4",
            "d2d3", "d2d4", "e2e3", "e2e4", "f2f3", "f2f4", "g2g3", "g2g4", "h2h3", "h2h4"
        ]
    );
}
