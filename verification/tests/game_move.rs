use rustyai::utils::chess_errors::ChessError;
use rustyai::utils::game_move::{to_let, to_num, CastleTypes, GameMove, PassantTypes};
use rustyai::utils::pieces::PieceColors::{Black, White};
use rustyai::utils::pieces::PieceTypes::{Bishop, Knight, Queen, Rook};
use rustyai::utils::pieces::Pieces;

#[test]
fn board_digit_manipulation() {
    for (character, number) in [
        ('a', 0),
        ('b', 1),
        ('c', 2),
        ('d', 3),
        ('e', 4),
        ('f', 5),
        ('g', 6),
        ('h', 7),
    ] {
        assert!(to_num(character) == number);
        assert!(to_let(number) == character);
    }
}

#[test]
fn array2d_digit_manipulation() {
    for (character, number) in [
        ('a', 0),
        ('b', 1),
        ('c', 2),
        ('d', 3),
        ('e', 4),
        ('f', 5),
        ('g', 6),
        ('h', 7),
    ] {
        assert_eq!(to_num(character), number);
        assert_eq!(to_let(number), character);
    }
}

#[test]
fn game_move_test_str_to_game_move() {
    assert_eq!(
        GameMove::from_str(&"e2e4"),
        GameMove {
            start: [1, 4],
            end: [3, 4],
            castle: None,
            promote: None,
            passant: None,
            capture: false,
        }
    );
}

#[test]
fn promotions_are_read_with_their_colour() {
    assert_eq!(
        GameMove::from_str(&"a7a8q").promote,
        Some(Pieces { piece_type: Queen, color: White })
    );
    assert_eq!(
        GameMove::from_str(&"d2d1n").promote,
        Some(Pieces { piece_type: Knight, color: Black })
    );
    assert_eq!(
        GameMove::from_str(&"d2d1k").promote,
        Some(Pieces { piece_type: Knight, color: Black })
    );
    assert_eq!(
        GameMove::from_str(&"h7h8r").promote,
        Some(Pieces { piece_type: Rook, color: White })
    );
    assert_eq!(
        GameMove::from_str(&"h2h1b").promote,
        Some(Pieces { piece_type: Bishop, color: Black })
    );
}

#[test]
fn castling_is_read_from_the_kings_move() {
    assert_eq!(GameMove::from_str(&"e1g1").castle, Some(CastleTypes::WhiteKing));
    assert_eq!(GameMove::from_str(&"e1c1").castle, Some(CastleTypes::WhiteQueen));
    assert_eq!(GameMove::from_str(&"e8g8").castle, Some(CastleTypes::BlackKing));
    assert_eq!(GameMove::from_str(&"e8c8").castle, Some(CastleTypes::BlackQueen));
    assert_eq!(GameMove::from_str(&"e1f1").castle, None);
}

#[test]
fn malformed_moves_are_rejected() {
    assert_eq!(GameMove::parse("e2"), Err(ChessError::MoveParseLengthError));
    assert_eq!(GameMove::parse("e2e4e5"), Err(ChessError::MoveParseLengthError));
    assert_eq!(GameMove::parse(""), Err(ChessError::MoveParseLengthError));
    assert_eq!(GameMove::parse("e2e9"), Err(ChessError::MoveParseAlphaNumError));
    assert_eq!(GameMove::parse("i2e4"), Err(ChessError::MoveParseAlphaNumError));
    assert_eq!(GameMove::parse("e2-4"), Err(ChessError::MoveParseAlphaNumError));
    assert_eq!(GameMove::parse("a7a8x"), Err(ChessError::MoveParseAlphaNumError));
    assert_eq!(GameMove::parse("e2e4"), Ok(GameMove::from_str(&"e2e4")));
}

#[test]
fn moves_are_written_as_they_are_read() {
    for text in ["e2e4", "a7a8q", "h2h1n", "e1g1", "b8c6", "d7d8r", "c2c1b"] {
        assert_eq!(GameMove::from_str(&text).to_string(), text);
    }
}

#[test]
fn moves_are_scored_by_what_they_do() {
    let quiet = GameMove::new([1, 4], [3, 4]);
    assert_eq!(quiet.score(), 0);
    let capture = GameMove { capture: true, ..quiet };
    assert_eq!(capture.score(), 3);
    let castle = GameMove { castle: Some(CastleTypes::WhiteKing), ..quiet };
    assert_eq!(castle.score(), 2);
    let promotion = GameMove { promote: Some(Pieces { piece_type: Queen, color: White }), ..quiet };
    assert_eq!(promotion.score(), 2);
    let capturing_promotion = GameMove { capture: true, ..promotion };
    assert_eq!(capturing_promotion.score(), 5);
    let passing = GameMove { passant: Some(PassantTypes::PassantCapture([4, 3])), ..quiet };
    assert_eq!(passing.score(), 15);
    let double = GameMove { passant: Some(PassantTypes::PassantAvailable([2, 4])), ..quiet };
    assert_eq!(double.score(), 0);
}

#[test]
fn moves_are_the_same_when_every_field_is() {
    let quiet = GameMove::new([1, 4], [3, 4]);
    assert!(quiet.same_as(&GameMove::from_str(&"e2e4")));
    assert!(!quiet.same_as(&GameMove { capture: true, ..quiet }));
    assert!(!quiet.same_as(&GameMove::new([1, 4], [2, 4])));
    let passing = GameMove { passant: Some(PassantTypes::PassantCapture([4, 3])), ..quiet };
    assert!(passing.same_as(&passing));
    assert!(!passing.same_as(&GameMove {
        passant: Some(PassantTypes::PassantAvailable([4, 3])),
        ..quiet
    }));
}
