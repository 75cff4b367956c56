use rustyai::utils::chess_errors::ChessError;
use rustyai::utils::game_move::CastleTypes;
use rustyai::utils::gamemove1d::{to_num, to_str, GameMove1d, Position};
use rustyai::utils::pieces::PieceColors::{Black, White};
use rustyai::utils::pieces::PieceTypes::{Knight, Queen};
use rustyai::utils::pieces::Pieces;

#[test]
fn test_str_to_pos() {
    assert_eq!(to_num("a1"), 21);
    assert_eq!(to_num("h8"), 98);
    assert_eq!(to_num("e7"), 85);
}

#[test]
fn test_pos_to_str() {
    assert_eq!(to_str(22), "b1");
    assert_eq!(to_str(84), "d7");
    assert_eq!(to_str(98), "h8");
}

#[test]
fn gamemove1d_test_str_to_game_move() {
    assert_eq!(
        GameMove1d::from_str(&"e2e4").unwrap(),
        GameMove1d {
            start: Position { value: 35 },
            end: Position { value: 55 },
            castle: None,
            promote: None,
            passant: None,
            capture: false,
        }
    );
    assert_eq!(
        GameMove1d::from_str(&"a7a8q").unwrap(),
        GameMove1d {
            start: Position { value: 81 },
            end: Position { value: 91 },
            castle: None,
            promote: Some(Pieces {
                piece_type: Queen,
                color: White
            }),
            passant: None,
            capture: false,
        }
    );
    assert_eq!(
        GameMove1d::from_str(&"d2d1k").unwrap(),
        GameMove1d {
            start: Position { value: 34 },
            end: Position { value: 24 },
            castle: None,
            promote: Some(Pieces {
                piece_type: Knight,
                color: Black
            }),
            passant: None,
            capture: false,
        }
    )
}

#[test]
fn numbered_moves_with_the_wrong_length_are_rejected() {
    assert_eq!(GameMove1d::from_str("e2e"), Err(ChessError::MoveParseLengthError));
    assert_eq!(GameMove1d::from_str("e2e4qq"), Err(ChessError::MoveParseLengthError));
}

#[test]
fn numbered_moves_that_name_no_squares_are_rejected() {
    assert_eq!(GameMove1d::from_str("e2 e4"), Err(ChessError::MoveParseAlphaNumError));
    assert_eq!(GameMove1d::from_str("z9z9"), Err(ChessError::MoveParseAlphaNumError));
    assert_eq!(GameMove1d::from_str("e2e4!"), Err(ChessError::MoveParseAlphaNumError));
}

#[test]
fn numbered_moves_know_castling() {
    assert_eq!(GameMove1d::from_str("e8c8").unwrap().castle, Some(CastleTypes::BlackQueen));
    assert_eq!(GameMove1d::from_str("e1g1").unwrap().castle, Some(CastleTypes::WhiteKing));
}

#[test]
fn numbered_moves_are_written_as_they_are_read() {
    for text in ["e2e4", "a7a8q", "h2h1n", "e1g1"] {
        assert_eq!(GameMove1d::from_str(text).unwrap().to_string(), text);
    }
}

#[test]
fn numbered_squares_are_rows_and_columns() {
    assert_eq!(Position { value: 21 }.to_square(), [0, 0]);
    assert_eq!(Position { value: 98 }.to_square(), [7, 7]);
    assert_eq!(Position { value: 85 }.to_square(), [6, 4]);
    assert_eq!(Position::from_square(&[6, 4]), Position { value: 85 });
    let m = GameMove1d::from_str("e2e4").unwrap().to_game_move();
    assert_eq!(m.start, [1, 4]);
    assert_eq!(m.end, [3, 4]);
}
