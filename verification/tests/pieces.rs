use rustyai::utils::castling::CastleRights;
use rustyai::utils::chess_errors::ChessError;
use rustyai::utils::pieces::PieceColors::{Black, Empty, White};
use rustyai::utils::pieces::PieceTypes;
use rustyai::utils::pieces::{player_color, Pieces, BLACK, WHITE};

#[test]
fn letters_are_pieces() {
    let letters = [
        ('r', PieceTypes::Rook),
        ('n', PieceTypes::Knight),
        ('b', PieceTypes::Bishop),
        ('q', PieceTypes::Queen),
        ('k', PieceTypes::King),
        ('p', PieceTypes::Pawn),
    ];
    for (letter, piece_type) in letters {
        assert_eq!(Pieces::from(&letter), Pieces { piece_type, color: Black });
        assert_eq!(
            Pieces::from(&letter.to_ascii_uppercase()),
            Pieces { piece_type, color: White }
        );
        assert_eq!(Pieces { piece_type, color: Black }.to_char(), letter);
        assert_eq!(Pieces { piece_type, color: White }.to_char(), letter.to_ascii_uppercase());
    }
    let nothing = Pieces { piece_type: PieceTypes::Empty, color: Empty };
    assert_eq!(Pieces::from(&'x'), nothing);
    assert_eq!(Pieces::from(&'1'), nothing);
    assert_eq!(Pieces::from(&' '), nothing);
    assert_eq!(nothing.to_char(), ' ');
}

#[test]
fn black_pieces_are_black() {
    assert!(Pieces::from(&'q').get_color());
    assert!(!Pieces::from(&'Q').get_color());
    assert!(!Pieces::from(&'.').get_color());
    assert_eq!(player_color(BLACK), Black);
    assert_eq!(player_color(WHITE), White);
    assert!(Pieces::from(&'K').is_piece(PieceTypes::King, WHITE));
    assert!(!Pieces::from(&'K').is_piece(PieceTypes::King, BLACK));
    assert!(!Pieces::from(&'K').is_piece(PieceTypes::Queen, WHITE));
}

#[test]
fn rights_are_listed_white_first() {
    let rights = CastleRights {
        white_king: true,
        white_queen: false,
        black_king: false,
        black_queen: true,
    };
    assert_eq!(rights.as_array(), [true, false, false, true]);
}

#[test]
fn errors_have_their_messages() {
    assert_eq!(ChessError::MoveParseAlphaNumError.message(), "Move given is not valid");
    assert_eq!(ChessError::MoveParseLengthError.message(), "Move given is not correct length");
    assert_eq!(ChessError::FENParseError.message(), "Position given is not valid");
}
