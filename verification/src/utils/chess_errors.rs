use vstd::prelude::*;

verus! {

/// What can be wrong with text handed to the engine.
#[derive(Clone, Copy, Debug, PartialEq, Eq, Structural)]
pub enum ChessError {
    /// A move string holds a character that is neither a letter nor a digit,
    /// or its squares are not squares of the board.
    MoveParseAlphaNumError,
    /// A move string is neither four nor five characters long.
    MoveParseLengthError,
    /// A position string is not a well-formed, playable position.
    FENParseError,
}

impl ChessError {
    /// The message shown to the user for this error.
    pub fn message(&self) -> (text: String)
        ensures
            text@ == match *self {
                ChessError::MoveParseAlphaNumError => "Move given is not valid"@,
                ChessError::MoveParseLengthError => "Move given is not correct length"@,
                ChessError::FENParseError => "Position given is not valid"@,
            },
    {
        match self {
            ChessError::MoveParseAlphaNumError => String::from_str("Move given is not valid"),
            ChessError::MoveParseLengthError => String::from_str(
                "Move given is not correct length",
            ),
            ChessError::FENParseError => String::from_str("Position given is not valid"),
        }
    }
}

} // verus!
