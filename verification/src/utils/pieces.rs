use vstd::prelude::*;

verus! {

/// The player with the white pieces, as a `bool`.
pub const WHITE: bool = false;

/// The player with the black pieces, as a `bool`.
pub const BLACK: bool = true;

/// The kinds of pieces, and `Empty` for a square without one.
#[derive(Clone, Copy, Debug, Hash, PartialEq, Eq, Structural)]
pub enum PieceTypes {
    Knight,
    Rook,
    Bishop,
    Queen,
    King,
    Pawn,
    Empty,
}

/// The colours of pieces, and `Empty` for a square without one.
#[derive(Clone, Copy, Debug, Hash, PartialEq, Eq, Structural)]
pub enum PieceColors {
    Black,
    White,
    Empty,
}

/// What stands on a square: a piece of one colour, or nothing.
#[derive(Clone, Copy, Debug, Hash, PartialEq, Eq, Structural)]
pub struct Pieces {
    pub piece_type: PieceTypes,
    pub color: PieceColors,
}

/// The colour of a player's pieces.
pub open spec fn color_of(player: bool) -> PieceColors {
    if player == BLACK {
        PieceColors::Black
    } else {
        PieceColors::White
    }
}

/// The colour of a player's pieces.
pub fn player_color(player: bool) -> (color: PieceColors)
    ensures
        color == color_of(player),
{
    if player {
        PieceColors::Black
    } else {
        PieceColors::White
    }
}

impl Pieces {
    /// The content of an empty square.
    pub open spec fn empty() -> Pieces {
        Pieces { piece_type: PieceTypes::Empty, color: PieceColors::Empty }
    }

    /// A piece of the given kind that belongs to `player`.
    pub open spec fn of(piece_type: PieceTypes, player: bool) -> Pieces {
        Pieces { piece_type, color: color_of(player) }
    }

    /// A square either is empty and has no colour, or holds a piece that has
    /// one.
    pub open spec fn is_valid(self) -> bool {
        (self.piece_type == PieceTypes::Empty) == (self.color == PieceColors::Empty)
    }

    /// Whether the square holds no piece.
    pub open spec fn is_empty(self) -> bool {
        self.piece_type == PieceTypes::Empty
    }

    /// The piece that a letter of a position string stands for: upper case
    /// for White, lower case for Black, the empty square for anything else.
    pub open spec fn spec_from(piece: char) -> Pieces {
        if piece == 'r' {
            Pieces { piece_type: PieceTypes::Rook, color: PieceColors::Black }
        } else if piece == 'n' {
            Pieces { piece_type: PieceTypes::Knight, color: PieceColors::Black }
        } else if piece == 'b' {
            Pieces { piece_type: PieceTypes::Bishop, color: PieceColors::Black }
        } else if piece == 'q' {
            Pieces { piece_type: PieceTypes::Queen, color: PieceColors::Black }
        } else if piece == 'k' {
            Pieces { piece_type: PieceTypes::King, color: PieceColors::Black }
        } else if piece == 'p' {
            Pieces { piece_type: PieceTypes::Pawn, color: PieceColors::Black }
        } else if piece == 'R' {
            Pieces { piece_type: PieceTypes::Rook, color: PieceColors::White }
        } else if piece == 'N' {
            Pieces { piece_type: PieceTypes::Knight, color: PieceColors::White }
        } else if piece == 'B' {
            Pieces { piece_type: PieceTypes::Bishop, color: PieceColors::White }
        } else if piece == 'Q' {
            Pieces { piece_type: PieceTypes::Queen, color: PieceColors::White }
        } else if piece == 'K' {
            Pieces { piece_type: PieceTypes::King, color: PieceColors::White }
        } else if piece == 'P' {
            Pieces { piece_type: PieceTypes::Pawn, color: PieceColors::White }
        } else {
            Pieces::empty()
        }
    }

    /// The letter that stands for a piece, a blank for the empty square.
    pub open spec fn spec_to_char(self) -> char {
        match (self.piece_type, self.color) {
            (PieceTypes::Rook, PieceColors::Black) => 'r',
            (PieceTypes::Knight, PieceColors::Black) => 'n',
            (PieceTypes::Bishop, PieceColors::Black) => 'b',
            (PieceTypes::Queen, PieceColors::Black) => 'q',
            (PieceTypes::King, PieceColors::Black) => 'k',
            (PieceTypes::Pawn, PieceColors::Black) => 'p',
            (PieceTypes::Rook, PieceColors::White) => 'R',
            (PieceTypes::Knight, PieceColors::White) => 'N',
            (PieceTypes::Bishop, PieceColors::White) => 'B',
            (PieceTypes::Queen, PieceColors::White) => 'Q',
            (PieceTypes::King, PieceColors::White) => 'K',
            (PieceTypes::Pawn, PieceColors::White) => 'P',
            _ => ' ',
        }
    }

    /// The piece that a letter stands for.
    pub fn from(piece: &char) -> (p: Pieces)
        ensures
            p == Pieces::spec_from(*piece),
            p.is_valid(),
    {
        match *piece {
            'r' => Pieces { piece_type: PieceTypes::Rook, color: PieceColors::Black },
            'n' => Pieces { piece_type: PieceTypes::Knight, color: PieceColors::Black },
            'b' => Pieces { piece_type: PieceTypes::Bishop, color: PieceColors::Black },
            'q' => Pieces { piece_type: PieceTypes::Queen, color: PieceColors::Black },
            'k' => Pieces { piece_type: PieceTypes::King, color: PieceColors::Black },
            'p' => Pieces { piece_type: PieceTypes::Pawn, color: PieceColors::Black },
            'R' => Pieces { piece_type: PieceTypes::Rook, color: PieceColors::White },
            'N' => Pieces { piece_type: PieceTypes::Knight, color: PieceColors::White },
            'B' => Pieces { piece_type: PieceTypes::Bishop, color: PieceColors::White },
            'Q' => Pieces { piece_type: PieceTypes::Queen, color: PieceColors::White },
            'K' => Pieces { piece_type: PieceTypes::King, color: PieceColors::White },
            'P' => Pieces { piece_type: PieceTypes::Pawn, color: PieceColors::White },
            _ => Pieces { piece_type: PieceTypes::Empty, color: PieceColors::Empty },
        }
    }

    /// `BLACK` for a black piece, `WHITE` for a white piece and for the empty
    /// square.
    pub fn get_color(&self) -> (player: bool)
        ensures
            player == (self.color == PieceColors::Black),
    {
        match self.color {
            PieceColors::Black => true,
            PieceColors::White => false,
            PieceColors::Empty => false,
        }
    }

    /// The letter that stands for the piece.
    pub fn to_char(&self) -> (letter: char)
        ensures
            letter == self.spec_to_char(),
    {
        match (self.piece_type, self.color) {
            (PieceTypes::Rook, PieceColors::Black) => 'r',
            (PieceTypes::Knight, PieceColors::Black) => 'n',
            (PieceTypes::Bishop, PieceColors::Black) => 'b',
            (PieceTypes::Queen, PieceColors::Black) => 'q',
            (PieceTypes::King, PieceColors::Black) => 'k',
            (PieceTypes::Pawn, PieceColors::Black) => 'p',
            (PieceTypes::Rook, PieceColors::White) => 'R',
            (PieceTypes::Knight, PieceColors::White) => 'N',
            (PieceTypes::Bishop, PieceColors::White) => 'B',
            (PieceTypes::Queen, PieceColors::White) => 'Q',
            (PieceTypes::King, PieceColors::White) => 'K',
            (PieceTypes::Pawn, PieceColors::White) => 'P',
            _ => ' ',
        }
    }

    /// Whether this is the piece of kind `piece_type` that belongs to
    /// `player`.
    pub fn is_piece(&self, piece_type: PieceTypes, player: bool) -> (same: bool)
        ensures
            same == (*self == Pieces::of(piece_type, player)),
    {
        self.piece_type == piece_type && self.color == player_color(player)
    }
}

/// Reading a piece's letter gives the piece back.
pub proof fn lemma_letter_round_trip(p: Pieces)
    requires
        p.is_valid(),
    ensures
        Pieces::spec_from(p.spec_to_char()) == p,
{
}

} // verus!
