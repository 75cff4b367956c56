use crate::utils::chess_errors::ChessError;
use crate::utils::pieces::{PieceColors, PieceTypes, Pieces};
use vstd::prelude::*;

verus! {

/// What a pawn move has to do with capturing in passing.
#[derive(Clone, Copy, Debug, PartialEq, Eq)]
pub enum PassantTypes {
    /// The move captures in passing; the square holds the pawn to remove.
    PassantCapture([usize; 2]),
    /// The move is a double step; the square is the one the pawn skipped.
    PassantAvailable([usize; 2]),
}

/// The four ways to castle: each player to the king's side and to the
/// queen's side.
#[derive(Clone, Copy, Debug, PartialEq, Eq, Structural)]
pub enum CastleTypes {
    WhiteKing,
    WhiteQueen,
    BlackKing,
    BlackQueen,
}

/// A move. Squares are `[row, column]` with row 0 the first rank and column
/// 0 the a-file.
#[derive(Clone, Copy, Debug, PartialEq, Eq)]
pub struct GameMove {
    pub start: [usize; 2],
    pub end: [usize; 2],
    pub castle: Option<CastleTypes>,
    pub promote: Option<Pieces>,
    pub passant: Option<PassantTypes>,
    pub capture: bool,
}

/// The letter of a column.
pub open spec fn spec_to_let(num: int) -> char {
    if num == 0 {
        'a'
    } else if num == 1 {
        'b'
    } else if num == 2 {
        'c'
    } else if num == 3 {
        'd'
    } else if num == 4 {
        'e'
    } else if num == 5 {
        'f'
    } else if num == 6 {
        'g'
    } else {
        'h'
    }
}

/// Whether a character names a column.
pub open spec fn is_file(letter: char) -> bool {
    letter == 'a' || letter == 'b' || letter == 'c' || letter == 'd' || letter == 'e' || letter
        == 'f' || letter == 'g' || letter == 'h'
}

/// The column that a letter names.
pub open spec fn spec_to_num(letter: char) -> int {
    if letter == 'a' {
        0
    } else if letter == 'b' {
        1
    } else if letter == 'c' {
        2
    } else if letter == 'd' {
        3
    } else if letter == 'e' {
        4
    } else if letter == 'f' {
        5
    } else if letter == 'g' {
        6
    } else {
        7
    }
}

/// Whether a character names a row.
pub open spec fn is_rank(digit: char) -> bool {
    digit == '1' || digit == '2' || digit == '3' || digit == '4' || digit == '5' || digit == '6'
        || digit == '7' || digit == '8'
}

/// The row that a digit names.
pub open spec fn spec_rank(digit: char) -> int {
    if digit == '1' {
        0
    } else if digit == '2' {
        1
    } else if digit == '3' {
        2
    } else if digit == '4' {
        3
    } else if digit == '5' {
        4
    } else if digit == '6' {
        5
    } else if digit == '7' {
        6
    } else {
        7
    }
}

/// The digit of a row.
pub open spec fn spec_rank_char(row: int) -> char {
    if row == 0 {
        '1'
    } else if row == 1 {
        '2'
    } else if row == 2 {
        '3'
    } else if row == 3 {
        '4'
    } else if row == 4 {
        '5'
    } else if row == 5 {
        '6'
    } else if row == 6 {
        '7'
    } else {
        '8'
    }
}

/// The letter of a column.
pub fn to_let(num: usize) -> (letter: char)
    requires
        num < 8,
    ensures
        letter == spec_to_let(num as int),
        is_file(letter),
        spec_to_num(letter) == num,
{
    match num {
        0 => 'a',
        1 => 'b',
        2 => 'c',
        3 => 'd',
        4 => 'e',
        5 => 'f',
        6 => 'g',
        _ => 'h',
    }
}

/// The column that a letter names.
pub fn to_num(letter: char) -> (num: usize)
    requires
        is_file(letter),
    ensures
        num == spec_to_num(letter),
        num < 8,
        spec_to_let(num as int) == letter,
{
    match letter {
        'a' => 0,
        'b' => 1,
        'c' => 2,
        'd' => 3,
        'e' => 4,
        'f' => 5,
        'g' => 6,
        _ => 7,
    }
}

/// The column a letter names, if it names one.
pub fn file_of(letter: char) -> (num: Option<usize>)
    ensures
        num is Some == is_file(letter),
        num is Some ==> num->0 == spec_to_num(letter),
{
    match letter {
        'a' => Some(0),
        'b' => Some(1),
        'c' => Some(2),
        'd' => Some(3),
        'e' => Some(4),
        'f' => Some(5),
        'g' => Some(6),
        'h' => Some(7),
        _ => None,
    }
}

/// The row a digit names, if it names one.
pub fn rank_of(digit: char) -> (num: Option<usize>)
    ensures
        num is Some == is_rank(digit),
        num is Some ==> num->0 == spec_rank(digit),
{
    match digit {
        '1' => Some(0),
        '2' => Some(1),
        '3' => Some(2),
        '4' => Some(3),
        '5' => Some(4),
        '6' => Some(5),
        '7' => Some(6),
        '8' => Some(7),
        _ => None,
    }
}

/// The kind of piece that a promotion letter asks for. A knight is written
/// `n`; `k` is read as a knight too.
pub open spec fn spec_promotion_kind(letter: char) -> Option<PieceTypes> {
    if letter == 'b' {
        Some(PieceTypes::Bishop)
    } else if letter == 'k' || letter == 'n' {
        Some(PieceTypes::Knight)
    } else if letter == 'r' {
        Some(PieceTypes::Rook)
    } else if letter == 'q' {
        Some(PieceTypes::Queen)
    } else {
        None
    }
}

/// The lower-case letter of a kind of piece, as it ends a promotion.
pub open spec fn spec_kind_letter(kind: PieceTypes) -> char {
    match kind {
        PieceTypes::Knight => 'n',
        PieceTypes::Rook => 'r',
        PieceTypes::Bishop => 'b',
        PieceTypes::Queen => 'q',
        PieceTypes::King => 'k',
        PieceTypes::Pawn => 'p',
        PieceTypes::Empty => ' ',
    }
}

/// The digit of a row.
pub fn rank_char(row: usize) -> (digit: char)
    requires
        row < 8,
    ensures
        digit == spec_rank_char(row as int),
        is_rank(digit),
        spec_rank(digit) == row,
{
    match row {
        0 => '1',
        1 => '2',
        2 => '3',
        3 => '4',
        4 => '5',
        5 => '6',
        6 => '7',
        _ => '8',
    }
}

/// The lower-case letter of a kind of piece.
pub fn kind_letter(kind: PieceTypes) -> (letter: char)
    ensures
        letter == spec_kind_letter(kind),
{
    match kind {
        PieceTypes::Knight => 'n',
        PieceTypes::Rook => 'r',
        PieceTypes::Bishop => 'b',
        PieceTypes::Queen => 'q',
        PieceTypes::King => 'k',
        PieceTypes::Pawn => 'p',
        PieceTypes::Empty => ' ',
    }
}

/// The kind of piece that a promotion letter asks for.
pub fn promotion_kind(letter: char) -> (kind: Option<PieceTypes>)
    ensures
        kind == spec_promotion_kind(letter),
{
    match letter {
        'b' => Some(PieceTypes::Bishop),
        'k' => Some(PieceTypes::Knight),
        'n' => Some(PieceTypes::Knight),
        'r' => Some(PieceTypes::Rook),
        'q' => Some(PieceTypes::Queen),
        _ => None,
    }
}

/// Whether a text has the shape of a move: two squares of the board, and
/// after them nothing or the letter of a promotion.
pub open spec fn is_move_text(text: Seq<char>) -> bool {
    &&& 4 <= text.len() <= 5
    &&& is_file(text[0])
    &&& is_rank(text[1])
    &&& is_file(text[2])
    &&& is_rank(text[3])
    &&& text.len() == 5 ==> spec_promotion_kind(text[4]) is Some
}

/// The castling that a king's two-square move stands for.
pub open spec fn spec_castle_of(text: Seq<char>) -> Option<CastleTypes> {
    if text.len() != 4 || text[0] != 'e' {
        None
    } else if text[1] == '1' && text[2] == 'g' && text[3] == '1' {
        Some(CastleTypes::WhiteKing)
    } else if text[1] == '1' && text[2] == 'c' && text[3] == '1' {
        Some(CastleTypes::WhiteQueen)
    } else if text[1] == '8' && text[2] == 'g' && text[3] == '8' {
        Some(CastleTypes::BlackKing)
    } else if text[1] == '8' && text[2] == 'c' && text[3] == '8' {
        Some(CastleTypes::BlackQueen)
    } else {
        None
    }
}

/// The piece a move text promotes to: the kind its fifth character names, of
/// the colour whose pawns promote on the row of the fourth.
pub open spec fn spec_promote_of(text: Seq<char>) -> Option<Pieces> {
    if text.len() != 5 {
        None
    } else {
        match spec_promotion_kind(text[4]) {
            Some(kind) => Some(
                Pieces {
                    piece_type: kind,
                    color: if text[3] == '8' {
                        PieceColors::White
                    } else {
                        PieceColors::Black
                    },
                },
            ),
            None => None,
        }
    }
}

/// Whether `m` is what the move text `text` says.
pub open spec fn is_parse_of(m: GameMove, text: Seq<char>) -> bool {
    &&& m.start[0] == spec_rank(text[1])
    &&& m.start[1] == spec_to_num(text[0])
    &&& m.end[0] == spec_rank(text[3])
    &&& m.end[1] == spec_to_num(text[2])
    &&& m.castle == spec_castle_of(text)
    &&& m.promote == spec_promote_of(text)
    &&& m.passant is None
    &&& !m.capture
}

/// The text of a move: its two squares, and the letter of the piece it
/// promotes to.
pub open spec fn spec_move_text(m: GameMove) -> Seq<char> {
    let squares = seq![
        spec_to_let(m.start[1] as int),
        spec_rank_char(m.start[0] as int),
        spec_to_let(m.end[1] as int),
        spec_rank_char(m.end[0] as int),
    ];
    match m.promote {
        Some(piece) => squares.push(spec_kind_letter(piece.piece_type)),
        None => squares,
    }
}

/// The text of a move that goes between squares of the board, and promotes
/// to a queen, rook, bishop or knight if it promotes, reads as a move between
/// the same squares that promotes to the same kind of piece.
pub proof fn lemma_move_text_round_trip(m: GameMove, read: GameMove)
    requires
        m.start[0] < 8,
        m.start[1] < 8,
        m.end[0] < 8,
        m.end[1] < 8,
        m.promote matches Some(piece) ==> piece.piece_type == PieceTypes::Queen || piece.piece_type
            == PieceTypes::Rook || piece.piece_type == PieceTypes::Bishop || piece.piece_type
            == PieceTypes::Knight,
        is_parse_of(read, spec_move_text(m)),
    ensures
        is_move_text(spec_move_text(m)),
        read.start[0] == m.start[0],
        read.start[1] == m.start[1],
        read.end[0] == m.end[0],
        read.end[1] == m.end[1],
        read.promote is Some == m.promote is Some,
        read.promote matches Some(piece) ==> piece.piece_type == m.promote->0.piece_type,
{
}

/// Two moves are the same move when all their fields agree.
pub proof fn lemma_move_eq(a: GameMove, b: GameMove)
    requires
        a.start[0] == b.start[0],
        a.start[1] == b.start[1],
        a.end[0] == b.end[0],
        a.end[1] == b.end[1],
        a.castle == b.castle,
        a.promote == b.promote,
        a.capture == b.capture,
        a.passant is None <==> b.passant is None,
        a.passant matches Some(PassantTypes::PassantCapture(x)) ==> b.passant matches Some(
            PassantTypes::PassantCapture(y),
        ) && x[0] == y[0] && x[1] == y[1],
        a.passant matches Some(PassantTypes::PassantAvailable(x)) ==> b.passant matches Some(
            PassantTypes::PassantAvailable(y),
        ) && x[0] == y[0] && x[1] == y[1],
    ensures
        a == b,
{
    assert(a.start =~= b.start);
    assert(a.end =~= b.end);
    match (a.passant, b.passant) {
        (Some(PassantTypes::PassantCapture(x)), Some(PassantTypes::PassantCapture(y))) => {
            assert(x =~= y);
        },
        (Some(PassantTypes::PassantAvailable(x)), Some(PassantTypes::PassantAvailable(y))) => {
            assert(x =~= y);
        },
        _ => {},
    }
}

fn same_square(a: &[usize; 2], b: &[usize; 2]) -> (same: bool)
    ensures
        same == (*a == *b),
{
    let same = a[0] == b[0] && a[1] == b[1];
    proof {
        if same {
            assert(*a =~= *b);
        }
    }
    same
}

fn same_option<T: Copy>(a: &Option<T>, b: &Option<T>) -> (both: bool)
    ensures
        both == (a is Some == b is Some),
{
    match (a, b) {
        (Some(_), Some(_)) => true,
        (None, None) => true,
        _ => false,
    }
}

impl PassantTypes {
    /// Whether two values are the same, square included.
    pub fn same_as(&self, other: &PassantTypes) -> (same: bool)
        ensures
            same == (*self == *other),
    {
        match (self, other) {
            (PassantTypes::PassantCapture(x), PassantTypes::PassantCapture(y)) => same_square(
                x,
                y,
            ),
            (PassantTypes::PassantAvailable(x), PassantTypes::PassantAvailable(y)) => same_square(
                x,
                y,
            ),
            _ => false,
        }
    }
}

impl GameMove {
    /// The move from `start` to `end` that does nothing else.
    pub fn new(start: [usize; 2], end: [usize; 2]) -> (m: GameMove)
        ensures
            m.start == start,
            m.end == end,
            m.castle is None,
            m.promote is None,
            m.passant is None,
            !m.capture,
    {
        GameMove { start, end, castle: None, promote: None, passant: None, capture: false }
    }

    /// Whether two moves are the same in every field.
    pub fn same_as(&self, other: &GameMove) -> (same: bool)
        ensures
            same == (*self == *other),
    {
        let castle = match (self.castle, other.castle) {
            (Some(a), Some(b)) => a == b,
            (None, None) => true,
            _ => false,
        };
        let promote = match (self.promote, other.promote) {
            (Some(a), Some(b)) => a == b,
            (None, None) => true,
            _ => false,
        };
        let passant = match (self.passant, other.passant) {
            (Some(a), Some(b)) => a.same_as(&b),
            (None, None) => true,
            _ => false,
        };
        same_square(&self.start, &other.start) && same_square(&self.end, &other.end) && castle
            && promote && passant && self.capture == other.capture
    }

    /// How early the move is tried in a search: captures in passing first,
    /// then captures, then castling and promotions.
    pub open spec fn spec_score(self) -> int {
        (if self.castle is Some {
            2int
        } else {
            0int
        }) + (if self.capture {
            3int
        } else {
            0int
        }) + (if self.promote is Some {
            2int
        } else {
            0int
        }) + (if self.passant matches Some(PassantTypes::PassantCapture(_)) {
            15int
        } else {
            0int
        })
    }

    /// Whether this move is tried before `other` for its score.
    pub fn outranks(&self, other: &GameMove) -> (first: bool)
        ensures
            first == (self.spec_score() > other.spec_score()),
    {
        self.score() > other.score()
    }

    /// The score by which moves are ordered for the search.
    pub fn score(&self) -> (points: u8)
        ensures
            points == self.spec_score(),
            points <= MAX_SCORE,
    {
        let mut points: u8 = 0;
        if self.castle.is_some() {
            points += 2;
        }
        if self.capture {
            points += 3;
        }
        if self.promote.is_some() {
            points += 2;
        }
        match self.passant {
            Some(PassantTypes::PassantCapture(_)) => {
                points += 15;
            },
            _ => {},
        }
        points
    }

    /// Reads a move of the shape `e2e4` or `a7a8q`. Only the squares, the
    /// promotion and castling are in the text: the result captures nothing.
    pub fn from_str(input: &&str) -> (m: GameMove)
        requires
            is_move_text(input@),
        ensures
            is_parse_of(m, input@),
    {
        let text: &str = *input;
        let length: usize = text.unicode_len();
        let c0: char = text.get_char(0);
        let c1: char = text.get_char(1);
        let c2: char = text.get_char(2);
        let c3: char = text.get_char(3);
        let start: [usize; 2] = [rank_index(c1), to_num(c0)];
        let end: [usize; 2] = [rank_index(c3), to_num(c2)];
        let promote: Option<Pieces> = if length == 5 {
            let color: PieceColors = if c3 == '8' {
                PieceColors::White
            } else {
                PieceColors::Black
            };
            match promotion_kind(text.get_char(4)) {
                Some(kind) => Some(Pieces { piece_type: kind, color }),
                None => None,
            }
        } else {
            None
        };
        let castle: Option<CastleTypes> = if length != 4 || c0 != 'e' {
            None
        } else if c1 == '1' && c2 == 'g' && c3 == '1' {
            Some(CastleTypes::WhiteKing)
        } else if c1 == '1' && c2 == 'c' && c3 == '1' {
            Some(CastleTypes::WhiteQueen)
        } else if c1 == '8' && c2 == 'g' && c3 == '8' {
            Some(CastleTypes::BlackKing)
        } else if c1 == '8' && c2 == 'c' && c3 == '8' {
            Some(CastleTypes::BlackQueen)
        } else {
            None
        };
        GameMove { start, end, castle, promote, passant: None, capture: false }
    }

    /// Reads a move, or says what is wrong with the text.
    pub fn parse(input: &str) -> (r: Result<GameMove, ChessError>)
        ensures
            r matches Ok(m) ==> is_move_text(input@) && is_parse_of(m, input@),
            r matches Err(e) ==> e == (if input@.len() != 4 && input@.len() != 5 {
                ChessError::MoveParseLengthError
            } else {
                ChessError::MoveParseAlphaNumError
            }),
            r is Ok <==> is_move_text(input@),
    {
        let length: usize = input.unicode_len();
        if length != 4 && length != 5 {
            return Err(ChessError::MoveParseLengthError);
        }
        if file_of(input.get_char(0)).is_none() || rank_of(input.get_char(1)).is_none() || file_of(
            input.get_char(2),
        ).is_none() || rank_of(input.get_char(3)).is_none() {
            return Err(ChessError::MoveParseAlphaNumError);
        }
        if length == 5 && promotion_kind(input.get_char(4)).is_none() {
            return Err(ChessError::MoveParseAlphaNumError);
        }
        Ok(GameMove::from_str(&input))
    }

    /// The characters of the move as text.
    pub fn to_chars(&self) -> (text: Vec<char>)
        requires
            self.start[0] < 8,
            self.start[1] < 8,
            self.end[0] < 8,
            self.end[1] < 8,
        ensures
            text@ == spec_move_text(*self),
    {
        let mut text: Vec<char> = Vec::new();
        text.push(to_let(self.start[1]));
        text.push(rank_char(self.start[0]));
        text.push(to_let(self.end[1]));
        text.push(rank_char(self.end[0]));
        match self.promote {
            Some(piece) => {
                text.push(kind_letter(piece.piece_type));
            },
            None => {},
        }
        proof {
            assert(text@ =~= spec_move_text(*self));
        }
        text
    }

    /// The move as text, `e2e4` or `a7a8q`.
    pub fn to_string(&self) -> (text: String)
        requires
            self.start[0] < 8,
            self.start[1] < 8,
            self.end[0] < 8,
            self.end[1] < 8,
        ensures
            text@ == spec_move_text(*self),
    {
        let mut text: String = String::from_str(file_text(self.start[1]));
        text.append(rank_text(self.start[0]));
        text.append(file_text(self.end[1]));
        text.append(rank_text(self.end[0]));
        match self.promote {
            Some(piece) => {
                text.append(kind_text(piece.piece_type));
            },
            None => {},
        }
        proof {
            assert(text@ =~= spec_move_text(*self));
        }
        text
    }
}

/// The largest score a move can have.
pub const MAX_SCORE: u8 = 22;

/// The row that a digit names.
pub fn rank_index(digit: char) -> (num: usize)
    requires
        is_rank(digit),
    ensures
        num == spec_rank(digit),
        num < 8,
{
    match digit {
        '1' => 0,
        '2' => 1,
        '3' => 2,
        '4' => 3,
        '5' => 4,
        '6' => 5,
        '7' => 6,
        _ => 7,
    }
}

/// The letter of a column, as text.
pub fn file_text(num: usize) -> (text: &'static str)
    requires
        num < 8,
    ensures
        text@ == seq![spec_to_let(num as int)],
{
    proof {
        reveal_strlit("a");
        reveal_strlit("b");
        reveal_strlit("c");
        reveal_strlit("d");
        reveal_strlit("e");
        reveal_strlit("f");
        reveal_strlit("g");
        reveal_strlit("h");
    }
    let text: &'static str = match num {
        0 => "a",
        1 => "b",
        2 => "c",
        3 => "d",
        4 => "e",
        5 => "f",
        6 => "g",
        _ => "h",
    };
    assert(text@ =~= seq![spec_to_let(num as int)]);
    text
}

/// The digit of a row, as text.
pub fn rank_text(row: usize) -> (text: &'static str)
    requires
        row < 8,
    ensures
        text@ == seq![spec_rank_char(row as int)],
{
    proof {
        reveal_strlit("1");
        reveal_strlit("2");
        reveal_strlit("3");
        reveal_strlit("4");
        reveal_strlit("5");
        reveal_strlit("6");
        reveal_strlit("7");
        reveal_strlit("8");
    }
    let text: &'static str = match row {
        0 => "1",
        1 => "2",
        2 => "3",
        3 => "4",
        4 => "5",
        5 => "6",
        6 => "7",
        _ => "8",
    };
    assert(text@ =~= seq![spec_rank_char(row as int)]);
    text
}

/// The lower-case letter of a kind of piece, as text.
pub fn kind_text(kind: PieceTypes) -> (text: &'static str)
    ensures
        text@ == seq![spec_kind_letter(kind)],
{
    proof {
        reveal_strlit("n");
        reveal_strlit("r");
        reveal_strlit("b");
        reveal_strlit("q");
        reveal_strlit("k");
        reveal_strlit("p");
        reveal_strlit(" ");
    }
    let text: &'static str = match kind {
        PieceTypes::Knight => "n",
        PieceTypes::Rook => "r",
        PieceTypes::Bishop => "b",
        PieceTypes::Queen => "q",
        PieceTypes::King => "k",
        PieceTypes::Pawn => "p",
        PieceTypes::Empty => " ",
    };
    assert(text@ =~= seq![spec_kind_letter(kind)]);
    text
}

} // verus!
