use crate::board_structs::board::Board;
use crate::board_structs::board_types::array2d::{empty_piece, set_square, Array2D};
use crate::board_structs::geometry::{grid_view, on_board, squares_ok, AttackMap, Grid, Squares};
use crate::board_structs::position::{put, PositionView};
use crate::utils::castling::CastleRights;
use crate::utils::chess_errors::ChessError;
use crate::utils::game_move::{file_of, is_file, is_rank, rank_of, spec_rank, spec_to_num};
use crate::utils::pieces::{player_color, PieceTypes, Pieces, BLACK, WHITE};
use vstd::prelude::*;

verus! {

/// The position from which a game starts.
pub const START_POSITION: &'static str = "rnbqkbnr/pppppppp/8/8/8/8/PPPPPPPP/RNBQKBNR w KQkq - 0 1";

/// Whether a character separates the fields of a position text.
pub open spec fn is_space(c: char) -> bool {
    c == ' ' || c == '\t' || c == '\n' || c == '\r' || c == '\u{c}'
}

/// The word in `word`, if there is one, as a list of fields.
pub open spec fn closed_word(word: Seq<char>) -> Seq<Seq<char>> {
    if word.len() > 0 {
        seq![word]
    } else {
        Seq::empty()
    }
}

/// The fields of `text` from its character `i` on, when `word` holds the
/// characters of the field that has been begun.
pub open spec fn fields_from(text: Seq<char>, i: int, word: Seq<char>) -> Seq<Seq<char>>
    decreases text.len() - i,
{
    if i < 0 || i >= text.len() {
        closed_word(word)
    } else if is_space(text[i]) {
        closed_word(word) + fields_from(text, i + 1, Seq::empty())
    } else {
        fields_from(text, i + 1, word.push(text[i]))
    }
}

/// The fields of a text: its longest runs of characters that are not space.
pub open spec fn split_fields(text: Seq<char>) -> Seq<Seq<char>> {
    fields_from(text, 0, Seq::empty())
}

/// Whether a word is a field: not empty, and without a space in it.
pub open spec fn is_field(word: Seq<char>) -> bool {
    word.len() > 0 && forall|k: int| 0 <= k < word.len() ==> !is_space(#[trigger] word[k])
}

/// The fields of a text are fields: none of them is empty, and none holds a
/// space.
pub proof fn lemma_fields_are_fields(text: Seq<char>, i: int, word: Seq<char>)
    requires
        0 <= i,
        word.len() == 0 || is_field(word),
    ensures
        forall|k: int|
            0 <= k < fields_from(text, i, word).len() ==> is_field(
                #[trigger] fields_from(text, i, word)[k],
            ),
    decreases text.len() - i,
{
    let all = fields_from(text, i, word);
    if i < text.len() {
        if is_space(text[i]) {
            let rest = fields_from(text, i + 1, Seq::empty());
            lemma_fields_are_fields(text, i + 1, Seq::empty());
            assert forall|k: int| 0 <= k < all.len() implies is_field(#[trigger] all[k]) by {
                if k < closed_word(word).len() {
                    assert(all[k] == word);
                } else {
                    assert(all[k] == rest[k - closed_word(word).len()]);
                }
            }
        } else {
            let longer = word.push(text[i]);
            assert forall|k: int| 0 <= k < longer.len() implies !is_space(#[trigger] longer[k]) by {
                if k < word.len() {
                    assert(longer[k] == word[k]);
                }
            }
            assert(is_field(longer));
            lemma_fields_are_fields(text, i + 1, longer);
            assert(all == fields_from(text, i + 1, longer));
            assert forall|k: int| 0 <= k < all.len() implies is_field(#[trigger] all[k]) by {
                assert(all[k] == fields_from(text, i + 1, longer)[k]);
            }
        }
    } else {
        assert(all == closed_word(word));
        assert forall|k: int| 0 <= k < all.len() implies is_field(#[trigger] all[k]) by {
            assert(all[k] == word);
        }
    }
}

/// The fields that a list of words holds.
pub open spec fn words_view(words: Seq<Vec<char>>) -> Seq<Seq<char>> {
    Seq::new(words.len(), |i: int| words[i]@)
}

fn is_space_char(c: char) -> (space: bool)
    ensures
        space == is_space(c),
{
    c == ' ' || c == '\t' || c == '\n' || c == '\r' || c == '\u{c}'
}

/// Splits a text into its fields.
pub fn split_text(text: &str) -> (words: Vec<Vec<char>>)
    ensures
        words_view(words@) == split_fields(text@),
{
    let length: usize = text.unicode_len();
    let mut words: Vec<Vec<char>> = Vec::new();
    let mut word: Vec<char> = Vec::new();
    let mut i: usize = 0;
    assert(words_view(words@) + fields_from(text@, 0, word@) =~= split_fields(text@));
    while i < length
        invariant
            i <= length,
            length == text@.len(),
            words_view(words@) + fields_from(text@, i as int, word@) == split_fields(text@),
        decreases length - i,
    {
        let c: char = text.get_char(i);
        let ghost before = words_view(words@);
        let ghost begun = word@;
        if is_space_char(c) {
            if word.len() > 0 {
                words.push(word);
                word = Vec::new();
            }
            proof {
                assert(words_view(words@) =~= before + closed_word(begun));
                assert(fields_from(text@, i as int, begun) == closed_word(begun) + fields_from(
                    text@,
                    i + 1,
                    Seq::empty(),
                ));
                assert(word@ =~= Seq::<char>::empty());
                assert(words_view(words@) + fields_from(text@, i + 1, word@) =~= before
                    + fields_from(text@, i as int, begun));
            }
        } else {
            word.push(c);
            proof {
                assert(fields_from(text@, i as int, begun) == fields_from(
                    text@,
                    i + 1,
                    begun.push(text@[i as int]),
                ));
            }
        }
        i += 1;
    }
    let ghost before = words_view(words@);
    let ghost begun = word@;
    if word.len() > 0 {
        words.push(word);
    }
    proof {
        assert(words_view(words@) =~= before + closed_word(begun));
    }
    words
}

/// The state of reading the squares of a position text: the board so far,
/// and the square that the next character speaks of.
pub struct Placement {
    pub board: Squares,
    pub row: int,
    pub col: int,
}

/// A board of empty squares.
pub open spec fn empty_board() -> Squares {
    Seq::new(8, |r: int| Seq::new(8, |c: int| Pieces::empty()))
}

/// Whether a character is the letter of a piece.
pub open spec fn is_piece_letter(c: char) -> bool {
    !Pieces::spec_from(c).is_empty()
}

/// What one character of the squares field does: a slash ends a full row
/// and begins the row below, a digit from 1 to 8 leaves that many squares of
/// the row empty, and a piece letter puts its piece on the next square.
/// Anything else, and anything that leaves the row, is an error.
pub open spec fn placement_step(p: Placement, c: char) -> Option<Placement> {
    if c == '/' {
        if p.col == 8 && p.row > 0 {
            Some(Placement { board: p.board, row: p.row - 1, col: 0 })
        } else {
            None
        }
    } else if is_rank(c) {
        if p.col + spec_rank(c) + 1 <= 8 {
            Some(Placement { board: p.board, row: p.row, col: p.col + spec_rank(c) + 1 })
        } else {
            None
        }
    } else if is_piece_letter(c) {
        if p.col < 8 {
            Some(
                Placement {
                    board: put(p.board, p.row, p.col, Pieces::spec_from(c)),
                    row: p.row,
                    col: p.col + 1,
                },
            )
        } else {
            None
        }
    } else {
        None
    }
}

/// The state after the first `n` characters of the squares field, which
/// begins with the a-file of the eighth row.
pub open spec fn scan_placement(text: Seq<char>, n: int) -> Option<Placement>
    decreases n,
{
    if n <= 0 {
        Some(Placement { board: empty_board(), row: 7, col: 0 })
    } else {
        match scan_placement(text, n - 1) {
            Some(p) => placement_step(p, text[n - 1]),
            None => None,
        }
    }
}

/// The board that the squares field describes: eight full rows.
pub open spec fn parse_placement(text: Seq<char>) -> Option<Squares> {
    match scan_placement(text, text.len() as int) {
        Some(p) => if p.row == 0 && p.col == 8 {
            Some(p.board)
        } else {
            None
        },
        None => None,
    }
}

proof fn lemma_scan_fails(text: Seq<char>, i: int, n: int)
    requires
        0 <= i <= n,
        scan_placement(text, i) is None,
    ensures
        scan_placement(text, n) is None,
    decreases n - i,
{
    if i < n {
        lemma_scan_fails(text, i, n - 1);
    }
}

/// A board of empty squares.
pub fn empty_grid() -> (board: Grid)
    ensures
        grid_view(board) == empty_board(),
{
    let e: Pieces = empty_piece();
    let row: [Pieces; 8] = [e, e, e, e, e, e, e, e];
    let board: Grid = [row, row, row, row, row, row, row, row];
    proof {
        assert forall|r: int| 0 <= r < 8 implies #[trigger] grid_view(board)[r] =~= empty_board()[r] by {
            assert(grid_view(board)[r] == board@[r]@);
            assert(board@[r] == row);
        }
        assert(grid_view(board) =~= empty_board());
    }
    board
}

/// Reads the squares field.
pub fn read_placement(text: &Vec<char>) -> (board: Option<Grid>)
    ensures
        board is Some == parse_placement(text@) is Some,
        board matches Some(b) ==> parse_placement(text@) == Some(grid_view(b)) && squares_ok(
            grid_view(b),
        ),
{
    let mut board: Grid = empty_grid();
    let mut row: usize = 7;
    let mut col: usize = 0;
    let mut i: usize = 0;
    while i < text.len()
        invariant
            i <= text.len(),
            row < 8,
            col <= 8,
            scan_placement(text@, i as int) == Some(
                Placement { board: grid_view(board), row: row as int, col: col as int },
            ),
            squares_ok(grid_view(board)),
        decreases text.len() - i,
    {
        let c: char = text[i];
        let piece: Pieces = Pieces::from(&c);
        let ghost p = Placement { board: grid_view(board), row: row as int, col: col as int };
        assert(scan_placement(text@, i + 1) == placement_step(p, c));
        let mut good: bool = false;
        if c == '/' {
            if col == 8 && row > 0 {
                row = row - 1;
                col = 0;
                good = true;
            }
        } else {
            match rank_of(c) {
                Some(run) => {
                    if col + run + 1 <= 8 {
                        col = col + run + 1;
                        good = true;
                    }
                },
                None => {
                    if piece.piece_type != PieceTypes::Empty && col < 8 {
                        set_square(&mut board, row, col, piece);
                        col = col + 1;
                        good = true;
                    }
                },
            }
        }
        if !good {
            proof {
                lemma_scan_fails(text@, i + 1, text@.len() as int);
            }
            return None;
        }
        i += 1;
    }
    if row == 0 && col == 8 {
        Some(board)
    } else {
        None
    }
}

/// The player that the second field names.
pub open spec fn parse_side(text: Seq<char>) -> Option<bool> {
    if text == seq!['w'] {
        Some(WHITE)
    } else if text == seq!['b'] {
        Some(BLACK)
    } else {
        None
    }
}

pub fn read_side(text: &Vec<char>) -> (side: Option<bool>)
    ensures
        side == parse_side(text@),
{
    if text.len() != 1 {
        None
    } else if text[0] == 'w' {
        assert(text@ =~= seq!['w']);
        Some(WHITE)
    } else if text[0] == 'b' {
        assert(text@ =~= seq!['b']);
        Some(BLACK)
    } else {
        None
    }
}

/// Whether a character names a castling right.
pub open spec fn is_right_letter(c: char) -> bool {
    c == 'K' || c == 'Q' || c == 'k' || c == 'q'
}

/// The castling rights that the third field names: none for a dash, else
/// those whose letters it holds.
pub open spec fn parse_rights(text: Seq<char>) -> Option<CastleRights> {
    if text == seq!['-'] {
        Some(
            CastleRights {
                white_king: false,
                white_queen: false,
                black_king: false,
                black_queen: false,
            },
        )
    } else if text.len() > 0 && forall|i: int| 0 <= i < text.len() ==> is_right_letter(#[trigger] text[i]) {
        Some(
            CastleRights {
                white_king: text.contains('K'),
                white_queen: text.contains('Q'),
                black_king: text.contains('k'),
                black_queen: text.contains('q'),
            },
        )
    } else {
        None
    }
}

pub fn read_rights(text: &Vec<char>) -> (rights: Option<CastleRights>)
    ensures
        rights == parse_rights(text@),
{
    let mut rights: CastleRights = CastleRights {
        white_king: false,
        white_queen: false,
        black_king: false,
        black_queen: false,
    };
    if text.len() == 1 && text[0] == '-' {
        assert(text@ =~= seq!['-']);
        return Some(rights);
    }
    if text.len() == 0 {
        return None;
    }
    proof {
        assert(seq!['-'].len() == 1 && seq!['-'][0] == '-');
        assert(text@ != seq!['-']);
    }
    let mut i: usize = 0;
    while i < text.len()
        invariant
            i <= text.len(),
            text@ != seq!['-'],
            forall|k: int| 0 <= k < i ==> is_right_letter(#[trigger] text@[k]),
            rights.white_king == text@.take(i as int).contains('K'),
            rights.white_queen == text@.take(i as int).contains('Q'),
            rights.black_king == text@.take(i as int).contains('k'),
            rights.black_queen == text@.take(i as int).contains('q'),
        decreases text.len() - i,
    {
        let c: char = text[i];
        proof {
            let a = text@.take(i as int);
            let b = text@.take(i + 1);
            assert(b =~= a.push(c));
            assert forall|x: char| b.contains(x) <==> (a.contains(x) || x == c) by {
                if b.contains(x) {
                    let k = choose|k: int| 0 <= k < b.len() && b[k] == x;
                    if k < a.len() {
                        assert(a[k] == x);
                    }
                }
                if a.contains(x) {
                    let k = choose|k: int| 0 <= k < a.len() && a[k] == x;
                    assert(b[k] == x);
                }
                if x == c {
                    assert(b[i as int] == x);
                }
            }
        }
        if c == 'K' {
            rights.white_king = true;
        } else if c == 'Q' {
            rights.white_queen = true;
        } else if c == 'k' {
            rights.black_king = true;
        } else if c == 'q' {
            rights.black_queen = true;
        } else {
            assert(!is_right_letter(text@[i as int]));
            return None;
        }
        i += 1;
    }
    assert(text@.take(i as int) =~= text@);
    Some(rights)
}

/// The square that the fourth field names: none for a dash, else the square
/// of its letter and digit.
pub open spec fn parse_passant(text: Seq<char>) -> Option<Option<(int, int)>> {
    if text == seq!['-'] {
        Some(None)
    } else if text.len() == 2 && is_file(text[0]) && is_rank(text[1]) {
        Some(Some((spec_rank(text[1]), spec_to_num(text[0]))))
    } else {
        None
    }
}

pub fn read_passant(text: &Vec<char>) -> (square: Option<Option<[usize; 2]>>)
    ensures
        square is Some == parse_passant(text@) is Some,
        square matches Some(Some(sq)) ==> parse_passant(text@) == Some(
            Some((sq[0] as int, sq[1] as int)),
        ) && sq[0] < 8 && sq[1] < 8,
        square matches Some(None) ==> parse_passant(text@) == Some(None::<(int, int)>),
{
    if text.len() == 1 && text[0] == '-' {
        assert(text@ =~= seq!['-']);
        return Some(None);
    }
    if text.len() != 2 {
        return None;
    }
    assert(!(text@ =~= seq!['-']));
    match (file_of(text[0]), rank_of(text[1])) {
        (Some(col), Some(row)) => Some(Some([row, col])),
        _ => None,
    }
}

/// Whether a character is a decimal digit.
pub open spec fn is_digit(c: char) -> bool {
    c == '0' || is_rank(c) || c == '9'
}

/// The value of a decimal digit.
pub open spec fn digit_value(c: char) -> int {
    if c == '0' {
        0
    } else if c == '9' {
        9
    } else {
        spec_rank(c) + 1
    }
}

/// The number that the first `n` digits of `text` write.
pub open spec fn decimal_value(text: Seq<char>, n: int) -> int
    decreases n,
{
    if n <= 0 {
        0
    } else {
        10 * decimal_value(text, n - 1) + digit_value(text[n - 1])
    }
}

/// The number that a field writes in decimal digits, if it fits the
/// machine's counters.
pub open spec fn parse_number(text: Seq<char>) -> Option<int> {
    if text.len() > 0 && (forall|i: int| 0 <= i < text.len() ==> is_digit(#[trigger] text[i]))
        && decimal_value(text, text.len() as int) <= usize::MAX {
        Some(decimal_value(text, text.len() as int))
    } else {
        None
    }
}

proof fn lemma_decimal_grows(text: Seq<char>, i: int, n: int)
    requires
        0 <= i <= n,
    ensures
        0 <= decimal_value(text, i) <= decimal_value(text, n),
    decreases n,
{
    if n > 0 {
        if i < n {
            lemma_decimal_grows(text, i, n - 1);
        } else {
            lemma_decimal_grows(text, n - 1, n - 1);
        }
    }
}

fn digit_of(c: char) -> (digit: Option<usize>)
    ensures
        digit is Some == is_digit(c),
        digit matches Some(d) ==> d == digit_value(c) && d <= 9,
{
    match c {
        '0' => Some(0),
        '9' => Some(9),
        _ => match rank_of(c) {
            Some(row) => Some(row + 1),
            None => None,
        },
    }
}

pub fn read_number(text: &Vec<char>) -> (number: Option<usize>)
    ensures
        number is Some == parse_number(text@) is Some,
        number matches Some(n) ==> parse_number(text@) == Some(n as int),
{
    if text.len() == 0 {
        return None;
    }
    let mut value: usize = 0;
    let mut i: usize = 0;
    while i < text.len()
        invariant
            i <= text.len(),
            forall|k: int| 0 <= k < i ==> is_digit(#[trigger] text@[k]),
            value == decimal_value(text@, i as int),
        decreases text.len() - i,
    {
        match digit_of(text[i]) {
            Some(d) => {
                if value > (usize::MAX - d) / 10 {
                    proof {
                        lemma_decimal_grows(text@, i + 1, text@.len() as int);
                    }
                    return None;
                }
                value = value * 10 + d;
            },
            None => {
                assert(!is_digit(text@[i as int]));
                return None;
            },
        }
        i += 1;
    }
    Some(value)
}

/// Whether `(r, c)` is the one square of the board that holds `piece`.
pub open spec fn only_at(board: Squares, piece: Pieces, r: int, c: int) -> bool {
    &&& on_board(r, c)
    &&& forall|i: int, j: int| on_board(i, j) ==> ((#[trigger] board[i][j]) == piece <==> (i, j) == (r, c))
}

/// The square of the one king of `player`.
pub open spec fn find_king(board: Squares, player: bool) -> (int, int) {
    choose|k: (int, int)| only_at(board, Pieces::of(PieceTypes::King, player), k.0, k.1)
}

/// Finds the one square that holds `piece`.
pub fn locate(board: &Grid, piece: Pieces) -> (square: Option<[usize; 2]>)
    ensures
        square matches Some(sq) ==> only_at(grid_view(*board), piece, sq[0] as int, sq[1] as int),
        square is None ==> forall|r: int, c: int| !only_at(grid_view(*board), piece, r, c),
{
    let ghost s = grid_view(*board);
    let mut found: Option<[usize; 2]> = None;
    let mut twice: bool = false;
    let mut i: usize = 0;
    while i < 8
        invariant
            i <= 8,
            s == grid_view(*board),
            found matches Some(sq) ==> sq[0] < i && sq[1] < 8 && s[sq[0] as int][sq[1] as int]
                == piece,
            found is None ==> forall|r: int, c: int|
                0 <= r < i && 0 <= c < 8 ==> #[trigger] s[r][c] != piece,
            !twice && found is Some ==> forall|r: int, c: int|
                0 <= r < i && 0 <= c < 8 && #[trigger] s[r][c] == piece ==> r == found->0[0] && c
                    == found->0[1],
            twice ==> exists|r1: int, c1: int, r2: int, c2: int|
                on_board(r1, c1) && on_board(r2, c2) && (r1, c1) != (r2, c2) && #[trigger] s[r1][c1]
                    == piece && #[trigger] s[r2][c2] == piece,
        decreases 8 - i,
    {
        let mut j: usize = 0;
        while j < 8
            invariant
                i < 8,
                j <= 8,
                s == grid_view(*board),
                found matches Some(sq) ==> (sq[0] < i || (sq[0] == i && sq[1] < j)) && sq[1] < 8
                    && s[sq[0] as int][sq[1] as int] == piece,
                found is None ==> forall|r: int, c: int|
                    (0 <= r < i && 0 <= c < 8) || (r == i && 0 <= c < j) ==> #[trigger] s[r][c]
                        != piece,
                !twice && found is Some ==> forall|r: int, c: int|
                    ((0 <= r < i && 0 <= c < 8) || (r == i && 0 <= c < j)) && #[trigger] s[r][c]
                        == piece ==> r == found->0[0] && c == found->0[1],
                twice ==> exists|r1: int, c1: int, r2: int, c2: int|
                    on_board(r1, c1) && on_board(r2, c2) && (r1, c1) != (r2, c2)
                        && #[trigger] s[r1][c1] == piece && #[trigger] s[r2][c2] == piece,
            decreases 8 - j,
        {
            assert(s[i as int][j as int] == board[i as int][j as int]);
            if board[i][j] == piece {
                match found {
                    Some(sq) => {
                        twice = true;
                        assert(on_board(sq[0] as int, sq[1] as int) && on_board(i as int, j as int)
                            && s[sq[0] as int][sq[1] as int] == piece && s[i as int][j as int]
                            == piece);
                    },
                    None => {
                        found = Some([i, j]);
                    },
                }
            }
            j += 1;
        }
        i += 1;
    }
    if twice {
        proof {
            let (r1, c1, r2, c2) = choose|r1: int, c1: int, r2: int, c2: int|
                on_board(r1, c1) && on_board(r2, c2) && (r1, c1) != (r2, c2) && #[trigger] s[r1][c1]
                    == piece && #[trigger] s[r2][c2] == piece;
            assert forall|r: int, c: int| !only_at(s, piece, r, c) by {
                if only_at(s, piece, r, c) {
                    assert(s[r1][c1] == piece);
                    assert(s[r2][c2] == piece);
                }
            }
        }
        None
    } else {
        proof {
            if found is None {
                assert forall|r: int, c: int| !only_at(s, piece, r, c) by {
                    if only_at(s, piece, r, c) {
                        assert(s[r][c] == piece);
                    }
                }
            }
        }
        found
    }
}

/// The position that a text describes in six fields: the squares from the
/// eighth row down, the player to move, the castling rights, the square for
/// capturing in passing, and the two counters. Fields after the sixth are
/// not read. There is none if a field is missing or malformed, or if what
/// is described is no position of a game.
pub open spec fn fen_position(text: Seq<char>) -> Option<PositionView> {
    fields_position(split_fields(text), 0)
}

/// The position that six fields describe, of which `first` is the place of
/// the first in `fields`.
pub open spec fn fields_position(fields: Seq<Seq<char>>, first: int) -> Option<PositionView> {
    if first < 0 || fields.len() < first + 6 {
        None
    } else {
        match (
            parse_placement(fields[first]),
            parse_side(fields[first + 1]),
            parse_rights(fields[first + 2]),
            parse_passant(fields[first + 3]),
            parse_number(fields[first + 4]),
            parse_number(fields[first + 5]),
        ) {
            (Some(board), Some(side), Some(rights), Some(passant), Some(half), Some(full)) => {
                let position = PositionView {
                    board,
                    curr_move: side,
                    castling_rights: rights,
                    en_passant: passant,
                    half_moves: half,
                    full_moves: full,
                    white_king: find_king(board, WHITE),
                    black_king: find_king(board, BLACK),
                };
                if position.playable() && full >= 1 {
                    Some(position)
                } else {
                    None
                }
            },
            _ => None,
        }
    }
}

/// The king squares of a board that has one king of each colour are the
/// squares found for them.
proof fn lemma_kings_found(board: Squares, player: bool, r: int, c: int)
    requires
        only_at(board, Pieces::of(PieceTypes::King, player), r, c),
    ensures
        find_king(board, player) == (r, c),
{
    let piece = Pieces::of(PieceTypes::King, player);
    let k = find_king(board, player);
    assert(only_at(board, piece, (r, c).0, (r, c).1));
    assert(only_at(board, piece, k.0, k.1));
    assert(board[r][c] == piece);
}

/// Reads a position from its text.
pub fn read_position(text: &str) -> (r: Result<Array2D, ChessError>)
    ensures
        r matches Ok(game) ==> game.wf() && fen_position(text@) == Some(game@),
        r matches Err(e) ==> e == ChessError::FENParseError && fen_position(text@) is None,
{
    let words: Vec<Vec<char>> = split_text(text);
    read_fields(&words, 0)
}

/// Reads a position from six fields, of which `first` is the place of the
/// first in `words`.
pub fn read_fields(words: &Vec<Vec<char>>, first: usize) -> (r: Result<Array2D, ChessError>)
    ensures
        r matches Ok(game) ==> game.wf() && fields_position(words_view(words@), first as int)
            == Some(game@),
        r matches Err(e) ==> e == ChessError::FENParseError && fields_position(
            words_view(words@),
            first as int,
        ) is None,
{
    if words.len() < 6 || first > words.len() - 6 {
        return Err(ChessError::FENParseError);
    }
    let ghost fields = words_view(words@);
    proof {
        assert(fields[first as int] == words[first as int]@);
        assert(fields[first + 1] == words[first + 1]@);
        assert(fields[first + 2] == words[first + 2]@);
        assert(fields[first + 3] == words[first + 3]@);
        assert(fields[first + 4] == words[first + 4]@);
        assert(fields[first + 5] == words[first + 5]@);
    }
    let board: Grid = match read_placement(&words[first]) {
        Some(board) => board,
        None => {
            return Err(ChessError::FENParseError);
        },
    };
    let side: bool = match read_side(&words[first + 1]) {
        Some(side) => side,
        None => {
            return Err(ChessError::FENParseError);
        },
    };
    let rights: CastleRights = match read_rights(&words[first + 2]) {
        Some(rights) => rights,
        None => {
            return Err(ChessError::FENParseError);
        },
    };
    let passant: Option<[usize; 2]> = match read_passant(&words[first + 3]) {
        Some(passant) => passant,
        None => {
            return Err(ChessError::FENParseError);
        },
    };
    let half: usize = match read_number(&words[first + 4]) {
        Some(half) => half,
        None => {
            return Err(ChessError::FENParseError);
        },
    };
    let full: usize = match read_number(&words[first + 5]) {
        Some(full) => full,
        None => {
            return Err(ChessError::FENParseError);
        },
    };
    let ghost s = grid_view(board);
    let white_piece: Pieces = Pieces { piece_type: PieceTypes::King, color: player_color(WHITE) };
    let black_piece: Pieces = Pieces { piece_type: PieceTypes::King, color: player_color(BLACK) };
    let white_king: [usize; 2] = match locate(&board, white_piece) {
        Some(square) => square,
        None => {
            proof {
                let k = find_king(s, WHITE);
                assert(!only_at(s, white_piece, k.0, k.1));
            }
            return Err(ChessError::FENParseError);
        },
    };
    let black_king: [usize; 2] = match locate(&board, black_piece) {
        Some(square) => square,
        None => {
            proof {
                let k = find_king(s, BLACK);
                assert(!only_at(s, black_piece, k.0, k.1));
            }
            return Err(ChessError::FENParseError);
        },
    };
    proof {
        lemma_kings_found(s, WHITE, white_king[0] as int, white_king[1] as int);
        lemma_kings_found(s, BLACK, black_king[0] as int, black_king[1] as int);
    }
    let maps: [AttackMap; 2] = Array2D::generate_attack_maps(board);
    let mut game: Array2D = Array2D {
        board,
        curr_move: side,
        castling_rights: rights,
        en_passant: passant,
        half_moves: half,
        full_moves: full,
        check: None,
        white_king,
        black_king,
        white_attack_map: maps[0],
        black_attack_map: maps[1],
    };
    game.check = game.who_is_checked();
    let other_checked: bool = if side {
        game.is_white_checked()
    } else {
        game.is_black_checked()
    };
    if other_checked || full < 1 {
        return Err(ChessError::FENParseError);
    }
    Ok(game)
}

} // verus!
