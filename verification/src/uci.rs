use crate::ai_funcs::ai_types::abminimax::{can_choose, has_room, MAX_DEPTH};
use crate::ai_funcs::ai_utils::clock::time_for_move;
use crate::board_structs::board::Board;
use crate::board_structs::board_types::array2d::Array2D;
use crate::board_structs::fen::{
    fen_position, fields_position, parse_number, read_fields, read_number, words_view,
    START_POSITION,
};
use crate::board_structs::legal::{legal, legal_moves};
use crate::board_structs::position::PositionView;
use crate::board_structs::laws::lemma_legal_move_on_board;
use crate::utils::chess_errors::ChessError;
use crate::utils::game_move::{is_move_text, spec_move_text, GameMove};
use crate::utils::gamemove1d::{spec_parse_1d, spec_text_1d, GameMove1d};
use crate::utils::pieces::BLACK;
use regex::Regex;
use vstd::prelude::*;

verus! {

/// The pattern that a word of a command must hold to be read as a move.
pub const MOVE_PATTERN: &'static str = "[abcdefgh]\\d[abcdefgh]\\d[qrkb]?";

/// What matching a text against a pattern gives: whether the text holds a
/// match, and nothing if the pattern is no regular expression.
pub uninterp spec fn regex_match(pattern: Seq<char>, text: Seq<char>) -> Option<bool>;

/// `Regex::new` and `Regex::is_match` of regex: compiles the pattern and
/// says whether the text holds a match of it anywhere; nothing if the
/// pattern does not compile. The answer is only given its name.
#[verifier::external_body]
fn pattern_matches(pattern: &str, text: &str) -> (found: Option<bool>)
    ensures
        found == regex_match(pattern@, text@),
{
    match Regex::new(pattern) {
        Ok(re) => Some(re.is_match(text)),
        Err(_) => None,
    }
}

/// `String::from_iter` of std: the string of a list of characters.
#[verifier::external_body]
fn text_of(chars: &Vec<char>) -> (text: String)
    ensures
        text@ == chars@,
{
    String::from_iter(chars.iter())
}

/// Whether a word holds the pattern of a move.
pub open spec fn looks_like_move(word: Seq<char>) -> bool {
    regex_match(MOVE_PATTERN@, word) == Some(true)
}

/// The move that a word is read as: the move it writes, if the word was
/// found to hold the pattern of a move and is the text of a move.
pub fn read_if_matched(matched: Option<bool>, word: &str) -> (m: Option<GameMove1d>)
    ensures
        m == (if matched == Some(true) && is_move_text(word@) {
            Some(spec_parse_1d(word@))
        } else {
            None::<GameMove1d>
        }),
{
    match matched {
        Some(true) => match GameMove1d::from_str(word) {
            Ok(m) => Some(m),
            Err(_) => None,
        },
        _ => None,
    }
}

/// The moves among the first `n` words: of each word that holds the pattern
/// of a move and is the text of one, the move it writes.
pub open spec fn uci_moves(words: Seq<Seq<char>>, n: int) -> Seq<GameMove1d>
    decreases n,
{
    if n <= 0 {
        Seq::empty()
    } else if looks_like_move(words[n - 1]) && is_move_text(words[n - 1]) {
        uci_moves(words, n - 1).push(spec_parse_1d(words[n - 1]))
    } else {
        uci_moves(words, n - 1)
    }
}

/// The moves among the words of a command.
pub fn filter_uci_moves(args: &Vec<Vec<char>>) -> (moves: Vec<GameMove1d>)
    ensures
        moves@ == uci_moves(words_view(args@), args@.len() as int),
{
    let ghost words = words_view(args@);
    let mut moves: Vec<GameMove1d> = Vec::new();
    let mut i: usize = 0;
    while i < args.len()
        invariant
            i <= args.len(),
            words == words_view(args@),
            moves@ == uci_moves(words, i as int),
        decreases args.len() - i,
    {
        let word: String = text_of(&args[i]);
        assert(words[i as int] == word@);
        match read_if_matched(pattern_matches(MOVE_PATTERN, word.as_str()), word.as_str()) {
            Some(m) => {
                moves.push(m);
            },
            None => {},
        }
        i += 1;
    }
    moves
}

/// Whether a token is the word `word`.
pub fn is_word(token: &Vec<char>, word: &str) -> (same: bool)
    ensures
        same == (token@ == word@),
{
    let length: usize = word.unicode_len();
    if token.len() != length {
        return false;
    }
    let mut i: usize = 0;
    while i < length
        invariant
            i <= length,
            length == word@.len(),
            token@.len() == length,
            forall|k: int| 0 <= k < i ==> token@[k] == word@[k],
        decreases length - i,
    {
        if token[i] != word.get_char(i) {
            return false;
        }
        i += 1;
    }
    assert(token@ =~= word@);
    true
}

/// Whether two lists of characters are the same.
pub fn same_chars(a: &Vec<char>, b: &Vec<char>) -> (same: bool)
    ensures
        same == (a@ == b@),
{
    if a.len() != b.len() {
        return false;
    }
    let mut i: usize = 0;
    while i < a.len()
        invariant
            i <= a.len(),
            a@.len() == b@.len(),
            forall|k: int| 0 <= k < i ==> a@[k] == b@[k],
        decreases a.len() - i,
    {
        if a[i] != b[i] {
            return false;
        }
        i += 1;
    }
    assert(a@ =~= b@);
    true
}

/// The place of the first of the words from `from` on that is `word`.
pub open spec fn index_of(words: Seq<Seq<char>>, word: Seq<char>, from: int) -> Option<int>
    decreases words.len() - from,
{
    if from < 0 || from >= words.len() {
        None
    } else if words[from] == word {
        Some(from)
    } else {
        index_of(words, word, from + 1)
    }
}

/// The place that `index_of` gives is that of the first word that is `word`:
/// the words before it are others, and there is none only if no word is
/// `word`.
pub proof fn lemma_index_of_is_first(words: Seq<Seq<char>>, word: Seq<char>, from: int)
    requires
        0 <= from,
    ensures
        index_of(words, word, from) matches Some(i) ==> from <= i < words.len() && words[i] == word
            && forall|j: int| from <= j < i ==> words[j] != word,
        index_of(words, word, from) is None ==> forall|j: int|
            from <= j < words.len() ==> words[j] != word,
    decreases words.len() - from,
{
    if from < words.len() && words[from] != word {
        lemma_index_of_is_first(words, word, from + 1);
    }
}

/// Finds the first of the words of a command that is `word`.
pub fn find_word(args: &Vec<Vec<char>>, word: &str) -> (place: Option<usize>)
    ensures
        place is Some == index_of(words_view(args@), word@, 0) is Some,
        place matches Some(i) ==> index_of(words_view(args@), word@, 0) == Some(i as int) && i
            < args@.len(),
{
    let ghost words = words_view(args@);
    let mut i: usize = 0;
    while i < args.len()
        invariant
            i <= args.len(),
            words == words_view(args@),
            index_of(words, word@, 0) == index_of(words, word@, i as int),
        decreases args.len() - i,
    {
        assert(words[i as int] == args@[i as int]@);
        if is_word(&args[i], word) {
            return Some(i);
        }
        i += 1;
    }
    None
}

/// What a command says of a number that follows a word.
#[derive(Clone, Copy, Debug, PartialEq, Eq, Structural)]
pub enum Setting {
    /// The word is not in the command.
    Absent,
    /// The number that follows the word.
    Value(usize),
    /// The word is there, and no number follows it.
    Malformed,
}

/// What the words say of the number that follows the first `word`.
pub open spec fn setting_of(words: Seq<Seq<char>>, word: Seq<char>) -> Setting {
    match index_of(words, word, 0) {
        None => Setting::Absent,
        Some(i) => if i + 1 < words.len() {
            match parse_number(words[i + 1]) {
                Some(n) => Setting::Value(n as usize),
                None => Setting::Malformed,
            }
        } else {
            Setting::Malformed
        },
    }
}

pub fn read_setting(args: &Vec<Vec<char>>, word: &str) -> (setting: Setting)
    ensures
        setting == setting_of(words_view(args@), word@),
{
    match find_word(args, word) {
        None => Setting::Absent,
        Some(i) => {
            if args.len() >= 2 && i <= args.len() - 2 {
                assert(words_view(args@)[i + 1] == args@[i + 1]@);
                match read_number(&args[i + 1]) {
                    Some(n) => Setting::Value(n),
                    None => Setting::Malformed,
                }
            } else {
                Setting::Malformed
            }
        },
    }
}

/// The limits of a search.
#[derive(Clone, Copy, Debug, PartialEq, Eq, Structural)]
pub struct Limits {
    /// The milliseconds to search for; none for a search without end.
    pub budget: Option<u128>,
    /// The deepest depth to search.
    pub max_plies: Option<usize>,
    /// The most positions to look at. The searches do not count them.
    pub max_nodes: Option<usize>,
}

/// A setting that may be absent.
pub open spec fn optional(setting: Setting) -> Option<Option<usize>> {
    match setting {
        Setting::Absent => Some(None),
        Setting::Value(n) => Some(Some(n)),
        Setting::Malformed => None,
    }
}

/// The time for a move that a clock and an increment give: a twentieth of
/// the clock and half of the increment.
pub open spec fn clock_budget(clock: int, increment: int) -> int {
    clock / 20 + increment / 2
}

/// The time that a `go` command gives the search of `player`: what follows
/// `movetime`; else no limit for `infinite`; else what the clock of the
/// player, after `wtime` or `btime`, and the increment, after `winc` or
/// `binc`, give. There is none where a number is missing.
pub open spec fn go_budget(words: Seq<Seq<char>>, player: bool) -> Option<Option<u128>> {
    if index_of(words, "movetime"@, 0) is Some {
        match setting_of(words, "movetime"@) {
            Setting::Value(n) => Some(Some(n as u128)),
            _ => None,
        }
    } else if index_of(words, "infinite"@, 0) is Some {
        Some(None)
    } else {
        let clock = setting_of(
            words,
            if player == BLACK {
                "btime"@
            } else {
                "wtime"@
            },
        );
        let increment = setting_of(
            words,
            if player == BLACK {
                "binc"@
            } else {
                "winc"@
            },
        );
        match (clock, optional(increment)) {
            (Setting::Value(t), Some(Some(i))) => Some(
                Some(clock_budget(t as int, i as int) as u128),
            ),
            (Setting::Value(t), Some(None)) => Some(Some(clock_budget(t as int, 0) as u128)),
            _ => None,
        }
    }
}

/// The limits that a `go` command sets for the search of `player`; none if
/// a number is missing from the command.
pub open spec fn go_limits(words: Seq<Seq<char>>, player: bool) -> Option<Limits> {
    match (
        go_budget(words, player),
        optional(setting_of(words, "depth"@)),
        optional(setting_of(words, "nodes"@)),
    ) {
        (Some(budget), Some(max_plies), Some(max_nodes)) => Some(
            Limits { budget, max_plies, max_nodes },
        ),
        _ => None,
    }
}

fn read_optional(args: &Vec<Vec<char>>, word: &str) -> (value: Option<Option<usize>>)
    ensures
        value == optional(setting_of(words_view(args@), word@)),
{
    match read_setting(args, word) {
        Setting::Absent => Some(None),
        Setting::Value(n) => Some(Some(n)),
        Setting::Malformed => None,
    }
}

fn read_budget(args: &Vec<Vec<char>>, player: bool) -> (budget: Option<Option<u128>>)
    ensures
        budget == go_budget(words_view(args@), player),
{
    if find_word(args, "movetime").is_some() {
        match read_setting(args, "movetime") {
            Setting::Value(n) => Some(Some(n as u128)),
            _ => None,
        }
    } else if find_word(args, "infinite").is_some() {
        Some(None)
    } else {
        let clock: Setting = if player {
            read_setting(args, "btime")
        } else {
            read_setting(args, "wtime")
        };
        let increment: Option<Option<usize>> = if player {
            read_optional(args, "binc")
        } else {
            read_optional(args, "winc")
        };
        match (clock, increment) {
            (Setting::Value(t), Some(Some(i))) => Some(
                Some(time_for_move(t as u128, i as u128)),
            ),
            (Setting::Value(t), Some(None)) => Some(Some(time_for_move(t as u128, 0))),
            _ => None,
        }
    }
}

/// Reads the limits that a `go` command sets.
pub fn read_limits(args: &Vec<Vec<char>>, player: bool) -> (limits: Option<Limits>)
    ensures
        limits == go_limits(words_view(args@), player),
{
    let budget: Option<Option<u128>> = read_budget(args, player);
    let max_plies: Option<Option<usize>> = read_optional(args, "depth");
    let max_nodes: Option<Option<usize>> = read_optional(args, "nodes");
    match (budget, max_plies, max_nodes) {
        (Some(budget), Some(max_plies), Some(max_nodes)) => Some(
            Limits { budget, max_plies, max_nodes },
        ),
        _ => None,
    }
}

/// The first of the moves from `from` on that is written `text`.
pub open spec fn move_with_text(moves: Seq<GameMove>, text: Seq<char>, from: int) -> Option<
    GameMove,
>
    decreases moves.len() - from,
{
    if from < 0 || from >= moves.len() {
        None
    } else if spec_move_text(moves[from]) == text {
        Some(moves[from])
    } else {
        move_with_text(moves, text, from + 1)
    }
}

/// The move that `move_with_text` gives is the first that is written
/// `text`, and there is none only if no move is written so.
pub proof fn lemma_move_with_text_is_first(moves: Seq<GameMove>, text: Seq<char>, from: int)
    requires
        0 <= from,
    ensures
        move_with_text(moves, text, from) matches Some(m) ==> exists|i: int|
            from <= i < moves.len() && moves[i] == m && spec_move_text(m) == text && forall|j: int|
                from <= j < i ==> spec_move_text(#[trigger] moves[j]) != text,
        move_with_text(moves, text, from) is None ==> forall|j: int|
            from <= j < moves.len() ==> spec_move_text(#[trigger] moves[j]) != text,
    decreases moves.len() - from,
{
    if from < moves.len() {
        if spec_move_text(moves[from]) == text {
            assert(forall|j: int| from <= j < from ==> spec_move_text(#[trigger] moves[j]) != text);
        } else {
            lemma_move_with_text_is_first(moves, text, from + 1);
            match move_with_text(moves, text, from + 1) {
                Some(m) => {
                    let i = choose|i: int|
                        from + 1 <= i < moves.len() && moves[i] == m && spec_move_text(m) == text
                            && forall|j: int|
                            from + 1 <= j < i ==> spec_move_text(#[trigger] moves[j]) != text;
                    assert(from <= i < moves.len() && moves[i] == m && spec_move_text(m) == text
                        && forall|j: int|
                        from <= j < i ==> spec_move_text(#[trigger] moves[j]) != text);
                },
                None => {},
            }
        }
    }
}

/// Whether all of the moves are legal in `s`.
pub open spec fn all_legal(s: PositionView, moves: Seq<GameMove>) -> bool {
    forall|i: int| 0 <= i < moves.len() ==> legal(s, #[trigger] moves[i])
}

/// Finds the first of the legal moves that is written `text`.
fn find_move_by_text(moves: &Vec<GameMove>, text: &Vec<char>, Ghost(s): Ghost<PositionView>) -> (found:
    Option<GameMove>)
    requires
        all_legal(s, moves@),
    ensures
        found == move_with_text(moves@, text@, 0),
        found matches Some(m) ==> legal(s, m),
{
    let mut i: usize = 0;
    while i < moves.len()
        invariant
            i <= moves.len(),
            all_legal(s, moves@),
            move_with_text(moves@, text@, 0) == move_with_text(moves@, text@, i as int),
        decreases moves.len() - i,
    {
        proof {
            lemma_legal_move_on_board(s, moves@[i as int]);
        }
        let written: Vec<char> = moves[i].to_chars();
        if same_chars(&written, text) {
            return Some(moves[i]);
        }
        i += 1;
    }
    None
}

/// The position after the moves that the words from `from` on write, each
/// of them legal where it is made; none if a word writes no legal move.
pub open spec fn play_texts(s: PositionView, words: Seq<Seq<char>>, from: int) -> Option<
    PositionView,
>
    decreases words.len() - from,
{
    if from < 0 || from >= words.len() {
        Some(s)
    } else {
        match move_with_text(legal_moves(s), words[from], 0) {
            Some(m) => if s.half_moves < usize::MAX && s.full_moves < usize::MAX {
                play_texts(s.apply(m), words, from + 1)
            } else {
                None
            },
            None => None,
        }
    }
}

/// A list of legal moves holds legal moves only.
proof fn lemma_list_is_legal(s: PositionView, moves: Seq<GameMove>)
    requires
        crate::board_structs::legal::is_move_list(s, moves),
    ensures
        all_legal(s, moves),
{
    assert forall|i: int| 0 <= i < moves.len() implies legal(s, #[trigger] moves[i]) by {
        assert(moves.contains(moves[i]));
    }
}

/// Makes the moves that the words from `from` on write, or none of them if
/// one of the words writes no legal move.
pub fn play_moves(board: Array2D, args: &Vec<Vec<char>>, from: usize) -> (after: Option<Array2D>)
    requires
        board.wf(),
    ensures
        after matches Some(b) ==> b.wf() && play_texts(
            board@,
            words_view(args@),
            from as int,
        ) == Some(b@),
        after is None ==> play_texts(board@, words_view(args@), from as int) is None,
{
    let ghost words = words_view(args@);
    let mut current: Array2D = board;
    let mut i: usize = from;
    while i < args.len()
        invariant
            from <= i,
            words == words_view(args@),
            current.wf(),
            play_texts(board@, words, from as int) == play_texts(current@, words, i as int),
        decreases args.len() - i,
    {
        let moves: Vec<GameMove> = current.get_valid_moves();
        proof {
            lemma_list_is_legal(current@, moves@);
            assert(words[i as int] == args@[i as int]@);
        }
        match find_move_by_text(&moves, &args[i], Ghost(current@)) {
            Some(m) => {
                if current.half_moves < usize::MAX && current.full_moves < usize::MAX {
                    current = current.make_move(&m);
                } else {
                    return None;
                }
            },
            None => {
                return None;
            },
        }
        i += 1;
    }
    Some(current)
}

/// The position that a base position and the moves after it give: the base
/// if nothing follows it, and the position after the moves if the word
/// `moves` and the moves follow.
pub open spec fn then_moves(base: Option<PositionView>, words: Seq<Seq<char>>, next: int) -> Option<
    PositionView,
> {
    match base {
        None => None,
        Some(s) => if words.len() <= next {
            Some(s)
        } else if words[next] == "moves"@ {
            play_texts(s, words, next + 1)
        } else {
            None
        },
    }
}

/// The position that a `position` command asks for: the starting position
/// after `startpos`, or the position of the six fields after `fen`, and
/// then the moves after `moves`. There is none if the command is malformed
/// or one of its moves is not legal.
pub open spec fn requested_position(words: Seq<Seq<char>>) -> Option<PositionView> {
    if words.len() < 2 {
        None
    } else if words[1] == "startpos"@ {
        then_moves(fen_position(START_POSITION@), words, 2)
    } else if words[1] == "fen"@ {
        then_moves(fields_position(words, 2), words, 8)
    } else {
        None
    }
}

fn read_then_moves(base: Result<Array2D, ChessError>, args: &Vec<Vec<char>>, next: usize) -> (after:
    Option<Array2D>)
    requires
        base matches Ok(b) ==> b.wf(),
        next < usize::MAX,
    ensures
        after matches Some(b) ==> b.wf() && then_moves(
            match base {
                Ok(b) => Some(b@),
                Err(_) => None,
            },
            words_view(args@),
            next as int,
        ) == Some(b@),
        after is None ==> then_moves(
            match base {
                Ok(b) => Some(b@),
                Err(_) => None,
            },
            words_view(args@),
            next as int,
        ) is None,
{
    match base {
        Err(_) => None,
        Ok(board) => {
            if args.len() <= next {
                Some(board)
            } else {
                assert(words_view(args@)[next as int] == args@[next as int]@);
                if is_word(&args[next], "moves") {
                    play_moves(board, args, next + 1)
                } else {
                    None
                }
            }
        },
    }
}

/// Reads the position that a `position` command asks for.
pub fn read_request(args: &Vec<Vec<char>>) -> (after: Option<Array2D>)
    ensures
        after matches Some(b) ==> b.wf() && requested_position(words_view(args@)) == Some(b@),
        after is None ==> requested_position(words_view(args@)) is None,
{
    if args.len() < 2 {
        return None;
    }
    assert(words_view(args@)[1] == args@[1]@);
    if is_word(&args[1], "startpos") {
        read_then_moves(Array2D::setup_board(None), args, 2)
    } else if is_word(&args[1], "fen") {
        read_then_moves(read_fields(args, 2), args, 8)
    } else {
        None
    }
}

/// Whether the numbered move `wanted` goes between the squares of `m` and
/// promotes to the same kind of piece.
pub open spec fn same_move(wanted: GameMove1d, m: GameMove) -> bool {
    spec_text_1d(wanted) == spec_move_text(m)
}

/// Whether one of the first `n` of the moves asked for is `m`.
pub open spec fn asked_for(wanted: Seq<GameMove1d>, m: GameMove, n: int) -> bool
    decreases n,
{
    if n <= 0 {
        false
    } else {
        asked_for(wanted, m, n - 1) || same_move(wanted[n - 1], m)
    }
}

/// Those of the first `n` of `moves` that were asked for, in their order.
pub open spec fn asked_moves(moves: Seq<GameMove>, wanted: Seq<GameMove1d>, n: int) -> Seq<
    GameMove,
>
    decreases n,
{
    if n <= 0 {
        Seq::empty()
    } else if asked_for(wanted, moves[n - 1], wanted.len() as int) {
        asked_moves(moves, wanted, n - 1).push(moves[n - 1])
    } else {
        asked_moves(moves, wanted, n - 1)
    }
}

/// Whether every one of the moves asked for goes between squares of the
/// board.
pub open spec fn all_on_board(wanted: Seq<GameMove1d>) -> bool {
    forall|k: int|
        0 <= k < wanted.len() ==> crate::utils::gamemove1d::is_square_number(
            (#[trigger] wanted[k]).start.value as int,
        ) && crate::utils::gamemove1d::is_square_number(wanted[k].end.value as int)
}

fn is_asked_for(wanted: &Vec<GameMove1d>, m: &GameMove) -> (asked: bool)
    requires
        all_on_board(wanted@),
        m.start[0] < 8,
        m.start[1] < 8,
        m.end[0] < 8,
        m.end[1] < 8,
    ensures
        asked == asked_for(wanted@, *m, wanted@.len() as int),
{
    let written: String = m.to_string();
    let mut asked: bool = false;
    let mut k: usize = 0;
    while k < wanted.len()
        invariant
            k <= wanted.len(),
            all_on_board(wanted@),
            written@ == spec_move_text(*m),
            asked == asked_for(wanted@, *m, k as int),
        decreases wanted.len() - k,
    {
        let other: String = wanted[k].to_string();
        if other == written {
            asked = true;
        }
        k += 1;
    }
    asked
}

/// Those of the legal moves that were asked for, in their order.
fn pick_asked(moves: &Vec<GameMove>, wanted: &Vec<GameMove1d>, Ghost(s): Ghost<PositionView>) -> (picked:
    Vec<GameMove>)
    requires
        all_legal(s, moves@),
        all_on_board(wanted@),
    ensures
        picked@ == asked_moves(moves@, wanted@, moves@.len() as int),
        all_legal(s, picked@),
{
    let mut picked: Vec<GameMove> = Vec::new();
    let mut i: usize = 0;
    while i < moves.len()
        invariant
            i <= moves.len(),
            all_legal(s, moves@),
            all_on_board(wanted@),
            picked@ == asked_moves(moves@, wanted@, i as int),
            all_legal(s, picked@),
        decreases moves.len() - i,
    {
        proof {
            lemma_legal_move_on_board(s, moves@[i as int]);
        }
        if is_asked_for(wanted, &moves[i]) {
            picked.push(moves[i]);
        }
        i += 1;
    }
    picked
}

/// The moves that a `go` command lets the search choose from: the legal
/// moves among those after `searchmoves`, if there are any, and else all
/// legal moves.
pub open spec fn choices(s: PositionView, words: Seq<Seq<char>>) -> Seq<GameMove> {
    let asked = asked_moves(
        legal_moves(s),
        uci_moves(words, words.len() as int),
        legal_moves(s).len() as int,
    );
    if index_of(words, "searchmoves"@, 0) is Some && asked.len() > 0 {
        asked
    } else {
        legal_moves(s)
    }
}

/// What a search is to do.
#[derive(Clone, Debug)]
pub struct SearchOrder {
    pub limits: Limits,
    /// The moves to choose from.
    pub moves: Vec<GameMove>,
}

/// What the engine does about a command.
#[derive(Clone, Debug)]
pub enum Action {
    Nothing,
    /// The command is malformed, or asks for a move that is not legal:
    /// nothing was changed.
    Refused,
    /// Name the engine and its author, and say `uciok`.
    Identify,
    /// Say `readyok`.
    Ready,
    /// Start a search.
    Search(SearchOrder),
    /// There is no move to search for.
    NoMove,
    /// Stop the search.
    Stop,
    Quit,
}

/// The position after a command: the starting position after `ucinewgame`,
/// the position asked for after a `position` command that is well formed
/// and holds legal moves only, and else the position as it was.
pub open spec fn next_position(s: PositionView, words: Seq<Seq<char>>) -> PositionView {
    if words.len() == 0 {
        s
    } else if words[0] == "ucinewgame"@ {
        match fen_position(START_POSITION@) {
            Some(start) => start,
            None => s,
        }
    } else if words[0] == "position"@ {
        match requested_position(words) {
            Some(asked) => asked,
            None => s,
        }
    } else {
        s
    }
}

/// Whether `action` is what the engine does about a command in the
/// position `s`, while a search is running or not. A search is started only
/// while none is running, and stopped only while one is.
pub open spec fn is_reaction(
    action: Action,
    s: PositionView,
    searching: bool,
    words: Seq<Seq<char>>,
) -> bool {
    if words.len() == 0 {
        action is Nothing
    } else if words[0] == "uci"@ {
        action is Identify
    } else if words[0] == "isready"@ {
        action is Ready
    } else if words[0] == "stop"@ {
        if searching {
            action is Stop
        } else {
            action is Nothing
        }
    } else if words[0] == "quit"@ {
        action is Quit
    } else if words[0] == "position"@ {
        if requested_position(words) is Some {
            action is Nothing
        } else {
            action is Refused
        }
    } else if words[0] == "go"@ {
        match go_limits(words, s.curr_move) {
            None => action is Refused,
            Some(limits) => if searching {
                action is Nothing
            } else if legal_moves(s).len() == 0 {
                action is NoMove
            } else if !has_room(s, MAX_DEPTH as int, 0) {
                action is Refused
            } else {
                action matches Action::Search(order) && order.limits == limits && order.moves@
                    == choices(s, words) && can_choose(s, order.moves@)
            },
        }
    } else {
        action is Nothing
    }
}

/// Whether a search is running after the engine has done `action`.
pub open spec fn searching_after(searching: bool, action: Action) -> bool {
    match action {
        Action::Search(_) => true,
        Action::Stop => false,
        _ => searching,
    }
}

/// The engine between two commands: the position that the next search
/// starts from, and whether a search is running.
#[derive(Clone, Copy, Debug)]
pub struct Engine {
    pub board: Array2D,
    pub searching: bool,
}

impl Engine {
    /// An engine at the start of a game.
    pub fn new() -> (r: Result<Engine, ChessError>)
        ensures
            r matches Ok(engine) ==> engine.board.wf() && !engine.searching && fen_position(
                START_POSITION@,
            ) == Some(engine.board@),
            r matches Err(e) ==> e == ChessError::FENParseError && fen_position(START_POSITION@)
                is None,
    {
        match Array2D::setup_board(None) {
            Ok(board) => Ok(Engine { board, searching: false }),
            Err(e) => Err(e),
        }
    }

    /// Takes note that the search which was started has ended by itself.
    pub fn finished(&mut self)
        ensures
            final(self).board == old(self).board,
            !final(self).searching,
    {
        self.searching = false;
    }

    /// Takes one command, given as its words: changes the position if the
    /// command asks for another, and says what is to be done.
    pub fn handle(&mut self, args: &Vec<Vec<char>>) -> (action: Action)
        requires
            old(self).board.wf(),
        ensures
            final(self).board.wf(),
            final(self).board@ == next_position(old(self).board@, words_view(args@)),
            is_reaction(action, old(self).board@, old(self).searching, words_view(args@)),
            final(self).searching == searching_after(old(self).searching, action),
    {
        let ghost words = words_view(args@);
        if args.len() == 0 {
            return Action::Nothing;
        }
        assert(words[0] == args@[0]@);
        proof {
            reveal_strlit("uci");
            reveal_strlit("isready");
            reveal_strlit("stop");
            reveal_strlit("quit");
            reveal_strlit("ucinewgame");
            reveal_strlit("position");
            reveal_strlit("go");
        }
        let command: &Vec<char> = &args[0];
        if is_word(command, "uci") {
            Action::Identify
        } else if is_word(command, "isready") {
            Action::Ready
        } else if is_word(command, "stop") {
            if self.searching {
                self.searching = false;
                Action::Stop
            } else {
                Action::Nothing
            }
        } else if is_word(command, "quit") {
            Action::Quit
        } else if is_word(command, "ucinewgame") {
            match Array2D::setup_board(None) {
                Ok(board) => {
                    self.board = board;
                },
                Err(_) => {},
            }
            Action::Nothing
        } else if is_word(command, "position") {
            match read_request(args) {
                Some(board) => {
                    self.board = board;
                    Action::Nothing
                },
                None => Action::Refused,
            }
        } else if is_word(command, "go") {
            let action: Action = self.plan(args);
            match action {
                Action::Search(_) => {
                    self.searching = true;
                },
                _ => {},
            }
            action
        } else {
            Action::Nothing
        }
    }

    /// What is to be done about a `go` command.
    fn plan(&self, args: &Vec<Vec<char>>) -> (action: Action)
        requires
            self.board.wf(),
            args@.len() > 0,
            args@[0]@ == "go"@,
        ensures
            is_reaction(action, self.board@, self.searching, words_view(args@)),
            !(action is Stop),
    {
        let ghost words = words_view(args@);
        let ghost s = self.board@;
        assert(words[0] == args@[0]@);
        proof {
            reveal_strlit("go");
            reveal_strlit("uci");
            reveal_strlit("isready");
            reveal_strlit("stop");
            reveal_strlit("quit");
            reveal_strlit("position");
        }
        let limits: Limits = match read_limits(args, self.board.get_curr_player()) {
            Some(limits) => limits,
            None => {
                return Action::Refused;
            },
        };
        if self.searching {
            return Action::Nothing;
        }
        let legal: Vec<GameMove> = self.board.get_valid_moves();
        proof {
            lemma_list_is_legal(s, legal@);
        }
        if legal.len() == 0 {
            return Action::NoMove;
        }
        if self.board.half_moves > usize::MAX - MAX_DEPTH || self.board.full_moves > usize::MAX
            - MAX_DEPTH {
            return Action::Refused;
        }
        let wanted: Vec<GameMove1d> = filter_uci_moves(args);
        proof {
            lemma_uci_moves_on_board(words, words.len() as int);
        }
        let asked: Vec<GameMove> = pick_asked(&legal, &wanted, Ghost(s));
        let moves: Vec<GameMove> = if find_word(args, "searchmoves").is_some() && asked.len() > 0 {
            asked
        } else {
            legal
        };
        Action::Search(SearchOrder { limits, moves })
    }
}

/// The moves read from the words of a command go between squares of the
/// board.
proof fn lemma_uci_moves_on_board(words: Seq<Seq<char>>, n: int)
    ensures
        all_on_board(uci_moves(words, n)),
    decreases n,
{
    if n > 0 {
        lemma_uci_moves_on_board(words, n - 1);
        let before = uci_moves(words, n - 1);
        let all = uci_moves(words, n);
        assert forall|k: int| 0 <= k < all.len() implies crate::utils::gamemove1d::is_square_number(
            (#[trigger] all[k]).start.value as int,
        ) && crate::utils::gamemove1d::is_square_number(all[k].end.value as int) by {
            if k < before.len() {
                assert(all[k] == before[k]);
            }
        }
    }
}

} // verus!
