use crate::board_structs::attacks::{
    add_piece_attacks, board_attackers, is_attack_map, lemma_board_attackers_bounds,
    lemma_row_attackers_bounds, row_attackers,
};
use crate::board_structs::board::Board;
use crate::board_structs::fen::{read_position, START_POSITION};
use crate::board_structs::geometry::{grid_view, on_board, AttackMap, Grid};
use crate::board_structs::laws::{lemma_legal_move_keeps_playable, lemma_move_list_unique};
use crate::board_structs::legal::legal;
use crate::board_structs::move_list::{generate_moves, order_moves};
use crate::board_structs::position::{
    board_after, move_on_board, put, rights_after, shift, PositionView,
};
use crate::utils::castling::CastleRights;
use crate::utils::chess_errors::ChessError;
use crate::utils::game_move::{CastleTypes, GameMove, PassantTypes};
use crate::utils::pieces::{color_of, player_color, PieceColors, PieceTypes, Pieces, BLACK, WHITE};
use vstd::prelude::*;

verus! {

/// A position on a board of eight rows of eight squares, with the number of
/// attackers of each colour on every square.
#[derive(Clone, Copy, Debug)]
pub struct Array2D {
    pub board: Grid,
    /// `WHITE` or `BLACK`: the player to move.
    pub curr_move: bool,
    pub castling_rights: CastleRights,
    /// The square a pawn has just skipped, on which it can be taken.
    pub en_passant: Option<[usize; 2]>,
    pub half_moves: usize,
    pub full_moves: usize,
    /// The player whose king is attacked.
    pub check: Option<bool>,
    pub white_king: [usize; 2],
    pub black_king: [usize; 2],
    pub white_attack_map: AttackMap,
    pub black_attack_map: AttackMap,
}

impl View for Array2D {
    type V = PositionView;

    open spec fn view(&self) -> PositionView {
        PositionView {
            board: grid_view(self.board),
            curr_move: self.curr_move,
            castling_rights: self.castling_rights,
            en_passant: match self.en_passant {
                Some(sq) => Some((sq[0] as int, sq[1] as int)),
                None => None,
            },
            half_moves: self.half_moves as int,
            full_moves: self.full_moves as int,
            white_king: (self.white_king[0] as int, self.white_king[1] as int),
            black_king: (self.black_king[0] as int, self.black_king[1] as int),
        }
    }
}

/// The content of an empty square.
pub fn empty_piece() -> (piece: Pieces)
    ensures
        piece == Pieces::empty(),
{
    Pieces { piece_type: PieceTypes::Empty, color: PieceColors::Empty }
}

/// Puts `piece` on `(r, c)`.
pub fn set_square(board: &mut Grid, r: usize, c: usize, piece: Pieces)
    requires
        r < 8,
        c < 8,
    ensures
        grid_view(*final(board)) == put(grid_view(*old(board)), r as int, c as int, piece),
{
    board[r][c] = piece;
    proof {
        assert(grid_view(*board) =~~= put(grid_view(*old(board)), r as int, c as int, piece));
    }
}

/// Moves what stands on `(fr, fc)` to `(tr, tc)`.
fn shift_piece(board: &mut Grid, fr: usize, fc: usize, tr: usize, tc: usize)
    requires
        fr < 8,
        fc < 8,
        tr < 8,
        tc < 8,
    ensures
        grid_view(*final(board)) == shift(
            grid_view(*old(board)),
            fr as int,
            fc as int,
            tr as int,
            tc as int,
        ),
{
    let piece: Pieces = board[fr][fc];
    assert(grid_view(*board)[fr as int][fc as int] == piece);
    set_square(board, fr, fc, empty_piece());
    set_square(board, tr, tc, piece);
}

/// The squares after a move.
pub fn move_pieces(board: &Grid, mov: &GameMove) -> (after: Grid)
    requires
        move_on_board(*mov),
    ensures
        grid_view(after) == board_after(grid_view(*board), *mov),
{
    let mover: PieceColors = board[mov.start[0]][mov.start[1]].color;
    assert(grid_view(*board)[mov.start[0] as int][mov.start[1] as int].color == mover);
    let mut after: Grid = *board;
    shift_piece(&mut after, mov.start[0], mov.start[1], mov.end[0], mov.end[1]);
    match mov.castle {
        Some(CastleTypes::WhiteKing) => shift_piece(&mut after, 0, 7, 0, 5),
        Some(CastleTypes::WhiteQueen) => shift_piece(&mut after, 0, 0, 0, 3),
        Some(CastleTypes::BlackKing) => shift_piece(&mut after, 7, 7, 7, 5),
        Some(CastleTypes::BlackQueen) => shift_piece(&mut after, 7, 0, 7, 3),
        None => {},
    }
    match mov.passant {
        Some(PassantTypes::PassantCapture(sq)) => set_square(
            &mut after,
            sq[0],
            sq[1],
            empty_piece(),
        ),
        _ => {},
    }
    match mov.promote {
        Some(piece) => set_square(
            &mut after,
            mov.end[0],
            mov.end[1],
            Pieces { piece_type: piece.piece_type, color: mover },
        ),
        None => {},
    }
    after
}

/// The castling rights that a move leaves.
fn update_rights(
    rights: CastleRights,
    piece: Pieces,
    start: &[usize; 2],
    taken: Pieces,
    end: &[usize; 2],
) -> (after: CastleRights)
    ensures
        after == rights_after(
            rights,
            piece,
            start[0] as int,
            start[1] as int,
            taken,
            end[0] as int,
            end[1] as int,
        ),
{
    let white_moved: bool = piece.is_piece(PieceTypes::King, WHITE);
    let black_moved: bool = piece.is_piece(PieceTypes::King, BLACK);
    let white_rook: bool = piece.is_piece(PieceTypes::Rook, WHITE);
    let black_rook: bool = piece.is_piece(PieceTypes::Rook, BLACK);
    let white_taken: bool = taken.is_piece(PieceTypes::Rook, WHITE);
    let black_taken: bool = taken.is_piece(PieceTypes::Rook, BLACK);
    CastleRights {
        white_king: rights.white_king && !white_moved && !(white_rook && start[0] == 0 && start[1]
            == 7) && !(white_taken && end[0] == 0 && end[1] == 7),
        white_queen: rights.white_queen && !white_moved && !(white_rook && start[0] == 0
            && start[1] == 0) && !(white_taken && end[0] == 0 && end[1] == 0),
        black_king: rights.black_king && !black_moved && !(black_rook && start[0] == 7 && start[1]
            == 7) && !(black_taken && end[0] == 7 && end[1] == 7),
        black_queen: rights.black_queen && !black_moved && !(black_rook && start[0] == 7
            && start[1] == 0) && !(black_taken && end[0] == 7 && end[1] == 0),
    }
}

/// A map of counters that are all zero.
pub fn zero_map() -> (map: AttackMap)
    ensures
        forall|r: int, c: int| on_board(r, c) ==> #[trigger] map[r][c] == 0,
{
    let row: [u8; 8] = [0u8, 0u8, 0u8, 0u8, 0u8, 0u8, 0u8, 0u8];
    let map: AttackMap = [row, row, row, row, row, row, row, row];
    proof {
        assert forall|r: int, c: int| on_board(r, c) implies #[trigger] map[r][c] == 0 by {
            assert(map@[r] == row);
        }
    }
    map
}

/// Counts, for every square, the pieces of `player` that attack it.
pub fn attack_map(board: &Grid, player: bool) -> (map: AttackMap)
    ensures
        is_attack_map(map, grid_view(*board), player),
{
    let ghost s = grid_view(*board);
    let own: PieceColors = player_color(player);
    let mut map: AttackMap = zero_map();
    let mut i: usize = 0;
    while i < 8
        invariant
            i <= 8,
            s == grid_view(*board),
            own == color_of(player),
            forall|r: int, c: int|
                on_board(r, c) ==> #[trigger] map[r][c] == board_attackers(s, player, r, c, i as int),
        decreases 8 - i,
    {
        let mut j: usize = 0;
        while j < 8
            invariant
                i < 8,
                j <= 8,
                s == grid_view(*board),
                own == color_of(player),
                forall|r: int, c: int|
                    on_board(r, c) ==> #[trigger] map[r][c] == board_attackers(
                        s,
                        player,
                        r,
                        c,
                        i as int,
                    ) + row_attackers(s, player, r, c, i as int, j as int),
            decreases 8 - j,
        {
            proof {
                assert forall|r: int, c: int| on_board(r, c) implies #[trigger] map[r][c] <= 64 by {
                    lemma_board_attackers_bounds(s, player, r, c, i as int);
                    lemma_row_attackers_bounds(s, player, r, c, i as int, j as int);
                }
                assert(s[i as int][j as int] == board[i as int][j as int]);
            }
            if board[i][j].color == own {
                add_piece_attacks(&mut map, board, i, j);
            }
            j += 1;
        }
        i += 1;
    }
    map
}

impl Array2D {
    /// The two king squares are squares of the board.
    pub open spec fn kings_on_board(&self) -> bool {
        &&& self.white_king[0] < 8
        &&& self.white_king[1] < 8
        &&& self.black_king[0] < 8
        &&& self.black_king[1] < 8
    }

    /// What the position keeps beside the squares is what the squares give:
    /// the two attack maps and the player in check.
    pub open spec fn caches_ok(&self) -> bool {
        &&& is_attack_map(self.white_attack_map, self@.board, WHITE)
        &&& is_attack_map(self.black_attack_map, self@.board, BLACK)
        &&& self.check == self@.check()
    }

    /// Counts, for every square, the pieces of each colour that attack it.
    /// The first map is White's, the second Black's.
    pub fn generate_attack_maps(board: Grid) -> (maps: [AttackMap; 2])
        ensures
            is_attack_map(maps[0], grid_view(board), WHITE),
            is_attack_map(maps[1], grid_view(board), BLACK),
    {
        [attack_map(&board, WHITE), attack_map(&board, BLACK)]
    }

    /// Whether a black piece attacks the white king.
    pub fn is_white_checked(&self) -> (checked: bool)
        requires
            self.kings_on_board(),
            is_attack_map(self.black_attack_map, self@.board, BLACK),
        ensures
            checked == self@.in_check(WHITE),
    {
        self.black_attack_map[self.white_king[0]][self.white_king[1]] > 0
    }

    /// Whether a white piece attacks the black king.
    pub fn is_black_checked(&self) -> (checked: bool)
        requires
            self.kings_on_board(),
            is_attack_map(self.white_attack_map, self@.board, WHITE),
        ensures
            checked == self@.in_check(BLACK),
    {
        self.white_attack_map[self.black_king[0]][self.black_king[1]] > 0
    }

    /// The player whose king is attacked, read from the attack maps.
    pub fn who_is_checked(&self) -> (check: Option<bool>)
        requires
            self.kings_on_board(),
            is_attack_map(self.white_attack_map, self@.board, WHITE),
            is_attack_map(self.black_attack_map, self@.board, BLACK),
        ensures
            check == self@.check(),
    {
        if self.is_white_checked() {
            Some(WHITE)
        } else if self.is_black_checked() {
            Some(BLACK)
        } else {
            None
        }
    }

    /// The position after a move: the pieces are moved, the turn passes, and
    /// the castling rights, the square for capturing in passing, the two
    /// counters, the attack maps and the check are brought up to date.
    pub fn apply_move(&self, mov: &GameMove) -> (next: Array2D)
        requires
            self.kings_on_board(),
            move_on_board(*mov),
            self.half_moves < usize::MAX,
            self.full_moves < usize::MAX,
        ensures
            next@ == self@.apply(*mov),
            next.caches_ok(),
            next.kings_on_board(),
            self.wf() && legal(self@, *mov) ==> next.wf(),
    {
        proof {
            if self.wf() && legal(self@, *mov) {
                lemma_legal_move_keeps_playable(self@, *mov);
            }
        }
        let piece: Pieces = self.board[mov.start[0]][mov.start[1]];
        let taken: Pieces = self.board[mov.end[0]][mov.end[1]];
        assert(self@.mover(*mov) == piece);
        assert(self@.target(*mov) == taken);
        let board: Grid = move_pieces(&self.board, mov);
        let maps: [AttackMap; 2] = Array2D::generate_attack_maps(board);
        let mut next: Array2D = Array2D {
            board,
            curr_move: !self.curr_move,
            castling_rights: update_rights(
                self.castling_rights,
                piece,
                &mov.start,
                taken,
                &mov.end,
            ),
            en_passant: match mov.passant {
                Some(PassantTypes::PassantAvailable(sq)) => Some(sq),
                _ => None,
            },
            half_moves: if taken.piece_type != PieceTypes::Empty || piece.piece_type
                == PieceTypes::Pawn {
                0
            } else {
                self.half_moves + 1
            },
            full_moves: if self.curr_move {
                self.full_moves + 1
            } else {
                self.full_moves
            },
            check: None,
            white_king: if piece.is_piece(PieceTypes::King, WHITE) {
                mov.end
            } else {
                self.white_king
            },
            black_king: if piece.is_piece(PieceTypes::King, BLACK) {
                mov.end
            } else {
                self.black_king
            },
            white_attack_map: maps[0],
            black_attack_map: maps[1],
        };
        next.check = next.who_is_checked();
        next
    }
}

impl Board for Array2D {
    open spec fn position(&self) -> PositionView {
        self@
    }

    open spec fn wf(&self) -> bool {
        self@.playable() && self.caches_ok()
    }

    proof fn lemma_wf_is_playable(&self) {
    }

    fn setup_board(fen: Option<&str>) -> (r: Result<Array2D, ChessError>) {
        match fen {
            Some(text) => read_position(text),
            None => read_position(START_POSITION),
        }
    }

    /// The legal moves: moves with a higher score first, and moves of one
    /// score in the order of the squares they start from, row by row from
    /// a1, and of the piece's directions.
    fn get_valid_moves(&self) -> (moves: Vec<GameMove>) {
        let generated: Vec<GameMove> = generate_moves(self);
        let moves: Vec<GameMove> = order_moves(&generated, Ghost(self@));
        proof {
            lemma_move_list_unique(self@, moves@);
        }
        moves
    }

    fn make_move(&self, mov: &GameMove) -> (next: Array2D) {
        self.apply_move(mov)
    }

    fn get_check(&self) -> (check: Option<bool>) {
        self.check
    }

    fn get_curr_player(&self) -> (player: bool) {
        self.curr_move
    }

    fn get_board_as_2d(&self) -> (board: Grid) {
        self.board
    }

    fn get_castle_rights(&self) -> (rights: [bool; 4]) {
        self.castling_rights.as_array()
    }
}

} // verus!
