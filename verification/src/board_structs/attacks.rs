use crate::board_structs::geometry::{
    abs, along, diagonal, grid_view, is_direction, is_in_bounds, king_step, knight_step, on_board,
    on_ray,
    path_clear, ray_piece, sign, span, straight, AttackMap, Grid, Squares,
};
use crate::utils::pieces::{color_of, PieceColors, PieceTypes, Pieces};
use vstd::prelude::*;

verus! {

/// Whether the piece on `(fr, fc)` attacks the square `(tr, tc)`: a pawn
/// attacks the two squares diagonally ahead of it, a knight and a king the
/// squares one step away, and a bishop, rook or queen every square along its
/// lines up to and including the first occupied one.
pub open spec fn attacks(s: Squares, fr: int, fc: int, tr: int, tc: int) -> bool {
    let dr = tr - fr;
    let dc = tc - fc;
    let clear = path_clear(s, fr, fc, sign(dr), sign(dc), span(dr, dc));
    match s[fr][fc].piece_type {
        PieceTypes::Knight => knight_step(dr, dc),
        PieceTypes::King => king_step(dr, dc),
        PieceTypes::Pawn => abs(dc) == 1 && dr == (if s[fr][fc].color == PieceColors::Black {
            -1int
        } else {
            1int
        }),
        PieceTypes::Rook => straight(dr, dc) && clear,
        PieceTypes::Bishop => diagonal(dr, dc) && clear,
        PieceTypes::Queen => (straight(dr, dc) || diagonal(dr, dc)) && clear,
        PieceTypes::Empty => false,
    }
}

/// Whether `(fr, fc)` holds a piece of `player` that attacks `(tr, tc)`.
pub open spec fn is_attacker(s: Squares, player: bool, fr: int, fc: int, tr: int, tc: int) -> bool {
    s[fr][fc].color == color_of(player) && attacks(s, fr, fc, tr, tc)
}

/// 1 for an attacker, 0 otherwise.
pub open spec fn attacker_weight(
    s: Squares,
    player: bool,
    fr: int,
    fc: int,
    tr: int,
    tc: int,
) -> int {
    if is_attacker(s, player, fr, fc, tr, tc) {
        1
    } else {
        0
    }
}

/// How many pieces of `player` in the first `n` columns of row `r` attack
/// `(tr, tc)`.
pub open spec fn row_attackers(s: Squares, player: bool, tr: int, tc: int, r: int, n: int) -> int
    decreases n,
{
    if n <= 0 {
        0
    } else {
        row_attackers(s, player, tr, tc, r, n - 1) + attacker_weight(s, player, r, n - 1, tr, tc)
    }
}

/// How many pieces of `player` in the first `n` rows attack `(tr, tc)`.
pub open spec fn board_attackers(s: Squares, player: bool, tr: int, tc: int, n: int) -> int
    decreases n,
{
    if n <= 0 {
        0
    } else {
        board_attackers(s, player, tr, tc, n - 1) + row_attackers(s, player, tr, tc, n - 1, 8)
    }
}

/// How many pieces of `player` attack `(tr, tc)`.
pub open spec fn attack_count(s: Squares, player: bool, tr: int, tc: int) -> int {
    board_attackers(s, player, tr, tc, 8)
}

/// Whether `map` holds, for every square, the number of pieces of `player`
/// that attack it.
pub open spec fn is_attack_map(map: AttackMap, s: Squares, player: bool) -> bool {
    forall|r: int, c: int| on_board(r, c) ==> #[trigger] map[r][c] == attack_count(s, player, r, c)
}

pub proof fn lemma_row_attackers_bounds(s: Squares, player: bool, tr: int, tc: int, r: int, n: int)
    requires
        0 <= n,
    ensures
        0 <= row_attackers(s, player, tr, tc, r, n) <= n,
    decreases n,
{
    if n > 0 {
        lemma_row_attackers_bounds(s, player, tr, tc, r, n - 1);
    }
}

pub proof fn lemma_board_attackers_bounds(s: Squares, player: bool, tr: int, tc: int, n: int)
    requires
        0 <= n,
    ensures
        0 <= board_attackers(s, player, tr, tc, n) <= 8 * n,
    decreases n,
{
    if n > 0 {
        lemma_board_attackers_bounds(s, player, tr, tc, n - 1);
        lemma_row_attackers_bounds(s, player, tr, tc, n - 1, 8);
    }
}

proof fn lemma_row_attacker_counts(
    s: Squares,
    player: bool,
    tr: int,
    tc: int,
    r: int,
    n: int,
    fc: int,
)
    requires
        0 <= fc < n,
        is_attacker(s, player, r, fc, tr, tc),
    ensures
        row_attackers(s, player, tr, tc, r, n) >= 1,
    decreases n,
{
    lemma_row_attackers_bounds(s, player, tr, tc, r, n - 1);
    if fc < n - 1 {
        lemma_row_attacker_counts(s, player, tr, tc, r, n - 1, fc);
    }
}

proof fn lemma_board_attacker_counts(
    s: Squares,
    player: bool,
    tr: int,
    tc: int,
    n: int,
    fr: int,
    fc: int,
)
    requires
        0 <= fr < n,
        0 <= fc < 8,
        is_attacker(s, player, fr, fc, tr, tc),
    ensures
        board_attackers(s, player, tr, tc, n) >= 1,
    decreases n,
{
    lemma_board_attackers_bounds(s, player, tr, tc, n - 1);
    lemma_row_attackers_bounds(s, player, tr, tc, n - 1, 8);
    if fr < n - 1 {
        lemma_board_attacker_counts(s, player, tr, tc, n - 1, fr, fc);
    } else {
        lemma_row_attacker_counts(s, player, tr, tc, fr, 8, fc);
    }
}

/// A square that some piece of `player` attacks has a positive count.
pub proof fn lemma_attacker_counts(s: Squares, player: bool, fr: int, fc: int, tr: int, tc: int)
    requires
        on_board(fr, fc),
        is_attacker(s, player, fr, fc, tr, tc),
    ensures
        attack_count(s, player, tr, tc) >= 1,
{
    lemma_board_attacker_counts(s, player, tr, tc, 8, fr, fc);
}

proof fn lemma_row_no_attackers(s: Squares, player: bool, tr: int, tc: int, r: int, n: int)
    requires
        0 <= n <= 8,
        forall|fc: int| 0 <= fc < n ==> !#[trigger] is_attacker(s, player, r, fc, tr, tc),
    ensures
        row_attackers(s, player, tr, tc, r, n) == 0,
    decreases n,
{
    if n > 0 {
        lemma_row_no_attackers(s, player, tr, tc, r, n - 1);
    }
}

proof fn lemma_board_no_attackers(s: Squares, player: bool, tr: int, tc: int, n: int)
    requires
        0 <= n <= 8,
        forall|fr: int, fc: int|
            on_board(fr, fc) ==> !#[trigger] is_attacker(s, player, fr, fc, tr, tc),
    ensures
        board_attackers(s, player, tr, tc, n) == 0,
    decreases n,
{
    if n > 0 {
        lemma_board_no_attackers(s, player, tr, tc, n - 1);
        lemma_row_no_attackers(s, player, tr, tc, n - 1, 8);
    }
}

/// A square with a positive count is attacked by some piece of `player`.
pub proof fn lemma_count_has_attacker(s: Squares, player: bool, tr: int, tc: int)
    requires
        attack_count(s, player, tr, tc) >= 1,
    ensures
        exists|fr: int, fc: int|
            on_board(fr, fc) && #[trigger] is_attacker(s, player, fr, fc, tr, tc),
{
    if forall|fr: int, fc: int|
        on_board(fr, fc) ==> !#[trigger] is_attacker(s, player, fr, fc, tr, tc) {
        lemma_board_no_attackers(s, player, tr, tc, 8);
    }
}

/// Adds one to the counter of `(tr, tc)` if that is a square of the board.
fn bump(map: &mut AttackMap, tr: i32, tc: i32)
    requires
        on_board(tr as int, tc as int) ==> old(map)[tr as int][tc as int] < 255,
    ensures
        forall|r: int, c: int|
            on_board(r, c) ==> #[trigger] final(map)[r][c] == old(map)[r][c] + (if r == tr && c
                == tc {
                1int
            } else {
                0int
            }),
{
    if is_in_bounds([tr, tc]) {
        let r: usize = tr as usize;
        let c: usize = tc as usize;
        let count: u8 = map[r][c];
        map[r][c] = count + 1;
    }
}

/// Adds one to the counter of each square that a piece on `(r, c)` reaches by
/// sliding in the direction `(dr, dc)`: the empty squares and the first
/// occupied one.
fn cast_ray(map: &mut AttackMap, board: &Grid, r: usize, c: usize, dr: i32, dc: i32)
    requires
        r < 8,
        c < 8,
        is_direction(dr as int, dc as int),
        forall|i: int, j: int| on_board(i, j) ==> #[trigger] old(map)[i][j] < 255,
    ensures
        forall|i: int, j: int|
            on_board(i, j) ==> #[trigger] final(map)[i][j] == old(map)[i][j] + (if on_ray(
                grid_view(*board),
                r as int,
                c as int,
                dr as int,
                dc as int,
                i,
                j,
            ) {
                1int
            } else {
                0int
            }),
{
    let ghost s = grid_view(*board);
    let ghost before = *map;
    let mut x: i32 = r as i32 + dr;
    let mut y: i32 = c as i32 + dc;
    let mut n: i32 = 1;
    let mut blocked: bool = false;
    while !blocked && is_in_bounds([x, y])
        invariant
            r < 8,
            c < 8,
            is_direction(dr as int, dc as int),
            s == grid_view(*board),
            1 <= n <= 8,
            path_clear(s, r as int, c as int, dr as int, dc as int, n as int),
            !blocked ==> x == r + along(dr as int, n as int) && y == c + along(dc as int, n as int),
            blocked ==> !ray_piece(s, r as int, c as int, dr as int, dc as int, n as int).is_empty(),
            forall|i: int, j: int| on_board(i, j) ==> #[trigger] before[i][j] < 255,
            forall|i: int, j: int|
                on_board(i, j) ==> #[trigger] map[i][j] == before[i][j] + (if on_ray(
                    s,
                    r as int,
                    c as int,
                    dr as int,
                    dc as int,
                    i,
                    j,
                ) && span(i - r, j - c) < n + (if blocked {
                    1int
                } else {
                    0int
                }) {
                    1int
                } else {
                    0int
                }),
        decreases (if blocked { 0int } else { 9 - n }),
    {
        let ghost prev = *map;
        let row: usize = x as usize;
        let col: usize = y as usize;
        assert(on_ray(s, r as int, c as int, dr as int, dc as int, x as int, y as int));
        let count: u8 = map[row][col];
        map[row][col] = count + 1;
        if board[row][col].piece_type != PieceTypes::Empty {
            blocked = true;
            assert(ray_piece(s, r as int, c as int, dr as int, dc as int, n as int) == board[row as int][col as int]);
        } else {
            assert(ray_piece(s, r as int, c as int, dr as int, dc as int, n as int).is_empty());
            x = x + dr;
            y = y + dc;
            n = n + 1;
        }
    }
    proof {
        assert forall|i: int, j: int| on_board(i, j) implies #[trigger] map[i][j] == before[i][j]
            + (if on_ray(s, r as int, c as int, dr as int, dc as int, i, j) {
            1int
        } else {
            0int
        }) by {
            if on_ray(s, r as int, c as int, dr as int, dc as int, i, j) && blocked {
                if span(i - r, j - c) > n {
                    assert(ray_piece(s, r as int, c as int, dr as int, dc as int, n as int).is_empty());
                }
            }
        }
    }
}

/// Adds one to the counter of each square that the piece on `(r, c)` attacks.
pub fn add_piece_attacks(map: &mut AttackMap, board: &Grid, r: usize, c: usize)
    requires
        r < 8,
        c < 8,
        forall|i: int, j: int| on_board(i, j) ==> #[trigger] old(map)[i][j] <= 64,
    ensures
        forall|i: int, j: int|
            on_board(i, j) ==> #[trigger] final(map)[i][j] == old(map)[i][j] + (if attacks(
                grid_view(*board),
                r as int,
                c as int,
                i,
                j,
            ) {
                1int
            } else {
                0int
            }),
{
    let piece: Pieces = board[r][c];
    let x: i32 = r as i32;
    let y: i32 = c as i32;
    let ghost s = grid_view(*board);
    assert(s[r as int][c as int] == piece);
    match piece.piece_type {
        PieceTypes::Knight => {
            bump(map, x - 2, y - 1);
            bump(map, x - 2, y + 1);
            bump(map, x + 2, y - 1);
            bump(map, x + 2, y + 1);
            bump(map, x - 1, y - 2);
            bump(map, x - 1, y + 2);
            bump(map, x + 1, y - 2);
            bump(map, x + 1, y + 2);
        },
        PieceTypes::King => {
            bump(map, x - 1, y);
            bump(map, x + 1, y);
            bump(map, x, y - 1);
            bump(map, x, y + 1);
            bump(map, x - 1, y - 1);
            bump(map, x - 1, y + 1);
            bump(map, x + 1, y - 1);
            bump(map, x + 1, y + 1);
        },
        PieceTypes::Pawn => {
            let ahead: i32 = match piece.color {
                PieceColors::Black => x - 1,
                _ => x + 1,
            };
            bump(map, ahead, y - 1);
            bump(map, ahead, y + 1);
        },
        PieceTypes::Rook => {
            cast_ray(map, board, r, c, -1, 0);
            cast_ray(map, board, r, c, 1, 0);
            cast_ray(map, board, r, c, 0, -1);
            cast_ray(map, board, r, c, 0, 1);
        },
        PieceTypes::Bishop => {
            cast_ray(map, board, r, c, -1, -1);
            cast_ray(map, board, r, c, -1, 1);
            cast_ray(map, board, r, c, 1, -1);
            cast_ray(map, board, r, c, 1, 1);
        },
        PieceTypes::Queen => {
            cast_ray(map, board, r, c, -1, 0);
            cast_ray(map, board, r, c, 1, 0);
            cast_ray(map, board, r, c, 0, -1);
            cast_ray(map, board, r, c, 0, 1);
            cast_ray(map, board, r, c, -1, -1);
            cast_ray(map, board, r, c, -1, 1);
            cast_ray(map, board, r, c, 1, -1);
            cast_ray(map, board, r, c, 1, 1);
        },
        PieceTypes::Empty => {},
    }
}

} // verus!
