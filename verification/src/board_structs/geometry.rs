use crate::utils::pieces::{Pieces, BLACK};
use vstd::prelude::*;

verus! {

/// The squares of a board as rows of pieces: row 0 is the first rank, column
/// 0 the a-file.
pub type Squares = Seq<Seq<Pieces>>;

/// A board of eight rows of eight squares.
pub type Grid = [[Pieces; 8]; 8];

/// One counter for each square of the board.
pub type AttackMap = [[u8; 8]; 8];

/// The squares that a grid holds.
pub open spec fn grid_view(board: Grid) -> Squares {
    Seq::new(8, |r: int| board[r]@)
}

/// Eight rows of eight squares, each empty or holding a piece of one colour.
pub open spec fn squares_ok(s: Squares) -> bool {
    &&& s.len() == 8
    &&& forall|r: int| 0 <= r < 8 ==> (#[trigger] s[r]).len() == 8
    &&& forall|r: int, c: int| on_board(r, c) ==> (#[trigger] s[r][c]).is_valid()
}

pub open spec fn on_board(r: int, c: int) -> bool {
    0 <= r < 8 && 0 <= c < 8
}

/// Whether a row and a column are those of a square of the board.
pub fn is_in_bounds(pos: [i32; 2]) -> (inside: bool)
    ensures
        inside == on_board(pos[0] as int, pos[1] as int),
{
    !(pos[0] > 7 || pos[0] < 0 || pos[1] > 7 || pos[1] < 0)
}

pub open spec fn sign(d: int) -> int {
    if d > 0 {
        1
    } else if d < 0 {
        -1
    } else {
        0
    }
}

pub open spec fn abs(d: int) -> int {
    if d < 0 {
        -d
    } else {
        d
    }
}

/// How many king steps apart two squares are that differ by `(dr, dc)`.
pub open spec fn span(dr: int, dc: int) -> int {
    if abs(dr) >= abs(dc) {
        abs(dr)
    } else {
        abs(dc)
    }
}

/// The change of a coordinate after `k` steps in the direction `d`, of which
/// only the sign counts.
pub open spec fn along(d: int, k: int) -> int {
    if d > 0 {
        k
    } else if d < 0 {
        -k
    } else {
        0
    }
}

/// Whether `(dr, dc)` is one step of a direction: not both zero, each -1, 0
/// or 1.
pub open spec fn is_direction(dr: int, dc: int) -> bool {
    -1 <= dr <= 1 && -1 <= dc <= 1 && (dr != 0 || dc != 0)
}

/// What stands `k` steps from `(r, c)` in the direction `(dr, dc)`.
pub open spec fn ray_piece(s: Squares, r: int, c: int, dr: int, dc: int, k: int) -> Pieces {
    s[r + along(dr, k)][c + along(dc, k)]
}

/// Whether the first `n - 1` squares from `(r, c)` in the direction
/// `(dr, dc)` are empty.
pub open spec fn path_clear(s: Squares, r: int, c: int, dr: int, dc: int, n: int) -> bool {
    forall|k: int| 1 <= k < n ==> (#[trigger] ray_piece(s, r, c, dr, dc, k)).is_empty()
}

/// A move along a row or a column.
pub open spec fn straight(dr: int, dc: int) -> bool {
    (dr == 0) != (dc == 0)
}

/// A move along a diagonal.
pub open spec fn diagonal(dr: int, dc: int) -> bool {
    dr != 0 && (dr == dc || dr == -dc)
}

pub open spec fn knight_step(dr: int, dc: int) -> bool {
    (abs(dr) == 1 && abs(dc) == 2) || (abs(dr) == 2 && abs(dc) == 1)
}

pub open spec fn king_step(dr: int, dc: int) -> bool {
    span(dr, dc) == 1
}

/// The direction in which a player's pawns advance.
pub open spec fn forward(player: bool) -> int {
    if player == BLACK {
        -1
    } else {
        1
    }
}

/// Whether `(tr, tc)` is reached from `(r, c)` by going in the direction
/// `(dr, dc)` over empty squares only.
pub open spec fn on_ray(s: Squares, r: int, c: int, dr: int, dc: int, tr: int, tc: int) -> bool {
    let n = span(tr - r, tc - c);
    n >= 1 && tr == r + along(dr, n) && tc == c + along(dc, n) && path_clear(s, r, c, dr, dc, n)
}

} // verus!
