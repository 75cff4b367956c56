use crate::board_structs::board_types::array2d::{attack_map, move_pieces, Array2D};
use crate::board_structs::geometry::{
    along, diagonal, forward, is_direction, is_in_bounds, king_step, knight_step, on_board,
    path_clear, ray_piece, sign, span, squares_ok, straight, AttackMap, Grid,
};
use crate::board_structs::legal::{
    can_castle, cols, dir_index, forward_row, home_row, is_promotion_kind, knight_index, legal,
    pawn_capture, pawn_passant, pawn_push, piece_moves, promotion_index, pseudo_legal, rank,
    rank_limit, rows,
};
use crate::board_structs::position::{move_on_board, PositionView};
use crate::utils::game_move::{lemma_move_eq, CastleTypes, GameMove, PassantTypes};
use crate::utils::pieces::{color_of, player_color, PieceColors, PieceTypes, Pieces, BLACK};
use vstd::prelude::*;

verus! {

/// Whether a move leaves the king of the player who makes it unattacked.
pub fn leaves_king_safe(game: &Array2D, mov: &GameMove) -> (safe: bool)
    requires
        game.kings_on_board(),
        move_on_board(*mov),
    ensures
        safe == !game@.apply(*mov).in_check(game.curr_move),
{
    let piece: Pieces = game.board[mov.start[0]][mov.start[1]];
    assert(game@.mover(*mov) == piece);
    let after: Grid = move_pieces(&game.board, mov);
    let map: AttackMap = attack_map(&after, !game.curr_move);
    let king: [usize; 2] = if piece.is_piece(PieceTypes::King, game.curr_move) {
        mov.end
    } else if game.curr_move {
        game.black_king
    } else {
        game.white_king
    };
    map[king[0]][king[1]] == 0
}

/// A list of moves stays what it is when the ranks between `lo` and `hi`
/// hold no legal move.
proof fn lemma_skip_moves(s: PositionView, out: Seq<GameMove>, r: int, c: int, lo: int, hi: int)
    requires
        piece_moves(s, out, r, c, lo),
        lo <= hi,
        forall|m: GameMove|
            #[trigger] legal(s, m) && m.start[0] == r && m.start[1] == c ==> !(lo <= rank(s, m)
                < hi),
    ensures
        piece_moves(s, out, r, c, hi),
{
}

/// A list of moves with the one legal move of the ranks between `lo` and
/// `hi` added is the list up to `hi`.
proof fn lemma_push_move(
    s: PositionView,
    out: Seq<GameMove>,
    r: int,
    c: int,
    lo: int,
    hi: int,
    cand: GameMove,
)
    requires
        piece_moves(s, out, r, c, lo),
        legal(s, cand),
        cand.start[0] == r,
        cand.start[1] == c,
        lo <= rank(s, cand) < hi,
        forall|m: GameMove|
            #[trigger] legal(s, m) && m.start[0] == r && m.start[1] == c && lo <= rank(s, m) < hi
                ==> m == cand,
    ensures
        piece_moves(s, out.push(cand), r, c, hi),
{
    let next = out.push(cand);
    assert forall|m: GameMove|
        #![trigger next.contains(m)]
        #![trigger legal(s, m)]
        next.contains(m) <==> (legal(s, m) && m.start[0] == r && m.start[1] == c && rank(s, m)
            < hi) by {
        if next.contains(m) {
            let i = choose|i: int| 0 <= i < next.len() && next[i] == m;
            if i < out.len() {
                assert(out[i] == m);
                assert(out.contains(m));
            }
        }
        if legal(s, m) && m.start[0] == r && m.start[1] == c && rank(s, m) < hi {
            if rank(s, m) < lo {
                assert(out.contains(m));
                let i = choose|i: int| 0 <= i < out.len() && out[i] == m;
                assert(next[i] == m);
            } else {
                assert(next[out.len() as int] == m);
            }
        }
    }
    assert forall|i: int, j: int| 0 <= i < j < next.len() implies rank(s, #[trigger] next[i])
        < rank(s, #[trigger] next[j]) by {
        assert(out.contains(out[i]));
        if j < out.len() {
            assert(next[j] == out[j]);
        }
    }
}

/// Adds `cand` to the list if it leaves the king safe.
fn try_move(
    game: &Array2D,
    out: &mut Vec<GameMove>,
    cand: GameMove,
    Ghost(lo): Ghost<int>,
    Ghost(hi): Ghost<int>,
)
    requires
        game.kings_on_board(),
        pseudo_legal(game@, cand),
        piece_moves(game@, old(out)@, cand.start[0] as int, cand.start[1] as int, lo),
        lo <= rank(game@, cand) < hi,
        forall|m: GameMove|
            #[trigger] legal(game@, m) && m.start[0] == cand.start[0] && m.start[1]
                == cand.start[1] && lo <= rank(game@, m) < hi ==> m == cand,
    ensures
        piece_moves(game@, final(out)@, cand.start[0] as int, cand.start[1] as int, hi),
{
    if leaves_king_safe(game, &cand) {
        proof {
            lemma_push_move(
                game@,
                out@,
                cand.start[0] as int,
                cand.start[1] as int,
                lo,
                hi,
                cand,
            );
        }
        out.push(cand);
    } else {
        proof {
            lemma_skip_moves(game@, out@, cand.start[0] as int, cand.start[1] as int, lo, hi);
        }
    }
}

/// The rank below which a knight's or king's moves come before its step
/// `(dr, dc)`.
pub open spec fn leap_low(s: PositionView, r: int, c: int, dr: int, dc: int) -> int {
    if s.at(r, c).piece_type == PieceTypes::Knight {
        knight_index(dr, dc)
    } else {
        8 * dir_index(dr, dc)
    }
}

/// The rank from which a knight's or king's moves come after its step
/// `(dr, dc)`.
pub open spec fn leap_high(s: PositionView, r: int, c: int, dr: int, dc: int) -> int {
    if s.at(r, c).piece_type == PieceTypes::Knight {
        knight_index(dr, dc) + 1
    } else {
        8 * dir_index(dr, dc) + 8
    }
}

/// Adds the step `(dr, dc)` of the knight or king on `(r, c)` if it is legal.
fn leap(game: &Array2D, out: &mut Vec<GameMove>, r: usize, c: usize, dr: i32, dc: i32)
    requires
        game.kings_on_board(),
        r < 8,
        c < 8,
        game@.at(r as int, c as int).color == color_of(game.curr_move),
        (game@.at(r as int, c as int).piece_type == PieceTypes::Knight && knight_step(
            dr as int,
            dc as int,
        )) || (game@.at(r as int, c as int).piece_type == PieceTypes::King && king_step(
            dr as int,
            dc as int,
        )),
        piece_moves(
            game@,
            old(out)@,
            r as int,
            c as int,
            leap_low(game@, r as int, c as int, dr as int, dc as int),
        ),
    ensures
        piece_moves(
            game@,
            final(out)@,
            r as int,
            c as int,
            leap_high(game@, r as int, c as int, dr as int, dc as int),
        ),
{
    let ghost s = game@;
    let ghost lo = leap_low(s, r as int, c as int, dr as int, dc as int);
    let ghost hi = leap_high(s, r as int, c as int, dr as int, dc as int);
    let tr: i32 = r as i32 + dr;
    let tc: i32 = c as i32 + dc;
    if is_in_bounds([tr, tc]) {
        let target: Pieces = game.board[tr as usize][tc as usize];
        assert(s.board[tr as int][tc as int] == target);
        if target.color != player_color(game.curr_move) {
            let cand: GameMove = GameMove {
                start: [r, c],
                end: [tr as usize, tc as usize],
                castle: None,
                promote: None,
                passant: None,
                capture: target.piece_type != PieceTypes::Empty,
            };
            proof {
                assert forall|m: GameMove|
                    #[trigger] legal(s, m) && m.start[0] == cand.start[0] && m.start[1]
                        == cand.start[1] && lo <= rank(s, m) < hi implies m == cand by {
                    lemma_move_eq(m, cand);
                }
            }
            try_move(game, out, cand, Ghost(lo), Ghost(hi));
            return ;
        }
    }
    proof {
        lemma_skip_moves(s, out@, r as int, c as int, lo, hi);
    }
}

/// Whether a piece of kind `kind` slides in the direction `(dr, dc)`.
pub open spec fn slides(kind: PieceTypes, dr: int, dc: int) -> bool {
    match kind {
        PieceTypes::Rook => straight(dr, dc),
        PieceTypes::Bishop => diagonal(dr, dc),
        PieceTypes::Queen => true,
        _ => false,
    }
}

/// What a move of a sliding piece with a rank of the direction `(dr, dc)` is:
/// its rank is the number of steps it goes in that direction, over empty
/// squares, to a square that its player does not hold.
proof fn lemma_slider_move(s: PositionView, m: GameMove, dr: int, dc: int)
    requires
        pseudo_legal(s, m),
        is_direction(dr, dc),
        slides(s.mover(m).piece_type, dr, dc),
        8 * dir_index(dr, dc) <= rank(s, m) < 8 * dir_index(dr, dc) + 8,
    ensures
        ({
            let k = rank(s, m) - 8 * dir_index(dr, dc);
            &&& 1 <= k <= 7
            &&& m.end[0] == m.start[0] + along(dr, k)
            &&& m.end[1] == m.start[1] + along(dc, k)
            &&& path_clear(s.board, m.start[0] as int, m.start[1] as int, dr, dc, k)
            &&& s.target(m).color != color_of(s.curr_move)
            &&& m.castle is None
            &&& m.promote is None
            &&& m.passant is None
            &&& m.capture == !s.target(m).is_empty()
        }),
{
    assert(sign(rows(m)) == dr && sign(cols(m)) == dc);
}

/// No move of a sliding piece goes beyond the board.
proof fn lemma_slide_off(
    s: PositionView,
    out: Seq<GameMove>,
    r: int,
    c: int,
    dr: int,
    dc: int,
    n: int,
)
    requires
        on_board(r, c),
        is_direction(dr, dc),
        slides(s.at(r, c).piece_type, dr, dc),
        1 <= n <= 8,
        !on_board(r + along(dr, n), c + along(dc, n)),
        piece_moves(s, out, r, c, 8 * dir_index(dr, dc) + n),
    ensures
        piece_moves(s, out, r, c, 8 * dir_index(dr, dc) + 8),
{
    let base = 8 * dir_index(dr, dc);
    assert forall|m: GameMove|
        #[trigger] legal(s, m) && m.start[0] == r && m.start[1] == c implies !(base + n <= rank(
        s,
        m,
    ) < base + 8) by {
        if base + n <= rank(s, m) < base + 8 {
            lemma_slider_move(s, m, dr, dc);
        }
    }
    lemma_skip_moves(s, out, r, c, base + n, base + 8);
}

/// No move of a sliding piece goes beyond an occupied square, and none goes
/// onto a square that its own player holds.
proof fn lemma_slide_blocked(
    s: PositionView,
    out: Seq<GameMove>,
    r: int,
    c: int,
    dr: int,
    dc: int,
    n: int,
    from: int,
)
    requires
        on_board(r, c),
        is_direction(dr, dc),
        slides(s.at(r, c).piece_type, dr, dc),
        1 <= n <= 7,
        !ray_piece(s.board, r, c, dr, dc, n).is_empty(),
        from == 8 * dir_index(dr, dc) + n + 1 || (from == 8 * dir_index(dr, dc) + n && ray_piece(
            s.board,
            r,
            c,
            dr,
            dc,
            n,
        ).color == color_of(s.curr_move)),
        piece_moves(s, out, r, c, from),
    ensures
        piece_moves(s, out, r, c, 8 * dir_index(dr, dc) + 8),
{
    let base = 8 * dir_index(dr, dc);
    assert forall|m: GameMove|
        #[trigger] legal(s, m) && m.start[0] == r && m.start[1] == c implies !(from <= rank(s, m)
        < base + 8) by {
        if from <= rank(s, m) < base + 8 {
            lemma_slider_move(s, m, dr, dc);
            let k = rank(s, m) - base;
            if k > n {
                assert(ray_piece(s.board, r, c, dr, dc, n).is_empty());
            }
        }
    }
    lemma_skip_moves(s, out, r, c, from, base + 8);
}

/// The move of a sliding piece over `n` empty squares to a square that its
/// player does not hold is the one move of its rank.
proof fn lemma_slide_unique(s: PositionView, cand: GameMove, dr: int, dc: int, n: int)
    requires
        is_direction(dr, dc),
        cand.start[0] < 8,
        cand.start[1] < 8,
        cand.end[0] < 8,
        cand.end[1] < 8,
        s.mover(cand).color == color_of(s.curr_move),
        slides(s.mover(cand).piece_type, dr, dc),
        1 <= n <= 7,
        cand.end[0] == cand.start[0] + along(dr, n),
        cand.end[1] == cand.start[1] + along(dc, n),
        path_clear(s.board, cand.start[0] as int, cand.start[1] as int, dr, dc, n),
        s.target(cand).color != color_of(s.curr_move),
        cand.castle is None,
        cand.promote is None,
        cand.passant is None,
        cand.capture == !s.target(cand).is_empty(),
    ensures
        pseudo_legal(s, cand),
        rank(s, cand) == 8 * dir_index(dr, dc) + n,
        forall|m: GameMove|
            #[trigger] legal(s, m) && m.start[0] == cand.start[0] && m.start[1] == cand.start[1]
                && 8 * dir_index(dr, dc) + n <= rank(s, m) < 8 * dir_index(dr, dc) + n + 1 ==> m
                == cand,
{
    assert(sign(rows(cand)) == dr && sign(cols(cand)) == dc);
    assert(span(rows(cand), cols(cand)) == n);
    assert forall|m: GameMove|
        #[trigger] legal(s, m) && m.start[0] == cand.start[0] && m.start[1] == cand.start[1] && 8
            * dir_index(dr, dc) + n <= rank(s, m) < 8 * dir_index(dr, dc) + n + 1 implies m
        == cand by {
        assert(m.start =~= cand.start);
        lemma_slider_move(s, m, dr, dc);
        lemma_move_eq(m, cand);
    }
}

/// Adds the legal moves of the bishop, rook or queen on `(r, c)` in the
/// direction `(dr, dc)`: onto each empty square up to the first occupied one,
/// and onto that one if the other player holds it.
fn slide(game: &Array2D, out: &mut Vec<GameMove>, r: usize, c: usize, dr: i32, dc: i32)
    requires
        game.kings_on_board(),
        squares_ok(game@.board),
        r < 8,
        c < 8,
        is_direction(dr as int, dc as int),
        game@.at(r as int, c as int).color == color_of(game.curr_move),
        slides(game@.at(r as int, c as int).piece_type, dr as int, dc as int),
        piece_moves(game@, old(out)@, r as int, c as int, 8 * dir_index(dr as int, dc as int)),
    ensures
        piece_moves(
            game@,
            final(out)@,
            r as int,
            c as int,
            8 * dir_index(dr as int, dc as int) + 8,
        ),
{
    let ghost s = game@;
    let ghost base = 8 * dir_index(dr as int, dc as int);
    let own: PieceColors = player_color(game.curr_move);
    let mut x: i32 = r as i32 + dr;
    let mut y: i32 = c as i32 + dc;
    let mut n: i32 = 1;
    let mut done: bool = false;
    proof {
        assert forall|m: GameMove|
            #[trigger] legal(s, m) && m.start[0] == r && m.start[1] == c implies !(base <= rank(
            s,
            m,
        ) < base + 1) by {
            if base <= rank(s, m) < base + 1 {
                lemma_slider_move(s, m, dr as int, dc as int);
            }
        }
        lemma_skip_moves(s, out@, r as int, c as int, base, base + 1);
    }
    while !done
        invariant
            game.kings_on_board(),
            squares_ok(s.board),
            r < 8,
            c < 8,
            is_direction(dr as int, dc as int),
            s == game@,
            base == 8 * dir_index(dr as int, dc as int),
            own == color_of(game.curr_move),
            s.at(r as int, c as int).color == color_of(game.curr_move),
            slides(s.at(r as int, c as int).piece_type, dr as int, dc as int),
            1 <= n <= 8,
            !done ==> x == r + along(dr as int, n as int) && y == c + along(dc as int, n as int),
            !done ==> path_clear(s.board, r as int, c as int, dr as int, dc as int, n as int),
            !done ==> piece_moves(s, out@, r as int, c as int, base + n),
            done ==> piece_moves(s, out@, r as int, c as int, base + 8),
        decreases
                (if done {
                    0int
                } else {
                    9 - n
                }),
    {
        if !is_in_bounds([x, y]) {
            proof {
                lemma_slide_off(s, out@, r as int, c as int, dr as int, dc as int, n as int);
            }
            done = true;
        } else {
            let target: Pieces = game.board[x as usize][y as usize];
            assert(s.board[x as int][y as int] == target);
            assert(ray_piece(s.board, r as int, c as int, dr as int, dc as int, n as int) == target);
            if target.color == own {
                proof {
                    assert(target.is_valid());
                    lemma_slide_blocked(
                        s,
                        out@,
                        r as int,
                        c as int,
                        dr as int,
                        dc as int,
                        n as int,
                        base + n,
                    );
                }
                done = true;
            } else {
                let cand: GameMove = GameMove {
                    start: [r, c],
                    end: [x as usize, y as usize],
                    castle: None,
                    promote: None,
                    passant: None,
                    capture: target.piece_type != PieceTypes::Empty,
                };
                proof {
                    lemma_slide_unique(s, cand, dr as int, dc as int, n as int);
                }
                try_move(game, out, cand, Ghost(base + n), Ghost(base + n + 1));
                if target.piece_type != PieceTypes::Empty {
                    proof {
                        lemma_slide_blocked(
                            s,
                            out@,
                            r as int,
                            c as int,
                            dr as int,
                            dc as int,
                            n as int,
                            base + n + 1,
                        );
                    }
                    done = true;
                } else {
                    x = x + dr;
                    y = y + dc;
                    n = n + 1;
                }
            }
        }
    }
}

/// The legal moves of the knight, bishop, rook or queen on `start`, in the
/// order of its directions and, along each, from the nearest square on.
pub fn find_moves(game: &Array2D, start: [usize; 2]) -> (moves: Vec<GameMove>)
    requires
        game.kings_on_board(),
        squares_ok(game@.board),
        start[0] < 8,
        start[1] < 8,
        game@.at(start[0] as int, start[1] as int).color == color_of(game.curr_move),
        game@.at(start[0] as int, start[1] as int).piece_type != PieceTypes::King,
        game@.at(start[0] as int, start[1] as int).piece_type != PieceTypes::Pawn,
    ensures
        piece_moves(game@, moves@, start[0] as int, start[1] as int, rank_limit()),
{
    let r: usize = start[0];
    let c: usize = start[1];
    let ghost s = game@;
    let kind: PieceTypes = game.board[r][c].piece_type;
    assert(s.at(r as int, c as int).piece_type == kind);
    let mut moves: Vec<GameMove> = Vec::new();
    assert(piece_moves(s, moves@, r as int, c as int, 0));
    match kind {
        PieceTypes::Knight => {
            leap(game, &mut moves, r, c, -2, -1);
            leap(game, &mut moves, r, c, -2, 1);
            leap(game, &mut moves, r, c, 2, -1);
            leap(game, &mut moves, r, c, 2, 1);
            leap(game, &mut moves, r, c, -1, -2);
            leap(game, &mut moves, r, c, -1, 2);
            leap(game, &mut moves, r, c, 1, -2);
            leap(game, &mut moves, r, c, 1, 2);
        },
        PieceTypes::Rook => {
            slide(game, &mut moves, r, c, -1, 0);
            slide(game, &mut moves, r, c, 1, 0);
            slide(game, &mut moves, r, c, 0, -1);
            slide(game, &mut moves, r, c, 0, 1);
        },
        PieceTypes::Bishop => {
            proof {
                lemma_skip_moves(s, moves@, r as int, c as int, 0, 32);
            }
            slide(game, &mut moves, r, c, -1, -1);
            slide(game, &mut moves, r, c, -1, 1);
            slide(game, &mut moves, r, c, 1, -1);
            slide(game, &mut moves, r, c, 1, 1);
        },
        PieceTypes::Queen => {
            slide(game, &mut moves, r, c, -1, 0);
            slide(game, &mut moves, r, c, 1, 0);
            slide(game, &mut moves, r, c, 0, -1);
            slide(game, &mut moves, r, c, 0, 1);
            slide(game, &mut moves, r, c, -1, -1);
            slide(game, &mut moves, r, c, -1, 1);
            slide(game, &mut moves, r, c, 1, -1);
            slide(game, &mut moves, r, c, 1, 1);
        },
        _ => {},
    }
    proof {
        let reached: int = match kind {
            PieceTypes::Knight => 8,
            PieceTypes::Rook => 32,
            PieceTypes::Bishop => 64,
            PieceTypes::Queen => 64,
            _ => 0,
        };
        lemma_skip_moves(s, moves@, r as int, c as int, reached, rank_limit());
    }
    moves
}

/// The castling of `player` to the short or the long side.
pub open spec fn castle_kind(player: bool, short: bool) -> CastleTypes {
    if player == BLACK {
        if short {
            CastleTypes::BlackKing
        } else {
            CastleTypes::BlackQueen
        }
    } else {
        if short {
            CastleTypes::WhiteKing
        } else {
            CastleTypes::WhiteQueen
        }
    }
}

/// The rank of castling to the short or the long side.
pub open spec fn castle_rank(short: bool) -> int {
    if short {
        64
    } else {
        65
    }
}

/// A king that may not castle to a side has no move of that rank.
proof fn lemma_no_castle(s: PositionView, out: Seq<GameMove>, r: int, c: int, short: bool)
    requires
        s.at(r, c) == Pieces::of(PieceTypes::King, s.curr_move),
        !(can_castle(s, castle_kind(s.curr_move, short)) && r == home_row(s.curr_move) && c == 4),
        piece_moves(s, out, r, c, castle_rank(short)),
    ensures
        piece_moves(s, out, r, c, castle_rank(short) + 1),
{
    lemma_skip_moves(s, out, r, c, castle_rank(short), castle_rank(short) + 1);
}

/// The castling move of a king that may castle is the one move of its rank.
proof fn lemma_castle_unique(s: PositionView, cand: GameMove, short: bool)
    requires
        s.mover(cand) == Pieces::of(PieceTypes::King, s.curr_move),
        can_castle(s, castle_kind(s.curr_move, short)),
        cand.start[0] == home_row(s.curr_move),
        cand.start[1] == 4,
        cand.end[0] == home_row(s.curr_move),
        cand.end[1] == (if short {
            6int
        } else {
            2int
        }),
        cand.castle == Some(castle_kind(s.curr_move, short)),
        cand.promote is None,
        cand.passant is None,
        !cand.capture,
    ensures
        pseudo_legal(s, cand),
        rank(s, cand) == castle_rank(short),
        forall|m: GameMove|
            #[trigger] legal(s, m) && m.start[0] == cand.start[0] && m.start[1] == cand.start[1]
                && castle_rank(short) <= rank(s, m) < castle_rank(short) + 1 ==> m == cand,
{
    assert forall|m: GameMove|
        #[trigger] legal(s, m) && m.start[0] == cand.start[0] && m.start[1] == cand.start[1]
            && castle_rank(short) <= rank(s, m) < castle_rank(short) + 1 implies m == cand by {
        assert(m.start =~= cand.start);
        lemma_move_eq(m, cand);
    }
}

/// Adds the castling move of the king on `(r, c)` to one side if it is legal.
fn castle(game: &Array2D, out: &mut Vec<GameMove>, r: usize, c: usize, short: bool)
    requires
        game.kings_on_board(),
        game.caches_ok(),
        squares_ok(game@.board),
        r < 8,
        c < 8,
        game@.at(r as int, c as int) == Pieces::of(PieceTypes::King, game.curr_move),
        piece_moves(game@, old(out)@, r as int, c as int, castle_rank(short)),
    ensures
        piece_moves(game@, final(out)@, r as int, c as int, castle_rank(short) + 1),
{
    let ghost s = game@;
    let player: bool = game.curr_move;
    let row: usize = if player {
        7
    } else {
        0
    };
    let kind: CastleTypes = if player {
        if short {
            CastleTypes::BlackKing
        } else {
            CastleTypes::BlackQueen
        }
    } else {
        if short {
            CastleTypes::WhiteKing
        } else {
            CastleTypes::WhiteQueen
        }
    };
    let right: bool = match kind {
        CastleTypes::WhiteKing => game.castling_rights.white_king,
        CastleTypes::WhiteQueen => game.castling_rights.white_queen,
        CastleTypes::BlackKing => game.castling_rights.black_king,
        CastleTypes::BlackQueen => game.castling_rights.black_queen,
    };
    let mut allowed: bool = right && game.check.is_none() && r == row && c == 4;
    if allowed {
        assert(s.board[row as int] == game.board[row as int]@);
        let theirs: &AttackMap = if player {
            &game.white_attack_map
        } else {
            &game.black_attack_map
        };
        if short {
            allowed = game.board[row][7].is_piece(PieceTypes::Rook, player)
                && game.board[row][5].piece_type == PieceTypes::Empty
                && game.board[row][6].piece_type == PieceTypes::Empty && theirs[row][5] == 0
                && theirs[row][6] == 0;
        } else {
            allowed = game.board[row][0].is_piece(PieceTypes::Rook, player)
                && game.board[row][1].piece_type == PieceTypes::Empty
                && game.board[row][2].piece_type == PieceTypes::Empty
                && game.board[row][3].piece_type == PieceTypes::Empty && theirs[row][3] == 0
                && theirs[row][2] == 0;
        }
    }
    assert(allowed == (can_castle(s, kind) && r == home_row(player) && c == 4));
    if allowed {
        let cand: GameMove = GameMove {
            start: [r, c],
            end: [
                row,
                if short {
                    6
                } else {
                    2
                },
            ],
            castle: Some(kind),
            promote: None,
            passant: None,
            capture: false,
        };
        proof {
            lemma_castle_unique(s, cand, short);
        }
        try_move(game, out, cand, Ghost(castle_rank(short)), Ghost(castle_rank(short) + 1));
    } else {
        proof {
            lemma_no_castle(s, out@, r as int, c as int, short);
        }
    }
}

/// The legal moves of the king on `start`: its eight steps, then castling to
/// the short and to the long side.
pub fn king_moves(game: &Array2D, start: [usize; 2]) -> (moves: Vec<GameMove>)
    requires
        game.kings_on_board(),
        game.caches_ok(),
        squares_ok(game@.board),
        start[0] < 8,
        start[1] < 8,
        game@.at(start[0] as int, start[1] as int) == Pieces::of(PieceTypes::King, game.curr_move),
    ensures
        piece_moves(game@, moves@, start[0] as int, start[1] as int, rank_limit()),
{
    let r: usize = start[0];
    let c: usize = start[1];
    let ghost s = game@;
    let mut moves: Vec<GameMove> = Vec::new();
    assert(piece_moves(s, moves@, r as int, c as int, 0));
    leap(game, &mut moves, r, c, -1, 0);
    leap(game, &mut moves, r, c, 1, 0);
    leap(game, &mut moves, r, c, 0, -1);
    leap(game, &mut moves, r, c, 0, 1);
    leap(game, &mut moves, r, c, -1, -1);
    leap(game, &mut moves, r, c, -1, 1);
    leap(game, &mut moves, r, c, 1, -1);
    leap(game, &mut moves, r, c, 1, 1);
    castle(game, &mut moves, r, c, true);
    castle(game, &mut moves, r, c, false);
    proof {
        lemma_skip_moves(s, moves@, r as int, c as int, 66, rank_limit());
    }
    moves
}

/// Where a pawn's moves of one kind begin among its ranks: its steps ahead
/// at 0, its captures to the left at 8 and to the right at 16.
pub open spec fn pawn_base(dc: int) -> int {
    if dc == 0 {
        0
    } else if dc < 0 {
        8
    } else {
        16
    }
}

/// Whether a pawn of the player to move on `(r, c)` can go one row ahead to
/// the column `tc`: straight onto an empty square, or sideways onto a piece
/// of the other player.
pub open spec fn pawn_can_go(s: PositionView, r: int, c: int, tc: int) -> bool {
    let tr = r + forward(s.curr_move);
    &&& on_board(r, c)
    &&& on_board(tr, tc)
    &&& s.at(r, c) == Pieces::of(PieceTypes::Pawn, s.curr_move)
    &&& if tc == c {
        s.at(tr, tc).is_empty()
    } else {
        (tc == c - 1 || tc == c + 1) && s.at(tr, tc).color == color_of(!s.curr_move)
    }
}

/// What a pawn's move one row ahead is, by its rank.
proof fn lemma_pawn_step(s: PositionView, m: GameMove, dc: int)
    requires
        squares_ok(s.board),
        pseudo_legal(s, m),
        s.mover(m).piece_type == PieceTypes::Pawn,
        -1 <= dc <= 1,
        pawn_base(dc) <= rank(s, m) < pawn_base(dc) + 4,
    ensures
        m.end[0] == m.start[0] + forward(s.curr_move),
        m.end[1] == m.start[1] + dc,
        m.castle is None,
        rank(s, m) == pawn_base(dc) + promotion_index(m.promote),
        if dc == 0 {
            pawn_push(s, m)
        } else {
            pawn_capture(s, m) || pawn_passant(s, m)
        },
{
}

/// The move of a pawn one row ahead that names no piece is, off the last
/// row, the one move of its four ranks.
proof fn lemma_pawn_plain_unique(s: PositionView, cand: GameMove)
    requires
        squares_ok(s.board),
        pawn_can_go(s, cand.start[0] as int, cand.start[1] as int, cand.end[1] as int),
        cand.end[0] == cand.start[0] + forward(s.curr_move),
        cand.end[0] != home_row(!s.curr_move),
        cand.castle is None,
        cand.promote is None,
        cand.passant is None,
        cand.capture == (cand.end[1] != cand.start[1]),
    ensures
        pseudo_legal(s, cand),
        rank(s, cand) == pawn_base(cols(cand)),
        forall|m: GameMove|
            #[trigger] legal(s, m) && m.start[0] == cand.start[0] && m.start[1] == cand.start[1]
                && pawn_base(cols(cand)) <= rank(s, m) < pawn_base(cols(cand)) + 4 ==> m == cand,
{
    let dc = cols(cand);
    assert(s.target(cand).is_valid());
    assert forall|m: GameMove|
        #[trigger] legal(s, m) && m.start[0] == cand.start[0] && m.start[1] == cand.start[1]
            && pawn_base(dc) <= rank(s, m) < pawn_base(dc) + 4 implies m == cand by {
        assert(m.start =~= cand.start);
        lemma_pawn_step(s, m, dc);
        lemma_move_eq(m, cand);
    }
}

/// The move of a pawn onto the last row that names a piece is the one move
/// of its rank.
proof fn lemma_pawn_promotion_unique(s: PositionView, cand: GameMove)
    requires
        squares_ok(s.board),
        pawn_can_go(s, cand.start[0] as int, cand.start[1] as int, cand.end[1] as int),
        cand.end[0] == cand.start[0] + forward(s.curr_move),
        cand.end[0] == home_row(!s.curr_move),
        cand.castle is None,
        cand.promote matches Some(piece) && piece.color == color_of(s.curr_move)
            && is_promotion_kind(piece.piece_type),
        cand.passant is None,
        cand.capture == (cand.end[1] != cand.start[1]),
    ensures
        pseudo_legal(s, cand),
        rank(s, cand) == pawn_base(cols(cand)) + promotion_index(cand.promote),
        forall|m: GameMove|
            #[trigger] legal(s, m) && m.start[0] == cand.start[0] && m.start[1] == cand.start[1]
                && rank(s, cand) <= rank(s, m) < rank(s, cand) + 1 ==> m == cand,
{
    let dc = cols(cand);
    assert(s.target(cand).is_valid());
    assert forall|m: GameMove|
        #[trigger] legal(s, m) && m.start[0] == cand.start[0] && m.start[1] == cand.start[1]
            && rank(s, cand) <= rank(s, m) < rank(s, cand) + 1 implies m == cand by {
        assert(m.start =~= cand.start);
        lemma_pawn_step(s, m, dc);
        lemma_move_eq(m, cand);
    }
}

/// Adds the move of the pawn on `(r, c)` to `(tr, tc)`, one row ahead, if it
/// is legal; on the last row, one move for each piece the pawn can become:
/// queen, rook, knight, bishop.
fn fan_out(game: &Array2D, out: &mut Vec<GameMove>, r: usize, c: usize, tr: usize, tc: usize)
    requires
        game.kings_on_board(),
        squares_ok(game@.board),
        pawn_can_go(game@, r as int, c as int, tc as int),
        tr == r + forward(game.curr_move),
        piece_moves(game@, old(out)@, r as int, c as int, pawn_base(tc - c)),
    ensures
        piece_moves(game@, final(out)@, r as int, c as int, pawn_base(tc - c) + 4),
{
    let ghost s = game@;
    let ghost base = pawn_base(tc - c);
    let own: PieceColors = player_color(game.curr_move);
    let last: usize = if game.curr_move {
        0
    } else {
        7
    };
    let plain: GameMove = GameMove {
        start: [r, c],
        end: [tr, tc],
        castle: None,
        promote: None,
        passant: None,
        capture: tc != c,
    };
    if tr == last {
        let queen: GameMove = GameMove {
            promote: Some(Pieces { piece_type: PieceTypes::Queen, color: own }),
            ..plain
        };
        let rook: GameMove = GameMove {
            promote: Some(Pieces { piece_type: PieceTypes::Rook, color: own }),
            ..plain
        };
        let knight: GameMove = GameMove {
            promote: Some(Pieces { piece_type: PieceTypes::Knight, color: own }),
            ..plain
        };
        let bishop: GameMove = GameMove {
            promote: Some(Pieces { piece_type: PieceTypes::Bishop, color: own }),
            ..plain
        };
        proof {
            lemma_pawn_promotion_unique(s, queen);
        }
        try_move(game, out, queen, Ghost(base), Ghost(base + 1));
        proof {
            lemma_pawn_promotion_unique(s, rook);
        }
        try_move(game, out, rook, Ghost(base + 1), Ghost(base + 2));
        proof {
            lemma_pawn_promotion_unique(s, knight);
        }
        try_move(game, out, knight, Ghost(base + 2), Ghost(base + 3));
        proof {
            lemma_pawn_promotion_unique(s, bishop);
        }
        try_move(game, out, bishop, Ghost(base + 3), Ghost(base + 4));
    } else {
        proof {
            lemma_pawn_plain_unique(s, plain);
        }
        try_move(game, out, plain, Ghost(base), Ghost(base + 4));
    }
}

/// Whether a pawn of the player to move on `(r, c)` can make its double
/// step.
pub open spec fn pawn_can_double(s: PositionView, r: int, c: int) -> bool {
    &&& on_board(r, c)
    &&& s.at(r, c) == Pieces::of(PieceTypes::Pawn, s.curr_move)
    &&& r == forward_row(s.curr_move)
    &&& s.at(r + forward(s.curr_move), c).is_empty()
    &&& s.at(r + 2 * forward(s.curr_move), c).is_empty()
}

/// A pawn that cannot make its double step has no move of that rank.
proof fn lemma_no_double(s: PositionView, out: Seq<GameMove>, r: int, c: int)
    requires
        on_board(r, c),
        s.at(r, c) == Pieces::of(PieceTypes::Pawn, s.curr_move),
        !pawn_can_double(s, r, c),
        piece_moves(s, out, r, c, 4),
    ensures
        piece_moves(s, out, r, c, 8),
{
    lemma_skip_moves(s, out, r, c, 4, 8);
}

/// The double step of a pawn is the one move of its rank.
proof fn lemma_double_unique(s: PositionView, cand: GameMove)
    requires
        pawn_can_double(s, cand.start[0] as int, cand.start[1] as int),
        cand.end[0] == cand.start[0] + 2 * forward(s.curr_move),
        cand.end[1] == cand.start[1],
        cand.castle is None,
        cand.promote is None,
        cand.passant matches Some(PassantTypes::PassantAvailable(sq)) && sq[0] == cand.start[0]
            + forward(s.curr_move) && sq[1] == cand.start[1],
        !cand.capture,
    ensures
        pseudo_legal(s, cand),
        rank(s, cand) == 4,
        forall|m: GameMove|
            #[trigger] legal(s, m) && m.start[0] == cand.start[0] && m.start[1] == cand.start[1]
                && 4 <= rank(s, m) < 8 ==> m == cand,
{
    assert forall|m: GameMove|
        #[trigger] legal(s, m) && m.start[0] == cand.start[0] && m.start[1] == cand.start[1] && 4
            <= rank(s, m) < 8 implies m == cand by {
        assert(m.start =~= cand.start);
        lemma_move_eq(m, cand);
    }
}

/// Whether a pawn of the player to move on `(r, c)` can capture in passing
/// onto the column `tc`.
pub open spec fn pawn_can_pass(s: PositionView, r: int, c: int, tc: int) -> bool {
    let tr = r + forward(s.curr_move);
    &&& on_board(r, c)
    &&& on_board(tr, tc)
    &&& (tc == c - 1 || tc == c + 1)
    &&& s.at(r, c) == Pieces::of(PieceTypes::Pawn, s.curr_move)
    &&& s.en_passant == Some((tr, tc))
    &&& s.at(tr, tc).is_empty()
    &&& s.at(r, tc) == Pieces::of(PieceTypes::Pawn, !s.curr_move)
}

/// A pawn that can neither capture nor capture in passing towards a side has
/// no move to that side.
proof fn lemma_no_capture(s: PositionView, out: Seq<GameMove>, r: int, c: int, dc: int)
    requires
        squares_ok(s.board),
        on_board(r, c),
        dc == 1 || dc == -1,
        s.at(r, c) == Pieces::of(PieceTypes::Pawn, s.curr_move),
        !pawn_can_go(s, r, c, c + dc),
        !pawn_can_pass(s, r, c, c + dc),
        piece_moves(s, out, r, c, pawn_base(dc)),
    ensures
        piece_moves(s, out, r, c, pawn_base(dc) + 8),
{
    assert forall|m: GameMove|
        #[trigger] legal(s, m) && m.start[0] == r && m.start[1] == c implies !(pawn_base(dc)
        <= rank(s, m) < pawn_base(dc) + 8) by {
        if pawn_base(dc) <= rank(s, m) < pawn_base(dc) + 4 {
            lemma_pawn_step(s, m, dc);
        }
    }
    lemma_skip_moves(s, out, r, c, pawn_base(dc), pawn_base(dc) + 8);
}

/// A pawn that cannot step ahead has no move of those ranks.
proof fn lemma_no_push(s: PositionView, out: Seq<GameMove>, r: int, c: int)
    requires
        squares_ok(s.board),
        on_board(r, c),
        s.at(r, c) == Pieces::of(PieceTypes::Pawn, s.curr_move),
        !pawn_can_go(s, r, c, c),
        piece_moves(s, out, r, c, 0),
    ensures
        piece_moves(s, out, r, c, 4),
{
    assert forall|m: GameMove|
        #[trigger] legal(s, m) && m.start[0] == r && m.start[1] == c implies !(0 <= rank(s, m)
        < 4) by {
        if 0 <= rank(s, m) < 4 {
            lemma_pawn_step(s, m, 0);
        }
    }
    lemma_skip_moves(s, out, r, c, 0, 4);
}

/// The capture in passing of a pawn is the one move of its ranks.
proof fn lemma_passant_unique(s: PositionView, cand: GameMove)
    requires
        squares_ok(s.board),
        pawn_can_pass(s, cand.start[0] as int, cand.start[1] as int, cand.end[1] as int),
        cand.end[0] == cand.start[0] + forward(s.curr_move),
        cand.castle is None,
        cand.promote is None,
        cand.passant matches Some(PassantTypes::PassantCapture(sq)) && sq[0] == cand.start[0]
            && sq[1] == cand.end[1],
        !cand.capture,
    ensures
        pseudo_legal(s, cand),
        rank(s, cand) == pawn_base(cols(cand)),
        forall|m: GameMove|
            #[trigger] legal(s, m) && m.start[0] == cand.start[0] && m.start[1] == cand.start[1]
                && pawn_base(cols(cand)) <= rank(s, m) < pawn_base(cols(cand)) + 8 ==> m == cand,
{
    let dc = cols(cand);
    assert(s.target(cand).is_valid());
    assert forall|m: GameMove|
        #[trigger] legal(s, m) && m.start[0] == cand.start[0] && m.start[1] == cand.start[1]
            && pawn_base(dc) <= rank(s, m) < pawn_base(dc) + 8 implies m == cand by {
        assert(m.start =~= cand.start);
        if pawn_base(dc) <= rank(s, m) < pawn_base(dc) + 4 {
            lemma_pawn_step(s, m, dc);
        }
        lemma_move_eq(m, cand);
    }
}

/// Adds the legal captures of the pawn on `(r, c)` towards one side: of the
/// piece diagonally ahead, or in passing.
fn capture_side(game: &Array2D, out: &mut Vec<GameMove>, r: usize, c: usize, dc: i32)
    requires
        game.kings_on_board(),
        squares_ok(game@.board),
        r < 8,
        c < 8,
        dc == 1 || dc == -1,
        game@.at(r as int, c as int) == Pieces::of(PieceTypes::Pawn, game.curr_move),
        piece_moves(game@, old(out)@, r as int, c as int, pawn_base(dc as int)),
    ensures
        piece_moves(game@, final(out)@, r as int, c as int, pawn_base(dc as int) + 8),
{
    let ghost s = game@;
    let ghost base = pawn_base(dc as int);
    let x: i32 = if game.curr_move {
        r as i32 - 1
    } else {
        r as i32 + 1
    };
    let y: i32 = c as i32 + dc;
    if is_in_bounds([x, y]) {
        let tr: usize = x as usize;
        let tc: usize = y as usize;
        let target: Pieces = game.board[tr][tc];
        assert(s.at(tr as int, tc as int) == target);
        assert(target.is_valid());
        assert(s.at(r as int, tc as int) == game.board[r as int][tc as int]);
        let skipped: bool = match game.en_passant {
            Some(sq) => sq[0] == tr && sq[1] == tc,
            None => false,
        };
        if target.color == player_color(!game.curr_move) {
            fan_out(game, out, r, c, tr, tc);
            proof {
                lemma_skip_moves(s, out@, r as int, c as int, base + 4, base + 8);
            }
            return ;
        } else if skipped && target.piece_type == PieceTypes::Empty && game.board[r][tc].is_piece(
            PieceTypes::Pawn,
            !game.curr_move,
        ) {
            let cand: GameMove = GameMove {
                start: [r, c],
                end: [tr, tc],
                castle: None,
                promote: None,
                passant: Some(PassantTypes::PassantCapture([r, tc])),
                capture: false,
            };
            proof {
                lemma_passant_unique(s, cand);
            }
            try_move(game, out, cand, Ghost(base), Ghost(base + 8));
            return ;
        }
    }
    proof {
        lemma_no_capture(s, out@, r as int, c as int, dc as int);
    }
}

/// The legal moves of the pawn on `start`: its step ahead, its double step,
/// its captures to the left and to the right.
pub fn pawn_moves(game: &Array2D, start: [usize; 2]) -> (moves: Vec<GameMove>)
    requires
        game.kings_on_board(),
        squares_ok(game@.board),
        start[0] < 8,
        start[1] < 8,
        game@.at(start[0] as int, start[1] as int) == Pieces::of(PieceTypes::Pawn, game.curr_move),
    ensures
        piece_moves(game@, moves@, start[0] as int, start[1] as int, rank_limit()),
{
    let r: usize = start[0];
    let c: usize = start[1];
    let ghost s = game@;
    let mut moves: Vec<GameMove> = Vec::new();
    assert(piece_moves(s, moves@, r as int, c as int, 0));
    let x: i32 = if game.curr_move {
        r as i32 - 1
    } else {
        r as i32 + 1
    };
    let first: usize = if game.curr_move {
        6
    } else {
        1
    };
    let mut ahead_free: bool = false;
    if 0 <= x && x < 8 {
        assert(s.at(x as int, c as int) == game.board[x as int][c as int]);
        ahead_free = game.board[x as usize][c].piece_type == PieceTypes::Empty;
    }
    if ahead_free {
        fan_out(game, &mut moves, r, c, x as usize, c);
    } else {
        proof {
            lemma_no_push(s, moves@, r as int, c as int);
        }
    }
    let mut double: bool = false;
    if ahead_free && r == first {
        let x2: usize = if game.curr_move {
            r - 2
        } else {
            r + 2
        };
        assert(s.at(x2 as int, c as int) == game.board[x2 as int][c as int]);
        if game.board[x2][c].piece_type == PieceTypes::Empty {
            double = true;
            let cand: GameMove = GameMove {
                start: [r, c],
                end: [x2, c],
                castle: None,
                promote: None,
                passant: Some(PassantTypes::PassantAvailable([x as usize, c])),
                capture: false,
            };
            proof {
                lemma_double_unique(s, cand);
            }
            try_move(game, &mut moves, cand, Ghost(4), Ghost(8));
        }
    }
    if !double {
        proof {
            lemma_no_double(s, moves@, r as int, c as int);
        }
    }
    capture_side(game, &mut moves, r, c, -1);
    capture_side(game, &mut moves, r, c, 1);
    proof {
        lemma_skip_moves(s, moves@, r as int, c as int, 24, rank_limit());
    }
    moves
}

} // verus!
