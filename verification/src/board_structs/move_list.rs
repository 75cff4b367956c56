use crate::board_structs::board_types::array2d::Array2D;
use crate::board_structs::generator::{find_moves, king_moves, pawn_moves};
use crate::board_structs::geometry::{on_board, squares_ok};
use crate::board_structs::legal::{
    is_move_list, legal, move_key, piece_moves, precedes, rank, rank_limit,
};
use crate::board_structs::position::PositionView;
use crate::utils::game_move::{GameMove, MAX_SCORE};
use crate::utils::pieces::{color_of, player_color, PieceColors, PieceTypes, Pieces};
use vstd::prelude::*;

verus! {

/// The place of the square on which a move starts, counted row by row from
/// a1.
pub open spec fn start_index(m: GameMove) -> int {
    8 * m.start[0] + m.start[1]
}

/// Whether `out` holds, in the order of their keys, the legal moves that
/// start on one of the first `squares` squares.
pub open spec fn moves_below(s: PositionView, out: Seq<GameMove>, squares: int) -> bool {
    &&& forall|m: GameMove|
        #![trigger out.contains(m)]
        #![trigger legal(s, m)]
        out.contains(m) <==> (legal(s, m) && start_index(m) < squares)
    &&& forall|i: int, j: int|
        0 <= i < j < out.len() ==> move_key(s, #[trigger] out[i]) < move_key(s, #[trigger] out[j])
}

/// The rank of a legal move is below the limit.
pub proof fn lemma_rank_bounds(s: PositionView, m: GameMove)
    requires
        legal(s, m),
    ensures
        0 <= rank(s, m) < rank_limit(),
        0 <= start_index(m) < 64,
        0 <= m.spec_score() <= MAX_SCORE,
{
}

/// No legal move starts on a square that the player to move does not hold.
proof fn lemma_skip_square(s: PositionView, out: Seq<GameMove>, r: int, c: int)
    requires
        on_board(r, c),
        s.at(r, c).color != color_of(s.curr_move),
        moves_below(s, out, 8 * r + c),
    ensures
        moves_below(s, out, 8 * r + c + 1),
{
}

/// The moves of the squares before `(r, c)`, followed by the moves of the
/// piece on `(r, c)`, are the moves of the squares up to and including it.
proof fn lemma_append_piece(
    s: PositionView,
    out: Seq<GameMove>,
    piece: Seq<GameMove>,
    r: int,
    c: int,
)
    requires
        on_board(r, c),
        moves_below(s, out, 8 * r + c),
        piece_moves(s, piece, r, c, rank_limit()),
    ensures
        moves_below(s, out + piece, 8 * r + c + 1),
{
    let all = out + piece;
    assert forall|m: GameMove|
        #![trigger all.contains(m)]
        #![trigger legal(s, m)]
        all.contains(m) <==> (legal(s, m) && start_index(m) < 8 * r + c + 1) by {
        if all.contains(m) {
            let i = choose|i: int| 0 <= i < all.len() && all[i] == m;
            if i < out.len() {
                assert(out[i] == m);
                assert(out.contains(m));
            } else {
                assert(piece[i - out.len()] == m);
                assert(piece.contains(m));
            }
        }
        if legal(s, m) && start_index(m) < 8 * r + c + 1 {
            lemma_rank_bounds(s, m);
            if start_index(m) < 8 * r + c {
                assert(out.contains(m));
                let i = choose|i: int| 0 <= i < out.len() && out[i] == m;
                assert(all[i] == m);
            } else {
                assert(m.start[0] == r && m.start[1] == c);
                assert(piece.contains(m));
                let i = choose|i: int| 0 <= i < piece.len() && piece[i] == m;
                assert(all[out.len() + i] == m);
            }
        }
    }
    assert forall|i: int, j: int| 0 <= i < j < all.len() implies move_key(s, #[trigger] all[i])
        < move_key(s, #[trigger] all[j]) by {
        if j < out.len() {
            assert(all[i] == out[i] && all[j] == out[j]);
        } else if i >= out.len() {
            assert(all[i] == piece[i - out.len()] && all[j] == piece[j - out.len()]);
            assert(piece.contains(all[i]));
            assert(piece.contains(all[j]));
        } else {
            assert(all[i] == out[i] && all[j] == piece[j - out.len()]);
            assert(out.contains(all[i]));
            assert(piece.contains(all[j]));
            lemma_rank_bounds(s, all[i]);
            lemma_rank_bounds(s, all[j]);
        }
    }
}

/// The legal moves in the order in which they are generated: square by
/// square from a1 along the rows, and for each piece in the order of its
/// rank.
pub fn generate_moves(game: &Array2D) -> (moves: Vec<GameMove>)
    requires
        game.kings_on_board(),
        game.caches_ok(),
        squares_ok(game@.board),
    ensures
        moves_below(game@, moves@, 64),
{
    let ghost s = game@;
    let own: PieceColors = player_color(game.curr_move);
    let mut moves: Vec<GameMove> = Vec::new();
    assert(moves_below(s, moves@, 0)) by {
        assert forall|m: GameMove| legal(s, m) implies start_index(m) >= 0 by {}
    }
    let mut i: usize = 0;
    while i < 8
        invariant
            i <= 8,
            s == game@,
            own == color_of(game.curr_move),
            game.kings_on_board(),
            game.caches_ok(),
            squares_ok(s.board),
            moves_below(s, moves@, 8 * i),
        decreases 8 - i,
    {
        let mut j: usize = 0;
        while j < 8
            invariant
                i < 8,
                j <= 8,
                s == game@,
                own == color_of(game.curr_move),
                game.kings_on_board(),
                game.caches_ok(),
                squares_ok(s.board),
                moves_below(s, moves@, 8 * i + j),
            decreases 8 - j,
        {
            let piece: Pieces = game.board[i][j];
            assert(s.at(i as int, j as int) == piece);
            assert(piece.is_valid());
            if piece.color == own {
                let mut found: Vec<GameMove> = match piece.piece_type {
                    PieceTypes::King => king_moves(game, [i, j]),
                    PieceTypes::Pawn => pawn_moves(game, [i, j]),
                    _ => find_moves(game, [i, j]),
                };
                proof {
                    lemma_append_piece(s, moves@, found@, i as int, j as int);
                }
                moves.append(&mut found);
            } else {
                proof {
                    lemma_skip_square(s, moves@, i as int, j as int);
                }
            }
            j += 1;
        }
        i += 1;
    }
    moves
}

/// The key below which the moves of `generated` stand before its move `i`;
/// beyond every key once `i` is past the end.
pub open spec fn cut(s: PositionView, generated: Seq<GameMove>, i: int) -> int {
    if i < generated.len() {
        move_key(s, generated[i])
    } else {
        64 * rank_limit()
    }
}

/// Whether `out` holds, in order, the legal moves with a score above
/// `score`, and those with that score and a key below `key`.
pub open spec fn placed(s: PositionView, out: Seq<GameMove>, score: int, key: int) -> bool {
    &&& forall|m: GameMove|
        #![trigger out.contains(m)]
        #![trigger legal(s, m)]
        out.contains(m) <==> (legal(s, m) && (m.spec_score() > score || (m.spec_score() == score
            && move_key(s, m) < key)))
    &&& forall|i: int, j: int|
        0 <= i < j < out.len() ==> precedes(s, #[trigger] out[i], #[trigger] out[j])
}

/// Passing over or placing the move `i` of the generated moves brings the
/// sorted list one move further.
proof fn lemma_place(
    s: PositionView,
    generated: Seq<GameMove>,
    out: Seq<GameMove>,
    score: int,
    i: int,
)
    requires
        moves_below(s, generated, 64),
        0 <= i < generated.len(),
        placed(s, out, score, cut(s, generated, i)),
    ensures
        generated[i].spec_score() == score ==> placed(
            s,
            out.push(generated[i]),
            score,
            cut(s, generated, i + 1),
        ),
        generated[i].spec_score() != score ==> placed(s, out, score, cut(s, generated, i + 1)),
{
    let g = generated[i];
    let next = if g.spec_score() == score {
        out.push(g)
    } else {
        out
    };
    let lo = cut(s, generated, i);
    let hi = cut(s, generated, i + 1);
    assert(generated.contains(g));
    lemma_rank_bounds(s, g);
    assert(lo < hi);
    assert forall|m: GameMove|
        #![trigger next.contains(m)]
        #![trigger legal(s, m)]
        next.contains(m) <==> (legal(s, m) && (m.spec_score() > score || (m.spec_score() == score
            && move_key(s, m) < hi))) by {
        if next.contains(m) {
            let k = choose|k: int| 0 <= k < next.len() && next[k] == m;
            if k < out.len() {
                assert(out[k] == m);
                assert(out.contains(m));
            }
        }
        if legal(s, m) && (m.spec_score() > score || (m.spec_score() == score && move_key(s, m)
            < hi)) {
            if m.spec_score() > score || move_key(s, m) < lo {
                assert(out.contains(m));
                let k = choose|k: int| 0 <= k < out.len() && out[k] == m;
                assert(next[k] == m);
            } else {
                lemma_rank_bounds(s, m);
                assert(generated.contains(m));
                let x = choose|x: int| 0 <= x < generated.len() && generated[x] == m;
                if x < i {
                    assert(move_key(s, generated[x]) < move_key(s, generated[i]));
                }
                if x > i {
                    assert(move_key(s, generated[i + 1]) <= move_key(s, generated[x])) by {
                        if x > i + 1 {
                            assert(move_key(s, generated[i + 1]) < move_key(s, generated[x]));
                        }
                    }
                }
                assert(x == i);
                assert(next[out.len() as int] == m);
            }
        }
    }
    assert forall|a: int, b: int| 0 <= a < b < next.len() implies precedes(
        s,
        #[trigger] next[a],
        #[trigger] next[b],
    ) by {
        assert(out.contains(out[a]));
        if b < out.len() {
            assert(next[b] == out[b]);
        }
    }
}

/// The generated moves with the higher score first, and moves of one score
/// in the order in which they were generated.
pub(crate) fn order_moves(generated: &Vec<GameMove>, Ghost(s): Ghost<PositionView>) -> (moves: Vec<
    GameMove,
>)
    requires
        moves_below(s, generated@, 64),
    ensures
        is_move_list(s, moves@),
{
    let mut moves: Vec<GameMove> = Vec::new();
    let mut score: u8 = MAX_SCORE;
    let mut finished: bool = false;
    proof {
        assert forall|m: GameMove| legal(s, m) implies !(m.spec_score() > MAX_SCORE || (
        m.spec_score() == MAX_SCORE && move_key(s, m) < cut(s, generated@, 0))) by {
            lemma_rank_bounds(s, m);
            assert(generated@.contains(m));
            let x = choose|x: int| 0 <= x < generated@.len() && generated@[x] == m;
            if x > 0 {
                assert(move_key(s, generated@[0]) < move_key(s, generated@[x]));
            }
        }
    }
    while !finished
        invariant
            score <= MAX_SCORE,
            moves_below(s, generated@, 64),
            !finished ==> placed(s, moves@, score as int, cut(s, generated@, 0)),
            finished ==> is_move_list(s, moves@),
        decreases
                (if finished {
                    0int
                } else {
                    score + 1
                }),
    {
        let mut i: usize = 0;
        while i < generated.len()
            invariant
                i <= generated.len(),
                score <= MAX_SCORE,
                moves_below(s, generated@, 64),
                placed(s, moves@, score as int, cut(s, generated@, i as int)),
            decreases generated.len() - i,
        {
            proof {
                lemma_place(s, generated@, moves@, score as int, i as int);
            }
            if generated[i].score() == score {
                moves.push(generated[i]);
            }
            i += 1;
        }
        proof {
            assert forall|m: GameMove| legal(s, m) implies move_key(s, m) < 64 * rank_limit() by {
                lemma_rank_bounds(s, m);
            }
        }
        if score == 0 {
            finished = true;
            proof {
                assert forall|m: GameMove|
                    #![trigger moves@.contains(m)]
                    #![trigger legal(s, m)]
                    moves@.contains(m) <==> legal(s, m) by {
                    if legal(s, m) {
                        lemma_rank_bounds(s, m);
                    }
                }
            }
        } else {
            proof {
                assert forall|m: GameMove| legal(s, m) implies !(m.spec_score() == score - 1
                    && move_key(s, m) < cut(s, generated@, 0)) by {
                    lemma_rank_bounds(s, m);
                    assert(generated@.contains(m));
                    let x = choose|x: int| 0 <= x < generated@.len() && generated@[x] == m;
                    if x > 0 {
                        assert(move_key(s, generated@[0]) < move_key(s, generated@[x]));
                    }
                }
            }
            score -= 1;
        }
    }
    moves
}

} // verus!
