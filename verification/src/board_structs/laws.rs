use crate::board_structs::attacks::{attacks, is_attacker, lemma_attacker_counts};
use crate::board_structs::geometry::{forward, squares_ok};
use crate::board_structs::legal::{
    is_move_list, legal, legal_moves, pawn_double, precedes, pseudo_legal,
};
use crate::board_structs::position::{move_on_board, PositionView};
use crate::utils::game_move::GameMove;
use crate::utils::pieces::{PieceTypes, Pieces, BLACK, WHITE};
use vstd::prelude::*;

verus! {

/// In a position of a game no move of the player to move captures a king.
pub proof fn lemma_no_king_capture(s: PositionView, m: GameMove)
    requires
        s.playable(),
        pseudo_legal(s, m),
    ensures
        s.target(m).piece_type != PieceTypes::King,
{
    let (fr, fc) = (m.start[0] as int, m.start[1] as int);
    let (tr, tc) = (m.end[0] as int, m.end[1] as int);
    assert(s.target(m).is_valid());
    assert(s.mover(m).is_valid());
    if s.target(m).piece_type == PieceTypes::King {
        assert(s.target(m) == Pieces::of(PieceTypes::King, !s.curr_move));
        assert(attacks(s.board, fr, fc, tr, tc));
        assert(is_attacker(s.board, s.curr_move, fr, fc, tr, tc));
        lemma_attacker_counts(s.board, s.curr_move, fr, fc, tr, tc);
        assert((tr, tc) == s.king_of(!s.curr_move));
    }
}

/// A legal move leaves a position of a game: the board stays full and valid,
/// each colour keeps its one king on the square kept for it, and the player
/// who has moved is not in check.
pub proof fn lemma_legal_move_keeps_playable(s: PositionView, m: GameMove)
    requires
        s.playable(),
        legal(s, m),
    ensures
        s.apply(m).playable(),
{
    let next = s.apply(m);
    lemma_no_king_capture(s, m);
    assert(s.mover(m).is_valid());
    assert(s.target(m).is_valid());
    assert(squares_ok(next.board));
    assert(next.kings_ok());
}

/// In a position of a game at most one player is in check.
pub proof fn lemma_one_player_in_check(s: PositionView)
    requires
        s.playable(),
    ensures
        !(s.in_check(WHITE) && s.in_check(BLACK)),
        s.check() is Some ==> s.check() == Some(s.curr_move),
        forall|player: bool| s.check() == Some(player) <==> #[trigger] s.in_check(player),
{
}

/// After a legal move the player who made it is not in check.
pub proof fn lemma_mover_not_in_check(s: PositionView, m: GameMove)
    requires
        s.playable(),
        legal(s, m),
    ensures
        s.apply(m).check() != Some(s.curr_move),
        s.apply(m).curr_move == !s.curr_move,
{
    lemma_legal_move_keeps_playable(s, m);
}

/// The rights to castle only shrink: a move gives none back.
pub proof fn lemma_rights_only_shrink(s: PositionView, m: GameMove)
    ensures
        s.apply(m).castling_rights.white_king ==> s.castling_rights.white_king,
        s.apply(m).castling_rights.white_queen ==> s.castling_rights.white_queen,
        s.apply(m).castling_rights.black_king ==> s.castling_rights.black_king,
        s.apply(m).castling_rights.black_queen ==> s.castling_rights.black_queen,
{
}

/// A move of a king ends both rights of its colour, and a move of a rook
/// from its corner ends the right of that side.
pub proof fn lemma_moves_end_rights(s: PositionView, m: GameMove)
    ensures
        s.mover(m) == Pieces::of(PieceTypes::King, WHITE) ==> !s.apply(m).castling_rights.white_king
            && !s.apply(m).castling_rights.white_queen,
        s.mover(m) == Pieces::of(PieceTypes::King, BLACK) ==> !s.apply(m).castling_rights.black_king
            && !s.apply(m).castling_rights.black_queen,
        s.mover(m) == Pieces::of(PieceTypes::Rook, WHITE) && m.start[0] == 0 && m.start[1] == 7
            ==> !s.apply(m).castling_rights.white_king,
        s.mover(m) == Pieces::of(PieceTypes::Rook, WHITE) && m.start[0] == 0 && m.start[1] == 0
            ==> !s.apply(m).castling_rights.white_queen,
        s.mover(m) == Pieces::of(PieceTypes::Rook, BLACK) && m.start[0] == 7 && m.start[1] == 7
            ==> !s.apply(m).castling_rights.black_king,
        s.mover(m) == Pieces::of(PieceTypes::Rook, BLACK) && m.start[0] == 7 && m.start[1] == 0
            ==> !s.apply(m).castling_rights.black_queen,
{
}

/// After a legal move a pawn can be captured in passing exactly if the move
/// was a pawn's double step, and then on the square that the pawn skipped.
pub proof fn lemma_passant_follows_double_step(s: PositionView, m: GameMove)
    requires
        s.playable(),
        legal(s, m),
    ensures
        s.apply(m).en_passant is Some <==> pawn_double(s, m) && s.mover(m).piece_type
            == PieceTypes::Pawn,
        s.apply(m).en_passant matches Some(sq) ==> sq == (
            m.start[0] + forward(s.curr_move),
            m.start[1] as int,
        ) && s.apply(m).board[sq.0][sq.1].is_empty(),
{
    assert(s.mover(m).is_valid());
    assert(s.target(m).is_valid());
}

/// Every legal move can be made: its squares are squares of the board.
pub proof fn lemma_legal_move_on_board(s: PositionView, m: GameMove)
    requires
        legal(s, m),
    ensures
        move_on_board(m),
{
}

/// Whether `list` holds the moves of `set`, each once, the higher score
/// first and the earlier key first among equal scores.
pub open spec fn lists(s: PositionView, set: Set<GameMove>, list: Seq<GameMove>) -> bool {
    &&& forall|m: GameMove|
        #![trigger list.contains(m)]
        #![trigger set.contains(m)]
        list.contains(m) <==> set.contains(m)
    &&& forall|i: int, j: int|
        0 <= i < j < list.len() ==> precedes(s, #[trigger] list[i], #[trigger] list[j])
}

proof fn lemma_lists_unique(s: PositionView, set: Set<GameMove>, a: Seq<GameMove>, b: Seq<GameMove>)
    requires
        lists(s, set, a),
        lists(s, set, b),
    ensures
        a == b,
    decreases a.len(),
{
    if a.len() == 0 {
        if b.len() > 0 {
            assert(b.contains(b[0]));
            assert(set.contains(b[0]));
            assert(a.contains(b[0]));
        }
        assert(a =~= b);
    } else {
        let la = a.last();
        assert(a[a.len() - 1] == la);
        assert(a.contains(la));
        assert(set.contains(la));
        assert(b.contains(la));
        let lb = b.last();
        assert(b[b.len() - 1] == lb);
        assert(b.contains(lb));
        assert(set.contains(lb));
        assert(a.contains(lb));
        let j = choose|j: int| 0 <= j < b.len() && b[j] == la;
        let i = choose|i: int| 0 <= i < a.len() && a[i] == lb;
        if j < b.len() - 1 {
            assert(precedes(s, b[j], b[b.len() - 1]));
        }
        if i < a.len() - 1 {
            assert(precedes(s, a[i], a[a.len() - 1]));
        }
        assert(la == lb);
        let a2 = a.drop_last();
        let b2 = b.drop_last();
        let set2 = set.remove(la);
        assert forall|m: GameMove|
            #![trigger a2.contains(m)]
            #![trigger set2.contains(m)]
            a2.contains(m) <==> set2.contains(m) by {
            if a2.contains(m) {
                let k = choose|k: int| 0 <= k < a2.len() && a2[k] == m;
                assert(a[k] == m);
                assert(a.contains(m));
                assert(precedes(s, a[k], a[a.len() - 1]));
            }
            if set2.contains(m) {
                assert(a.contains(m));
                let k = choose|k: int| 0 <= k < a.len() && a[k] == m;
                assert(a2[k] == m);
            }
        }
        assert forall|m: GameMove|
            #![trigger b2.contains(m)]
            #![trigger set2.contains(m)]
            b2.contains(m) <==> set2.contains(m) by {
            if b2.contains(m) {
                let k = choose|k: int| 0 <= k < b2.len() && b2[k] == m;
                assert(b[k] == m);
                assert(b.contains(m));
                assert(precedes(s, b[k], b[b.len() - 1]));
            }
            if set2.contains(m) {
                assert(b.contains(m));
                let k = choose|k: int| 0 <= k < b.len() && b[k] == m;
                assert(b2[k] == m);
            }
        }
        assert forall|i: int, j: int| 0 <= i < j < a2.len() implies precedes(
            s,
            #[trigger] a2[i],
            #[trigger] a2[j],
        ) by {
            assert(a2[i] == a[i] && a2[j] == a[j]);
        }
        assert forall|i: int, j: int| 0 <= i < j < b2.len() implies precedes(
            s,
            #[trigger] b2[i],
            #[trigger] b2[j],
        ) by {
            assert(b2[i] == b[i] && b2[j] == b[j]);
        }
        lemma_lists_unique(s, set2, a2, b2);
        assert(a =~= a2.push(la));
        assert(b =~= b2.push(lb));
    }
}

/// A position has one list of legal moves: a list that holds every legal
/// move and nothing else, in order, is the list `legal_moves`.
pub proof fn lemma_move_list_unique(s: PositionView, moves: Seq<GameMove>)
    requires
        is_move_list(s, moves),
    ensures
        moves == legal_moves(s),
{
    let set = Set::new(|m: GameMove| legal(s, m));
    let chosen = legal_moves(s);
    assert(is_move_list(s, chosen));
    assert(lists(s, set, moves));
    assert(lists(s, set, chosen));
    lemma_lists_unique(s, set, moves, chosen);
}

} // verus!
