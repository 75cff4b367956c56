use crate::ai_funcs::ai_utils::clock::{
    before_view, is_stop, next_depth_fits, now, poll, spec_next_depth_fits, time_since,
    whole_millis,
};
use crate::ai_funcs::ai_utils::heuristics::{evaluate, heuristic, lemma_evaluate_bounds};
use crate::board_structs::board::Board;
use crate::board_structs::legal::{is_move_list, legal, legal_moves};
use crate::board_structs::position::PositionView;
use crate::utils::game_move::GameMove;
use crate::utils::pieces::WHITE;
use std::sync::mpsc::Receiver;
use std::time::Instant;
use vstd::prelude::*;

verus! {

/// No search looks further ahead than this many half-moves.
pub const MAX_DEPTH: usize = 10000;

/// Below every value of a position: where a search begins.
pub const LOWEST: i32 = i32::MIN + 1;

/// Above or equal to every value of a position.
pub const HIGHEST: i32 = i32::MAX;

/// The value of a position for the player to move.
pub open spec fn mover_value(s: PositionView) -> int {
    if s.curr_move == WHITE {
        evaluate(s)
    } else {
        -evaluate(s)
    }
}

/// The value of being mated `ply` half-moves from the root of a search: the
/// nearer a mate, the lower.
pub open spec fn mated_value(ply: int) -> int {
    i32::MIN + ply
}

/// The value of a position for the player to move, looking `depth`
/// half-moves ahead: that of being mated, or nothing for a stalemate, where
/// no move is legal; the static value at depth 0; else the best of what the
/// moves lead to, each seen from the other side.
pub open spec fn negamax(s: PositionView, depth: nat, ply: int) -> int
    decreases depth, 1int, 0int,
{
    let moves = legal_moves(s);
    if moves.len() == 0 {
        if s.in_check(s.curr_move) {
            mated_value(ply)
        } else {
            0
        }
    } else if depth == 0 {
        mover_value(s)
    } else {
        best_reply(s, moves, depth, ply, moves.len() as int)
    }
}

/// What the move `m` is worth to the player who makes it.
pub open spec fn move_value(s: PositionView, m: GameMove, depth: nat, ply: int) -> int
    decreases depth, 0int, 0int,
{
    if depth == 0 {
        0
    } else {
        -negamax(s.apply(m), (depth - 1) as nat, ply + 1)
    }
}

/// The best that the first `n` of `moves` are worth.
pub open spec fn best_reply(
    s: PositionView,
    moves: Seq<GameMove>,
    depth: nat,
    ply: int,
    n: int,
) -> int
    decreases depth, 0int, n,
{
    if depth == 0 {
        0
    } else if n <= 1 {
        -negamax(s.apply(moves[0]), (depth - 1) as nat, ply + 1)
    } else {
        let rest = best_reply(s, moves, depth, ply, n - 1);
        let last = -negamax(s.apply(moves[n - 1]), (depth - 1) as nat, ply + 1);
        if last > rest {
            last
        } else {
            rest
        }
    }
}

/// The place of the best of the first `n` of `moves`, the first of them if
/// several are equally good.
pub open spec fn best_index(s: PositionView, moves: Seq<GameMove>, depth: nat, n: int) -> int
    decreases n,
{
    if n <= 1 {
        0
    } else {
        let rest = best_index(s, moves, depth, n - 1);
        if move_value(s, moves[n - 1], depth, 0) > move_value(s, moves[rest], depth, 0) {
            n - 1
        } else {
            rest
        }
    }
}

/// A value brought into the window from `alpha` to `beta`.
pub open spec fn clamped(value: int, alpha: int, beta: int) -> int {
    if value <= alpha {
        alpha
    } else if value >= beta {
        beta
    } else {
        value
    }
}

/// What a search within the window from `alpha` to `beta` returns for a
/// position: its value where the search does not look at moves, because
/// there is none or because the depth is 0, and else its value brought into
/// the window.
pub open spec fn window_value(s: PositionView, depth: nat, ply: int, alpha: int, beta: int) -> int {
    if legal_moves(s).len() == 0 || depth == 0 {
        negamax(s, depth, ply)
    } else {
        clamped(negamax(s, depth, ply), alpha, beta)
    }
}

/// Whether a search within the window from `alpha` to `beta` may return
/// `score` for a position of the value `value`: the value itself inside the
/// window, and outside it something on the same side.
pub open spec fn within_window(score: int, value: int, alpha: int, beta: int) -> bool {
    &&& value <= alpha ==> score <= alpha
    &&& alpha < value < beta ==> score == value
    &&& value >= beta ==> score >= beta
}

/// What a search returns within a window is the value of the position if
/// that lies inside the window, and lies outside on the same side if not.
pub proof fn lemma_window_value_is_sound(
    s: PositionView,
    depth: nat,
    ply: int,
    alpha: int,
    beta: int,
)
    requires
        alpha < beta,
    ensures
        within_window(
            window_value(s, depth, ply, alpha, beta),
            negamax(s, depth, ply),
            alpha,
            beta,
        ),
{
}

/// The room that a search of `depth` half-moves needs: the depth is within
/// the limit, and the two counters of the position can count that far.
pub open spec fn has_room(s: PositionView, depth: int, ply: int) -> bool {
    &&& 0 <= ply
    &&& ply + depth <= MAX_DEPTH
    &&& s.half_moves + depth <= usize::MAX
    &&& s.full_moves + depth <= usize::MAX
}

/// The value of a position lies between that of being mated now and that of
/// mating with the next move.
pub proof fn lemma_negamax_bounds(s: PositionView, depth: nat, ply: int)
    requires
        0 <= ply,
        ply + depth <= MAX_DEPTH,
    ensures
        i32::MIN + ply <= negamax(s, depth, ply) <= i32::MAX - ply,
    decreases depth, 1int, 0int,
{
    let moves = legal_moves(s);
    lemma_evaluate_bounds(s);
    if moves.len() != 0 && depth != 0 {
        lemma_best_reply_bounds(s, moves, depth, ply, moves.len() as int);
    }
}

proof fn lemma_best_reply_bounds(
    s: PositionView,
    moves: Seq<GameMove>,
    depth: nat,
    ply: int,
    n: int,
)
    requires
        0 <= ply,
        depth >= 1,
        ply + depth <= MAX_DEPTH,
    ensures
        i32::MIN + ply + 2 <= best_reply(s, moves, depth, ply, n) <= i32::MAX - ply,
    decreases depth, 0int, n,
{
    if n <= 1 {
        lemma_negamax_bounds(s.apply(moves[0]), (depth - 1) as nat, ply + 1);
    } else {
        lemma_best_reply_bounds(s, moves, depth, ply, n - 1);
        lemma_negamax_bounds(s.apply(moves[n - 1]), (depth - 1) as nat, ply + 1);
    }
}

/// The best of more moves is no worse.
proof fn lemma_best_reply_grows(
    s: PositionView,
    moves: Seq<GameMove>,
    depth: nat,
    ply: int,
    i: int,
    n: int,
)
    requires
        depth >= 1,
        1 <= i <= n,
    ensures
        best_reply(s, moves, depth, ply, i) <= best_reply(s, moves, depth, ply, n),
    decreases n - i,
{
    if i < n {
        lemma_best_reply_grows(s, moves, depth, ply, i, n - 1);
    }
}

/// The value of a position for the player to move, by a search of `depth`
/// half-moves that passes over moves which cannot change the result within
/// the window from `alpha` to `beta`.
pub fn nega_max<T: Board>(game: T, depth: usize, alpha: i32, beta: i32, ply: usize) -> (score:
    i32)
    requires
        game.wf(),
        LOWEST <= alpha < beta <= HIGHEST,
        1 <= ply,
        has_room(game.position(), depth as int, ply as int),
    ensures
        score == window_value(
            game.position(),
            depth as nat,
            ply as int,
            alpha as int,
            beta as int,
        ),
        LOWEST <= score,
    decreases depth,
{
    let ghost s = game.position();
    let moves: Vec<GameMove> = game.get_valid_moves();
    proof {
        game.lemma_wf_is_playable();
        lemma_evaluate_bounds(s);
    }
    if moves.len() == 0 {
        return match game.get_check() {
            Some(_) => i32::MIN + ply as i32,
            None => 0,
        };
    }
    if depth == 0 {
        let player: bool = game.get_curr_player();
        let value: i32 = heuristic(game);
        return if player == WHITE {
            value
        } else {
            -value
        };
    }
    let mut best: i32 = alpha;
    let mut i: usize = 0;
    while i < moves.len()
        invariant
            game.wf(),
            s == game.position(),
            s.playable(),
            moves@ == legal_moves(s),
            is_move_list(s, moves@),
            moves@.len() > 0,
            depth >= 1,
            1 <= ply,
            has_room(s, depth as int, ply as int),
            i <= moves.len(),
            LOWEST <= alpha <= best < beta <= HIGHEST,
            i == 0 ==> best == alpha,
            i > 0 ==> best == (if best_reply(s, moves@, depth as nat, ply as int, i as int)
                > alpha {
                best_reply(s, moves@, depth as nat, ply as int, i as int)
            } else {
                alpha as int
            }),
        decreases moves.len() - i,
    {
        let mov: GameMove = moves[i];
        assert(moves@.contains(mov));
        let child: T = game.make_move(&mov);
        let ghost value = -negamax(child.position(), (depth - 1) as nat, ply + 1);
        proof {
            lemma_negamax_bounds(child.position(), (depth - 1) as nat, ply + 1);
            assert(best_reply(s, moves@, depth as nat, ply as int, i + 1) == (if i == 0 {
                value
            } else if value > best_reply(s, moves@, depth as nat, ply as int, i as int) {
                value
            } else {
                best_reply(s, moves@, depth as nat, ply as int, i as int)
            }));
        }
        let score: i32 = -nega_max(child, depth - 1, -beta, -best, ply + 1);
        if score >= beta {
            proof {
                lemma_best_reply_grows(
                    s,
                    moves@,
                    depth as nat,
                    ply as int,
                    i + 1,
                    moves@.len() as int,
                );
            }
            return beta;
        }
        if score > best {
            best = score;
        }
        i += 1;
    }
    best
}

/// Whether the search has been told to stop.
fn cancelled(channel: &Option<&Receiver<&'static str>>) -> (stop: bool)
    ensures
        channel is None ==> !stop,
{
    match channel {
        Some(receiver) => is_stop(poll(receiver)),
        None => false,
    }
}

/// Whether `moves` is a list that a search can choose from: not empty, and
/// of legal moves only.
pub open spec fn can_choose(s: PositionView, moves: Seq<GameMove>) -> bool {
    &&& moves.len() > 0
    &&& forall|i: int| 0 <= i < moves.len() ==> legal(s, #[trigger] moves[i])
}

/// The best of `moves` by a search of `depth` half-moves.
pub open spec fn best_move(s: PositionView, moves: Seq<GameMove>, depth: nat) -> GameMove {
    moves[best_index(s, moves, depth, moves.len() as int)]
}

/// The best of `moves` by a search of `depth` half-moves, the first of them
/// if several are equally good; none if the search is told to stop before
/// it has tried them all.
pub fn search_root<T: Board>(
    game: &T,
    depth: usize,
    moves: &Vec<GameMove>,
    channel: Option<&Receiver<&'static str>>,
) -> (best: Option<GameMove>)
    requires
        game.wf(),
        1 <= depth,
        has_room(game.position(), depth as int, 0),
        can_choose(game.position(), moves@),
    ensures
        best matches Some(m) ==> m == best_move(game.position(), moves@, depth as nat)
            && moves@.contains(m),
        channel is None ==> best is Some,
{
    let ghost s = game.position();
    proof {
        game.lemma_wf_is_playable();
    }
    let mut best_move: GameMove = moves[0];
    let mut best: i32 = LOWEST;
    let mut i: usize = 0;
    while i < moves.len()
        invariant
            game.wf(),
            s == game.position(),
            s.playable(),
            1 <= depth,
            has_room(s, depth as int, 0),
            can_choose(s, moves@),
            i <= moves.len(),
            LOWEST <= best,
            i == 0 ==> best == LOWEST && best_move == moves@[0],
            i > 0 ==> best_move == moves@[best_index(s, moves@, depth as nat, i as int)] && best
                == move_value(s, best_move, depth as nat, 0) && 0 <= best_index(
                s,
                moves@,
                depth as nat,
                i as int,
            ) < i,
        decreases moves.len() - i,
    {
        if cancelled(&channel) {
            return None;
        }
        let mov: GameMove = moves[i];
        proof {
            lemma_negamax_bounds(s.apply(mov), (depth - 1) as nat, 1);
        }
        if best < HIGHEST {
            let child: T = game.make_move(&mov);
            let score: i32 = -nega_max(child, depth - 1, LOWEST, -best, 1);
            if score > best {
                best = score;
                best_move = mov;
            }
        }
        i += 1;
    }
    Some(best_move)
}

/// The best of `moves` by a search of `depth` half-moves, the first of them
/// if several are equally good.
pub fn root_nega_max<T: Board>(game: &T, depth: usize, moves: &Vec<GameMove>) -> (best: GameMove)
    requires
        game.wf(),
        1 <= depth,
        has_room(game.position(), depth as int, 0),
        can_choose(game.position(), moves@),
    ensures
        best == best_move(game.position(), moves@, depth as nat),
        moves@.contains(best),
{
    match search_root(game, depth, moves, None) {
        Some(best) => best,
        None => moves[0],
    }
}

/// What a search knew when it had finished a depth.
#[derive(Clone, Copy, Debug)]
pub struct SearchInfo {
    pub depth: usize,
    pub best_move: GameMove,
    /// The milliseconds since the search began.
    pub millis: u128,
}

/// What a search found.
#[derive(Clone, Debug)]
pub struct SearchResult {
    pub best_move: GameMove,
    /// The last depth that the search finished; 0 if it finished none.
    pub depth: usize,
    /// One entry for each depth that the search finished, in order.
    pub info: Vec<SearchInfo>,
}

/// Whether `found` is what a search of `moves` returns that has finished the
/// depths from 1 up to `found.depth`: the best move of the last depth it
/// finished, or the first move if it finished none, and for each depth what
/// was best at it.
pub open spec fn is_result_of(found: SearchResult, s: PositionView, moves: Seq<GameMove>) -> bool {
    &&& moves.contains(found.best_move)
    &&& found.depth == 0 ==> found.best_move == moves[0]
    &&& found.depth > 0 ==> found.best_move == best_move(s, moves, found.depth as nat)
    &&& found.info@.len() == found.depth
    &&& forall|k: int|
        0 <= k < found.info@.len() ==> (#[trigger] found.info@[k]).depth == k + 1
            && found.info@[k].best_move == best_move(s, moves, (k + 1) as nat)
}

/// The milliseconds that the depth `k + 1` of a search took: the time
/// between the ends of that depth and of the one before it.
pub open spec fn lap(info: Seq<SearchInfo>, k: int) -> int {
    if k <= 0 {
        info[0].millis as int
    } else if info[k].millis >= info[k - 1].millis {
        info[k].millis - info[k - 1].millis
    } else {
        0
    }
}

/// The milliseconds that the depth before the depth `k + 1` took, if there
/// was one.
pub open spec fn lap_before(info: Seq<SearchInfo>, k: int) -> Option<int> {
    if k <= 0 {
        None
    } else {
        Some(lap(info, k - 1))
    }
}

/// Whether, by the times that a search took, the depth after the depth
/// `k + 1` was expected to fit the budget.
pub open spec fn fits_after(info: Seq<SearchInfo>, k: int, budget: int) -> bool {
    spec_next_depth_fits(info[k].millis as int, lap(info, k), lap_before(info, k), budget)
}

/// Whether a search kept to its budget: after each depth but the last it
/// finished, the next depth was expected to fit.
pub open spec fn kept_time(found: SearchResult, budget: Option<u128>) -> bool {
    budget matches Some(limit) ==> forall|k: int|
        0 <= k < found.info@.len() - 1 ==> #[trigger] fits_after(found.info@, k, limit as int)
}

/// What a search has recorded stays as it is when the next depth is
/// recorded after it.
proof fn lemma_depth_recorded(info: Seq<SearchInfo>, entry: SearchInfo)
    ensures
        forall|k: int| 0 <= k < info.len() ==> #[trigger] info.push(entry)[k] == info[k],
        info.push(entry)[info.len() as int] == entry,
        forall|k: int| 0 <= k < info.len() ==> #[trigger] lap(info.push(entry), k) == lap(info, k),
        forall|k: int|
            0 <= k < info.len() ==> #[trigger] lap_before(info.push(entry), k) == lap_before(
                info,
                k,
            ),
        lap_before(info.push(entry), info.len() as int) == lap_before(info, info.len() as int),
        forall|k: int, budget: int|
            0 <= k < info.len() ==> #[trigger] fits_after(info.push(entry), k, budget)
                == fits_after(info, k, budget),
        info.len() > 0 ==> lap(info.push(entry), info.len() as int) == (if entry.millis
            >= info[info.len() - 1].millis {
            entry.millis - info[info.len() - 1].millis
        } else {
            0int
        }),
        info.len() == 0 ==> lap(info.push(entry), 0) == entry.millis,
{
    let next = info.push(entry);
    assert forall|k: int| 0 <= k < info.len() implies #[trigger] lap(next, k) == lap(info, k) by {
        assert(next[k] == info[k]);
        if k > 0 {
            assert(next[k - 1] == info[k - 1]);
        }
    }
    assert forall|k: int| 0 <= k <= info.len() implies #[trigger] lap_before(next, k)
        == lap_before(info, k) by {
        if k > 0 {
            assert(lap(next, k - 1) == lap(info, k - 1));
        }
    }
    assert forall|k: int, budget: int| 0 <= k < info.len() implies #[trigger] fits_after(
        next,
        k,
        budget,
    ) == fits_after(info, k, budget) by {
        assert(next[k] == info[k]);
        assert(lap(next, k) == lap(info, k));
        assert(lap_before(next, k) == lap_before(info, k));
    }
}

/// Whether a search ended because, by the times it took, the depth after
/// the last it finished was not expected to fit the budget.
pub open spec fn stopped_for_time(found: SearchResult, budget: Option<u128>) -> bool {
    match budget {
        Some(limit) => found.depth >= 1 && !fits_after(
            found.info@,
            found.depth - 1,
            limit as int,
        ),
        None => false,
    }
}

/// The depth at which a search stops that is asked for `max_depth`: at
/// least one, and no more than the limit.
pub open spec fn depth_cap(max_depth: usize) -> int {
    if max_depth < 1 {
        1
    } else if max_depth > MAX_DEPTH {
        MAX_DEPTH as int
    } else {
        max_depth as int
    }
}

/// Searches one depth after the other, from 1 on, and returns the best move
/// of the last depth it finished. It stops when it is told to over the
/// channel, when the next depth is not expected to fit the budget of
/// milliseconds, or when it has finished the depth `max_depth`. A depth that
/// was begun and not finished counts for nothing.
pub fn deepen<T: Board>(
    game: &T,
    moves: &Vec<GameMove>,
    budget: Option<u128>,
    channel: Option<&Receiver<&'static str>>,
    max_depth: usize,
) -> (found: SearchResult)
    requires
        game.wf(),
        has_room(game.position(), MAX_DEPTH as int, 0),
        can_choose(game.position(), moves@),
    ensures
        is_result_of(found, game.position(), moves@),
        found.depth <= depth_cap(max_depth),
        kept_time(found, budget),
        channel is None ==> found.depth >= 1,
        channel is None && found.depth < depth_cap(max_depth) ==> stopped_for_time(found, budget),
{
    let ghost s = game.position();
    let start: Instant = now();
    let cap: usize = if max_depth < 1 {
        1
    } else if max_depth > MAX_DEPTH {
        MAX_DEPTH
    } else {
        max_depth
    };
    let mut found: SearchResult = SearchResult { best_move: moves[0], depth: 0, info: Vec::new() };
    let mut mark: u128 = 0;
    let mut before: Option<u128> = None;
    let mut depth: usize = 1;
    let mut running: bool = true;
    while running && depth <= cap
        invariant
            game.wf(),
            s == game.position(),
            has_room(s, MAX_DEPTH as int, 0),
            can_choose(s, moves@),
            cap == depth_cap(max_depth),
            1 <= depth <= cap + 1,
            is_result_of(found, s, moves@),
            found.depth <= cap,
            running ==> found.depth == depth - 1,
            running ==> before_view(before) == lap_before(found.info@, found.depth as int),
            running && found.depth > 0 ==> mark == found.info@[found.depth - 1].millis,
            running && found.depth == 0 ==> mark == 0,
            kept_time(found, budget),
            running && found.depth > 0 ==> (budget matches Some(limit) ==> fits_after(
                found.info@,
                found.depth - 1,
                limit as int,
            )),
            channel is None ==> found.depth >= 1 || running,
            channel is None && !running ==> stopped_for_time(found, budget),
        decreases
                (if running {
                    cap + 2 - depth
                } else {
                    0int
                }),
    {
        if cancelled(&channel) {
            running = false;
        } else {
            match search_root(game, depth, moves, channel) {
                None => {
                    running = false;
                },
                Some(best) => {
                    let elapsed: u128 = whole_millis(&time_since(&start));
                    let last: u128 = if elapsed >= mark {
                        elapsed - mark
                    } else {
                        0
                    };
                    let ghost earlier = found;
                    found.best_move = best;
                    found.depth = depth;
                    found.info.push(SearchInfo { depth, best_move: best, millis: elapsed });
                    proof {
                        lemma_depth_recorded(
                            earlier.info@,
                            SearchInfo { depth, best_move: best, millis: elapsed },
                        );
                    }
                    match budget {
                        Some(limit) => {
                            if !next_depth_fits(elapsed, last, before, limit) {
                                running = false;
                            }
                        },
                        None => {},
                    }
                    before = Some(last);
                    mark = elapsed;
                    depth += 1;
                },
            }
        }
    }
    found
}

/// The moves that a search chooses from: those given, or else the legal
/// moves.
fn moves_to_search<T: Board>(game: &T, start_moves: Option<Vec<GameMove>>) -> (moves: Vec<
    GameMove,
>)
    requires
        game.wf(),
        match start_moves {
            Some(given) => can_choose(game.position(), given@),
            None => legal_moves(game.position()).len() > 0,
        },
    ensures
        can_choose(game.position(), moves@),
        moves@ == searched(game.position(), start_moves),
{
    match start_moves {
        Some(given) => given,
        None => {
            let moves: Vec<GameMove> = game.get_valid_moves();
            proof {
                assert forall|i: int| 0 <= i < moves@.len() implies legal(
                    game.position(),
                    #[trigger] moves@[i],
                ) by {
                    assert(moves@.contains(moves@[i]));
                }
            }
            moves
        },
    }
}

/// The moves that a search chooses from: those given, or else the legal
/// moves.
pub open spec fn searched(s: PositionView, start_moves: Option<Vec<GameMove>>) -> Seq<GameMove> {
    match start_moves {
        Some(given) => given@,
        None => legal_moves(s),
    }
}

/// A player that searches with alpha-beta pruning, one depth after the
/// other.
pub struct ABMinimax {}

impl ABMinimax {
    /// A legal move for the player to move, found within a twentieth of
    /// `time_left` milliseconds or soon after: the best move of the last
    /// depth that fits the time. `max_player` is not read: the position
    /// says whose move it is.
    pub fn find_move<T: Board>(&self, game: T, max_player: bool, time_left: u128) -> (best:
        GameMove)
        requires
            game.wf(),
            has_room(game.position(), MAX_DEPTH as int, 0),
            legal_moves(game.position()).len() > 0,
        ensures
            legal(game.position(), best),
            exists|depth: nat|
                1 <= depth <= MAX_DEPTH && best == #[trigger] best_move(
                    game.position(),
                    legal_moves(game.position()),
                    depth,
                ),
    {
        let moves: Vec<GameMove> = moves_to_search(&game, None);
        let found: SearchResult = deepen(&game, &moves, Some(time_left / 20), None, MAX_DEPTH);
        proof {
            let i = choose|i: int| 0 <= i < moves@.len() && moves@[i] == found.best_move;
            assert(legal(game.position(), moves@[i]));
            assert(found.best_move == best_move(
                game.position(),
                legal_moves(game.position()),
                found.depth as nat,
            ));
        }
        found.best_move
    }

    /// Searches until it is told to stop over the channel, and returns the
    /// best of `start_moves`, or of the legal moves, at the last depth it
    /// finished.
    pub fn uci_infinite_find_move<T: Board>(
        game: &T,
        rx: Receiver<&'static str>,
        start_moves: Option<Vec<GameMove>>,
    ) -> (found: SearchResult)
        requires
            game.wf(),
            has_room(game.position(), MAX_DEPTH as int, 0),
            match start_moves {
                Some(given) => can_choose(game.position(), given@),
                None => legal_moves(game.position()).len() > 0,
            },
        ensures
            is_result_of(found, game.position(), searched(game.position(), start_moves)),
    {
        let moves: Vec<GameMove> = moves_to_search(game, start_moves);
        deepen(game, &moves, None, Some(&rx), MAX_DEPTH)
    }

    /// Searches for at most about `time_to_search` milliseconds, to at most
    /// the depth `max_plies`, or until it is told to stop over the channel,
    /// and returns the best of `start_moves`, or of the legal moves, at the
    /// last depth it finished.
    pub fn uci_timed_find_move<T: Board>(
        game: &T,
        time_to_search: u128,
        rx: Receiver<&'static str>,
        start_moves: Option<Vec<GameMove>>,
        max_plies: Option<usize>,
    ) -> (found: SearchResult)
        requires
            game.wf(),
            has_room(game.position(), MAX_DEPTH as int, 0),
            match start_moves {
                Some(given) => can_choose(game.position(), given@),
                None => legal_moves(game.position()).len() > 0,
            },
        ensures
            is_result_of(found, game.position(), searched(game.position(), start_moves)),
            found.depth <= depth_cap(
                match max_plies {
                    Some(plies) => plies,
                    None => MAX_DEPTH,
                },
            ),
            kept_time(found, Some(time_to_search)),
    {
        let moves: Vec<GameMove> = moves_to_search(game, start_moves);
        let max_depth: usize = match max_plies {
            Some(plies) => plies,
            None => MAX_DEPTH,
        };
        deepen(game, &moves, Some(time_to_search), Some(&rx), max_depth)
    }
}

} // verus!
