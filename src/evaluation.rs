//! Position evaluation: static material count, and fixed-depth minimax and alpha-beta
//! searches over the generated moves.
use vstd::prelude::*;
use std::time::{Duration, Instant};
use crate::types::{Color, PieceOnBoard};
use crate::board::{lemma_apply_then_revert, Board, BoardModel, SLOT_COUNT};
use crate::move_::Move;
use crate::move_generation::{generate_moves, generated};
use crate::{Line, MoveUnmove};

verus! {

/// Signed material of the pieces in the first `j` slots.
pub open spec fn material_upto(slots: Seq<Option<PieceOnBoard>>, j: int) -> int
    decreases j,
{
    if j <= 0 {
        0
    } else {
        material_upto(slots, j - 1) + match slots[j - 1] {
            Some(e) => e.piece.signed_worth(),
            None => 0,
        }
    }
}

/// The static evaluation of a board: the sum of its pieces' signed material values, White
/// positive.
pub open spec fn material(b: BoardModel) -> int {
    material_upto(b.pieces.slots, 32)
}

/// No evaluation is larger in size than 32 kings' worth.
pub open spec fn score_bound() -> int {
    6400
}

pub proof fn lemma_material_bound(slots: Seq<Option<PieceOnBoard>>, j: int)
    requires
        0 <= j,
    ensures
        -200 * j <= material_upto(slots, j) <= 200 * j,
    decreases j,
{
    if j > 0 {
        lemma_material_bound(slots, j - 1);
    }
}

pub fn static_evaluation(board: &Board) -> (r: i32)
    requires
        board.wf(),
    ensures
        r == material(board@),
        -score_bound() <= r <= score_bound(),
{
    let mut evaluation: i32 = 0;
    let mut j: usize = 0;
    while j < SLOT_COUNT
        invariant
            board.wf(),
            j <= SLOT_COUNT,
            evaluation == material_upto(board@.pieces.slots, j as int),
        decreases SLOT_COUNT - j,
    {
        proof {
            lemma_material_bound(board@.pieces.slots, j as int);
        }
        if let Some(entry) = board.pieces.slot(j) {
            evaluation = evaluation + entry.piece.value();
        }
        j = j + 1;
    }
    proof {
        lemma_material_bound(board@.pieces.slots, 32);
    }
    evaluation
}

/// `count + n`, held at `u64::MAX`.
pub open spec fn sat_add(count: int, n: int) -> int {
    if count + n > u64::MAX {
        u64::MAX as int
    } else {
        count + n
    }
}

fn bump(count: u64) -> (r: u64)
    ensures
        r == sat_add(count as int, 1),
{
    if count < u64::MAX {
        count + 1
    } else {
        count
    }
}

/// Search statistics: nodes visited and time spent.
#[derive(Clone, Copy, Debug)]
pub struct DynamicEvaluatorStatistics {
    pub node_count: u64,
    pub duration: Duration,
}

impl DynamicEvaluatorStatistics {
    fn create() -> (r: DynamicEvaluatorStatistics)
        ensures
            r.node_count == 0,
    {
        DynamicEvaluatorStatistics { node_count: 0, duration: zero_duration() }
    }
}

#[verifier::external_type_specification]
#[verifier::external_body]
pub struct ExInstant(Instant);

/// Relies on `std::time::Duration::new`, here for a zero duration.
#[verifier::external_body]
fn zero_duration() -> Duration {
    Duration::new(0, 0)
}

/// Relies on `std::time::Instant::now`: reads the monotonic clock.
#[verifier::external_body]
fn now() -> Instant {
    Instant::now()
}

/// Relies on `std::time::Instant::elapsed`: the time since `start`.
#[verifier::external_body]
fn elapsed_since(start: &Instant) -> Duration {
    start.elapsed()
}

/// Relies on `std::time::Duration::saturating_add`: the sum of two durations.
#[verifier::external_body]
fn add_durations(a: Duration, b: Duration) -> Duration {
    a.saturating_add(b)
}

/// Relies on `num_traits::Bounded::min_value` for `i32`, which is `i32::MIN`.
#[verifier::external_body]
pub(crate) fn lowest_score() -> (r: i32)
    ensures
        r == i32::MIN,
{
    <i32 as num_traits::Bounded>::min_value()
}

/// Relies on `num_traits::Bounded::max_value` for `i32`, which is `i32::MAX`.
#[verifier::external_body]
fn highest_score() -> (r: i32)
    ensures
        r == i32::MAX,
{
    <i32 as num_traits::Bounded>::max_value()
}

/// A search strategy: evaluates a board to a fixed depth, White positive, and keeps
/// statistics and the line it found best.
pub trait DynamicEvaluator: Sized {
    spec fn depth_limit(&self) -> nat;

    spec fn node_total(&self) -> nat;

    spec fn best_line_view(&self) -> Seq<Move>;

    /// The evaluation of `b` searched `depth` plies deep.
    spec fn value_of(b: BoardModel, depth: nat) -> int;

    /// The best line of `b` searched `depth` plies deep.
    spec fn line_of(b: BoardModel, depth: nat) -> Seq<Move>;

    /// The nodes visited searching `b` `depth` plies deep.
    spec fn nodes_of(b: BoardModel, depth: nat) -> nat;

    fn create(max_depth: u32) -> (r: Self)
        ensures
            r.depth_limit() == max_depth,
            r.node_total() == 0,
            r.best_line_view() == Seq::<Move>::empty(),
    ;

    fn evaluate(&mut self, board: &mut Board) -> (r: i32)
        requires
            old(board).wf(),
        ensures
            final(board).wf(),
            final(board)@ == old(board)@,
            r == Self::value_of(old(board)@, old(self).depth_limit()),
            -score_bound() <= r <= score_bound(),
            final(self).depth_limit() == old(self).depth_limit(),
            final(self).best_line_view() == Self::line_of(old(board)@, old(self).depth_limit()),
            final(self).node_total() == sat_add(
                old(self).node_total() as int,
                Self::nodes_of(old(board)@, old(self).depth_limit()) as int,
            ),
    ;

    fn get_best_line(&self) -> (r: &Line)
        ensures
            r.moves@ == self.best_line_view(),
    ;

    fn get_statistics(&self) -> (r: DynamicEvaluatorStatistics)
        ensures
            r.node_count == self.node_total(),
    ;
}

/// Negamax search of `b`, `depth_left` plies deep, with sign `neg` for the side to move:
/// the evaluation, the best line and the number of nodes visited. A leaf (no depth left, or
/// no moves) is its static evaluation; otherwise the children's values, each multiplied by
/// `neg`, are maximised (the first of equal values wins) and the maximum multiplied by `neg`
/// again.
pub open spec fn minimax_spec(b: BoardModel, depth_left: nat, neg: int) -> (int, Seq<Move>, nat)
    decreases depth_left, generated(b).len() + 1,
{
    if depth_left == 0 || generated(b).len() == 0 {
        (material(b), Seq::empty(), 1)
    } else {
        let best = minimax_best(
            b,
            generated(b),
            generated(b).len() as int,
            (depth_left - 1) as nat,
            neg,
        );
        match best.0 {
            Some(found) => (found.0 * neg, found.1, best.1 + 1),
            None => (material(b), Seq::empty(), best.1 + 1),
        }
    }
}

/// The best of the first `k` of `moves` from `b` (value times `neg`, and line), and the
/// nodes visited on them. Moves that cannot be applied are passed over.
pub open spec fn minimax_best(b: BoardModel, moves: Seq<Move>, k: int, child_depth: nat, neg: int) -> (
    Option<(int, Seq<Move>)>,
    nat,
)
    decreases child_depth + 1, k,
{
    if k <= 0 || k > moves.len() {
        (None, 0)
    } else {
        let prev = minimax_best(b, moves, k - 1, child_depth, neg);
        let m = moves[k - 1];
        if b.can_apply(m) {
            let child = minimax_spec(b.apply(m), child_depth, -neg);
            let e = child.0 * neg;
            let chosen = if prev.0.is_none() || e > prev.0.unwrap().0 {
                Some((e, seq![m] + child.1))
            } else {
                prev.0
            };
            (chosen, prev.1 + child.2)
        } else {
            prev
        }
    }
}

pub open spec fn best_view(best: Option<(i32, Line)>) -> Option<(int, Seq<Move>)> {
    match best {
        Some(found) => Some((found.0 as int, found.1.moves@)),
        None => None,
    }
}

/// Full-width negamax search.
pub struct MinimaxEvaluator {
    statistics: DynamicEvaluatorStatistics,
    best_line: Line,
    max_depth: u32,
}

impl MinimaxEvaluator {
    /// Search `board` from ply `depth` down to the depth limit, `neg` being the sign of the
    /// side to move (see `minimax_spec`).
    pub fn minimax(&mut self, board: &mut Board, depth: u32, neg: i32) -> (r: (i32, Line))
        requires
            old(board).wf(),
            depth <= old(self).depth_limit(),
            neg == 1 || neg == -1,
        ensures
            final(board).wf(),
            final(board)@ == old(board)@,
            final(self).depth_limit() == old(self).depth_limit(),
            final(self).best_line_view() == old(self).best_line_view(),
            r.0 == minimax_spec(old(board)@, (old(self).depth_limit() - depth) as nat, neg as int).0,
            r.1.moves@ == minimax_spec(old(board)@, (old(self).depth_limit() - depth) as nat, neg as int).1,
            final(self).node_total() == sat_add(
                old(self).node_total() as int,
                minimax_spec(old(board)@, (old(self).depth_limit() - depth) as nat, neg as int).2 as int,
            ),
            -score_bound() <= r.0 <= score_bound(),
        decreases old(self).depth_limit() - depth,
    {
        let ghost b0 = board@;
        let ghost depth_left = (self.max_depth - depth) as nat;
        self.statistics.node_count = bump(self.statistics.node_count);
        if depth == self.max_depth {
            return (static_evaluation(board), Line::empty());
        }
        let moves = generate_moves(board);
        if moves.len() == 0 {
            return (static_evaluation(board), Line::empty());
        }
        let ghost child_depth = (depth_left - 1) as nat;
        let mut best: Option<(i32, Line)> = None;
        let mut i: usize = 0;
        while i < moves.len()
            invariant
                board.wf(),
                board@ == b0,
                moves@ == generated(b0),
                i <= moves@.len(),
                self.max_depth == old(self).max_depth,
                self.best_line.moves@ == old(self).best_line.moves@,
                depth < self.max_depth,
                child_depth == self.max_depth - depth - 1,
                neg == 1 || neg == -1,
                best_view(best) == minimax_best(b0, moves@, i as int, child_depth, neg as int).0,
                self.statistics.node_count == sat_add(
                    old(self).statistics.node_count + 1,
                    minimax_best(b0, moves@, i as int, child_depth, neg as int).1 as int,
                ),
                best.is_some() ==> -score_bound() <= best.unwrap().0 <= score_bound(),
            decreases moves@.len() - i,
        {
            let m = moves[i];
            match MoveUnmove::apply_move(board, &m) {
                Ok(mut guard) => {
                    proof {
                        lemma_apply_then_revert(b0, m);
                    }
                    let (child_value, mut line) = self.minimax(board, depth + 1, -neg);
                    let evaluation = child_value * neg;
                    let _ = guard.revert_move(board);
                    let better = match &best {
                        Some(found) => evaluation > found.0,
                        None => true,
                    };
                    if better {
                        line.push_front(&m);
                        best = Some((evaluation, line));
                    }
                },
                Err(_) => {},
            }
            i = i + 1;
        }
        match best {
            Some(found) => (found.0 * neg, found.1),
            None => (static_evaluation(board), Line::empty()),
        }
    }
}

impl DynamicEvaluator for MinimaxEvaluator {
    closed spec fn depth_limit(&self) -> nat {
        self.max_depth as nat
    }

    closed spec fn node_total(&self) -> nat {
        self.statistics.node_count as nat
    }

    closed spec fn best_line_view(&self) -> Seq<Move> {
        self.best_line.moves@
    }

    open spec fn value_of(b: BoardModel, depth: nat) -> int {
        minimax_spec(b, depth, b.side.sign()).0
    }

    open spec fn line_of(b: BoardModel, depth: nat) -> Seq<Move> {
        minimax_spec(b, depth, b.side.sign()).1
    }

    open spec fn nodes_of(b: BoardModel, depth: nat) -> nat {
        minimax_spec(b, depth, b.side.sign()).2
    }

    fn create(max_depth: u32) -> (r: MinimaxEvaluator) {
        MinimaxEvaluator {
            statistics: DynamicEvaluatorStatistics::create(),
            best_line: Line::empty(),
            max_depth,
        }
    }

    fn evaluate(&mut self, board: &mut Board) -> (r: i32) {
        self.best_line = Line::empty();
        let neg: i32 = match board.side {
            Color::White => 1,
            Color::Black => -1,
        };
        let stopwatch = now();
        let (evaluation, line) = self.minimax(board, 0, neg);
        self.best_line = line;
        let elapsed = elapsed_since(&stopwatch);
        self.statistics.duration = add_durations(self.statistics.duration, elapsed);
        evaluation
    }

    fn get_best_line(&self) -> (r: &Line) {
        &self.best_line
    }

    fn get_statistics(&self) -> (r: DynamicEvaluatorStatistics) {
        self.statistics
    }
}

/// Alpha-beta search of `b` inside the window (`alpha`, `beta`), `depth_left` plies deep,
/// White maximising and Black minimising: the evaluation and the number of nodes visited.
/// A leaf (no depth left, or no moves) is its static evaluation.
pub open spec fn alpha_beta_spec(b: BoardModel, alpha: int, beta: int, depth_left: nat, maximizing: bool) -> (
    int,
    nat,
)
    decreases depth_left, generated(b).len() + 1,
{
    if depth_left == 0 || generated(b).len() == 0 {
        (material(b), 1)
    } else {
        let rest = alpha_beta_from(
            b,
            generated(b),
            0,
            alpha,
            beta,
            None,
            (depth_left - 1) as nat,
            maximizing,
        );
        (rest.0, rest.1 + 1)
    }
}

/// The alpha-beta loop over `moves` from index `i` on, `best` being the best value so far.
/// A maximising loop returns at once a child value of at least `beta` and otherwise raises
/// `alpha`; a minimising loop returns at once a child value of at most `alpha` and otherwise
/// lowers `beta`. Moves that cannot be applied are passed over; when no move could be
/// applied the result is the static evaluation.
pub open spec fn alpha_beta_from(
    b: BoardModel,
    moves: Seq<Move>,
    i: int,
    alpha: int,
    beta: int,
    best: Option<int>,
    child_depth: nat,
    maximizing: bool,
) -> (int, nat)
    decreases child_depth + 1, moves.len() - i,
{
    if i < 0 || i >= moves.len() {
        (
            match best {
                Some(v) => v,
                None => material(b),
            },
            0,
        )
    } else {
        let m = moves[i];
        if !b.can_apply(m) {
            alpha_beta_from(b, moves, i + 1, alpha, beta, best, child_depth, maximizing)
        } else {
            let child = alpha_beta_spec(b.apply(m), alpha, beta, child_depth, !maximizing);
            let e = child.0;
            if maximizing {
                if e >= beta {
                    (e, child.1)
                } else {
                    let rest = alpha_beta_from(
                        b,
                        moves,
                        i + 1,
                        if e > alpha {
                            e
                        } else {
                            alpha
                        },
                        beta,
                        if best.is_none() || e > best.unwrap() {
                            Some(e)
                        } else {
                            best
                        },
                        child_depth,
                        maximizing,
                    );
                    (rest.0, child.1 + rest.1)
                }
            } else {
                if e <= alpha {
                    (e, child.1)
                } else {
                    let rest = alpha_beta_from(
                        b,
                        moves,
                        i + 1,
                        alpha,
                        if e < beta {
                            e
                        } else {
                            beta
                        },
                        if best.is_none() || e < best.unwrap() {
                            Some(e)
                        } else {
                            best
                        },
                        child_depth,
                        maximizing,
                    );
                    (rest.0, child.1 + rest.1)
                }
            }
        }
    }
}

pub open spec fn score_view(best: Option<i32>) -> Option<int> {
    match best {
        Some(v) => Some(v as int),
        None => None,
    }
}

/// Alpha-beta search. It keeps no best line: `get_best_line` always gives an empty line.
pub struct AlphaBetaEvaluator {
    statistics: DynamicEvaluatorStatistics,
    best_line: Line,
    max_depth: u32,
}

impl AlphaBetaEvaluator {
    /// The minimising half of the search, from ply `depth` (see `alpha_beta_spec`).
    fn alpha_beta_min(&mut self, board: &mut Board, alpha: i32, beta: i32, depth: u32) -> (r: i32)
        requires
            old(board).wf(),
            depth <= old(self).max_depth,
        ensures
            final(board).wf(),
            final(board)@ == old(board)@,
            final(self).max_depth == old(self).max_depth,
            final(self).best_line.moves@ == old(self).best_line.moves@,
            r == alpha_beta_spec(old(board)@, alpha as int, beta as int, (old(self).max_depth - depth) as nat, false).0,
            final(self).statistics.node_count == sat_add(
                old(self).statistics.node_count as int,
                alpha_beta_spec(old(board)@, alpha as int, beta as int, (old(self).max_depth - depth) as nat, false).1 as int,
            ),
            -score_bound() <= r <= score_bound(),
        decreases old(self).max_depth - depth, 0nat,
    {
        let ghost b0 = board@;
        self.statistics.node_count = bump(self.statistics.node_count);
        if depth == self.max_depth {
            return static_evaluation(board);
        }
        let moves = generate_moves(board);
        if moves.len() == 0 {
            return static_evaluation(board);
        }
        let ghost child_depth = (self.max_depth - depth - 1) as nat;
        let ghost total = alpha_beta_from(b0, moves@, 0, alpha as int, beta as int, None, child_depth, false);
        let ghost mut consumed: nat = 0;
        let mut beta_now = beta;
        let mut best: Option<i32> = None;
        let mut i: usize = 0;
        while i < moves.len()
            invariant
                board.wf(),
                board@ == b0,
                b0 == old(board)@,
                moves@ == generated(b0),
                i <= moves@.len(),
                self.max_depth == old(self).max_depth,
                self.best_line.moves@ == old(self).best_line.moves@,
                depth < self.max_depth,
                child_depth == self.max_depth - depth - 1,
                total == alpha_beta_from(b0, moves@, 0, alpha as int, beta as int, None, child_depth, false),
                total.0 == alpha_beta_from(b0, moves@, i as int, alpha as int, beta_now as int, score_view(best), child_depth, false).0,
                total.1 == consumed + alpha_beta_from(b0, moves@, i as int, alpha as int, beta_now as int, score_view(best), child_depth, false).1,
                self.statistics.node_count == sat_add(old(self).statistics.node_count + 1, consumed as int),
                best.is_some() ==> -score_bound() <= best.unwrap() <= score_bound(),
            decreases moves@.len() - i,
        {
            let m = moves[i];
            match MoveUnmove::apply_move(board, &m) {
                Ok(mut guard) => {
                    proof {
                        lemma_apply_then_revert(b0, m);
                    }
                    let evaluation = self.alpha_beta_max(board, alpha, beta_now, depth + 1);
                    let _ = guard.revert_move(board);
                    proof {
                        consumed = consumed + alpha_beta_spec(b0.apply(m), alpha as int, beta_now as int, child_depth, true).1;
                    }
                    if evaluation <= alpha {
                        return evaluation;
                    }
                    if evaluation < beta_now {
                        beta_now = evaluation;
                    }
                    let better = match best {
                        Some(v) => evaluation < v,
                        None => true,
                    };
                    if better {
                        best = Some(evaluation);
                    }
                },
                Err(_) => {},
            }
            i = i + 1;
        }
        match best {
            Some(v) => v,
            None => static_evaluation(board),
        }
    }

    /// The maximising half of the search, from ply `depth` (see `alpha_beta_spec`).
    fn alpha_beta_max(&mut self, board: &mut Board, alpha: i32, beta: i32, depth: u32) -> (r: i32)
        requires
            old(board).wf(),
            depth <= old(self).max_depth,
        ensures
            final(board).wf(),
            final(board)@ == old(board)@,
            final(self).max_depth == old(self).max_depth,
            final(self).best_line.moves@ == old(self).best_line.moves@,
            r == alpha_beta_spec(old(board)@, alpha as int, beta as int, (old(self).max_depth - depth) as nat, true).0,
            final(self).statistics.node_count == sat_add(
                old(self).statistics.node_count as int,
                alpha_beta_spec(old(board)@, alpha as int, beta as int, (old(self).max_depth - depth) as nat, true).1 as int,
            ),
            -score_bound() <= r <= score_bound(),
        decreases old(self).max_depth - depth, 0nat,
    {
        let ghost b0 = board@;
        self.statistics.node_count = bump(self.statistics.node_count);
        if depth == self.max_depth {
            return static_evaluation(board);
        }
        let moves = generate_moves(board);
        if moves.len() == 0 {
            return static_evaluation(board);
        }
        let ghost child_depth = (self.max_depth - depth - 1) as nat;
        let ghost total = alpha_beta_from(b0, moves@, 0, alpha as int, beta as int, None, child_depth, true);
        let ghost mut consumed: nat = 0;
        let mut alpha_now = alpha;
        let mut best: Option<i32> = None;
        let mut i: usize = 0;
        while i < moves.len()
            invariant
                board.wf(),
                board@ == b0,
                b0 == old(board)@,
                moves@ == generated(b0),
                i <= moves@.len(),
                self.max_depth == old(self).max_depth,
                self.best_line.moves@ == old(self).best_line.moves@,
                depth < self.max_depth,
                child_depth == self.max_depth - depth - 1,
                total == alpha_beta_from(b0, moves@, 0, alpha as int, beta as int, None, child_depth, true),
                total.0 == alpha_beta_from(b0, moves@, i as int, alpha_now as int, beta as int, score_view(best), child_depth, true).0,
                total.1 == consumed + alpha_beta_from(b0, moves@, i as int, alpha_now as int, beta as int, score_view(best), child_depth, true).1,
                self.statistics.node_count == sat_add(old(self).statistics.node_count + 1, consumed as int),
                best.is_some() ==> -score_bound() <= best.unwrap() <= score_bound(),
            decreases moves@.len() - i,
        {
            let m = moves[i];
            match MoveUnmove::apply_move(board, &m) {
                Ok(mut guard) => {
                    proof {
                        lemma_apply_then_revert(b0, m);
                    }
                    let evaluation = self.alpha_beta_min(board, alpha_now, beta, depth + 1);
                    let _ = guard.revert_move(board);
                    proof {
                        consumed = consumed + alpha_beta_spec(b0.apply(m), alpha_now as int, beta as int, child_depth, false).1;
                    }
                    if evaluation >= beta {
                        return evaluation;
                    }
                    if evaluation > alpha_now {
                        alpha_now = evaluation;
                    }
                    let better = match best {
                        Some(v) => evaluation > v,
                        None => true,
                    };
                    if better {
                        best = Some(evaluation);
                    }
                },
                Err(_) => {},
            }
            i = i + 1;
        }
        match best {
            Some(v) => v,
            None => static_evaluation(board),
        }
    }
}

impl DynamicEvaluator for AlphaBetaEvaluator {
    closed spec fn depth_limit(&self) -> nat {
        self.max_depth as nat
    }

    closed spec fn node_total(&self) -> nat {
        self.statistics.node_count as nat
    }

    closed spec fn best_line_view(&self) -> Seq<Move> {
        self.best_line.moves@
    }

    open spec fn value_of(b: BoardModel, depth: nat) -> int {
        alpha_beta_spec(b, i32::MIN as int, i32::MAX as int, depth, b.side == Color::White).0
    }

    open spec fn line_of(b: BoardModel, depth: nat) -> Seq<Move> {
        Seq::empty()
    }

    open spec fn nodes_of(b: BoardModel, depth: nat) -> nat {
        alpha_beta_spec(b, i32::MIN as int, i32::MAX as int, depth, b.side == Color::White).1
    }

    fn create(max_depth: u32) -> (r: AlphaBetaEvaluator) {
        AlphaBetaEvaluator {
            statistics: DynamicEvaluatorStatistics::create(),
            best_line: Line::empty(),
            max_depth,
        }
    }

    fn evaluate(&mut self, board: &mut Board) -> (r: i32) {
        self.best_line = Line::empty();
        let stopwatch = now();
        let evaluation = match board.side {
            Color::White => self.alpha_beta_max(board, lowest_score(), highest_score(), 0),
            Color::Black => self.alpha_beta_min(board, lowest_score(), highest_score(), 0),
        };
        let elapsed = elapsed_since(&stopwatch);
        self.statistics.duration = add_durations(self.statistics.duration, elapsed);
        evaluation
    }

    fn get_best_line(&self) -> (r: &Line) {
        &self.best_line
    }

    fn get_statistics(&self) -> (r: DynamicEvaluatorStatistics) {
        self.statistics
    }
}

} // verus!
