//! A chess position and search core: board state with reversible moves, a pseudo-legal
//! move generator with check detection, and minimax / alpha-beta evaluation.
pub mod types;
pub mod move_;
pub mod board;
pub mod move_generation;
pub mod evaluation;
pub mod test_util;
pub mod laws;

use vstd::prelude::*;
use vstd::string::StringExecFns;
use crate::board::{lemma_apply_then_revert, Board, BoardModel, MoveError};
use crate::evaluation::{lowest_score, DynamicEvaluator};
use crate::move_generation::{generate_moves, generated};
use crate::move_::Move;

verus! {

/// A sequence of moves, such as the line a search found best.
pub struct Line {
    pub moves: Vec<Move>,
}

/// Every move of `moves` goes between on-board squares.
pub open spec fn on_board_moves(moves: Seq<Move>) -> bool {
    forall|i: int| 0 <= i < moves.len() ==> #[trigger] moves[i].from.on_board() && moves[i].to.on_board()
}

/// The long algebraic texts of the first `k` moves, separated by single spaces.
pub open spec fn line_text(moves: Seq<Move>, k: int) -> Seq<char>
    decreases k,
{
    if k <= 0 {
        Seq::empty()
    } else if k == 1 {
        moves[0].long_algebraic_spec()
    } else {
        line_text(moves, k - 1) + seq![' '] + moves[k - 1].long_algebraic_spec()
    }
}

impl Line {
    pub fn empty() -> (r: Line)
        ensures
            r.moves@ == Seq::<Move>::empty(),
    {
        Line { moves: Vec::new() }
    }

    pub fn from_moves(moves: Vec<Move>) -> (r: Line)
        ensures
            r.moves@ == moves@,
    {
        Line { moves }
    }

    /// The moves in long algebraic notation, separated by spaces.
    pub fn to_string(&self) -> (r: String)
        requires
            on_board_moves(self.moves@),
        ensures
            r@ == line_text(self.moves@, self.moves@.len() as int),
    {
        let mut text = String::new();
        let mut i: usize = 0;
        while i < self.moves.len()
            invariant
                on_board_moves(self.moves@),
                i <= self.moves@.len(),
                text@ == line_text(self.moves@, i as int),
            decreases self.moves@.len() - i,
        {
            let m = self.moves[i].long_algebraic();
            if i > 0 {
                proof {
                    reveal_strlit(" ");
                }
                text.append(" ");
            }
            text.append(m.as_str());
            i = i + 1;
        }
        text
    }

    pub fn push_front(&mut self, move_: &Move)
        ensures
            final(self).moves@ == seq![*move_] + old(self).moves@,
    {
        self.moves.insert(0, *move_);
        assert(self.moves@ =~= seq![*move_] + old(self).moves@);
    }
}

/// A move that has been applied to a board and can be taken back from it.
pub struct MoveUnmove {
    move_: Move,
}

impl MoveUnmove {
    /// The move this guard takes back.
    pub closed spec fn applied(&self) -> Move {
        self.move_
    }

    /// Apply `move_` to `board`, returning the guard that takes it back.
    pub fn apply_move(board: &mut Board, move_: &Move) -> (r: Result<MoveUnmove, MoveError>)
        requires
            old(board).wf(),
        ensures
            final(board).wf(),
            r is Ok <==> old(board)@.can_apply(*move_),
            r is Ok ==> r->Ok_0.applied() == *move_ && final(board)@ == old(board)@.apply(*move_),
            r is Err ==> final(board)@ == old(board)@,
    {
        match board.apply_move(*move_) {
            Ok(()) => Ok(MoveUnmove { move_: *move_ }),
            Err(e) => Err(e),
        }
    }

    /// Take the move back from `board`.
    pub fn revert_move(&mut self, board: &mut Board) -> (r: Result<(), MoveError>)
        requires
            old(board).wf(),
        ensures
            final(board).wf(),
            final(self).applied() == old(self).applied(),
            r is Ok <==> old(board)@.can_revert(old(self).applied()),
            r is Ok ==> final(board)@ == old(board)@.revert(old(self).applied()),
            r is Err ==> final(board)@ == old(board)@,
    {
        board.revert_move(self.move_)
    }
}

/// The choice among the first `k` of `moves` from `b`: the first move whose evaluation by
/// `E` (at depth `depth`, from the mover's point of view) is highest, with that evaluation.
pub open spec fn choice_upto<E: DynamicEvaluator>(b: BoardModel, moves: Seq<Move>, k: int, depth: nat) -> Option<
    (Move, int),
>
    decreases k,
{
    if k <= 0 || k > moves.len() {
        None
    } else {
        let prev = choice_upto::<E>(b, moves, k - 1, depth);
        let m = moves[k - 1];
        if b.can_apply(m) {
            let e = E::value_of(b.apply(m), depth) * b.side.sign();
            if prev.is_none() || e > prev.unwrap().1 {
                Some((m, e))
            } else {
                prev
            }
        } else {
            prev
        }
    }
}

/// The move `E` chooses on `b`: none when the game is over.
pub open spec fn best_move_spec<E: DynamicEvaluator>(b: BoardModel, depth: nat) -> Option<Move> {
    match choice_upto::<E>(b, generated(b), generated(b).len() as int, depth) {
        Some(c) => Some(c.0),
        None => None,
    }
}

/// The move of the side to move that `evaluator` rates best, or `None` when the game is
/// over.
pub fn best_move<E: DynamicEvaluator>(board: &mut Board, evaluator: &mut E) -> (r: Option<Move>)
    requires
        old(board).wf(),
    ensures
        final(board).wf(),
        final(board)@ == old(board)@,
        final(evaluator).depth_limit() == old(evaluator).depth_limit(),
        r == best_move_spec::<E>(old(board)@, old(evaluator).depth_limit()),
{
    if board.is_game_over() {
        return None;
    }
    let moves = generate_moves(board);
    let ghost b0 = board@;
    let ghost depth = evaluator.depth_limit();
    let mut best: Option<Move> = None;
    let mut best_evaluation = lowest_score();
    let neg: i32 = match board.side {
        crate::types::Color::White => 1,
        crate::types::Color::Black => -1,
    };
    let mut i: usize = 0;
    while i < moves.len()
        invariant
            board.wf(),
            board@ == b0,
            b0 == old(board)@,
            moves@ == generated(b0),
            i <= moves@.len(),
            neg == b0.side.sign(),
            evaluator.depth_limit() == depth,
            depth == old(evaluator).depth_limit(),
            match choice_upto::<E>(b0, moves@, i as int, depth) {
                Some(c) => best == Some(c.0) && best_evaluation == c.1,
                None => best.is_none() && best_evaluation == i32::MIN,
            },
        decreases moves@.len() - i,
    {
        let m = moves[i];
        match MoveUnmove::apply_move(board, &m) {
            Ok(mut guard) => {
                proof {
                    lemma_apply_then_revert(b0, m);
                }
                let evaluation = evaluator.evaluate(board) * neg;
                let _ = guard.revert_move(board);
                if evaluation > best_evaluation {
                    best = Some(m);
                    best_evaluation = evaluation;
                }
            },
            Err(_) => {},
        }
        i = i + 1;
    }
    best
}

} // verus!
