//! Pseudo-legal move generation and check detection.
//!
//! Moves come out in the order of the board's piece slots; within a piece, in the fixed
//! order of its direction or offset table (see `direction_spec`), a pawn's pushes before its
//! captures towards lower and then higher files, a king's steps before its castling moves.
use vstd::prelude::*;
use crate::types::{Castle, Color, Piece, PieceKind, PieceOnBoard, Square};
use crate::board::{Board, BoardModel, SLOT_COUNT};
use crate::move_::{plain_move, Move};

verus! {

/// The direction and offset tables of the pieces.
#[derive(Clone, Copy, PartialEq, Eq, Structural, Debug)]
pub enum Directions {
    /// Along files and ranks: rook and queen rays.
    Straight,
    /// Along diagonals: bishop and queen rays.
    Diagonal,
    /// The knight's jumps.
    Knight,
    /// The king's steps.
    King,
}

pub open spec fn direction_count(set: Directions) -> int {
    match set {
        Directions::Straight => 4,
        Directions::Diagonal => 4,
        _ => 8,
    }
}

pub open spec fn straight_spec(i: int) -> (i8, i8) {
    if i == 0 {
        (1i8, 0i8)
    } else if i == 1 {
        (-1i8, 0i8)
    } else if i == 2 {
        (0i8, 1i8)
    } else {
        (0i8, -1i8)
    }
}

pub open spec fn diagonal_spec(i: int) -> (i8, i8) {
    if i == 0 {
        (1i8, 1i8)
    } else if i == 1 {
        (-1i8, 1i8)
    } else if i == 2 {
        (-1i8, -1i8)
    } else {
        (1i8, -1i8)
    }
}

pub open spec fn knight_spec(i: int) -> (i8, i8) {
    if i == 0 {
        (-2i8, -1i8)
    } else if i == 1 {
        (-1i8, -2i8)
    } else if i == 2 {
        (1i8, -2i8)
    } else if i == 3 {
        (2i8, -1i8)
    } else if i == 4 {
        (2i8, 1i8)
    } else if i == 5 {
        (1i8, 2i8)
    } else if i == 6 {
        (-1i8, 2i8)
    } else {
        (-2i8, 1i8)
    }
}

/// Entry `i` of a direction table, as (file step, rank step). The king steps along the
/// straight directions first, then the diagonal ones.
pub open spec fn direction_spec(set: Directions, i: int) -> (i8, i8) {
    match set {
        Directions::Straight => straight_spec(i),
        Directions::Diagonal => diagonal_spec(i),
        Directions::Knight => knight_spec(i),
        Directions::King => if i < 4 {
            straight_spec(i)
        } else {
            diagonal_spec(i - 4)
        },
    }
}

fn direction(set: Directions, i: usize) -> (r: (i8, i8))
    requires
        i < direction_count(set),
    ensures
        r == direction_spec(set, i as int),
{
    match set {
        Directions::Straight => match i {
            0 => (1, 0),
            1 => (-1, 0),
            2 => (0, 1),
            _ => (0, -1),
        },
        Directions::Diagonal => match i {
            0 => (1, 1),
            1 => (-1, 1),
            2 => (-1, -1),
            _ => (1, -1),
        },
        Directions::Knight => match i {
            0 => (-2, -1),
            1 => (-1, -2),
            2 => (1, -2),
            3 => (2, -1),
            4 => (2, 1),
            5 => (1, 2),
            6 => (-1, 2),
            _ => (-2, 1),
        },
        Directions::King => match i {
            0 => (1, 0),
            1 => (-1, 0),
            2 => (0, 1),
            3 => (0, -1),
            4 => (1, 1),
            5 => (-1, 1),
            6 => (-1, -1),
            _ => (1, -1),
        },
    }
}

/// `sq` shifted by `dx` files and `dy` ranks.
pub open spec fn shift(sq: Square, dx: int, dy: int) -> Square {
    Square { x: (sq.x + dx) as i8, y: (sq.y + dy) as i8 }
}

/// A move of `kind` from `from` to `to` on board `b` that takes `c`.
pub open spec fn capture_move(
    b: BoardModel,
    kind: PieceKind,
    from: Square,
    to: Square,
    c: PieceOnBoard,
) -> Move {
    Move { capture: Some(c), ..plain_move(b.en_passant, b.castle_rights, kind, from, to) }
}

/// What stepping `p` from `from` by (`dx`, `dy`) yields: the move to the target square if
/// it is on the board and free or holds an opposing piece, and whether the target was free.
pub open spec fn probe_spec(b: BoardModel, p: Piece, from: Square, dx: int, dy: int) -> (
    Seq<Move>,
    bool,
) {
    let target = shift(from, dx, dy);
    if !target.on_board() {
        (Seq::empty(), false)
    } else {
        match b.piece_at(target) {
            Some(t) => {
                if t.color == p.color {
                    (Seq::empty(), false)
                } else {
                    (
                        seq![
                            capture_move(
                                b,
                                p.kind,
                                from,
                                target,
                                PieceOnBoard { piece: t, square: target },
                            ),
                        ],
                        false,
                    )
                }
            },
            None => (
                seq![plain_move(b.en_passant, b.castle_rights, p.kind, from, target)],
                true,
            ),
        }
    }
}

/// The moves of a sliding piece along one ray, from `step` squares out: free squares one
/// after another, then a capture of the first opposing piece, stopping at the edge or at an
/// own piece.
pub open spec fn ray_spec(b: BoardModel, p: Piece, from: Square, dx: int, dy: int, step: int) -> Seq<
    Move,
>
    decreases 9 - step,
{
    if step > 8 || step < 1 {
        Seq::empty()
    } else {
        let probe = probe_spec(b, p, from, dx * step, dy * step);
        if probe.1 {
            probe.0 + ray_spec(b, p, from, dx, dy, step + 1)
        } else {
            probe.0
        }
    }
}

/// The ray moves along the first `k` directions of `set`.
pub open spec fn rays_upto(b: BoardModel, p: Piece, from: Square, set: Directions, k: int) -> Seq<
    Move,
>
    decreases k,
{
    if k <= 0 {
        Seq::empty()
    } else {
        let d = direction_spec(set, k - 1);
        rays_upto(b, p, from, set, k - 1) + ray_spec(b, p, from, d.0 as int, d.1 as int, 1)
    }
}

/// The single steps along the first `k` offsets of `set`.
pub open spec fn steps_upto(b: BoardModel, p: Piece, from: Square, set: Directions, k: int) -> Seq<
    Move,
>
    decreases k,
{
    if k <= 0 {
        Seq::empty()
    } else {
        let d = direction_spec(set, k - 1);
        steps_upto(b, p, from, set, k - 1) + probe_spec(b, p, from, d.0 as int, d.1 as int).0
    }
}

/// The promotion kinds, in the order their moves are generated.
pub open spec fn promotion_kind_spec(i: int) -> PieceKind {
    if i == 0 {
        PieceKind::Knight
    } else if i == 1 {
        PieceKind::Bishop
    } else if i == 2 {
        PieceKind::Rook
    } else {
        PieceKind::Queen
    }
}

/// A pawn move from `from` to `to`, taking `capture` if any.
pub open spec fn pawn_move(b: BoardModel, from: Square, to: Square, capture: Option<
    PieceOnBoard,
>) -> Move {
    Move { capture, ..plain_move(b.en_passant, b.castle_rights, PieceKind::Pawn, from, to) }
}

/// The moves of pawn `p` going from `from` to `to`: one move, or four promotion moves
/// (knight, bishop, rook, queen) when `to` is on `p`'s promotion rank.
pub open spec fn pawn_targets(
    b: BoardModel,
    p: Piece,
    from: Square,
    to: Square,
    capture: Option<PieceOnBoard>,
) -> Seq<Move> {
    if to.y == p.color.promotion_rank_spec() {
        Seq::new(
            4,
            |i: int| Move { promotion: Some(promotion_kind_spec(i)), ..pawn_move(b, from, to, capture) },
        )
    } else {
        seq![pawn_move(b, from, to, capture)]
    }
}

/// A pawn's pushes: one square forward onto a free square, and from its home rank two
/// squares forward when both are free, which leaves the square passed over as the
/// en-passant target.
pub open spec fn pawn_pushes(b: BoardModel, p: Piece, from: Square) -> Seq<Move> {
    let fwd = p.color.sign();
    let one = shift(from, 0, fwd);
    let two = shift(from, 0, 2 * fwd);
    if b.is_empty_at(one) && one.on_board() {
        pawn_targets(b, p, from, one, None) + if from.y == p.color.home_rank_spec() && b.is_empty_at(
            two,
        ) && two.on_board() {
            seq![
                Move {
                    en_passant_after: Some(one),
                    ..plain_move(b.en_passant, b.castle_rights, PieceKind::Pawn, from, two)
                },
            ]
        } else {
            Seq::empty()
        }
    } else {
        Seq::empty()
    }
}

/// A pawn's captures towards file offset `fd`: of an opposing piece on the diagonal square,
/// and en passant when that square is the en-passant target, taking the opposing piece
/// beside the pawn.
pub open spec fn pawn_captures(b: BoardModel, p: Piece, from: Square, fd: int) -> Seq<Move> {
    let target = shift(from, fd, p.color.sign());
    let beside = shift(from, fd, 0);
    let diagonal = match b.piece_at(target) {
        Some(t) => {
            if t.color != p.color {
                pawn_targets(b, p, from, target, Some(PieceOnBoard { piece: t, square: target }))
            } else {
                Seq::empty()
            }
        },
        None => Seq::empty(),
    };
    let en_passant = if b.en_passant == Some(target) && b.piece_at(beside).is_some()
        && b.piece_at(beside).unwrap().color != p.color {
        seq![
            capture_move(
                b,
                p.kind,
                from,
                target,
                PieceOnBoard { piece: b.piece_at(beside).unwrap(), square: beside },
            ),
        ]
    } else {
        Seq::empty()
    };
    diagonal + en_passant
}

pub open spec fn pawn_moves(b: BoardModel, p: Piece, from: Square) -> Seq<Move> {
    pawn_pushes(b, p, from) + pawn_captures(b, p, from, -1) + pawn_captures(b, p, from, 1)
}

/// The castle move of `color` on `castle` side.
pub open spec fn castle_move(b: BoardModel, color: Color, castle: Castle) -> Move {
    let rank = color.back_rank_spec() as i8;
    Move {
        castle: Some(castle),
        ..plain_move(
            b.en_passant,
            b.castle_rights,
            PieceKind::King,
            Square { x: 4, y: rank },
            Square { x: crate::move_::king_landing_file(castle), y: rank },
        )
    }
}

/// Whether `castle` side is open to `color`: the right is held and the squares between king
/// and rook are free (two on the king side, three on the queen side).
pub open spec fn castle_open(b: BoardModel, color: Color, castle: Castle) -> bool {
    let rank = color.back_rank_spec() as i8;
    &&& b.castle_rights.of(color).has(castle)
    &&& match castle {
        Castle::KingSide => b.is_empty_at(Square { x: 5, y: rank }) && b.is_empty_at(
            Square { x: 6, y: rank },
        ),
        Castle::QueenSide => b.is_empty_at(Square { x: 3, y: rank }) && b.is_empty_at(
            Square { x: 2, y: rank },
        ) && b.is_empty_at(Square { x: 1, y: rank }),
    }
}

pub open spec fn castle_moves(b: BoardModel, color: Color) -> Seq<Move> {
    (if castle_open(b, color, Castle::KingSide) {
        seq![castle_move(b, color, Castle::KingSide)]
    } else {
        Seq::empty()
    }) + (if castle_open(b, color, Castle::QueenSide) {
        seq![castle_move(b, color, Castle::QueenSide)]
    } else {
        Seq::empty()
    })
}

/// The moves of piece `e.piece` standing on `e.square`.
pub open spec fn piece_moves(b: BoardModel, e: PieceOnBoard) -> Seq<Move> {
    let p = e.piece;
    let sq = e.square;
    match p.kind {
        PieceKind::Pawn => pawn_moves(b, p, sq),
        PieceKind::Rook => rays_upto(b, p, sq, Directions::Straight, 4),
        PieceKind::Bishop => rays_upto(b, p, sq, Directions::Diagonal, 4),
        PieceKind::Queen => rays_upto(b, p, sq, Directions::Straight, 4) + rays_upto(
            b,
            p,
            sq,
            Directions::Diagonal,
            4,
        ),
        PieceKind::King => steps_upto(b, p, sq, Directions::King, 8) + castle_moves(b, p.color),
        PieceKind::Knight => steps_upto(b, p, sq, Directions::Knight, 8),
        PieceKind::Dummy => Seq::empty(),
    }
}

/// The moves of the side to move's pieces in the first `j` slots.
pub open spec fn moves_upto(b: BoardModel, j: int) -> Seq<Move>
    decreases j,
{
    if j <= 0 {
        Seq::empty()
    } else {
        moves_upto(b, j - 1) + match b.pieces.slots[j - 1] {
            Some(e) => {
                if e.piece.color == b.side {
                    piece_moves(b, e)
                } else {
                    Seq::empty()
                }
            },
            None => Seq::empty(),
        }
    }
}

/// All pseudo-legal moves of the side to move, in generation order.
pub open spec fn generated(b: BoardModel) -> Seq<Move> {
    moves_upto(b, 32)
}

/// Add to `moves` the move of `piece` from `current_square` by (`x_delta`, `y_delta`) if the
/// target square is on the board and free or holds an opposing piece. Returns whether the
/// target square was on the board and free.
fn probe_move(
    board: &Board,
    piece: &Piece,
    current_square: &Square,
    x_delta: i8,
    y_delta: i8,
    moves: &mut Vec<Move>,
) -> (r: bool)
    requires
        board.wf(),
        current_square.on_board(),
        -16 <= x_delta <= 16,
        -16 <= y_delta <= 16,
    ensures
        final(moves)@ == old(moves)@ + probe_spec(
            board@,
            *piece,
            *current_square,
            x_delta as int,
            y_delta as int,
        ).0,
        r == probe_spec(board@, *piece, *current_square, x_delta as int, y_delta as int).1,
{
    let target_square = current_square.delta(x_delta, y_delta);
    if !target_square.is_on_board() {
        return false;
    }
    match board.piece_at(target_square) {
        Some(target_piece) => {
            if target_piece.color == piece.color {
                false
            } else {
                moves.push(
                    Move::from_to_capture(
                        board,
                        piece.kind,
                        *current_square,
                        target_square,
                        PieceOnBoard::create(&target_piece, &target_square),
                    ),
                );
                false
            }
        },
        None => {
            moves.push(Move::from_to(board, piece.kind, *current_square, target_square));
            true
        },
    }
}

/// `d * step` for a unit step `d`.
fn scale(d: i8, step: i8) -> (r: i8)
    requires
        -1 <= d <= 1,
        1 <= step <= 8,
    ensures
        r == d * step,
        d == 0 ==> r == 0,
        d == 1 ==> r == step,
        d == -1 ==> r == -step,
{
    if d == 0 {
        assert(d * step == 0) by (nonlinear_arith)
            requires
                d == 0,
        ;
        0
    } else if d > 0 {
        assert(d * step == step) by (nonlinear_arith)
            requires
                d == 1,
        ;
        step
    } else {
        assert(d * step == -step) by (nonlinear_arith)
            requires
                d == -1,
        ;
        -step
    }
}

/// Add the moves of a sliding piece along direction (`x_delta`, `y_delta`).
fn generate_directional_moves(
    board: &Board,
    piece: &Piece,
    current_square: &Square,
    x_delta: i8,
    y_delta: i8,
    moves: &mut Vec<Move>,
)
    requires
        board.wf(),
        current_square.on_board(),
        -1 <= x_delta <= 1,
        -1 <= y_delta <= 1,
        x_delta != 0 || y_delta != 0,
    ensures
        final(moves)@ == old(moves)@ + ray_spec(
            board@,
            *piece,
            *current_square,
            x_delta as int,
            y_delta as int,
            1,
        ),
{
    let mut step_idx: i8 = 1;
    loop
        invariant_except_break
            old(moves)@ + ray_spec(
                board@,
                *piece,
                *current_square,
                x_delta as int,
                y_delta as int,
                1,
            ) == moves@ + ray_spec(
                board@,
                *piece,
                *current_square,
                x_delta as int,
                y_delta as int,
                step_idx as int,
            ),
        invariant
            board.wf(),
            current_square.on_board(),
            -1 <= x_delta <= 1,
            -1 <= y_delta <= 1,
            x_delta != 0 || y_delta != 0,
            1 <= step_idx <= 8,
        ensures
            moves@ == old(moves)@ + ray_spec(
                board@,
                *piece,
                *current_square,
                x_delta as int,
                y_delta as int,
                1,
            ),
        decreases 8 - step_idx,
    {
        let dx: i8 = scale(x_delta, step_idx);
        let dy: i8 = scale(y_delta, step_idx);
        let ghost before = moves@;
        let went_on = probe_move(board, piece, current_square, dx, dy, moves);
        proof {
            assert(moves@ == before + probe_spec(board@, *piece, *current_square, dx as int, dy as int).0);
            assert(ray_spec(board@, *piece, *current_square, x_delta as int, y_delta as int, step_idx as int)
                == if went_on {
                    probe_spec(board@, *piece, *current_square, dx as int, dy as int).0 + ray_spec(
                        board@, *piece, *current_square, x_delta as int, y_delta as int, step_idx + 1)
                } else {
                    probe_spec(board@, *piece, *current_square, dx as int, dy as int).0
                });
        }
        if !went_on {
            break;
        }
        proof {
            let t = shift(*current_square, dx as int, dy as int);
            assert(t.on_board());
            if step_idx == 8 {
                assert(x_delta != 0 ==> !(0 <= current_square.x + dx < 8));
                assert(y_delta != 0 ==> !(0 <= current_square.y + dy < 8));
            }
        }
        proof {
            assert(moves@ + ray_spec(board@, *piece, *current_square, x_delta as int, y_delta as int, step_idx + 1)
                =~= before + ray_spec(board@, *piece, *current_square, x_delta as int, y_delta as int, step_idx as int));
        }
        step_idx = step_idx + 1;
    }
}

fn promotion_kind(i: usize) -> (r: PieceKind)
    requires
        i < 4,
    ensures
        r == promotion_kind_spec(i as int),
{
    match i {
        0 => PieceKind::Knight,
        1 => PieceKind::Bishop,
        2 => PieceKind::Rook,
        _ => PieceKind::Queen,
    }
}

/// Add a pawn's move from `from` to `to`: a plain move, or the four promotion moves when
/// `to` is on the promotion rank.
fn generate_pawn_move(
    board: &Board,
    piece: &Piece,
    from: &Square,
    to: &Square,
    capture: &Option<PieceOnBoard>,
    moves: &mut Vec<Move>,
)
    ensures
        final(moves)@ == old(moves)@ + pawn_targets(board@, *piece, *from, *to, *capture),
{
    if to.rank() as i32 == piece.color.promotion_rank() as i32 {
        let ghost targets = pawn_targets(board@, *piece, *from, *to, *capture);
        let mut i: usize = 0;
        while i < 4
            invariant
                i <= 4,
                targets == pawn_targets(board@, *piece, *from, *to, *capture),
                targets.len() == 4,
                moves@ == old(moves)@ + targets.take(i as int),
            decreases 4 - i,
        {
            let promotion = promotion_kind(i);
            let m = match capture {
                Some(c) => Move::promotion_capture(board, *from, *to, *c, promotion),
                None => Move::promotion(board, *from, *to, promotion),
            };
            moves.push(m);
            assert(targets.take(i + 1) =~= targets.take(i as int).push(m));
            i = i + 1;
        }
        assert(targets.take(4) =~= targets);
    } else {
        match capture {
            Some(c) => moves.push(Move::from_to_capture(board, PieceKind::Pawn, *from, *to, *c)),
            None => moves.push(Move::from_to(board, PieceKind::Pawn, *from, *to)),
        }
    }
}

/// Add a pawn's captures towards file offset `file_delta`.
fn generate_pawn_captures(
    board: &Board,
    piece: &Piece,
    square: &Square,
    file_delta: i8,
    moves: &mut Vec<Move>,
)
    requires
        board.wf(),
        square.on_board(),
        file_delta == -1 || file_delta == 1,
    ensures
        final(moves)@ == old(moves)@ + pawn_captures(board@, *piece, *square, file_delta as int),
{
    let forward = piece.color.forward();
    let target = square.delta(file_delta, forward);
    match board.piece_at(target) {
        Some(target_piece) => {
            if target_piece.color != piece.color {
                generate_pawn_move(
                    board,
                    piece,
                    square,
                    &target,
                    &Some(PieceOnBoard::create(&target_piece, &target)),
                    moves,
                );
            }
        },
        None => {},
    }
    if let Some(en_passant) = board.en_passant {
        if en_passant == target {
            let beside = square.delta(file_delta, 0);
            match board.piece_at(beside) {
                Some(beside_piece) => {
                    if beside_piece.color != piece.color {
                        moves.push(
                            Move::from_to_capture(
                                board,
                                piece.kind,
                                *square,
                                target,
                                PieceOnBoard::create(&beside_piece, &beside),
                            ),
                        );
                    }
                },
                None => {},
            }
        }
    }
    assert(moves@ =~= old(moves)@ + pawn_captures(board@, *piece, *square, file_delta as int));
}

fn generate_pawn_pushes(board: &Board, piece: &Piece, square: &Square, moves: &mut Vec<Move>)
    requires
        board.wf(),
        square.on_board(),
    ensures
        final(moves)@ == old(moves)@ + pawn_pushes(board@, *piece, *square),
{
    let forward = piece.color.forward();
    let home_rank = piece.color.home_rank();
    let one = square.delta(0, forward);
    if !board.has_piece_at(one) && one.is_on_board() {
        generate_pawn_move(board, piece, square, &one, &None, moves);
        let two = square.delta(0, forward * 2);
        if square.rank() == home_rank && !board.has_piece_at(two) && two.is_on_board() {
            moves.push(Move::from_to_en_passant(board, *square, two, one));
        }
        assert(moves@ =~= old(moves)@ + pawn_pushes(board@, *piece, *square));
    } else {
        assert(moves@ =~= old(moves)@ + pawn_pushes(board@, *piece, *square));
    }
}

fn generate_pawn_moves(board: &Board, piece: &Piece, square: &Square, moves: &mut Vec<Move>)
    requires
        board.wf(),
        square.on_board(),
    ensures
        final(moves)@ == old(moves)@ + pawn_moves(board@, *piece, *square),
{
    generate_pawn_pushes(board, piece, square, moves);
    generate_pawn_captures(board, piece, square, -1, moves);
    generate_pawn_captures(board, piece, square, 1, moves);
    assert(moves@ =~= old(moves)@ + pawn_moves(board@, *piece, *square));
}

/// Add the ray moves of a sliding piece along each direction of `set`.
fn generate_ray_moves(
    board: &Board,
    piece: &Piece,
    square: &Square,
    set: Directions,
    moves: &mut Vec<Move>,
)
    requires
        board.wf(),
        square.on_board(),
        set == Directions::Straight || set == Directions::Diagonal,
    ensures
        final(moves)@ == old(moves)@ + rays_upto(board@, *piece, *square, set, 4),
{
    let mut i: usize = 0;
    while i < 4
        invariant
            board.wf(),
            square.on_board(),
            set == Directions::Straight || set == Directions::Diagonal,
            i <= 4,
            moves@ == old(moves)@ + rays_upto(board@, *piece, *square, set, i as int),
        decreases 4 - i,
    {
        let (x_delta, y_delta) = direction(set, i);
        generate_directional_moves(board, piece, square, x_delta, y_delta, moves);
        assert(moves@ =~= old(moves)@ + rays_upto(board@, *piece, *square, set, i + 1));
        i = i + 1;
    }
}

/// Add the single-step moves of a piece along each offset of `set`.
fn generate_step_moves(
    board: &Board,
    piece: &Piece,
    square: &Square,
    set: Directions,
    moves: &mut Vec<Move>,
)
    requires
        board.wf(),
        square.on_board(),
        set == Directions::Knight || set == Directions::King,
    ensures
        final(moves)@ == old(moves)@ + steps_upto(board@, *piece, *square, set, 8),
{
    let mut i: usize = 0;
    while i < 8
        invariant
            board.wf(),
            square.on_board(),
            set == Directions::Knight || set == Directions::King,
            i <= 8,
            moves@ == old(moves)@ + steps_upto(board@, *piece, *square, set, i as int),
        decreases 8 - i,
    {
        let (x_delta, y_delta) = direction(set, i);
        probe_move(board, piece, square, x_delta, y_delta, moves);
        assert(moves@ =~= old(moves)@ + steps_upto(board@, *piece, *square, set, i + 1));
        i = i + 1;
    }
}

/// Add the castle moves open to `color`.
fn generate_castle_moves(board: &Board, color: Color, moves: &mut Vec<Move>)
    requires
        board.wf(),
    ensures
        final(moves)@ == old(moves)@ + castle_moves(board@, color),
{
    let rank = color.back_rank();
    let rights = board.castle_rights.get_rights(color);
    if rights.test(Castle::KingSide) && !board.has_piece_at(Square::at(5, rank))
        && !board.has_piece_at(Square::at(6, rank)) {
        moves.push(Move::castle(board, color, Castle::KingSide));
    }
    if rights.test(Castle::QueenSide) && !board.has_piece_at(Square::at(3, rank))
        && !board.has_piece_at(Square::at(2, rank)) && !board.has_piece_at(Square::at(1, rank)) {
        moves.push(Move::castle(board, color, Castle::QueenSide));
    }
    assert(moves@ =~= old(moves)@ + castle_moves(board@, color));
}

/// Add the moves of the piece `entry.piece` standing on `entry.square`.
fn generate_piece_moves(board: &Board, entry: &PieceOnBoard, moves: &mut Vec<Move>)
    requires
        board.wf(),
        entry.square.on_board(),
    ensures
        final(moves)@ == old(moves)@ + piece_moves(board@, *entry),
{
    let piece = &entry.piece;
    let square = &entry.square;
    match piece.kind {
        PieceKind::Pawn => generate_pawn_moves(board, piece, square, moves),
        PieceKind::Rook => generate_ray_moves(board, piece, square, Directions::Straight, moves),
        PieceKind::Bishop => generate_ray_moves(board, piece, square, Directions::Diagonal, moves),
        PieceKind::Queen => {
            generate_ray_moves(board, piece, square, Directions::Straight, moves);
            generate_ray_moves(board, piece, square, Directions::Diagonal, moves);
            assert(moves@ =~= old(moves)@ + piece_moves(board@, *entry));
        },
        PieceKind::King => {
            generate_step_moves(board, piece, square, Directions::King, moves);
            generate_castle_moves(board, piece.color, moves);
            assert(moves@ =~= old(moves)@ + piece_moves(board@, *entry));
        },
        PieceKind::Knight => generate_step_moves(board, piece, square, Directions::Knight, moves),
        PieceKind::Dummy => {
            assert(moves@ =~= old(moves)@ + piece_moves(board@, *entry));
        },
    }
}

/// All pseudo-legal moves of the side to move: the pieces in slot order, each with the
/// moves of its kind.
pub fn generate_moves(board: &Board) -> (r: Vec<Move>)
    requires
        board.wf(),
    ensures
        r@ == generated(board@),
{
    let mut moves: Vec<Move> = Vec::new();
    let mut j: usize = 0;
    while j < SLOT_COUNT
        invariant
            board.wf(),
            j <= SLOT_COUNT,
            moves@ == moves_upto(board@, j as int),
        decreases SLOT_COUNT - j,
    {
        if let Some(entry) = board.pieces.slot(j) {
            if entry.piece.color == board.side {
                generate_piece_moves(board, &entry, &mut moves);
            }
        }
        assert(moves@ =~= moves_upto(board@, j + 1));
        j = j + 1;
    }
    moves
}

/// A (file step, rank step) pair.
pub type Direction = (i8, i8);

/// A step along which a ray can be followed: each component in -8..=8, not both zero.
pub open spec fn is_ray_step(d: Direction) -> bool {
    -8 <= d.0 <= 8 && -8 <= d.1 <= 8 && (d.0 != 0 || d.1 != 0)
}

/// How many more steps by (`dx`, `dy`) from the on-board square `sq` can at most stay on
/// the board, counted along one moving coordinate.
pub open spec fn ray_room(sq: Square, dx: int, dy: int) -> int {
    if dx > 0 {
        7 - sq.x
    } else if dx < 0 {
        sq.x as int
    } else if dy > 0 {
        7 - sq.y
    } else {
        sq.y as int
    }
}

/// The first piece met stepping from `sq` by (`dx`, `dy`), at most `fuel` steps, before
/// leaving the board.
pub open spec fn ray_first(b: BoardModel, sq: Square, dx: int, dy: int, fuel: nat) -> Option<Piece>
    decreases fuel,
{
    let t = shift(sq, dx, dy);
    if fuel == 0 || !t.on_board() {
        None
    } else {
        match b.piece_at(t) {
            Some(p) => Some(p),
            None => ray_first(b, t, dx, dy, (fuel - 1) as nat),
        }
    }
}

/// The first piece along `direction` from `from`, if any before the edge of the board.
pub open spec fn first_piece_along(b: BoardModel, from: Square, direction: Direction) -> Option<
    Piece,
> {
    ray_first(b, from, direction.0 as int, direction.1 as int, 8)
}

pub fn probe_direction(board: &Board, from: &Square, direction: &Direction) -> (r: Option<Piece>)
    requires
        board.wf(),
        from.on_board(),
        is_ray_step(*direction),
    ensures
        r == first_piece_along(board@, *from, *direction),
{
    let dx = direction.0;
    let dy = direction.1;
    let mut current = *from;
    let ghost mut fuel: int = 8;
    loop
        invariant
            board.wf(),
            is_ray_step(*direction),
            dx == direction.0,
            dy == direction.1,
            current.on_board(),
            ray_room(current, dx as int, dy as int) + 1 <= fuel <= 8,
            first_piece_along(board@, *from, *direction) == ray_first(
                board@,
                current,
                dx as int,
                dy as int,
                fuel as nat,
            ),
        decreases fuel,
    {
        let square = current.delta(dx, dy);
        if !square.is_on_board() {
            return None;
        }
        if let Some(piece) = board.piece_at(square) {
            return Some(piece);
        }
        current = square;
        proof {
            fuel = fuel - 1;
        }
    }
}

/// A slider along entry `i` of `set` attacks the king of `color` on `k`: the first piece
/// along it is the opponent's queen, or the opponent's rook (straight) or bishop (diagonal).
pub open spec fn slider_attack(b: BoardModel, k: Square, set: Directions, i: int, color: Color) -> bool {
    match first_piece_along(b, k, direction_spec(set, i)) {
        Some(p) => p.color == color.other() && (p.kind == PieceKind::Queen || p.kind == (
        if set == Directions::Straight {
            PieceKind::Rook
        } else {
            PieceKind::Bishop
        })),
        None => false,
    }
}

pub open spec fn knight_attack(b: BoardModel, k: Square, i: int, color: Color) -> bool {
    let d = knight_spec(i);
    b.piece_at(shift(k, d.0 as int, d.1 as int)) == Some(
        Piece { kind: PieceKind::Knight, color: color.other() },
    )
}

/// An opposing pawn stands diagonally in front of the king of `color` on `k`, towards file
/// offset `fd` (in front as seen from the king's own side).
pub open spec fn pawn_attack(b: BoardModel, k: Square, fd: int, color: Color) -> bool {
    b.piece_at(shift(k, fd, color.sign())) == Some(
        Piece { kind: PieceKind::Pawn, color: color.other() },
    )
}

/// The king of `color` is attacked by a rook, bishop, queen, knight or pawn of the other
/// color. A side without a king is never in check.
pub open spec fn in_check(b: BoardModel, color: Color) -> bool {
    match b.king_square(color) {
        None => false,
        Some(k) => {
            ||| exists|i: int| 0 <= i < 4 && #[trigger] slider_attack(b, k, Directions::Straight, i, color)
            ||| exists|i: int| 0 <= i < 4 && #[trigger] slider_attack(b, k, Directions::Diagonal, i, color)
            ||| exists|i: int| 0 <= i < 8 && #[trigger] knight_attack(b, k, i, color)
            ||| pawn_attack(b, k, -1, color)
            ||| pawn_attack(b, k, 1, color)
        },
    }
}

fn slider_check(board: &Board, square: &Square, set: Directions, color: Color) -> (r: bool)
    requires
        board.wf(),
        square.on_board(),
        set == Directions::Straight || set == Directions::Diagonal,
    ensures
        r == exists|i: int| 0 <= i < 4 && #[trigger] slider_attack(board@, *square, set, i, color),
{
    let other = color.switch();
    let line_kind = match set {
        Directions::Straight => PieceKind::Rook,
        _ => PieceKind::Bishop,
    };
    let mut i: usize = 0;
    while i < 4
        invariant
            board.wf(),
            square.on_board(),
            set == Directions::Straight || set == Directions::Diagonal,
            other == color.other(),
            line_kind == (if set == Directions::Straight {
                PieceKind::Rook
            } else {
                PieceKind::Bishop
            }),
            i <= 4,
            forall|ii: int| 0 <= ii < i ==> !#[trigger] slider_attack(board@, *square, set, ii, color),
        decreases 4 - i,
    {
        let direction = direction(set, i);
        if let Some(piece) = probe_direction(board, square, &direction) {
            if piece == line_kind.colored(other) || piece == PieceKind::Queen.colored(other) {
                assert(slider_attack(board@, *square, set, i as int, color));
                return true;
            }
        }
        i = i + 1;
    }
    false
}

pub fn is_check(board: &Board, color: Color) -> (r: bool)
    requires
        board.wf(),
    ensures
        r == in_check(board@, color),
{
    let square = match board.king_square(color) {
        Some(square) => square,
        None => {
            return false;
        },
    };
    if slider_check(board, &square, Directions::Straight, color) {
        return true;
    }
    if slider_check(board, &square, Directions::Diagonal, color) {
        return true;
    }
    let other = color.switch();
    let mut i: usize = 0;
    while i < 8
        invariant
            board.wf(),
            square.on_board(),
            board@.king_square(color) == Some(square),
            other == color.other(),
            i <= 8,
            forall|ii: int| 0 <= ii < i ==> !#[trigger] knight_attack(board@, square, ii, color),
        decreases 8 - i,
    {
        let direction = direction(Directions::Knight, i);
        if let Some(piece) = board.piece_at(square.delta(direction.0, direction.1)) {
            if piece == PieceKind::Knight.colored(other) {
                assert(knight_attack(board@, square, i as int, color));
                return true;
            }
        }
        i = i + 1;
    }
    let forward = color.forward();
    if let Some(piece) = board.piece_at(square.delta(-1, forward)) {
        if piece == PieceKind::Pawn.colored(other) {
            return true;
        }
    }
    if let Some(piece) = board.piece_at(square.delta(1, forward)) {
        if piece == PieceKind::Pawn.colored(other) {
            return true;
        }
    }
    false
}

} // verus!
