//! Properties of the board, the move generator and the evaluation, proved over the
//! specifications the functions meet.
use vstd::prelude::*;
use crate::types::{Castle, Color, ColorCastleRights, Piece, PieceKind, PieceOnBoard, Square};
use crate::board::{StorageModel, lemma_apply_then_revert, lemma_capture_then_movable, lemma_relocate, lemma_remove, BoardModel};
use crate::move_::{rook_home, rook_landing};
use crate::move_::Move;
use crate::move_generation::{
    castle_moves, castle_open, generated, moves_upto, pawn_targets, piece_moves, probe_spec,
    ray_spec, rays_upto, steps_upto, Directions,
};
use crate::evaluation::{alpha_beta_from, alpha_beta_spec, material, material_upto, minimax_best, minimax_spec};

verus! {

/// Move generation depends on the board state alone: equal boards give the same moves in
/// the same order.
pub proof fn law_generation_deterministic(b1: BoardModel, b2: BoardModel)
    requires
        b1 == b2,
    ensures
        generated(b1) == generated(b2),
{
}

/// The board with every piece's color swapped.
pub open spec fn swap_colors(b: BoardModel) -> BoardModel {
    BoardModel {
        pieces: crate::board::StorageModel {
            slots: b.pieces.slots.map_values(
                |o: Option<PieceOnBoard>|
                    match o {
                        Some(e) => Some(
                            PieceOnBoard {
                                piece: Piece { kind: e.piece.kind, color: e.piece.color.other() },
                                square: e.square,
                            },
                        ),
                        None => None,
                    },
            ),
            ..b.pieces
        },
        ..b
    }
}

proof fn lemma_swap_negates_upto(b: BoardModel, j: int)
    requires
        0 <= j <= b.pieces.slots.len(),
    ensures
        material_upto(swap_colors(b).pieces.slots, j) == -material_upto(b.pieces.slots, j),
    decreases j,
{
    if j > 0 {
        lemma_swap_negates_upto(b, j - 1);
        let swapped = swap_colors(b).pieces.slots;
        match b.pieces.slots[j - 1] {
            Some(e) => {
                let q = Piece { kind: e.piece.kind, color: e.piece.color.other() };
                assert(swapped[j - 1] == Some(PieceOnBoard { piece: q, square: e.square }));
                match e.piece.color {
                    Color::White => assert(q.signed_worth() == -e.piece.signed_worth()),
                    Color::Black => assert(q.signed_worth() == -e.piece.signed_worth()),
                }
            },
            None => {
                assert(swapped[j - 1].is_none());
            },
        }
    }
}

/// Swapping the colors of all pieces negates the static evaluation.
pub proof fn law_color_swap_negates(b: BoardModel)
    requires
        b.pieces.wf(),
    ensures
        material(swap_colors(b)) == -material(b),
{
    lemma_swap_negates_upto(b, 32);
}

/// A rook leaving its king-side corner takes exactly that right from its side; the other
/// side's rights are untouched when nothing is captured.
pub proof fn law_rook_leaves_king_corner(m: Move, side: Color)
    requires
        m.piece_kind == PieceKind::Rook,
        m.from == (Square { x: 7, y: side.back_rank_spec() as i8 }),
        m.capture.is_none(),
    ensures
        m.rights_after(side).of(side) == (ColorCastleRights {
            king_side: false,
            ..m.castle_rights_before.of(side)
        }),
        m.rights_after(side).of(side.other()) == m.castle_rights_before.of(side.other()),
{
}

/// A rook leaving its queen-side corner takes exactly that right from its side; the other
/// side's rights are untouched when nothing is captured.
pub proof fn law_rook_leaves_queen_corner(m: Move, side: Color)
    requires
        m.piece_kind == PieceKind::Rook,
        m.from == (Square { x: 0, y: side.back_rank_spec() as i8 }),
        m.capture.is_none(),
    ensures
        m.rights_after(side).of(side) == (ColorCastleRights {
            queen_side: false,
            ..m.castle_rights_before.of(side)
        }),
        m.rights_after(side).of(side.other()) == m.castle_rights_before.of(side.other()),
{
}

/// A capture on the opponent's king-side rook corner takes exactly that right from the
/// opponent; a mover that is neither king nor rook leaves its own side's rights alone.
pub proof fn law_capture_on_king_corner(m: Move, side: Color)
    requires
        m.capture.is_some(),
        m.capture.unwrap().square == (Square { x: 7, y: side.other().back_rank_spec() as i8 }),
        m.piece_kind != PieceKind::King,
        m.piece_kind != PieceKind::Rook,
    ensures
        m.rights_after(side).of(side.other()) == (ColorCastleRights {
            king_side: false,
            ..m.castle_rights_before.of(side.other())
        }),
        m.rights_after(side).of(side) == m.castle_rights_before.of(side),
{
}

/// A capture on the opponent's queen-side rook corner takes exactly that right from the
/// opponent; a mover that is neither king nor rook leaves its own side's rights alone.
pub proof fn law_capture_on_queen_corner(m: Move, side: Color)
    requires
        m.capture.is_some(),
        m.capture.unwrap().square == (Square { x: 0, y: side.other().back_rank_spec() as i8 }),
        m.piece_kind != PieceKind::King,
        m.piece_kind != PieceKind::Rook,
    ensures
        m.rights_after(side).of(side.other()) == (ColorCastleRights {
            queen_side: false,
            ..m.castle_rights_before.of(side.other())
        }),
        m.rights_after(side).of(side) == m.castle_rights_before.of(side),
{
}

/// Taking a move back restores the castle rights exactly as they were, including rights
/// that were not held.
pub proof fn law_revert_restores_rights(b: BoardModel, m: Move)
    requires
        b.pieces.wf(),
        b.can_apply(m),
    ensures
        b.apply(m).revert(m).castle_rights == b.castle_rights,
{
    lemma_apply_then_revert(b, m);
}

/// A pawn move onto its promotion rank comes as exactly four moves, promoting to knight,
/// bishop, rook and queen in that order, each with the same squares and capture.
pub proof fn law_promotion_expansion(
    b: BoardModel,
    p: Piece,
    from: Square,
    to: Square,
    capture: Option<PieceOnBoard>,
)
    requires
        to.y == p.color.promotion_rank_spec(),
    ensures
        pawn_targets(b, p, from, to, capture).len() == 4,
        pawn_targets(b, p, from, to, capture)[0].promotion == Some(PieceKind::Knight),
        pawn_targets(b, p, from, to, capture)[1].promotion == Some(PieceKind::Bishop),
        pawn_targets(b, p, from, to, capture)[2].promotion == Some(PieceKind::Rook),
        pawn_targets(b, p, from, to, capture)[3].promotion == Some(PieceKind::Queen),
        forall|i: int|
            0 <= i < 4 ==> {
                &&& (#[trigger] pawn_targets(b, p, from, to, capture)[i]).from == from
                &&& pawn_targets(b, p, from, to, capture)[i].to == to
                &&& pawn_targets(b, p, from, to, capture)[i].capture == capture
                &&& pawn_targets(b, p, from, to, capture)[i].piece_kind == PieceKind::Pawn
            },
{
}

/// Every castle move in `moves` is one that is open to `color` on the board.
pub open spec fn castles_open(b: BoardModel, color: Color, moves: Seq<Move>) -> bool {
    forall|i: int|
        0 <= i < moves.len() && (#[trigger] moves[i]).castle.is_some() ==> castle_open(
            b,
            color,
            moves[i].castle.unwrap(),
        )
}

proof fn lemma_concat_castles_open(b: BoardModel, color: Color, s1: Seq<Move>, s2: Seq<Move>)
    requires
        castles_open(b, color, s1),
        castles_open(b, color, s2),
    ensures
        castles_open(b, color, s1 + s2),
{
    assert forall|i: int|
        0 <= i < (s1 + s2).len() && (#[trigger] (s1 + s2)[i]).castle.is_some() implies castle_open(
        b,
        color,
        (s1 + s2)[i].castle.unwrap(),
    ) by {
        if i < s1.len() {
            assert((s1 + s2)[i] == s1[i]);
        } else {
            assert((s1 + s2)[i] == s2[i - s1.len()]);
        }
    }
}

proof fn lemma_ray_no_castle(b: BoardModel, p: Piece, from: Square, dx: int, dy: int, step: int, color: Color)
    ensures
        castles_open(b, color, ray_spec(b, p, from, dx, dy, step)),
    decreases 9 - step,
{
    if step >= 1 && step <= 8 {
        let probe = probe_spec(b, p, from, dx * step, dy * step);
        assert(castles_open(b, color, probe.0));
        if probe.1 {
            lemma_ray_no_castle(b, p, from, dx, dy, step + 1, color);
            lemma_concat_castles_open(b, color, probe.0, ray_spec(b, p, from, dx, dy, step + 1));
        }
    }
}

proof fn lemma_rays_no_castle(b: BoardModel, p: Piece, from: Square, set: Directions, k: int, color: Color)
    ensures
        castles_open(b, color, rays_upto(b, p, from, set, k)),
    decreases k,
{
    if k > 0 {
        let d = crate::move_generation::direction_spec(set, k - 1);
        lemma_rays_no_castle(b, p, from, set, k - 1, color);
        lemma_ray_no_castle(b, p, from, d.0 as int, d.1 as int, 1, color);
        lemma_concat_castles_open(
            b,
            color,
            rays_upto(b, p, from, set, k - 1),
            ray_spec(b, p, from, d.0 as int, d.1 as int, 1),
        );
    }
}

proof fn lemma_steps_no_castle(b: BoardModel, p: Piece, from: Square, set: Directions, k: int, color: Color)
    ensures
        castles_open(b, color, steps_upto(b, p, from, set, k)),
    decreases k,
{
    if k > 0 {
        let d = crate::move_generation::direction_spec(set, k - 1);
        lemma_steps_no_castle(b, p, from, set, k - 1, color);
        let probe = probe_spec(b, p, from, d.0 as int, d.1 as int);
        assert(castles_open(b, color, probe.0));
        lemma_concat_castles_open(b, color, steps_upto(b, p, from, set, k - 1), probe.0);
    }
}

proof fn lemma_piece_castles_open(b: BoardModel, e: PieceOnBoard)
    ensures
        castles_open(b, e.piece.color, piece_moves(b, e)),
{
    let p = e.piece;
    let sq = e.square;
    let c = p.color;
    match p.kind {
        PieceKind::Pawn => {
            let fwd = c.sign();
            let one = crate::move_generation::shift(sq, 0, fwd);
            assert(castles_open(b, c, pawn_targets(b, p, sq, one, None)));
            assert(castles_open(b, c, crate::move_generation::pawn_pushes(b, p, sq)));
            assert(castles_open(b, c, crate::move_generation::pawn_captures(b, p, sq, -1)));
            assert(castles_open(b, c, crate::move_generation::pawn_captures(b, p, sq, 1)));
            lemma_concat_castles_open(
                b,
                c,
                crate::move_generation::pawn_pushes(b, p, sq),
                crate::move_generation::pawn_captures(b, p, sq, -1),
            );
            lemma_concat_castles_open(
                b,
                c,
                crate::move_generation::pawn_pushes(b, p, sq) + crate::move_generation::pawn_captures(b, p, sq, -1),
                crate::move_generation::pawn_captures(b, p, sq, 1),
            );
        },
        PieceKind::Rook => lemma_rays_no_castle(b, p, sq, Directions::Straight, 4, c),
        PieceKind::Bishop => lemma_rays_no_castle(b, p, sq, Directions::Diagonal, 4, c),
        PieceKind::Queen => {
            lemma_rays_no_castle(b, p, sq, Directions::Straight, 4, c);
            lemma_rays_no_castle(b, p, sq, Directions::Diagonal, 4, c);
            lemma_concat_castles_open(
                b,
                c,
                rays_upto(b, p, sq, Directions::Straight, 4),
                rays_upto(b, p, sq, Directions::Diagonal, 4),
            );
        },
        PieceKind::King => {
            lemma_steps_no_castle(b, p, sq, Directions::King, 8, c);
            assert(castles_open(b, c, castle_moves(b, c)));
            lemma_concat_castles_open(b, c, steps_upto(b, p, sq, Directions::King, 8), castle_moves(b, c));
        },
        PieceKind::Knight => lemma_steps_no_castle(b, p, sq, Directions::Knight, 8, c),
        PieceKind::Dummy => {},
    }
}

proof fn lemma_moves_upto_castles_open(b: BoardModel, j: int)
    ensures
        castles_open(b, b.side, moves_upto(b, j)),
    decreases j,
{
    if j > 0 {
        lemma_moves_upto_castles_open(b, j - 1);
        match b.pieces.slots[j - 1] {
            Some(e) => {
                if e.piece.color == b.side {
                    lemma_piece_castles_open(b, e);
                    lemma_concat_castles_open(b, b.side, moves_upto(b, j - 1), piece_moves(b, e));
                } else {
                    lemma_concat_castles_open(b, b.side, moves_upto(b, j - 1), Seq::empty());
                }
            },
            None => {
                lemma_concat_castles_open(b, b.side, moves_upto(b, j - 1), Seq::empty());
            },
        }
    }
}

/// A castle move is generated only on a side where the side to move holds the right and
/// every square between king and rook is free. So without rights no castle move is
/// generated, with one side's right only that side's castle move can be, and an occupied
/// square in between suppresses that side's castle move.
pub proof fn law_castling_gated(b: BoardModel, i: int)
    requires
        0 <= i < generated(b).len(),
        generated(b)[i].castle.is_some(),
    ensures
        b.castle_rights.of(b.side).has(generated(b)[i].castle.unwrap()),
        castle_open(b, b.side, generated(b)[i].castle.unwrap()),
{
    lemma_moves_upto_castles_open(b, 32);
    assert(castles_open(b, b.side, generated(b)));
}

/// Every king of color `c` stands on its home square.
pub open spec fn kings_home(b: BoardModel, c: Color) -> bool {
    forall|sq: Square|
        #[trigger] b.piece_at(sq) == Some(Piece { kind: PieceKind::King, color: c }) ==> sq == (Square {
            x: 4,
            y: c.back_rank_spec() as i8,
        })
}

/// Each castle right that `c` holds is backed by its pieces: the rook in that corner, and no
/// king of `c` away from its home square.
pub open spec fn rights_backed(b: BoardModel, c: Color) -> bool {
    let r = c.back_rank_spec() as i8;
    &&& b.castle_rights.of(c).king_side ==> kings_home(b, c) && b.piece_at(Square { x: 7, y: r })
        == Some(Piece { kind: PieceKind::Rook, color: c })
    &&& b.castle_rights.of(c).queen_side ==> kings_home(b, c) && b.piece_at(Square { x: 0, y: r })
        == Some(Piece { kind: PieceKind::Rook, color: c })
}

/// A well-formed board whose en-passant target is a free square and whose castle rights are
/// backed by its pieces, as in the starting position and (see `law_play_stays_consistent`)
/// in every position reached from it.
pub open spec fn consistent(b: BoardModel) -> bool {
    &&& b.pieces.wf()
    &&& match b.en_passant {
        Some(t) => t.on_board() && b.is_empty_at(t),
        None => true,
    }
    &&& rights_backed(b, Color::White)
    &&& rights_backed(b, Color::Black)
}

/// What holds of every generated move: it applies, the mover is of the side to move, it
/// captures only opposing pieces, only a king castles (along its own back rank), no pawn
/// becomes a king, and an en-passant target it leaves is a free square it passes over.
pub open spec fn well_made(b: BoardModel, m: Move) -> bool {
    &&& b.can_apply(m)
    &&& b.piece_at(m.from).unwrap().color == b.side
    &&& (m.capture.is_some() ==> m.capture.unwrap().piece.color != b.side)
    &&& (m.castle.is_some() ==> m.piece_kind == PieceKind::King && m.from.y == b.side.back_rank_spec())
    &&& (m.promotion.is_some() ==> m.promotion.unwrap() != PieceKind::King)
    &&& (m.en_passant_after.is_some() ==> {
        let t = m.en_passant_after.unwrap();
        &&& t.on_board()
        &&& t != m.from
        &&& t != m.to
        &&& b.is_empty_at(t)
        &&& m.capture.is_none()
        &&& m.castle.is_none()
    })
}

/// Every move of `moves` is well made on `b`.
pub open spec fn all_well_made(b: BoardModel, moves: Seq<Move>) -> bool {
    forall|i: int| 0 <= i < moves.len() ==> well_made(b, #[trigger] moves[i])
}

proof fn lemma_concat_well_made(b: BoardModel, s1: Seq<Move>, s2: Seq<Move>)
    requires
        all_well_made(b, s1),
        all_well_made(b, s2),
    ensures
        all_well_made(b, s1 + s2),
{
    assert forall|i: int| 0 <= i < (s1 + s2).len() implies well_made(b, #[trigger] (s1 + s2)[i]) by {
        if i < s1.len() {
            assert((s1 + s2)[i] == s1[i]);
        } else {
            assert((s1 + s2)[i] == s2[i - s1.len()]);
        }
    }
}

proof fn lemma_unit_scale(d: int, step: int)
    requires
        -1 <= d <= 1,
        1 <= step <= 8,
    ensures
        d == 0 ==> d * step == 0,
        d == 1 ==> d * step == step,
        d == -1 ==> d * step == -step,
{
    assert(d == 0 ==> d * step == 0) by (nonlinear_arith);
    assert(d == 1 ==> d * step == step) by (nonlinear_arith);
    assert(d == -1 ==> d * step == -step) by (nonlinear_arith);
}

proof fn lemma_probe_well_made(b: BoardModel, p: Piece, from: Square, dx: int, dy: int)
    requires
        b.pieces.wf(),
        from.on_board(),
        b.piece_at(from) == Some(p),
        p.color == b.side,
        -16 <= dx <= 16,
        -16 <= dy <= 16,
        dx != 0 || dy != 0,
    ensures
        all_well_made(b, probe_spec(b, p, from, dx, dy).0),
{
}

proof fn lemma_ray_well_made(b: BoardModel, p: Piece, from: Square, dx: int, dy: int, step: int)
    requires
        b.pieces.wf(),
        from.on_board(),
        b.piece_at(from) == Some(p),
        p.color == b.side,
        -1 <= dx <= 1,
        -1 <= dy <= 1,
        dx != 0 || dy != 0,
        1 <= step,
    ensures
        all_well_made(b, ray_spec(b, p, from, dx, dy, step)),
    decreases 9 - step,
{
    if step <= 8 {
        lemma_unit_scale(dx, step);
        lemma_unit_scale(dy, step);
        lemma_probe_well_made(b, p, from, dx * step, dy * step);
        let probe = probe_spec(b, p, from, dx * step, dy * step);
        if probe.1 {
            lemma_ray_well_made(b, p, from, dx, dy, step + 1);
            lemma_concat_well_made(b, probe.0, ray_spec(b, p, from, dx, dy, step + 1));
        }
    }
}

proof fn lemma_rays_well_made(b: BoardModel, p: Piece, from: Square, set: Directions, k: int)
    requires
        b.pieces.wf(),
        from.on_board(),
        b.piece_at(from) == Some(p),
        p.color == b.side,
        set == Directions::Straight || set == Directions::Diagonal,
        k <= 4,
    ensures
        all_well_made(b, rays_upto(b, p, from, set, k)),
    decreases k,
{
    if k > 0 {
        let d = crate::move_generation::direction_spec(set, k - 1);
        lemma_rays_well_made(b, p, from, set, k - 1);
        lemma_ray_well_made(b, p, from, d.0 as int, d.1 as int, 1);
        lemma_concat_well_made(
            b,
            rays_upto(b, p, from, set, k - 1),
            ray_spec(b, p, from, d.0 as int, d.1 as int, 1),
        );
    }
}

proof fn lemma_steps_well_made(b: BoardModel, p: Piece, from: Square, set: Directions, k: int)
    requires
        b.pieces.wf(),
        from.on_board(),
        b.piece_at(from) == Some(p),
        p.color == b.side,
        set == Directions::Knight || set == Directions::King,
        k <= 8,
    ensures
        all_well_made(b, steps_upto(b, p, from, set, k)),
    decreases k,
{
    if k > 0 {
        let d = crate::move_generation::direction_spec(set, k - 1);
        lemma_steps_well_made(b, p, from, set, k - 1);
        lemma_probe_well_made(b, p, from, d.0 as int, d.1 as int);
        lemma_concat_well_made(
            b,
            steps_upto(b, p, from, set, k - 1),
            probe_spec(b, p, from, d.0 as int, d.1 as int).0,
        );
    }
}

proof fn lemma_pawn_targets_well_made(b: BoardModel, p: Piece, from: Square, to: Square, capture: Option<PieceOnBoard>)
    requires
        b.pieces.wf(),
        from.on_board(),
        to.on_board(),
        from != to,
        b.piece_at(from) == Some(p),
        p.kind == PieceKind::Pawn,
        p.color == b.side,
        match capture {
            Some(c) => c.square != from && b.piece_at(c.square) == Some(c.piece) && (c.square == to
                || b.is_empty_at(to)) && c.piece.color != b.side,
            None => b.is_empty_at(to),
        },
    ensures
        all_well_made(b, pawn_targets(b, p, from, to, capture)),
{
}

proof fn lemma_pawn_captures_well_made(b: BoardModel, p: Piece, from: Square, fd: int)
    requires
        consistent(b),
        from.on_board(),
        b.piece_at(from) == Some(p),
        p.kind == PieceKind::Pawn,
        p.color == b.side,
        fd == -1 || fd == 1,
    ensures
        all_well_made(b, crate::move_generation::pawn_captures(b, p, from, fd)),
{
    let target = crate::move_generation::shift(from, fd, p.color.sign());
    let beside = crate::move_generation::shift(from, fd, 0);
    let diagonal = match b.piece_at(target) {
        Some(t) => {
            if t.color != p.color {
                pawn_targets(b, p, from, target, Some(PieceOnBoard { piece: t, square: target }))
            } else {
                Seq::empty()
            }
        },
        None => Seq::empty(),
    };
    if let Some(t) = b.piece_at(target) {
        if t.color != p.color {
            lemma_pawn_targets_well_made(b, p, from, target, Some(PieceOnBoard { piece: t, square: target }));
        }
    }
    assert(all_well_made(b, diagonal));
    let en_passant = if b.en_passant == Some(target) && b.piece_at(beside).is_some()
        && b.piece_at(beside).unwrap().color != p.color {
        seq![
            crate::move_generation::capture_move(
                b,
                p.kind,
                from,
                target,
                PieceOnBoard { piece: b.piece_at(beside).unwrap(), square: beside },
            ),
        ]
    } else {
        Seq::empty()
    };
    assert(all_well_made(b, en_passant));
    lemma_concat_well_made(b, diagonal, en_passant);
}

proof fn lemma_pawn_well_made(b: BoardModel, p: Piece, from: Square)
    requires
        consistent(b),
        from.on_board(),
        b.piece_at(from) == Some(p),
        p.kind == PieceKind::Pawn,
        p.color == b.side,
    ensures
        all_well_made(b, crate::move_generation::pawn_moves(b, p, from)),
{
    let fwd = p.color.sign();
    let one = crate::move_generation::shift(from, 0, fwd);
    let pushes = crate::move_generation::pawn_pushes(b, p, from);
    if b.is_empty_at(one) && one.on_board() {
        lemma_pawn_targets_well_made(b, p, from, one, None);
        let two = crate::move_generation::shift(from, 0, 2 * fwd);
        let rest = if from.y == p.color.home_rank_spec() && b.is_empty_at(two) && two.on_board() {
            seq![
                Move {
                    en_passant_after: Some(one),
                    ..crate::move_::plain_move(b.en_passant, b.castle_rights, PieceKind::Pawn, from, two)
                },
            ]
        } else {
            Seq::empty()
        };
        assert(all_well_made(b, rest));
        lemma_concat_well_made(b, pawn_targets(b, p, from, one, None), rest);
    }
    assert(all_well_made(b, pushes));
    lemma_pawn_captures_well_made(b, p, from, -1);
    lemma_pawn_captures_well_made(b, p, from, 1);
    let c1 = crate::move_generation::pawn_captures(b, p, from, -1);
    let c2 = crate::move_generation::pawn_captures(b, p, from, 1);
    lemma_concat_well_made(b, pushes, c1);
    lemma_concat_well_made(b, pushes + c1, c2);
}

proof fn lemma_castles_well_made(b: BoardModel, king: Square)
    requires
        consistent(b),
        b.piece_at(king) == Some(Piece { kind: PieceKind::King, color: b.side }),
    ensures
        all_well_made(b, castle_moves(b, b.side)),
{
    let c = b.side;
    let ks = if castle_open(b, c, Castle::KingSide) {
        seq![crate::move_generation::castle_move(b, c, Castle::KingSide)]
    } else {
        Seq::empty()
    };
    let qs = if castle_open(b, c, Castle::QueenSide) {
        seq![crate::move_generation::castle_move(b, c, Castle::QueenSide)]
    } else {
        Seq::empty()
    };
    assert(all_well_made(b, ks));
    assert(all_well_made(b, qs));
    lemma_concat_well_made(b, ks, qs);
}

proof fn lemma_piece_moves_well_made(b: BoardModel, e: PieceOnBoard)
    requires
        consistent(b),
        e.square.on_board(),
        b.piece_at(e.square) == Some(e.piece),
        e.piece.color == b.side,
    ensures
        all_well_made(b, piece_moves(b, e)),
{
    let p = e.piece;
    let sq = e.square;
    match p.kind {
        PieceKind::Pawn => lemma_pawn_well_made(b, p, sq),
        PieceKind::Rook => lemma_rays_well_made(b, p, sq, Directions::Straight, 4),
        PieceKind::Bishop => lemma_rays_well_made(b, p, sq, Directions::Diagonal, 4),
        PieceKind::Queen => {
            lemma_rays_well_made(b, p, sq, Directions::Straight, 4);
            lemma_rays_well_made(b, p, sq, Directions::Diagonal, 4);
            lemma_concat_well_made(
                b,
                rays_upto(b, p, sq, Directions::Straight, 4),
                rays_upto(b, p, sq, Directions::Diagonal, 4),
            );
        },
        PieceKind::King => {
            lemma_steps_well_made(b, p, sq, Directions::King, 8);
            lemma_castles_well_made(b, sq);
            lemma_concat_well_made(b, steps_upto(b, p, sq, Directions::King, 8), castle_moves(b, p.color));
        },
        PieceKind::Knight => lemma_steps_well_made(b, p, sq, Directions::Knight, 8),
        PieceKind::Dummy => {},
    }
}

proof fn lemma_moves_upto_well_made(b: BoardModel, j: int)
    requires
        consistent(b),
        j <= 32,
    ensures
        all_well_made(b, moves_upto(b, j)),
    decreases j,
{
    if j > 0 {
        lemma_moves_upto_well_made(b, j - 1);
        let rest = match b.pieces.slots[j - 1] {
            Some(e) => {
                if e.piece.color == b.side {
                    piece_moves(b, e)
                } else {
                    Seq::empty()
                }
            },
            None => Seq::empty(),
        };
        if let Some(e) = b.pieces.slots[j - 1] {
            if e.piece.color == b.side {
                crate::board::lemma_idx_injective(e.square, e.square);
                lemma_piece_moves_well_made(b, e);
            }
        }
        lemma_concat_well_made(b, moves_upto(b, j - 1), rest);
    }
}

/// Every generated move is well made (in particular, it can be applied).
pub proof fn lemma_generated_well_made(b: BoardModel, i: int)
    requires
        consistent(b),
        0 <= i < generated(b).len(),
    ensures
        well_made(b, generated(b)[i]),
{
    lemma_moves_upto_well_made(b, 32);
}

/// Every generated move can be applied, and applying it and then taking it back gives the
/// board exactly as it was, so in particular the same position: same pieces on the same
/// squares, side to move, en-passant target and castle rights.
pub proof fn law_round_trip(b: BoardModel, i: int)
    requires
        consistent(b),
        0 <= i < generated(b).len(),
    ensures
        b.can_apply(generated(b)[i]),
        b.apply(generated(b)[i]).can_revert(generated(b)[i]),
        b.apply(generated(b)[i]).revert(generated(b)[i]) == b,
        b.apply(generated(b)[i]).revert(generated(b)[i]).same_position(b),
{
    lemma_generated_well_made(b, i);
    lemma_apply_then_revert(b, generated(b)[i]);
}

/// The piece on `q` after `m` is applied to `b`.
pub open spec fn square_after(b: BoardModel, m: Move, q: Square) -> Option<Piece> {
    let mover = b.piece_at(m.from).unwrap();
    if q == m.to {
        Some(Piece { kind: m.landing_kind(), color: mover.color })
    } else if q == m.from {
        None
    } else if m.castle.is_some() && q == rook_home(m.castle.unwrap(), m.from.y) {
        None
    } else if m.castle.is_some() && q == rook_landing(m.castle.unwrap(), m.from.y) {
        Some(
            Piece {
                kind: PieceKind::Rook,
                color: b.piece_at(rook_home(m.castle.unwrap(), m.from.y)).unwrap().color,
            },
        )
    } else if m.capture.is_some() && q == m.capture.unwrap().square {
        None
    } else {
        b.piece_at(q)
    }
}

pub proof fn lemma_apply_squares(b: BoardModel, m: Move)
    requires
        b.pieces.wf(),
        b.can_apply(m),
    ensures
        forall|q: Square| #[trigger] b.apply(m).piece_at(q) == square_after(b, m, q),
{
    lemma_capture_then_movable(b, m);
    let s1 = b.after_capture(m);
    if let Some(c) = m.capture {
        lemma_remove(b.pieces, c.square);
    }
    match m.castle {
        Some(cs) => {
            let rh = rook_home(cs, m.from.y);
            let rl = rook_landing(cs, m.from.y);
            lemma_relocate(s1, rh, rl, PieceKind::Rook);
            let s2 = s1.relocate(rh, rl, PieceKind::Rook);
            assert(s2.piece_at(m.from) == s1.piece_at(m.from));
            assert(s2.piece_at(m.to) == s1.piece_at(m.to));
            lemma_relocate(s2, m.from, m.to, m.landing_kind());
        },
        None => {
            lemma_relocate(s1, m.from, m.to, m.landing_kind());
        },
    }
}

/// Applying a generated move to a consistent board gives a consistent board: play from the
/// starting position only reaches boards on which the round trip law holds.
#[verifier::rlimit(60)]
pub proof fn law_play_stays_consistent(b: BoardModel, i: int)
    requires
        consistent(b),
        0 <= i < generated(b).len(),
    ensures
        consistent(b.apply(generated(b)[i])),
{
    let m = generated(b)[i];
    lemma_generated_well_made(b, i);
    lemma_apply_then_revert(b, m);
    lemma_apply_squares(b, m);
    let a = b.apply(m);
    let s = b.side;
    let o = s.other();
    let rs = s.back_rank_spec() as i8;
    let ro = o.back_rank_spec() as i8;
    if let Some(t) = m.en_passant_after {
        assert(a.piece_at(t) == square_after(b, m, t));
    }
    if a.castle_rights.of(s).king_side || a.castle_rights.of(s).queen_side {
        assert(m.piece_kind != PieceKind::King);
        assert(kings_home(a, s)) by {
            assert forall|sq: Square|
                #[trigger] a.piece_at(sq) == Some(Piece { kind: PieceKind::King, color: s }) implies sq
                == (Square { x: 4, y: rs }) by {
                assert(a.piece_at(sq) == square_after(b, m, sq));
            }
        }
    }
    if a.castle_rights.of(s).king_side {
        let corner = Square { x: 7, y: rs };
        assert(a.piece_at(corner) == square_after(b, m, corner));
    }
    if a.castle_rights.of(s).queen_side {
        let corner = Square { x: 0, y: rs };
        assert(a.piece_at(corner) == square_after(b, m, corner));
    }
    if a.castle_rights.of(o).king_side || a.castle_rights.of(o).queen_side {
        assert(kings_home(a, o)) by {
            assert forall|sq: Square|
                #[trigger] a.piece_at(sq) == Some(Piece { kind: PieceKind::King, color: o }) implies sq
                == (Square { x: 4, y: ro }) by {
                assert(a.piece_at(sq) == square_after(b, m, sq));
            }
        }
    }
    if a.castle_rights.of(o).king_side {
        let corner = Square { x: 7, y: ro };
        assert(a.piece_at(corner) == square_after(b, m, corner));
    }
    if a.castle_rights.of(o).queen_side {
        let corner = Square { x: 0, y: ro };
        assert(a.piece_at(corner) == square_after(b, m, corner));
    }
    if s == Color::White {
        assert(rights_backed(a, Color::White));
        assert(rights_backed(a, Color::Black));
    } else {
        assert(rights_backed(a, Color::White));
        assert(rights_backed(a, Color::Black));
    }
}

/// The starting position is consistent, whatever castle rights it is given.
pub proof fn law_start_consistent(b: BoardModel)
    requires
        b.pieces.wf(),
        b.en_passant.is_none(),
        forall|sq: Square| #[trigger] b.piece_at(sq) == crate::board::starting_piece(sq),
    ensures
        consistent(b),
{
    assert(b.piece_at(Square { x: 7, y: 0 }) == crate::board::starting_piece(Square { x: 7, y: 0 }));
    assert(b.piece_at(Square { x: 0, y: 0 }) == crate::board::starting_piece(Square { x: 0, y: 0 }));
    assert(b.piece_at(Square { x: 7, y: 7 }) == crate::board::starting_piece(Square { x: 7, y: 7 }));
    assert(b.piece_at(Square { x: 0, y: 7 }) == crate::board::starting_piece(Square { x: 0, y: 7 }));
}

/// +1 for the maximising side, -1 for the minimising side.
pub open spec fn sign_of(maximizing: bool) -> int {
    if maximizing {
        1
    } else {
        -1
    }
}

/// The minimax value of `b`, `depth` plies deep, the side to move maximising or not.
pub open spec fn minimax_value(b: BoardModel, depth: nat, maximizing: bool) -> int {
    minimax_spec(b, depth, sign_of(maximizing)).0
}

/// What a fail-soft search with window (`alpha`, `beta`) promises of its result `r` against
/// the true value `v`: exact inside the window, and an upper (lower) bound on `v` when at or
/// below `alpha` (at or above `beta`).
pub open spec fn window_sound(r: int, v: int, alpha: int, beta: int) -> bool {
    &&& (alpha < r < beta ==> r == v)
    &&& (r <= alpha ==> v <= r)
    &&& (r >= beta ==> v >= r)
}

/// The score a minimax loop gives to move `j` of `moves`: the child's value times `neg`.
pub open spec fn child_score(b: BoardModel, moves: Seq<Move>, j: int, child_depth: nat, neg: int) -> int {
    minimax_spec(b.apply(moves[j]), child_depth, -neg).0 * neg
}

proof fn lemma_best_dominates(b: BoardModel, moves: Seq<Move>, j: int, k: int, child_depth: nat, neg: int)
    requires
        0 <= j < k <= moves.len(),
        b.can_apply(moves[j]),
    ensures
        minimax_best(b, moves, k, child_depth, neg).0.is_some(),
        minimax_best(b, moves, k, child_depth, neg).0.unwrap().0 >= child_score(b, moves, j, child_depth, neg),
    decreases k,
{
    if k - 1 > j {
        lemma_best_dominates(b, moves, j, k - 1, child_depth, neg);
    }
}

/// Alpha-beta search with window (`alpha`, `beta`) is sound against minimax.
pub proof fn lemma_alpha_beta_sound(b: BoardModel, alpha: int, beta: int, depth: nat, maximizing: bool)
    requires
        alpha < beta,
    ensures
        window_sound(
            alpha_beta_spec(b, alpha, beta, depth, maximizing).0,
            minimax_value(b, depth, maximizing),
            alpha,
            beta,
        ),
    decreases depth, generated(b).len() + 1,
{
    if depth == 0 || generated(b).len() == 0 {
    } else {
        let moves = generated(b);
        let cd = (depth - 1) as nat;
        lemma_alpha_beta_loop(b, moves, 0, alpha, beta, None, cd, maximizing, alpha, beta);
    }
}

proof fn lemma_alpha_beta_loop(
    b: BoardModel,
    moves: Seq<Move>,
    i: int,
    alpha: int,
    beta: int,
    best: Option<int>,
    cd: nat,
    maximizing: bool,
    alpha0: int,
    beta0: int,
)
    requires
        moves == generated(b),
        0 <= i <= moves.len(),
        alpha < beta,
        maximizing ==> beta == beta0 && alpha == (match best {
            Some(v) => if v > alpha0 {
                v
            } else {
                alpha0
            },
            None => alpha0,
        }),
        !maximizing ==> alpha == alpha0 && beta == (match best {
            Some(v) => if v < beta0 {
                v
            } else {
                beta0
            },
            None => beta0,
        }),
        best.is_some() == minimax_best(b, moves, i, cd, sign_of(maximizing)).0.is_some(),
        best.is_some() ==> minimax_best(b, moves, i, cd, sign_of(maximizing)).0.unwrap().0 <= sign_of(
            maximizing,
        ) * best.unwrap(),
        best.is_some() && (maximizing ==> best.unwrap() > alpha0) && (!maximizing ==> best.unwrap()
            < beta0) ==> minimax_best(b, moves, i, cd, sign_of(maximizing)).0.unwrap().0 == sign_of(
            maximizing,
        ) * best.unwrap(),
    ensures
        window_sound(
            alpha_beta_from(b, moves, i, alpha, beta, best, cd, maximizing).0,
            match minimax_best(b, moves, moves.len() as int, cd, sign_of(maximizing)).0 {
                Some(f) => f.0 * sign_of(maximizing),
                None => material(b),
            },
            alpha0,
            beta0,
        ),
    decreases cd + 1, moves.len() - i,
{
    let s = sign_of(maximizing);
    if i >= moves.len() {
    } else {
        let m = moves[i];
        if !b.can_apply(m) {
            lemma_alpha_beta_loop(b, moves, i + 1, alpha, beta, best, cd, maximizing, alpha0, beta0);
        } else {
            let c = b.apply(m);
            lemma_alpha_beta_sound(c, alpha, beta, cd, !maximizing);
            let rc = alpha_beta_spec(c, alpha, beta, cd, !maximizing).0;
            let vc = minimax_value(c, cd, !maximizing);
            assert(sign_of(!maximizing) == -s);
            assert(child_score(b, moves, i, cd, s) == vc * s);
            lemma_best_dominates(b, moves, i, moves.len() as int, cd, s);
            if maximizing {
                if rc >= beta {
                } else {
                    let best2 = if best.is_none() || rc > best.unwrap() {
                        Some(rc)
                    } else {
                        best
                    };
                    let alpha2 = if rc > alpha {
                        rc
                    } else {
                        alpha
                    };
                    lemma_alpha_beta_loop(b, moves, i + 1, alpha2, beta, best2, cd, maximizing, alpha0, beta0);
                }
            } else {
                if rc <= alpha {
                } else {
                    let best2 = if best.is_none() || rc < best.unwrap() {
                        Some(rc)
                    } else {
                        best
                    };
                    let beta2 = if rc < beta {
                        rc
                    } else {
                        beta
                    };
                    lemma_alpha_beta_loop(b, moves, i + 1, alpha, beta2, best2, cd, maximizing, alpha0, beta0);
                }
            }
        }
    }
}

/// Alpha-beta search over the full window of `i32` scores returns the minimax value: the
/// two evaluators agree on every board and depth.
pub proof fn law_alpha_beta_is_minimax(b: BoardModel, depth: nat)
    ensures
        alpha_beta_spec(b, i32::MIN as int, i32::MAX as int, depth, b.side == Color::White).0
            == minimax_spec(b, depth, b.side.sign()).0,
{
    let maximizing = b.side == Color::White;
    lemma_alpha_beta_sound(b, i32::MIN as int, i32::MAX as int, depth, maximizing);
    lemma_alpha_beta_bound(b, i32::MIN as int, i32::MAX as int, depth, maximizing);
}

proof fn lemma_alpha_beta_bound(b: BoardModel, alpha: int, beta: int, depth: nat, maximizing: bool)
    ensures
        -6400 <= alpha_beta_spec(b, alpha, beta, depth, maximizing).0 <= 6400,
    decreases depth, generated(b).len() + 1,
{
    crate::evaluation::lemma_material_bound(b.pieces.slots, 32);
    if depth == 0 || generated(b).len() == 0 {
    } else {
        lemma_alpha_beta_loop_bound(b, generated(b), 0, alpha, beta, None, (depth - 1) as nat, maximizing);
    }
}

proof fn lemma_alpha_beta_loop_bound(
    b: BoardModel,
    moves: Seq<Move>,
    i: int,
    alpha: int,
    beta: int,
    best: Option<int>,
    cd: nat,
    maximizing: bool,
)
    requires
        moves == generated(b),
        0 <= i,
        best.is_some() ==> -6400 <= best.unwrap() <= 6400,
    ensures
        -6400 <= alpha_beta_from(b, moves, i, alpha, beta, best, cd, maximizing).0 <= 6400,
    decreases cd + 1, moves.len() - i,
{
    crate::evaluation::lemma_material_bound(b.pieces.slots, 32);
    if i >= moves.len() {
    } else {
        let m = moves[i];
        if !b.can_apply(m) {
            lemma_alpha_beta_loop_bound(b, moves, i + 1, alpha, beta, best, cd, maximizing);
        } else {
            let c = b.apply(m);
            lemma_alpha_beta_bound(c, alpha, beta, cd, !maximizing);
            let rc = alpha_beta_spec(c, alpha, beta, cd, !maximizing).0;
            let best2 = if maximizing {
                if best.is_none() || rc > best.unwrap() {
                    Some(rc)
                } else {
                    best
                }
            } else {
                if best.is_none() || rc < best.unwrap() {
                    Some(rc)
                } else {
                    best
                }
            };
            let alpha2 = if maximizing && rc > alpha {
                rc
            } else {
                alpha
            };
            let beta2 = if !maximizing && rc < beta {
                rc
            } else {
                beta
            };
            lemma_alpha_beta_loop_bound(b, moves, i + 1, alpha2, beta2, best2, cd, maximizing);
        }
    }
}

/// `small` occurs in `big` as a run of consecutive moves.
pub open spec fn has_run(big: Seq<Move>, small: Seq<Move>) -> bool {
    exists|k: int|
        0 <= k && k + small.len() <= big.len() && #[trigger] big.subrange(k, k + small.len()) == small
}

proof fn lemma_run_self(s: Seq<Move>)
    ensures
        has_run(s, s),
{
    assert(s.subrange(0, 0 + s.len() as int) =~= s);
}

proof fn lemma_run_left(a: Seq<Move>, b: Seq<Move>, x: Seq<Move>)
    requires
        has_run(a, x),
    ensures
        has_run(a + b, x),
{
    let k = choose|k: int|
        0 <= k && k + x.len() <= a.len() && #[trigger] a.subrange(k, k + x.len()) == x;
    assert((a + b).subrange(k, k + x.len()) =~= a.subrange(k, k + x.len()));
}

proof fn lemma_run_right(a: Seq<Move>, b: Seq<Move>, x: Seq<Move>)
    requires
        has_run(b, x),
    ensures
        has_run(a + b, x),
{
    let k = choose|k: int|
        0 <= k && k + x.len() <= b.len() && #[trigger] b.subrange(k, k + x.len()) == x;
    assert((a + b).subrange(k + a.len(), k + a.len() + x.len()) =~= b.subrange(k, k + x.len()));
}

proof fn lemma_run_trans(a: Seq<Move>, b: Seq<Move>, c: Seq<Move>)
    requires
        has_run(a, b),
        has_run(b, c),
    ensures
        has_run(a, c),
{
    let k = choose|k: int|
        0 <= k && k + b.len() <= a.len() && #[trigger] a.subrange(k, k + b.len()) == b;
    let k2 = choose|k2: int|
        0 <= k2 && k2 + c.len() <= b.len() && #[trigger] b.subrange(k2, k2 + c.len()) == c;
    assert(a.subrange(k + k2, k + k2 + c.len()) =~= c);
}

proof fn lemma_run_single(a: Seq<Move>, m: Move)
    requires
        has_run(a, seq![m]),
    ensures
        exists|i: int| 0 <= i < a.len() && a[i] == m,
{
    let k = choose|k: int| 0 <= k && k + 1 <= a.len() && #[trigger] a.subrange(k, k + 1) == seq![m];
    assert(a.subrange(k, k + 1)[0] == a[k]);
}

/// The moves of the piece in slot `j` appear, as one run, among the moves of the slots up
/// to `n`.
proof fn lemma_slot_moves_in(b: BoardModel, j: int, n: int)
    requires
        0 <= j < n <= 32,
        b.pieces.slots.len() == 32,
        b.pieces.slots[j].is_some(),
        b.pieces.slots[j].unwrap().piece.color == b.side,
    ensures
        has_run(moves_upto(b, n), piece_moves(b, b.pieces.slots[j].unwrap())),
    decreases n,
{
    let e = b.pieces.slots[j].unwrap();
    if n - 1 == j {
        lemma_run_self(piece_moves(b, e));
        lemma_run_right(moves_upto(b, n - 1), piece_moves(b, e), piece_moves(b, e));
    } else {
        lemma_slot_moves_in(b, j, n - 1);
        let rest = match b.pieces.slots[n - 1] {
            Some(f) => {
                if f.piece.color == b.side {
                    piece_moves(b, f)
                } else {
                    Seq::empty()
                }
            },
            None => Seq::empty(),
        };
        lemma_run_left(moves_upto(b, n - 1), rest, piece_moves(b, e));
    }
}

/// The moves of the side to move's piece on `sq` appear as one run among the generated
/// moves.
pub proof fn lemma_piece_moves_generated(b: BoardModel, sq: Square)
    requires
        b.pieces.wf(),
        b.piece_at(sq).is_some(),
        b.piece_at(sq).unwrap().color == b.side,
    ensures
        has_run(generated(b), piece_moves(b, PieceOnBoard { piece: b.piece_at(sq).unwrap(), square: sq })),
{
    let j = b.pieces.squares[sq.idx()].unwrap() as int;
    assert(b.pieces.slots[j].is_some());
    crate::board::lemma_idx_injective(b.pieces.slots[j].unwrap().square, sq);
    assert(b.pieces.slots[j].unwrap() == PieceOnBoard { piece: b.piece_at(sq).unwrap(), square: sq });
    lemma_slot_moves_in(b, j, 32);
}

/// A pawn move onto the promotion rank that the pawn's moves include: forward onto a free
/// square, or diagonally onto an opposing piece.
pub open spec fn promotion_step(b: BoardModel, sq: Square, to: Square, capture: Option<PieceOnBoard>) -> bool {
    &&& to.y == b.side.promotion_rank_spec()
    &&& to.on_board()
    &&& {
        ||| to == crate::move_generation::shift(sq, 0, b.side.sign()) && b.is_empty_at(to)
            && capture.is_none()
        ||| (to == crate::move_generation::shift(sq, -1, b.side.sign()) || to
            == crate::move_generation::shift(sq, 1, b.side.sign())) && b.piece_at(to).is_some()
            && b.piece_at(to).unwrap().color != b.side && capture == Some(
            PieceOnBoard { piece: b.piece_at(to).unwrap(), square: to },
        )
    }
}

proof fn lemma_promotion_in_pawn_moves(b: BoardModel, sq: Square, to: Square, capture: Option<PieceOnBoard>)
    requires
        promotion_step(b, sq, to, capture),
    ensures
        has_run(
            crate::move_generation::pawn_moves(b, Piece { kind: PieceKind::Pawn, color: b.side }, sq),
            pawn_targets(b, Piece { kind: PieceKind::Pawn, color: b.side }, sq, to, capture),
        ),
{
    let p = Piece { kind: PieceKind::Pawn, color: b.side };
    let targets = pawn_targets(b, p, sq, to, capture);
    let pushes = crate::move_generation::pawn_pushes(b, p, sq);
    let c1 = crate::move_generation::pawn_captures(b, p, sq, -1);
    let c2 = crate::move_generation::pawn_captures(b, p, sq, 1);
    lemma_run_self(targets);
    if to == crate::move_generation::shift(sq, 0, b.side.sign()) && b.is_empty_at(to) && capture.is_none() {
        let two = crate::move_generation::shift(sq, 0, 2 * b.side.sign());
        let rest = if sq.y == p.color.home_rank_spec() && b.is_empty_at(two) && two.on_board() {
            seq![
                Move {
                    en_passant_after: Some(to),
                    ..crate::move_::plain_move(b.en_passant, b.castle_rights, PieceKind::Pawn, sq, two)
                },
            ]
        } else {
            Seq::empty()
        };
        lemma_run_left(targets, rest, targets);
        assert(pushes == targets + rest);
        lemma_run_left(pushes, c1, targets);
        lemma_run_left(pushes + c1, c2, targets);
    } else {
        let fd: int = if to == crate::move_generation::shift(sq, -1, b.side.sign()) {
            -1
        } else {
            1
        };
        let beside = crate::move_generation::shift(sq, fd, 0);
        let ep = if b.en_passant == Some(to) && b.piece_at(beside).is_some()
            && b.piece_at(beside).unwrap().color != p.color {
            seq![
                crate::move_generation::capture_move(
                    b,
                    p.kind,
                    sq,
                    to,
                    PieceOnBoard { piece: b.piece_at(beside).unwrap(), square: beside },
                ),
            ]
        } else {
            Seq::empty()
        };
        lemma_run_left(targets, ep, targets);
        if fd == -1 {
            assert(c1 == targets + ep);
            lemma_run_right(pushes, c1, targets);
            lemma_run_left(pushes + c1, c2, targets);
        } else {
            assert(c2 == targets + ep);
            lemma_run_right(pushes + c1, c2, targets);
        }
    }
}

/// A pawn of the side to move that can go to a square on its promotion rank (forward onto
/// a free square, or diagonally onto an opposing piece) has, among the generated moves, a
/// run of exactly the four promotion moves there, knight, bishop, rook and queen in that
/// order, with the same capture.
pub proof fn law_promotion_generated(b: BoardModel, sq: Square, to: Square, capture: Option<PieceOnBoard>)
    requires
        b.pieces.wf(),
        b.piece_at(sq) == Some(Piece { kind: PieceKind::Pawn, color: b.side }),
        promotion_step(b, sq, to, capture),
    ensures
        has_run(generated(b), pawn_targets(b, Piece { kind: PieceKind::Pawn, color: b.side }, sq, to, capture)),
        pawn_targets(b, Piece { kind: PieceKind::Pawn, color: b.side }, sq, to, capture).len() == 4,
        pawn_targets(b, Piece { kind: PieceKind::Pawn, color: b.side }, sq, to, capture)[0].promotion
            == Some(PieceKind::Knight),
        pawn_targets(b, Piece { kind: PieceKind::Pawn, color: b.side }, sq, to, capture)[1].promotion
            == Some(PieceKind::Bishop),
        pawn_targets(b, Piece { kind: PieceKind::Pawn, color: b.side }, sq, to, capture)[2].promotion
            == Some(PieceKind::Rook),
        pawn_targets(b, Piece { kind: PieceKind::Pawn, color: b.side }, sq, to, capture)[3].promotion
            == Some(PieceKind::Queen),
{
    let p = Piece { kind: PieceKind::Pawn, color: b.side };
    law_promotion_expansion(b, p, sq, to, capture);
    lemma_piece_moves_generated(b, sq);
    lemma_promotion_in_pawn_moves(b, sq, to, capture);
    assert(piece_moves(b, PieceOnBoard { piece: p, square: sq }) == crate::move_generation::pawn_moves(b, p, sq));
    lemma_run_trans(
        generated(b),
        piece_moves(b, PieceOnBoard { piece: p, square: sq }),
        pawn_targets(b, p, sq, to, capture),
    );
}

proof fn lemma_castle_in_king_moves(b: BoardModel, king: Square, castle: Castle)
    requires
        castle_open(b, b.side, castle),
    ensures
        has_run(
            piece_moves(b, PieceOnBoard { piece: Piece { kind: PieceKind::King, color: b.side }, square: king }),
            seq![crate::move_generation::castle_move(b, b.side, castle)],
        ),
{
    let c = b.side;
    let p = Piece { kind: PieceKind::King, color: c };
    let steps = steps_upto(b, p, king, Directions::King, 8);
    let cm = crate::move_generation::castle_move(b, c, castle);
    let ks = if castle_open(b, c, Castle::KingSide) {
        seq![crate::move_generation::castle_move(b, c, Castle::KingSide)]
    } else {
        Seq::empty()
    };
    let qs = if castle_open(b, c, Castle::QueenSide) {
        seq![crate::move_generation::castle_move(b, c, Castle::QueenSide)]
    } else {
        Seq::empty()
    };
    lemma_run_self(seq![cm]);
    match castle {
        Castle::KingSide => lemma_run_left(ks, qs, seq![cm]),
        Castle::QueenSide => lemma_run_right(ks, qs, seq![cm]),
    }
    assert(castle_moves(b, c) == ks + qs);
    lemma_run_right(steps, castle_moves(b, c), seq![cm]);
}

/// With a king of the side to move on the board, each castle move open to that side (right
/// held, squares between king and rook free) is among the generated moves.
pub proof fn law_castle_generated(b: BoardModel, king: Square, castle: Castle)
    requires
        b.pieces.wf(),
        b.piece_at(king) == Some(Piece { kind: PieceKind::King, color: b.side }),
        castle_open(b, b.side, castle),
    ensures
        exists|i: int|
            0 <= i < generated(b).len() && generated(b)[i] == crate::move_generation::castle_move(
                b,
                b.side,
                castle,
            ),
{
    let p = Piece { kind: PieceKind::King, color: b.side };
    lemma_piece_moves_generated(b, king);
    lemma_castle_in_king_moves(b, king, castle);
    lemma_run_trans(
        generated(b),
        piece_moves(b, PieceOnBoard { piece: p, square: king }),
        seq![crate::move_generation::castle_move(b, b.side, castle)],
    );
    lemma_run_single(generated(b), crate::move_generation::castle_move(b, b.side, castle));
}

/// On any well-formed board, a generated move that `apply_move` accepted is taken back by
/// `revert_move` exactly: the same position, side to move, en-passant target and castle
/// rights bit for bit (rights the move took come back, rights that were not held are not
/// granted). On a consistent board every generated move is accepted (`law_round_trip`).
pub proof fn law_round_trip_applied(b: BoardModel, i: int)
    requires
        b.pieces.wf(),
        0 <= i < generated(b).len(),
        b.can_apply(generated(b)[i]),
    ensures
        b.apply(generated(b)[i]).can_revert(generated(b)[i]),
        b.apply(generated(b)[i]).revert(generated(b)[i]) == b,
        b.apply(generated(b)[i]).revert(generated(b)[i]).same_position(b),
        b.apply(generated(b)[i]).revert(generated(b)[i]).castle_rights == generated(b)[i].castle_rights_before,
        generated(b)[i].castle_rights_before == b.castle_rights,
        b.apply(generated(b)[i]).revert(generated(b)[i]).en_passant == generated(b)[i].en_passant_before,
        b.apply(generated(b)[i]).revert(generated(b)[i]).side == b.apply(generated(b)[i]).side.other(),
{
    lemma_apply_then_revert(b, generated(b)[i]);
}

/// Signed material value of a square's content.
pub open spec fn worth_of(o: Option<Piece>) -> int {
    match o {
        Some(p) => p.signed_worth(),
        None => 0,
    }
}

/// Signed material of the pieces on the squares with table position below `n`.
pub open spec fn square_material(s: StorageModel, n: int) -> int
    decreases n,
{
    if n <= 0 {
        0
    } else {
        square_material(s, n - 1) + worth_of(s.piece_on(n - 1))
    }
}

/// Signed material of the squares below `n` whose piece is held in a slot below `j`.
spec fn slot_square_sum(s: StorageModel, j: int, n: int) -> int
    decreases n,
{
    if n <= 0 {
        0
    } else {
        slot_square_sum(s, j, n - 1) + if s.squares[n - 1].is_some() && (s.squares[n - 1].unwrap() as int) < j {
            s.slots[s.squares[n - 1].unwrap() as int].unwrap().piece.signed_worth()
        } else {
            0
        }
    }
}

proof fn lemma_slot_square_none(s: StorageModel, n: int)
    requires
        0 <= n,
    ensures
        slot_square_sum(s, 0, n) == 0,
    decreases n,
{
    if n > 0 {
        lemma_slot_square_none(s, n - 1);
    }
}

proof fn lemma_slot_square_all(s: StorageModel, n: int)
    requires
        s.wf(),
        0 <= n <= 64,
    ensures
        slot_square_sum(s, 32, n) == square_material(s, n),
    decreases n,
{
    if n > 0 {
        lemma_slot_square_all(s, n - 1);
    }
}

proof fn lemma_slot_square_step(s: StorageModel, j: int, n: int)
    requires
        s.wf(),
        0 <= j < 32,
        0 <= n <= 64,
    ensures
        slot_square_sum(s, j + 1, n) == slot_square_sum(s, j, n) + if s.slots[j].is_some()
            && s.slots[j].unwrap().square.idx() < n {
            s.slots[j].unwrap().piece.signed_worth()
        } else {
            0
        },
    decreases n,
{
    if n > 0 {
        lemma_slot_square_step(s, j, n - 1);
        let i = n - 1;
        if s.squares[i].is_some() && s.squares[i].unwrap() as int == j {
            assert(s.slots[j].is_some());
        }
        if s.slots[j].is_some() {
            let sq = s.slots[j].unwrap().square;
            assert(s.squares[sq.idx()] == Some(j as u8));
        }
    }
}

proof fn lemma_material_by_squares_upto(s: StorageModel, j: int)
    requires
        s.wf(),
        0 <= j <= 32,
    ensures
        material_upto(s.slots, j) == slot_square_sum(s, j, 64),
    decreases j,
{
    if j == 0 {
        lemma_slot_square_none(s, 64);
    } else {
        lemma_material_by_squares_upto(s, j - 1);
        lemma_slot_square_step(s, j - 1, 64);
        if s.slots[j - 1].is_some() {
            crate::board::lemma_idx_injective(s.slots[j - 1].unwrap().square, s.slots[j - 1].unwrap().square);
        }
    }
}

/// The static evaluation is the sum over the squares of the signed value of what stands
/// there: it does not depend on which slots hold the pieces.
pub proof fn lemma_material_by_squares(b: BoardModel)
    requires
        b.pieces.wf(),
    ensures
        material(b) == square_material(b.pieces, 64),
{
    lemma_material_by_squares_upto(b.pieces, 32);
    lemma_slot_square_all(b.pieces, 64);
}

/// `o` with its piece's color switched.
pub open spec fn color_switched(o: Option<Piece>) -> Option<Piece> {
    match o {
        Some(p) => Some(Piece { kind: p.kind, color: p.color.other() }),
        None => None,
    }
}

proof fn lemma_square_material_negated(s1: StorageModel, s2: StorageModel, n: int)
    requires
        0 <= n <= 64,
        forall|i: int| 0 <= i < 64 ==> #[trigger] s2.piece_on(i) == color_switched(s1.piece_on(i)),
    ensures
        square_material(s2, n) == -square_material(s1, n),
    decreases n,
{
    if n > 0 {
        lemma_square_material_negated(s1, s2, n - 1);
        let o = s1.piece_on(n - 1);
        if let Some(p) = o {
            let q = Piece { kind: p.kind, color: p.color.other() };
            assert(color_switched(o) == Some(q));
            match p.color {
                Color::White => {
                    assert(p.signed_worth() == p.kind.worth());
                    assert(q.signed_worth() == -p.kind.worth());
                },
                Color::Black => {
                    assert(p.signed_worth() == -p.kind.worth());
                    assert(q.signed_worth() == p.kind.worth());
                },
            }
        }
    }
}

/// The square with table position `i`.
pub open spec fn square_of(i: int) -> Square {
    Square { x: (i % 8) as i8, y: (i / 8) as i8 }
}

/// Two boards with the same kinds on the same squares but every color switched, however
/// their slots hold the pieces, have opposite static evaluations.
pub proof fn law_switched_colors_negate(b1: BoardModel, b2: BoardModel)
    requires
        b1.pieces.wf(),
        b2.pieces.wf(),
        forall|sq: Square| #[trigger] b2.piece_at(sq) == color_switched(b1.piece_at(sq)),
    ensures
        material(b2) == -material(b1),
{
    assert forall|i: int| 0 <= i < 64 implies #[trigger] b2.pieces.piece_on(i) == color_switched(
        b1.pieces.piece_on(i),
    ) by {
        let sq = square_of(i);
        assert(sq.on_board() && sq.idx() == i);
        assert(b2.piece_at(sq) == color_switched(b1.piece_at(sq)));
        if b1.pieces.squares[i].is_some() {
            assert(b1.pieces.slots[b1.pieces.squares[i].unwrap() as int].is_some());
        }
        if b2.pieces.squares[i].is_some() {
            assert(b2.pieces.slots[b2.pieces.squares[i].unwrap() as int].is_some());
        }
    }
    lemma_square_material_negated(b1.pieces, b2.pieces, 64);
    lemma_material_by_squares(b1);
    lemma_material_by_squares(b2);
}

} // verus!
