//! Move constructors for setting up positions by hand: the kind of the moving piece is read
//! from the board.
use vstd::prelude::*;
use crate::types::{Castle, Color, PieceKind, PieceOnBoard, Square};
use crate::board::Board;
use crate::move_::{king_landing_file, plain_move, Move};

verus! {

pub struct TestMove {}

impl TestMove {
    /// `Move::from_to` for the piece standing on `from`.
    pub fn from_to(board: &Board, from: Square, to: Square) -> (r: Move)
        requires
            board.wf(),
            board@.piece_at(from).is_some(),
        ensures
            r == plain_move(
                board.en_passant,
                board.castle_rights,
                board@.piece_at(from).unwrap().kind,
                from,
                to,
            ),
    {
        let piece = board.piece_at(from).unwrap();
        Move::from_to(board, piece.kind, from, to)
    }

    pub fn castle(board: &Board, color: Color, castle: Castle) -> (r: Move)
        ensures
            r == (Move {
                castle: Some(castle),
                ..plain_move(
                    board.en_passant,
                    board.castle_rights,
                    PieceKind::King,
                    Square { x: 4, y: color.back_rank_spec() as i8 },
                    Square { x: king_landing_file(castle), y: color.back_rank_spec() as i8 },
                )
            }),
    {
        Move::castle(board, color, castle)
    }

    pub fn promotion(board: &Board, from: Square, to: Square, promotion: PieceKind) -> (r: Move)
        ensures
            r == (Move {
                promotion: Some(promotion),
                ..plain_move(board.en_passant, board.castle_rights, PieceKind::Pawn, from, to)
            }),
    {
        Move::promotion(board, from, to, promotion)
    }

    pub fn promotion_capture(
        board: &Board,
        from: Square,
        to: Square,
        capture: PieceOnBoard,
        promotion: PieceKind,
    ) -> (r: Move)
        ensures
            r == (Move {
                capture: Some(capture),
                promotion: Some(promotion),
                ..plain_move(board.en_passant, board.castle_rights, PieceKind::Pawn, from, to)
            }),
    {
        Move::promotion_capture(board, from, to, capture, promotion)
    }

    pub fn from_to_en_passant(board: &Board, from: Square, to: Square, en_passant: Square) -> (r:
        Move)
        ensures
            r == (Move {
                en_passant_after: Some(en_passant),
                ..plain_move(board.en_passant, board.castle_rights, PieceKind::Pawn, from, to)
            }),
    {
        Move::from_to_en_passant(board, from, to, en_passant)
    }

    /// `Move::from_to_capture` for the piece standing on `from`.
    pub fn from_to_capture(board: &Board, from: Square, to: Square, capture: PieceOnBoard) -> (r:
        Move)
        requires
            board.wf(),
            board@.piece_at(from).is_some(),
        ensures
            r == (Move {
                capture: Some(capture),
                ..plain_move(
                    board.en_passant,
                    board.castle_rights,
                    board@.piece_at(from).unwrap().kind,
                    from,
                    to,
                )
            }),
    {
        let piece = board.piece_at(from).unwrap();
        Move::from_to_capture(board, piece.kind, from, to, capture)
    }
}

} // verus!
