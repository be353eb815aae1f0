//! The move descriptor: a transition together with the board state it was made from.
use vstd::prelude::*;
use vstd::string::StringExecFns;
use crate::types::{
    BoardCastleRights, Castle, Color, ColorCastleRights, PieceKind, PieceOnBoard, Square,
};
use crate::board::Board;

verus! {

/// A move, carrying what is needed to take it back: the en-passant target and the castle
/// rights of the board it was made from.
#[derive(Clone, Copy, PartialEq, Eq, Structural, Debug)]
pub struct Move {
    pub from: Square,
    pub to: Square,
    pub piece_kind: PieceKind,
    pub capture: Option<PieceOnBoard>,
    pub en_passant_before: Option<Square>,
    pub en_passant_after: Option<Square>,
    pub castle_rights_before: BoardCastleRights,
    pub castle: Option<Castle>,
    pub promotion: Option<PieceKind>,
}

/// The corner a rook leaves when castling on `castle` side along `rank`.
pub open spec fn rook_home(castle: Castle, rank: i8) -> Square {
    match castle {
        Castle::KingSide => Square { x: 7, y: rank },
        Castle::QueenSide => Square { x: 0, y: rank },
    }
}

/// The square a rook lands on when castling on `castle` side along `rank`.
pub open spec fn rook_landing(castle: Castle, rank: i8) -> Square {
    match castle {
        Castle::KingSide => Square { x: 5, y: rank },
        Castle::QueenSide => Square { x: 3, y: rank },
    }
}

/// The file the king lands on when castling on `castle` side.
pub open spec fn king_landing_file(castle: Castle) -> i8 {
    match castle {
        Castle::KingSide => 6,
        Castle::QueenSide => 2,
    }
}

/// A plain move of `kind` from `from` to `to`, made on a board with en-passant target `ep`
/// and castle rights `rights`.
pub open spec fn plain_move(
    ep: Option<Square>,
    rights: BoardCastleRights,
    kind: PieceKind,
    from: Square,
    to: Square,
) -> Move {
    Move {
        from,
        to,
        piece_kind: kind,
        capture: None,
        en_passant_before: ep,
        en_passant_after: None,
        castle_rights_before: rights,
        castle: None,
        promotion: None,
    }
}

/// `rights` without the right on `castle` side when `cond` holds.
pub open spec fn strip_if(rights: ColorCastleRights, cond: bool, castle: Castle) -> ColorCastleRights {
    if !cond {
        rights
    } else {
        match castle {
            Castle::KingSide => ColorCastleRights { king_side: false, ..rights },
            Castle::QueenSide => ColorCastleRights { queen_side: false, ..rights },
        }
    }
}

impl Move {
    /// The castle rights after `side` has made this move: a king move strips both of the
    /// mover's rights, a rook leaving its corner strips that corner's right, and a capture
    /// on an opponent's rook corner strips the opponent's right there.
    pub open spec fn rights_after(self, side: Color) -> BoardCastleRights {
        let before = self.castle_rights_before;
        let own = before.of(side);
        let own_after = if self.piece_kind == PieceKind::King {
            ColorCastleRights { king_side: false, queen_side: false }
        } else if self.piece_kind == PieceKind::Rook {
            strip_if(
                strip_if(
                    own,
                    self.from == (Square { x: 7, y: side.back_rank_spec() as i8 }),
                    Castle::KingSide,
                ),
                self.from == (Square { x: 0, y: side.back_rank_spec() as i8 }),
                Castle::QueenSide,
            )
        } else {
            own
        };
        let moved = before.with(side, own_after);
        match self.capture {
            Some(c) => {
                let other = side.other();
                let theirs = moved.of(other);
                moved.with(
                    other,
                    strip_if(
                        strip_if(
                            theirs,
                            c.square == (Square { x: 7, y: other.back_rank_spec() as i8 }),
                            Castle::KingSide,
                        ),
                        c.square == (Square { x: 0, y: other.back_rank_spec() as i8 }),
                        Castle::QueenSide,
                    ),
                )
            },
            None => moved,
        }
    }

    /// The kind of the piece that stands on `to` after the move.
    pub open spec fn landing_kind(self) -> PieceKind {
        match self.promotion {
            Some(k) => k,
            None => self.piece_kind,
        }
    }

    pub fn castle(board: &Board, color: Color, castle: Castle) -> (r: Move)
        ensures
            r == (Move {
                castle: Some(castle),
                ..plain_move(
                    board.en_passant,
                    board.castle_rights,
                    PieceKind::King,
                    Square { x: 4, y: color.back_rank_spec() as i8 },
                    Square { x: king_landing_file(castle), y: color.back_rank_spec() as i8 },
                )
            }),
    {
        let file: i8 = match castle {
            Castle::KingSide => 6,
            Castle::QueenSide => 2,
        };
        let rank = color.back_rank();
        let mut m = Move::from_to(
            board,
            PieceKind::King,
            Square::at(4, rank),
            Square::at(file, rank),
        );
        m.castle = Some(castle);
        m
    }

    pub fn promotion(board: &Board, from: Square, to: Square, promotion: PieceKind) -> (r: Move)
        ensures
            r == (Move {
                promotion: Some(promotion),
                ..plain_move(board.en_passant, board.castle_rights, PieceKind::Pawn, from, to)
            }),
    {
        let mut m = Move::from_to(board, PieceKind::Pawn, from, to);
        m.promotion = Some(promotion);
        m
    }

    pub fn promotion_capture(
        board: &Board,
        from: Square,
        to: Square,
        capture: PieceOnBoard,
        promotion: PieceKind,
    ) -> (r: Move)
        ensures
            r == (Move {
                capture: Some(capture),
                promotion: Some(promotion),
                ..plain_move(board.en_passant, board.castle_rights, PieceKind::Pawn, from, to)
            }),
    {
        let mut m = Move::from_to(board, PieceKind::Pawn, from, to);
        m.capture = Some(capture);
        m.promotion = Some(promotion);
        m
    }

    pub fn from_to(board: &Board, piece_kind: PieceKind, from: Square, to: Square) -> (r: Move)
        ensures
            r == plain_move(board.en_passant, board.castle_rights, piece_kind, from, to),
    {
        Move {
            piece_kind,
            from,
            to,
            capture: None,
            en_passant_before: board.en_passant,
            en_passant_after: None,
            castle_rights_before: board.castle_rights,
            castle: None,
            promotion: None,
        }
    }

    /// A pawn move that leaves `en_passant` as the en-passant target.
    pub fn from_to_en_passant(board: &Board, from: Square, to: Square, en_passant: Square) -> (r:
        Move)
        ensures
            r == (Move {
                en_passant_after: Some(en_passant),
                ..plain_move(board.en_passant, board.castle_rights, PieceKind::Pawn, from, to)
            }),
    {
        let mut m = Move::from_to(board, PieceKind::Pawn, from, to);
        m.en_passant_after = Some(en_passant);
        m
    }

    pub fn from_to_capture(
        board: &Board,
        piece_kind: PieceKind,
        from: Square,
        to: Square,
        capture: PieceOnBoard,
    ) -> (r: Move)
        ensures
            r == (Move {
                capture: Some(capture),
                ..plain_move(board.en_passant, board.castle_rights, piece_kind, from, to)
            }),
    {
        let mut m = Move::from_to(board, piece_kind, from, to);
        m.capture = Some(capture);
        m
    }

    pub fn castle_rights_after(&self, side: Color) -> (r: BoardCastleRights)
        ensures
            r == self.rights_after(side),
    {
        let mut rights = self.castle_rights_before;
        let other_side = side.switch();
        match self.piece_kind {
            PieceKind::King => {
                rights.set_rights(side, &ColorCastleRights::none());
            },
            PieceKind::Rook => {
                if self.from == Square::at(7, side.back_rank()) {
                    rights.get_rights_mut(side).king_side = false;
                }
                if self.from == Square::at(0, side.back_rank()) {
                    rights.get_rights_mut(side).queen_side = false;
                }
            },
            _ => {},
        }
        if let Some(capture) = self.capture {
            if capture.square == Square::at(7, other_side.back_rank()) {
                rights.get_rights_mut(other_side).king_side = false;
            }
            if capture.square == Square::at(0, other_side.back_rank()) {
                rights.get_rights_mut(other_side).queen_side = false;
            }
        }
        rights
    }

    /// The move a rook makes while its king castles on `castle` side along `rank`.
    pub fn rook_castle(board: &Board, castle: Castle, rank: i8) -> (r: Move)
        requires
            rank == 0 || rank == 7,
        ensures
            r == plain_move(
                board.en_passant,
                board.castle_rights,
                PieceKind::Rook,
                rook_home(castle, rank),
                rook_landing(castle, rank),
            ),
    {
        match castle {
            Castle::KingSide => Move::from_to(
                board,
                PieceKind::Rook,
                Square::at(7, rank),
                Square::at(5, rank),
            ),
            Castle::QueenSide => Move::from_to(
                board,
                PieceKind::Rook,
                Square::at(0, rank),
                Square::at(3, rank),
            ),
        }
    }

    /// The text `"<from>-<to>"`, each square as its file letter and rank number.
    pub open spec fn long_algebraic_spec(self) -> Seq<char> {
        self.from.algebraic_spec() + seq!['-'] + self.to.algebraic_spec()
    }

    pub fn long_algebraic(&self) -> (r: String)
        requires
            self.from.on_board(),
            self.to.on_board(),
        ensures
            r@ == self.long_algebraic_spec(),
    {
        let mut s = self.from.algebraic();
        let to = self.to.algebraic();
        proof {
            reveal_strlit("-");
        }
        s.append("-");
        s.append(to.as_str());
        s
    }
}

} // verus!
