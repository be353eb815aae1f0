//! Geometry and identity primitives: squares, colors, piece kinds, pieces and castle rights.
use vstd::prelude::*;
use vstd::string::StringExecFns;

verus! {

/// A square of the board, by file (`x`) and rank (`y`).
///
/// Off-board squares are valid values: they appear while stepping along rays and are
/// checked with `is_on_board` before they are used.
#[derive(Clone, Copy, PartialEq, Eq, Structural, PartialOrd, Ord, Debug, Hash)]
pub struct Square {
    pub x: i8,
    pub y: i8,
}

/// The character naming file `x` (`'a'` for file 0).
pub open spec fn file_char(x: int) -> char {
    if x == 0 {
        'a'
    } else if x == 1 {
        'b'
    } else if x == 2 {
        'c'
    } else if x == 3 {
        'd'
    } else if x == 4 {
        'e'
    } else if x == 5 {
        'f'
    } else if x == 6 {
        'g'
    } else {
        'h'
    }
}

/// The decimal digit of `y`, for `0 <= y < 8`.
pub open spec fn digit_char(y: int) -> char {
    if y == 0 {
        '0'
    } else if y == 1 {
        '1'
    } else if y == 2 {
        '2'
    } else if y == 3 {
        '3'
    } else if y == 4 {
        '4'
    } else if y == 5 {
        '5'
    } else if y == 6 {
        '6'
    } else {
        '7'
    }
}

impl Square {
    pub open spec fn on_board(self) -> bool {
        0 <= self.x < 8 && 0 <= self.y < 8
    }

    /// Position of an on-board square in a 64-entry table, rank by rank.
    pub open spec fn idx(self) -> int {
        self.y * 8 + self.x
    }

    /// The text of an on-board square: its file letter followed by its rank number.
    pub open spec fn algebraic_spec(self) -> Seq<char> {
        seq![file_char(self.x as int), digit_char(self.y as int)]
    }

    pub fn at(x: i8, y: i8) -> (r: Square)
        ensures
            r == (Square { x, y }),
    {
        Square { x, y }
    }

    pub fn file(&self) -> (r: i8)
        ensures
            r == self.x,
    {
        self.x
    }

    pub fn rank(&self) -> (r: i8)
        ensures
            r == self.y,
    {
        self.y
    }

    pub fn is_on_board(&self) -> (r: bool)
        ensures
            r == self.on_board(),
    {
        self.x >= 0 && self.x < 8 && self.y >= 0 && self.y < 8
    }

    pub fn delta(&self, x: i8, y: i8) -> (r: Square)
        requires
            i8::MIN <= self.x + x <= i8::MAX,
            i8::MIN <= self.y + y <= i8::MAX,
        ensures
            r.x == self.x + x,
            r.y == self.y + y,
    {
        Square { x: self.x + x, y: self.y + y }
    }

    pub fn index(&self) -> (r: usize)
        requires
            self.on_board(),
        ensures
            r == self.idx(),
            r < 64,
    {
        (self.y as usize) * 8 + (self.x as usize)
    }

    pub fn algebraic(&self) -> (r: String)
        requires
            self.on_board(),
        ensures
            r@ == self.algebraic_spec(),
    {
        let mut s = String::from_str(file_text(self.x));
        s.append(digit_text(self.y));
        s
    }
}

fn file_text(x: i8) -> (r: &'static str)
    requires
        0 <= x < 8,
    ensures
        r@ == seq![file_char(x as int)],
{
    match x {
        0 => {
            proof {
                reveal_strlit("a");
            }
            "a"
        },
        1 => {
            proof {
                reveal_strlit("b");
            }
            "b"
        },
        2 => {
            proof {
                reveal_strlit("c");
            }
            "c"
        },
        3 => {
            proof {
                reveal_strlit("d");
            }
            "d"
        },
        4 => {
            proof {
                reveal_strlit("e");
            }
            "e"
        },
        5 => {
            proof {
                reveal_strlit("f");
            }
            "f"
        },
        6 => {
            proof {
                reveal_strlit("g");
            }
            "g"
        },
        _ => {
            proof {
                reveal_strlit("h");
            }
            "h"
        },
    }
}

fn digit_text(y: i8) -> (r: &'static str)
    requires
        0 <= y < 8,
    ensures
        r@ == seq![digit_char(y as int)],
{
    match y {
        0 => {
            proof {
                reveal_strlit("0");
            }
            "0"
        },
        1 => {
            proof {
                reveal_strlit("1");
            }
            "1"
        },
        2 => {
            proof {
                reveal_strlit("2");
            }
            "2"
        },
        3 => {
            proof {
                reveal_strlit("3");
            }
            "3"
        },
        4 => {
            proof {
                reveal_strlit("4");
            }
            "4"
        },
        5 => {
            proof {
                reveal_strlit("5");
            }
            "5"
        },
        6 => {
            proof {
                reveal_strlit("6");
            }
            "6"
        },
        _ => {
            proof {
                reveal_strlit("7");
            }
            "7"
        },
    }
}

#[derive(Clone, Copy, PartialEq, Eq, Structural, Debug, Hash)]
pub enum Castle {
    KingSide,
    QueenSide,
}

#[derive(Clone, Copy, PartialEq, Eq, Structural, PartialOrd, Ord, Debug, Hash)]
pub enum Color {
    White,
    Black,
}

impl Color {
    pub open spec fn other(self) -> Color {
        match self {
            Color::White => Color::Black,
            Color::Black => Color::White,
        }
    }

    /// +1 for White, -1 for Black: the sign of material and the pawns' direction of travel.
    pub open spec fn sign(self) -> int {
        match self {
            Color::White => 1,
            Color::Black => -1,
        }
    }

    pub open spec fn home_rank_spec(self) -> int {
        match self {
            Color::White => 1,
            Color::Black => 6,
        }
    }

    pub open spec fn promotion_rank_spec(self) -> int {
        match self {
            Color::White => 7,
            Color::Black => 0,
        }
    }

    pub open spec fn back_rank_spec(self) -> int {
        match self {
            Color::White => 0,
            Color::Black => 7,
        }
    }

    pub fn switch(&self) -> (r: Color)
        ensures
            r == self.other(),
    {
        match self {
            Color::White => Color::Black,
            Color::Black => Color::White,
        }
    }

    pub fn index(self) -> (r: usize)
        ensures
            r == (match self {
                Color::White => 0usize,
                Color::Black => 1usize,
            }),
    {
        match self {
            Color::White => 0,
            Color::Black => 1,
        }
    }

    pub fn token(&self) -> (r: char)
        ensures
            r == (match self {
                Color::White => 'B',
                Color::Black => 'W',
            }),
    {
        match self {
            Color::White => 'B',
            Color::Black => 'W',
        }
    }

    pub fn evaluation_sign(&self) -> (r: i32)
        ensures
            r == self.sign(),
    {
        match self {
            Color::White => 1,
            Color::Black => -1,
        }
    }

    /// The rank direction in which this color's pawns advance.
    pub fn forward(&self) -> (r: i8)
        ensures
            r == self.sign(),
    {
        match self {
            Color::White => 1,
            Color::Black => -1,
        }
    }

    /// The rank from which this color's pawns may advance two squares.
    pub fn home_rank(&self) -> (r: i8)
        ensures
            r == self.home_rank_spec(),
    {
        match self {
            Color::White => 1,
            Color::Black => 6,
        }
    }

    pub fn promotion_rank(&self) -> (r: u8)
        ensures
            r == self.promotion_rank_spec(),
    {
        match self {
            Color::White => 7,
            Color::Black => 0,
        }
    }

    pub fn back_rank(&self) -> (r: i8)
        ensures
            r == self.back_rank_spec(),
    {
        match self {
            Color::White => 0,
            Color::Black => 7,
        }
    }
}

/// The kinds of piece. `Dummy` occupies a square and never moves.
#[derive(Clone, Copy, PartialEq, Eq, Structural, PartialOrd, Ord, Debug, Hash)]
pub enum PieceKind {
    Pawn,
    Knight,
    Bishop,
    Rook,
    Queen,
    King,
    Dummy,
}

impl PieceKind {
    /// Material value of the kind.
    pub open spec fn worth(self) -> int {
        match self {
            PieceKind::Pawn => 1,
            PieceKind::Knight => 3,
            PieceKind::Bishop => 3,
            PieceKind::Rook => 5,
            PieceKind::Queen => 9,
            PieceKind::King => 200,
            PieceKind::Dummy => 0,
        }
    }

    pub fn value(&self) -> (r: i32)
        ensures
            r == self.worth(),
    {
        match self {
            PieceKind::Pawn => 1,
            PieceKind::Knight => 3,
            PieceKind::Bishop => 3,
            PieceKind::Rook => 5,
            PieceKind::Queen => 9,
            PieceKind::King => 200,
            PieceKind::Dummy => 0,
        }
    }

    pub fn token(&self) -> (r: char)
        ensures
            r == (match self {
                PieceKind::Pawn => 'p',
                PieceKind::Knight => 'n',
                PieceKind::Bishop => 'b',
                PieceKind::Rook => 'r',
                PieceKind::Queen => 'q',
                PieceKind::King => 'k',
                PieceKind::Dummy => 'd',
            }),
    {
        match self {
            PieceKind::Pawn => 'p',
            PieceKind::Knight => 'n',
            PieceKind::Bishop => 'b',
            PieceKind::Rook => 'r',
            PieceKind::Queen => 'q',
            PieceKind::King => 'k',
            PieceKind::Dummy => 'd',
        }
    }

    pub fn colored(self, color: Color) -> (r: Piece)
        ensures
            r == (Piece { kind: self, color }),
    {
        Piece::create(self, color)
    }
}

#[derive(Clone, Copy, PartialEq, Eq, Structural, PartialOrd, Ord, Debug, Hash)]
pub struct Piece {
    pub kind: PieceKind,
    pub color: Color,
}

impl Piece {
    /// Signed material value: positive for White, negative for Black.
    pub open spec fn signed_worth(self) -> int {
        self.kind.worth() * self.color.sign()
    }

    pub fn create(kind: PieceKind, color: Color) -> (r: Piece)
        ensures
            r == (Piece { kind, color }),
    {
        Piece { kind, color }
    }

    pub fn at(&self, file: i8, rank: i8) -> (r: PieceOnBoard)
        ensures
            r == (PieceOnBoard { piece: *self, square: Square { x: file, y: rank } }),
    {
        PieceOnBoard { piece: *self, square: Square { x: file, y: rank } }
    }

    pub fn at_square(&self, square: &Square) -> (r: PieceOnBoard)
        ensures
            r == (PieceOnBoard { piece: *self, square: *square }),
    {
        PieceOnBoard { piece: *self, square: *square }
    }

    pub fn value(&self) -> (r: i32)
        ensures
            r == self.signed_worth(),
    {
        let v = self.kind.value();
        match self.color {
            Color::White => v,
            Color::Black => -v,
        }
    }
}

/// A piece together with the square it stands on.
#[derive(Clone, Copy, PartialEq, Eq, Structural, PartialOrd, Ord, Debug, Hash)]
pub struct PieceOnBoard {
    pub piece: Piece,
    pub square: Square,
}

impl PieceOnBoard {
    pub fn create(piece: &Piece, square: &Square) -> (r: PieceOnBoard)
        ensures
            r == (PieceOnBoard { piece: *piece, square: *square }),
    {
        PieceOnBoard { piece: *piece, square: *square }
    }
}

/// Castle rights of one side.
#[derive(Clone, Copy, PartialEq, Eq, Structural, Debug, Hash)]
pub struct ColorCastleRights {
    pub king_side: bool,
    pub queen_side: bool,
}

impl ColorCastleRights {
    pub open spec fn has(self, side: Castle) -> bool {
        match side {
            Castle::KingSide => self.king_side,
            Castle::QueenSide => self.queen_side,
        }
    }

    pub fn all() -> (r: ColorCastleRights)
        ensures
            r == (ColorCastleRights { king_side: true, queen_side: true }),
    {
        ColorCastleRights { king_side: true, queen_side: true }
    }

    pub fn none() -> (r: ColorCastleRights)
        ensures
            r == (ColorCastleRights { king_side: false, queen_side: false }),
    {
        ColorCastleRights { king_side: false, queen_side: false }
    }

    pub fn test(&self, side: Castle) -> (r: bool)
        ensures
            r == self.has(side),
    {
        match side {
            Castle::KingSide => self.king_side,
            Castle::QueenSide => self.queen_side,
        }
    }
}

/// Castle rights of both sides.
#[derive(Clone, Copy, PartialEq, Eq, Structural, Debug, Hash)]
pub struct BoardCastleRights {
    pub white: ColorCastleRights,
    pub black: ColorCastleRights,
}

impl BoardCastleRights {
    pub open spec fn of(self, color: Color) -> ColorCastleRights {
        match color {
            Color::White => self.white,
            Color::Black => self.black,
        }
    }

    pub open spec fn with(self, color: Color, rights: ColorCastleRights) -> BoardCastleRights {
        match color {
            Color::White => BoardCastleRights { white: rights, ..self },
            Color::Black => BoardCastleRights { black: rights, ..self },
        }
    }

    pub fn all() -> (r: BoardCastleRights)
        ensures
            r.white == (ColorCastleRights { king_side: true, queen_side: true }),
            r.black == (ColorCastleRights { king_side: true, queen_side: true }),
    {
        BoardCastleRights { white: ColorCastleRights::all(), black: ColorCastleRights::all() }
    }

    pub fn none() -> (r: BoardCastleRights)
        ensures
            r.white == (ColorCastleRights { king_side: false, queen_side: false }),
            r.black == (ColorCastleRights { king_side: false, queen_side: false }),
    {
        BoardCastleRights { white: ColorCastleRights::none(), black: ColorCastleRights::none() }
    }

    pub fn get_rights(&self, color: Color) -> (r: ColorCastleRights)
        ensures
            r == self.of(color),
    {
        match color {
            Color::White => self.white,
            Color::Black => self.black,
        }
    }

    pub fn get_rights_mut(&mut self, color: Color) -> (r: &mut ColorCastleRights)
        ensures
            *r == old(self).of(color),
            *final(self) == old(self).with(color, *final(r)),
    {
        match color {
            Color::White => &mut self.white,
            Color::Black => &mut self.black,
        }
    }

    pub fn set_rights(&mut self, color: Color, rights: &ColorCastleRights)
        ensures
            *final(self) == old(self).with(color, *rights),
    {
        match color {
            Color::White => self.white = *rights,
            Color::Black => self.black = *rights,
        }
    }
}

} // verus!
