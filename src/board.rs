//! The mutable position: piece storage with constant-time square lookup, side to move,
//! en-passant target and castle rights, with `apply_move` / `revert_move` as an exact
//! inverse pair.
use vstd::prelude::*;
use crate::types::{BoardCastleRights, Castle, Color, ColorCastleRights, Piece, PieceKind, PieceOnBoard, Square};
use crate::move_::{king_landing_file, rook_home, rook_landing, Move};

verus! {

/// Number of piece slots of a board.
pub const SLOT_COUNT: usize = 32;

/// The contents of a `PieceStorage`: 32 piece slots, a stack of free slot numbers, and a
/// 64-entry table from square to the slot holding the piece on it.
pub struct StorageModel {
    pub slots: Seq<Option<PieceOnBoard>>,
    pub free: Seq<u8>,
    pub squares: Seq<Option<u8>>,
}

impl StorageModel {
    /// The slots and the square table describe the same pieces, and the free stack names
    /// distinct empty slots.
    pub open spec fn wf(self) -> bool {
        &&& self.slots.len() == 32
        &&& self.squares.len() == 64
        &&& forall|j: int|
            0 <= j < 32 && #[trigger] self.slots[j].is_some() ==> {
                &&& self.slots[j].unwrap().square.on_board()
                &&& self.squares[self.slots[j].unwrap().square.idx()] == Some(j as u8)
            }
        &&& forall|i: int|
            0 <= i < 64 && #[trigger] self.squares[i].is_some() ==> {
                &&& self.squares[i].unwrap() < 32
                &&& self.slots[self.squares[i].unwrap() as int].is_some()
                &&& self.slots[self.squares[i].unwrap() as int].unwrap().square.idx() == i
            }
        &&& forall|k: int|
            0 <= k < self.free.len() ==> #[trigger] self.free[k] < 32 && self.slots[self.free[k] as int].is_none()
        &&& self.free.no_duplicates()
        &&& self.free.len() + occupied_upto(self.slots, 32) == 32
    }

    /// The number of pieces stored.
    pub open spec fn piece_count(self) -> int {
        occupied_upto(self.slots, 32)
    }

    /// The slot holding the piece on `sq`, if any.
    pub open spec fn entry(self, sq: Square) -> Option<u8> {
        if sq.on_board() {
            self.squares[sq.idx()]
        } else {
            None
        }
    }

    pub open spec fn piece_at(self, sq: Square) -> Option<Piece> {
        match self.entry(sq) {
            Some(j) => Some(self.slots[j as int].unwrap().piece),
            None => None,
        }
    }

    /// The piece on the square with table position `i`, reading the table and slots only
    /// where they reach.
    pub open spec fn piece_on(self, i: int) -> Option<Piece> {
        if 0 <= i < self.squares.len() && self.squares[i].is_some() && (self.squares[i].unwrap() as int)
            < self.slots.len() && self.slots[self.squares[i].unwrap() as int].is_some() {
            Some(self.slots[self.squares[i].unwrap() as int].unwrap().piece)
        } else {
            None
        }
    }

    /// Take the piece off `sq`; its slot goes on top of the free stack.
    pub open spec fn remove(self, sq: Square) -> StorageModel {
        let j = self.squares[sq.idx()].unwrap();
        StorageModel {
            slots: self.slots.update(j as int, None),
            free: self.free.push(j),
            squares: self.squares.update(sq.idx(), None),
        }
    }

    /// Put `p` into the slot on top of the free stack.
    pub open spec fn add(self, p: PieceOnBoard) -> StorageModel {
        let k = self.free.last();
        StorageModel {
            slots: self.slots.update(k as int, Some(p)),
            free: self.free.drop_last(),
            squares: self.squares.update(p.square.idx(), Some(k)),
        }
    }

    /// Move the piece on `from` to `to`, giving it `kind`; it keeps its slot and color.
    pub open spec fn relocate(self, from: Square, to: Square, kind: PieceKind) -> StorageModel {
        let j = self.squares[from.idx()].unwrap();
        let color = self.slots[j as int].unwrap().piece.color;
        StorageModel {
            slots: self.slots.update(
                j as int,
                Some(PieceOnBoard { piece: Piece { kind, color }, square: to }),
            ),
            free: self.free,
            squares: self.squares.update(from.idx(), None).update(to.idx(), Some(j)),
        }
    }
}

/// The number of occupied slots among the first `j`.
pub open spec fn occupied_upto(slots: Seq<Option<PieceOnBoard>>, j: int) -> int
    decreases j,
{
    if j <= 0 {
        0
    } else {
        occupied_upto(slots, j - 1) + if slots[j - 1].is_some() {
            1int
        } else {
            0int
        }
    }
}

/// Changing slot `k` changes the count by the change in its occupancy.
pub proof fn lemma_occupied_update(slots: Seq<Option<PieceOnBoard>>, k: int, v: Option<PieceOnBoard>, j: int)
    requires
        0 <= k < slots.len(),
        0 <= j <= slots.len(),
    ensures
        occupied_upto(slots.update(k, v), j) == occupied_upto(slots, j) + if k < j {
            (if v.is_some() {
                1int
            } else {
                0int
            }) - (if slots[k].is_some() {
                1int
            } else {
                0int
            })
        } else {
            0int
        },
    decreases j,
{
    if j > 0 {
        lemma_occupied_update(slots, k, v, j - 1);
    }
}

proof fn lemma_occupied_none(j: int)
    requires
        0 <= j <= 32,
    ensures
        occupied_upto(Seq::new(32, |i: int| None::<PieceOnBoard>), j) == 0,
    decreases j,
{
    if j > 0 {
        lemma_occupied_none(j - 1);
    }
}

/// An empty storage: every slot free, the free stack handing out slot 0 first.
pub open spec fn empty_storage() -> StorageModel {
    StorageModel {
        slots: Seq::new(32, |j: int| None),
        free: Seq::new(32, |k: int| (31 - k) as u8),
        squares: Seq::new(64, |i: int| None),
    }
}

pub proof fn lemma_idx_injective(a: Square, b: Square)
    requires
        a.on_board(),
        b.on_board(),
    ensures
        0 <= a.idx() < 64,
        a.idx() == b.idx() <==> a == b,
{
}

pub proof fn lemma_remove(s: StorageModel, sq: Square)
    requires
        s.wf(),
        s.piece_at(sq).is_some(),
    ensures
        s.remove(sq).wf(),
        s.remove(sq).free.len() == s.free.len() + 1,
        forall|q: Square| #[trigger]
            s.remove(sq).piece_at(q) == if q == sq {
                None
            } else {
                s.piece_at(q)
            },
{
    let r = s.remove(sq);
    let j = s.squares[sq.idx()].unwrap();
    assert(s.slots[j as int].is_some());
    lemma_occupied_update(s.slots, j as int, None, 32);
    assert forall|k: int| 0 <= k < r.free.len() implies #[trigger] r.free[k] < 32
        && r.slots[r.free[k] as int].is_none() by {
        if k < s.free.len() {
            assert(s.free[k] != j);
        }
    }
    assert(r.free.no_duplicates()) by {
        assert forall|a: int, b: int|
            0 <= a < r.free.len() && 0 <= b < r.free.len() && a != b implies r.free[a]
            != r.free[b] by {
            if a < s.free.len() && b < s.free.len() {
            } else if a < s.free.len() {
                assert(s.slots[s.free[a] as int].is_none());
            } else {
                assert(s.slots[s.free[b] as int].is_none());
            }
        }
    }
    assert forall|q: Square| #[trigger]
        r.piece_at(q) == if q == sq {
            None
        } else {
            s.piece_at(q)
        } by {
        if q.on_board() {
            lemma_idx_injective(q, sq);
            if q != sq && s.squares[q.idx()].is_some() {
                assert(s.squares[q.idx()].unwrap() != j);
            }
        }
    }
}

pub proof fn lemma_add(s: StorageModel, p: PieceOnBoard)
    requires
        s.wf(),
        p.square.on_board(),
        s.piece_at(p.square).is_none(),
        s.free.len() > 0,
    ensures
        s.add(p).wf(),
        s.add(p).free.len() == s.free.len() - 1,
        forall|q: Square| #[trigger]
            s.add(p).piece_at(q) == if q == p.square {
                Some(p.piece)
            } else {
                s.piece_at(q)
            },
{
    let r = s.add(p);
    let k = s.free.last();
    assert(s.slots[k as int].is_none());
    lemma_occupied_update(s.slots, k as int, Some(p), 32);
    assert forall|i: int| 0 <= i < 64 && #[trigger] s.squares[i].is_some() implies s.squares[i].unwrap()
        != k by {
        assert(s.slots[s.squares[i].unwrap() as int].is_some());
    }
    assert forall|kk: int| 0 <= kk < r.free.len() implies #[trigger] r.free[kk] < 32
        && r.slots[r.free[kk] as int].is_none() by {
        assert(s.free[kk] != s.free[s.free.len() - 1]);
    }
    assert forall|j: int| 0 <= j < 32 && #[trigger] r.slots[j].is_some() implies {
        &&& r.slots[j].unwrap().square.on_board()
        &&& r.squares[r.slots[j].unwrap().square.idx()] == Some(j as u8)
    } by {
        if j != k {
            lemma_idx_injective(s.slots[j].unwrap().square, p.square);
        }
    }
    assert forall|q: Square| #[trigger]
        r.piece_at(q) == if q == p.square {
            Some(p.piece)
        } else {
            s.piece_at(q)
        } by {
        if q.on_board() {
            lemma_idx_injective(q, p.square);
        }
    }
}

pub proof fn lemma_relocate(s: StorageModel, from: Square, to: Square, kind: PieceKind)
    requires
        s.wf(),
        from.on_board(),
        to.on_board(),
        from != to,
        s.piece_at(from).is_some(),
        s.piece_at(to).is_none(),
    ensures
        s.relocate(from, to, kind).wf(),
        s.relocate(from, to, kind).free == s.free,
        forall|q: Square| #[trigger]
            s.relocate(from, to, kind).piece_at(q) == if q == to {
                Some(Piece { kind, color: s.piece_at(from).unwrap().color })
            } else if q == from {
                None
            } else {
                s.piece_at(q)
            },
{
    let r = s.relocate(from, to, kind);
    let j = s.squares[from.idx()].unwrap();
    lemma_idx_injective(from, to);
    assert(s.slots[j as int].is_some());
    lemma_occupied_update(
        s.slots,
        j as int,
        Some(PieceOnBoard { piece: Piece { kind, color: s.slots[j as int].unwrap().piece.color }, square: to }),
        32,
    );
    assert forall|jj: int| 0 <= jj < 32 && #[trigger] r.slots[jj].is_some() implies {
        &&& r.slots[jj].unwrap().square.on_board()
        &&& r.squares[r.slots[jj].unwrap().square.idx()] == Some(jj as u8)
    } by {
        if jj != j {
            lemma_idx_injective(s.slots[jj].unwrap().square, to);
            lemma_idx_injective(s.slots[jj].unwrap().square, from);
        }
    }
    assert forall|kk: int| 0 <= kk < r.free.len() implies #[trigger] r.free[kk] < 32
        && r.slots[r.free[kk] as int].is_none() by {
        assert(s.free[kk] != j);
    }
    assert forall|q: Square| #[trigger]
        r.piece_at(q) == if q == to {
            Some(Piece { kind, color: s.piece_at(from).unwrap().color })
        } else if q == from {
            None
        } else {
            s.piece_at(q)
        } by {
        if q.on_board() {
            lemma_idx_injective(q, to);
            lemma_idx_injective(q, from);
            if q != to && q != from && s.squares[q.idx()].is_some() {
                assert(s.squares[q.idx()].unwrap() != j);
            }
        }
    }
}

/// Piece storage: a fixed array of slots, a free-slot stack and a square-to-slot table, for
/// constant-time lookup, insertion and removal.
#[derive(Clone, Debug)]
pub struct PieceStorage {
    slots: Vec<Option<PieceOnBoard>>,
    free: Vec<u8>,
    squares: Vec<Option<u8>>,
}

impl View for PieceStorage {
    type V = StorageModel;

    closed spec fn view(&self) -> StorageModel {
        StorageModel { slots: self.slots@, free: self.free@, squares: self.squares@ }
    }
}

impl PieceStorage {
    pub fn new() -> (r: PieceStorage)
        ensures
            r@ == empty_storage(),
            r@.wf(),
    {
        let mut slots: Vec<Option<PieceOnBoard>> = Vec::new();
        let mut j: usize = 0;
        while j < SLOT_COUNT
            invariant
                j <= SLOT_COUNT,
                slots@ == Seq::new(j as nat, |i: int| None::<PieceOnBoard>),
            decreases SLOT_COUNT - j,
        {
            slots.push(None);
            j = j + 1;
        }
        let mut free: Vec<u8> = Vec::new();
        let mut k: usize = 0;
        while k < SLOT_COUNT
            invariant
                k <= SLOT_COUNT,
                free@ == Seq::new(k as nat, |i: int| (31 - i) as u8),
            decreases SLOT_COUNT - k,
        {
            free.push((31 - k) as u8);
            k = k + 1;
        }
        let mut squares: Vec<Option<u8>> = Vec::new();
        let mut i: usize = 0;
        while i < 64
            invariant
                i <= 64,
                squares@ == Seq::new(i as nat, |q: int| None::<u8>),
            decreases 64 - i,
        {
            squares.push(None);
            i = i + 1;
        }
        let r = PieceStorage { slots, free, squares };
        proof {
            lemma_occupied_none(32);
        }
        assert(r@.slots =~= empty_storage().slots);
        assert(r@.free =~= empty_storage().free);
        assert(r@.squares =~= empty_storage().squares);
        r
    }

    pub fn slot(&self, j: usize) -> (r: Option<PieceOnBoard>)
        requires
            self@.wf(),
            j < SLOT_COUNT,
        ensures
            r == self@.slots[j as int],
    {
        self.slots[j]
    }

    pub fn free_count(&self) -> (r: usize)
        ensures
            r == self@.free.len(),
    {
        self.free.len()
    }

    pub fn piece_on(&self, i: usize) -> (r: Option<Piece>)
        ensures
            r == self@.piece_on(i as int),
    {
        if i >= self.squares.len() {
            return None;
        }
        match self.squares[i] {
            Some(j) => {
                if (j as usize) < self.slots.len() {
                    match self.slots[j as usize] {
                        Some(e) => Some(e.piece),
                        None => None,
                    }
                } else {
                    None
                }
            },
            None => None,
        }
    }

    pub fn piece_at(&self, square: &Square) -> (r: Option<Piece>)
        requires
            self@.wf(),
        ensures
            r == self@.piece_at(*square),
    {
        if !square.is_on_board() {
            return None;
        }
        match self.squares[square.index()] {
            Some(j) => {
                let e = self.slots[j as usize];
                Some(e.unwrap().piece)
            },
            None => None,
        }
    }

    pub fn add(&mut self, p: &PieceOnBoard)
        requires
            old(self)@.wf(),
            p.square.on_board(),
            old(self)@.piece_at(p.square).is_none(),
            old(self)@.free.len() > 0,
        ensures
            final(self)@ == old(self)@.add(*p),
            final(self)@.wf(),
    {
        proof {
            lemma_add(self@, *p);
        }
        let k = self.free.pop().unwrap();
        self.slots.set(k as usize, Some(*p));
        self.squares.set(p.square.index(), Some(k));
        assert(self@.slots =~= old(self)@.add(*p).slots);
        assert(self@.squares =~= old(self)@.add(*p).squares);
    }

    pub fn remove(&mut self, square: &Square)
        requires
            old(self)@.wf(),
            old(self)@.piece_at(*square).is_some(),
        ensures
            final(self)@ == old(self)@.remove(*square),
            final(self)@.wf(),
    {
        proof {
            lemma_remove(self@, *square);
        }
        let i = square.index();
        let j = self.squares[i].unwrap();
        self.squares.set(i, None);
        self.slots.set(j as usize, None);
        self.free.push(j);
        assert(self@.slots =~= old(self)@.remove(*square).slots);
        assert(self@.squares =~= old(self)@.remove(*square).squares);
    }

    pub fn relocate(&mut self, from: &Square, to: &Square, kind: PieceKind)
        requires
            old(self)@.wf(),
            from.on_board(),
            to.on_board(),
            *from != *to,
            old(self)@.piece_at(*from).is_some(),
            old(self)@.piece_at(*to).is_none(),
        ensures
            final(self)@ == old(self)@.relocate(*from, *to, kind),
            final(self)@.wf(),
    {
        proof {
            lemma_relocate(self@, *from, *to, kind);
        }
        let fi = from.index();
        let ti = to.index();
        let j = self.squares[fi].unwrap();
        let e = self.slots[j as usize].unwrap();
        let moved = PieceOnBoard { piece: Piece { kind, color: e.piece.color }, square: *to };
        self.slots.set(j as usize, Some(moved));
        self.squares.set(fi, None);
        self.squares.set(ti, Some(j));
        assert(self@.slots =~= old(self)@.relocate(*from, *to, kind).slots);
        assert(self@.squares =~= old(self)@.relocate(*from, *to, kind).squares);
    }
}

/// Why a move could not be applied to, or taken back from, a board.
#[derive(Clone, Copy, PartialEq, Eq, Structural, Debug)]
pub enum MoveError {
    /// The move was made from a board with another en-passant target or other castle rights.
    StaleMove,
    /// The pieces on the board do not match the move.
    Mismatch,
}

/// The storage after the pieces of `m` have moved: for castling the rook first, then the
/// mover, which lands as `m.landing_kind()`.
pub open spec fn move_pieces(s: StorageModel, m: Move) -> StorageModel {
    let s1 = match m.castle {
        Some(cs) => s.relocate(rook_home(cs, m.from.y), rook_landing(cs, m.from.y), PieceKind::Rook),
        None => s,
    };
    s1.relocate(m.from, m.to, m.landing_kind())
}

/// The storage after the pieces of `m` have moved back: for castling the rook first, then
/// the mover, which gets back `m.piece_kind`.
pub open spec fn unmove_pieces(s: StorageModel, m: Move) -> StorageModel {
    let s1 = match m.castle {
        Some(cs) => s.relocate(rook_landing(cs, m.from.y), rook_home(cs, m.from.y), PieceKind::Rook),
        None => s,
    };
    s1.relocate(m.to, m.from, m.piece_kind)
}

/// The squares `m` moves between are on the board and distinct, with a piece on `from` and
/// `to` free; for castling also the rook's corner occupied and its landing square free.
pub open spec fn movable(s: StorageModel, m: Move) -> bool {
    &&& m.from.on_board()
    &&& m.to.on_board()
    &&& m.from != m.to
    &&& s.piece_at(m.from).is_some()
    &&& s.piece_at(m.to).is_none()
    &&& match m.castle {
        Some(cs) => {
            &&& (m.from.y == 0 || m.from.y == 7)
            &&& m.from.x == 4
            &&& m.to == (Square { x: king_landing_file(cs), y: m.from.y })
            &&& s.piece_at(rook_home(cs, m.from.y)).is_some()
            &&& s.piece_at(rook_landing(cs, m.from.y)).is_none()
        },
        None => true,
    }
}

/// The mirror of `movable` for moving the pieces of `m` back.
pub open spec fn unmovable(s: StorageModel, m: Move) -> bool {
    &&& m.from.on_board()
    &&& m.to.on_board()
    &&& m.from != m.to
    &&& s.piece_at(m.to).is_some()
    &&& s.piece_at(m.from).is_none()
    &&& match m.castle {
        Some(cs) => {
            &&& (m.from.y == 0 || m.from.y == 7)
            &&& m.from.x == 4
            &&& m.to == (Square { x: king_landing_file(cs), y: m.from.y })
            &&& s.piece_at(rook_landing(cs, m.from.y)).is_some()
            &&& s.piece_at(rook_home(cs, m.from.y)).is_none()
        },
        None => true,
    }
}

pub proof fn lemma_move_pieces(s: StorageModel, m: Move)
    requires
        s.wf(),
        movable(s, m),
    ensures
        move_pieces(s, m).wf(),
        move_pieces(s, m).free == s.free,
        move_pieces(s, m).piece_at(m.to) == Some(
            Piece { kind: m.landing_kind(), color: s.piece_at(m.from).unwrap().color },
        ),
        move_pieces(s, m).piece_at(m.from).is_none(),
{
    let s1 = match m.castle {
        Some(cs) => s.relocate(rook_home(cs, m.from.y), rook_landing(cs, m.from.y), PieceKind::Rook),
        None => s,
    };
    if let Some(cs) = m.castle {
        lemma_relocate(s, rook_home(cs, m.from.y), rook_landing(cs, m.from.y), PieceKind::Rook);
        assert(s1.piece_at(m.from) == s.piece_at(m.from));
        assert(s1.piece_at(m.to) == s.piece_at(m.to));
    }
    lemma_relocate(s1, m.from, m.to, m.landing_kind());
}

pub proof fn lemma_unmove_pieces(s: StorageModel, m: Move)
    requires
        s.wf(),
        unmovable(s, m),
    ensures
        unmove_pieces(s, m).wf(),
        unmove_pieces(s, m).free == s.free,
        unmove_pieces(s, m).piece_at(m.to).is_none(),
        forall|q: Square|
            q != m.to && q != m.from && (m.castle.is_none() || (q != rook_home(
                m.castle.unwrap(),
                m.from.y,
            ) && q != rook_landing(m.castle.unwrap(), m.from.y))) ==> #[trigger] unmove_pieces(
                s,
                m,
            ).piece_at(q) == s.piece_at(q),
{
    let s1 = match m.castle {
        Some(cs) => s.relocate(rook_landing(cs, m.from.y), rook_home(cs, m.from.y), PieceKind::Rook),
        None => s,
    };
    if let Some(cs) = m.castle {
        lemma_relocate(s, rook_landing(cs, m.from.y), rook_home(cs, m.from.y), PieceKind::Rook);
        assert(s1.piece_at(m.from) == s.piece_at(m.from));
        assert(s1.piece_at(m.to) == s.piece_at(m.to));
    }
    lemma_relocate(s1, m.to, m.from, m.piece_kind);
}

/// Castle rights with no right granted.
pub open spec fn no_castle_rights() -> BoardCastleRights {
    BoardCastleRights {
        white: ColorCastleRights { king_side: false, queen_side: false },
        black: ColorCastleRights { king_side: false, queen_side: false },
    }
}

/// The state of a `Board`.
pub struct BoardModel {
    pub pieces: StorageModel,
    pub side: Color,
    pub en_passant: Option<Square>,
    pub castle_rights: BoardCastleRights,
}

impl BoardModel {
    pub open spec fn piece_at(self, sq: Square) -> Option<Piece> {
        self.pieces.piece_at(sq)
    }

    pub open spec fn is_empty_at(self, sq: Square) -> bool {
        self.piece_at(sq).is_none()
    }

    /// The move was made from a board with this board's en-passant target and castle rights.
    pub open spec fn is_current(self, m: Move) -> bool {
        m.en_passant_before == self.en_passant && m.castle_rights_before == self.castle_rights
    }

    /// The pieces on the board are those the move speaks of: the mover on `from`, the
    /// captured piece where the move says, a free landing square, and for castling the rook
    /// in its corner with the squares it and the king land on free.
    pub open spec fn matches_move(self, m: Move) -> bool {
        &&& m.from.on_board()
        &&& m.to.on_board()
        &&& m.from != m.to
        &&& self.piece_at(m.from).is_some()
        &&& self.piece_at(m.from).unwrap().kind == m.piece_kind
        &&& match m.capture {
            Some(c) => {
                &&& c.square.on_board()
                &&& c.square != m.from
                &&& self.piece_at(c.square) == Some(c.piece)
                &&& (c.square == m.to || self.is_empty_at(m.to))
            },
            None => self.is_empty_at(m.to),
        }
        &&& match m.castle {
            Some(cs) => {
                &&& m.capture.is_none()
                &&& (m.from.y == 0 || m.from.y == 7)
                &&& m.from.x == 4
                &&& m.to == (Square { x: king_landing_file(cs), y: m.from.y })
                &&& self.piece_at(rook_home(cs, m.from.y)).is_some()
                &&& self.piece_at(rook_home(cs, m.from.y)).unwrap().kind == PieceKind::Rook
                &&& self.is_empty_at(rook_landing(cs, m.from.y))
            },
            None => true,
        }
    }

    pub open spec fn can_apply(self, m: Move) -> bool {
        self.is_current(m) && self.matches_move(m)
    }

    pub open spec fn after_capture(self, m: Move) -> StorageModel {
        match m.capture {
            Some(c) => self.pieces.remove(c.square),
            None => self.pieces,
        }
    }

    /// The board after `m`: the captured piece is taken off, a castling rook moves to its
    /// landing square, the mover goes to `to` (as the promoted kind, if any), the en-passant
    /// target and castle rights are those the move leaves, and the other side moves next.
    pub open spec fn apply(self, m: Move) -> BoardModel {
        BoardModel {
            pieces: move_pieces(self.after_capture(m), m),
            side: self.side.other(),
            en_passant: m.en_passant_after,
            castle_rights: m.rights_after(self.side),
        }
    }

    /// The board is one that `m` leads to: the mover on `to`, `from` free, for castling the
    /// rook on its landing square with its corner free, and room to put a captured piece
    /// back.
    pub open spec fn can_revert(self, m: Move) -> bool {
        &&& m.from.on_board()
        &&& m.to.on_board()
        &&& m.from != m.to
        &&& self.piece_at(m.to).is_some()
        &&& self.piece_at(m.to).unwrap().kind == m.landing_kind()
        &&& self.is_empty_at(m.from)
        &&& match m.castle {
            Some(cs) => {
                &&& m.capture.is_none()
                &&& (m.from.y == 0 || m.from.y == 7)
                &&& m.from.x == 4
                &&& m.to == (Square { x: king_landing_file(cs), y: m.from.y })
                &&& self.piece_at(rook_landing(cs, m.from.y)).is_some()
                &&& self.piece_at(rook_landing(cs, m.from.y)).unwrap().kind == PieceKind::Rook
                &&& self.is_empty_at(rook_home(cs, m.from.y))
            },
            None => true,
        }
        &&& match m.capture {
            Some(c) => {
                &&& c.square.on_board()
                &&& c.square != m.from
                &&& (c.square == m.to || self.is_empty_at(c.square))
                &&& self.pieces.free.len() > 0
            },
            None => true,
        }
    }

    /// The board before `m`: the rook of a castling and the mover go back (the mover as the
    /// kind it had), the captured piece returns, and side, en-passant target and castle
    /// rights are those the move recorded.
    pub open spec fn revert(self, m: Move) -> BoardModel {
        let back = unmove_pieces(self.pieces, m);
        BoardModel {
            pieces: match m.capture {
                Some(c) => back.add(c),
                None => back,
            },
            side: self.side.other(),
            en_passant: m.en_passant_before,
            castle_rights: m.castle_rights_before,
        }
    }

    /// The square of the first king of `color` in slot order, looking from slot `j` on.
    pub open spec fn king_square_from(self, color: Color, j: int) -> Option<Square>
        decreases 32 - j,
    {
        if j < 0 || j >= 32 {
            None
        } else {
            match self.pieces.slots[j] {
                Some(e) => {
                    if e.piece == (Piece { kind: PieceKind::King, color }) {
                        Some(e.square)
                    } else {
                        self.king_square_from(color, j + 1)
                    }
                },
                None => self.king_square_from(color, j + 1),
            }
        }
    }

    pub open spec fn king_square(self, color: Color) -> Option<Square> {
        self.king_square_from(color, 0)
    }

    /// Same side to move, en-passant target, castle rights and the same piece on every
    /// square, whatever slots hold them.
    pub open spec fn same_position(self, other: BoardModel) -> bool {
        &&& self.side == other.side
        &&& self.en_passant == other.en_passant
        &&& self.castle_rights == other.castle_rights
        &&& forall|i: int| 0 <= i < 64 ==> #[trigger] self.pieces.piece_on(i) == other.pieces.piece_on(i)
    }
}

pub proof fn lemma_capture_then_movable(b: BoardModel, m: Move)
    requires
        b.pieces.wf(),
        b.matches_move(m),
    ensures
        b.after_capture(m).wf(),
        movable(b.after_capture(m), m),
        b.after_capture(m).piece_at(m.from) == b.piece_at(m.from),
{
    if let Some(c) = m.capture {
        lemma_remove(b.pieces, c.square);
    }
}

/// Applying a move and then taking it back gives the board exactly as it was.
pub proof fn lemma_apply_then_revert(b: BoardModel, m: Move)
    requires
        b.pieces.wf(),
        b.can_apply(m),
    ensures
        b.apply(m).pieces.wf(),
        b.apply(m).can_revert(m),
        b.apply(m).revert(m) == b,
{
    let s0 = b.pieces;
    let s1 = b.after_capture(m);
    lemma_capture_then_movable(b, m);
    lemma_move_pieces(s1, m);
    let a = b.apply(m);
    let s2 = a.pieces;
    lemma_unmove_pieces(s2, m);
    let s3 = unmove_pieces(s2, m);
    let jm = s0.squares[m.from.idx()].unwrap();
    assert(s0.slots[jm as int].is_some());
    lemma_idx_injective(s0.slots[jm as int].unwrap().square, m.from);
    match m.castle {
        Some(cs) => {
            let rh = rook_home(cs, m.from.y);
            let rl = rook_landing(cs, m.from.y);
            let jr = s0.squares[rh.idx()].unwrap();
            assert(s0.slots[jr as int].is_some());
            lemma_idx_injective(s0.slots[jr as int].unwrap().square, rh);
            lemma_idx_injective(rh, m.from);
            lemma_idx_injective(rl, m.from);
            lemma_idx_injective(rh, m.to);
            lemma_idx_injective(rl, m.to);
            assert(s3.slots =~= s0.slots);
            assert(s3.squares =~= s0.squares);
        },
        None => {},
    }
    match m.capture {
        Some(c) => {
            let jc = s0.squares[c.square.idx()].unwrap();
            assert(s0.slots[jc as int].is_some());
            lemma_idx_injective(s0.slots[jc as int].unwrap().square, c.square);
            lemma_idx_injective(c.square, m.from);
            lemma_idx_injective(c.square, m.to);
            lemma_idx_injective(m.from, m.to);
            let s4 = s3.add(c);
            assert(s4.free =~= s0.free);
            assert(s4.slots =~= s0.slots);
            assert(s4.squares =~= s0.squares);
        },
        None => {
            lemma_idx_injective(m.from, m.to);
            assert(s3.free =~= s0.free);
            assert(s3.slots =~= s0.slots);
            assert(s3.squares =~= s0.squares);
        },
    }
}

/// The kind of piece that starts on file `x` of a back rank.
pub open spec fn back_rank_kind(x: int) -> PieceKind {
    if x == 0 || x == 7 {
        PieceKind::Rook
    } else if x == 1 || x == 6 {
        PieceKind::Knight
    } else if x == 2 || x == 5 {
        PieceKind::Bishop
    } else if x == 3 {
        PieceKind::Queen
    } else {
        PieceKind::King
    }
}

/// The piece on `sq` in the standard starting position.
pub open spec fn starting_piece(sq: Square) -> Option<Piece> {
    if !sq.on_board() {
        None
    } else if sq.y == 1 {
        Some(Piece { kind: PieceKind::Pawn, color: Color::White })
    } else if sq.y == 6 {
        Some(Piece { kind: PieceKind::Pawn, color: Color::Black })
    } else if sq.y == 0 {
        Some(Piece { kind: back_rank_kind(sq.x as int), color: Color::White })
    } else if sq.y == 7 {
        Some(Piece { kind: back_rank_kind(sq.x as int), color: Color::Black })
    } else {
        None
    }
}

/// A chess position.
#[derive(Clone, Debug)]
pub struct Board {
    pub pieces: PieceStorage,
    pub side: Color,
    pub en_passant: Option<Square>,
    pub castle_rights: BoardCastleRights,
}

impl View for Board {
    type V = BoardModel;

    open spec fn view(&self) -> BoardModel {
        BoardModel {
            pieces: self.pieces@,
            side: self.side,
            en_passant: self.en_passant,
            castle_rights: self.castle_rights,
        }
    }
}

impl Board {
    pub open spec fn wf(&self) -> bool {
        self.pieces@.wf()
    }

    pub fn create_empty() -> (r: Board)
        ensures
            r.wf(),
            r@.pieces == empty_storage(),
            forall|q: Square| #[trigger] r@.piece_at(q) == None::<Piece>,
            r.side == Color::White,
            r.en_passant.is_none(),
            r.castle_rights == no_castle_rights(),
    {
        Board {
            pieces: PieceStorage::new(),
            side: Color::White,
            en_passant: None,
            castle_rights: BoardCastleRights::none(),
        }
    }

    /// The standard 32-piece starting position, White to move, all castle rights granted.
    pub fn create_populated() -> (r: Board)
        ensures
            r.wf(),
            forall|sq: Square| #[trigger] r@.piece_at(sq) == starting_piece(sq),
            r.side == Color::White,
            r.en_passant.is_none(),
            r.castle_rights.white == (ColorCastleRights { king_side: true, queen_side: true }),
            r.castle_rights.black == (ColorCastleRights { king_side: true, queen_side: true }),
    {
        let mut board = Board::create_empty();
        let mut x: i8 = 0;
        while x < 8
            invariant
                board.wf(),
                0 <= x <= 8,
                board@.pieces.free.len() == 32 - 2 * x,
                board.side == Color::White,
                board.en_passant.is_none(),
                forall|q: Square| #[trigger]
                    board@.piece_at(q) == if q.on_board() && q.x < x && q.y == 1 {
                        Some(Piece { kind: PieceKind::Pawn, color: Color::White })
                    } else if q.on_board() && q.x < x && q.y == 6 {
                        Some(Piece { kind: PieceKind::Pawn, color: Color::Black })
                    } else {
                        None::<Piece>
                    },
            decreases 8 - x,
        {
            board.add_piece(&PieceKind::Pawn.colored(Color::White).at(x, 1));
            board.add_piece(&PieceKind::Pawn.colored(Color::Black).at(x, 6));
            x = x + 1;
        }
        board.add_back_rank_pieces();
        let ghost placed = board@;
        assert forall|sq: Square| #[trigger] placed.piece_at(sq) == starting_piece(sq) by {
            if sq.on_board() && sq.y != 0 && sq.y != 7 {
                assert(placed.piece_at(sq) == if sq.y == 1 {
                    Some(Piece { kind: PieceKind::Pawn, color: Color::White })
                } else if sq.y == 6 {
                    Some(Piece { kind: PieceKind::Pawn, color: Color::Black })
                } else {
                    None::<Piece>
                });
            }
        }
        board.castle_rights = BoardCastleRights::all();
        assert forall|sq: Square| #[trigger] board@.piece_at(sq) == starting_piece(sq) by {
            assert(board@.piece_at(sq) == placed.piece_at(sq));
        }
        board
    }

    /// Kings and rooks on their home squares, White to move, all castle rights granted.
    pub fn create_king_rooks() -> (r: Board)
        ensures
            r.wf(),
            forall|sq: Square| #[trigger]
                r@.piece_at(sq) == if sq.on_board() && (sq.y == 0 || sq.y == 7) && (sq.x == 0
                    || sq.x == 4 || sq.x == 7) {
                    starting_piece(sq)
                } else {
                    None::<Piece>
                },
            r.side == Color::White,
            r.en_passant.is_none(),
            r.castle_rights.white == (ColorCastleRights { king_side: true, queen_side: true }),
            r.castle_rights.black == (ColorCastleRights { king_side: true, queen_side: true }),
    {
        let mut board = Board::create_empty();
        let w = Color::White;
        let b = Color::Black;
        board.add_four(
            &PieceKind::Rook.colored(w).at(0, 0),
            &PieceKind::Rook.colored(w).at(7, 0),
            &PieceKind::Rook.colored(b).at(0, 7),
            &PieceKind::Rook.colored(b).at(7, 7),
        );
        board.add_piece(&PieceKind::King.colored(w).at(4, 0));
        board.add_piece(&PieceKind::King.colored(b).at(4, 7));
        let ghost placed = board@;
        board.castle_rights = BoardCastleRights::all();
        assert forall|sq: Square| #[trigger]
            board@.piece_at(sq) == if sq.on_board() && (sq.y == 0 || sq.y == 7) && (sq.x == 0
                || sq.x == 4 || sq.x == 7) {
                starting_piece(sq)
            } else {
                None::<Piece>
            } by {
            assert(board@.piece_at(sq) == placed.piece_at(sq));
        }
        board
    }

    /// A rook of each color in the king-side corner, White to move, no castle rights.
    pub fn create_rooks() -> (r: Board)
        ensures
            r.wf(),
            forall|sq: Square| #[trigger]
                r@.piece_at(sq) == if sq == (Square { x: 7, y: 0 }) {
                    Some(Piece { kind: PieceKind::Rook, color: Color::White })
                } else if sq == (Square { x: 7, y: 7 }) {
                    Some(Piece { kind: PieceKind::Rook, color: Color::Black })
                } else {
                    None::<Piece>
                },
            r.side == Color::White,
            r.en_passant.is_none(),
            r.castle_rights == no_castle_rights(),
    {
        let mut board = Board::create_empty();
        board.add_piece(&PieceKind::Rook.colored(Color::White).at(7, 0));
        board.add_piece(&PieceKind::Rook.colored(Color::Black).at(7, 7));
        let ghost placed = board@;
        board.castle_rights = BoardCastleRights::none();
        assert forall|sq: Square| #[trigger] board@.piece_at(sq) == placed.piece_at(sq) by {}
        board
    }

    fn add_back_rank_pieces(&mut self)
        requires
            old(self).wf(),
            old(self)@.pieces.free.len() == 16,
            forall|q: Square| #![auto] old(self)@.piece_at(q).is_some() ==> q.y == 1 || q.y == 6,
        ensures
            final(self).wf(),
            final(self).side == old(self).side,
            final(self).en_passant == old(self).en_passant,
            forall|q: Square| #[trigger]
                final(self)@.piece_at(q) == if q.on_board() && q.y == 0 {
                    Some(Piece { kind: back_rank_kind(q.x as int), color: Color::White })
                } else if q.on_board() && q.y == 7 {
                    Some(Piece { kind: back_rank_kind(q.x as int), color: Color::Black })
                } else {
                    old(self)@.piece_at(q)
                },
    {
        let w = Color::White;
        let b = Color::Black;
        self.add_four(
            &PieceKind::Rook.colored(w).at(0, 0),
            &PieceKind::Rook.colored(w).at(7, 0),
            &PieceKind::Rook.colored(b).at(0, 7),
            &PieceKind::Rook.colored(b).at(7, 7),
        );
        self.add_four(
            &PieceKind::Knight.colored(w).at(1, 0),
            &PieceKind::Knight.colored(w).at(6, 0),
            &PieceKind::Knight.colored(b).at(1, 7),
            &PieceKind::Knight.colored(b).at(6, 7),
        );
        self.add_four(
            &PieceKind::Bishop.colored(w).at(2, 0),
            &PieceKind::Bishop.colored(w).at(5, 0),
            &PieceKind::Bishop.colored(b).at(2, 7),
            &PieceKind::Bishop.colored(b).at(5, 7),
        );
        self.add_four(
            &PieceKind::Queen.colored(w).at(3, 0),
            &PieceKind::King.colored(w).at(4, 0),
            &PieceKind::Queen.colored(b).at(3, 7),
            &PieceKind::King.colored(b).at(4, 7),
        );
    }

    fn add_four(&mut self, first: &PieceOnBoard, second: &PieceOnBoard, third: &PieceOnBoard, fourth: &PieceOnBoard)
        requires
            old(self).wf(),
            old(self)@.pieces.free.len() >= 4,
            first.square.on_board() && second.square.on_board() && third.square.on_board() && fourth.square.on_board(),
            old(self)@.is_empty_at(first.square),
            old(self)@.is_empty_at(second.square),
            old(self)@.is_empty_at(third.square),
            old(self)@.is_empty_at(fourth.square),
            first.square != second.square && first.square != third.square && first.square != fourth.square,
            second.square != third.square && second.square != fourth.square && third.square != fourth.square,
        ensures
            final(self).wf(),
            final(self).side == old(self).side,
            final(self).en_passant == old(self).en_passant,
            final(self)@.pieces.free.len() == old(self)@.pieces.free.len() - 4,
            forall|q: Square| #[trigger]
                final(self)@.piece_at(q) == if q == first.square {
                    Some(first.piece)
                } else if q == second.square {
                    Some(second.piece)
                } else if q == third.square {
                    Some(third.piece)
                } else if q == fourth.square {
                    Some(fourth.piece)
                } else {
                    old(self)@.piece_at(q)
                },
    {
        self.add_piece(first);
        self.add_piece(second);
        self.add_piece(third);
        self.add_piece(fourth);
    }

    /// Add each of `pieces`, in order. Their squares are on the board, distinct and free,
    /// and there are enough free slots.
    pub fn add_pieces(&mut self, pieces: &Vec<PieceOnBoard>)
        requires
            old(self).wf(),
            pieces@.len() <= old(self)@.pieces.free.len(),
            forall|i: int| 0 <= i < pieces@.len() ==> #[trigger] pieces@[i].square.on_board(),
            forall|i: int| 0 <= i < pieces@.len() ==> old(self)@.is_empty_at(#[trigger] pieces@[i].square),
            forall|i: int, k: int|
                0 <= i < k < pieces@.len() ==> #[trigger] pieces@[i].square != #[trigger] pieces@[k].square,
        ensures
            final(self).wf(),
            final(self).side == old(self).side,
            final(self).en_passant == old(self).en_passant,
            final(self).castle_rights == old(self).castle_rights,
            final(self)@.pieces.free.len() == old(self)@.pieces.free.len() - pieces@.len(),
            forall|i: int| 0 <= i < pieces@.len() ==> final(self)@.piece_at(#[trigger] pieces@[i].square) == Some(pieces@[i].piece),
            forall|q: Square|
                (forall|i: int| 0 <= i < pieces@.len() ==> #[trigger] pieces@[i].square != q) ==> #[trigger] final(self)@.piece_at(q) == old(self)@.piece_at(q),
    {
        let mut k: usize = 0;
        while k < pieces.len()
            invariant
                self.wf(),
                k <= pieces@.len(),
                self.side == old(self).side,
                self.en_passant == old(self).en_passant,
                self.castle_rights == old(self).castle_rights,
                pieces@.len() <= old(self)@.pieces.free.len(),
                self@.pieces.free.len() == old(self)@.pieces.free.len() - k,
                forall|i: int| 0 <= i < pieces@.len() ==> #[trigger] pieces@[i].square.on_board(),
                forall|i: int| 0 <= i < pieces@.len() ==> old(self)@.is_empty_at(#[trigger] pieces@[i].square),
                forall|i: int, kk: int|
                    0 <= i < kk < pieces@.len() ==> #[trigger] pieces@[i].square != #[trigger] pieces@[kk].square,
                forall|i: int| 0 <= i < k ==> self@.piece_at(#[trigger] pieces@[i].square) == Some(pieces@[i].piece),
                forall|q: Square|
                    (forall|i: int| 0 <= i < k ==> #[trigger] pieces@[i].square != q) ==> #[trigger] self@.piece_at(q) == old(self)@.piece_at(q),
            decreases pieces@.len() - k,
        {
            let p = pieces[k];
            assert(forall|i: int| 0 <= i < k ==> pieces@[i].square != pieces@[k as int].square);
            self.add_piece(&p);
            k = k + 1;
        }
    }

    pub fn add_piece(&mut self, piece: &PieceOnBoard)
        requires
            old(self).wf(),
            piece.square.on_board(),
            old(self)@.is_empty_at(piece.square),
            old(self)@.pieces.free.len() > 0,
        ensures
            final(self).wf(),
            final(self)@ == (BoardModel { pieces: old(self)@.pieces.add(*piece), ..old(self)@ }),
            forall|q: Square| #[trigger]
                final(self)@.piece_at(q) == if q == piece.square {
                    Some(piece.piece)
                } else {
                    old(self)@.piece_at(q)
                },
    {
        proof {
            lemma_add(self.pieces@, *piece);
        }
        self.pieces.add(piece);
    }

    pub fn remove_piece(&mut self, square: &Square)
        requires
            old(self).wf(),
            old(self)@.piece_at(*square).is_some(),
        ensures
            final(self).wf(),
            final(self)@ == (BoardModel { pieces: old(self)@.pieces.remove(*square), ..old(self)@ }),
            forall|q: Square| #[trigger]
                final(self)@.piece_at(q) == if q == *square {
                    None
                } else {
                    old(self)@.piece_at(q)
                },
    {
        proof {
            lemma_remove(self.pieces@, *square);
        }
        self.pieces.remove(square);
    }

    fn is_current(&self, m: &Move) -> (r: bool)
        ensures
            r == self@.is_current(*m),
    {
        let ep_same = match (m.en_passant_before, self.en_passant) {
            (Some(a), Some(b)) => a == b,
            (None, None) => true,
            _ => false,
        };
        ep_same && m.castle_rights_before == self.castle_rights
    }

    /// The king of a castle move goes from its home square to its landing square on a back
    /// rank.
    fn castle_squares_ok(m: &Move) -> (r: bool)
        requires
            m.castle.is_some(),
        ensures
            r == {
                &&& (m.from.y == 0 || m.from.y == 7)
                &&& m.from.x == 4
                &&& m.to == (Square { x: king_landing_file(m.castle.unwrap()), y: m.from.y })
            },
    {
        let file: i8 = match m.castle {
            Some(Castle::KingSide) => 6,
            _ => 2,
        };
        (m.from.y == 0 || m.from.y == 7) && m.from.x == 4 && m.to == Square::at(file, m.from.y)
    }

    fn castle_rook_squares(m: &Move) -> (r: (Square, Square))
        requires
            m.castle.is_some(),
        ensures
            r.0 == rook_home(m.castle.unwrap(), m.from.y),
            r.1 == rook_landing(m.castle.unwrap(), m.from.y),
    {
        match m.castle {
            Some(Castle::KingSide) => (Square::at(7, m.from.y), Square::at(5, m.from.y)),
            _ => (Square::at(0, m.from.y), Square::at(3, m.from.y)),
        }
    }

    fn matches_move(&self, m: &Move) -> (r: bool)
        requires
            self.wf(),
        ensures
            r == self@.matches_move(*m),
    {
        if !m.from.is_on_board() || !m.to.is_on_board() || m.from == m.to {
            return false;
        }
        match self.piece_at(m.from) {
            Some(p) => {
                if p.kind != m.piece_kind {
                    return false;
                }
            },
            None => {
                return false;
            },
        }
        match m.capture {
            Some(c) => {
                if !c.square.is_on_board() || c.square == m.from {
                    return false;
                }
                match self.piece_at(c.square) {
                    Some(p) => {
                        if p != c.piece {
                            return false;
                        }
                    },
                    None => {
                        return false;
                    },
                }
                if c.square != m.to && self.has_piece_at(m.to) {
                    return false;
                }
            },
            None => {
                if self.has_piece_at(m.to) {
                    return false;
                }
            },
        }
        if m.castle.is_some() {
            if m.capture.is_some() {
                return false;
            }
            let (rook_from, rook_to) = Board::castle_rook_squares(m);
            if !Board::castle_squares_ok(m) {
                return false;
            }
            match self.piece_at(rook_from) {
                Some(p) => {
                    if p.kind != PieceKind::Rook {
                        return false;
                    }
                },
                None => {
                    return false;
                },
            }
            if self.has_piece_at(rook_to) {
                return false;
            }
        }
        true
    }

    fn matches_revert(&self, m: &Move) -> (r: bool)
        requires
            self.wf(),
        ensures
            r == self@.can_revert(*m),
    {
        if !m.from.is_on_board() || !m.to.is_on_board() || m.from == m.to {
            return false;
        }
        let landing = match m.promotion {
            Some(k) => k,
            None => m.piece_kind,
        };
        match self.piece_at(m.to) {
            Some(p) => {
                if p.kind != landing {
                    return false;
                }
            },
            None => {
                return false;
            },
        }
        if self.has_piece_at(m.from) {
            return false;
        }
        if m.castle.is_some() {
            if m.capture.is_some() {
                return false;
            }
            let (rook_from, rook_to) = Board::castle_rook_squares(m);
            if !Board::castle_squares_ok(m) {
                return false;
            }
            match self.piece_at(rook_to) {
                Some(p) => {
                    if p.kind != PieceKind::Rook {
                        return false;
                    }
                },
                None => {
                    return false;
                },
            }
            if self.has_piece_at(rook_from) {
                return false;
            }
        }
        match m.capture {
            Some(c) => {
                if !c.square.is_on_board() || c.square == m.from {
                    return false;
                }
                if c.square != m.to && self.has_piece_at(c.square) {
                    return false;
                }
                if self.pieces.free_count() == 0 {
                    return false;
                }
            },
            None => {},
        }
        true
    }

    /// Move the pieces of `m`: for castling, the rook's own move first, then the mover.
    fn apply_move_impl(&mut self, m: Move)
        requires
            old(self).wf(),
            movable(old(self)@.pieces, m),
        ensures
            final(self).wf(),
            final(self)@ == (BoardModel { pieces: move_pieces(old(self)@.pieces, m), ..old(self)@ }),
        decreases
            if m.castle.is_some() {
                1nat
            } else {
                0nat
            },
    {
        proof {
            lemma_move_pieces(self.pieces@, m);
        }
        if let Some(castle) = m.castle {
            let rook_move = Move::rook_castle(self, castle, m.from.rank());
            self.apply_move_impl(rook_move);
        }
        let landing = match m.promotion {
            Some(k) => k,
            None => m.piece_kind,
        };
        proof {
            if let Some(cs) = m.castle {
                lemma_relocate(old(self)@.pieces, rook_home(cs, m.from.y), rook_landing(cs, m.from.y), PieceKind::Rook);
            }
        }
        self.pieces.relocate(&m.from, &m.to, landing);
    }

    /// Move the pieces of `m` back: for castling, the rook's own move first, then the mover.
    fn revert_move_impl(&mut self, m: Move)
        requires
            old(self).wf(),
            unmovable(old(self)@.pieces, m),
        ensures
            final(self).wf(),
            final(self)@ == (BoardModel { pieces: unmove_pieces(old(self)@.pieces, m), ..old(self)@ }),
        decreases
            if m.castle.is_some() {
                1nat
            } else {
                0nat
            },
    {
        proof {
            lemma_unmove_pieces(self.pieces@, m);
        }
        if let Some(castle) = m.castle {
            let rook_move = Move::rook_castle(self, castle, m.from.rank());
            self.revert_move_impl(rook_move);
        }
        proof {
            if let Some(cs) = m.castle {
                lemma_relocate(old(self)@.pieces, rook_landing(cs, m.from.y), rook_home(cs, m.from.y), PieceKind::Rook);
            }
        }
        self.pieces.relocate(&m.to, &m.from, m.piece_kind);
    }

    /// Play `m` on the board. It is refused, and the board left as it was, when the move was
    /// made from a board with another en-passant target or other castle rights, or when the
    /// pieces on the board are not those the move speaks of.
    pub fn apply_move(&mut self, m: Move) -> (r: Result<(), MoveError>)
        requires
            old(self).wf(),
        ensures
            final(self).wf(),
            r is Ok <==> old(self)@.can_apply(m),
            r is Ok ==> final(self)@ == old(self)@.apply(m),
            r is Err ==> final(self)@ == old(self)@,
            r == Err::<(), MoveError>(MoveError::StaleMove) <==> !old(self)@.is_current(m),
    {
        if !self.is_current(&m) {
            return Err(MoveError::StaleMove);
        }
        if !self.matches_move(&m) {
            return Err(MoveError::Mismatch);
        }
        proof {
            lemma_capture_then_movable(self@, m);
        }
        if let Some(capture) = m.capture {
            self.pieces.remove(&capture.square);
        }
        self.apply_move_impl(m);
        self.en_passant = m.en_passant_after;
        self.castle_rights = m.castle_rights_after(self.side);
        self.side = self.side.switch();
        Ok(())
    }

    /// Take `m` back. It is refused, and the board left as it was, when the board is not one
    /// that `m` leads to.
    pub fn revert_move(&mut self, m: Move) -> (r: Result<(), MoveError>)
        requires
            old(self).wf(),
        ensures
            final(self).wf(),
            r is Ok <==> old(self)@.can_revert(m),
            r is Ok ==> final(self)@ == old(self)@.revert(m),
            r is Err ==> final(self)@ == old(self)@ && r == Err::<(), MoveError>(MoveError::Mismatch),
    {
        if !self.matches_revert(&m) {
            return Err(MoveError::Mismatch);
        }
        proof {
            lemma_unmove_pieces(self@.pieces, m);
        }
        self.revert_move_impl(m);
        if let Some(capture) = m.capture {
            self.pieces.add(&capture);
        }
        self.side = self.side.switch();
        self.en_passant = m.en_passant_before;
        self.castle_rights = m.castle_rights_before;
        Ok(())
    }

    /// The square of `color`'s king (the first one in slot order), if it has one.
    pub fn king_square(&self, color: Color) -> (r: Option<Square>)
        requires
            self.wf(),
        ensures
            r == self@.king_square(color),
            r.is_some() ==> r.unwrap().on_board(),
    {
        let mut j: usize = 0;
        while j < SLOT_COUNT
            invariant
                self.wf(),
                j <= SLOT_COUNT,
                self@.king_square(color) == self@.king_square_from(color, j as int),
            decreases SLOT_COUNT - j,
        {
            if let Some(entry) = self.pieces.slot(j) {
                if entry.piece.kind == PieceKind::King && entry.piece.color == color {
                    return Some(entry.square);
                }
            }
            j = j + 1;
        }
        None
    }

    /// Same side to move, en-passant target, castle rights and the same piece on every
    /// square, whatever slots hold them.
    pub fn semantic_eq(&self, other: &Self) -> (r: bool)
        ensures
            r == self@.same_position(other@),
    {
        if self.side != other.side || self.castle_rights != other.castle_rights {
            return false;
        }
        let ep_same = match (self.en_passant, other.en_passant) {
            (Some(a), Some(b)) => a == b,
            (None, None) => true,
            _ => false,
        };
        if !ep_same {
            return false;
        }
        let mut i: usize = 0;
        while i < 64
            invariant
                i <= 64,
                forall|k: int| 0 <= k < i ==> #[trigger] self@.pieces.piece_on(k) == other@.pieces.piece_on(k),
            decreases 64 - i,
        {
            if self.pieces.piece_on(i) != other.pieces.piece_on(i) {
                return false;
            }
            i = i + 1;
        }
        true
    }

    /// The side to move has no moves.
    pub fn is_game_over(&mut self) -> (r: bool)
        requires
            old(self).wf(),
        ensures
            *final(self) == *old(self),
            r == (crate::move_generation::generated(old(self)@).len() == 0),
    {
        crate::move_generation::generate_moves(self).len() == 0
    }

    pub fn piece_at(&self, square: Square) -> (r: Option<Piece>)
        requires
            self.wf(),
        ensures
            r == self@.piece_at(square),
    {
        self.pieces.piece_at(&square)
    }

    pub fn has_piece_at(&self, square: Square) -> (r: bool)
        requires
            self.wf(),
        ensures
            r == self@.piece_at(square).is_some(),
    {
        self.pieces.piece_at(&square).is_some()
    }
}

impl PartialEq for Board {
    /// Boards are equal when they hold the same position (see `semantic_eq`).
    fn eq(&self, other: &Board) -> (r: bool) {
        self.semantic_eq(other)
    }
}

impl vstd::std_specs::cmp::PartialEqSpecImpl for Board {
    open spec fn obeys_eq_spec() -> bool {
        true
    }

    open spec fn eq_spec(&self, other: &Board) -> bool {
        self@.same_position(other@)
    }
}

} // verus!
