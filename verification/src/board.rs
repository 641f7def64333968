//! The pieces that stand on the board, and the operations that look them up,
//! move them and take them off.

use vstd::prelude::*;
use crate::piece::{Cell, Piece, PieceKind, Side};

verus! {

/// The piece with index `i` stands on the intersection `(x, y)`.
pub open spec fn stands_on(pieces: Seq<Piece>, i: int, x: int, y: int) -> bool {
    0 <= i < pieces.len() && pieces[i].position.x == x && pieces[i].position.y == y
}

/// Some piece stands on the intersection `(x, y)`.
pub open spec fn occupied(pieces: Seq<Piece>, x: int, y: int) -> bool {
    exists|i: int| #[trigger] stands_on(pieces, i, x, y)
}

/// A piece of `side` stands on the intersection `(x, y)`.
pub open spec fn held_by(pieces: Seq<Piece>, x: int, y: int, side: Side) -> bool {
    exists|i: int| #[trigger] stands_on(pieces, i, x, y) && pieces[i].side == side
}

/// Every piece stands on the grid.
pub open spec fn all_on_board(pieces: Seq<Piece>) -> bool {
    forall|i: int| 0 <= i < pieces.len() ==> (#[trigger] pieces[i]).position.on_board()
}

/// No two pieces share a cell.
pub open spec fn no_shared_cell(pieces: Seq<Piece>) -> bool {
    forall|i: int, j: int|
        #![trigger pieces[i], pieces[j]]
        0 <= i < j < pieces.len() ==> pieces[i].position != pieces[j].position
}

/// What holds of the pieces of every board: all of them stand on the grid,
/// and no two of them on one cell.
pub open spec fn valid_position(pieces: Seq<Piece>) -> bool {
    all_on_board(pieces) && no_shared_cell(pieces)
}

/// The index of the piece that stands on `cell`, if there is one.  Among the
/// pieces of a valid position at most one index qualifies, see
/// [`lemma_index_at`].
pub open spec fn index_at(pieces: Seq<Piece>, cell: Cell) -> Option<int> {
    if occupied(pieces, cell.x as int, cell.y as int) {
        Some(choose|i: int| #[trigger] stands_on(pieces, i, cell.x as int, cell.y as int))
    } else {
        None
    }
}

/// In a valid position the piece on a cell is found by any index that stands
/// there.
pub proof fn lemma_index_at(pieces: Seq<Piece>, i: int, cell: Cell)
    requires
        no_shared_cell(pieces),
        stands_on(pieces, i, cell.x as int, cell.y as int),
    ensures
        index_at(pieces, cell) == Some(i),
{
    let k = choose|k: int| #[trigger] stands_on(pieces, k, cell.x as int, cell.y as int);
    if k < i {
        assert(pieces[k].position != pieces[i].position);
    } else if i < k {
        assert(pieces[i].position != pieces[k].position);
    }
}

/// In a valid position a piece of `side` stands on a cell exactly when the
/// one piece that is found there belongs to `side`.
pub proof fn lemma_held_by(pieces: Seq<Piece>, cell: Cell, side: Side)
    requires
        no_shared_cell(pieces),
    ensures
        held_by(pieces, cell.x as int, cell.y as int, side) <==> (index_at(pieces, cell) matches Some(
            i,
        ) && pieces[i].side == side),
        index_at(pieces, cell) matches Some(i) ==> stands_on(
            pieces,
            i,
            cell.x as int,
            cell.y as int,
        ),
{
    let x = cell.x as int;
    let y = cell.y as int;
    if held_by(pieces, x, y, side) {
        let i = choose|i: int| #[trigger] stands_on(pieces, i, x, y) && pieces[i].side == side;
        lemma_index_at(pieces, i, cell);
    }
    if let Some(i) = index_at(pieces, cell) {
        assert(stands_on(pieces, i, x, y));
    }
}

/// The piece that stands on `cell`, if there is one: the board read as a
/// partial map from cells to pieces, whatever the order of its pieces.
pub open spec fn occupant(pieces: Seq<Piece>, cell: Cell) -> Option<Piece> {
    match index_at(pieces, cell) {
        Some(i) => Some(pieces[i]),
        None => None,
    }
}

/// The kind that starts on file `x` of a side's home rank.
pub open spec fn home_rank_kind(x: int) -> PieceKind {
    if x == 0 || x == 8 {
        PieceKind::Chariot
    } else if x == 1 || x == 7 {
        PieceKind::Horse
    } else if x == 2 || x == 6 {
        PieceKind::Elephant
    } else if x == 3 || x == 5 {
        PieceKind::Guard
    } else {
        PieceKind::King
    }
}

/// The `k`-th of the sixteen pieces with which `side` opens: nine on its home
/// rank, two cannons two ranks before it, five soldiers three ranks before it.
/// Black's home rank is rank 0, Red's is rank 9.
pub open spec fn opening_piece(side: Side, k: int) -> Piece {
    let (x, depth, kind) = if k < 9 {
        (k, 0int, home_rank_kind(k))
    } else if k < 11 {
        (6 * (k - 9) + 1, 2int, PieceKind::Cannon)
    } else {
        (2 * (k - 11), 3int, PieceKind::Soldier)
    };
    let y = match side {
        Side::Black => depth,
        Side::Red => 9 - depth,
    };
    Piece { position: Cell { x: x as usize, y: y as usize }, kind, side }
}

/// The sixteen pieces with which `side` opens.
pub open spec fn opening_army(side: Side) -> Seq<Piece> {
    Seq::new(16, |k: int| opening_piece(side, k))
}

/// The thirty-two pieces of the opening position, Black's before Red's.
pub open spec fn opening_layout() -> Seq<Piece> {
    opening_army(Side::Black) + opening_army(Side::Red)
}

/// The opening position is a valid one.
pub proof fn lemma_opening_valid()
    ensures
        opening_layout().len() == 32,
        valid_position(opening_layout()),
{
    let l = opening_layout();
    assert forall|i: int| 0 <= i < l.len() implies (#[trigger] l[i]).position.on_board() by {
        if i < 16 {
            assert(l[i] == opening_piece(Side::Black, i));
        } else {
            assert(l[i] == opening_piece(Side::Red, i - 16));
        }
    }
    assert forall|i: int, j: int| 0 <= i < j < l.len() implies l[i].position != l[j].position by {
        if i < 16 {
            assert(l[i] == opening_piece(Side::Black, i));
        } else {
            assert(l[i] == opening_piece(Side::Red, i - 16));
        }
        if j < 16 {
            assert(l[j] == opening_piece(Side::Black, j));
        } else {
            assert(l[j] == opening_piece(Side::Red, j - 16));
        }
    }
}

/// Appends the sixteen pieces with which `side` opens.
fn push_army(pieces: &mut Vec<Piece>, side: Side)
    ensures
        final(pieces)@ == old(pieces)@ + opening_army(side),
{
    let (home, guns, front): (usize, usize, usize) = match side {
        Side::Black => (0, 2, 3),
        Side::Red => (9, 7, 6),
    };
    pieces.push(Piece::new(0, home, PieceKind::Chariot, side));
    pieces.push(Piece::new(1, home, PieceKind::Horse, side));
    pieces.push(Piece::new(2, home, PieceKind::Elephant, side));
    pieces.push(Piece::new(3, home, PieceKind::Guard, side));
    pieces.push(Piece::new(4, home, PieceKind::King, side));
    pieces.push(Piece::new(5, home, PieceKind::Guard, side));
    pieces.push(Piece::new(6, home, PieceKind::Elephant, side));
    pieces.push(Piece::new(7, home, PieceKind::Horse, side));
    pieces.push(Piece::new(8, home, PieceKind::Chariot, side));
    pieces.push(Piece::new(1, guns, PieceKind::Cannon, side));
    pieces.push(Piece::new(7, guns, PieceKind::Cannon, side));
    pieces.push(Piece::new(0, front, PieceKind::Soldier, side));
    pieces.push(Piece::new(2, front, PieceKind::Soldier, side));
    pieces.push(Piece::new(4, front, PieceKind::Soldier, side));
    pieces.push(Piece::new(6, front, PieceKind::Soldier, side));
    pieces.push(Piece::new(8, front, PieceKind::Soldier, side));
    assert(pieces@ =~= old(pieces)@ + opening_army(side));
}

/// The pieces of the opening position.
pub fn get_initial_pieces() -> (pieces: Vec<Piece>)
    ensures
        pieces@ == opening_layout(),
{
    let mut pieces: Vec<Piece> = Vec::new();
    push_army(&mut pieces, Side::Black);
    push_army(&mut pieces, Side::Red);
    assert(pieces@ =~= opening_layout());
    pieces
}

/// The pieces that stand on the board.
pub struct Board {
    pieces: Vec<Piece>,
}

impl View for Board {
    type V = Seq<Piece>;

    closed spec fn view(&self) -> Seq<Piece> {
        self.pieces@
    }
}

impl Board {
    /// The invariant of every board.
    pub open spec fn wf(&self) -> bool {
        valid_position(self@)
    }

    /// A board in the opening position.
    pub fn new() -> (board: Board)
        ensures
            board@ == opening_layout(),
            board.wf(),
    {
        proof {
            lemma_opening_valid();
        }
        Board { pieces: get_initial_pieces() }
    }

    /// A board that holds `pieces`, if they form a valid position.
    pub fn from_pieces(pieces: Vec<Piece>) -> (r: Option<Board>)
        ensures
            r is Some <==> valid_position(pieces@),
            r matches Some(board) ==> board@ == pieces@ && board.wf(),
    {
        let n = pieces.len();
        let mut i: usize = 0;
        while i < n
            invariant
                n == pieces.len(),
                i <= n,
                forall|k: int| 0 <= k < i ==> (#[trigger] pieces[k]).position.on_board(),
                forall|k: int, l: int|
                    #![trigger pieces[k], pieces[l]]
                    0 <= k < l < i ==> pieces[k].position != pieces[l].position,
            decreases n - i,
        {
            if !pieces[i].position.is_on_board() {
                return None;
            }
            let mut j: usize = 0;
            while j < i
                invariant
                    n == pieces.len(),
                    j <= i < n,
                    forall|k: int|
                        0 <= k < j ==> (#[trigger] pieces[k]).position != pieces[i as int].position,
                decreases i - j,
            {
                if pieces[j].position == pieces[i].position {
                    return None;
                }
                j += 1;
            }
            i += 1;
        }
        Some(Board { pieces })
    }

    /// The number of pieces on the board.
    pub fn len(&self) -> (n: usize)
        ensures
            n == self@.len(),
    {
        self.pieces.len()
    }

    /// The piece with index `piece_ref`, if there is one.
    pub fn get(&self, piece_ref: usize) -> (r: Option<Piece>)
        ensures
            r == if piece_ref < self@.len() {
                Some(self@[piece_ref as int])
            } else {
                None
            },
    {
        if piece_ref < self.pieces.len() {
            Some(self.pieces[piece_ref])
        } else {
            None
        }
    }

    /// All the pieces, each at its index.
    pub fn pieces(&self) -> (pieces: &Vec<Piece>)
        ensures
            pieces@ == self@,
    {
        &self.pieces
    }

    /// Whether a piece stands on `cell`.
    pub fn is_occupied(&self, cell: Cell) -> (r: bool)
        ensures
            r == occupied(self@, cell.x as int, cell.y as int),
    {
        let n = self.pieces.len();
        let mut i: usize = 0;
        while i < n
            invariant
                n == self.pieces.len(),
                i <= n,
                forall|k: int| 0 <= k < i ==> !stands_on(self.pieces@, k, cell.x as int, cell.y as int),
            decreases n - i,
        {
            if self.pieces[i].position == cell {
                assert(stands_on(self.pieces@, i as int, cell.x as int, cell.y as int));
                return true;
            }
            i += 1;
        }
        false
    }

    /// The index of the piece that stands on `cell`, if there is one.
    pub fn piece_at(&self, cell: Cell) -> (r: Option<usize>)
        requires
            self.wf(),
        ensures
            match r {
                Some(i) => index_at(self@, cell) == Some(i as int),
                None => index_at(self@, cell) is None,
            },
    {
        let n = self.pieces.len();
        let mut i: usize = 0;
        while i < n
            invariant
                self.wf(),
                n == self.pieces.len(),
                i <= n,
                forall|k: int| 0 <= k < i ==> !stands_on(self.pieces@, k, cell.x as int, cell.y as int),
            decreases n - i,
        {
            if self.pieces[i].position == cell {
                proof {
                    lemma_index_at(self.pieces@, i as int, cell);
                }
                return Some(i);
            }
            i += 1;
        }
        None
    }

    /// Puts the piece with index `piece_ref` on `new_cell`.  Whether the move
    /// obeys the piece's rule is not looked at here; only the board's own
    /// invariant is asked for: the cell lies on the grid and no other piece
    /// stands on it.
    pub fn relocate(&mut self, piece_ref: usize, new_cell: Cell)
        requires
            old(self).wf(),
            piece_ref < old(self)@.len(),
            new_cell.on_board(),
            forall|k: int|
                stands_on(old(self)@, k, new_cell.x as int, new_cell.y as int) ==> k == piece_ref,
        ensures
            final(self)@ == old(self)@.update(
                piece_ref as int,
                Piece { position: new_cell, ..old(self)@[piece_ref as int] },
            ),
            final(self).wf(),
    {
        let piece = self.pieces[piece_ref];
        self.pieces.set(piece_ref, Piece { position: new_cell, kind: piece.kind, side: piece.side });
        proof {
            let before = old(self)@;
            let after = self@;
            assert forall|i: int, j: int| 0 <= i < j < after.len() implies after[i].position
                != after[j].position by {
                if i == piece_ref {
                    assert(!stands_on(before, j, new_cell.x as int, new_cell.y as int));
                } else if j == piece_ref {
                    assert(!stands_on(before, i, new_cell.x as int, new_cell.y as int));
                } else {
                    assert(before[i].position != before[j].position);
                }
            }
        }
    }

    /// Takes the piece with index `piece_ref` off the board.  The pieces
    /// behind it move up by one index.
    pub fn remove(&mut self, piece_ref: usize) -> (taken: Piece)
        requires
            old(self).wf(),
            piece_ref < old(self)@.len(),
        ensures
            taken == old(self)@[piece_ref as int],
            final(self)@ == old(self)@.remove(piece_ref as int),
            final(self).wf(),
    {
        let taken = self.pieces.remove(piece_ref);
        proof {
            lemma_remove_valid(old(self)@, piece_ref as int);
        }
        taken
    }

    /// Puts the board back into the opening position.
    pub fn reset(&mut self)
        ensures
            final(self)@ == opening_layout(),
            final(self).wf(),
    {
        proof {
            lemma_opening_valid();
        }
        self.pieces = get_initial_pieces();
    }
}

/// Taking a piece off a valid position leaves a valid position.
pub proof fn lemma_remove_valid(pieces: Seq<Piece>, i: int)
    requires
        valid_position(pieces),
        0 <= i < pieces.len(),
    ensures
        valid_position(pieces.remove(i)),
{
    let rest = pieces.remove(i);
    assert forall|k: int| 0 <= k < rest.len() implies (#[trigger] rest[k]).position.on_board() by {
        let from = if k < i { k } else { k + 1 };
        assert(rest[k] == pieces[from]);
    }
    assert forall|k: int, l: int| 0 <= k < l < rest.len() implies rest[k].position
        != rest[l].position by {
        let from_k = if k < i { k } else { k + 1 };
        let from_l = if l < i { l } else { l + 1 };
        assert(rest[k] == pieces[from_k]);
        assert(rest[l] == pieces[from_l]);
        assert(pieces[from_k].position != pieces[from_l].position);
    }
}

} // verus!
