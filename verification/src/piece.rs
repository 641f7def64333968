//! Cells, sides, kinds and pieces.

use vstd::prelude::*;

verus! {

/// Number of files (columns) of the board.
pub const FILES: usize = 9;

/// Number of ranks (rows) of the board.
pub const RANKS: usize = 10;

/// The first rank on Red's side of the river.
pub const RIVER: usize = 5;

/// One of the two players.
#[derive(Clone, Copy, Debug, PartialEq, Eq, Structural)]
pub enum Side {
    Red,
    Black,
}

impl Side {
    /// The other player.
    pub open spec fn other(self) -> Side {
        match self {
            Side::Red => Side::Black,
            Side::Black => Side::Red,
        }
    }

    /// The other player.
    pub fn opponent(self) -> (r: Side)
        ensures
            r == self.other(),
    {
        match self {
            Side::Red => Side::Black,
            Side::Black => Side::Red,
        }
    }
}

/// What a piece is; the rule by which it moves depends on this alone.
#[derive(Clone, Copy, Debug, PartialEq, Eq, Structural)]
pub enum PieceKind {
    Chariot,
    Horse,
    Elephant,
    Guard,
    King,
    Cannon,
    Soldier,
}

/// An intersection of the grid: `x` counts files from the left, `y` counts
/// ranks from the top.
#[derive(Clone, Copy, Debug, PartialEq, Eq, Structural)]
pub struct Cell {
    pub x: usize,
    pub y: usize,
}

impl Cell {
    /// The cell lies on the 9 x 10 grid.
    pub open spec fn on_board(self) -> bool {
        self.x < FILES && self.y < RANKS
    }

    /// The cell lies in the 3 x 3 palace of `side`.
    pub open spec fn in_palace(self, side: Side) -> bool {
        &&& 3 <= self.x <= 5
        &&& match side {
            Side::Black => self.y <= 2,
            Side::Red => 7 <= self.y <= 9,
        }
    }

    pub fn new(x: usize, y: usize) -> (c: Cell)
        ensures
            c.x == x,
            c.y == y,
    {
        Cell { x, y }
    }

    /// Whether the cell lies on the board.
    pub fn is_on_board(&self) -> (r: bool)
        ensures
            r == self.on_board(),
    {
        self.x < FILES && self.y < RANKS
    }

    /// Whether the cell lies in the palace of `side`.
    pub fn is_in_palace(&self, side: Side) -> (r: bool)
        ensures
            r == self.in_palace(side),
    {
        let files = 3 <= self.x && self.x <= 5;
        match side {
            Side::Black => files && self.y <= 2,
            Side::Red => files && 7 <= self.y && self.y <= 9,
        }
    }
}

/// A piece on the board.
#[derive(Clone, Copy, Debug, PartialEq, Eq, Structural)]
pub struct Piece {
    pub position: Cell,
    pub kind: PieceKind,
    pub side: Side,
}

/// The character drawn for a piece of `kind` that belongs to `side`.
pub open spec fn glyph_of(kind: PieceKind, side: Side) -> char {
    match (kind, side) {
        (PieceKind::Chariot, _) => '\u{8f66}',
        (PieceKind::Horse, _) => '\u{9a6c}',
        (PieceKind::Cannon, _) => '\u{70ae}',
        (PieceKind::Elephant, Side::Red) => '\u{8c61}',
        (PieceKind::Elephant, Side::Black) => '\u{76f8}',
        (PieceKind::Guard, Side::Red) => '\u{4ed5}',
        (PieceKind::Guard, Side::Black) => '\u{58eb}',
        (PieceKind::King, Side::Red) => '\u{5e05}',
        (PieceKind::King, Side::Black) => '\u{5c06}',
        (PieceKind::Soldier, Side::Red) => '\u{5352}',
        (PieceKind::Soldier, Side::Black) => '\u{5175}',
    }
}

impl Piece {
    pub fn new(x: usize, y: usize, kind: PieceKind, side: Side) -> (p: Piece)
        ensures
            p == (Piece { position: Cell { x, y }, kind, side }),
    {
        Piece { position: Cell { x, y }, kind, side }
    }

    /// Whether the piece belongs to `side`.
    pub fn owned_by(&self, side: Side) -> (r: bool)
        ensures
            r == (self.side == side),
    {
        self.side == side
    }

    /// The character to draw for the piece.
    pub fn glyph(&self) -> (c: char)
        ensures
            c == glyph_of(self.kind, self.side),
    {
        match (self.kind, self.side) {
            (PieceKind::Chariot, _) => '\u{8f66}',
            (PieceKind::Horse, _) => '\u{9a6c}',
            (PieceKind::Cannon, _) => '\u{70ae}',
            (PieceKind::Elephant, Side::Red) => '\u{8c61}',
            (PieceKind::Elephant, Side::Black) => '\u{76f8}',
            (PieceKind::Guard, Side::Red) => '\u{4ed5}',
            (PieceKind::Guard, Side::Black) => '\u{58eb}',
            (PieceKind::King, Side::Red) => '\u{5e05}',
            (PieceKind::King, Side::Black) => '\u{5c06}',
            (PieceKind::Soldier, Side::Red) => '\u{5352}',
            (PieceKind::Soldier, Side::Black) => '\u{5175}',
        }
    }
}

} // verus!
