//! A game in progress: the board, whose turn it is, which piece is selected
//! and how many games each side has won.

use vstd::prelude::*;
use crate::board::{
    held_by, index_at, lemma_held_by, lemma_index_at, opening_layout, stands_on, valid_position,
    Board,
};
use crate::piece::{Cell, Piece, PieceKind, Side};
use crate::rules::{rule_allows, validate_move};

verus! {

/// How many games each side has won.
#[derive(Clone, Copy, Debug, PartialEq, Eq, Structural)]
pub struct MatchScore {
    pub red_wins: u32,
    pub black_wins: u32,
}

/// What became of an attempt to move.
#[derive(Clone, Copy, Debug, PartialEq, Eq)]
pub enum MoveOutcome {
    /// The move was refused; the board is as it was.
    Illegal,
    /// The move was made; `captured` is the kind of the piece it took, if any.
    Legal { captured: Option<PieceKind> },
    /// The move took the opposing king: `winner` has won, and a new game has
    /// been set up.
    GameOver { winner: Side },
}

/// What became of a click on a cell.
#[derive(Clone, Copy, Debug, PartialEq, Eq)]
pub enum ClickOutcome {
    /// No piece was selected before the click.  `piece` is the piece that the
    /// click selected, if it hit one of the side to move.
    Selected { piece: Option<usize> },
    /// A piece was selected before the click, and tried to move to the cell.
    Moved { outcome: MoveOutcome },
}

/// The pieces after the piece with index `source` has moved to `target` and
/// taken what stood there.
pub open spec fn after_move(pieces: Seq<Piece>, source: int, target: Cell) -> Seq<Piece> {
    let moved = pieces.update(source, Piece { position: target, ..pieces[source] });
    match index_at(pieces, target) {
        Some(taken) => moved.remove(taken),
        None => moved,
    }
}

/// A selection as a mathematical index.
pub open spec fn as_index(piece_ref: Option<usize>) -> Option<int> {
    match piece_ref {
        Some(i) => Some(i as int),
        None => None,
    }
}

/// The state of a game as a mathematical value.
pub struct GameView {
    pub pieces: Seq<Piece>,
    pub active_side: Side,
    pub selected: Option<int>,
    pub red_wins: nat,
    pub black_wins: nat,
}

impl GameView {
    /// A fresh game: the opening position, Red to move, nothing selected, no
    /// game won.
    pub open spec fn opening() -> GameView {
        GameView {
            pieces: opening_layout(),
            active_side: Side::Red,
            selected: None,
            red_wins: 0,
            black_wins: 0,
        }
    }

    /// The invariant of every game: the position is valid, and a selected
    /// piece is on the board and belongs to the side to move.
    pub open spec fn wf(self) -> bool {
        &&& valid_position(self.pieces)
        &&& self.selected matches Some(i) ==> 0 <= i < self.pieces.len() && self.pieces[i].side
            == self.active_side
    }

    /// The number of games that `side` has won.
    pub open spec fn wins(self, side: Side) -> nat {
        match side {
            Side::Red => self.red_wins,
            Side::Black => self.black_wins,
        }
    }

    /// The piece with index `source` may move to `target`: it is on the
    /// board and belongs to the side to move, `target` lies on the grid, the
    /// rule of the piece's kind allows the move, and no piece of its own side
    /// stands on `target`.
    pub open spec fn legal(self, source: int, target: Cell) -> bool {
        &&& 0 <= source < self.pieces.len()
        &&& target.on_board()
        &&& self.pieces[source].side == self.active_side
        &&& rule_allows(self.pieces, self.pieces[source], target)
        &&& !held_by(self.pieces, target.x as int, target.y as int, self.active_side)
    }

    /// What an attempt to move the piece with index `source` to `target`
    /// comes to.
    pub open spec fn outcome(self, source: int, target: Cell) -> MoveOutcome {
        if !self.legal(source, target) {
            MoveOutcome::Illegal
        } else {
            match index_at(self.pieces, target) {
                None => MoveOutcome::Legal { captured: None },
                Some(taken) => if self.pieces[taken].kind == PieceKind::King {
                    MoveOutcome::GameOver { winner: self.active_side }
                } else {
                    MoveOutcome::Legal { captured: Some(self.pieces[taken].kind) }
                },
            }
        }
    }

    /// The game after an attempt to move the piece with index `source` to
    /// `target`.  A refused move changes nothing but the selection, which is
    /// cleared.  A move that is made relocates the piece, takes what stood on
    /// `target` and passes the turn.  A move that takes a king counts a win
    /// for the mover and sets up the opening position with Red to move.
    pub open spec fn step(self, source: int, target: Cell) -> GameView {
        match self.outcome(source, target) {
            MoveOutcome::Illegal => GameView { selected: None, ..self },
            MoveOutcome::Legal { .. } => GameView {
                pieces: after_move(self.pieces, source, target),
                active_side: self.active_side.other(),
                selected: None,
                ..self
            },
            MoveOutcome::GameOver { winner } => GameView {
                pieces: opening_layout(),
                active_side: Side::Red,
                selected: None,
                red_wins: if winner == Side::Red {
                    self.red_wins + 1
                } else {
                    self.red_wins
                },
                black_wins: if winner == Side::Black {
                    self.black_wins + 1
                } else {
                    self.black_wins
                },
            },
        }
    }

    /// The win that the attempt would count, if any, fits the tally.
    pub open spec fn tally_fits(self, source: int, target: Cell) -> bool {
        self.outcome(source, target) matches MoveOutcome::GameOver { winner } ==> self.wins(winner)
            < u32::MAX
    }

    /// The piece that a click on `cell` selects: the one that stands there,
    /// if it belongs to the side to move.
    pub open spec fn selectable(self, cell: Cell) -> Option<int> {
        match index_at(self.pieces, cell) {
            Some(i) => if self.pieces[i].side == self.active_side {
                Some(i)
            } else {
                None
            },
            None => None,
        }
    }

    /// The game after a click on `cell`: with a piece selected, that piece
    /// tries to move there; with none, the click selects.
    pub open spec fn click_step(self, cell: Cell) -> GameView {
        match self.selected {
            Some(source) => self.step(source, cell),
            None => GameView { selected: self.selectable(cell), ..self },
        }
    }
}

/// A game in progress.
pub struct Game {
    board: Board,
    active_side: Side,
    selected: Option<usize>,
    score: MatchScore,
}

impl View for Game {
    type V = GameView;

    closed spec fn view(&self) -> GameView {
        GameView {
            pieces: self.board@,
            active_side: self.active_side,
            selected: as_index(self.selected),
            red_wins: self.score.red_wins as nat,
            black_wins: self.score.black_wins as nat,
        }
    }
}

impl Game {
    /// The invariant of every game.
    pub open spec fn wf(&self) -> bool {
        self@.wf()
    }

    /// A fresh game.
    pub fn new() -> (game: Game)
        ensures
            game@ == GameView::opening(),
            game.wf(),
    {
        Game {
            board: Board::new(),
            active_side: Side::Red,
            selected: None,
            score: MatchScore { red_wins: 0, black_wins: 0 },
        }
    }

    /// A game that starts from the position on `board`, with `active_side`
    /// to move, nothing selected and no game won.
    pub fn with_board(board: Board, active_side: Side) -> (game: Game)
        requires
            board.wf(),
        ensures
            game@ == (GameView {
                pieces: board@,
                active_side,
                selected: None,
                red_wins: 0,
                black_wins: 0,
            }),
            game.wf(),
    {
        Game { board, active_side, selected: None, score: MatchScore { red_wins: 0, black_wins: 0 } }
    }

    /// The board.
    pub fn board(&self) -> (board: &Board)
        ensures
            board@ == self@.pieces,
            self.wf() ==> board.wf(),
    {
        &self.board
    }

    /// The side to move.
    pub fn active_side(&self) -> (side: Side)
        ensures
            side == self@.active_side,
    {
        self.active_side
    }

    /// The index of the selected piece, if one is selected.
    pub fn selected(&self) -> (piece_ref: Option<usize>)
        ensures
            as_index(piece_ref) == self@.selected,
    {
        self.selected
    }

    /// The games won so far.
    pub fn score(&self) -> (score: MatchScore)
        ensures
            score.red_wins == self@.red_wins,
            score.black_wins == self@.black_wins,
    {
        self.score
    }

    /// The piece that a click on `cell` would select: the one that stands
    /// there, if it belongs to the side to move.
    pub fn select(&self, cell: Cell) -> (piece_ref: Option<usize>)
        requires
            self.wf(),
        ensures
            as_index(piece_ref) == self@.selectable(cell),
    {
        match self.board.piece_at(cell) {
            Some(i) => {
                proof {
                    lemma_held_by(self.board@, cell, self.active_side);
                }
                match self.board.get(i) {
                    Some(piece) => if piece.owned_by(self.active_side) {
                        Some(i)
                    } else {
                        None
                    },
                    None => None,
                }
            },
            None => None,
        }
    }

    /// Tries to move the piece with index `source` to `target`.
    ///
    /// The attempt is refused if there is no such piece, if it does not belong
    /// to the side to move, if `target` lies off the grid, if the rule of the
    /// piece's kind forbids the move, or if a piece of the same side stands on
    /// `target`.  Otherwise the piece moves and takes what stood on `target`.
    /// Taking a king ends the game.  Whatever the outcome, the selection is
    /// cleared.
    ///
    /// If the move takes a king, the mover's tally of wins must have room for
    /// one more.
    pub fn attempt_move(&mut self, source: usize, target: Cell) -> (outcome: MoveOutcome)
        requires
            old(self).wf(),
            old(self)@.tally_fits(source as int, target),
        ensures
            outcome == old(self)@.outcome(source as int, target),
            final(self)@ == old(self)@.step(source as int, target),
            final(self).wf(),
    {
        let ghost before = self@;
        self.selected = None;
        let piece = match self.board.get(source) {
            Some(piece) => piece,
            None => {
                return MoveOutcome::Illegal;
            },
        };
        if !target.is_on_board() {
            return MoveOutcome::Illegal;
        }
        if !validate_move(&piece, target, &self.board, self.active_side) {
            return MoveOutcome::Illegal;
        }
        proof {
            lemma_held_by(before.pieces, target, before.active_side);
        }
        let taken = match self.board.piece_at(target) {
            Some(taken) => taken,
            None => {
                self.board.relocate(source, target);
                self.active_side = self.active_side.opponent();
                return MoveOutcome::Legal { captured: None };
            },
        };
        let victim = match self.board.get(taken) {
            Some(victim) => victim,
            None => {
                return MoveOutcome::Illegal;
            },
        };
        if victim.owned_by(piece.side) {
            return MoveOutcome::Illegal;
        }
        match victim.kind {
            PieceKind::King => {
                match piece.side {
                    Side::Red => {
                        self.score.red_wins = self.score.red_wins + 1;
                    },
                    Side::Black => {
                        self.score.black_wins = self.score.black_wins + 1;
                    },
                }
                self.board.reset();
                self.active_side = Side::Red;
                MoveOutcome::GameOver { winner: piece.side }
            },
            _ => {
                self.board.remove(taken);
                let moved = if taken < source {
                    source - 1
                } else {
                    source
                };
                proof {
                    let rest = before.pieces.remove(taken as int);
                    assert forall|k: int|
                        stands_on(rest, k, target.x as int, target.y as int) implies k == moved by {
                        let from = if k < taken { k } else { k + 1 };
                        assert(rest[k] == before.pieces[from]);
                        assert(stands_on(before.pieces, from, target.x as int, target.y as int));
                        lemma_index_at(before.pieces, from, target);
                    }
                }
                self.board.relocate(moved, target);
                self.active_side = self.active_side.opponent();
                assert(self.board@ =~= after_move(before.pieces, source as int, target));
                MoveOutcome::Legal { captured: Some(victim.kind) }
            },
        }
    }

    /// Handles a click on `cell`.  With a piece selected, that piece tries to
    /// move to `cell`, on the terms of [`Game::attempt_move`]; with none, the
    /// click selects the piece on `cell` if it belongs to the side to move.
    pub fn click(&mut self, cell: Cell) -> (r: ClickOutcome)
        requires
            old(self).wf(),
            old(self)@.selected matches Some(source) ==> old(self)@.tally_fits(source, cell),
        ensures
            final(self)@ == old(self)@.click_step(cell),
            final(self).wf(),
            match old(self)@.selected {
                Some(source) => r == (ClickOutcome::Moved {
                    outcome: old(self)@.outcome(source, cell),
                }),
                None => r matches ClickOutcome::Selected { piece } && as_index(piece) == old(
                    self,
                )@.selectable(cell),
            },
    {
        match self.selected {
            Some(source) => {
                let outcome = self.attempt_move(source, cell);
                ClickOutcome::Moved { outcome }
            },
            None => {
                let piece = self.select(cell);
                proof {
                    lemma_held_by(self.board@, cell, self.active_side);
                }
                self.selected = piece;
                ClickOutcome::Selected { piece }
            },
        }
    }
}

} // verus!
