//! What holds of every game, stated over the mathematical state of a game
//! and proved from the definitions of the rules and of a move.

use vstd::prelude::*;
use crate::board::{
    held_by, index_at, lemma_held_by, lemma_index_at, lemma_opening_valid, occupant, occupied,
    opening_layout, opening_piece, stands_on, valid_position,
};
use crate::game::{after_move, GameView, MoveOutcome};
use crate::piece::{Cell, Piece, PieceKind, Side, RIVER};
use crate::rules::{path_clear, sole_screen, strictly_between};

verus! {

/// A move that lands on a cell of the grid where the mover itself does not
/// stand turns a valid position into a valid position: whatever stood on the
/// cell is taken off, so the mover has the cell to itself.
pub proof fn lemma_after_move_valid(pieces: Seq<Piece>, source: int, target: Cell)
    requires
        valid_position(pieces),
        0 <= source < pieces.len(),
        target.on_board(),
        index_at(pieces, target) != Some(source),
    ensures
        valid_position(after_move(pieces, source, target)),
        after_move(pieces, source, target).len() == if index_at(pieces, target) is Some {
            pieces.len() - 1
        } else {
            pieces.len() as int
        },
{
    let x = target.x as int;
    let y = target.y as int;
    let moved = pieces.update(source, Piece { position: target, ..pieces[source] });
    let after = after_move(pieces, source, target);
    assert forall|k: int| k != source && stands_on(pieces, k, x, y) implies index_at(pieces, target)
        == Some(k) by {
        lemma_index_at(pieces, k, target);
    }
    match index_at(pieces, target) {
        None => {
            assert forall|i: int, j: int| 0 <= i < j < after.len() implies after[i].position
                != after[j].position by {
                if i == source {
                    assert(!stands_on(pieces, j, x, y));
                } else if j == source {
                    assert(!stands_on(pieces, i, x, y));
                } else {
                    assert(pieces[i].position != pieces[j].position);
                }
            }
        },
        Some(taken) => {
            assert(stands_on(pieces, taken, x, y));
            assert forall|i: int| 0 <= i < after.len() implies (#[trigger] after[i]).position.on_board() by {
                let from = if i < taken { i } else { i + 1 };
                assert(after[i] == moved[from]);
                if from != source {
                    assert(pieces[from].position.on_board());
                }
            }
            assert forall|i: int, j: int| 0 <= i < j < after.len() implies after[i].position
                != after[j].position by {
                let from_i = if i < taken { i } else { i + 1 };
                let from_j = if j < taken { j } else { j + 1 };
                assert(after[i] == moved[from_i]);
                assert(after[j] == moved[from_j]);
                if from_i == source {
                    assert(!stands_on(pieces, from_j, x, y));
                } else if from_j == source {
                    assert(!stands_on(pieces, from_i, x, y));
                } else {
                    assert(pieces[from_i].position != pieces[from_j].position);
                }
            }
        },
    }
}

/// No two pieces ever share a cell: an attempt to move, whatever comes of
/// it, leads from a valid game to a valid game.
pub proof fn lemma_step_keeps_valid(game: GameView, source: int, target: Cell)
    requires
        game.wf(),
    ensures
        game.step(source, target).wf(),
{
    lemma_opening_valid();
    if game.legal(source, target) {
        lemma_held_by(game.pieces, target, game.active_side);
        lemma_after_move_valid(game.pieces, source, target);
    }
}

/// A click leads from a valid game to a valid game.
pub proof fn lemma_click_keeps_valid(game: GameView, cell: Cell)
    requires
        game.wf(),
    ensures
        game.click_step(cell).wf(),
{
    match game.selected {
        Some(source) => {
            lemma_step_keeps_valid(game, source, cell);
        },
        None => {
            lemma_held_by(game.pieces, cell, game.active_side);
        },
    }
}

/// An attempt to move: the index of the piece and the cell it is to land on.
pub struct Attempt {
    pub source: int,
    pub target: Cell,
}

/// The game after the attempts of `attempts` have been made in turn.
pub open spec fn play(start: GameView, attempts: Seq<Attempt>) -> GameView
    decreases attempts.len(),
{
    if attempts.len() == 0 {
        start
    } else {
        play(start, attempts.drop_last()).step(attempts.last().source, attempts.last().target)
    }
}

/// What comes of the `k`-th attempt of `attempts`, made after those before it.
pub open spec fn outcome_at(start: GameView, attempts: Seq<Attempt>, k: int) -> MoveOutcome {
    play(start, attempts.take(k)).outcome(attempts[k].source, attempts[k].target)
}

/// The side to move after `n` turns have passed from `side`.
pub open spec fn side_after(side: Side, n: nat) -> Side {
    if n % 2 == 0 {
        side
    } else {
        side.other()
    }
}

/// No two pieces ever share a cell, whatever is attempted from a valid game.
pub proof fn lemma_play_keeps_valid(start: GameView, attempts: Seq<Attempt>)
    requires
        start.wf(),
    ensures
        play(start, attempts).wf(),
    decreases attempts.len(),
{
    if attempts.len() > 0 {
        lemma_play_keeps_valid(start, attempts.drop_last());
        lemma_step_keeps_valid(
            play(start, attempts.drop_last()),
            attempts.last().source,
            attempts.last().target,
        );
    }
}

/// The turn passes with every move that is made and with no other attempt:
/// after a refused attempt the same side is to move, after a move the other
/// side, and after a move that took a king Red.  A win is counted for the
/// side that took the king, once, and at no other time.
pub proof fn lemma_turn_passes(game: GameView, source: int, target: Cell)
    ensures
        match game.outcome(source, target) {
            MoveOutcome::Illegal => {
                &&& game.step(source, target).active_side == game.active_side
                &&& game.step(source, target).pieces == game.pieces
                &&& game.step(source, target).red_wins == game.red_wins
                &&& game.step(source, target).black_wins == game.black_wins
            },
            MoveOutcome::Legal { .. } => {
                &&& game.step(source, target).active_side == game.active_side.other()
                &&& game.step(source, target).red_wins == game.red_wins
                &&& game.step(source, target).black_wins == game.black_wins
            },
            MoveOutcome::GameOver { winner } => {
                &&& winner == game.active_side
                &&& game.step(source, target).active_side == Side::Red
                &&& game.step(source, target).pieces == opening_layout()
                &&& game.step(source, target).wins(winner) == game.wins(winner) + 1
                &&& game.step(source, target).wins(winner.other()) == game.wins(winner.other())
            },
        },
        game.step(source, target).selected is None,
{
}

/// In a run of attempts none of which is refused, the side to move after each
/// is the other side than before it, unless the move took a king: then it is
/// Red.
pub proof fn lemma_turns_alternate(start: GameView, attempts: Seq<Attempt>)
    requires
        forall|k: int|
            0 <= k < attempts.len() ==> !(#[trigger] outcome_at(start, attempts, k)
                is Illegal),
    ensures
        forall|k: int|
            0 <= k < attempts.len() ==> play(start, attempts.take(k + 1)).active_side == if (
            #[trigger] outcome_at(start, attempts, k)) is GameOver {
                Side::Red
            } else {
                play(start, attempts.take(k)).active_side.other()
            },
{
    assert forall|k: int| 0 <= k < attempts.len() implies play(
        start,
        attempts.take(k + 1),
    ).active_side == if (#[trigger] outcome_at(start, attempts, k)) is GameOver {
        Side::Red
    } else {
        play(start, attempts.take(k)).active_side.other()
    } by {
        let upto = attempts.take(k + 1);
        assert(upto.drop_last() =~= attempts.take(k));
        assert(upto.last() == attempts[k]);
    }
}

/// In a run of moves none of which is refused or takes a king, the sides move
/// in strict alternation: after `n` moves the side to move is the one that
/// began if `n` is even, the other if `n` is odd.
pub proof fn lemma_turns_alternate_strictly(start: GameView, attempts: Seq<Attempt>)
    requires
        forall|k: int|
            0 <= k < attempts.len() ==> #[trigger] outcome_at(start, attempts, k) is Legal,
    ensures
        play(start, attempts).active_side == side_after(start.active_side, attempts.len()),
    decreases attempts.len(),
{
    if attempts.len() > 0 {
        let before = attempts.drop_last();
        let n = before.len() as int;
        assert forall|k: int| 0 <= k < before.len() implies #[trigger] outcome_at(start, before, k)
            is Legal by {
            assert(before.take(k) =~= attempts.take(k));
            assert(outcome_at(start, attempts, k) is Legal);
        }
        lemma_turns_alternate_strictly(start, before);
        assert(attempts.take(n) =~= before);
        assert(outcome_at(start, attempts, n) is Legal);
    }
}

/// A chariot never passes over a piece: an attempt to move one along a file
/// or rank on which a piece stands between it and the landing cell is
/// refused.
pub proof fn lemma_chariot_blocked(game: GameView, source: int, target: Cell, x: int, y: int)
    requires
        0 <= source < game.pieces.len(),
        game.pieces[source].kind == PieceKind::Chariot,
        strictly_between(game.pieces[source].position, target, x, y),
        occupied(game.pieces, x, y),
    ensures
        game.outcome(source, target) == MoveOutcome::Illegal,
        game.step(source, target).pieces == game.pieces,
{
}

/// A cannon of the side to move, with exactly one piece between it and a
/// cell of its file or rank, may move there exactly when a piece of the other
/// side stands on that cell.
pub proof fn lemma_cannon_over_one_screen(
    game: GameView,
    source: int,
    target: Cell,
    x: int,
    y: int,
)
    requires
        game.wf(),
        0 <= source < game.pieces.len(),
        game.pieces[source].kind == PieceKind::Cannon,
        game.pieces[source].side == game.active_side,
        sole_screen(game.pieces, game.pieces[source].position, target, x, y),
    ensures
        game.legal(source, target) <==> held_by(
            game.pieces,
            target.x as int,
            target.y as int,
            game.active_side.other(),
        ),
        game.outcome(source, target) is Illegal <==> !held_by(
            game.pieces,
            target.x as int,
            target.y as int,
            game.active_side.other(),
        ),
{
    lemma_held_by(game.pieces, target, game.active_side);
    lemma_held_by(game.pieces, target, game.active_side.other());
    if let Some(i) = index_at(game.pieces, target) {
        assert(game.pieces[i].position.on_board());
    }
}

/// A cannon of the side to move, with no piece between it and a cell of its
/// file or rank, may move there exactly when the cell lies on the grid and is
/// empty: without a screen a cannon takes nothing.
pub proof fn lemma_cannon_without_screen(game: GameView, source: int, target: Cell)
    requires
        0 <= source < game.pieces.len(),
        game.pieces[source].kind == PieceKind::Cannon,
        game.pieces[source].side == game.active_side,
        game.pieces[source].position.x == target.x || game.pieces[source].position.y == target.y,
        path_clear(game.pieces, game.pieces[source].position, target),
    ensures
        game.legal(source, target) <==> target.on_board() && !occupied(
            game.pieces,
            target.x as int,
            target.y as int,
        ),
{
    if held_by(game.pieces, target.x as int, target.y as int, game.active_side) {
        let i = choose|i: int| #[trigger]
            stands_on(game.pieces, i, target.x as int, target.y as int) && game.pieces[i].side
                == game.active_side;
        assert(stands_on(game.pieces, i, target.x as int, target.y as int));
    }
}

/// A cannon never passes over two pieces: an attempt to move one along a
/// file or rank on which two pieces stand between it and the landing cell is
/// refused.
pub proof fn lemma_cannon_over_two_screens(
    game: GameView,
    source: int,
    target: Cell,
    first: (int, int),
    second: (int, int),
)
    requires
        0 <= source < game.pieces.len(),
        game.pieces[source].kind == PieceKind::Cannon,
        first != second,
        strictly_between(game.pieces[source].position, target, first.0, first.1),
        strictly_between(game.pieces[source].position, target, second.0, second.1),
        occupied(game.pieces, first.0, first.1),
        occupied(game.pieces, second.0, second.1),
    ensures
        game.outcome(source, target) == MoveOutcome::Illegal,
{
}

/// Guards and kings never leave the palace of their side: an attempt to
/// move one to a cell outside it is refused, whatever the shape of the step.
pub proof fn lemma_palace_confinement(game: GameView, source: int, target: Cell)
    requires
        0 <= source < game.pieces.len(),
        game.pieces[source].kind == PieceKind::Guard || game.pieces[source].kind
            == PieceKind::King,
        !target.in_palace(game.pieces[source].side),
    ensures
        game.outcome(source, target) == MoveOutcome::Illegal,
{
}

/// Elephants never cross the river: an attempt to move one from one bank to
/// the other is refused, whether or not the cell it would pass over is empty.
pub proof fn lemma_elephant_stays_on_bank(game: GameView, source: int, target: Cell)
    requires
        0 <= source < game.pieces.len(),
        game.pieces[source].kind == PieceKind::Elephant,
        (game.pieces[source].position.y < RIVER) != (target.y < RIVER),
    ensures
        game.outcome(source, target) == MoveOutcome::Illegal,
{
}

/// Soldiers never retreat: an attempt to move a Black soldier to a lower
/// rank, or a Red soldier to a higher one, is refused.
pub proof fn lemma_soldier_never_retreats(game: GameView, source: int, target: Cell)
    requires
        0 <= source < game.pieces.len(),
        game.pieces[source].kind == PieceKind::Soldier,
        match game.pieces[source].side {
            Side::Black => target.y < game.pieces[source].position.y,
            Side::Red => target.y > game.pieces[source].position.y,
        },
    ensures
        game.outcome(source, target) == MoveOutcome::Illegal,
{
}

/// A soldier that has not crossed the river moves straight ahead or not at
/// all.
pub proof fn lemma_soldier_before_river(game: GameView, source: int, target: Cell)
    requires
        0 <= source < game.pieces.len(),
        game.pieces[source].kind == PieceKind::Soldier,
        match game.pieces[source].side {
            Side::Black => game.pieces[source].position.y < RIVER,
            Side::Red => game.pieces[source].position.y >= RIVER,
        },
        game.legal(source, target),
    ensures
        target.x == game.pieces[source].position.x,
        match game.pieces[source].side {
            Side::Black => target.y == game.pieces[source].position.y + 1,
            Side::Red => target.y == game.pieces[source].position.y - 1,
        },
{
}

/// What a move that is made does to the board, cell by cell: the mover
/// stands on the landing cell, the cell it left is empty, and every other cell
/// holds what it held.  The board has one piece fewer exactly when the move
/// took one.
pub proof fn lemma_move_effect(game: GameView, source: int, target: Cell, cell: Cell)
    requires
        game.wf(),
        game.outcome(source, target) is Legal,
    ensures
        game.outcome(source, target) == (MoveOutcome::Legal {
            captured: match occupant(game.pieces, target) {
                Some(taken) => Some(taken.kind),
                None => None,
            },
        }),
        game.step(source, target).pieces.len() == if occupant(game.pieces, target) is Some {
            game.pieces.len() - 1
        } else {
            game.pieces.len() as int
        },
        occupant(game.step(source, target).pieces, cell) == if cell == target {
            Some(Piece { position: target, ..game.pieces[source] })
        } else if cell == game.pieces[source].position {
            None
        } else {
            occupant(game.pieces, cell)
        },
{
    lemma_held_by(game.pieces, target, game.active_side);
    lemma_after_move_valid(game.pieces, source, target);
    lemma_after_move_effect(game.pieces, source, target, cell);
}

/// What relocating a piece and taking what stood on its landing cell does to
/// a position, cell by cell.
pub proof fn lemma_after_move_effect(pieces: Seq<Piece>, source: int, target: Cell, cell: Cell)
    requires
        valid_position(pieces),
        0 <= source < pieces.len(),
        target.on_board(),
        index_at(pieces, target) != Some(source),
    ensures
        occupant(after_move(pieces, source, target), cell) == if cell == target {
            Some(Piece { position: target, ..pieces[source] })
        } else if cell == pieces[source].position {
            None
        } else {
            occupant(pieces, cell)
        },
{
    let after = after_move(pieces, source, target);
    let moved = pieces.update(source, Piece { position: target, ..pieces[source] });
    let taken = index_at(pieces, target);
    let x = cell.x as int;
    let y = cell.y as int;
    lemma_after_move_valid(pieces, source, target);
    if let Some(t) = taken {
        assert(stands_on(pieces, t, target.x as int, target.y as int));
    }
    // Where the piece with index `i` of the position before stands after.
    let to = |i: int| if taken is Some && taken->0 < i { i - 1 } else { i };
    // Where the piece with index `k` of the position after stood before.
    let from = |k: int| if taken is Some && taken->0 <= k { k + 1 } else { k };
    assert forall|k: int| 0 <= k < after.len() implies after[k] == moved[from(k)] && 0 <= from(k)
        < pieces.len() && Some(from(k)) != taken by {}
    if cell == target {
        assert(after[to(source)] == moved[source]);
        assert(stands_on(after, to(source), x, y));
        lemma_index_at(after, to(source), cell);
    } else if occupied(after, x, y) {
        let k = choose|k: int| #[trigger] stands_on(after, k, x, y);
        lemma_index_at(after, k, cell);
        assert(after[k] == moved[from(k)]);
        assert(from(k) != source);
        assert(stands_on(pieces, from(k), x, y));
        lemma_index_at(pieces, from(k), cell);
    } else if occupied(pieces, x, y) {
        let i = choose|i: int| #[trigger] stands_on(pieces, i, x, y);
        lemma_index_at(pieces, i, cell);
        if i != source {
            assert(Some(i) != taken);
            assert(after[to(i)] == moved[i]);
            assert(stands_on(after, to(i), x, y));
        }
    }
}

/// The piece with index `i` is the king of `side`.
pub open spec fn is_king_of(pieces: Seq<Piece>, i: int, side: Side) -> bool {
    0 <= i < pieces.len() && pieces[i].kind == PieceKind::King && pieces[i].side == side
}

/// The piece with index `i` is the king of `side`, and `side` has no other.
pub open spec fn sole_king(pieces: Seq<Piece>, i: int, side: Side) -> bool {
    &&& is_king_of(pieces, i, side)
    &&& forall|j: int| #[trigger] is_king_of(pieces, j, side) ==> j == i
}

/// Each side has exactly one king.
pub open spec fn kings_in_place(pieces: Seq<Piece>) -> bool {
    &&& exists|i: int| #[trigger] sole_king(pieces, i, Side::Red)
    &&& exists|i: int| #[trigger] sole_king(pieces, i, Side::Black)
}

/// In the opening position each side has exactly one king, and every piece
/// stands in its own camp: Black's on ranks 0 to 3, Red's on ranks 6 to 9.
pub proof fn lemma_opening_camps()
    ensures
        kings_in_place(opening_layout()),
        forall|i: int|
            0 <= i < 32 ==> match (#[trigger] opening_layout()[i]).side {
                Side::Black => i < 16 && opening_layout()[i].position.y <= 3,
                Side::Red => i >= 16 && 6 <= opening_layout()[i].position.y <= 9,
            },
{
    let l = opening_layout();
    assert forall|i: int| 0 <= i < 32 implies l[i] == if i < 16 {
        opening_piece(Side::Black, i)
    } else {
        opening_piece(Side::Red, i - 16)
    } by {}
    assert(sole_king(l, 4, Side::Black));
    assert(sole_king(l, 20, Side::Red));
}

/// While a game lasts each side has exactly one king: if that holds before
/// an attempt to move, it holds after it.  (A move that takes a king sets up
/// the opening position.)
pub proof fn lemma_kings_stay(game: GameView, source: int, target: Cell)
    requires
        game.wf(),
        kings_in_place(game.pieces),
    ensures
        kings_in_place(game.step(source, target).pieces),
{
    lemma_opening_camps();
    if game.outcome(source, target) is Legal {
        lemma_kings_stay_for(game, source, target, Side::Red);
        lemma_kings_stay_for(game, source, target, Side::Black);
    }
}

proof fn lemma_kings_stay_for(game: GameView, source: int, target: Cell, side: Side)
    requires
        game.wf(),
        game.outcome(source, target) is Legal,
        exists|i: int| #[trigger] sole_king(game.pieces, i, side),
    ensures
        exists|i: int| #[trigger] sole_king(after_move(game.pieces, source, target), i, side),
{
    let pieces = game.pieces;
    let after = after_move(pieces, source, target);
    let moved = pieces.update(source, Piece { position: target, ..pieces[source] });
    let taken = index_at(pieces, target);
    let king = choose|i: int| #[trigger] sole_king(pieces, i, side);
    lemma_held_by(pieces, target, game.active_side);
    let to = |i: int| if taken is Some && taken->0 < i { i - 1 } else { i };
    let from = |k: int| if taken is Some && taken->0 <= k { k + 1 } else { k };
    assert(Some(king) != taken);
    assert(after[to(king)] == moved[king]);
    assert(is_king_of(after, to(king), side));
    assert forall|j: int| #[trigger] is_king_of(after, j, side) implies j == to(king) by {
        assert(after[j] == moved[from(j)]);
        assert(is_king_of(pieces, from(j), side));
    }
    assert(sole_king(after, to(king), side));
}

} // verus!
