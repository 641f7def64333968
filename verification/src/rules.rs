//! The rule by which each kind of piece moves.
//!
//! A rule looks at the cell a piece leaves, the cell it lands on and the cells
//! between them.  It never asks whose piece stands on the landing cell: that
//! is decided where a move is carried out.

use vstd::prelude::*;
use crate::board::{occupied, Board};
use crate::piece::{Cell, Piece, PieceKind, Side, RIVER};

verus! {

/// The distance between two coordinates.
pub open spec fn gap(a: usize, b: usize) -> int {
    if a <= b {
        b - a
    } else {
        a - b
    }
}

/// The smaller of two coordinates.
pub open spec fn lower(a: usize, b: usize) -> int {
    if a <= b {
        a as int
    } else {
        b as int
    }
}

/// The larger of two coordinates.
pub open spec fn upper(a: usize, b: usize) -> int {
    if a <= b {
        b as int
    } else {
        a as int
    }
}

/// The intersection `(x, y)` lies on the file or rank that joins `start` and
/// `target`, strictly between the two.
pub open spec fn strictly_between(start: Cell, target: Cell, x: int, y: int) -> bool {
    ||| start.x == target.x && x == start.x && lower(start.y, target.y) < y < upper(
        start.y,
        target.y,
    )
    ||| start.y == target.y && y == start.y && lower(start.x, target.x) < x < upper(
        start.x,
        target.x,
    )
}

/// No piece stands strictly between `start` and `target`.
pub open spec fn path_clear(pieces: Seq<Piece>, start: Cell, target: Cell) -> bool {
    forall|x: int, y: int|
        strictly_between(start, target, x, y) ==> !#[trigger] occupied(pieces, x, y)
}

/// The piece on `(x, y)` is the only one that stands strictly between `start`
/// and `target`.
pub open spec fn sole_screen(pieces: Seq<Piece>, start: Cell, target: Cell, x: int, y: int) -> bool {
    &&& strictly_between(start, target, x, y)
    &&& occupied(pieces, x, y)
    &&& forall|u: int, v: int|
        strictly_between(start, target, u, v) && (u != x || v != y) ==> !#[trigger] occupied(
            pieces,
            u,
            v,
        )
}

/// A chariot moves any distance along a file or a rank, over empty cells only.
pub open spec fn chariot_rule(pieces: Seq<Piece>, start: Cell, target: Cell) -> bool {
    &&& (start.x == target.x) != (start.y == target.y)
    &&& path_clear(pieces, start, target)
}

/// A horse moves two cells along one axis and one along the other; the cell
/// next to it along the longer axis, its leg, must be empty.
pub open spec fn horse_rule(pieces: Seq<Piece>, start: Cell, target: Cell) -> bool {
    let dx = gap(start.x, target.x);
    let dy = gap(start.y, target.y);
    ||| dx == 2 && dy == 1 && !occupied(pieces, (start.x + target.x) / 2, start.y as int)
    ||| dx == 1 && dy == 2 && !occupied(pieces, start.x as int, (start.y + target.y) / 2)
}

/// An elephant moves two cells diagonally, stays on its side of the river,
/// and the cell it passes over must be empty.
pub open spec fn elephant_rule(pieces: Seq<Piece>, start: Cell, target: Cell) -> bool {
    &&& gap(start.x, target.x) == 2
    &&& gap(start.y, target.y) == 2
    &&& (start.y < RIVER) == (target.y < RIVER)
    &&& !occupied(pieces, (start.x + target.x) / 2, (start.y + target.y) / 2)
}

/// A guard moves one cell diagonally and lands inside its side's palace.
pub open spec fn guard_rule(start: Cell, target: Cell, side: Side) -> bool {
    &&& gap(start.x, target.x) == 1
    &&& gap(start.y, target.y) == 1
    &&& target.in_palace(side)
}

/// A king moves one cell along a file or a rank and lands inside its side's
/// palace.
pub open spec fn king_rule(start: Cell, target: Cell, side: Side) -> bool {
    &&& gap(start.x, target.x) + gap(start.y, target.y) == 1
    &&& target.in_palace(side)
}

/// A cannon moves along a file or a rank.  Over empty cells it lands on an
/// empty cell; over exactly one piece, its screen, it lands on an occupied
/// cell; over more it does not pass.
pub open spec fn cannon_rule(pieces: Seq<Piece>, start: Cell, target: Cell) -> bool {
    let landing = occupied(pieces, target.x as int, target.y as int);
    &&& start.x == target.x || start.y == target.y
    &&& if landing {
        exists|x: int, y: int| sole_screen(pieces, start, target, x, y)
    } else {
        path_clear(pieces, start, target)
    }
}

/// The soldier of `side` that stands on rank `y` has crossed the river.
pub open spec fn across_river(y: usize, side: Side) -> bool {
    match side {
        Side::Black => y >= RIVER,
        Side::Red => y < RIVER,
    }
}

/// The step from `start` to `target` is one cell straight ahead for `side`:
/// Black advances towards higher ranks, Red towards lower ones.
pub open spec fn one_step_forward(start: Cell, target: Cell, side: Side) -> bool {
    &&& start.x == target.x
    &&& match side {
        Side::Black => target.y == start.y + 1,
        Side::Red => target.y == start.y - 1,
    }
}

/// A soldier moves one cell forward; once across the river it may instead
/// move one cell sideways.
pub open spec fn soldier_rule(start: Cell, target: Cell, side: Side) -> bool {
    ||| one_step_forward(start, target, side)
    ||| across_river(start.y, side) && start.y == target.y && gap(start.x, target.x) == 1
}

/// The rule of `piece`'s kind lets it move to `target`.
pub open spec fn rule_allows(pieces: Seq<Piece>, piece: Piece, target: Cell) -> bool {
    match piece.kind {
        PieceKind::Chariot => chariot_rule(pieces, piece.position, target),
        PieceKind::Horse => horse_rule(pieces, piece.position, target),
        PieceKind::Elephant => elephant_rule(pieces, piece.position, target),
        PieceKind::Guard => guard_rule(piece.position, target, piece.side),
        PieceKind::King => king_rule(piece.position, target, piece.side),
        PieceKind::Cannon => cannon_rule(pieces, piece.position, target),
        PieceKind::Soldier => soldier_rule(piece.position, target, piece.side),
    }
}

/// Whether a piece stands on the `k`-th cell of a line: of the file `fixed`
/// if `along_file`, of the rank `fixed` otherwise.
spec fn line_occupied(pieces: Seq<Piece>, along_file: bool, fixed: int, k: int) -> bool {
    if along_file {
        occupied(pieces, fixed, k)
    } else {
        occupied(pieces, k, fixed)
    }
}

/// The number of occupied cells of a line whose coordinate along the line
/// lies strictly between `lo` and `hi`.
spec fn count_occupied(
    pieces: Seq<Piece>,
    along_file: bool,
    fixed: int,
    lo: int,
    hi: int,
) -> nat
    decreases hi - lo,
{
    if hi <= lo + 1 {
        0
    } else {
        count_occupied(pieces, along_file, fixed, lo, hi - 1) + if line_occupied(
            pieces,
            along_file,
            fixed,
            hi - 1,
        ) {
            1nat
        } else {
            0nat
        }
    }
}

/// The cell with coordinate `s` along a line is the one occupied cell of the
/// line between `lo` and `hi`.
spec fn only_screen(
    pieces: Seq<Piece>,
    along_file: bool,
    fixed: int,
    lo: int,
    hi: int,
    s: int,
) -> bool {
    &&& lo < s < hi
    &&& line_occupied(pieces, along_file, fixed, s)
    &&& forall|k: int|
        lo < k < hi && k != s ==> !#[trigger] line_occupied(pieces, along_file, fixed, k)
}

/// No cell of a stretch of a line is counted exactly when none is occupied.
proof fn lemma_count_none(pieces: Seq<Piece>, along_file: bool, fixed: int, lo: int, hi: int)
    ensures
        count_occupied(pieces, along_file, fixed, lo, hi) == 0 <==> forall|k: int|
            lo < k < hi ==> !#[trigger] line_occupied(pieces, along_file, fixed, k),
    decreases hi - lo,
{
    if hi > lo + 1 {
        lemma_count_none(pieces, along_file, fixed, lo, hi - 1);
        if count_occupied(pieces, along_file, fixed, lo, hi) == 0 {
            assert forall|k: int| lo < k < hi implies !#[trigger] line_occupied(
                pieces,
                along_file,
                fixed,
                k,
            ) by {
                if k == hi - 1 {
                }
            }
        } else if line_occupied(pieces, along_file, fixed, hi - 1) {
        } else {
            let k = choose|k: int|
                lo < k < hi - 1 && #[trigger] line_occupied(pieces, along_file, fixed, k);
            assert(line_occupied(pieces, along_file, fixed, k));
        }
    }
}

/// One cell of a stretch of a line is counted exactly when one cell of it is
/// occupied and no other.
proof fn lemma_count_one(pieces: Seq<Piece>, along_file: bool, fixed: int, lo: int, hi: int)
    ensures
        count_occupied(pieces, along_file, fixed, lo, hi) == 1 <==> exists|s: int|
            only_screen(pieces, along_file, fixed, lo, hi, s),
    decreases hi - lo,
{
    if hi > lo + 1 {
        let h = hi - 1;
        lemma_count_one(pieces, along_file, fixed, lo, h);
        lemma_count_none(pieces, along_file, fixed, lo, h);
        let last = line_occupied(pieces, along_file, fixed, h);
        let before = count_occupied(pieces, along_file, fixed, lo, h);
        if count_occupied(pieces, along_file, fixed, lo, hi) == 1 {
            if last {
                assert(only_screen(pieces, along_file, fixed, lo, hi, h));
            } else {
                let s = choose|s: int| only_screen(pieces, along_file, fixed, lo, h, s);
                assert(only_screen(pieces, along_file, fixed, lo, hi, s));
            }
        }
        if exists|s: int| only_screen(pieces, along_file, fixed, lo, hi, s) {
            let s = choose|s: int| only_screen(pieces, along_file, fixed, lo, hi, s);
            if s == h {
                assert(before == 0);
            } else {
                assert(!last);
                assert(only_screen(pieces, along_file, fixed, lo, h, s));
            }
        }
    }
}

/// The line that joins two cells of one file or rank: whether it is a file,
/// its number, and the coordinates along it of the two cells, the lower first.
spec fn line_through(start: Cell, target: Cell) -> (bool, int, int, int) {
    if start.x == target.x {
        (true, start.x as int, lower(start.y, target.y), upper(start.y, target.y))
    } else {
        (false, start.y as int, lower(start.x, target.x), upper(start.x, target.x))
    }
}

/// The number of occupied cells strictly between two cells of one file or
/// rank.
spec fn screens(pieces: Seq<Piece>, start: Cell, target: Cell) -> nat {
    let (along_file, fixed, lo, hi) = line_through(start, target);
    count_occupied(pieces, along_file, fixed, lo, hi)
}

/// Between two cells of one file or rank no screen is counted exactly when
/// the path between them is clear.
proof fn lemma_screens_none(pieces: Seq<Piece>, start: Cell, target: Cell)
    requires
        start.x == target.x || start.y == target.y,
    ensures
        screens(pieces, start, target) == 0 <==> path_clear(pieces, start, target),
{
    let (along_file, fixed, lo, hi) = line_through(start, target);
    lemma_count_none(pieces, along_file, fixed, lo, hi);
    if screens(pieces, start, target) == 0 {
        assert forall|x: int, y: int| strictly_between(start, target, x, y) implies !#[trigger] occupied(
            pieces,
            x,
            y,
        ) by {
            if along_file {
                assert(!line_occupied(pieces, along_file, fixed, y));
            } else {
                assert(!line_occupied(pieces, along_file, fixed, x));
            }
        }
    }
    if path_clear(pieces, start, target) {
        assert forall|k: int| lo < k < hi implies !#[trigger] line_occupied(
            pieces,
            along_file,
            fixed,
            k,
        ) by {
            if along_file {
                assert(strictly_between(start, target, fixed, k));
            } else {
                assert(strictly_between(start, target, k, fixed));
            }
        }
    }
}

/// Between two cells of one file or rank one screen is counted exactly when
/// one piece stands between them and no other.
proof fn lemma_screens_one(pieces: Seq<Piece>, start: Cell, target: Cell)
    requires
        start.x == target.x || start.y == target.y,
    ensures
        screens(pieces, start, target) == 1 <==> exists|x: int, y: int|
            sole_screen(pieces, start, target, x, y),
{
    let (along_file, fixed, lo, hi) = line_through(start, target);
    lemma_count_one(pieces, along_file, fixed, lo, hi);
    if screens(pieces, start, target) == 1 {
        let s = choose|s: int| only_screen(pieces, along_file, fixed, lo, hi, s);
        let (x, y) = if along_file {
            (fixed, s)
        } else {
            (s, fixed)
        };
        assert forall|u: int, v: int|
            strictly_between(start, target, u, v) && (u != x || v != y) implies !#[trigger] occupied(
            pieces,
            u,
            v,
        ) by {
            if along_file {
                assert(!line_occupied(pieces, along_file, fixed, v));
            } else {
                assert(!line_occupied(pieces, along_file, fixed, u));
            }
        }
        assert(sole_screen(pieces, start, target, x, y));
    }
    if exists|x: int, y: int| sole_screen(pieces, start, target, x, y) {
        let (x, y) = choose|x: int, y: int| sole_screen(pieces, start, target, x, y);
        let s = if along_file {
            y
        } else {
            x
        };
        assert forall|k: int| lo < k < hi && k != s implies !#[trigger] line_occupied(
            pieces,
            along_file,
            fixed,
            k,
        ) by {
            if along_file {
                assert(strictly_between(start, target, fixed, k));
            } else {
                assert(strictly_between(start, target, k, fixed));
            }
        }
        assert(only_screen(pieces, along_file, fixed, lo, hi, s));
    }
}

/// The distance between two coordinates.
pub fn distance(a: usize, b: usize) -> (d: usize)
    ensures
        d == gap(a, b),
{
    if a <= b {
        b - a
    } else {
        a - b
    }
}

/// The coordinate half-way between two coordinates, rounded down.
pub fn midpoint(a: usize, b: usize) -> (m: usize)
    ensures
        m == (a + b) / 2,
{
    a / 2 + b / 2 + (a % 2 + b % 2) / 2
}

/// Counts the occupied cells strictly between two cells of one file or rank.
fn count_screens(start: Cell, target: Cell, board: &Board) -> (n: usize)
    requires
        start.x == target.x || start.y == target.y,
    ensures
        n == screens(board@, start, target),
{
    let along_file = start.x == target.x;
    let (fixed, a, b) = if along_file {
        (start.x, start.y, target.y)
    } else {
        (start.y, start.x, target.x)
    };
    let (lo, hi) = if a <= b {
        (a, b)
    } else {
        (b, a)
    };
    if lo == hi {
        return 0;
    }
    let mut n: usize = 0;
    let mut k: usize = lo + 1;
    while k < hi
        invariant
            lo < k <= hi,
            n == count_occupied(board@, along_file, fixed as int, lo as int, k as int),
            n <= k - lo - 1,
        decreases hi - k,
    {
        let cell = if along_file {
            Cell { x: fixed, y: k }
        } else {
            Cell { x: k, y: fixed }
        };
        if board.is_occupied(cell) {
            n += 1;
        }
        k += 1;
    }
    n
}

/// Whether a chariot may move from `start` to `target`.
pub fn validate_chariots_move(start: Cell, target: Cell, board: &Board) -> (ok: bool)
    ensures
        ok == chariot_rule(board@, start, target),
{
    if (start.x == target.x) != (start.y == target.y) {
        proof {
            lemma_screens_none(board@, start, target);
        }
        count_screens(start, target, board) == 0
    } else {
        false
    }
}

/// Whether a horse may move from `start` to `target`.
pub fn validate_horse_move(start: Cell, target: Cell, board: &Board) -> (ok: bool)
    ensures
        ok == horse_rule(board@, start, target),
{
    let dx = distance(start.x, target.x);
    let dy = distance(start.y, target.y);
    if dx == 2 && dy == 1 {
        let leg = Cell { x: midpoint(start.x, target.x), y: start.y };
        !board.is_occupied(leg)
    } else if dx == 1 && dy == 2 {
        let leg = Cell { x: start.x, y: midpoint(start.y, target.y) };
        !board.is_occupied(leg)
    } else {
        false
    }
}

/// Whether an elephant may move from `start` to `target`.
pub fn validate_elephant_move(start: Cell, target: Cell, board: &Board) -> (ok: bool)
    ensures
        ok == elephant_rule(board@, start, target),
{
    let dx = distance(start.x, target.x);
    let dy = distance(start.y, target.y);
    if dx == 2 && dy == 2 {
        if start.y < RIVER && target.y >= RIVER {
            return false;
        }
        if start.y >= RIVER && target.y < RIVER {
            return false;
        }
        let eye = Cell { x: midpoint(start.x, target.x), y: midpoint(start.y, target.y) };
        !board.is_occupied(eye)
    } else {
        false
    }
}

/// Whether a guard of `side` may move from `start` to `target`.
pub fn validate_guard_move(start: Cell, target: Cell, side: Side) -> (ok: bool)
    ensures
        ok == guard_rule(start, target, side),
{
    let dx = distance(start.x, target.x);
    let dy = distance(start.y, target.y);
    if dx == 1 && dy == 1 {
        target.is_in_palace(side)
    } else {
        false
    }
}

/// Whether the king of `side` may move from `start` to `target`.
pub fn validate_king_move(start: Cell, target: Cell, side: Side) -> (ok: bool)
    ensures
        ok == king_rule(start, target, side),
{
    let dx = distance(start.x, target.x);
    let dy = distance(start.y, target.y);
    if (dx == 1 && dy == 0) || (dx == 0 && dy == 1) {
        target.is_in_palace(side)
    } else {
        false
    }
}

/// Whether a cannon may move from `start` to `target`.
pub fn validate_cannon_move(start: Cell, target: Cell, board: &Board) -> (ok: bool)
    ensures
        ok == cannon_rule(board@, start, target),
{
    if start.x != target.x && start.y != target.y {
        return false;
    }
    proof {
        lemma_screens_none(board@, start, target);
        lemma_screens_one(board@, start, target);
    }
    let between = count_screens(start, target, board);
    if between == 0 {
        !board.is_occupied(target)
    } else if between == 1 {
        board.is_occupied(target)
    } else {
        false
    }
}

/// Whether a soldier of `side` may move from `start` to `target`.
pub fn validate_pawn_move(start: Cell, target: Cell, side: Side) -> (ok: bool)
    ensures
        ok == soldier_rule(start, target, side),
{
    let forward = start.x == target.x && match side {
        Side::Black => target.y > start.y && target.y - start.y == 1,
        Side::Red => start.y > target.y && start.y - target.y == 1,
    };
    let crossed = match side {
        Side::Black => start.y >= RIVER,
        Side::Red => start.y < RIVER,
    };
    forward || (crossed && start.y == target.y && distance(start.x, target.x) == 1)
}

/// Whether `piece` belongs to the side whose turn it is and the rule of its
/// kind lets it move to `target`.
pub fn validate_move(piece: &Piece, target: Cell, board: &Board, active_side: Side) -> (ok: bool)
    ensures
        ok == (piece.side == active_side && rule_allows(board@, *piece, target)),
{
    if !piece.owned_by(active_side) {
        return false;
    }
    match piece.kind {
        PieceKind::Chariot => validate_chariots_move(piece.position, target, board),
        PieceKind::Horse => validate_horse_move(piece.position, target, board),
        PieceKind::Elephant => validate_elephant_move(piece.position, target, board),
        PieceKind::Guard => validate_guard_move(piece.position, target, piece.side),
        PieceKind::King => validate_king_move(piece.position, target, piece.side),
        PieceKind::Cannon => validate_cannon_move(piece.position, target, board),
        PieceKind::Soldier => validate_pawn_move(piece.position, target, piece.side),
    }
}

} // verus!
