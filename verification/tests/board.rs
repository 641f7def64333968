use xiangqi::board::{get_initial_pieces, Board};
use xiangqi::piece::{Cell, Piece, PieceKind, Side};

fn kind_at(board: &Board, x: usize, y: usize) -> Option<(PieceKind, Side)> {
    let i = board.piece_at(Cell::new(x, y))?;
    let piece = board.get(i)?;
    Some((piece.kind, piece.side))
}

#[test]
fn opening_has_thirty_two_pieces() {
    let pieces = get_initial_pieces();
    assert_eq!(pieces.len(), 32);
    assert_eq!(pieces.iter().filter(|p| p.side == Side::Red).count(), 16);
    assert_eq!(pieces.iter().filter(|p| p.side == Side::Black).count(), 16);
}

#[test]
fn opening_lists_black_before_red() {
    let pieces = get_initial_pieces();
    assert_eq!(pieces[0], Piece::new(0, 0, PieceKind::Chariot, Side::Black));
    assert_eq!(pieces[4], Piece::new(4, 0, PieceKind::King, Side::Black));
    assert_eq!(pieces[9], Piece::new(1, 2, PieceKind::Cannon, Side::Black));
    assert_eq!(pieces[10], Piece::new(7, 2, PieceKind::Cannon, Side::Black));
    assert_eq!(pieces[11], Piece::new(0, 3, PieceKind::Soldier, Side::Black));
    assert_eq!(pieces[15], Piece::new(8, 3, PieceKind::Soldier, Side::Black));
    assert_eq!(pieces[16], Piece::new(0, 9, PieceKind::Chariot, Side::Red));
    assert_eq!(pieces[20], Piece::new(4, 9, PieceKind::King, Side::Red));
    assert_eq!(pieces[25], Piece::new(1, 7, PieceKind::Cannon, Side::Red));
    assert_eq!(pieces[26], Piece::new(7, 7, PieceKind::Cannon, Side::Red));
    assert_eq!(pieces[27], Piece::new(0, 6, PieceKind::Soldier, Side::Red));
    assert_eq!(pieces[31], Piece::new(8, 6, PieceKind::Soldier, Side::Red));
}

#[test]
fn opening_home_ranks() {
    let board = Board::new();
    let order = [
        PieceKind::Chariot,
        PieceKind::Horse,
        PieceKind::Elephant,
        PieceKind::Guard,
        PieceKind::King,
        PieceKind::Guard,
        PieceKind::Elephant,
        PieceKind::Horse,
        PieceKind::Chariot,
    ];
    for x in 0..9 {
        assert_eq!(kind_at(&board, x, 0), Some((order[x], Side::Black)));
        assert_eq!(kind_at(&board, x, 9), Some((order[x], Side::Red)));
    }
}

#[test]
fn opening_cannons_and_soldiers() {
    let board = Board::new();
    for x in 0..9 {
        let cannon = x == 1 || x == 7;
        let soldier = x % 2 == 0;
        assert_eq!(kind_at(&board, x, 2), if cannon { Some((PieceKind::Cannon, Side::Black)) } else { None });
        assert_eq!(kind_at(&board, x, 7), if cannon { Some((PieceKind::Cannon, Side::Red)) } else { None });
        assert_eq!(kind_at(&board, x, 3), if soldier { Some((PieceKind::Soldier, Side::Black)) } else { None });
        assert_eq!(kind_at(&board, x, 6), if soldier { Some((PieceKind::Soldier, Side::Red)) } else { None });
    }
}

#[test]
fn opening_leaves_the_middle_empty() {
    let board = Board::new();
    for x in 0..9 {
        for y in [1, 4, 5, 8] {
            assert!(!board.is_occupied(Cell::new(x, y)));
            assert_eq!(board.piece_at(Cell::new(x, y)), None);
        }
    }
}

#[test]
fn opening_camps() {
    for piece in get_initial_pieces() {
        assert!(piece.position.is_on_board());
        match piece.side {
            Side::Black => assert!(piece.position.y <= 3),
            Side::Red => assert!(6 <= piece.position.y && piece.position.y <= 9),
        }
    }
}

#[test]
fn opening_has_no_shared_cell() {
    let pieces = get_initial_pieces();
    for i in 0..pieces.len() {
        for j in 0..i {
            assert_ne!(pieces[i].position, pieces[j].position);
        }
    }
}

#[test]
fn from_pieces_accepts_a_valid_position() {
    let pieces = vec![
        Piece::new(4, 1, PieceKind::King, Side::Black),
        Piece::new(4, 5, PieceKind::Chariot, Side::Red),
    ];
    let board = Board::from_pieces(pieces.clone()).unwrap();
    assert_eq!(board.len(), 2);
    assert_eq!(board.pieces(), &pieces);
    assert_eq!(board.piece_at(Cell::new(4, 5)), Some(1));
    assert_eq!(board.get(1), Some(pieces[1]));
    assert_eq!(board.get(2), None);
}

#[test]
fn from_pieces_accepts_the_empty_board() {
    let board = Board::from_pieces(Vec::new()).unwrap();
    assert_eq!(board.len(), 0);
    assert_eq!(board.piece_at(Cell::new(0, 0)), None);
}

#[test]
fn from_pieces_rejects_a_shared_cell() {
    let pieces = vec![
        Piece::new(4, 1, PieceKind::King, Side::Black),
        Piece::new(3, 3, PieceKind::Soldier, Side::Black),
        Piece::new(4, 1, PieceKind::Chariot, Side::Red),
    ];
    assert!(Board::from_pieces(pieces).is_none());
}

#[test]
fn from_pieces_rejects_a_cell_off_the_grid() {
    assert!(Board::from_pieces(vec![Piece::new(9, 0, PieceKind::Horse, Side::Red)]).is_none());
    assert!(Board::from_pieces(vec![Piece::new(0, 10, PieceKind::Horse, Side::Red)]).is_none());
    assert!(Board::from_pieces(vec![Piece::new(8, 9, PieceKind::Horse, Side::Red)]).is_some());
}

#[test]
fn relocate_moves_one_piece() {
    let mut board = Board::new();
    let i = board.piece_at(Cell::new(4, 6)).unwrap();
    board.relocate(i, Cell::new(4, 5));
    assert_eq!(board.len(), 32);
    assert_eq!(board.piece_at(Cell::new(4, 6)), None);
    assert_eq!(board.piece_at(Cell::new(4, 5)), Some(i));
    assert_eq!(board.get(i), Some(Piece::new(4, 5, PieceKind::Soldier, Side::Red)));
    let rest = get_initial_pieces();
    for k in 0..32 {
        if k != i {
            assert_eq!(board.get(k), Some(rest[k]));
        }
    }
}

#[test]
fn remove_takes_one_piece_off() {
    let mut board = Board::new();
    let i = board.piece_at(Cell::new(1, 2)).unwrap();
    let taken = board.remove(i);
    assert_eq!(taken, Piece::new(1, 2, PieceKind::Cannon, Side::Black));
    assert_eq!(board.len(), 31);
    assert!(!board.is_occupied(Cell::new(1, 2)));
    let mut expected = get_initial_pieces();
    expected.remove(i);
    assert_eq!(board.pieces(), &expected);
}

#[test]
fn reset_restores_the_opening() {
    let mut board = Board::from_pieces(vec![Piece::new(4, 1, PieceKind::King, Side::Black)]).unwrap();
    board.reset();
    assert_eq!(board.pieces(), &get_initial_pieces());
    board.reset();
    assert_eq!(board.pieces(), &get_initial_pieces());
}

#[test]
fn cells_on_and_off_the_grid() {
    assert!(Cell::new(0, 0).is_on_board());
    assert!(Cell::new(8, 9).is_on_board());
    assert!(!Cell::new(9, 9).is_on_board());
    assert!(!Cell::new(8, 10).is_on_board());
    assert!(!Cell::new(usize::MAX, 0).is_on_board());
}

#[test]
fn palaces() {
    for x in 0..9 {
        for y in 0..10 {
            let cell = Cell::new(x, y);
            let files = (3..=5).contains(&x);
            assert_eq!(cell.is_in_palace(Side::Black), files && y <= 2);
            assert_eq!(cell.is_in_palace(Side::Red), files && y >= 7);
        }
    }
}

#[test]
fn ownership_and_opponents() {
    let piece = Piece::new(0, 0, PieceKind::Chariot, Side::Black);
    assert!(piece.owned_by(Side::Black));
    assert!(!piece.owned_by(Side::Red));
    assert_eq!(Side::Red.opponent(), Side::Black);
    assert_eq!(Side::Black.opponent(), Side::Red);
}

#[test]
fn glyphs_differ_by_side_for_four_kinds() {
    let glyph = |kind, side| Piece::new(0, 0, kind, side).glyph();
    assert_eq!(glyph(PieceKind::Chariot, Side::Red), '车');
    assert_eq!(glyph(PieceKind::Chariot, Side::Black), '车');
    assert_eq!(glyph(PieceKind::Horse, Side::Red), '马');
    assert_eq!(glyph(PieceKind::Horse, Side::Black), '马');
    assert_eq!(glyph(PieceKind::Cannon, Side::Red), '炮');
    assert_eq!(glyph(PieceKind::Cannon, Side::Black), '炮');
    assert_eq!(glyph(PieceKind::Elephant, Side::Red), '象');
    assert_eq!(glyph(PieceKind::Elephant, Side::Black), '相');
    assert_eq!(glyph(PieceKind::Guard, Side::Red), '仕');
    assert_eq!(glyph(PieceKind::Guard, Side::Black), '士');
    assert_eq!(glyph(PieceKind::King, Side::Red), '帅');
    assert_eq!(glyph(PieceKind::King, Side::Black), '将');
    assert_eq!(glyph(PieceKind::Soldier, Side::Red), '卒');
    assert_eq!(glyph(PieceKind::Soldier, Side::Black), '兵');
}
