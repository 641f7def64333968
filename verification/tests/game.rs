use xiangqi::board::{get_initial_pieces, Board};
use xiangqi::game::{ClickOutcome, Game, MatchScore, MoveOutcome};
use xiangqi::piece::{Cell, Piece, PieceKind, Side};

fn c(x: usize, y: usize) -> Cell {
    Cell::new(x, y)
}

fn game_of(pieces: &[(usize, usize, PieceKind, Side)], to_move: Side) -> Game {
    let pieces = pieces.iter().map(|&(x, y, kind, side)| Piece::new(x, y, kind, side)).collect();
    Game::with_board(Board::from_pieces(pieces).unwrap(), to_move)
}

fn try_move(game: &mut Game, from: (usize, usize), to: (usize, usize)) -> MoveOutcome {
    let source = game.board().piece_at(c(from.0, from.1)).unwrap();
    game.attempt_move(source, c(to.0, to.1))
}

fn no_shared_cell(game: &Game) -> bool {
    let pieces = game.board().pieces();
    (0..pieces.len()).all(|i| (0..i).all(|j| pieces[i].position != pieces[j].position))
}

#[test]
fn a_fresh_game() {
    let game = Game::new();
    assert_eq!(game.active_side(), Side::Red);
    assert_eq!(game.selected(), None);
    assert_eq!(game.score(), MatchScore { red_wins: 0, black_wins: 0 });
    assert_eq!(game.board().pieces(), &get_initial_pieces());
}

#[test]
fn turns_alternate() {
    let mut game = Game::new();
    assert_eq!(game.active_side(), Side::Red);
    assert_eq!(try_move(&mut game, (4, 6), (4, 5)), MoveOutcome::Legal { captured: None });
    assert_eq!(game.active_side(), Side::Black);
    assert_eq!(try_move(&mut game, (4, 3), (4, 4)), MoveOutcome::Legal { captured: None });
    assert_eq!(game.active_side(), Side::Red);
    assert_eq!(try_move(&mut game, (7, 9), (6, 7)), MoveOutcome::Legal { captured: None });
    assert_eq!(game.active_side(), Side::Black);
    assert_eq!(try_move(&mut game, (1, 0), (2, 2)), MoveOutcome::Legal { captured: None });
    assert_eq!(game.active_side(), Side::Red);
}

#[test]
fn a_refused_move_keeps_the_turn_and_the_board() {
    let mut game = Game::new();
    assert_eq!(try_move(&mut game, (4, 6), (3, 6)), MoveOutcome::Illegal);
    assert_eq!(game.active_side(), Side::Red);
    assert_eq!(game.board().pieces(), &get_initial_pieces());
    assert_eq!(game.score(), MatchScore { red_wins: 0, black_wins: 0 });
}

#[test]
fn only_the_side_to_move_moves() {
    let mut game = Game::new();
    assert_eq!(try_move(&mut game, (4, 3), (4, 4)), MoveOutcome::Illegal);
    assert_eq!(game.active_side(), Side::Red);
    assert_eq!(try_move(&mut game, (4, 6), (4, 5)), MoveOutcome::Legal { captured: None });
    assert_eq!(try_move(&mut game, (0, 6), (0, 5)), MoveOutcome::Illegal);
    assert_eq!(game.active_side(), Side::Black);
}

#[test]
fn no_piece_lands_on_its_own_side() {
    let mut game = Game::new();
    assert_eq!(try_move(&mut game, (0, 9), (0, 6)), MoveOutcome::Illegal);
    assert_eq!(try_move(&mut game, (4, 9), (5, 9)), MoveOutcome::Illegal);
    assert_eq!(try_move(&mut game, (3, 9), (4, 8)), MoveOutcome::Legal { captured: None });
    assert_eq!(try_move(&mut game, (4, 3), (4, 4)), MoveOutcome::Legal { captured: None });
    assert_eq!(try_move(&mut game, (4, 9), (4, 8)), MoveOutcome::Illegal);
    assert_eq!(try_move(&mut game, (2, 9), (4, 7)), MoveOutcome::Legal { captured: None });
    assert_eq!(try_move(&mut game, (4, 4), (4, 5)), MoveOutcome::Legal { captured: None });
    assert_eq!(try_move(&mut game, (7, 9), (8, 7)), MoveOutcome::Legal { captured: None });
    assert_eq!(try_move(&mut game, (0, 3), (0, 4)), MoveOutcome::Legal { captured: None });
    assert_eq!(try_move(&mut game, (8, 7), (6, 6)), MoveOutcome::Illegal);
    assert_eq!(try_move(&mut game, (6, 9), (4, 7)), MoveOutcome::Illegal);
    assert_eq!(try_move(&mut game, (4, 6), (4, 5)), MoveOutcome::Legal {
        captured: Some(PieceKind::Soldier),
    });
    assert!(no_shared_cell(&game));
}

#[test]
fn a_soldier_does_not_step_onto_its_own_side() {
    let mut game = game_of(
        &[
            (4, 4, PieceKind::Soldier, Side::Red),
            (3, 4, PieceKind::Soldier, Side::Red),
            (4, 3, PieceKind::Horse, Side::Red),
            (5, 4, PieceKind::Horse, Side::Black),
        ],
        Side::Red,
    );
    assert_eq!(try_move(&mut game, (4, 4), (3, 4)), MoveOutcome::Illegal);
    assert_eq!(try_move(&mut game, (4, 4), (4, 3)), MoveOutcome::Illegal);
    assert_eq!(try_move(&mut game, (4, 4), (5, 4)), MoveOutcome::Legal {
        captured: Some(PieceKind::Horse),
    });
}

#[test]
fn a_move_off_the_grid_is_refused() {
    let mut game = game_of(
        &[(8, 9, PieceKind::Chariot, Side::Red), (0, 4, PieceKind::Soldier, Side::Red)],
        Side::Red,
    );
    assert_eq!(try_move(&mut game, (8, 9), (8, 10)), MoveOutcome::Illegal);
    assert_eq!(try_move(&mut game, (8, 9), (9, 9)), MoveOutcome::Illegal);
    assert_eq!(try_move(&mut game, (8, 9), (8, usize::MAX)), MoveOutcome::Illegal);
    assert_eq!(try_move(&mut game, (0, 4), (usize::MAX, 4)), MoveOutcome::Illegal);
    assert_eq!(game.active_side(), Side::Red);
    assert_eq!(game.board().len(), 2);
}

#[test]
fn a_piece_that_is_not_there_cannot_move() {
    let mut game = Game::new();
    assert_eq!(game.attempt_move(32, c(4, 5)), MoveOutcome::Illegal);
    assert_eq!(game.attempt_move(usize::MAX, c(4, 5)), MoveOutcome::Illegal);
    assert_eq!(game.active_side(), Side::Red);
    assert_eq!(game.board().pieces(), &get_initial_pieces());
}

#[test]
fn a_capture_takes_one_piece_off() {
    let mut game = game_of(
        &[
            (0, 0, PieceKind::Chariot, Side::Black),
            (4, 0, PieceKind::King, Side::Black),
            (0, 5, PieceKind::Chariot, Side::Red),
            (4, 9, PieceKind::King, Side::Red),
        ],
        Side::Red,
    );
    assert_eq!(try_move(&mut game, (0, 5), (0, 0)), MoveOutcome::Legal {
        captured: Some(PieceKind::Chariot),
    });
    assert_eq!(
        game.board().pieces(),
        &vec![
            Piece::new(4, 0, PieceKind::King, Side::Black),
            Piece::new(0, 0, PieceKind::Chariot, Side::Red),
            Piece::new(4, 9, PieceKind::King, Side::Red),
        ]
    );
    assert_eq!(game.active_side(), Side::Black);
    assert_eq!(game.score(), MatchScore { red_wins: 0, black_wins: 0 });
}

#[test]
fn a_capture_of_a_later_piece_keeps_the_order() {
    let mut game = game_of(
        &[
            (0, 5, PieceKind::Chariot, Side::Red),
            (4, 9, PieceKind::King, Side::Red),
            (0, 0, PieceKind::Chariot, Side::Black),
            (4, 0, PieceKind::King, Side::Black),
        ],
        Side::Red,
    );
    assert_eq!(try_move(&mut game, (0, 5), (0, 0)), MoveOutcome::Legal {
        captured: Some(PieceKind::Chariot),
    });
    assert_eq!(
        game.board().pieces(),
        &vec![
            Piece::new(0, 0, PieceKind::Chariot, Side::Red),
            Piece::new(4, 9, PieceKind::King, Side::Red),
            Piece::new(4, 0, PieceKind::King, Side::Black),
        ]
    );
}

#[test]
fn black_takes_the_red_king() {
    let mut game = game_of(
        &[
            (4, 0, PieceKind::King, Side::Black),
            (4, 3, PieceKind::Chariot, Side::Black),
            (4, 9, PieceKind::King, Side::Red),
        ],
        Side::Black,
    );
    assert_eq!(try_move(&mut game, (4, 3), (4, 9)), MoveOutcome::GameOver { winner: Side::Black });
    assert_eq!(game.score(), MatchScore { red_wins: 0, black_wins: 1 });
    assert_eq!(game.active_side(), Side::Red);
    assert_eq!(game.selected(), None);
    assert_eq!(game.board().pieces(), &get_initial_pieces());
}

#[test]
fn the_score_outlasts_a_game() {
    let mut game = game_of(
        &[(4, 1, PieceKind::King, Side::Black), (4, 5, PieceKind::Chariot, Side::Red)],
        Side::Red,
    );
    assert_eq!(try_move(&mut game, (4, 5), (4, 1)), MoveOutcome::GameOver { winner: Side::Red });
    assert_eq!(game.score(), MatchScore { red_wins: 1, black_wins: 0 });
    assert_eq!(try_move(&mut game, (4, 6), (4, 5)), MoveOutcome::Legal { captured: None });
    assert_eq!(try_move(&mut game, (4, 3), (4, 4)), MoveOutcome::Legal { captured: None });
    assert_eq!(try_move(&mut game, (4, 5), (4, 4)), MoveOutcome::Legal {
        captured: Some(PieceKind::Soldier),
    });
    assert_eq!(game.score(), MatchScore { red_wins: 1, black_wins: 0 });
    assert_eq!(game.board().len(), 31);
}

#[test]
fn select_picks_a_piece_of_the_side_to_move() {
    let game = Game::new();
    assert_eq!(game.select(c(4, 6)), game.board().piece_at(c(4, 6)));
    assert_eq!(game.select(c(4, 6)), Some(29));
    assert_eq!(game.select(c(4, 3)), None);
    assert_eq!(game.select(c(4, 5)), None);
    assert_eq!(game.select(c(9, 10)), None);
    assert_eq!(game.selected(), None);
}

#[test]
fn click_selects_then_moves() {
    let mut game = Game::new();
    assert_eq!(game.click(c(4, 6)), ClickOutcome::Selected { piece: Some(29) });
    assert_eq!(game.selected(), Some(29));
    assert_eq!(game.active_side(), Side::Red);
    assert_eq!(game.click(c(4, 5)), ClickOutcome::Moved {
        outcome: MoveOutcome::Legal { captured: None },
    });
    assert_eq!(game.selected(), None);
    assert_eq!(game.active_side(), Side::Black);
    assert_eq!(game.board().get(29), Some(Piece::new(4, 5, PieceKind::Soldier, Side::Red)));
}

#[test]
fn click_on_nothing_selects_nothing() {
    let mut game = Game::new();
    assert_eq!(game.click(c(4, 5)), ClickOutcome::Selected { piece: None });
    assert_eq!(game.click(c(4, 3)), ClickOutcome::Selected { piece: None });
    assert_eq!(game.click(c(20, 20)), ClickOutcome::Selected { piece: None });
    assert_eq!(game.selected(), None);
    assert_eq!(game.active_side(), Side::Red);
    assert_eq!(game.board().pieces(), &get_initial_pieces());
}

#[test]
fn a_refused_click_clears_the_selection() {
    let mut game = Game::new();
    assert_eq!(game.click(c(4, 6)), ClickOutcome::Selected { piece: Some(29) });
    assert_eq!(game.click(c(3, 6)), ClickOutcome::Moved { outcome: MoveOutcome::Illegal });
    assert_eq!(game.selected(), None);
    assert_eq!(game.active_side(), Side::Red);
    assert_eq!(game.board().pieces(), &get_initial_pieces());
    assert_eq!(game.click(c(2, 6)), ClickOutcome::Selected { piece: Some(28) });
    assert_eq!(game.click(c(2, 6)), ClickOutcome::Moved { outcome: MoveOutcome::Illegal });
    assert_eq!(game.selected(), None);
}

#[test]
fn the_board_stays_valid_through_a_game() {
    let mut game = Game::new();
    let moves = [
        ((1, 7), (4, 7)),
        ((1, 0), (2, 2)),
        ((4, 7), (4, 3)),
        ((2, 2), (4, 3)),
        ((7, 7), (7, 0)),
        ((8, 0), (7, 0)),
        ((0, 9), (0, 8)),
        ((7, 0), (7, 1)),
    ];
    let captured = [None, None, Some(PieceKind::Soldier), Some(PieceKind::Cannon),
        Some(PieceKind::Horse), Some(PieceKind::Cannon), None, None];
    let mut left = 32;
    for (k, (from, to)) in moves.iter().enumerate() {
        assert_eq!(try_move(&mut game, *from, *to), MoveOutcome::Legal { captured: captured[k] });
        if captured[k].is_some() {
            left -= 1;
        }
        assert_eq!(game.board().len(), left);
        assert!(no_shared_cell(&game));
        assert!(game.board().pieces().iter().all(|p| p.position.is_on_board()));
        assert_eq!(game.active_side(), if k % 2 == 0 { Side::Black } else { Side::Red });
    }
}
