use backend::game::{GameError, GameState, GameStatus, PlayerSymbol};
use backend::game::PlayerSymbol::{O, X};

fn board_with(cells: &[(usize, PlayerSymbol)]) -> GameState {
    let mut g = GameState::new(1);
    for &(i, s) in cells {
        g.board[i] = Some(s);
    }
    g
}

#[test]
fn new_game_is_empty_and_waiting() {
    let g = GameState::new(42);
    assert_eq!(g.room_id, 42);
    assert!(g.board.iter().all(|c| c.is_none()));
    assert_eq!(g.current_turn, PlayerSymbol::X);
    assert_eq!(g.status, GameStatus::WaitingForPlayers);
    assert_eq!(g.player_x, None);
    assert_eq!(g.player_o, None);
}

#[test]
fn seats_fill_x_then_o_and_start_the_match() {
    let mut g = GameState::new(1);
    assert_eq!(g.add_player(10), Ok(PlayerSymbol::X));
    assert_eq!(g.status, GameStatus::WaitingForPlayers);
    assert_eq!(g.add_player(20), Ok(PlayerSymbol::O));
    assert_eq!(g.status, GameStatus::Active);
    assert_eq!(g.player_x, Some(10));
    assert_eq!(g.player_o, Some(20));
}

#[test]
fn third_seat_request_is_rejected_without_change() {
    let mut g = GameState::new(1);
    g.add_player(10).unwrap();
    g.add_player(20).unwrap();
    let before = (g.board, g.current_turn, g.status, g.player_x, g.player_o);
    assert_eq!(g.add_player(30), Err(GameError::AlreadyStarted));
    assert_eq!((g.board, g.current_turn, g.status, g.player_x, g.player_o), before);
    g.status = GameStatus::Finished;
    assert_eq!(g.add_player(30), Err(GameError::AlreadyStarted));
}

#[test]
fn turn_belongs_to_the_seat_of_the_symbol_to_move() {
    let mut g = GameState::new(1);
    g.add_player(10).unwrap();
    g.add_player(20).unwrap();
    assert!(g.is_turn(10));
    assert!(!g.is_turn(20));
    assert!(!g.is_turn(30));
    g.switch_turn();
    assert_eq!(g.current_turn, PlayerSymbol::O);
    assert!(g.is_turn(20));
    assert!(!g.is_turn(10));
    g.switch_turn();
    assert_eq!(g.current_turn, PlayerSymbol::X);
}

#[test]
fn move_off_the_board_is_rejected() {
    let mut g = GameState::new(1);
    assert_eq!(g.make_move(9), Err(GameError::OutOfRange));
    assert_eq!(g.make_move(usize::MAX), Err(GameError::OutOfRange));
    assert!(g.board.iter().all(|c| c.is_none()));
}

#[test]
fn move_to_taken_cell_is_rejected_and_board_kept() {
    let mut g = GameState::new(1);
    assert_eq!(g.make_move(4), Ok(()));
    assert_eq!(g.board[4], Some(PlayerSymbol::X));
    g.switch_turn();
    let before = g.board;
    assert_eq!(g.make_move(4), Err(GameError::CellOccupied));
    assert_eq!(g.board, before);
    assert_eq!(g.make_move(8), Ok(()));
    assert_eq!(g.board[8], Some(PlayerSymbol::O));
    assert_eq!(g.current_turn, PlayerSymbol::O);
}

#[test]
fn winner_found_on_rows_columns_and_diagonals() {
    assert_eq!(board_with(&[(3, O), (4, O), (5, O)]).check_winner(), Some(O));
    assert_eq!(board_with(&[(1, X), (4, X), (7, X)]).check_winner(), Some(X));
    assert_eq!(board_with(&[(0, X), (4, X), (8, X)]).check_winner(), Some(X));
    assert_eq!(board_with(&[(2, O), (4, O), (6, O)]).check_winner(), Some(O));
    assert_eq!(board_with(&[(0, X), (1, X), (2, O)]).check_winner(), None);
    assert_eq!(GameState::new(1).check_winner(), None);
}

#[test]
fn rows_are_checked_before_columns() {
    let g = board_with(&[(0, O), (1, O), (2, O), (3, X), (6, X), (4, X), (8, X)]);
    assert_eq!(g.check_winner(), Some(O));
}

#[test]
fn full_board_without_line_is_a_draw() {
    let g = board_with(&[
        (0, X), (1, O), (2, X),
        (3, X), (4, O), (5, O),
        (6, O), (7, X), (8, X),
    ]);
    assert!(g.is_draw());
    assert_eq!(g.check_winner(), None);
    assert_eq!(g.moves_count(), 9);
    let h = board_with(&[(0, X), (1, O)]);
    assert!(!h.is_draw());
    assert_eq!(h.moves_count(), 2);
    assert!(!GameState::new(1).is_draw());
}

#[test]
fn seated_players_are_recognised() {
    let mut g = GameState::new(1);
    g.add_player(10).unwrap();
    assert!(g.is_seated(10));
    assert!(!g.is_seated(20));
}
