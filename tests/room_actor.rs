use backend::game::{GameError, GameStatus, PlayerSymbol};
use backend::room::{Delivery, GameCommand, GameEvent, Room};

const ALICE: u128 = 0xA11CE;
const BOB: u128 = 0xB0B;
const CAROL: u128 = 0xCA201;

fn d(to: u128, event: GameEvent) -> Delivery {
    Delivery { to, event }
}

fn join(room: &mut Room, u: u128) -> Vec<Delivery> {
    room.handle(GameCommand::Join { user_id: u }).deliveries
}

fn mv(room: &mut Room, u: u128, idx: usize) -> backend::room::RoomOutput {
    room.handle(GameCommand::Move { user_id: u, idx })
}

fn started_room() -> Room {
    let mut room = Room::new(7);
    join(&mut room, ALICE);
    join(&mut room, BOB);
    room
}

#[test]
fn first_joiner_is_x_second_is_o_and_match_starts() {
    let mut room = Room::new(7);
    let out = join(&mut room, ALICE);
    let empty = [None; 9];
    assert_eq!(out, vec![d(ALICE, GameEvent::GameJoined), d(ALICE, GameEvent::BoardUpdate(empty))]);
    assert_eq!(room.game().player_x, Some(ALICE));
    assert_eq!(room.game().status, GameStatus::WaitingForPlayers);

    let out = join(&mut room, BOB);
    assert_eq!(
        out,
        vec![
            d(BOB, GameEvent::GameJoined),
            d(ALICE, GameEvent::BoardUpdate(empty)),
            d(BOB, GameEvent::BoardUpdate(empty)),
            d(ALICE, GameEvent::OpponentJoined(BOB)),
        ]
    );
    assert_eq!(room.game().player_o, Some(BOB));
    assert_eq!(room.game().status, GameStatus::Active);
    assert_eq!(room.clients(), &vec![ALICE, BOB]);
}

#[test]
fn third_join_is_rejected_and_changes_nothing() {
    let mut room = started_room();
    let before = *room.game();
    let out = join(&mut room, CAROL);
    assert_eq!(out, vec![d(CAROL, GameEvent::Error(GameError::AlreadyStarted))]);
    let after = *room.game();
    assert_eq!(after.board, before.board);
    assert_eq!(after.current_turn, before.current_turn);
    assert_eq!(after.player_x, before.player_x);
    assert_eq!(after.player_o, before.player_o);
    assert_eq!(after.status, GameStatus::Active);
    assert_eq!(room.clients(), &vec![ALICE, BOB]);
}

#[test]
fn x_wins_on_top_row() {
    let mut room = started_room();
    assert!(mv(&mut room, ALICE, 0).outcome.is_none());
    assert!(mv(&mut room, BOB, 4).outcome.is_none());
    assert!(mv(&mut room, ALICE, 1).outcome.is_none());
    assert!(mv(&mut room, BOB, 5).outcome.is_none());
    let out = mv(&mut room, ALICE, 2);
    assert_eq!(room.game().check_winner(), Some(PlayerSymbol::X));
    assert_eq!(room.game().status, GameStatus::Finished);
    assert!(room.is_finished());
    let board = room.game().board;
    assert_eq!(
        out.deliveries,
        vec![
            d(ALICE, GameEvent::BoardUpdate(board)),
            d(BOB, GameEvent::BoardUpdate(board)),
            d(ALICE, GameEvent::GameOver { winner: Some(ALICE) }),
            d(BOB, GameEvent::GameOver { winner: Some(ALICE) }),
        ]
    );
    let outcome = out.outcome.unwrap();
    assert_eq!(outcome.room_id, 7);
    assert_eq!(outcome.winner, Some(ALICE));
    assert_eq!(outcome.moves_count, 5);
    assert_eq!(outcome.board, board);

    let late = mv(&mut room, BOB, 8);
    assert_eq!(late.deliveries, vec![d(BOB, GameEvent::Error(GameError::NotActive))]);
    assert!(late.outcome.is_none());
    assert_eq!(room.game().board, board);
}

#[test]
fn accepted_move_passes_the_turn_and_broadcasts_board() {
    let mut room = started_room();
    let out = mv(&mut room, ALICE, 4);
    let mut expected = [None; 9];
    expected[4] = Some(PlayerSymbol::X);
    assert_eq!(room.game().board, expected);
    assert_eq!(room.game().current_turn, PlayerSymbol::O);
    assert_eq!(room.game().moves_count(), 1);
    assert_eq!(
        out.deliveries,
        vec![d(ALICE, GameEvent::BoardUpdate(expected)), d(BOB, GameEvent::BoardUpdate(expected))]
    );
}

#[test]
fn move_out_of_turn_is_rejected() {
    let mut room = started_room();
    let out = mv(&mut room, BOB, 4);
    assert_eq!(out.deliveries, vec![d(BOB, GameEvent::Error(GameError::NotYourTurn))]);
    assert_eq!(room.game().board, [None; 9]);
    assert_eq!(room.game().current_turn, PlayerSymbol::X);
}

#[test]
fn bad_cells_are_reported_to_the_mover_only() {
    let mut room = started_room();
    let out = mv(&mut room, ALICE, 9);
    assert_eq!(out.deliveries, vec![d(ALICE, GameEvent::Error(GameError::OutOfRange))]);
    mv(&mut room, ALICE, 0);
    let out = mv(&mut room, BOB, 0);
    assert_eq!(out.deliveries, vec![d(BOB, GameEvent::Error(GameError::CellOccupied))]);
    assert_eq!(room.game().current_turn, PlayerSymbol::O);
    assert_eq!(room.game().moves_count(), 1);
}

#[test]
fn move_before_opponent_joins_is_rejected() {
    let mut room = Room::new(7);
    join(&mut room, ALICE);
    let out = mv(&mut room, ALICE, 0);
    assert_eq!(out.deliveries, vec![d(ALICE, GameEvent::Error(GameError::NotActive))]);
    let out = mv(&mut room, CAROL, 0);
    assert!(out.deliveries.is_empty());
}

#[test]
fn full_board_without_line_ends_in_a_draw() {
    let mut room = started_room();
    for (u, i) in [(ALICE, 0), (BOB, 1), (ALICE, 2), (BOB, 4), (ALICE, 3), (BOB, 5), (ALICE, 7), (BOB, 6)] {
        let out = mv(&mut room, u, i);
        assert!(out.outcome.is_none());
    }
    let out = mv(&mut room, ALICE, 8);
    assert_eq!(room.game().status, GameStatus::Finished);
    assert!(room.game().is_draw());
    let board = room.game().board;
    assert_eq!(
        out.deliveries,
        vec![
            d(ALICE, GameEvent::BoardUpdate(board)),
            d(BOB, GameEvent::BoardUpdate(board)),
            d(ALICE, GameEvent::GameOver { winner: None }),
            d(BOB, GameEvent::GameOver { winner: None }),
        ]
    );
    let outcome = out.outcome.unwrap();
    assert_eq!(outcome.winner, None);
    assert_eq!(outcome.moves_count, 9);
}

#[test]
fn leaving_an_active_match_forfeits_it() {
    let mut room = started_room();
    mv(&mut room, ALICE, 0);
    let out = room.handle(GameCommand::Leave { user_id: ALICE });
    assert_eq!(room.game().status, GameStatus::Finished);
    assert_eq!(out.deliveries, vec![d(BOB, GameEvent::GameOver { winner: Some(BOB) })]);
    let outcome = out.outcome.unwrap();
    assert_eq!(outcome.winner, Some(BOB));
    assert_eq!(outcome.moves_count, 1);
    assert_eq!(room.clients(), &vec![BOB]);
}

#[test]
fn leaving_while_waiting_only_deregisters() {
    let mut room = Room::new(7);
    join(&mut room, ALICE);
    let out = room.handle(GameCommand::Leave { user_id: ALICE });
    assert!(out.deliveries.is_empty());
    assert!(out.outcome.is_none());
    assert_eq!(room.game().status, GameStatus::WaitingForPlayers);
    assert!(room.clients().is_empty());
    assert!(!room.is_registered(ALICE));
}

#[test]
fn leave_by_unseated_user_does_not_end_the_match() {
    let mut room = started_room();
    join(&mut room, CAROL);
    let out = room.handle(GameCommand::Leave { user_id: CAROL });
    assert!(out.deliveries.is_empty());
    assert!(out.outcome.is_none());
    assert_eq!(room.game().status, GameStatus::Active);
}

#[test]
fn rejoin_replaces_registration_without_reseating() {
    let mut room = started_room();
    mv(&mut room, ALICE, 4);
    let board = room.game().board;
    let out = join(&mut room, ALICE);
    assert_eq!(out, vec![d(ALICE, GameEvent::GameJoined), d(ALICE, GameEvent::BoardUpdate(board))]);
    assert_eq!(room.game().board, board);
    assert_eq!(room.game().player_x, Some(ALICE));
    assert_eq!(room.game().player_o, Some(BOB));
    assert_eq!(room.game().status, GameStatus::Active);
    assert_eq!(room.clients(), &vec![ALICE, BOB]);
}

#[test]
fn rejoin_after_leaving_while_waiting_registers_again() {
    let mut room = Room::new(7);
    join(&mut room, ALICE);
    room.handle(GameCommand::Leave { user_id: ALICE });
    let out = join(&mut room, ALICE);
    assert_eq!(out.len(), 2);
    assert_eq!(room.clients(), &vec![ALICE]);
    assert_eq!(room.game().player_o, None);
    assert_eq!(room.game().status, GameStatus::WaitingForPlayers);
}

#[test]
fn seated_user_without_registration_cannot_rejoin_a_started_match() {
    let mut room = Room::new(7);
    join(&mut room, ALICE);
    room.handle(GameCommand::Leave { user_id: ALICE });
    join(&mut room, BOB);
    assert_eq!(room.game().status, GameStatus::Active);
    let before = *room.game();
    let out = join(&mut room, ALICE);
    assert_eq!(out, vec![d(ALICE, GameEvent::Error(GameError::AlreadyStarted))]);
    let after = *room.game();
    assert_eq!(after.board, before.board);
    assert_eq!(after.current_turn, before.current_turn);
    assert_eq!(after.player_x, before.player_x);
    assert_eq!(after.player_o, before.player_o);
    assert_eq!(after.status, before.status);
    assert_eq!(room.clients(), &vec![BOB]);
}
