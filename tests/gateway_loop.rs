use backend::gateway::{ClientMessage, Gateway, GatewayAction, GatewayInput};
use backend::room::{GameCommand, GameEvent};

fn is_leave(a: &GatewayAction, u: u128) -> bool {
    matches!(a, GatewayAction::Submit(GameCommand::Leave { user_id }) if *user_id == u)
}

#[test]
fn move_frame_is_submitted_to_the_room() {
    let mut gw = Gateway::new(5);
    let acts = gw.step(GatewayInput::Text(Some(ClientMessage::Move(4))));
    assert_eq!(acts.len(), 1);
    assert!(matches!(acts[0], GatewayAction::Submit(GameCommand::Move { user_id: 5, idx: 4 })));
    assert!(gw.is_open());
    assert_eq!(gw.user_id(), 5);
}

#[test]
fn malformed_and_other_frames_are_dropped() {
    let mut gw = Gateway::new(5);
    assert!(gw.step(GatewayInput::Text(None)).is_empty());
    assert!(gw.step(GatewayInput::Other).is_empty());
    assert!(gw.is_open());
}

#[test]
fn ping_is_answered_with_its_payload() {
    let mut gw = Gateway::new(5);
    let acts = gw.step(GatewayInput::Ping(vec![1, 2, 3]));
    assert_eq!(acts.len(), 1);
    match &acts[0] {
        GatewayAction::Pong(b) => assert_eq!(b, &vec![1, 2, 3]),
        other => panic!("unexpected action {:?}", other),
    }
    assert!(gw.is_open());
}

#[test]
fn room_events_are_forwarded() {
    let mut gw = Gateway::new(5);
    let acts = gw.step(GatewayInput::Event(GameEvent::OpponentJoined(9)));
    assert_eq!(acts.len(), 1);
    assert!(matches!(acts[0], GatewayAction::Forward(GameEvent::OpponentJoined(9))));
    assert!(gw.is_open());
}

#[test]
fn close_frame_closes_and_leaves() {
    let mut gw = Gateway::new(5);
    let acts = gw.step(GatewayInput::Close);
    assert_eq!(acts.len(), 2);
    assert!(matches!(acts[0], GatewayAction::CloseSession));
    assert!(is_leave(&acts[1], 5));
    assert!(!gw.is_open());
}

#[test]
fn write_failure_and_exhaustion_leave() {
    let mut gw = Gateway::new(5);
    let acts = gw.step(GatewayInput::WriteFailed);
    assert_eq!(acts.len(), 1);
    assert!(is_leave(&acts[0], 5));
    assert!(!gw.is_open());

    let mut gw = Gateway::new(6);
    let acts = gw.step(GatewayInput::Exhausted);
    assert_eq!(acts.len(), 1);
    assert!(is_leave(&acts[0], 6));
    assert!(!gw.is_open());
}
