use vstd::prelude::*;

use crate::room::{EventView, GameCommand, GameEvent};

verus! {

/// A request decoded from a client's text frame.
#[derive(Clone, Copy, Debug, PartialEq, Eq, Structural)]
pub enum ClientMessage {
    /// Mark the given cell.
    Move(usize),
}

/// What a connection loop observed, from the network side or from the room.
#[derive(Debug)]
pub enum GatewayInput {
    /// A text frame, with the request it decodes to, or `None` when it is malformed.
    Text(Option<ClientMessage>),
    /// A ping frame with its payload.
    Ping(Vec<u8>),
    /// A close frame.
    Close,
    /// Any other frame, or a frame that could not be read.
    Other,
    /// An event from the room for this client.
    Event(GameEvent),
    /// Writing an event to the client failed.
    WriteFailed,
    /// Both the network stream and the room's event channel have ended.
    Exhausted,
}

/// What the connection loop is to do.
#[derive(Debug)]
pub enum GatewayAction {
    /// Submit a command to the room.
    Submit(GameCommand),
    /// Answer a ping with this payload.
    Pong(Vec<u8>),
    /// Write this event to the client as a text frame.
    Forward(GameEvent),
    /// Perform the closing handshake with the client.
    CloseSession,
}

/// An action with its payloads as sequences.
pub ghost enum ActionView {
    Submit(GameCommand),
    Pong(Seq<u8>),
    Forward(EventView),
    CloseSession,
}

impl View for GatewayAction {
    type V = ActionView;

    open spec fn view(&self) -> ActionView {
        match self {
            GatewayAction::Submit(c) => ActionView::Submit(*c),
            GatewayAction::Pong(b) => ActionView::Pong(b@),
            GatewayAction::Forward(e) => ActionView::Forward(e@),
            GatewayAction::CloseSession => ActionView::CloseSession,
        }
    }
}

/// The views of a list of actions.
pub open spec fn action_views(acts: Seq<GatewayAction>) -> Seq<ActionView> {
    acts.map_values(|a: GatewayAction| a@)
}

/// How a connection of `user_id` reacts to an input: the actions, in order, and whether
/// the loop keeps running. Every way of stopping ends by telling the room the user left.
pub open spec fn reaction(user_id: u128, input: GatewayInput) -> (Seq<ActionView>, bool) {
    match input {
        GatewayInput::Text(Some(ClientMessage::Move(idx))) => (
            seq![ActionView::Submit(GameCommand::Move { user_id, idx })],
            true,
        ),
        GatewayInput::Text(None) => (seq![], true),
        GatewayInput::Ping(b) => (seq![ActionView::Pong(b@)], true),
        GatewayInput::Close => (
            seq![ActionView::CloseSession, ActionView::Submit(GameCommand::Leave { user_id })],
            false,
        ),
        GatewayInput::Other => (seq![], true),
        GatewayInput::Event(e) => (seq![ActionView::Forward(e@)], true),
        GatewayInput::WriteFailed => (seq![ActionView::Submit(GameCommand::Leave { user_id })], false),
        GatewayInput::Exhausted => (seq![ActionView::Submit(GameCommand::Leave { user_id })], false),
    }
}

/// The decisions of one client connection bound to a room.
#[derive(Debug)]
pub struct Gateway {
    user_id: u128,
    open: bool,
}

impl Gateway {
    /// A running connection for `user_id`.
    pub fn new(user_id: u128) -> (r: Gateway)
        ensures
            r.user_spec() == user_id,
            r.is_open_spec(),
    {
        Gateway { user_id, open: true }
    }

    /// The user this connection belongs to.
    pub closed spec fn user_spec(&self) -> u128 {
        self.user_id
    }

    /// The user this connection belongs to.
    pub fn user_id(&self) -> (r: u128)
        ensures
            r == self.user_spec(),
    {
        self.user_id
    }

    /// The loop is still running.
    pub closed spec fn is_open_spec(&self) -> bool {
        self.open
    }

    /// Whether the loop is still running.
    pub fn is_open(&self) -> (r: bool)
        ensures
            r == self.is_open_spec(),
    {
        self.open
    }

    /// Reacts to one input while running. When the loop stops, the last action is
    /// always the `Leave` of this user; while it runs, no `Leave` is submitted.
    pub fn step(&mut self, input: GatewayInput) -> (r: Vec<GatewayAction>)
        requires
            old(self).is_open_spec(),
        ensures
            action_views(r@) == reaction(old(self).user_spec(), input).0,
            final(self).is_open_spec() == reaction(old(self).user_spec(), input).1,
            final(self).user_spec() == old(self).user_spec(),
            !final(self).is_open_spec() ==> r@.len() > 0 && r@.last()@ == ActionView::Submit(
                GameCommand::Leave { user_id: old(self).user_spec() },
            ),
            final(self).is_open_spec() ==> forall|i: int|
                0 <= i < r@.len() ==> !(#[trigger] r@[i]@ is Submit && r@[i]@->Submit_0
                    is Leave),
    {
        let user_id = self.user_id;
        let mut acts: Vec<GatewayAction> = Vec::new();
        match input {
            GatewayInput::Text(Some(ClientMessage::Move(idx))) => {
                acts.push(GatewayAction::Submit(GameCommand::Move { user_id, idx }));
            },
            GatewayInput::Text(None) => {},
            GatewayInput::Ping(b) => {
                acts.push(GatewayAction::Pong(b));
            },
            GatewayInput::Close => {
                acts.push(GatewayAction::CloseSession);
                acts.push(GatewayAction::Submit(GameCommand::Leave { user_id }));
                self.open = false;
            },
            GatewayInput::Other => {},
            GatewayInput::Event(e) => {
                acts.push(GatewayAction::Forward(e));
            },
            GatewayInput::WriteFailed => {
                acts.push(GatewayAction::Submit(GameCommand::Leave { user_id }));
                self.open = false;
            },
            GatewayInput::Exhausted => {
                acts.push(GatewayAction::Submit(GameCommand::Leave { user_id }));
                self.open = false;
            },
        }
        assert(action_views(acts@) =~= reaction(user_id, input).0);
        acts
    }
}

} // verus!
