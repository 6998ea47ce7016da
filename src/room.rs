use vstd::prelude::*;

use crate::game::{
    board_full, occupied_count, occupied_prefix, other, winner_of, Board, GameError, GameState, GameStatus,
    GameView, PlayerSymbol,
};

verus! {

/// A request to a room, in the order the room receives them.
#[derive(Clone, Copy, Debug, PartialEq, Eq, Structural)]
pub enum GameCommand {
    /// A user asks for a seat; the caller keeps the user's event channel.
    Join { user_id: u128 },
    /// A user asks to mark cell `idx`.
    Move { user_id: u128, idx: usize },
    /// A user's connection is gone.
    Leave { user_id: u128 },
}

/// What a room tells its clients.
#[derive(Clone, Copy, Debug, PartialEq, Eq)]
pub enum GameEvent {
    GameJoined,
    OpponentJoined(u128),
    BoardUpdate(Board),
    GameOver { winner: Option<u128> },
    Error(GameError),
}

/// An event addressed to one client.
#[derive(Clone, Copy, Debug, PartialEq, Eq)]
pub struct Delivery {
    pub to: u128,
    pub event: GameEvent,
}

/// The terminal summary of a match, to be recorded once it is over.
#[derive(Clone, Copy, Debug, PartialEq, Eq)]
pub struct GameOutcome {
    pub room_id: u128,
    pub winner: Option<u128>,
    pub board: Board,
    pub moves_count: u32,
}

/// Everything one command produced: the events to send, in order, and the outcome to
/// record when the command finished the match.
#[derive(Debug)]
pub struct RoomOutput {
    pub deliveries: Vec<Delivery>,
    pub outcome: Option<GameOutcome>,
}

/// A room: one game and the users registered to receive its events, in the order
/// they registered.
#[derive(Debug)]
pub struct Room {
    game: GameState,
    clients: Vec<u128>,
}

/// An event with its board as a sequence.
pub ghost enum EventView {
    GameJoined,
    OpponentJoined(u128),
    BoardUpdate(Seq<Option<PlayerSymbol>>),
    GameOver { winner: Option<u128> },
    Error(GameError),
}

impl View for GameEvent {
    type V = EventView;

    open spec fn view(&self) -> EventView {
        match *self {
            GameEvent::GameJoined => EventView::GameJoined,
            GameEvent::OpponentJoined(u) => EventView::OpponentJoined(u),
            GameEvent::BoardUpdate(b) => EventView::BoardUpdate(b@),
            GameEvent::GameOver { winner } => EventView::GameOver { winner },
            GameEvent::Error(e) => EventView::Error(e),
        }
    }
}

impl View for Delivery {
    type V = (u128, EventView);

    open spec fn view(&self) -> (u128, EventView) {
        (self.to, self.event@)
    }
}

/// A match summary with its board as a sequence.
pub ghost struct OutcomeView {
    pub room_id: u128,
    pub winner: Option<u128>,
    pub board: Seq<Option<PlayerSymbol>>,
    pub moves_count: nat,
}

impl View for GameOutcome {
    type V = OutcomeView;

    open spec fn view(&self) -> OutcomeView {
        OutcomeView {
            room_id: self.room_id,
            winner: self.winner,
            board: self.board@,
            moves_count: self.moves_count as nat,
        }
    }
}

/// The abstract state of a room.
pub ghost struct RoomView {
    pub game: GameView,
    pub clients: Seq<u128>,
}

impl View for Room {
    type V = RoomView;

    closed spec fn view(&self) -> RoomView {
        RoomView { game: self.game@, clients: self.clients@ }
    }
}

impl RoomView {
    /// The game is well formed, each user is registered at most once, and only
    /// seated players are registered.
    pub open spec fn wf(self) -> bool {
        &&& self.game.wf()
        &&& self.clients.no_duplicates()
        &&& forall|i: int| 0 <= i < self.clients.len() ==> self.game.is_seated(#[trigger] self.clients[i])
    }
}

/// The views of a list of deliveries.
pub open spec fn views(ds: Seq<Delivery>) -> Seq<(u128, EventView)> {
    ds.map_values(|d: Delivery| d@)
}

/// The outcome of a command: the room after it, the events sent, the summary to record.
pub ghost struct RoomStep {
    pub room: RoomView,
    pub deliveries: Seq<(u128, EventView)>,
    pub outcome: Option<OutcomeView>,
}

/// A room as it is created.
pub open spec fn fresh_room(room_id: u128) -> RoomView {
    RoomView {
        game: GameView {
            room_id,
            board: Seq::new(9, |i: int| None::<PlayerSymbol>),
            current_turn: PlayerSymbol::X,
            status: GameStatus::WaitingForPlayers,
            player_x: None,
            player_o: None,
        },
        clients: Seq::empty(),
    }
}

/// The same event to every registered client, in registration order.
pub open spec fn broadcast(cs: Seq<u128>, e: EventView) -> Seq<(u128, EventView)> {
    cs.map_values(|c: u128| (c, e))
}

/// The event to `u`, if `u` is registered.
pub open spec fn notify(cs: Seq<u128>, u: u128, e: EventView) -> Seq<(u128, EventView)> {
    if cs.contains(u) {
        seq![(u, e)]
    } else {
        seq![]
    }
}

/// Registers `u`; a user already registered keeps one entry.
pub open spec fn register(cs: Seq<u128>, u: u128) -> Seq<u128> {
    if cs.contains(u) {
        cs
    } else {
        cs.push(u)
    }
}

/// Removes the registration of `u`.
pub open spec fn deregister(cs: Seq<u128>, u: u128) -> Seq<u128> {
    cs.filter(other_than(u))
}

/// Holds of every user but `u`.
pub open spec fn other_than(u: u128) -> spec_fn(u128) -> bool {
    |c: u128| c != u
}

/// The summary of a finished game.
pub open spec fn outcome_of(g: GameView, winner: Option<u128>) -> OutcomeView {
    OutcomeView {
        room_id: g.room_id,
        winner,
        board: g.board,
        moves_count: occupied_count(g.board),
    }
}

/// A join by `u` only renews `u`'s event channel: `u` is registered, or holds a seat
/// while the match is still waiting.
pub open spec fn is_rejoin(r: RoomView, u: u128) -> bool {
    r.clients.contains(u) || (r.game.status == GameStatus::WaitingForPlayers && r.game.is_seated(u))
}

/// Join: a rejoining user is registered again and shown the board, keeping the seat;
/// anyone else asks for a seat.
pub open spec fn join_step(r: RoomView, u: u128) -> RoomStep {
    let g = r.game;
    if is_rejoin(r, u) {
        RoomStep {
            room: RoomView { game: g, clients: register(r.clients, u) },
            deliveries: seq![(u, EventView::GameJoined), (u, EventView::BoardUpdate(g.board))],
            outcome: None,
        }
    } else {
        let (g2, res) = g.seat(u);
        match res {
            Ok(sym) => {
                let cs2 = register(r.clients, u);
                RoomStep {
                    room: RoomView { game: g2, clients: cs2 },
                    deliveries: seq![(u, EventView::GameJoined)] + broadcast(
                        cs2,
                        EventView::BoardUpdate(g2.board),
                    ) + opponent_notice(g2, cs2, sym, u),
                    outcome: None,
                }
            },
            Err(e) => RoomStep { room: r, deliveries: seq![(u, EventView::Error(e))], outcome: None },
        }
    }
}

/// When `u` took the second seat, the notice to the first-seated player, if registered.
pub open spec fn opponent_notice(g: GameView, cs: Seq<u128>, sym: PlayerSymbol, u: u128) -> Seq<
    (u128, EventView),
> {
    if sym == PlayerSymbol::O && g.player_x is Some && cs.contains(g.player_x->0) {
        seq![(g.player_x->0, EventView::OpponentJoined(u))]
    } else {
        seq![]
    }
}

/// The match ends with `winner`: final board and result to everyone, summary recorded.
pub open spec fn finish_step(g: GameView, cs: Seq<u128>, winner: Option<u128>) -> RoomStep {
    RoomStep {
        room: RoomView { game: GameView { status: GameStatus::Finished, ..g }, clients: cs },
        deliveries: broadcast(cs, EventView::BoardUpdate(g.board)) + broadcast(
            cs,
            EventView::GameOver { winner },
        ),
        outcome: Some(outcome_of(g, winner)),
    }
}

/// Why a move by `u` to cell `idx` is rejected, if it is.
pub open spec fn move_rejection(g: GameView, u: u128, idx: int) -> Option<GameError> {
    if g.status != GameStatus::Active {
        Some(GameError::NotActive)
    } else if !g.is_turn(u) {
        Some(GameError::NotYourTurn)
    } else {
        g.move_error(idx)
    }
}

/// Move: rejected moves are reported to the mover only; an accepted one either ends
/// the match (a complete triple, or a full board) or passes the turn.
pub open spec fn move_step(r: RoomView, u: u128, idx: int) -> RoomStep {
    let g = r.game;
    match move_rejection(g, u, idx) {
        Some(e) => RoomStep {
            room: r,
            deliveries: notify(r.clients, u, EventView::Error(e)),
            outcome: None,
        },
        None => {
            let g2 = g.place(idx);
            match winner_of(g2.board) {
                Some(s) => finish_step(g2, r.clients, g2.seat_of(s)),
                None => if board_full(g2.board) {
                    finish_step(g2, r.clients, None)
                } else {
                    RoomStep {
                        room: RoomView {
                            game: GameView { current_turn: other(g.current_turn), ..g2 },
                            clients: r.clients,
                        },
                        deliveries: broadcast(r.clients, EventView::BoardUpdate(g2.board)),
                        outcome: None,
                    }
                },
            }
        },
    }
}

/// The seat held by someone other than `u`, if any.
pub open spec fn opponent_of(g: GameView, u: u128) -> Option<u128> {
    if g.player_x == Some(u) {
        if g.player_o == Some(u) {
            None
        } else {
            g.player_o
        }
    } else {
        g.player_x
    }
}

/// Leave: the user is deregistered; a seated player leaving an active match forfeits it.
pub open spec fn leave_step(r: RoomView, u: u128) -> RoomStep {
    let g = r.game;
    let cs2 = deregister(r.clients, u);
    if g.status == GameStatus::Active && g.is_seated(u) {
        let w = opponent_of(g, u);
        RoomStep {
            room: RoomView { game: GameView { status: GameStatus::Finished, ..g }, clients: cs2 },
            deliveries: if w is Some {
                broadcast(cs2, EventView::GameOver { winner: w })
            } else {
                seq![]
            },
            outcome: Some(outcome_of(g, w)),
        }
    } else {
        RoomStep { room: RoomView { game: g, clients: cs2 }, deliveries: seq![], outcome: None }
    }
}

/// What a command does to a room.
pub open spec fn room_step(r: RoomView, cmd: GameCommand) -> RoomStep {
    match cmd {
        GameCommand::Join { user_id } => join_step(r, user_id),
        GameCommand::Move { user_id, idx } => move_step(r, user_id, idx as int),
        GameCommand::Leave { user_id } => leave_step(r, user_id),
    }
}

/// The views of an optional outcome.
pub open spec fn outcome_view(o: Option<GameOutcome>) -> Option<OutcomeView> {
    match o {
        Some(x) => Some(x@),
        None => None,
    }
}

proof fn lemma_views_push(ds: Seq<Delivery>, d: Delivery)
    ensures
        views(ds.push(d)) == views(ds).push(d@),
{
    assert(views(ds.push(d)) =~= views(ds).push(d@));
}

/// Appends the event, addressed to each registered client in turn.
fn push_broadcast(clients: &Vec<u128>, event: GameEvent, out: &mut Vec<Delivery>)
    ensures
        views(final(out)@) == views(old(out)@) + broadcast(clients@, event@),
{
    let ghost start = out@;
    let mut i: usize = 0;
    while i < clients.len()
        invariant
            i <= clients.len(),
            views(out@) == views(start) + broadcast(clients@.subrange(0, i as int), event@),
        decreases clients.len() - i,
    {
        proof {
            lemma_views_push(out@, Delivery { to: clients@[i as int], event });
            assert(broadcast(clients@.subrange(0, i + 1), event@) =~= broadcast(
                clients@.subrange(0, i as int),
                event@,
            ).push((clients@[i as int], event@)));
        }
        out.push(Delivery { to: clients[i], event });
        i = i + 1;
    }
    assert(clients@.subrange(0, clients.len() as int) =~= clients@);
}

impl Room {
    /// A new room around a fresh game, with no client registered.
    pub fn new(room_id: u128) -> (r: Room)
        ensures
            r@ == fresh_room(room_id),
            r@.wf(),
    {
        let r = Room { game: GameState::new(room_id), clients: Vec::new() };
        assert(r@.game =~= fresh_room(room_id).game);
        assert(r@.clients =~= fresh_room(room_id).clients);
        r
    }

    /// The room's game.
    pub fn game(&self) -> (r: &GameState)
        ensures
            r@ == self@.game,
    {
        &self.game
    }

    /// The registered users, in registration order.
    pub fn clients(&self) -> (r: &Vec<u128>)
        ensures
            r@ == self@.clients,
    {
        &self.clients
    }

    /// Whether the match is over; a finished room takes no further commands.
    pub fn is_finished(&self) -> (r: bool)
        ensures
            r == (self@.game.status == GameStatus::Finished),
    {
        self.game.status == GameStatus::Finished
    }

    /// Whether `u` is registered.
    pub fn is_registered(&self, u: u128) -> (r: bool)
        ensures
            r == self@.clients.contains(u),
    {
        let mut i: usize = 0;
        while i < self.clients.len()
            invariant
                i <= self.clients.len(),
                forall|j: int| 0 <= j < i ==> self.clients@[j] != u,
            decreases self.clients.len() - i,
        {
            if self.clients[i] == u {
                return true;
            }
            i = i + 1;
        }
        false
    }

    fn register(&mut self, u: u128)
        requires
            old(self)@.clients.no_duplicates(),
        ensures
            final(self)@ == (RoomView { clients: register(old(self)@.clients, u), ..old(self)@ }),
            final(self)@.clients.no_duplicates(),
    {
        if !self.is_registered(u) {
            self.clients.push(u);
        }
    }

    fn deregister(&mut self, u: u128)
        requires
            old(self)@.clients.no_duplicates(),
        ensures
            final(self)@ == (RoomView { clients: deregister(old(self)@.clients, u), ..old(self)@ }),
            final(self)@.clients.no_duplicates(),
            forall|j: int|
                0 <= j < final(self)@.clients.len() ==> old(self)@.clients.contains(
                    #[trigger] final(self)@.clients[j],
                ),
    {
        let mut kept: Vec<u128> = Vec::new();
        let mut i: usize = 0;
        while i < self.clients.len()
            invariant
                i <= self.clients.len(),
                self.clients@.no_duplicates(),
                kept@ == self.clients@.subrange(0, i as int).filter(other_than(u)),
                kept@.no_duplicates(),
                forall|j: int|
                    0 <= j < kept@.len() ==> self.clients@.subrange(0, i as int).contains(
                        #[trigger] kept@[j],
                    ),
            decreases self.clients.len() - i,
        {
            let c = self.clients[i];
            let ghost old_kept = kept@;
            proof {
                let pre = self.clients@.subrange(0, i as int);
                assert(self.clients@.subrange(0, i + 1) =~= pre.push(c));
                pre.lemma_filter_push(c, other_than(u));
                assert(other_than(u)(c) == (c != u));
                assert forall|j: int| 0 <= j < kept@.len() implies kept@[j] != c by {
                    let m = choose|m: int| 0 <= m < pre.len() && pre[m] == kept@[j];
                    assert(self.clients@[m] == kept@[j]);
                }
            }
            if c != u {
                kept.push(c);
            }
            proof {
                let pre = self.clients@.subrange(0, i as int);
                let post = self.clients@.subrange(0, i + 1);
                assert(post[i as int] == c);
                assert forall|j: int| 0 <= j < kept@.len() implies post.contains(
                    #[trigger] kept@[j],
                ) by {
                    if j < old_kept.len() {
                        let m = choose|m: int| 0 <= m < pre.len() && pre[m] == kept@[j];
                        assert(post[m] == kept@[j]);
                    }
                }
            }
            i = i + 1;
        }
        assert(self.clients@.subrange(0, self.clients.len() as int) =~= self.clients@);
        self.clients = kept;
    }

    /// Ends the match with `winner`: the final board and the result go to every
    /// registered client, and the summary is returned.
    fn finish(&mut self, winner: Option<u128>, out: &mut Vec<Delivery>) -> (r: GameOutcome)
        requires
            old(self)@.wf(),
        ensures
            final(self)@ == finish_step(old(self)@.game, old(self)@.clients, winner).room,
            views(final(out)@) == views(old(out)@) + finish_step(
                old(self)@.game,
                old(self)@.clients,
                winner,
            ).deliveries,
            Some(r@) == finish_step(old(self)@.game, old(self)@.clients, winner).outcome,
    {
        self.game.status = GameStatus::Finished;
        push_broadcast(&self.clients, GameEvent::BoardUpdate(self.game.board), out);
        push_broadcast(&self.clients, GameEvent::GameOver { winner }, out);
        let r = GameOutcome {
            room_id: self.game.room_id,
            winner,
            board: self.game.board,
            moves_count: self.game.moves_count(),
        };
        assert(self@.game =~= finish_step(old(self)@.game, old(self)@.clients, winner).room.game);
        r
    }

    fn handle_join(&mut self, user_id: u128) -> (r: RoomOutput)
        requires
            old(self)@.wf(),
        ensures
            final(self)@ == join_step(old(self)@, user_id).room,
            views(r.deliveries@) == join_step(old(self)@, user_id).deliveries,
            outcome_view(r.outcome) == join_step(old(self)@, user_id).outcome,
            final(self)@.wf(),
    {
        let mut out: Vec<Delivery> = Vec::new();
        let rejoin = self.is_registered(user_id) || (self.game.status
            == GameStatus::WaitingForPlayers && self.game.is_seated(user_id));
        if rejoin {
            self.register(user_id);
            out.push(Delivery { to: user_id, event: GameEvent::GameJoined });
            out.push(Delivery { to: user_id, event: GameEvent::BoardUpdate(self.game.board) });
            assert(views(out@) =~= join_step(old(self)@, user_id).deliveries);
            return RoomOutput { deliveries: out, outcome: None };
        }
        match self.game.add_player(user_id) {
            Ok(sym) => {
                self.register(user_id);
                out.push(Delivery { to: user_id, event: GameEvent::GameJoined });
                let ghost first = out@;
                push_broadcast(&self.clients, GameEvent::BoardUpdate(self.game.board), &mut out);
                let ghost second = out@;
                if sym == PlayerSymbol::O {
                    if let Some(px) = self.game.player_x {
                        self.push_notice(px, GameEvent::OpponentJoined(user_id), &mut out);
                    }
                }
                proof {
                    let step = join_step(old(self)@, user_id);
                    assert(views(first) =~= seq![(user_id, EventView::GameJoined)]);
                    assert(views(out@) =~= views(second) + opponent_notice(
                        self@.game,
                        self@.clients,
                        sym,
                        user_id,
                    ));
                    assert(views(out@) =~= step.deliveries);
                }
                RoomOutput { deliveries: out, outcome: None }
            },
            Err(e) => {
                out.push(Delivery { to: user_id, event: GameEvent::Error(e) });
                assert(views(out@) =~= join_step(old(self)@, user_id).deliveries);
                RoomOutput { deliveries: out, outcome: None }
            },
        }
    }

    fn handle_move(&mut self, user_id: u128, idx: usize) -> (r: RoomOutput)
        requires
            old(self)@.wf(),
        ensures
            final(self)@ == move_step(old(self)@, user_id, idx as int).room,
            views(r.deliveries@) == move_step(old(self)@, user_id, idx as int).deliveries,
            outcome_view(r.outcome) == move_step(old(self)@, user_id, idx as int).outcome,
            final(self)@.wf(),
    {
        let mut out: Vec<Delivery> = Vec::new();
        if self.game.status != GameStatus::Active {
            self.push_notice(user_id, GameEvent::Error(GameError::NotActive), &mut out);
            assert(views(out@) =~= move_step(old(self)@, user_id, idx as int).deliveries);
            return RoomOutput { deliveries: out, outcome: None };
        }
        if !self.game.is_turn(user_id) {
            self.push_notice(user_id, GameEvent::Error(GameError::NotYourTurn), &mut out);
            assert(views(out@) =~= move_step(old(self)@, user_id, idx as int).deliveries);
            return RoomOutput { deliveries: out, outcome: None };
        }
        match self.game.make_move(idx) {
            Err(e) => {
                self.push_notice(user_id, GameEvent::Error(e), &mut out);
                assert(views(out@) =~= move_step(old(self)@, user_id, idx as int).deliveries);
                RoomOutput { deliveries: out, outcome: None }
            },
            Ok(()) => {
                match self.game.check_winner() {
                    Some(s) => {
                        let winner = match s {
                            PlayerSymbol::X => self.game.player_x,
                            PlayerSymbol::O => self.game.player_o,
                        };
                        let o = self.finish(winner, &mut out);
                        assert(views(out@) =~= move_step(old(self)@, user_id, idx as int).deliveries);
                        RoomOutput { deliveries: out, outcome: Some(o) }
                    },
                    None => {
                        if self.game.is_draw() {
                            let o = self.finish(None, &mut out);
                            assert(views(out@) =~= move_step(old(self)@, user_id, idx as int).deliveries);
                            RoomOutput { deliveries: out, outcome: Some(o) }
                        } else {
                            self.game.switch_turn();
                            push_broadcast(&self.clients, GameEvent::BoardUpdate(self.game.board), &mut out);
                            assert(views(out@) =~= move_step(old(self)@, user_id, idx as int).deliveries);
                            RoomOutput { deliveries: out, outcome: None }
                        }
                    },
                }
            },
        }
    }

    fn handle_leave(&mut self, user_id: u128) -> (r: RoomOutput)
        requires
            old(self)@.wf(),
        ensures
            final(self)@ == leave_step(old(self)@, user_id).room,
            views(r.deliveries@) == leave_step(old(self)@, user_id).deliveries,
            outcome_view(r.outcome) == leave_step(old(self)@, user_id).outcome,
            final(self)@.wf(),
    {
        let mut out: Vec<Delivery> = Vec::new();
        let forfeit = self.game.status == GameStatus::Active && self.game.is_seated(user_id);
        self.deregister(user_id);
        if !forfeit {
            assert(views(out@) =~= leave_step(old(self)@, user_id).deliveries);
            return RoomOutput { deliveries: out, outcome: None };
        }
        let winner = if self.game.player_x == Some(user_id) {
            if self.game.player_o == Some(user_id) {
                None
            } else {
                self.game.player_o
            }
        } else {
            self.game.player_x
        };
        self.game.status = GameStatus::Finished;
        if winner.is_some() {
            push_broadcast(&self.clients, GameEvent::GameOver { winner }, &mut out);
        }
        let o = GameOutcome {
            room_id: self.game.room_id,
            winner,
            board: self.game.board,
            moves_count: self.game.moves_count(),
        };
        assert(views(out@) =~= leave_step(old(self)@, user_id).deliveries);
        assert(self@.game =~= leave_step(old(self)@, user_id).room.game);
        RoomOutput { deliveries: out, outcome: Some(o) }
    }

    /// Processes one command: the room changes as `room_step` says, and the events
    /// to send and the summary to record are returned.
    pub fn handle(&mut self, cmd: GameCommand) -> (r: RoomOutput)
        requires
            old(self)@.wf(),
        ensures
            final(self)@ == room_step(old(self)@, cmd).room,
            views(r.deliveries@) == room_step(old(self)@, cmd).deliveries,
            outcome_view(r.outcome) == room_step(old(self)@, cmd).outcome,
            final(self)@.wf(),
    {
        match cmd {
            GameCommand::Join { user_id } => self.handle_join(user_id),
            GameCommand::Move { user_id, idx } => self.handle_move(user_id, idx),
            GameCommand::Leave { user_id } => self.handle_leave(user_id),
        }
    }

    /// Appends `event` for `u` when `u` is registered.
    fn push_notice(&self, u: u128, event: GameEvent, out: &mut Vec<Delivery>)
        ensures
            views(final(out)@) == views(old(out)@) + notify(self@.clients, u, event@),
    {
        proof {
            lemma_views_push(out@, Delivery { to: u, event });
        }
        if self.is_registered(u) {
            out.push(Delivery { to: u, event });
            assert(views(out@) =~= views(old(out)@) + notify(self@.clients, u, event@));
        } else {
            assert(views(out@) =~= views(old(out)@) + notify(self@.clients, u, event@));
        }
    }
}

/// Two distinct users joining a fresh room: the first is seated X, the second O, and
/// the match becomes active exactly when the second seat is filled.
pub proof fn lemma_first_two_joins(room_id: u128, a: u128, b: u128)
    requires
        a != b,
    ensures
        ({
            let s1 = room_step(fresh_room(room_id), GameCommand::Join { user_id: a });
            let s2 = room_step(s1.room, GameCommand::Join { user_id: b });
            &&& s1.room.game.player_x == Some(a)
            &&& s1.room.game.player_o is None
            &&& s1.room.game.status == GameStatus::WaitingForPlayers
            &&& s2.room.game.player_x == Some(a)
            &&& s2.room.game.player_o == Some(b)
            &&& s2.room.game.status == GameStatus::Active
        }),
{
}

/// Once a match is active or finished, a join by a user with no registration is
/// rejected, to that user alone, and the room stays as it was.
pub proof fn lemma_late_join_rejected(r: RoomView, u: u128)
    requires
        r.wf(),
        r.game.status != GameStatus::WaitingForPlayers,
        !r.clients.contains(u),
    ensures
        room_step(r, GameCommand::Join { user_id: u }).room == r,
        room_step(r, GameCommand::Join { user_id: u }).deliveries == seq![
            (u, EventView::Error(GameError::AlreadyStarted)),
        ],
        room_step(r, GameCommand::Join { user_id: u }).outcome is None,
{
}

/// A finished room accepts no move: the room stays as it was and only the mover,
/// if registered, is told.
pub proof fn lemma_finished_room_rejects_moves(r: RoomView, u: u128, idx: usize)
    requires
        r.game.status == GameStatus::Finished,
    ensures
        room_step(r, GameCommand::Move { user_id: u, idx }).room == r,
        room_step(r, GameCommand::Move { user_id: u, idx }).deliveries == notify(
            r.clients,
            u,
            EventView::Error(GameError::NotActive),
        ),
        room_step(r, GameCommand::Move { user_id: u, idx }).outcome is None,
{
}

/// A seated player leaving an active match ends it: the other seat is declared the
/// winner to every client still registered, and the summary names that winner.
pub proof fn lemma_leave_forfeits(r: RoomView, u: u128)
    requires
        r.wf(),
        r.game.status == GameStatus::Active,
        r.game.is_seated(u),
    ensures
        ({
            let s = room_step(r, GameCommand::Leave { user_id: u });
            let w = opponent_of(r.game, u);
            &&& s.room.game.status == GameStatus::Finished
            &&& s.room.game.board == r.game.board
            &&& !s.room.clients.contains(u)
            &&& w is Some ==> s.deliveries == broadcast(
                deregister(r.clients, u),
                EventView::GameOver { winner: w },
            )
            &&& w is None ==> s.deliveries.len() == 0
            &&& s.outcome == Some(outcome_of(r.game, w))
        }),
{
    let s = room_step(r, GameCommand::Leave { user_id: u });
    if s.room.clients.contains(u) {
        let i = choose|i: int| 0 <= i < s.room.clients.len() && s.room.clients[i] == u;
        broadcast use vstd::seq_lib::group_filter_ensures;
        assert(other_than(u)(s.room.clients[i]));
    }
}

/// A join by a user who is already registered keeps the game as it is (no second
/// seat, no reset, no error) and keeps that user's single registration.
pub proof fn lemma_rejoin_keeps_seat(r: RoomView, u: u128)
    requires
        r.wf(),
        r.clients.contains(u),
    ensures
        ({
            let s = room_step(r, GameCommand::Join { user_id: u });
            &&& s.room.game == r.game
            &&& s.room.clients == r.clients
            &&& s.deliveries == seq![
                (u, EventView::GameJoined),
                (u, EventView::BoardUpdate(r.game.board)),
            ]
        }),
{
}

proof fn lemma_occupied_prefix_place(b: Seq<Option<PlayerSymbol>>, idx: int, s: PlayerSymbol, n: int)
    requires
        0 <= idx < b.len(),
        0 <= n <= b.len(),
        b[idx] is None,
    ensures
        occupied_prefix(b.update(idx, Some(s)), n) == occupied_prefix(b, n) + if idx < n {
            1nat
        } else {
            0nat
        },
    decreases n,
{
    if n > 0 {
        lemma_occupied_prefix_place(b, idx, s, n - 1);
    }
}

/// A move that is accepted and neither completes a triple nor fills the board passes
/// the turn to the other symbol and occupies exactly one more cell.
pub proof fn lemma_accepted_move_passes_turn(r: RoomView, u: u128, idx: usize)
    requires
        r.wf(),
        move_rejection(r.game, u, idx as int) is None,
        winner_of(r.game.place(idx as int).board) is None,
        !board_full(r.game.place(idx as int).board),
    ensures
        ({
            let g2 = room_step(r, GameCommand::Move { user_id: u, idx }).room.game;
            &&& g2.current_turn == other(r.game.current_turn)
            &&& g2.status == GameStatus::Active
            &&& g2.board == r.game.board.update(idx as int, Some(r.game.current_turn))
            &&& occupied_count(g2.board) == occupied_count(r.game.board) + 1
        }),
{
    lemma_occupied_prefix_place(r.game.board, idx as int, r.game.current_turn, 9);
}

} // verus!
