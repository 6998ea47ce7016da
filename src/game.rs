use vstd::prelude::*;

verus! {

/// One of the two play symbols; `X` always moves first.
#[derive(Clone, Copy, Debug, PartialEq, Eq, Structural)]
pub enum PlayerSymbol {
    X,
    O,
}

/// Where a match stands in its lifecycle.
#[derive(Clone, Copy, Debug, PartialEq, Eq, Structural)]
pub enum GameStatus {
    WaitingForPlayers,
    Active,
    Finished,
}

/// Why a seat request or a move was rejected.
#[derive(Clone, Copy, Debug, PartialEq, Eq, Structural)]
pub enum GameError {
    /// Both seats are taken, or the match is already past waiting.
    AlreadyStarted,
    /// The cell index lies outside the 3x3 board.
    OutOfRange,
    /// The target cell already holds a symbol.
    CellOccupied,
    /// The requester does not hold the seat whose symbol is to move.
    NotYourTurn,
    /// A move arrived while the match was not active.
    NotActive,
}

/// The nine cells of a board, in row-major order.
pub type Board = [Option<PlayerSymbol>; 9];

/// The state of one match: board, whose turn it is, lifecycle and seats.
/// User identifiers are 128-bit values.
#[derive(Clone, Copy, Debug)]
pub struct GameState {
    pub room_id: u128,
    pub board: Board,
    pub current_turn: PlayerSymbol,
    pub status: GameStatus,
    pub player_x: Option<u128>,
    pub player_o: Option<u128>,
}

/// The symbol that is not `s`.
pub open spec fn other(s: PlayerSymbol) -> PlayerSymbol {
    match s {
        PlayerSymbol::X => PlayerSymbol::O,
        PlayerSymbol::O => PlayerSymbol::X,
    }
}

/// The cells of the `k`-th winning triple: three rows, three columns, two diagonals.
pub open spec fn line(k: int) -> (int, int, int) {
    if k == 0 {
        (0, 1, 2)
    } else if k == 1 {
        (3, 4, 5)
    } else if k == 2 {
        (6, 7, 8)
    } else if k == 3 {
        (0, 3, 6)
    } else if k == 4 {
        (1, 4, 7)
    } else if k == 5 {
        (2, 5, 8)
    } else if k == 6 {
        (0, 4, 8)
    } else {
        (2, 4, 6)
    }
}

/// All three cells of triple `k` hold `s`.
pub open spec fn line_owned_by(b: Seq<Option<PlayerSymbol>>, k: int, s: PlayerSymbol) -> bool {
    &&& b[line(k).0] == Some(s)
    &&& b[line(k).1] == Some(s)
    &&& b[line(k).2] == Some(s)
}

/// Some fixed triple is uniformly held by `s`.
pub open spec fn has_line(b: Seq<Option<PlayerSymbol>>, s: PlayerSymbol) -> bool {
    exists|k: int| 0 <= k < 8 && #[trigger] line_owned_by(b, k, s)
}

/// The symbol of the first complete triple at index `k` or later.
pub open spec fn first_line_from(b: Seq<Option<PlayerSymbol>>, k: int) -> Option<PlayerSymbol>
    decreases 8 - k,
{
    if k >= 8 {
        None
    } else if line_owned_by(b, k, PlayerSymbol::X) {
        Some(PlayerSymbol::X)
    } else if line_owned_by(b, k, PlayerSymbol::O) {
        Some(PlayerSymbol::O)
    } else {
        first_line_from(b, k + 1)
    }
}

/// The winner of a board: the symbol of its first complete triple in the fixed order.
pub open spec fn winner_of(b: Seq<Option<PlayerSymbol>>) -> Option<PlayerSymbol> {
    first_line_from(b, 0)
}

/// Every cell of the board is occupied.
pub open spec fn board_full(b: Seq<Option<PlayerSymbol>>) -> bool {
    forall|i: int| 0 <= i < 9 ==> (#[trigger] b[i]) is Some
}

/// Number of occupied cells among the first `n`.
pub open spec fn occupied_prefix(b: Seq<Option<PlayerSymbol>>, n: int) -> nat
    decreases n,
{
    if n <= 0 {
        0
    } else {
        occupied_prefix(b, n - 1) + if b[n - 1] is Some {
            1nat
        } else {
            0nat
        }
    }
}

/// Number of occupied cells of the board.
pub open spec fn occupied_count(b: Seq<Option<PlayerSymbol>>) -> nat {
    occupied_prefix(b, 9)
}

/// The abstract state of a match, with the board as a sequence of cells.
pub ghost struct GameView {
    pub room_id: u128,
    pub board: Seq<Option<PlayerSymbol>>,
    pub current_turn: PlayerSymbol,
    pub status: GameStatus,
    pub player_x: Option<u128>,
    pub player_o: Option<u128>,
}

impl GameView {
    /// Nine cells; seats are filled in order and the status agrees with how many are filled.
    pub open spec fn wf(self) -> bool {
        &&& self.board.len() == 9
        &&& (self.player_o is Some ==> self.player_x is Some)
        &&& (self.status == GameStatus::WaitingForPlayers ==> self.player_o is None)
        &&& (self.status == GameStatus::Active ==> self.player_x is Some && self.player_o
            is Some)
    }

    /// The seat that holds symbol `s`.
    pub open spec fn seat_of(self, s: PlayerSymbol) -> Option<u128> {
        match s {
            PlayerSymbol::X => self.player_x,
            PlayerSymbol::O => self.player_o,
        }
    }

    /// `u` holds one of the two seats.
    pub open spec fn is_seated(self, u: u128) -> bool {
        self.player_x == Some(u) || self.player_o == Some(u)
    }

    /// The seat whose symbol is to move is held by `u`.
    pub open spec fn is_turn(self, u: u128) -> bool {
        self.seat_of(self.current_turn) == Some(u)
    }

    /// What a seat request does: the new state and the seat given, or the error.
    pub open spec fn seat(self, u: u128) -> (GameView, Result<PlayerSymbol, GameError>) {
        if self.status != GameStatus::WaitingForPlayers {
            (self, Err(GameError::AlreadyStarted))
        } else if self.player_x is None {
            (GameView { player_x: Some(u), ..self }, Ok(PlayerSymbol::X))
        } else if self.player_o is None {
            (GameView { player_o: Some(u), status: GameStatus::Active, ..self }, Ok(PlayerSymbol::O))
        } else {
            (self, Err(GameError::AlreadyStarted))
        }
    }

    /// Whether a move to cell `idx` is rejected, and why.
    pub open spec fn move_error(self, idx: int) -> Option<GameError> {
        if idx < 0 || idx >= 9 {
            Some(GameError::OutOfRange)
        } else if self.board[idx] is Some {
            Some(GameError::CellOccupied)
        } else {
            None
        }
    }

    /// The state after the current symbol is placed in cell `idx`.
    pub open spec fn place(self, idx: int) -> GameView {
        GameView { board: self.board.update(idx, Some(self.current_turn)), ..self }
    }
}

impl View for GameState {
    type V = GameView;

    open spec fn view(&self) -> GameView {
        GameView {
            room_id: self.room_id,
            board: self.board@,
            current_turn: self.current_turn,
            status: self.status,
            player_x: self.player_x,
            player_o: self.player_o,
        }
    }
}

/// The cells of the `k`-th triple, as indices into the board.
fn line_cells(k: usize) -> (r: (usize, usize, usize))
    requires
        k < 8,
    ensures
        (r.0 as int, r.1 as int, r.2 as int) == line(k as int),
        r.0 < 9 && r.1 < 9 && r.2 < 9,
{
    if k == 0 {
        (0, 1, 2)
    } else if k == 1 {
        (3, 4, 5)
    } else if k == 2 {
        (6, 7, 8)
    } else if k == 3 {
        (0, 3, 6)
    } else if k == 4 {
        (1, 4, 7)
    } else if k == 5 {
        (2, 5, 8)
    } else if k == 6 {
        (0, 4, 8)
    } else {
        (2, 4, 6)
    }
}

/// What `first_line_from` finds is a complete triple, and `None` means no triple
/// from `k` on is complete.
proof fn lemma_first_line_from(b: Seq<Option<PlayerSymbol>>, k: int)
    requires
        0 <= k <= 8,
    ensures
        first_line_from(b, k) matches Some(s) ==> exists|j: int|
            k <= j < 8 && #[trigger] line_owned_by(b, j, s),
        first_line_from(b, k) is None ==> forall|j: int, s: PlayerSymbol|
            k <= j < 8 ==> !#[trigger] line_owned_by(b, j, s),
    decreases 8 - k,
{
    if k < 8 {
        lemma_first_line_from(b, k + 1);
        assert forall|j: int, s: PlayerSymbol|
            k <= j < 8 && first_line_from(b, k) is None implies !#[trigger] line_owned_by(b, j, s) by {
            if j == k {
                match s {
                    PlayerSymbol::X => {},
                    PlayerSymbol::O => {},
                }
            }
        }
    }
}

/// A board is won by `s` exactly when the winner is `s`, provided the other symbol
/// holds no triple; the winner, when there is one, always holds a triple.
pub proof fn lemma_winner_iff_line(b: Seq<Option<PlayerSymbol>>)
    ensures
        winner_of(b) matches Some(s) ==> has_line(b, s),
        winner_of(b) is None <==> (!has_line(b, PlayerSymbol::X) && !has_line(b, PlayerSymbol::O)),
        forall|s: PlayerSymbol| has_line(b, s) && !has_line(b, other(s)) ==> winner_of(b) == Some(s),
{
    lemma_first_line_from(b, 0);
    assert forall|s: PlayerSymbol| has_line(b, s) && !has_line(b, other(s)) implies winner_of(b)
        == Some(s) by {
        if let Some(t) = winner_of(b) {
            if t != s {
                assert(t == other(s)) by {
                    match s {
                        PlayerSymbol::X => {},
                        PlayerSymbol::O => {},
                    }
                }
            }
        }
    }
}

impl GameState {
    /// A fresh game for the room: empty board, `X` to move, both seats open.
    pub fn new(room_id: u128) -> (r: GameState)
        ensures
            r@.wf(),
            r@.room_id == room_id,
            r@.board == Seq::new(9, |i: int| None::<PlayerSymbol>),
            r@.current_turn == PlayerSymbol::X,
            r@.status == GameStatus::WaitingForPlayers,
            r@.player_x is None,
            r@.player_o is None,
    {
        let r = GameState {
            room_id,
            board: [None; 9],
            current_turn: PlayerSymbol::X,
            status: GameStatus::WaitingForPlayers,
            player_x: None,
            player_o: None,
        };
        assert(r@.board =~= Seq::new(9, |i: int| None::<PlayerSymbol>));
        r
    }

    /// Seats `player_id` in the first open seat, `X` before `O`; filling the second
    /// seat starts the match. Fails once the match is past waiting or both seats are taken.
    pub fn add_player(&mut self, player_id: u128) -> (r: Result<PlayerSymbol, GameError>)
        ensures
            final(self)@ == old(self)@.seat(player_id).0,
            r == old(self)@.seat(player_id).1,
            old(self)@.wf() ==> final(self)@.wf(),
    {
        if self.status != GameStatus::WaitingForPlayers {
            return Err(GameError::AlreadyStarted);
        }
        if self.player_x.is_none() {
            self.player_x = Some(player_id);
            Ok(PlayerSymbol::X)
        } else if self.player_o.is_none() {
            self.player_o = Some(player_id);
            self.status = GameStatus::Active;
            Ok(PlayerSymbol::O)
        } else {
            Err(GameError::AlreadyStarted)
        }
    }

    /// Whether the seat whose symbol is to move is held by `player_id`.
    pub fn is_turn(&self, player_id: u128) -> (r: bool)
        ensures
            r == self@.is_turn(player_id),
    {
        match self.current_turn {
            PlayerSymbol::X => self.player_x == Some(player_id),
            PlayerSymbol::O => self.player_o == Some(player_id),
        }
    }

    /// Whether `player_id` holds one of the two seats.
    pub fn is_seated(&self, player_id: u128) -> (r: bool)
        ensures
            r == self@.is_seated(player_id),
    {
        self.player_x == Some(player_id) || self.player_o == Some(player_id)
    }

    /// Places the symbol to move in cell `idx`. Fails, changing nothing, when `idx` is
    /// off the board or the cell is taken. Neither the turn nor the status changes.
    pub fn make_move(&mut self, idx: usize) -> (r: Result<(), GameError>)
        ensures
            match old(self)@.move_error(idx as int) {
                Some(e) => r == Err::<(), GameError>(e) && final(self)@ == old(self)@,
                None => r is Ok && final(self)@ == old(self)@.place(idx as int),
            },
            idx >= 9 ==> r == Err::<(), GameError>(GameError::OutOfRange) && final(self).board@
                == old(self).board@,
            idx < 9 && old(self).board@[idx as int] is Some ==> r == Err::<(), GameError>(
                GameError::CellOccupied,
            ) && final(self).board@ == old(self).board@,
            old(self)@.wf() ==> final(self)@.wf(),
    {
        if idx > 8 {
            return Err(GameError::OutOfRange);
        }
        if self.board[idx].is_some() {
            return Err(GameError::CellOccupied);
        }
        self.board[idx] = Some(self.current_turn);
        Ok(())
    }

    /// Hands the move to the other symbol.
    pub fn switch_turn(&mut self)
        ensures
            final(self)@ == (GameView { current_turn: other(old(self).current_turn), ..old(self)@ }),
    {
        self.current_turn = match self.current_turn {
            PlayerSymbol::X => PlayerSymbol::O,
            PlayerSymbol::O => PlayerSymbol::X,
        };
    }

    /// The symbol of the first complete triple (rows, then columns, then diagonals).
    pub fn check_winner(&self) -> (r: Option<PlayerSymbol>)
        ensures
            r == winner_of(self.board@),
            r matches Some(s) ==> has_line(self.board@, s),
            r is None <==> (!has_line(self.board@, PlayerSymbol::X) && !has_line(
                self.board@,
                PlayerSymbol::O,
            )),
            forall|s: PlayerSymbol|
                has_line(self.board@, s) && !has_line(self.board@, other(s)) ==> r == Some(s),
    {
        proof {
            lemma_winner_iff_line(self.board@);
        }
        let b = self.board;
        let mut k: usize = 0;
        while k < 8
            invariant
                k <= 8,
                b@ == self.board@,
                winner_of(b@) == first_line_from(b@, k as int),
            decreases 8 - k,
        {
            let (x, y, z) = line_cells(k);
            if let (Some(p1), Some(p2), Some(p3)) = (b[x], b[y], b[z]) {
                if p1 == p2 && p2 == p3 {
                    assert(line_owned_by(b@, k as int, p1));
                    return Some(p1);
                }
            }
            k = k + 1;
        }
        None
    }

    /// Whether every cell is occupied.
    pub fn is_draw(&self) -> (r: bool)
        ensures
            r == board_full(self.board@),
    {
        let mut i: usize = 0;
        while i < 9
            invariant
                i <= 9,
                forall|j: int| 0 <= j < i ==> (#[trigger] self.board@[j]) is Some,
            decreases 9 - i,
        {
            if self.board[i].is_none() {
                return false;
            }
            i = i + 1;
        }
        true
    }

    /// Number of occupied cells, which is the number of moves made so far.
    pub fn moves_count(&self) -> (r: u32)
        ensures
            r as nat == occupied_count(self.board@),
            r <= 9,
    {
        let mut n: u32 = 0;
        let mut i: usize = 0;
        while i < 9
            invariant
                i <= 9,
                n as nat == occupied_prefix(self.board@, i as int),
                n <= i,
            decreases 9 - i,
        {
            if self.board[i].is_some() {
                n = n + 1;
            }
            i = i + 1;
        }
        n
    }
}

} // verus!
