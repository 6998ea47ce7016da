use vstd::prelude::*;

verus! {

/// A change to one user's record when a finished match is recorded: one more game
/// played, one more won when `won`, and the win rate computed again.
#[derive(Clone, Copy, Debug, PartialEq, Eq, Structural)]
pub struct StatUpdate {
    pub user_id: u128,
    pub won: bool,
}

/// The update for seat `p`, unless it is the winner's (already counted).
pub open spec fn loser_update(winner: Option<u128>, p: Option<u128>) -> Seq<StatUpdate> {
    match p {
        Some(u) => if winner == Some(u) {
            seq![]
        } else {
            seq![StatUpdate { user_id: u, won: false }]
        },
        None => seq![],
    }
}

/// The updates for a finished match: the winner first, then each other seated
/// player, X before O.
pub open spec fn stat_updates_spec(
    winner: Option<u128>,
    player_x: Option<u128>,
    player_o: Option<u128>,
) -> Seq<StatUpdate> {
    let first = match winner {
        Some(u) => seq![StatUpdate { user_id: u, won: true }],
        None => seq![],
    };
    first + loser_update(winner, player_x) + loser_update(winner, player_o)
}

/// The record changes that a finished match with these seats and this winner makes.
pub fn stat_updates(winner: Option<u128>, player_x: Option<u128>, player_o: Option<u128>) -> (r:
    Vec<StatUpdate>)
    ensures
        r@ == stat_updates_spec(winner, player_x, player_o),
{
    let mut r: Vec<StatUpdate> = Vec::new();
    if let Some(u) = winner {
        r.push(StatUpdate { user_id: u, won: true });
    }
    if let Some(p) = player_x {
        if winner != Some(p) {
            r.push(StatUpdate { user_id: p, won: false });
        }
    }
    if let Some(p) = player_o {
        if winner != Some(p) {
            r.push(StatUpdate { user_id: p, won: false });
        }
    }
    assert(r@ =~= stat_updates_spec(winner, player_x, player_o));
    r
}

/// Each seated player's games-played count goes up by exactly one when the seats are
/// held by different users; only the winner's games-won count goes up.
pub proof fn lemma_each_player_counted_once(
    winner: Option<u128>,
    player_x: Option<u128>,
    player_o: Option<u128>,
    u: u128,
)
    requires
        player_x is Some && player_o is Some ==> player_x != player_o,
        winner is Some ==> winner == player_x || winner == player_o,
    ensures
        ({
            let ups = stat_updates_spec(winner, player_x, player_o);
            &&& (player_x == Some(u) || player_o == Some(u)) ==> ups.filter(
                |s: StatUpdate| s.user_id == u,
            ).len() == 1
            &&& forall|i: int| 0 <= i < ups.len() ==> (#[trigger] ups[i]).won == (winner == Some(
                ups[i].user_id,
            ))
        }),
{
    let ups = stat_updates_spec(winner, player_x, player_o);
    let f = |s: StatUpdate| s.user_id == u;
    reveal_with_fuel(Seq::filter, 4);
    assert(ups.len() <= 3);
    if ups.len() == 0 {
    } else if ups.len() == 1 {
        assert(ups.drop_last() =~= Seq::<StatUpdate>::empty());
    } else if ups.len() == 2 {
        assert(ups.drop_last().drop_last() =~= Seq::<StatUpdate>::empty());
    } else {
        assert(ups.drop_last().drop_last().drop_last() =~= Seq::<StatUpdate>::empty());
    }
}

} // verus!
