//! The turn engine: how each action changes the registry, and the join step
//! that adds players to it.
use vstd::prelude::*;

use crate::game_state::{
    advance, first_with_name, has_name, names_distinct, next_index, GameState, GameStateView, PlayerDetails,
    PlayerView, STARTING_POINTS,
};
use crate::protocol::{Action, ActionType, ActionView, StatusType};

verus! {

/// What the turn loop does after an action.
#[derive(Clone, Copy, Debug, PartialEq, Eq, Structural)]
pub enum TurnStep {
    /// The acting player may act again.
    Continue,
    /// The turn is over and the next player's has begun.
    TurnOver,
}

/// Why an action could not be applied; the registry is left as it was.
#[derive(Clone, Copy, Debug, PartialEq, Eq, Structural)]
pub enum TurnError {
    /// The action names a player who is not registered.
    UnknownPlayer,
    /// A turn start comes from the host, never from a player.
    UnexpectedTurnStart,
    /// A turn cannot end while no player is registered.
    NoPlayers,
}

/// Points after a King with `attachment`: `10 + attachment` less, never below 0.
pub open spec fn damage(points: u16, attachment: u16) -> u16 {
    if points >= 10 + attachment {
        (points - 10 - attachment) as u16
    } else {
        0
    }
}

/// Points after a Queen with `attachment`: `10 + attachment` more, held at
/// the largest value that points can take.
pub open spec fn heal(points: u16, attachment: u16) -> u16 {
    if points + 10 + attachment <= 0xFFFF {
        (points + 10 + attachment) as u16
    } else {
        0xFFFF
    }
}

/// The players with the points of the one at `i` replaced.
pub open spec fn with_points(ps: Seq<PlayerView>, i: int, points: u16) -> Seq<PlayerView> {
    ps.update(i, PlayerView { name: ps[i].name, points })
}

/// The position of the first player called `name`, when there is one.
pub open spec fn position_of(ps: Seq<PlayerView>, name: Seq<char>) -> int {
    choose|i: int| first_with_name(ps, name, i)
}

/// What an action does to the registry, and whether the turn goes on.
/// Jack, Number and the Aces leave the registry as it is: a Number's card
/// bookkeeping happens in the player's hand, and the others have no effect
/// on points.
pub open spec fn turn_effect(g: GameStateView, a: ActionView) -> Result<
    (GameStateView, TurnStep),
    TurnError,
> {
    match a.kind {
        ActionType::PlayKing => if has_name(g.players, a.to) {
            let i = position_of(g.players, a.to);
            Ok(
                (
                    GameStateView {
                        players: with_points(g.players, i, damage(g.players[i].points, a.attachment)),
                        current: g.current,
                    },
                    TurnStep::Continue,
                ),
            )
        } else {
            Err(TurnError::UnknownPlayer)
        },
        ActionType::PlayQueen => if has_name(g.players, a.from) {
            let i = position_of(g.players, a.from);
            Ok(
                (
                    GameStateView {
                        players: with_points(g.players, i, heal(g.players[i].points, a.attachment)),
                        current: g.current,
                    },
                    TurnStep::Continue,
                ),
            )
        } else {
            Err(TurnError::UnknownPlayer)
        },
        ActionType::TurnStart => Err(TurnError::UnexpectedTurnStart),
        ActionType::TurnEnd => if g.players.len() == 0 {
            Err(TurnError::NoPlayers)
        } else {
            Ok(
                (
                    GameStateView {
                        players: g.players,
                        current: next_index(g.current, g.players.len()),
                    },
                    TurnStep::TurnOver,
                ),
            )
        },
        _ => Ok((g, TurnStep::Continue)),
    }
}

proof fn lemma_first_exists(ps: Seq<PlayerView>, name: Seq<char>)
    requires
        has_name(ps, name),
    ensures
        first_with_name(ps, name, position_of(ps, name)),
    decreases ps.len(),
{
    let init = ps.drop_last();
    if has_name(init, name) {
        lemma_first_exists(init, name);
        let i = position_of(init, name);
        assert(ps[i] == init[i]);
        assert forall|j: int| 0 <= j < i implies (#[trigger] ps[j]).name != name by {
            assert(ps[j] == init[j]);
        }
        assert(first_with_name(ps, name, i));
    } else {
        let k = choose|k: int| 0 <= k < ps.len() && (#[trigger] ps[k]).name == name;
        if k < ps.len() - 1 {
            assert(init[k] == ps[k]);
        }
        assert forall|j: int| 0 <= j < ps.len() - 1 implies (#[trigger] ps[j]).name != name by {
            assert(init[j] == ps[j]);
        }
        assert(first_with_name(ps, name, ps.len() - 1));
    }
}

proof fn lemma_first_unique(ps: Seq<PlayerView>, name: Seq<char>, i: int)
    requires
        first_with_name(ps, name, i),
    ensures
        position_of(ps, name) == i,
{
    let j = position_of(ps, name);
    assert(first_with_name(ps, name, j));
    if j < i {
        assert(ps[j].name != name);
    } else if i < j {
        assert(ps[i].name != name);
    }
}

impl GameState {
    /// Sets the points of the first player called `name` to `f(points)`.
    fn change_points(&mut self, name: &str, attachment: u16, is_king: bool) -> (r: Result<(), TurnError>)
        requires
            old(self).wf(),
        ensures
            final(self).wf(),
            match r {
                Ok(()) => has_name(old(self)@.players, name@) && {
                    let i = position_of(old(self)@.players, name@);
                    let p = old(self)@.players[i].points;
                    final(self)@ == GameStateView {
                        players: with_points(
                            old(self)@.players,
                            i,
                            if is_king {
                                damage(p, attachment)
                            } else {
                                heal(p, attachment)
                            },
                        ),
                        current: old(self)@.current,
                    }
                },
                Err(e) => e == TurnError::UnknownPlayer && !has_name(old(self)@.players, name@)
                    && final(self)@ == old(self)@,
            },
    {
        let ghost before = self@;
        match self.player_by_name_mut(name) {
            Some(player) => {
                let points = player.points();
                let bonus: u32 = 10 + attachment as u32;
                let new_points: u16 = if is_king {
                    if points as u32 >= bonus {
                        (points as u32 - bonus) as u16
                    } else {
                        0
                    }
                } else if points as u32 + bonus <= 0xFFFF {
                    (points as u32 + bonus) as u16
                } else {
                    0xFFFF
                };
                let ghost old_player = player@;
                player.set_points(new_points);
                proof {
                    let i = choose|i: int|
                        first_with_name(before.players, name@, i) && old_player == #[trigger] before.players[i];
                    lemma_first_unique(before.players, name@, i);
                }
                Ok(())
            },
            None => Err(TurnError::UnknownPlayer),
        }
    }

    /// Applies a King: the target loses `10 + attachment` points, never going
    /// below 0.
    pub fn handle_king(&mut self, action: &Action) -> (r: Result<(), TurnError>)
        requires
            old(self).wf(),
            action@.kind == ActionType::PlayKing,
        ensures
            final(self).wf(),
            match (r, turn_effect(old(self)@, action@)) {
                (Ok(()), Ok((g, _))) => final(self)@ == g,
                (Err(e), Err(f)) => e == f && final(self)@ == old(self)@,
                _ => false,
            },
    {
        self.change_points(action.to_player(), *action.attachment(), true)
    }

    /// Applies a Queen: the acting player gains `10 + attachment` points.
    pub fn handle_queen(&mut self, action: &Action) -> (r: Result<(), TurnError>)
        requires
            old(self).wf(),
            action@.kind == ActionType::PlayQueen,
        ensures
            final(self).wf(),
            match (r, turn_effect(old(self)@, action@)) {
                (Ok(()), Ok((g, _))) => final(self)@ == g,
                (Err(e), Err(f)) => e == f && final(self)@ == old(self)@,
                _ => false,
            },
    {
        self.change_points(action.from_player(), *action.attachment(), false)
    }

    /// Applies one action of the acting player and says whether the turn goes on.
    pub fn apply_action(&mut self, action: &Action) -> (r: Result<TurnStep, TurnError>)
        requires
            old(self).wf(),
        ensures
            final(self).wf(),
            match (r, turn_effect(old(self)@, action@)) {
                (Ok(s), Ok((g, t))) => final(self)@ == g && s == t,
                (Err(e), Err(f)) => e == f && final(self)@ == old(self)@,
                _ => false,
            },
    {
        match action.action_type() {
            ActionType::PlayKing => match self.handle_king(action) {
                Ok(()) => Ok(TurnStep::Continue),
                Err(e) => Err(e),
            },
            ActionType::PlayQueen => match self.handle_queen(action) {
                Ok(()) => Ok(TurnStep::Continue),
                Err(e) => Err(e),
            },
            ActionType::TurnStart => Err(TurnError::UnexpectedTurnStart),
            ActionType::TurnEnd => {
                if self.num_players() == 0 {
                    Err(TurnError::NoPlayers)
                } else {
                    self.move_next_player();
                    Ok(TurnStep::TurnOver)
                }
            },
            _ => Ok(TurnStep::Continue),
        }
    }

    /// The host's answer to a proposed name: `Yes`, and the player joins with
    /// the starting points, when no player has the name yet; `No`, and nothing
    /// changes, otherwise.
    pub fn try_join(&mut self, name: &str) -> (r: StatusType)
        requires
            old(self).wf(),
        ensures
            final(self).wf(),
            final(self)@.current == old(self)@.current,
            has_name(old(self)@.players, name@) ==> r == StatusType::No && final(self)@ == old(self)@,
            !has_name(old(self)@.players, name@) ==> r == StatusType::Yes && final(self)@.players
                == old(self)@.players.push(PlayerView { name: name@, points: STARTING_POINTS }),
            names_distinct(old(self)@.players) ==> names_distinct(final(self)@.players),
    {
        if self.is_unique_name(name) {
            self.add_player(PlayerDetails::new(String::from_str(name), STARTING_POINTS));
            StatusType::Yes
        } else {
            StatusType::No
        }
    }
}

/// A King never takes a player below 0 points: the target ends at
/// `points - 10 - attachment`, or at exactly 0 when that would be negative.
pub proof fn lemma_king_saturates(g: GameStateView, a: ActionView)
    requires
        a.kind == ActionType::PlayKing,
        has_name(g.players, a.to),
    ensures
        ({
            let i = position_of(g.players, a.to);
            let before = g.players[i].points as int;
            &&& 0 <= i < g.players.len()
            &&& turn_effect(g, a) is Ok
            &&& turn_effect(g, a)->Ok_0.0.players[i].points as int == if before - 10 - a.attachment >= 0 {
                before - 10 - a.attachment
            } else {
                0
            }
        }),
{
    lemma_first_exists(g.players, a.to);
}

/// A Queen with attachment `a` raises the acting player's points by exactly
/// `10 + a`, as long as the result fits in the points' range.
pub proof fn lemma_queen_heals(g: GameStateView, a: ActionView)
    requires
        a.kind == ActionType::PlayQueen,
        has_name(g.players, a.from),
        g.players[position_of(g.players, a.from)].points + 10 + a.attachment <= 0xFFFF,
    ensures
        ({
            let i = position_of(g.players, a.from);
            &&& turn_effect(g, a) is Ok
            &&& turn_effect(g, a)->Ok_0.0.players[i].points == g.players[i].points + 10 + a.attachment
        }),
{
    lemma_first_exists(g.players, a.from);
}

proof fn lemma_advance(c: nat, n: nat, k: nat)
    requires
        c < n,
    ensures
        advance(c, n, k) as int == ((c + k) as int) % (n as int),
    decreases k,
{
    if k > 0 {
        lemma_advance(c, n, (k - 1) as nat);
        let p = (c + k - 1) as int;
        assert(((p % (n as int)) + 1) % (n as int) == (p + 1) % (n as int)) by {
            vstd::arithmetic::div_mod::lemma_add_mod_noop_right(1, p, n as int);
        }
    } else {
        vstd::arithmetic::div_mod::lemma_small_mod(c, n);
    }
}

/// The registry after `k` turn-end actions in a row, each applied to what
/// the one before left.
pub open spec fn after_turn_ends(g: GameStateView, a: ActionView, k: nat) -> GameStateView
    decreases k,
{
    if k == 0 {
        g
    } else {
        let prev = after_turn_ends(g, a, (k - 1) as nat);
        match turn_effect(prev, a) {
            Ok((next, _)) => next,
            Err(_) => prev,
        }
    }
}

proof fn lemma_after_turn_ends(g: GameStateView, a: ActionView, k: nat)
    requires
        a.kind == ActionType::TurnEnd,
        g.players.len() > 0,
    ensures
        after_turn_ends(g, a, k) == (GameStateView {
            players: g.players,
            current: advance(g.current, g.players.len(), k),
        }),
    decreases k,
{
    if k > 0 {
        lemma_after_turn_ends(g, a, (k - 1) as nat);
    }
}

/// With `n` registered players, `n` turn ends in a row bring the turn back to
/// the player who had it, and leave every player's points as they were.
pub proof fn lemma_turn_rotation(g: GameStateView, a: ActionView)
    requires
        a.kind == ActionType::TurnEnd,
        g.players.len() > 0,
        g.current < g.players.len(),
    ensures
        after_turn_ends(g, a, g.players.len()) == g,
{
    let n = g.players.len();
    lemma_after_turn_ends(g, a, n);
    lemma_advance(g.current, n, n);
    vstd::arithmetic::div_mod::lemma_mod_add_multiples_vanish(g.current as int, n as int);
    vstd::arithmetic::div_mod::lemma_small_mod(g.current, n);
}

} // verus!
