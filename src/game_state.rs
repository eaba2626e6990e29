//! The host's registry of players: who plays, with how many points, and whose
//! turn it is.
use vstd::prelude::*;
use vstd::string::*;

use crate::player::Player;
use crate::random::shuffle_in_place;
use crate::text::same_text;

verus! {

/// Points that every player starts with.
pub const STARTING_POINTS: u16 = 100;

/// A player as the host sees it: a name and a number of points.
#[derive(Clone, Debug, PartialEq)]
pub struct PlayerDetails {
    name: String,
    points: u16,
}

/// What a `PlayerDetails` holds.
pub struct PlayerView {
    pub name: Seq<char>,
    pub points: u16,
}

impl View for PlayerDetails {
    type V = PlayerView;

    closed spec fn view(&self) -> PlayerView {
        PlayerView { name: self.name@, points: self.points }
    }
}

impl PlayerDetails {
    pub fn new(name: String, points: u16) -> (r: PlayerDetails)
        ensures
            r@ == (PlayerView { name: name@, points }),
    {
        PlayerDetails { name, points }
    }

    pub fn name(&self) -> (r: &str)
        ensures
            r@ == self@.name,
    {
        self.name.as_str()
    }

    /// What the host needs to know of a player: name and points.
    pub fn from_player(player: &Player) -> (r: PlayerDetails)
        ensures
            r@ == (PlayerView { name: player@.name, points: player@.points }),
    {
        PlayerDetails { name: String::from_str(player.name()), points: player.points() }
    }

    pub fn points(&self) -> (r: u16)
        ensures
            r == self@.points,
    {
        self.points
    }

    pub fn set_points(&mut self, points: u16)
        ensures
            final(self)@ == (PlayerView { name: old(self)@.name, points }),
    {
        self.points = points;
    }
}

/// The views of a sequence of players.
pub open spec fn player_views(ps: Seq<PlayerDetails>) -> Seq<PlayerView> {
    ps.map_values(|p: PlayerDetails| p@)
}

/// Some player in `ps` is called `name`.
pub open spec fn has_name(ps: Seq<PlayerView>, name: Seq<char>) -> bool {
    exists|i: int| 0 <= i < ps.len() && (#[trigger] ps[i]).name == name
}

/// `i` is the first position in `ps` of a player called `name`.
pub open spec fn first_with_name(ps: Seq<PlayerView>, name: Seq<char>, i: int) -> bool {
    &&& 0 <= i < ps.len()
    &&& ps[i].name == name
    &&& forall|j: int| 0 <= j < i ==> (#[trigger] ps[j]).name != name
}

/// No two players in `ps` share a name.
pub open spec fn names_distinct(ps: Seq<PlayerView>) -> bool {
    forall|i: int, j: int| 0 <= i < j < ps.len() ==> (#[trigger] ps[i]).name != (#[trigger] ps[j]).name
}

/// The position after `c` in a round of `n` players.
pub open spec fn next_index(c: nat, n: nat) -> nat {
    if n == 0 {
        0
    } else {
        (c + 1) % n
    }
}

/// The position reached from `c` after `k` turns in a round of `n` players.
pub open spec fn advance(c: nat, n: nat, k: nat) -> nat
    decreases k,
{
    if k == 0 {
        c
    } else {
        next_index(advance(c, n, (k - 1) as nat), n)
    }
}

/// What a `GameState` holds.
pub struct GameStateView {
    pub players: Seq<PlayerView>,
    pub current: nat,
}

/// The registry: the players in turn order and whose turn it is.
#[derive(Clone, Debug, PartialEq)]
pub struct GameState {
    players: Vec<PlayerDetails>,
    current_player: usize,
}

impl View for GameState {
    type V = GameStateView;

    closed spec fn view(&self) -> GameStateView {
        GameStateView { players: player_views(self.players@), current: self.current_player as nat }
    }
}

impl GameState {
    /// The turn pointer names a player, or is 0 while there is none.
    pub open spec fn wf(&self) -> bool {
        if self@.players.len() == 0 {
            self@.current == 0
        } else {
            self@.current < self@.players.len()
        }
    }

    pub fn new() -> (r: Self)
        ensures
            r.wf(),
            r@.players == Seq::<PlayerView>::empty(),
            r@.current == 0,
    {
        let r = GameState { players: Vec::new(), current_player: 0 };
        assert(r@.players =~= Seq::<PlayerView>::empty());
        r
    }

    /// Appends a player at the end of the turn order.
    pub fn add_player(&mut self, p: PlayerDetails)
        requires
            old(self).wf(),
        ensures
            final(self).wf(),
            final(self)@.players == old(self)@.players.push(p@),
            final(self)@.current == old(self)@.current,
            names_distinct(old(self)@.players) && !has_name(old(self)@.players, p@.name)
                ==> names_distinct(final(self)@.players),
    {
        let ghost before = self.players@;
        self.players.push(p);
        assert(player_views(self.players@) =~= player_views(before).push(p@));
    }

    pub fn all_players(&self) -> (r: &Vec<PlayerDetails>)
        ensures
            player_views(r@) == self@.players,
    {
        &self.players
    }

    pub fn num_players(&self) -> (r: usize)
        ensures
            r == self@.players.len(),
    {
        self.players.len()
    }

    pub fn get_player(&self, pos: usize) -> (r: &PlayerDetails)
        requires
            pos < self@.players.len(),
        ensures
            r@ == self@.players[pos as int],
    {
        &self.players[pos]
    }

    /// The position of the first player called `name`.
    pub fn position_by_name(&self, name: &str) -> (r: Option<usize>)
        ensures
            match r {
                Some(i) => first_with_name(self@.players, name@, i as int),
                None => !has_name(self@.players, name@),
            },
    {
        let mut i: usize = 0;
        while i < self.players.len()
            invariant
                0 <= i <= self.players@.len(),
                forall|j: int| 0 <= j < i ==> (#[trigger] self@.players[j]).name != name@,
            decreases self.players@.len() - i,
        {
            if same_text(self.players[i].name.as_str(), name) {
                return Some(i);
            }
            i = i + 1;
        }
        None
    }

    pub fn player_by_name(&self, name: &str) -> (r: Option<&PlayerDetails>)
        ensures
            match r {
                Some(p) => exists|i: int|
                    first_with_name(self@.players, name@, i) && p@ == #[trigger] self@.players[i],
                None => !has_name(self@.players, name@),
            },
    {
        match self.position_by_name(name) {
            Some(i) => Some(&self.players[i]),
            None => None,
        }
    }

    pub fn player_by_name_mut(&mut self, name: &str) -> (r: Option<&mut PlayerDetails>)
        requires
            old(self).wf(),
        ensures
            match r {
                Some(p) => exists|i: int|
                    first_with_name(old(self)@.players, name@, i) && (*p)@ == #[trigger] old(self)@.players[i]
                        && final(self)@.players == old(self)@.players.update(i, final(p)@),
                None => !has_name(old(self)@.players, name@) && final(self)@ == old(self)@,
            },
            final(self)@.current == old(self)@.current,
    {
        match self.position_by_name(name) {
            Some(i) => Some(&mut self.players[i]),
            None => None,
        }
    }

    pub fn current_player(&self) -> (r: &PlayerDetails)
        requires
            self.wf(),
            self@.players.len() > 0,
        ensures
            r@ == self@.players[self@.current as int],
    {
        &self.players[self.current_player]
    }

    pub fn current_player_index(&self) -> (r: usize)
        ensures
            r == self@.current,
    {
        self.current_player
    }

    /// Passes the turn to the next player, wrapping round after the last.
    pub fn move_next_player(&mut self)
        requires
            old(self).wf(),
            old(self)@.players.len() > 0,
        ensures
            final(self).wf(),
            final(self)@.players == old(self)@.players,
            final(self)@.current == next_index(old(self)@.current, old(self)@.players.len()),
    {
        let n = self.players.len();
        self.current_player = (self.current_player + 1) % n;
    }

    /// Puts the players in a random turn order, once before the first turn;
    /// the turn goes to whoever comes first. As many players as before, each
    /// one of those before, and every player before still there, with its
    /// name and points.
    pub fn shuffle_players(&mut self)
        requires
            old(self).wf(),
        ensures
            final(self).wf(),
            final(self)@.current == 0,
            final(self)@.players.len() == old(self)@.players.len(),
            forall|i: int|
                0 <= i < final(self)@.players.len() ==> old(self)@.players.contains(
                    #[trigger] final(self)@.players[i],
                ),
            forall|j: int|
                0 <= j < old(self)@.players.len() ==> final(self)@.players.contains(
                    #[trigger] old(self)@.players[j],
                ),
    {
        let ghost before = self.players@;
        shuffle_in_place(&mut self.players);
        self.current_player = 0;
        proof {
            let after = self.players@;
            before.to_multiset_ensures();
            after.to_multiset_ensures();
            assert(self@.players == player_views(after));
            assert(old(self)@.players == player_views(before));
            assert forall|i: int| 0 <= i < self@.players.len() implies old(self)@.players.contains(
                #[trigger] self@.players[i],
            ) by {
                assert(after.contains(after[i]));
                assert(after.to_multiset().count(after[i]) > 0);
                assert(before.to_multiset().count(after[i]) > 0);
                assert(before.contains(after[i]));
                let j = choose|j: int| 0 <= j < before.len() && before[j] == after[i];
                assert(self@.players[i] == old(self)@.players[j]);
            }
            assert forall|j: int| 0 <= j < old(self)@.players.len() implies self@.players.contains(
                #[trigger] old(self)@.players[j],
            ) by {
                assert(before.contains(before[j]));
                assert(before.to_multiset().count(before[j]) > 0);
                assert(after.to_multiset().count(before[j]) > 0);
                assert(after.contains(before[j]));
                let i = choose|i: int| 0 <= i < after.len() && after[i] == before[j];
                assert(self@.players[i] == old(self)@.players[j]);
            }
        }
    }

    /// Whether no player is called `name` (exact, case-sensitive match).
    pub fn is_unique_name(&self, name: &str) -> (r: bool)
        ensures
            r == !has_name(self@.players, name@),
    {
        self.position_by_name(name).is_none()
    }
}

} // verus!
