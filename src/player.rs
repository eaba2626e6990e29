//! A player's own side of the game: name, points, hand and deck.
use vstd::prelude::*;
use vstd::string::*;

use crate::card::{is_number_value, rank, Card, Suit, Value};
use crate::game_state::STARTING_POINTS;
use crate::protocol::{card_action, Action, ActionType, ActionView};
use crate::random::shuffle_in_place;

verus! {

/// Cards in a standard deck.
pub const DECK_SIZE: usize = 52;

/// The suit of the `i`-th group of thirteen cards in a fresh deck.
pub open spec fn suit_at(i: int) -> Suit {
    if i == 0 {
        Suit::Spades
    } else if i == 1 {
        Suit::Clubs
    } else if i == 2 {
        Suit::Hearts
    } else {
        Suit::Diamonds
    }
}

/// The value of the `j`-th card of a suit in a fresh deck, Ace first.
pub open spec fn value_at(j: int) -> Value {
    if j == 0 {
        Value::Ace
    } else if j == 1 {
        Value::Two
    } else if j == 2 {
        Value::Three
    } else if j == 3 {
        Value::Four
    } else if j == 4 {
        Value::Five
    } else if j == 5 {
        Value::Six
    } else if j == 6 {
        Value::Seven
    } else if j == 7 {
        Value::Eight
    } else if j == 8 {
        Value::Nine
    } else if j == 9 {
        Value::Ten
    } else if j == 10 {
        Value::Jack
    } else if j == 11 {
        Value::Queen
    } else {
        Value::King
    }
}

/// A fresh deck: each suit in turn, each from Ace to King.
pub open spec fn standard_deck() -> Seq<Card> {
    Seq::new(52, |k: int| Card { suit: suit_at(k / 13), value: value_at(k % 13) })
}

/// One draw: the top (last) card of the deck goes to the end of the hand.
pub open spec fn draw_one(hand: Seq<Card>, deck: Seq<Card>) -> (Seq<Card>, Seq<Card>) {
    if deck.len() == 0 {
        (hand, deck)
    } else {
        (hand.push(deck.last()), deck.drop_last())
    }
}

/// `k` draws in a row; once the deck is empty, a draw does nothing.
pub open spec fn draws(hand: Seq<Card>, deck: Seq<Card>, k: nat) -> (Seq<Card>, Seq<Card>)
    decreases k,
{
    if k == 0 {
        (hand, deck)
    } else {
        let prev = draws(hand, deck, (k - 1) as nat);
        draw_one(prev.0, prev.1)
    }
}

/// `i` is the first position of `c` in `s`.
pub open spec fn is_first(s: Seq<Card>, c: Card, i: int) -> bool {
    &&& 0 <= i < s.len()
    &&& s[i] == c
    &&& forall|j: int| 0 <= j < i ==> s[j] != c
}

/// The first position of `c` in `s`, when `s` holds it.
pub open spec fn first_index(s: Seq<Card>, c: Card) -> int {
    choose|i: int| is_first(s, c, i)
}

/// `s` without the first copy of `c`.
pub open spec fn without(s: Seq<Card>, c: Card) -> Seq<Card> {
    s.remove(first_index(s, c))
}

/// What a `Player` holds.
pub struct PlayerState {
    pub name: Seq<char>,
    pub points: u16,
    pub hand: Seq<Card>,
    pub deck: Seq<Card>,
}

/// A player with a hand of cards and a deck to draw from.
pub struct Player {
    name: String,
    points: u16,
    hand: Vec<Card>,
    deck: Vec<Card>,
}

impl View for Player {
    type V = PlayerState;

    closed spec fn view(&self) -> PlayerState {
        PlayerState { name: self.name@, points: self.points, hand: self.hand@, deck: self.deck@ }
    }
}

proof fn lemma_draws_len(hand: Seq<Card>, deck: Seq<Card>, k: nat)
    requires
        k <= deck.len(),
    ensures
        draws(hand, deck, k).0.len() == hand.len() + k,
        draws(hand, deck, k).1.len() == deck.len() - k,
    decreases k,
{
    if k > 0 {
        lemma_draws_len(hand, deck, (k - 1) as nat);
    }
}

proof fn lemma_draws_keep_cards(hand: Seq<Card>, deck: Seq<Card>, k: nat)
    ensures
        draws(hand, deck, k).0.len() + draws(hand, deck, k).1.len() == hand.len() + deck.len(),
        draws(hand, deck, k).0.to_multiset().add(draws(hand, deck, k).1.to_multiset())
            == hand.to_multiset().add(deck.to_multiset()),
    decreases k,
{
    if k > 0 {
        lemma_draws_keep_cards(hand, deck, (k - 1) as nat);
        let prev = draws(hand, deck, (k - 1) as nat);
        if prev.1.len() > 0 {
            let (h, d) = prev;
            assert(d =~= d.drop_last().push(d.last()));
            vstd::seq_lib::lemma_multiset_commutative(d.drop_last(), seq![d.last()]);
            d.drop_last().to_multiset_ensures();
            h.to_multiset_ensures();
            assert(d.to_multiset() =~= d.drop_last().to_multiset().insert(d.last()));
            assert(h.push(d.last()).to_multiset() =~= h.to_multiset().insert(d.last()));
        }
    }
}

proof fn lemma_first_unique(s: Seq<Card>, c: Card, i: int)
    requires
        is_first(s, c, i),
    ensures
        first_index(s, c) == i,
{
    let j = first_index(s, c);
    assert(is_first(s, c, j));
    if j < i {
        assert(s[j] != c);
    } else if i < j {
        assert(s[i] != c);
    }
}

fn suit_from_index(i: usize) -> (r: Suit)
    requires
        i < 4,
    ensures
        r == suit_at(i as int),
{
    if i == 0 {
        Suit::Spades
    } else if i == 1 {
        Suit::Clubs
    } else if i == 2 {
        Suit::Hearts
    } else {
        Suit::Diamonds
    }
}

fn value_from_index(j: usize) -> (r: Value)
    requires
        j < 13,
    ensures
        r == value_at(j as int),
{
    if j == 0 {
        Value::Ace
    } else if j == 1 {
        Value::Two
    } else if j == 2 {
        Value::Three
    } else if j == 3 {
        Value::Four
    } else if j == 4 {
        Value::Five
    } else if j == 5 {
        Value::Six
    } else if j == 6 {
        Value::Seven
    } else if j == 7 {
        Value::Eight
    } else if j == 8 {
        Value::Nine
    } else if j == 9 {
        Value::Ten
    } else if j == 10 {
        Value::Jack
    } else if j == 11 {
        Value::Queen
    } else {
        Value::King
    }
}

/// A fresh, unshuffled deck.
fn init_deck() -> (r: Vec<Card>)
    ensures
        r@ == standard_deck(),
{
    let mut deck: Vec<Card> = Vec::new();
    let mut k: usize = 0;
    while k < DECK_SIZE
        invariant
            0 <= k <= DECK_SIZE,
            deck@ == standard_deck().subrange(0, k as int),
        decreases DECK_SIZE - k,
    {
        deck.push(Card::new(suit_from_index(k / 13), value_from_index(k % 13)));
        assert(deck@ =~= standard_deck().subrange(0, k + 1));
        k = k + 1;
    }
    assert(standard_deck().subrange(0, 52) =~= standard_deck());
    deck
}

/// The first position of `card` in `cards`.
fn position_in(cards: &Vec<Card>, card: &Card) -> (r: Option<usize>)
    ensures
        match r {
            Some(i) => is_first(cards@, *card, i as int) && first_index(cards@, *card) == i,
            None => !cards@.contains(*card),
        },
{
    let mut i: usize = 0;
    while i < cards.len()
        invariant
            0 <= i <= cards@.len(),
            forall|j: int| 0 <= j < i ==> cards@[j] != *card,
        decreases cards@.len() - i,
    {
        if cards[i] == *card {
            proof {
                lemma_first_unique(cards@, *card, i as int);
            }
            return Some(i);
        }
        i = i + 1;
    }
    None
}

impl Player {
    /// At most a deck's worth of cards between hand and deck.
    pub open spec fn wf(&self) -> bool {
        self@.hand.len() + self@.deck.len() <= DECK_SIZE
    }

    fn with_deck(name: String, deck: Vec<Card>, draw: u8) -> (r: Player)
        requires
            deck@.len() == DECK_SIZE,
            draw <= DECK_SIZE,
        ensures
            r.wf(),
            r@.name == name@,
            r@.points == STARTING_POINTS,
            (r@.hand, r@.deck) == draws(Seq::<Card>::empty(), deck@, draw as nat),
            r@.hand.len() == draw,
            r@.deck.len() == DECK_SIZE - draw,
    {
        let mut player = Player { name, points: STARTING_POINTS, hand: Vec::new(), deck };
        proof {
            lemma_draws_len(Seq::<Card>::empty(), deck@, draw as nat);
        }
        player.draw_n_times(draw);
        player
    }

    /// A nameless player with a fresh, unshuffled deck, who has drawn six cards.
    pub fn new() -> (r: Player)
        ensures
            r.wf(),
            r@.name == Seq::<char>::empty(),
            r@.points == STARTING_POINTS,
            (r@.hand, r@.deck) == draws(Seq::<Card>::empty(), standard_deck(), 6),
            r@.hand.len() == 6,
            r@.deck.len() == DECK_SIZE - 6,
    {
        Player::with_deck(String::new(), init_deck(), 6)
    }

    /// A player called `name` with a freshly shuffled deck, who has drawn five
    /// cards.
    pub fn with_name(name: String) -> (r: Player)
        ensures
            r.wf(),
            r@.name == name@,
            r@.points == STARTING_POINTS,
            r@.hand.len() == 5,
            r@.deck.len() == DECK_SIZE - 5,
            r@.hand.to_multiset().add(r@.deck.to_multiset()) == standard_deck().to_multiset(),
    {
        let mut deck = init_deck();
        shuffle_in_place(&mut deck);
        let r = Player::with_deck(name, deck, 5);
        proof {
            lemma_draws_keep_cards(Seq::<Card>::empty(), deck@, 5);
            Seq::<Card>::empty().to_multiset_ensures();
            assert(Seq::<Card>::empty().to_multiset().add(deck@.to_multiset()) =~= deck@.to_multiset());
        }
        r
    }

    pub fn name(&self) -> (r: &str)
        ensures
            r@ == self@.name,
    {
        self.name.as_str()
    }

    pub fn set_name(&mut self, name: String)
        ensures
            final(self)@ == (PlayerState { name: name@, ..old(self)@ }),
    {
        self.name = name;
    }

    pub fn points(&self) -> (r: u16)
        ensures
            r == self@.points,
    {
        self.points
    }

    pub fn hand(&self) -> (r: &Vec<Card>)
        ensures
            r@ == self@.hand,
    {
        &self.hand
    }

    pub fn get_card_in_hand(&self, n: usize) -> (r: &Card)
        requires
            n < self@.hand.len(),
        ensures
            *r == self@.hand[n as int],
    {
        &self.hand[n]
    }

    pub fn hand_size(&self) -> (r: usize)
        ensures
            r == self@.hand.len(),
    {
        self.hand.len()
    }

    pub fn deck_size(&self) -> (r: u16)
        requires
            self.wf(),
        ensures
            r == self@.deck.len(),
    {
        self.deck.len() as u16
    }

    /// Moves the top card of the deck to the end of the hand; does nothing
    /// when the deck is empty.
    pub fn draw_card(&mut self)
        requires
            old(self).wf(),
        ensures
            final(self).wf(),
            (final(self)@.hand, final(self)@.deck) == draw_one(old(self)@.hand, old(self)@.deck),
            final(self)@.name == old(self)@.name,
            final(self)@.points == old(self)@.points,
    {
        match self.deck.pop() {
            Some(card) => self.hand.push(card),
            None => {},
        }
    }

    /// Draws `n` times.
    pub fn draw_n_times(&mut self, n: u8)
        requires
            old(self).wf(),
        ensures
            final(self).wf(),
            (final(self)@.hand, final(self)@.deck) == draws(old(self)@.hand, old(self)@.deck, n as nat),
            final(self)@.name == old(self)@.name,
            final(self)@.points == old(self)@.points,
    {
        let mut i: u8 = 0;
        while i < n
            invariant
                0 <= i <= n,
                self.wf(),
                (self@.hand, self@.deck) == draws(old(self)@.hand, old(self)@.deck, i as nat),
                self@.name == old(self)@.name,
                self@.points == old(self)@.points,
            decreases n - i,
        {
            self.draw_card();
            i = i + 1;
        }
    }

    /// Removes the first copy of `card` from the hand; `None`, and nothing
    /// changes, when the hand does not hold it.
    pub fn remove_card_from_hand(&mut self, card: &Card) -> (r: Option<()>)
        requires
            old(self).wf(),
        ensures
            final(self).wf(),
            final(self)@.name == old(self)@.name,
            final(self)@.points == old(self)@.points,
            final(self)@.deck == old(self)@.deck,
            r is Some <==> old(self)@.hand.contains(*card),
            r is Some ==> final(self)@.hand == without(old(self)@.hand, *card),
            r is None ==> final(self)@.hand == old(self)@.hand,
    {
        match position_in(&self.hand, card) {
            Some(i) => {
                self.hand.remove(i);
                Some(())
            },
            None => None,
        }
    }

    /// Plays a number card: the card leaves the hand, and as many cards as its
    /// face value are drawn. `None`, and nothing changes, when the hand does
    /// not hold the card.
    pub fn play_number(&mut self, card: &Card) -> (r: Option<Action>)
        requires
            old(self).wf(),
            is_number_value(card.value),
        ensures
            final(self).wf(),
            final(self)@.name == old(self)@.name,
            final(self)@.points == old(self)@.points,
            r is Some <==> old(self)@.hand.contains(*card),
            match r {
                Some(a) => a@ == (ActionView {
                    kind: ActionType::PlayNumber,
                    attachment: rank(card.value) as u16,
                    from: old(self)@.name,
                    to: Seq::<char>::empty(),
                }) && (final(self)@.hand, final(self)@.deck) == draws(
                    without(old(self)@.hand, *card),
                    old(self)@.deck,
                    rank(card.value),
                ),
                None => final(self)@ == old(self)@,
            },
    {
        match self.remove_card_from_hand(card) {
            Some(()) => {
                let value = card.value.to_number_value();
                self.draw_n_times(value as u8);
                Some(Action::new(ActionType::PlayNumber, value, self.name.clone(), String::new()))
            },
            None => None,
        }
    }

    /// Plays a King or a Queen against `to_player`, with a number card of the
    /// hand attached or none. Both cards leave the hand, and the action's
    /// attachment is the attached card's face value, or 0. `None`, and
    /// nothing changes, when the hand does not hold the cards.
    pub fn play_king_queen(&mut self, card: &Card, attachment: Option<Card>, to_player: &str) -> (r:
        Option<Action>)
        requires
            old(self).wf(),
            card.value == Value::King || card.value == Value::Queen,
            attachment matches Some(c) ==> is_number_value(c.value),
        ensures
            final(self).wf(),
            final(self)@.name == old(self)@.name,
            final(self)@.points == old(self)@.points,
            final(self)@.deck == old(self)@.deck,
            ({
                let rest = without(old(self)@.hand, *card);
                match attachment {
                    None => if old(self)@.hand.contains(*card) {
                        r is Some && final(self)@.hand == rest
                    } else {
                        r is None
                    },
                    Some(c) => if old(self)@.hand.contains(*card) && rest.contains(c) {
                        r is Some && final(self)@.hand == without(rest, c)
                    } else {
                        r is None
                    },
                }
            }),
            r is None ==> final(self)@ == old(self)@,
            r matches Some(a) ==> a@ == (ActionView {
                kind: card_action(*card),
                attachment: match attachment {
                    Some(c) => rank(c.value) as u16,
                    None => 0,
                },
                from: old(self)@.name,
                to: to_player@,
            }),
    {
        let i = match position_in(&self.hand, card) {
            Some(i) => i,
            None => return None,
        };
        let ghost rest = self.hand@.remove(i as int);
        let value: u16 = match attachment {
            Some(c) => {
                let mut probe = self.hand.clone();
                probe.remove(i);
                assert(probe@ == rest);
                match position_in(&probe, &c) {
                    Some(j) => {
                        self.hand.remove(i);
                        self.hand.remove(j);
                        c.value.to_number_value()
                    },
                    None => return None,
                }
            },
            None => {
                self.hand.remove(i);
                0
            },
        };
        let kind = Action::card_to_action_type(card);
        Some(Action::new(kind, value, self.name.clone(), String::from_str(to_player)))
    }
}

} // verus!
