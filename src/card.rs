//! Playing cards: suits, values, colours and how a card is rendered.
use vstd::prelude::*;
use vstd::string::*;

verus! {

/// The four suits of a standard deck.
#[derive(Clone, Copy, Debug, PartialEq, Eq, Structural)]
pub enum Suit {
    Spades,
    Clubs,
    Hearts,
    Diamonds,
}

/// The thirteen values of a suit.
#[derive(Clone, Copy, Debug, PartialEq, Eq, Structural)]
pub enum Value {
    Ace,
    Two,
    Three,
    Four,
    Five,
    Six,
    Seven,
    Eight,
    Nine,
    Ten,
    Jack,
    Queen,
    King,
}

/// The colour of a card, decided by its suit.
#[derive(Clone, Copy, Debug, PartialEq, Eq, Structural)]
pub enum Color {
    Black,
    Red,
}

/// The rank of a value on the card face: Ace is 1, Jack 11, Queen 12, King 13.
pub open spec fn rank(v: Value) -> nat {
    match v {
        Value::Ace => 1,
        Value::Two => 2,
        Value::Three => 3,
        Value::Four => 4,
        Value::Five => 5,
        Value::Six => 6,
        Value::Seven => 7,
        Value::Eight => 8,
        Value::Nine => 9,
        Value::Ten => 10,
        Value::Jack => 11,
        Value::Queen => 12,
        Value::King => 13,
    }
}

/// Number cards are Two to Ten.
pub open spec fn is_number_value(v: Value) -> bool {
    2 <= rank(v) <= 10
}

/// Spades and Clubs are black, Hearts and Diamonds red.
pub open spec fn suit_color(s: Suit) -> Color {
    match s {
        Suit::Spades | Suit::Clubs => Color::Black,
        Suit::Hearts | Suit::Diamonds => Color::Red,
    }
}

pub open spec fn suit_name(s: Suit) -> Seq<char> {
    match s {
        Suit::Spades => "Spades"@,
        Suit::Clubs => "Clubs"@,
        Suit::Hearts => "Hearts"@,
        Suit::Diamonds => "Diamonds"@,
    }
}

pub open spec fn value_name(v: Value) -> Seq<char> {
    match v {
        Value::Ace => "Ace"@,
        Value::Two => "Two"@,
        Value::Three => "Three"@,
        Value::Four => "Four"@,
        Value::Five => "Five"@,
        Value::Six => "Six"@,
        Value::Seven => "Seven"@,
        Value::Eight => "Eight"@,
        Value::Nine => "Nine"@,
        Value::Ten => "Ten"@,
        Value::Jack => "Jack"@,
        Value::Queen => "Queen"@,
        Value::King => "King"@,
    }
}

pub open spec fn color_name(c: Color) -> Seq<char> {
    match c {
        Color::Black => "Black"@,
        Color::Red => "Red"@,
    }
}

/// The terminal escape sequence that switches the text colour.
pub open spec fn ansi_code(c: Color) -> Seq<char> {
    match c {
        Color::Black => "\x1b[0;30m"@,
        Color::Red => "\x1b[0;31m"@,
    }
}

/// The escape sequence that resets the text colour.
pub open spec fn ansi_reset() -> Seq<char> {
    "\x1b[0m"@
}

/// The first code point of each suit's row in the Unicode playing-card block.
pub open spec fn suit_glyph_base(s: Suit) -> nat {
    match s {
        Suit::Spades => 0x1F0A0,
        Suit::Hearts => 0x1F0B0,
        Suit::Diamonds => 0x1F0C0,
        Suit::Clubs => 0x1F0D0,
    }
}

/// The position of a value inside a suit's row: the block has a Knight
/// between Jack and Queen, which this game does not use.
pub open spec fn glyph_offset(v: Value) -> nat {
    if rank(v) <= 11 {
        rank(v)
    } else {
        rank(v) + 1
    }
}

impl Suit {
    /// The suit's name, as shown to a player.
    pub fn name(&self) -> (r: &'static str)
        ensures
            r@ == suit_name(*self),
    {
        match self {
            Suit::Spades => "Spades",
            Suit::Clubs => "Clubs",
            Suit::Hearts => "Hearts",
            Suit::Diamonds => "Diamonds",
        }
    }
}

impl Value {
    /// Whether this is a number card (Two to Ten).
    pub fn is_number(&self) -> (r: bool)
        ensures
            r == is_number_value(*self),
    {
        match self {
            Value::Two | Value::Three | Value::Four | Value::Five | Value::Six | Value::Seven
            | Value::Eight | Value::Nine | Value::Ten => true,
            _ => false,
        }
    }

    /// The face value of a number card.
    pub fn to_number_value(&self) -> (r: u16)
        requires
            is_number_value(*self),
        ensures
            r as nat == rank(*self),
            2 <= r <= 10,
    {
        match self {
            Value::Two => 2,
            Value::Three => 3,
            Value::Four => 4,
            Value::Five => 5,
            Value::Six => 6,
            Value::Seven => 7,
            Value::Eight => 8,
            Value::Nine => 9,
            _ => 10,
        }
    }

    /// The value's name, as shown to a player.
    pub fn name(&self) -> (r: &'static str)
        ensures
            r@ == value_name(*self),
    {
        match self {
            Value::Ace => "Ace",
            Value::Two => "Two",
            Value::Three => "Three",
            Value::Four => "Four",
            Value::Five => "Five",
            Value::Six => "Six",
            Value::Seven => "Seven",
            Value::Eight => "Eight",
            Value::Nine => "Nine",
            Value::Ten => "Ten",
            Value::Jack => "Jack",
            Value::Queen => "Queen",
            Value::King => "King",
        }
    }
}

impl Color {
    /// The colour's name, as shown to a player.
    pub fn name(&self) -> (r: &'static str)
        ensures
            r@ == color_name(*self),
    {
        match self {
            Color::Black => "Black",
            Color::Red => "Red",
        }
    }
}

fn color_to_ansi_code(color: Color) -> (r: &'static str)
    ensures
        r@ == ansi_code(color),
{
    match color {
        Color::Black => "\x1b[0;30m",
        Color::Red => "\x1b[0;31m",
    }
}

/// One playing card.
#[derive(Clone, Copy, Debug, PartialEq, Eq, Structural)]
pub struct Card {
    pub suit: Suit,
    pub value: Value,
}

impl Card {
    pub fn new(suit: Suit, value: Value) -> (r: Self)
        ensures
            r == (Card { suit, value }),
    {
        Card { suit, value }
    }

    pub fn suit(&self) -> (r: &Suit)
        ensures
            *r == self.suit,
    {
        &self.suit
    }

    pub fn value(&self) -> (r: &Value)
        ensures
            *r == self.value,
    {
        &self.value
    }

    pub fn color(&self) -> (r: Color)
        ensures
            r == suit_color(self.suit),
    {
        match self.suit {
            Suit::Spades | Suit::Clubs => Color::Black,
            Suit::Diamonds | Suit::Hearts => Color::Red,
        }
    }

    /// The card as `<value> of <suit>`, wrapped in the escape sequences that
    /// print it in its colour.
    pub fn to_colored_text(&self) -> (r: String)
        ensures
            r@ == ansi_code(suit_color(self.suit)) + value_name(self.value) + " of "@ + suit_name(
                self.suit,
            ) + ansi_reset(),
    {
        let mut text = String::from_str(color_to_ansi_code(self.color()));
        text.append(self.value.name());
        text.append(" of ");
        text.append(self.suit.name());
        text.append("\x1b[0m");
        text
    }

    /// The card's glyph in the Unicode playing-card block.
    pub fn to_unicode(&self) -> (r: &'static str)
        ensures
            r@.len() == 1,
            r@[0] as u32 as nat == suit_glyph_base(self.suit) + glyph_offset(self.value),
    {
        let glyph = match (self.suit, self.value) {
            (Suit::Spades, Value::Ace) => {
                proof {
                    reveal_strlit("🂡");
                }
                "🂡"
            },
            (Suit::Spades, Value::Two) => {
                proof {
                    reveal_strlit("🂢");
                }
                "🂢"
            },
            (Suit::Spades, Value::Three) => {
                proof {
                    reveal_strlit("🂣");
                }
                "🂣"
            },
            (Suit::Spades, Value::Four) => {
                proof {
                    reveal_strlit("🂤");
                }
                "🂤"
            },
            (Suit::Spades, Value::Five) => {
                proof {
                    reveal_strlit("🂥");
                }
                "🂥"
            },
            (Suit::Spades, Value::Six) => {
                proof {
                    reveal_strlit("🂦");
                }
                "🂦"
            },
            (Suit::Spades, Value::Seven) => {
                proof {
                    reveal_strlit("🂧");
                }
                "🂧"
            },
            (Suit::Spades, Value::Eight) => {
                proof {
                    reveal_strlit("🂨");
                }
                "🂨"
            },
            (Suit::Spades, Value::Nine) => {
                proof {
                    reveal_strlit("🂩");
                }
                "🂩"
            },
            (Suit::Spades, Value::Ten) => {
                proof {
                    reveal_strlit("🂪");
                }
                "🂪"
            },
            (Suit::Spades, Value::Jack) => {
                proof {
                    reveal_strlit("🂫");
                }
                "🂫"
            },
            (Suit::Spades, Value::Queen) => {
                proof {
                    reveal_strlit("🂭");
                }
                "🂭"
            },
            (Suit::Spades, Value::King) => {
                proof {
                    reveal_strlit("🂮");
                }
                "🂮"
            },
            (Suit::Clubs, Value::Ace) => {
                proof {
                    reveal_strlit("🃑");
                }
                "🃑"
            },
            (Suit::Clubs, Value::Two) => {
                proof {
                    reveal_strlit("🃒");
                }
                "🃒"
            },
            (Suit::Clubs, Value::Three) => {
                proof {
                    reveal_strlit("🃓");
                }
                "🃓"
            },
            (Suit::Clubs, Value::Four) => {
                proof {
                    reveal_strlit("🃔");
                }
                "🃔"
            },
            (Suit::Clubs, Value::Five) => {
                proof {
                    reveal_strlit("🃕");
                }
                "🃕"
            },
            (Suit::Clubs, Value::Six) => {
                proof {
                    reveal_strlit("🃖");
                }
                "🃖"
            },
            (Suit::Clubs, Value::Seven) => {
                proof {
                    reveal_strlit("🃗");
                }
                "🃗"
            },
            (Suit::Clubs, Value::Eight) => {
                proof {
                    reveal_strlit("🃘");
                }
                "🃘"
            },
            (Suit::Clubs, Value::Nine) => {
                proof {
                    reveal_strlit("🃙");
                }
                "🃙"
            },
            (Suit::Clubs, Value::Ten) => {
                proof {
                    reveal_strlit("🃚");
                }
                "🃚"
            },
            (Suit::Clubs, Value::Jack) => {
                proof {
                    reveal_strlit("🃛");
                }
                "🃛"
            },
            (Suit::Clubs, Value::Queen) => {
                proof {
                    reveal_strlit("🃝");
                }
                "🃝"
            },
            (Suit::Clubs, Value::King) => {
                proof {
                    reveal_strlit("🃞");
                }
                "🃞"
            },
            (Suit::Hearts, Value::Ace) => {
                proof {
                    reveal_strlit("🂱");
                }
                "🂱"
            },
            (Suit::Hearts, Value::Two) => {
                proof {
                    reveal_strlit("🂲");
                }
                "🂲"
            },
            (Suit::Hearts, Value::Three) => {
                proof {
                    reveal_strlit("🂳");
                }
                "🂳"
            },
            (Suit::Hearts, Value::Four) => {
                proof {
                    reveal_strlit("🂴");
                }
                "🂴"
            },
            (Suit::Hearts, Value::Five) => {
                proof {
                    reveal_strlit("🂵");
                }
                "🂵"
            },
            (Suit::Hearts, Value::Six) => {
                proof {
                    reveal_strlit("🂶");
                }
                "🂶"
            },
            (Suit::Hearts, Value::Seven) => {
                proof {
                    reveal_strlit("🂷");
                }
                "🂷"
            },
            (Suit::Hearts, Value::Eight) => {
                proof {
                    reveal_strlit("🂸");
                }
                "🂸"
            },
            (Suit::Hearts, Value::Nine) => {
                proof {
                    reveal_strlit("🂹");
                }
                "🂹"
            },
            (Suit::Hearts, Value::Ten) => {
                proof {
                    reveal_strlit("🂺");
                }
                "🂺"
            },
            (Suit::Hearts, Value::Jack) => {
                proof {
                    reveal_strlit("🂻");
                }
                "🂻"
            },
            (Suit::Hearts, Value::Queen) => {
                proof {
                    reveal_strlit("🂽");
                }
                "🂽"
            },
            (Suit::Hearts, Value::King) => {
                proof {
                    reveal_strlit("🂾");
                }
                "🂾"
            },
            (Suit::Diamonds, Value::Ace) => {
                proof {
                    reveal_strlit("🃁");
                }
                "🃁"
            },
            (Suit::Diamonds, Value::Two) => {
                proof {
                    reveal_strlit("🃂");
                }
                "🃂"
            },
            (Suit::Diamonds, Value::Three) => {
                proof {
                    reveal_strlit("🃃");
                }
                "🃃"
            },
            (Suit::Diamonds, Value::Four) => {
                proof {
                    reveal_strlit("🃄");
                }
                "🃄"
            },
            (Suit::Diamonds, Value::Five) => {
                proof {
                    reveal_strlit("🃅");
                }
                "🃅"
            },
            (Suit::Diamonds, Value::Six) => {
                proof {
                    reveal_strlit("🃆");
                }
                "🃆"
            },
            (Suit::Diamonds, Value::Seven) => {
                proof {
                    reveal_strlit("🃇");
                }
                "🃇"
            },
            (Suit::Diamonds, Value::Eight) => {
                proof {
                    reveal_strlit("🃈");
                }
                "🃈"
            },
            (Suit::Diamonds, Value::Nine) => {
                proof {
                    reveal_strlit("🃉");
                }
                "🃉"
            },
            (Suit::Diamonds, Value::Ten) => {
                proof {
                    reveal_strlit("🃊");
                }
                "🃊"
            },
            (Suit::Diamonds, Value::Jack) => {
                proof {
                    reveal_strlit("🃋");
                }
                "🃋"
            },
            (Suit::Diamonds, Value::Queen) => {
                proof {
                    reveal_strlit("🃍");
                }
                "🃍"
            },
            (Suit::Diamonds, Value::King) => {
                proof {
                    reveal_strlit("🃎");
                }
                "🃎"
            },
        };
        glyph
    }
}

} // verus!
