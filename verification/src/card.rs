//! Suits, ranks, cards and the legacy `1..=52` numbering.

use vstd::prelude::*;

verus! {

/// Number of cards in a suit.
pub const SUIT_SIZE: u32 = 13;

/// Number of cards in the deck, and the largest legacy id.
pub const DECK_SIZE: u32 = 52;

#[derive(Copy, Clone, Debug, PartialEq, Eq, Structural)]
pub enum Suit {
    Clubs,
    Diamonds,
    Spades,
    Hearts,
}

#[derive(Copy, Clone, Debug, PartialEq, Eq, PartialOrd, Ord, Structural)]
pub enum Rank {
    Ace,
    Two,
    Three,
    Four,
    Five,
    Six,
    Seven,
    Eight,
    Nine,
    Ten,
    Jack,
    Queen,
    King,
}

#[derive(Copy, Clone, Debug, PartialEq, Eq, Structural)]
pub struct Card {
    pub suit: Suit,
    pub rank: Rank,
}

impl Suit {
    /// Position of the suit in the legacy numbering, `0..=3`.
    pub open spec fn ordinal(self) -> int {
        match self {
            Suit::Clubs => 0,
            Suit::Diamonds => 1,
            Suit::Spades => 2,
            Suit::Hearts => 3,
        }
    }

    /// The suit at position `i`; positions past 3 read as hearts.
    pub open spec fn from_ordinal(i: int) -> Suit {
        if i <= 0 {
            Suit::Clubs
        } else if i == 1 {
            Suit::Diamonds
        } else if i == 2 {
            Suit::Spades
        } else {
            Suit::Hearts
        }
    }
}

impl Rank {
    /// Face number of the rank, ace = 1 up to king = 13.
    pub open spec fn number(self) -> int {
        match self {
            Rank::Ace => 1,
            Rank::Two => 2,
            Rank::Three => 3,
            Rank::Four => 4,
            Rank::Five => 5,
            Rank::Six => 6,
            Rank::Seven => 7,
            Rank::Eight => 8,
            Rank::Nine => 9,
            Rank::Ten => 10,
            Rank::Jack => 11,
            Rank::Queen => 12,
            Rank::King => 13,
        }
    }

    /// The rank with face number `n`; numbers past 13 read as king.
    pub open spec fn from_number(n: int) -> Rank {
        if n <= 1 {
            Rank::Ace
        } else if n == 2 {
            Rank::Two
        } else if n == 3 {
            Rank::Three
        } else if n == 4 {
            Rank::Four
        } else if n == 5 {
            Rank::Five
        } else if n == 6 {
            Rank::Six
        } else if n == 7 {
            Rank::Seven
        } else if n == 8 {
            Rank::Eight
        } else if n == 9 {
            Rank::Nine
        } else if n == 10 {
            Rank::Ten
        } else if n == 11 {
            Rank::Jack
        } else if n == 12 {
            Rank::Queen
        } else {
            Rank::King
        }
    }
}

/// Whether `id` is the legacy id of a card.
pub open spec fn is_card_id(id: int) -> bool {
    1 <= id <= 52
}

impl Card {
    /// The legacy id of the card: `13 * suit + rank`.
    pub open spec fn id(self) -> int {
        13 * self.suit.ordinal() + self.rank.number()
    }

    /// The card with legacy id `id`, for `id` in `1..=52`.
    pub open spec fn of_id(id: int) -> Card {
        Card { suit: Suit::from_ordinal((id - 1) / 13), rank: Rank::from_number((id - 1) % 13 + 1) }
    }

    /// Reads a legacy id. Ids outside `1..=52` name no card.
    pub fn from_legacy_id(id: u8) -> (r: Option<Card>)
        ensures
            is_card_id(id as int) ==> r == Some(Card::of_id(id as int)),
            !is_card_id(id as int) ==> r is None,
            r matches Some(c) ==> c.id() == id,
    {
        if id == 0 || id > 52 {
            return None;
        }
        let zero: u8 = id - 1;
        let suit = match zero / 13 {
            0 => Suit::Clubs,
            1 => Suit::Diamonds,
            2 => Suit::Spades,
            _ => Suit::Hearts,
        };
        let rank_idx: u8 = (zero % 13) + 1;
        let rank = match rank_idx {
            1 => Rank::Ace,
            2 => Rank::Two,
            3 => Rank::Three,
            4 => Rank::Four,
            5 => Rank::Five,
            6 => Rank::Six,
            7 => Rank::Seven,
            8 => Rank::Eight,
            9 => Rank::Nine,
            10 => Rank::Ten,
            11 => Rank::Jack,
            12 => Rank::Queen,
            _ => Rank::King,
        };
        Some(Card { suit, rank })
    }

    /// Writes the card as its legacy id.
    pub fn legacy_id(&self) -> (id: u8)
        ensures
            id == self.id(),
            is_card_id(id as int),
    {
        let suit_base: u8 = match self.suit {
            Suit::Clubs => 0,
            Suit::Diamonds => 13,
            Suit::Spades => 26,
            Suit::Hearts => 39,
        };
        let r: u8 = match self.rank {
            Rank::Ace => 1,
            Rank::Two => 2,
            Rank::Three => 3,
            Rank::Four => 4,
            Rank::Five => 5,
            Rank::Six => 6,
            Rank::Seven => 7,
            Rank::Eight => 8,
            Rank::Nine => 9,
            Rank::Ten => 10,
            Rank::Jack => 11,
            Rank::Queen => 12,
            Rank::King => 13,
        };
        suit_base + r
    }
}

/// Reading a legacy id as a card and writing the card back gives the id
/// again.
pub proof fn lemma_id_roundtrip(id: int)
    requires
        is_card_id(id),
    ensures
        Card::of_id(id).id() == id,
{
}

/// Writing a card as its legacy id and reading the id back gives the card
/// again, and every card's id lies in `1..=52`.
pub proof fn lemma_card_roundtrip(c: Card)
    ensures
        is_card_id(c.id()),
        Card::of_id(c.id()) == c,
{
}

/// Two cards with the same legacy id are the same card.
pub proof fn lemma_id_injective(a: Card, b: Card)
    requires
        a.id() == b.id(),
    ensures
        a == b,
{
    lemma_card_roundtrip(a);
    lemma_card_roundtrip(b);
}

/// Zero-based position of an id in the deck order. Ids below 1 read as 1.
pub open spec fn id_position(id: int) -> int {
    if id >= 1 {
        id - 1
    } else {
        0
    }
}

/// Suit index of a legacy id: 1 = clubs, 2 = diamonds, 3 = spades,
/// 4 = hearts.
pub open spec fn suit_index(id: int) -> int {
    id_position(id) / 13 + 1
}

/// Face number of a legacy id, ace = 1 up to king = 13.
pub open spec fn face_number(id: int) -> int {
    id_position(id) % 13 + 1
}

/// Strength of a legacy id within its suit: the face number, with the ace
/// counted as 14.
pub open spec fn rank_strength(id: int) -> int {
    if face_number(id) == 1 {
        14
    } else {
        face_number(id)
    }
}

/// Suit index (1 = clubs, 2 = diamonds, 3 = spades, 4 = hearts) of a legacy
/// id.
pub fn suit_index_from_legacy_id(id: u32) -> (s: u32)
    ensures
        s == suit_index(id as int),
        is_card_id(id as int) ==> 1 <= s <= 4,
{
    let zero: u32 = if id >= 1 { id - 1 } else { 0 };
    zero / 13 + 1
}

/// Strength of a legacy id for comparing cards of one suit, ace high:
/// 2..=13 for two up to king, 14 for the ace.
pub fn rank_value(id: u32) -> (v: u32)
    ensures
        v == rank_strength(id as int),
        2 <= v <= 14,
{
    let zero: u32 = if id >= 1 { id - 1 } else { 0 };
    let r: u32 = (zero % 13) + 1;
    if r == 1 {
        14
    } else {
        r
    }
}

/// The suit index and strength computed from a legacy id are those of the
/// card that the id names.
pub proof fn lemma_id_matches_card(id: int)
    requires
        is_card_id(id),
    ensures
        suit_index(id) == Card::of_id(id).suit.ordinal() + 1,
        face_number(id) == Card::of_id(id).rank.number(),
{
}

/// Suit index and strength together determine the id.
pub proof fn lemma_suit_and_strength_determine_id(a: int, b: int)
    requires
        a >= 1,
        b >= 1,
        suit_index(a) == suit_index(b),
        rank_strength(a) == rank_strength(b),
    ensures
        a == b,
{
}

} // verus!
