//! Playing cards and the multi-deck shoe that deals them. The shoe rebuilds
//! and reshuffles itself whenever its remaining size falls below its
//! threshold, so a draw never runs dry.
use vstd::prelude::*;

verus! {

use rand::Rng;
use rand::seq::SliceRandom;
use vstd::multiset::Multiset;
use vstd::seq_lib::lemma_multiset_commutative;
use vstd::seq_lib::to_multiset_len;

#[derive(Clone, Copy, Debug, PartialEq, Eq, Structural)]
pub enum Suit {
    Clubs,
    Diamonds,
    Hearts,
    Spades,
}

/// The suit glyph used by card displays.
pub open spec fn spec_suit_symbol(s: Suit) -> char {
    match s {
        Suit::Clubs => '\u{2663}',
        Suit::Diamonds => '\u{2666}',
        Suit::Hearts => '\u{2665}',
        Suit::Spades => '\u{2660}',
    }
}

impl Suit {
    pub fn symbol(&self) -> (r: char)
        ensures
            r == spec_suit_symbol(*self),
    {
        match self {
            Suit::Clubs => '\u{2663}',
            Suit::Diamonds => '\u{2666}',
            Suit::Hearts => '\u{2665}',
            Suit::Spades => '\u{2660}',
        }
    }
}

#[derive(Clone, Copy, Debug, PartialEq, Eq, Structural)]
pub enum Value {
    Ace,
    Two,
    Three,
    Four,
    Five,
    Six,
    Seven,
    Eight,
    Nine,
    Ten,
    Jack,
    Queen,
    King,
}

/// The blackjack count of one card: an Ace counts one here (a hand applies
/// at most one soft adjustment), twos through tens count their face, and
/// court cards count ten.
pub open spec fn spec_blackjack_value(v: Value) -> int {
    match v {
        Value::Ace => 1,
        Value::Two => 2,
        Value::Three => 3,
        Value::Four => 4,
        Value::Five => 5,
        Value::Six => 6,
        Value::Seven => 7,
        Value::Eight => 8,
        Value::Nine => 9,
        Value::Ten => 10,
        Value::Jack => 10,
        Value::Queen => 10,
        Value::King => 10,
    }
}

/// The characters of each short rank label.
pub open spec fn spec_value_label(v: Value) -> Seq<char> {
    match v {
        Value::Ace => seq!['A'],
        Value::Two => seq!['2'],
        Value::Three => seq!['3'],
        Value::Four => seq!['4'],
        Value::Five => seq!['5'],
        Value::Six => seq!['6'],
        Value::Seven => seq!['7'],
        Value::Eight => seq!['8'],
        Value::Nine => seq!['9'],
        Value::Ten => seq!['1', '0'],
        Value::Jack => seq!['J'],
        Value::Queen => seq!['Q'],
        Value::King => seq!['K'],
    }
}

impl Value {
    /// The short rank label, such as `A` or `10`.
    pub fn label(&self) -> (r: &'static str)
        ensures
            r@ == spec_value_label(*self),
    {
        proof {
            reveal_strlit("A");
            reveal_strlit("2");
            reveal_strlit("3");
            reveal_strlit("4");
            reveal_strlit("5");
            reveal_strlit("6");
            reveal_strlit("7");
            reveal_strlit("8");
            reveal_strlit("9");
            reveal_strlit("10");
            reveal_strlit("J");
            reveal_strlit("Q");
            reveal_strlit("K");
            assert("A"@ =~= seq!['A']);
            assert("2"@ =~= seq!['2']);
            assert("3"@ =~= seq!['3']);
            assert("4"@ =~= seq!['4']);
            assert("5"@ =~= seq!['5']);
            assert("6"@ =~= seq!['6']);
            assert("7"@ =~= seq!['7']);
            assert("8"@ =~= seq!['8']);
            assert("9"@ =~= seq!['9']);
            assert("10"@ =~= seq!['1', '0']);
            assert("J"@ =~= seq!['J']);
            assert("Q"@ =~= seq!['Q']);
            assert("K"@ =~= seq!['K']);
        }
        match self {
            Value::Ace => "A",
            Value::Two => "2",
            Value::Three => "3",
            Value::Four => "4",
            Value::Five => "5",
            Value::Six => "6",
            Value::Seven => "7",
            Value::Eight => "8",
            Value::Nine => "9",
            Value::Ten => "10",
            Value::Jack => "J",
            Value::Queen => "Q",
            Value::King => "K",
        }
    }
}

#[derive(Clone, Copy, Debug, PartialEq, Eq, Structural)]
pub struct Card {
    pub suit: Suit,
    pub value: Value,
}

impl Card {
    pub fn blackjack_value(&self) -> (r: u8)
        ensures
            r == spec_blackjack_value(self.value),
            1 <= r <= 10,
    {
        match self.value {
            Value::Ace => 1,
            Value::Two => 2,
            Value::Three => 3,
            Value::Four => 4,
            Value::Five => 5,
            Value::Six => 6,
            Value::Seven => 7,
            Value::Eight => 8,
            Value::Nine => 9,
            Value::Ten => 10,
            Value::Jack => 10,
            Value::Queen => 10,
            Value::King => 10,
        }
    }
}

/// The suit at a deck position, one of four blocks of thirteen cards.
pub open spec fn spec_suit_of_index(i: int) -> Suit {
    if i == 0 {
        Suit::Clubs
    } else if i == 1 {
        Suit::Diamonds
    } else if i == 2 {
        Suit::Hearts
    } else {
        Suit::Spades
    }
}

/// The rank at a position within one suit block.
pub open spec fn spec_value_of_index(i: int) -> Value {
    if i == 0 {
        Value::Ace
    } else if i == 1 {
        Value::Two
    } else if i == 2 {
        Value::Three
    } else if i == 3 {
        Value::Four
    } else if i == 4 {
        Value::Five
    } else if i == 5 {
        Value::Six
    } else if i == 6 {
        Value::Seven
    } else if i == 7 {
        Value::Eight
    } else if i == 8 {
        Value::Nine
    } else if i == 9 {
        Value::Ten
    } else if i == 10 {
        Value::Jack
    } else if i == 11 {
        Value::Queen
    } else {
        Value::King
    }
}

/// One standard deck, laid out suit by suit and rank by rank.
pub open spec fn standard_deck() -> Seq<Card> {
    Seq::new(
        52,
        |i: int|
            Card { suit: spec_suit_of_index(i / 13), value: spec_value_of_index(i % 13) },
    )
}

/// The cards of `n` standard decks together, as an unordered pool.
pub open spec fn shoe_contents(n: int) -> Multiset<Card>
    decreases n,
{
    if n <= 0 {
        Multiset::<Card>::empty()
    } else {
        shoe_contents(n - 1).add(standard_deck().to_multiset())
    }
}

fn suit_of_index(i: u8) -> (r: Suit)
    requires
        i < 4,
    ensures
        r == spec_suit_of_index(i as int),
{
    if i == 0 {
        Suit::Clubs
    } else if i == 1 {
        Suit::Diamonds
    } else if i == 2 {
        Suit::Hearts
    } else {
        Suit::Spades
    }
}

fn value_of_index(i: u8) -> (r: Value)
    requires
        i < 13,
    ensures
        r == spec_value_of_index(i as int),
{
    if i == 0 {
        Value::Ace
    } else if i == 1 {
        Value::Two
    } else if i == 2 {
        Value::Three
    } else if i == 3 {
        Value::Four
    } else if i == 4 {
        Value::Five
    } else if i == 5 {
        Value::Six
    } else if i == 6 {
        Value::Seven
    } else if i == 7 {
        Value::Eight
    } else if i == 8 {
        Value::Nine
    } else if i == 9 {
        Value::Ten
    } else if i == 10 {
        Value::Jack
    } else if i == 11 {
        Value::Queen
    } else {
        Value::King
    }
}

/// Relies on rand's `SliceRandom::shuffle`: it permutes the slice in place,
/// so the cards present are exactly the cards that were there before.
#[verifier::external_body]
fn shuffle_cards(cards: &mut Vec<Card>)
    ensures
        final(cards)@.len() == old(cards)@.len(),
        final(cards)@.to_multiset() == old(cards)@.to_multiset(),
{
    cards.as_mut_slice().shuffle(&mut rand::thread_rng());
}

/// Relies on rand's `Rng::gen_range`: the result lies in the given range,
/// here below the bound.
#[verifier::external_body]
pub(crate) fn rand_below(n: usize) -> (r: usize)
    requires
        n >= 1,
    ensures
        r < n,
{
    rand::thread_rng().gen_range(0..n)
}

/// One full standard deck of fifty-two cards, shuffled.
pub fn deck() -> (r: Vec<Card>)
    ensures
        r@.len() == 52,
        r@.to_multiset() == standard_deck().to_multiset(),
{
    let mut cards: Vec<Card> = Vec::new();
    let mut s: u8 = 0;
    while s < 4
        invariant
            s <= 4,
            cards@.len() == s * 13,
            forall|k: int|
                0 <= k < cards@.len() ==> cards@[k] == (Card {
                    suit: spec_suit_of_index(k / 13),
                    value: spec_value_of_index(k % 13),
                }),
        decreases 4 - s,
    {
        let mut v: u8 = 0;
        while v < 13
            invariant
                s < 4,
                v <= 13,
                cards@.len() == s * 13 + v,
                forall|k: int|
                    0 <= k < cards@.len() ==> cards@[k] == (Card {
                        suit: spec_suit_of_index(k / 13),
                        value: spec_value_of_index(k % 13),
                    }),
            decreases 13 - v,
        {
            let card = Card { suit: suit_of_index(s), value: value_of_index(v) };
            proof {
                assert((s * 13 + v) as int / 13 == s as int && (s * 13 + v) as int % 13
                    == v as int) by (nonlinear_arith)
                    requires
                        0 <= s < 4,
                        0 <= v < 13,
                {
                }
            }
            cards.push(card);
            v = v + 1;
        }
        s = s + 1;
    }
    assert(cards@ =~= standard_deck());
    shuffle_cards(&mut cards);
    cards
}

/// A uniformly random card, drawn as one of the four suits and one of the
/// thirteen ranks.
pub fn random_card() -> Card {
    let s = rand_below(4);
    let v = rand_below(13);
    Card { suit: suit_of_index(s as u8), value: value_of_index(v as u8) }
}

/// A draw source built from whole decks. `shuffle_threshold` is the card
/// count under which the shoe rebuilds itself before the next draw.
#[derive(Clone, Debug)]
pub struct Shoe {
    pub deck_count: u8,
    pub shuffle_threshold: usize,
    pub cards: Vec<Card>,
}

/// How one draw changes a shoe: while the remaining cards are at or above
/// the threshold, the top card comes off; otherwise the shoe is first
/// rebuilt from its full complement of decks and reshuffled, and the drawn
/// card comes off that fresh pool.
pub open spec fn shoe_draw_rel(pre: Shoe, post: Shoe, c: Card) -> bool {
    &&& post.deck_count == pre.deck_count
    &&& post.shuffle_threshold == pre.shuffle_threshold
    &&& if pre.cards@.len() >= pre.shuffle_threshold {
        c == pre.cards@.last() && post.cards@ == pre.cards@.drop_last()
    } else {
        &&& post.cards@.len() + 1 == 52 * pre.deck_count
        &&& post.cards@.push(c).to_multiset() == shoe_contents(pre.deck_count as int)
    }
}

impl Shoe {
    pub open spec fn wf(&self) -> bool {
        &&& self.deck_count >= 1
        &&& 1 <= self.shuffle_threshold <= 52 * self.deck_count
    }

    /// A fresh shoe of `deck_count` shuffled decks.
    pub fn new(deck_count: u8, shuffle_threshold: usize) -> (r: Shoe)
        requires
            deck_count >= 1,
            1 <= shuffle_threshold <= 52 * deck_count,
        ensures
            r.deck_count == deck_count,
            r.shuffle_threshold == shuffle_threshold,
            r.cards@.len() == 52 * deck_count,
            r.cards@.to_multiset() == shoe_contents(deck_count as int),
            r.wf(),
    {
        Shoe { deck_count, shuffle_threshold, cards: Self::build_cards(deck_count) }
    }

    /// All decks gathered and shuffled together.
    fn build_cards(deck_count: u8) -> (r: Vec<Card>)
        ensures
            r@.len() == 52 * deck_count,
            r@.to_multiset() == shoe_contents(deck_count as int),
    {
        let mut cards: Vec<Card> = Vec::new();
        let mut d: u8 = 0;
        proof {
            broadcast use vstd::seq_lib::group_to_multiset_ensures;
            broadcast use vstd::multiset::group_multiset_axioms;

            assert(cards@.to_multiset() =~= shoe_contents(0));
        }
        while d < deck_count
            invariant
                d <= deck_count,
                cards@.len() == 52 * d,
                cards@.to_multiset() == shoe_contents(d as int),
            decreases deck_count - d,
        {
            let mut next = deck();
            let ghost pre = cards@;
            let ghost next_seq = next@;
            cards.append(&mut next);
            proof {
                lemma_multiset_commutative(pre, next_seq);
                assert(cards@.to_multiset() =~= shoe_contents(d as int + 1));
            }
            d = d + 1;
        }
        shuffle_cards(&mut cards);
        cards
    }

    /// Rebuilds and reshuffles the whole shoe.
    pub fn shuffle(&mut self)
        ensures
            final(self).deck_count == old(self).deck_count,
            final(self).shuffle_threshold == old(self).shuffle_threshold,
            final(self).cards@.len() == 52 * old(self).deck_count,
            final(self).cards@.to_multiset() == shoe_contents(old(self).deck_count as int),
    {
        self.cards = Self::build_cards(self.deck_count);
    }

    /// Deals the next card, rebuilding the shoe first when its remaining
    /// size has fallen below the threshold.
    pub fn draw_card(&mut self) -> (r: Card)
        requires
            old(self).wf(),
        ensures
            final(self).wf(),
            shoe_draw_rel(*old(self), *final(self), r),
    {
        if self.cards.len() < self.shuffle_threshold {
            self.cards = Self::build_cards(self.deck_count);
            proof {
                broadcast use to_multiset_len;

            }
        }
        let ghost pre_pop = self.cards@;
        let c = match self.cards.pop() {
            Some(c) => c,
            None => {
                proof {
                    assert(false);
                }
                unreached()
            },
        };
        proof {
            assert(pre_pop.drop_last().push(pre_pop.last()) =~= pre_pop);
        }
        c
    }
}


/// The single playing-card glyph for each card.
pub open spec fn spec_card_symbol(c: Card) -> char {
    match (c.value, c.suit) {
        (Value::Ace, Suit::Spades) => '\u{1f0a1}',
        (Value::Two, Suit::Spades) => '\u{1f0a2}',
        (Value::Three, Suit::Spades) => '\u{1f0a3}',
        (Value::Four, Suit::Spades) => '\u{1f0a4}',
        (Value::Five, Suit::Spades) => '\u{1f0a5}',
        (Value::Six, Suit::Spades) => '\u{1f0a6}',
        (Value::Seven, Suit::Spades) => '\u{1f0a7}',
        (Value::Eight, Suit::Spades) => '\u{1f0a8}',
        (Value::Nine, Suit::Spades) => '\u{1f0a9}',
        (Value::Ten, Suit::Spades) => '\u{1f0aa}',
        (Value::Jack, Suit::Spades) => '\u{1f0ab}',
        (Value::Queen, Suit::Spades) => '\u{1f0ad}',
        (Value::King, Suit::Spades) => '\u{1f0ae}',
        (Value::Ace, Suit::Hearts) => '\u{1f0b1}',
        (Value::Two, Suit::Hearts) => '\u{1f0b2}',
        (Value::Three, Suit::Hearts) => '\u{1f0b3}',
        (Value::Four, Suit::Hearts) => '\u{1f0b4}',
        (Value::Five, Suit::Hearts) => '\u{1f0b5}',
        (Value::Six, Suit::Hearts) => '\u{1f0b6}',
        (Value::Seven, Suit::Hearts) => '\u{1f0b7}',
        (Value::Eight, Suit::Hearts) => '\u{1f0b8}',
        (Value::Nine, Suit::Hearts) => '\u{1f0b9}',
        (Value::Ten, Suit::Hearts) => '\u{1f0ba}',
        (Value::Jack, Suit::Hearts) => '\u{1f0bb}',
        (Value::Queen, Suit::Hearts) => '\u{1f0bd}',
        (Value::King, Suit::Hearts) => '\u{1f0be}',
        (Value::Ace, Suit::Diamonds) => '\u{1f0c1}',
        (Value::Two, Suit::Diamonds) => '\u{1f0c2}',
        (Value::Three, Suit::Diamonds) => '\u{1f0c3}',
        (Value::Four, Suit::Diamonds) => '\u{1f0c4}',
        (Value::Five, Suit::Diamonds) => '\u{1f0c5}',
        (Value::Six, Suit::Diamonds) => '\u{1f0c6}',
        (Value::Seven, Suit::Diamonds) => '\u{1f0c7}',
        (Value::Eight, Suit::Diamonds) => '\u{1f0c8}',
        (Value::Nine, Suit::Diamonds) => '\u{1f0c9}',
        (Value::Ten, Suit::Diamonds) => '\u{1f0ca}',
        (Value::Jack, Suit::Diamonds) => '\u{1f0cb}',
        (Value::Queen, Suit::Diamonds) => '\u{1f0cd}',
        (Value::King, Suit::Diamonds) => '\u{1f0ce}',
        (Value::Ace, Suit::Clubs) => '\u{1f0d1}',
        (Value::Two, Suit::Clubs) => '\u{1f0d2}',
        (Value::Three, Suit::Clubs) => '\u{1f0d3}',
        (Value::Four, Suit::Clubs) => '\u{1f0d4}',
        (Value::Five, Suit::Clubs) => '\u{1f0d5}',
        (Value::Six, Suit::Clubs) => '\u{1f0d6}',
        (Value::Seven, Suit::Clubs) => '\u{1f0d7}',
        (Value::Eight, Suit::Clubs) => '\u{1f0d8}',
        (Value::Nine, Suit::Clubs) => '\u{1f0d9}',
        (Value::Ten, Suit::Clubs) => '\u{1f0da}',
        (Value::Jack, Suit::Clubs) => '\u{1f0db}',
        (Value::Queen, Suit::Clubs) => '\u{1f0dd}',
        (Value::King, Suit::Clubs) => '\u{1f0de}',
    }
}

impl Card {
    /// The card's playing-card glyph.
    pub fn symbol(&self) -> (r: char)
        ensures
            r == spec_card_symbol(*self),
    {
        match (self.value, self.suit) {
        (Value::Ace, Suit::Spades) => '\u{1f0a1}',
        (Value::Two, Suit::Spades) => '\u{1f0a2}',
        (Value::Three, Suit::Spades) => '\u{1f0a3}',
        (Value::Four, Suit::Spades) => '\u{1f0a4}',
        (Value::Five, Suit::Spades) => '\u{1f0a5}',
        (Value::Six, Suit::Spades) => '\u{1f0a6}',
        (Value::Seven, Suit::Spades) => '\u{1f0a7}',
        (Value::Eight, Suit::Spades) => '\u{1f0a8}',
        (Value::Nine, Suit::Spades) => '\u{1f0a9}',
        (Value::Ten, Suit::Spades) => '\u{1f0aa}',
        (Value::Jack, Suit::Spades) => '\u{1f0ab}',
        (Value::Queen, Suit::Spades) => '\u{1f0ad}',
        (Value::King, Suit::Spades) => '\u{1f0ae}',
        (Value::Ace, Suit::Hearts) => '\u{1f0b1}',
        (Value::Two, Suit::Hearts) => '\u{1f0b2}',
        (Value::Three, Suit::Hearts) => '\u{1f0b3}',
        (Value::Four, Suit::Hearts) => '\u{1f0b4}',
        (Value::Five, Suit::Hearts) => '\u{1f0b5}',
        (Value::Six, Suit::Hearts) => '\u{1f0b6}',
        (Value::Seven, Suit::Hearts) => '\u{1f0b7}',
        (Value::Eight, Suit::Hearts) => '\u{1f0b8}',
        (Value::Nine, Suit::Hearts) => '\u{1f0b9}',
        (Value::Ten, Suit::Hearts) => '\u{1f0ba}',
        (Value::Jack, Suit::Hearts) => '\u{1f0bb}',
        (Value::Queen, Suit::Hearts) => '\u{1f0bd}',
        (Value::King, Suit::Hearts) => '\u{1f0be}',
        (Value::Ace, Suit::Diamonds) => '\u{1f0c1}',
        (Value::Two, Suit::Diamonds) => '\u{1f0c2}',
        (Value::Three, Suit::Diamonds) => '\u{1f0c3}',
        (Value::Four, Suit::Diamonds) => '\u{1f0c4}',
        (Value::Five, Suit::Diamonds) => '\u{1f0c5}',
        (Value::Six, Suit::Diamonds) => '\u{1f0c6}',
        (Value::Seven, Suit::Diamonds) => '\u{1f0c7}',
        (Value::Eight, Suit::Diamonds) => '\u{1f0c8}',
        (Value::Nine, Suit::Diamonds) => '\u{1f0c9}',
        (Value::Ten, Suit::Diamonds) => '\u{1f0ca}',
        (Value::Jack, Suit::Diamonds) => '\u{1f0cb}',
        (Value::Queen, Suit::Diamonds) => '\u{1f0cd}',
        (Value::King, Suit::Diamonds) => '\u{1f0ce}',
        (Value::Ace, Suit::Clubs) => '\u{1f0d1}',
        (Value::Two, Suit::Clubs) => '\u{1f0d2}',
        (Value::Three, Suit::Clubs) => '\u{1f0d3}',
        (Value::Four, Suit::Clubs) => '\u{1f0d4}',
        (Value::Five, Suit::Clubs) => '\u{1f0d5}',
        (Value::Six, Suit::Clubs) => '\u{1f0d6}',
        (Value::Seven, Suit::Clubs) => '\u{1f0d7}',
        (Value::Eight, Suit::Clubs) => '\u{1f0d8}',
        (Value::Nine, Suit::Clubs) => '\u{1f0d9}',
        (Value::Ten, Suit::Clubs) => '\u{1f0da}',
        (Value::Jack, Suit::Clubs) => '\u{1f0db}',
        (Value::Queen, Suit::Clubs) => '\u{1f0dd}',
        (Value::King, Suit::Clubs) => '\u{1f0de}',
        }
    }
}

} // verus!
