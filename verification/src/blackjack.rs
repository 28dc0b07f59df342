//! The blackjack round engine: hands with the soft-Ace sum, the raw round
//! state machine, and the casino session that stakes bets, plays the dealer
//! and settles payouts.
use crate::cards::shoe_draw_rel;
use crate::cards::spec_blackjack_value;
use crate::cards::Card;
use crate::cards::Shoe;
use crate::cards::Value;
use crate::config::spec_shuffle_threshold;
use crate::config::BlackjackConfig;
use crate::config::Config;
use crate::money::div_round_half_up;
use crate::money::sat_add_cents;
use crate::money::Money;
use crate::money::Ratio;
use crate::statistics::Statistics;
use vstd::prelude::*;

verus! {

/// The plain count of a hand's cards, every Ace counted as one.
pub open spec fn spec_raw_sum(cards: Seq<Card>) -> int
    decreases cards.len(),
{
    if cards.len() == 0 {
        0
    } else {
        spec_raw_sum(cards.drop_last()) + spec_blackjack_value(cards.last().value)
    }
}

pub open spec fn spec_has_ace(cards: Seq<Card>) -> bool {
    exists|i: int| 0 <= i < cards.len() && cards[i].value == Value::Ace
}

/// The blackjack total of a hand: the raw count, with a single soft
/// adjustment of ten when the hand holds an Ace and the raw count allows it.
/// At most one Ace ever counts as eleven.
pub open spec fn spec_hand_sum(cards: Seq<Card>) -> int {
    if spec_has_ace(cards) && spec_raw_sum(cards) <= 11 {
        spec_raw_sum(cards) + 10
    } else {
        spec_raw_sum(cards)
    }
}

/// A two-card twenty-one.
pub open spec fn spec_is_natural(cards: Seq<Card>) -> bool {
    cards.len() == 2 && spec_hand_sum(cards) == 21
}

/// Every card counts between one and ten, so a hand's raw count lies
/// between its size and ten times its size.
pub proof fn lemma_raw_sum_bounds(cards: Seq<Card>)
    ensures
        cards.len() <= spec_raw_sum(cards) <= 10 * cards.len(),
    decreases cards.len(),
{
    if cards.len() > 0 {
        lemma_raw_sum_bounds(cards.drop_last());
    }
}

/// One more card adds exactly its value to the raw count.
pub proof fn lemma_raw_sum_push(cards: Seq<Card>, c: Card)
    ensures
        spec_raw_sum(cards.push(c)) == spec_raw_sum(cards) + spec_blackjack_value(c.value),
{
    assert(cards.push(c).drop_last() =~= cards);
}

/// Law: the blackjack total counts at most one Ace as eleven. It is the raw
/// count, or — only when the hand holds an Ace and the raw count is eleven
/// or less — the raw count plus a single ten.
pub proof fn lemma_sum_adjusts_at_most_one_ace(cards: Seq<Card>)
    ensures
        spec_hand_sum(cards) == spec_raw_sum(cards) || (spec_has_ace(cards) && spec_raw_sum(cards)
            <= 11 && spec_hand_sum(cards) == spec_raw_sum(cards) + 10),
        spec_hand_sum(cards) <= spec_raw_sum(cards) + 10,
        spec_hand_sum(cards) >= spec_raw_sum(cards),
{
}


/// The glyph row of the hand's text from position `i` on: each card's
/// glyph — face down within the hidden count — followed by a space.
pub open spec fn spec_hand_glyphs(cards: Seq<Card>, hidden: int, i: int) -> Seq<char>
    decreases cards.len() - i,
{
    if i < 0 || i >= cards.len() {
        Seq::<char>::empty()
    } else {
        (if i < hidden {
            seq!['\u{1f0a0}']
        } else {
            seq![crate::cards::spec_card_symbol(cards[i])]
        }) + seq![' '] + spec_hand_glyphs(cards, hidden, i + 1)
    }
}

/// The value row of the hand's text from position `i` on: each card's
/// count — a question mark within the hidden count — joined by plus signs.
pub open spec fn spec_hand_values(cards: Seq<Card>, hidden: int, i: int) -> Seq<char>
    decreases cards.len() - i,
{
    if i < 0 || i >= cards.len() {
        Seq::<char>::empty()
    } else {
        (if i < hidden {
            seq!['?']
        } else {
            crate::money::dec_digits(spec_blackjack_value(cards[i].value))
        }) + (if i + 1 < cards.len() {
            seq![' ', '+', ' ']
        } else {
            Seq::<char>::empty()
        }) + spec_hand_values(cards, hidden, i + 1)
    }
}

/// The whole table text of a hand: its glyph row, then its value row in
/// parentheses; while any card is hidden the total reads as a question mark.
pub open spec fn spec_hand_display(h: Hand) -> Seq<char> {
    spec_hand_glyphs(h.cards@, h.hidden_count as int, 0) + seq![' ', '('] + spec_hand_values(
        h.cards@,
        h.hidden_count as int,
        0,
    ) + (if h.hidden_count > 0 {
        seq![' ', '=', ' ', '?', ')']
    } else {
        seq![' ', '=', ' '] + crate::money::dec_digits(spec_hand_sum(h.cards@)) + seq![')']
    })
}

/// One player or dealer hand: its cards in dealt order, how many of them
/// are face down, and whether play on it has ended.
#[derive(Clone, Debug)]
pub struct Hand {
    pub cards: Vec<Card>,
    pub hidden_count: usize,
    pub standing: bool,
    pub doubling_down: bool,
}

impl Hand {
    /// An empty, face-up hand.
    pub fn new() -> (r: Hand)
        ensures
            r.cards@ =~= Seq::<Card>::empty(),
            r.hidden_count == 0,
            !r.standing,
            !r.doubling_down,
    {
        Hand { cards: Vec::new(), hidden_count: 0, standing: false, doubling_down: false }
    }

    /// An empty hand whose first `hidden_count` cards will be face down.
    pub fn new_hidden(hidden_count: usize) -> (r: Hand)
        ensures
            r.cards@ =~= Seq::<Card>::empty(),
            r.hidden_count == hidden_count,
            !r.standing,
            !r.doubling_down,
    {
        Hand { cards: Vec::new(), hidden_count, standing: false, doubling_down: false }
    }

    pub fn push(&mut self, card: Card)
        ensures
            final(self).cards@ == old(self).cards@.push(card),
            final(self).hidden_count == old(self).hidden_count,
            final(self).standing == old(self).standing,
            final(self).doubling_down == old(self).doubling_down,
    {
        self.cards.push(card);
    }

    /// The dealer's face-up card: the second one dealt.
    pub fn face_card(&self) -> (r: &Card)
        requires
            self.cards@.len() >= 2,
        ensures
            *r == self.cards@[1],
    {
        &self.cards[1]
    }

    /// The blackjack total of the hand, with the single soft-Ace adjustment.
    pub fn blackjack_sum(&self) -> (r: u8)
        requires
            spec_raw_sum(self.cards@) + 10 <= u8::MAX,
        ensures
            r == spec_hand_sum(self.cards@),
    {
        let mut sum: u8 = 0;
        let mut has_ace = false;
        let mut i: usize = 0;
        proof {
            assert(self.cards@.subrange(0, 0) =~= Seq::<Card>::empty());
        }
        while i < self.cards.len()
            invariant
                i <= self.cards@.len(),
                spec_raw_sum(self.cards@) + 10 <= u8::MAX,
                sum == spec_raw_sum(self.cards@.subrange(0, i as int)),
                has_ace == spec_has_ace(self.cards@.subrange(0, i as int)),
            decreases self.cards@.len() - i,
        {
            let ghost prefix = self.cards@.subrange(0, i as int);
            proof {
                lemma_raw_sum_prefix(self.cards@, i as int + 1);
                assert(self.cards@.subrange(0, i as int + 1) =~= prefix.push(self.cards@[i as int]));
                lemma_raw_sum_push(prefix, self.cards@[i as int]);
            }
            let card = self.cards[i];
            sum = sum + card.blackjack_value();
            if matches!(card.value, Value::Ace) {
                has_ace = true;
            }
            proof {
                let next = self.cards@.subrange(0, i as int + 1);
                assert forall|k: int| 0 <= k < next.len() && next[k].value == Value::Ace implies
                    spec_has_ace(next) by {}
                if spec_has_ace(next) && !spec_has_ace(prefix) {
                    let k = choose|k: int| 0 <= k < next.len() && next[k].value == Value::Ace;
                    assert(k == i);
                }
            }
            i = i + 1;
        }
        proof {
            assert(self.cards@.subrange(0, self.cards@.len() as int) =~= self.cards@);
        }
        if has_ace && sum <= 11 {
            sum + 10
        } else {
            sum
        }
    }

    /// Whether the hand is a natural blackjack: exactly two cards that
    /// total twenty-one, and nothing else.
    pub fn is_natural_blackjack(&self) -> (r: bool)
        requires
            spec_raw_sum(self.cards@) + 10 <= u8::MAX,
        ensures
            r == spec_is_natural(self.cards@),
    {
        self.cards.len() == 2 && self.blackjack_sum() == 21
    }

    pub fn is_bust(&self) -> (r: bool)
        requires
            spec_raw_sum(self.cards@) + 10 <= u8::MAX,
        ensures
            r == (spec_hand_sum(self.cards@) > 21),
    {
        self.blackjack_sum() > 21
    }

    /// Whether the hand may double down: exactly two cards, not already
    /// doubled, and a total of ten or eleven.
    pub fn can_double_down(&self) -> (r: bool)
        requires
            spec_raw_sum(self.cards@) + 10 <= u8::MAX,
        ensures
            r == (self.cards@.len() == 2 && !self.doubling_down && (spec_hand_sum(self.cards@)
                == 10 || spec_hand_sum(self.cards@) == 11)),
    {
        let player_sum = self.blackjack_sum();
        self.cards.len() == 2 && !self.doubling_down && (player_sum == 10 || player_sum == 11)
    }

    /// Whether the hand may split: exactly two cards of equal rank.
    pub fn can_split(&self) -> (r: bool)
        ensures
            r == (self.cards@.len() == 2 && self.cards@[0].value == self.cards@[1].value),
    {
        self.cards.len() == 2 && self.cards[0].value == self.cards[1].value
    }

    /// Moves the hand's second card into a new hand. The caller deals one
    /// more card to each of the two hands before play resumes.
    pub fn split(&mut self) -> (r: Hand)
        requires
            old(self).cards@.len() == 2,
        ensures
            final(self).cards@ == old(self).cards@.take(1),
            final(self).hidden_count == old(self).hidden_count,
            final(self).standing == old(self).standing,
            final(self).doubling_down == old(self).doubling_down,
            r.cards@ =~= seq![old(self).cards@[1]],
            r.hidden_count == 0,
            !r.standing,
            !r.doubling_down,
    {
        let moved_card = match self.cards.pop() {
            Some(c) => c,
            None => {
                proof {
                    assert(false);
                }
                unreached()
            },
        };
        proof {
            assert(old(self).cards@.drop_last() =~= old(self).cards@.take(1));
        }
        let mut other_hand = Hand::new();
        other_hand.push(moved_card);
        other_hand
    }

    /// The hand as table text: each card's glyph — a face-down glyph for a
    /// hidden card — then the card values added up in parentheses; a hidden
    /// card's value, and the total over it, render as a question mark.
    pub fn to_display_string(&self) -> (r: String)
        requires
            spec_raw_sum(self.cards@) + 10 <= u8::MAX,
        ensures
            r@ == spec_hand_display(*self),
    {
        proof {
            reveal_strlit("\u{1f0a0}");
            reveal_strlit(" ");
            reveal_strlit(" (");
            reveal_strlit("?");
            reveal_strlit(" + ");
            reveal_strlit(" = ?)");
            reveal_strlit(" = ");
            reveal_strlit(")");
        }
        let ghost hidden = self.hidden_count as int;
        let mut s = String::new();
        let n = self.cards.len();
        let mut i: usize = 0;
        while i < n
            invariant
                n == self.cards@.len(),
                i <= n,
                hidden == self.hidden_count as int,
                s@ + spec_hand_glyphs(self.cards@, hidden, i as int) == spec_hand_glyphs(
                    self.cards@,
                    hidden,
                    0,
                ),
            decreases n - i,
        {
            proof {
                reveal_strlit("\u{1f0a0}");
                reveal_strlit(" ");
            }
            let ghost s_pre = s@;
            if i < self.hidden_count {
                s.append("\u{1f0a0}");
            } else {
                let glyph = self.cards[i].symbol();
                push_char(&mut s, glyph);
            }
            s.append(" ");
            proof {
                assert(s@ + spec_hand_glyphs(self.cards@, hidden, i as int + 1) =~= s_pre
                    + spec_hand_glyphs(self.cards@, hidden, i as int));
            }
            i = i + 1;
        }
        s.append(" (");
        let ghost s_glyphs = s@;
        proof {
            assert(spec_hand_glyphs(self.cards@, hidden, n as int) =~= Seq::<char>::empty());
            assert(s_glyphs =~= spec_hand_glyphs(self.cards@, hidden, 0) + seq![' ', '(']);
        }
        let mut i: usize = 0;
        while i < n
            invariant
                n == self.cards@.len(),
                i <= n,
                hidden == self.hidden_count as int,
                spec_raw_sum(self.cards@) + 10 <= u8::MAX,
                s@ + spec_hand_values(self.cards@, hidden, i as int) == s_glyphs
                    + spec_hand_values(self.cards@, hidden, 0),
            decreases n - i,
        {
            proof {
                reveal_strlit("?");
                reveal_strlit(" + ");
            }
            let ghost s_pre = s@;
            if i < self.hidden_count {
                s.append("?");
            } else {
                let v = self.cards[i].blackjack_value();
                crate::money::push_dec_digits(&mut s, v as u64);
            }
            if i + 1 < n {
                s.append(" + ");
            }
            proof {
                assert(s@ + spec_hand_values(self.cards@, hidden, i as int + 1) =~= s_pre
                    + spec_hand_values(self.cards@, hidden, i as int));
            }
            i = i + 1;
        }
        proof {
            assert(spec_hand_values(self.cards@, hidden, n as int) =~= Seq::<char>::empty());
        }
        if self.hidden_count > 0 {
            s.append(" = ?)");
        } else {
            s.append(" = ");
            let sum = self.blackjack_sum();
            crate::money::push_dec_digits(&mut s, sum as u64);
            s.append(")");
        }
        proof {
            assert(s@ =~= spec_hand_display(*self));
        }
        s
    }

    /// Whether play on the hand has ended: it stood, or it went bust.
    pub fn is_finished(&self) -> (r: bool)
        requires
            spec_raw_sum(self.cards@) + 10 <= u8::MAX,
        ensures
            r == (self.standing || spec_hand_sum(self.cards@) > 21),
    {
        self.standing || self.blackjack_sum() > 21
    }
}

/// Relies on std's `String::push`: it appends exactly the one character.
#[verifier::external_body]
fn push_char(s: &mut String, c: char)
    ensures
        final(s)@ == old(s)@.push(c),
{
    s.push(c);
}

/// A raw count over a prefix never exceeds the count over the whole hand.
pub proof fn lemma_raw_sum_prefix(cards: Seq<Card>, i: int)
    requires
        0 <= i <= cards.len(),
    ensures
        spec_raw_sum(cards.subrange(0, i)) <= spec_raw_sum(cards),
    decreases cards.len() - i,
{
    if i == cards.len() {
        assert(cards.subrange(0, i) =~= cards);
    } else {
        lemma_raw_sum_prefix(cards, i + 1);
        let shorter = cards.subrange(0, i);
        let longer = cards.subrange(0, i + 1);
        assert(longer.drop_last() =~= shorter);
        lemma_raw_sum_bounds(longer);
        assert(spec_raw_sum(longer) == spec_raw_sum(shorter) + spec_blackjack_value(
            longer.last().value,
        ));
    }
}


/// A stake returned together with its winnings at the given ratio, the
/// winnings rounded half-up to a cent.
pub open spec fn spec_ratio_payout(stake: int, r: Ratio) -> int {
    stake + div_round_half_up(stake * r.num, r.den as int)
}

/// The insurance side bet: half the main bet, rounded half-up to a cent.
pub open spec fn spec_insurance_stake(bet: int) -> int {
    div_round_half_up(bet, 2)
}

/// What a winning insurance bet pays out: the stake scaled by the insurance
/// ratio, which at the default two-to-one returns the stake plus as much again.
pub open spec fn spec_insurance_payout(bet: int, r: Ratio) -> int {
    div_round_half_up(spec_insurance_stake(bet) * r.num, r.den as int)
}


/// One card dealt from the shoe to the hand in play: everything else of the
/// round stands, the hand grows by the drawn card, and the shoe moves as one
/// draw moves it.
pub open spec fn draw_to_current_rel(pre: Blackjack, post: Blackjack) -> bool {
    let cur = pre.current_hand as int;
    &&& Blackjack::same_but_shoe_and_current(pre, post)
    &&& post.player_hands@[cur].cards@.len() == pre.player_hands@[cur].cards@.len() + 1
    &&& post.player_hands@[cur].cards@ == pre.player_hands@[cur].cards@.push(
        post.player_hands@[cur].cards@.last(),
    )
    &&& shoe_draw_rel(pre.shoe, post.shoe, post.player_hands@[cur].cards@.last())
    &&& post.player_hands@[cur].hidden_count == pre.player_hands@[cur].hidden_count
}

/// A plain hit: one card to the hand in play, its flags untouched.
pub open spec fn hit_rel(pre: Blackjack, post: Blackjack) -> bool {
    let cur = pre.current_hand as int;
    &&& draw_to_current_rel(pre, post)
    &&& post.player_hands@[cur].standing == pre.player_hands@[cur].standing
    &&& post.player_hands@[cur].doubling_down == pre.player_hands@[cur].doubling_down
}

/// A double-down: one card to the hand in play, which then stands, doubled.
pub open spec fn double_rel(pre: Blackjack, post: Blackjack) -> bool {
    let cur = pre.current_hand as int;
    &&& draw_to_current_rel(pre, post)
    &&& post.player_hands@[cur].standing
    &&& post.player_hands@[cur].doubling_down
}

/// One card dealt from the shoe to the dealer: everything else stands.
pub open spec fn dealer_draw_rel(pre: Blackjack, post: Blackjack) -> bool {
    &&& Blackjack::same_but_shoe_and_dealer(pre, post)
    &&& post.dealer_hand.cards@.len() == pre.dealer_hand.cards@.len() + 1
    &&& post.dealer_hand.cards@ == pre.dealer_hand.cards@.push(post.dealer_hand.cards@.last())
    &&& shoe_draw_rel(pre.shoe, post.shoe, post.dealer_hand.cards@.last())
    &&& post.dealer_hand.hidden_count == pre.dealer_hand.hidden_count
    &&& post.dealer_hand.standing == pre.dealer_hand.standing
    &&& post.dealer_hand.doubling_down == pre.dealer_hand.doubling_down
}

/// A split: the pair in play parts, the second card seeds a new last hand,
/// and each of the two hands receives one more card, the new hand first.
/// When the shoe holds enough cards that no reshuffle intervenes, the two
/// cards come off the top of the shoe.
pub open spec fn split_rel(pre: Blackjack, post: Blackjack) -> bool {
    let cur = pre.current_hand as int;
    let pre_h = pre.player_hands@[cur];
    let post_cur = post.player_hands@[cur];
    let post_new = post.player_hands@.last();
    &&& post.splitting
    &&& post.config == pre.config
    &&& post.dealer_hand == pre.dealer_hand
    &&& post.bet == pre.bet
    &&& post.insurance == pre.insurance
    &&& post.current_hand == pre.current_hand
    &&& post.player_hands@.len() == pre.player_hands@.len() + 1
    &&& forall|j: int|
        0 <= j < pre.player_hands@.len() && j != pre.current_hand
            ==> #[trigger] post.player_hands@[j] == pre.player_hands@[j]
    &&& post_cur.cards@.len() == 2
    &&& post_cur.cards@[0] == pre_h.cards@[0]
    &&& post_new.cards@.len() == 2
    &&& post_new.cards@[0] == pre_h.cards@[1]
    &&& post_cur.standing == pre_h.standing
    &&& post_cur.doubling_down == pre_h.doubling_down
    &&& post_cur.hidden_count == pre_h.hidden_count
    &&& !post_new.standing
    &&& !post_new.doubling_down
    &&& post_new.hidden_count == 0
    &&& pre.shoe.cards@.len() >= pre.shoe.shuffle_threshold + 1 ==> {
        let s = pre.shoe.cards@;
        let n = s.len() as int;
        &&& post.player_hands@.last().cards@ =~= seq![pre_h.cards@[1], s[n - 1]]
        &&& post.player_hands@[cur].cards@ =~= seq![pre_h.cards@[0], s[n - 2]]
        &&& post.shoe.cards@ =~= s.take(n - 2)
    }
    &&& post.shoe.deck_count == pre.shoe.deck_count
    &&& post.shoe.shuffle_threshold == pre.shoe.shuffle_threshold
}

/// One round of blackjack: the dealer's hand, the player's hands (two after
/// a split), the bet, and the draw source.
#[derive(Clone, Debug)]
pub struct Blackjack {
    pub config: BlackjackConfig,
    pub shoe: Shoe,
    pub dealer_hand: Hand,
    pub player_hands: Vec<Hand>,
    pub bet: Money,
    pub insurance: bool,
    pub splitting: bool,
    pub current_hand: usize,
}

impl Blackjack {
    pub open spec fn wf(&self) -> bool {
        &&& self.config.wf()
        &&& self.shoe.wf()
        &&& self.player_hands.len() >= 1
        &&& self.current_hand <= self.player_hands.len()
        &&& self.bet@ >= 0
    }

    /// Everything of the round except the two fields named by the caller.
    pub open spec fn same_but_shoe_and_dealer(pre: Blackjack, post: Blackjack) -> bool {
        &&& post.config == pre.config
        &&& post.player_hands@ == pre.player_hands@
        &&& post.bet == pre.bet
        &&& post.insurance == pre.insurance
        &&& post.splitting == pre.splitting
        &&& post.current_hand == pre.current_hand
    }

    /// Everything of the round except the shoe and the current hand.
    pub open spec fn same_but_shoe_and_current(pre: Blackjack, post: Blackjack) -> bool {
        &&& post.config == pre.config
        &&& post.dealer_hand == pre.dealer_hand
        &&& post.bet == pre.bet
        &&& post.insurance == pre.insurance
        &&& post.splitting == pre.splitting
        &&& post.current_hand == pre.current_hand
        &&& post.player_hands@.len() == pre.player_hands@.len()
        &&& forall|j: int|
            0 <= j < pre.player_hands@.len() && j != pre.current_hand
                ==> post.player_hands@[j] == pre.player_hands@[j]
    }

    /// A fresh round at the given table rules, with a full shuffled shoe,
    /// an empty dealer hand whose first card will be face down, and one
    /// empty player hand.
    pub fn new(config: BlackjackConfig) -> (r: Blackjack)
        requires
            config.wf(),
        ensures
            r.config == config,
            r.shoe.deck_count == config.shoe_count,
            r.shoe.shuffle_threshold == spec_shuffle_threshold(config),
            r.shoe.cards@.len() == 52 * config.shoe_count,
            r.shoe.cards@.to_multiset() == crate::cards::shoe_contents(config.shoe_count as int),
            r.dealer_hand.cards@.len() == 0,
            r.dealer_hand.hidden_count == 1,
            !r.dealer_hand.standing,
            !r.dealer_hand.doubling_down,
            r.player_hands@.len() == 1,
            r.player_hands@[0].cards@.len() == 0,
            !r.player_hands@[0].standing,
            !r.player_hands@[0].doubling_down,
            r.player_hands@[0].hidden_count == 0,
            r.bet@ == 0,
            !r.insurance,
            !r.splitting,
            r.current_hand == 0,
            r.wf(),
    {
        let threshold = config.shuffle_shoe_threshold_count();
        let mut player_hands: Vec<Hand> = Vec::new();
        player_hands.push(Hand::new());
        Blackjack {
            config,
            shoe: Shoe::new(config.shoe_count, threshold),
            dealer_hand: Hand::new_hidden(1),
            player_hands,
            bet: Money::zero(),
            insurance: false,
            splitting: false,
            current_hand: 0,
        }
    }

    /// Replaces the draw source, as when a saved shoe is restored.
    pub fn set_shoe(&mut self, shoe: Shoe)
        ensures
            final(self).shoe == shoe,
            Self::same_but_shoe_and_dealer(*old(self), *final(self)),
            final(self).dealer_hand == old(self).dealer_hand,
    {
        self.shoe = shoe;
    }

    /// Sets the round's bet. A bet must be strictly positive; the session
    /// rejects anything else before it reaches the round.
    pub fn set_bet(&mut self, bet: Money)
        requires
            bet@ > 0,
        ensures
            final(self).bet == bet,
            final(self).config == old(self).config,
            final(self).shoe == old(self).shoe,
            final(self).dealer_hand == old(self).dealer_hand,
            final(self).player_hands@ == old(self).player_hands@,
            final(self).insurance == old(self).insurance,
            final(self).splitting == old(self).splitting,
            final(self).current_hand == old(self).current_hand,
    {
        self.bet = bet;
    }

    pub fn current_hand_index(&self) -> (r: usize)
        ensures
            r == self.current_hand,
    {
        self.current_hand
    }

    pub fn current_player_hand(&self) -> (r: &Hand)
        requires
            self.current_hand < self.player_hands@.len(),
        ensures
            *r == self.player_hands@[self.current_hand as int],
    {
        &self.player_hands[self.current_hand]
    }

    /// Deals the next card to the dealer.
    pub fn card_to_dealer(&mut self)
        requires
            old(self).wf(),
        ensures
            final(self).wf(),
            dealer_draw_rel(*old(self), *final(self)),
    {
        let card = self.shoe.draw_card();
        self.dealer_hand.push(card);
    }

    /// Deals the next card to the hand now in play.
    fn card_to_player(&mut self)
        requires
            old(self).wf(),
            old(self).current_hand < old(self).player_hands@.len(),
        ensures
            final(self).wf(),
            hit_rel(*old(self), *final(self)),
    {
        let card = self.shoe.draw_card();
        let i = self.current_hand;
        let hand = &mut self.player_hands[i];
        hand.push(card);
    }

    /// Deals one more card to the hand now in play.
    pub fn hit(&mut self)
        requires
            old(self).wf(),
            old(self).current_hand < old(self).player_hands@.len(),
        ensures
            final(self).wf(),
            hit_rel(*old(self), *final(self)),
    {
        self.card_to_player();
    }

    /// The opening deal: dealer, player, dealer, player, the dealer's first
    /// card face down. When the shoe holds enough cards that no reshuffle
    /// intervenes, the four cards come off the top of the shoe in that order.
    pub fn initial_deal(&mut self)
        requires
            old(self).wf(),
            old(self).dealer_hand.cards@.len() == 0,
            old(self).current_hand < old(self).player_hands@.len(),
        ensures
            final(self).wf(),
            Self::same_but_shoe_and_current(
                Blackjack { dealer_hand: final(self).dealer_hand, ..*old(self) },
                *final(self),
            ),
            final(self).dealer_hand.cards@.len() == 2,
            final(self).dealer_hand.hidden_count == old(self).dealer_hand.hidden_count,
            final(self).dealer_hand.standing == old(self).dealer_hand.standing,
            final(self).dealer_hand.doubling_down == old(self).dealer_hand.doubling_down,
            final(self).player_hands@[old(self).current_hand as int].cards@.len() == old(
                self,
            ).player_hands@[old(self).current_hand as int].cards@.len() + 2,
            final(self).player_hands@[old(self).current_hand as int].standing == old(
                self,
            ).player_hands@[old(self).current_hand as int].standing,
            final(self).player_hands@[old(self).current_hand as int].doubling_down == old(
                self,
            ).player_hands@[old(self).current_hand as int].doubling_down,
            final(self).player_hands@[old(self).current_hand as int].hidden_count == old(
                self,
            ).player_hands@[old(self).current_hand as int].hidden_count,
            old(self).shoe.cards@.len() >= old(self).shoe.shuffle_threshold + 3 ==> {
                let s = old(self).shoe.cards@;
                let n = s.len() as int;
                &&& final(self).dealer_hand.cards@ =~= seq![s[n - 1], s[n - 3]]
                &&& final(self).player_hands@[old(self).current_hand as int].cards@ =~= old(
                    self,
                ).player_hands@[old(self).current_hand as int].cards@ + seq![s[n - 2], s[n - 4]]
                &&& final(self).shoe.cards@ =~= s.take(n - 4)
            },
    {
        proof {
            if old(self).shoe.cards@.len() >= old(self).shoe.shuffle_threshold + 3 {
                let s = old(self).shoe.cards@;
                let n = s.len() as int;
                assert(s.drop_last() =~= s.take(n - 1));
                assert(s.take(n - 1).drop_last() =~= s.take(n - 2));
                assert(s.take(n - 2).drop_last() =~= s.take(n - 3));
                assert(s.take(n - 3).drop_last() =~= s.take(n - 4));
            }
        }
        self.card_to_dealer();
        self.card_to_player();
        self.card_to_dealer();
        self.card_to_player();
    }

    /// Whether insurance is on offer: the dealer's face-up card is an Ace.
    pub fn can_place_insurance_bet(&self) -> (r: bool)
        requires
            self.dealer_hand.cards@.len() >= 2,
        ensures
            r == (self.dealer_hand.cards@[1].value == Value::Ace),
    {
        matches!(self.dealer_hand.face_card().value, Value::Ace)
    }

    /// Marks the insurance side bet as placed. The session stakes it.
    pub fn place_insurance_bet(&mut self)
        ensures
            final(self).insurance,
            final(self).config == old(self).config,
            final(self).shoe == old(self).shoe,
            final(self).dealer_hand == old(self).dealer_hand,
            final(self).player_hands@ == old(self).player_hands@,
            final(self).bet == old(self).bet,
            final(self).splitting == old(self).splitting,
            final(self).current_hand == old(self).current_hand,
    {
        self.insurance = true;
    }

    /// Whether the hand in play may double down.
    pub fn can_double_down(&self) -> (r: bool)
        requires
            self.current_hand < self.player_hands@.len(),
            spec_raw_sum(self.player_hands@[self.current_hand as int].cards@) + 10 <= u8::MAX,
        ensures
            r == {
                let h = self.player_hands@[self.current_hand as int];
                h.cards@.len() == 2 && !h.doubling_down && (spec_hand_sum(h.cards@) == 10
                    || spec_hand_sum(h.cards@) == 11)
            },
    {
        self.player_hands[self.current_hand].can_double_down()
    }

    /// Whether the hand in play may split: a pair, and no split has been
    /// made this round — at most two hands per round.
    pub fn can_split(&self) -> (r: bool)
        requires
            self.current_hand < self.player_hands@.len(),
        ensures
            r == {
                let h = self.player_hands@[self.current_hand as int];
                !self.splitting && h.cards@.len() == 2 && h.cards@[0].value == h.cards@[1].value
            },
    {
        !self.splitting && self.player_hands[self.current_hand].can_split()
    }

    /// Doubles down the hand in play: one more card, and the hand stands,
    /// whatever comes. The session charges the second stake.
    pub fn double_down(&mut self)
        requires
            old(self).wf(),
            old(self).current_hand < old(self).player_hands@.len(),
        ensures
            final(self).wf(),
            double_rel(*old(self), *final(self)),
    {
        self.card_to_player();
        let i = self.current_hand;
        let hand = &mut self.player_hands[i];
        hand.doubling_down = true;
        hand.standing = true;
    }

    /// Splits the pair in play: the second card seeds a new hand, and each
    /// of the two hands is dealt one more card — the new hand first, as the
    /// dealer slides it aside. The session charges the second stake.
    pub fn split(&mut self)
        requires
            old(self).wf(),
            old(self).current_hand < old(self).player_hands@.len(),
            old(self).player_hands@[old(self).current_hand as int].cards@.len() == 2,
        ensures
            final(self).wf(),
            split_rel(*old(self), *final(self)),
    {
        proof {
            let s = old(self).shoe.cards@;
            let n = s.len() as int;
            if n >= old(self).shoe.shuffle_threshold + 1 {
                assert(s.drop_last() =~= s.take(n - 1));
                assert(s.take(n - 1).drop_last() =~= s.take(n - 2));
            }
        }
        self.splitting = true;

        let i = self.current_hand;
        let hand = &mut self.player_hands[i];
        let mut new_hand = hand.split();
        let card = self.shoe.draw_card();
        new_hand.push(card);

        self.player_hands.push(new_hand);

        self.card_to_player();
        proof {
            let cur = old(self).current_hand as int;
            assert(self.player_hands@.last() == self.player_hands@[self.player_hands@.len() - 1]);
            assert(old(self).player_hands@[cur].cards@.take(1).push(
                self.player_hands@[cur].cards@.last(),
            ).len() == 2);
        }
    }

    /// Marks the hand in play as standing.
    pub fn stand(&mut self)
        requires
            old(self).current_hand < old(self).player_hands@.len(),
        ensures
            Self::same_but_shoe_and_current(*old(self), *final(self)),
            final(self).shoe == old(self).shoe,
            final(self).player_hands@[old(self).current_hand as int] == (Hand {
                standing: true,
                ..old(self).player_hands@[old(self).current_hand as int]
            }),
    {
        let i = self.current_hand;
        self.player_hands[i].standing = true;
    }

    /// Turns the dealer's hole card face up.
    pub fn reveal_hole_card(&mut self)
        ensures
            final(self).dealer_hand == (Hand { hidden_count: 0, ..old(self).dealer_hand }),
            Self::same_but_shoe_and_dealer(*old(self), *final(self)),
            final(self).shoe == old(self).shoe,
    {
        self.dealer_hand.hidden_count = 0;
    }

    /// Moves play to the next hand.
    pub fn next_hand(&mut self)
        requires
            old(self).current_hand < old(self).player_hands@.len(),
        ensures
            final(self).current_hand == old(self).current_hand + 1,
            final(self).config == old(self).config,
            final(self).shoe == old(self).shoe,
            final(self).dealer_hand == old(self).dealer_hand,
            final(self).player_hands@ == old(self).player_hands@,
            final(self).bet == old(self).bet,
            final(self).insurance == old(self).insurance,
            final(self).splitting == old(self).splitting,
    {
        let n = self.player_hands.len();
        assert(self.current_hand < n);
        self.current_hand = self.current_hand + 1;
    }

    /// What a winning insurance bet returns: the half-bet stake scaled by
    /// the insurance payout ratio.
    pub fn insurance_payout(&self) -> (r: Money)
        requires
            self.wf(),
            spec_insurance_stake(self.bet@) * self.config.insurance_payout_ratio.num <= i64::MAX,
        ensures
            r@ == spec_insurance_payout(self.bet@, self.config.insurance_payout_ratio),
    {
        self.bet.div_int(2).mul_ratio(self.config.insurance_payout_ratio)
    }

    /// What a natural blackjack returns: the stake plus the stake scaled by
    /// the blackjack payout ratio.
    pub fn natural_blackjack_payout(&self) -> (r: Money)
        requires
            self.wf(),
            self.bet@ * self.config.blackjack_payout_ratio.num <= i64::MAX,
            spec_ratio_payout(self.bet@, self.config.blackjack_payout_ratio) <= i64::MAX,
        ensures
            r@ == spec_ratio_payout(self.bet@, self.config.blackjack_payout_ratio),
    {
        let winnings = self.bet.mul_ratio(self.config.blackjack_payout_ratio);
        self.bet.add(winnings)
    }
}


/// One of the choices open to the player on the hand in play.
#[derive(Clone, Copy, Debug, PartialEq, Eq, Structural)]
pub enum PlayerAction {
    Hit,
    Stand,
    Double,
    Split,
}

/// Why a bet was rejected. The round is unchanged; the player is asked again.
#[derive(Clone, Copy, Debug, PartialEq, Eq, Structural)]
pub enum BetError {
    /// A bet must be strictly positive.
    NotPositive,
    /// The bankroll does not cover the bet.
    InsufficientFunds,
}

/// Why an action was rejected. The round is unchanged; the player is asked again.
#[derive(Clone, Copy, Debug, PartialEq, Eq, Structural)]
pub enum ActionError {
    /// The action is not open to the hand in play.
    Unavailable,
    /// The bankroll does not cover the extra stake the action needs.
    InsufficientFunds,
}

/// Why a bankroll subtraction was rejected.
#[derive(Clone, Copy, Debug, PartialEq, Eq, Structural)]
pub enum BankrollError {
    /// The bankroll does not cover the amount.
    InsufficientFunds,
}

/// The whole game session: the table configuration, the player's funds, the
/// blackjack round in progress, and the running statistics.
#[derive(Clone, Debug)]
pub struct Casino {
    pub config: Config,
    pub bankroll: Money,
    pub blackjack: Blackjack,
    pub stats: Statistics,
}

impl Casino {
    /// Sound session state: valid configuration, a non-negative bankroll
    /// and bet, a well-formed shoe, and hand counts small enough that every
    /// blackjack total fits its machine representation.
    pub open spec fn wf(&self) -> bool {
        &&& self.config.wf()
        &&& self.blackjack.wf()
        &&& self.blackjack.config == self.config.blackjack
        &&& self.bankroll@ >= 0
        &&& spec_raw_sum(self.blackjack.dealer_hand.cards@) <= 26
        &&& forall|i: int|
            0 <= i < self.blackjack.player_hands@.len() ==> spec_raw_sum(
                #[trigger] self.blackjack.player_hands@[i].cards@,
            ) <= 31
    }

    /// A fresh session: the starting gift as bankroll, a fresh round, and
    /// empty statistics.
    pub fn new(config: Config) -> (r: Casino)
        requires
            config.wf(),
        ensures
            r.config == config,
            r.bankroll == config.mister_greens_gift,
            r.blackjack.config == config.blackjack,
            r.blackjack.bet@ == 0,
            r.blackjack.dealer_hand.cards@.len() == 0,
            r.blackjack.dealer_hand.hidden_count == 1,
            r.blackjack.player_hands@.len() == 1,
            r.blackjack.player_hands@[0].cards@.len() == 0,
            !r.blackjack.player_hands@[0].standing,
            !r.blackjack.player_hands@[0].doubling_down,
            !r.blackjack.insurance,
            !r.blackjack.splitting,
            r.blackjack.current_hand == 0,
            r.stats.biggest_bankroll@ == 0,
            r.stats.times_bankrupted == 0,
            r.wf(),
    {
        Casino {
            config,
            bankroll: config.mister_greens_gift,
            blackjack: Blackjack::new(config.blackjack),
            stats: Default::default(),
        }
    }

    /// Credits the bankroll and lets the statistics see the new level.
    pub fn add_bankroll(&mut self, amount: Money)
        requires
            old(self).wf(),
            amount@ >= 0,
            old(self).bankroll@ + amount@ <= i64::MAX,
        ensures
            final(self).wf(),
            final(self).bankroll@ == old(self).bankroll@ + amount@,
            final(self).stats == old(self).stats.spec_update_bankroll(final(self).bankroll),
            final(self).config == old(self).config,
            final(self).blackjack == old(self).blackjack,
    {
        self.bankroll = self.bankroll.add(amount);
        self.stats.update_bankroll(self.bankroll);
    }

    /// Debits the bankroll when it covers the amount, and rejects the
    /// debit otherwise, leaving everything unchanged.
    pub fn subtract_bankroll(&mut self, amount: Money) -> (r: Result<(), BankrollError>)
        requires
            old(self).wf(),
            amount@ >= 0,
        ensures
            final(self).wf(),
            r is Ok <==> old(self).bankroll@ >= amount@,
            r is Ok ==> final(self).bankroll@ == old(self).bankroll@ - amount@ && final(self).stats
                == old(self).stats.spec_update_bankroll(final(self).bankroll),
            r is Err ==> *final(self) == *old(self),
            final(self).config == old(self).config,
            final(self).blackjack == old(self).blackjack,
    {
        if self.bankroll >= amount {
            self.bankroll = self.bankroll.sub(amount);
            self.stats.update_bankroll(self.bankroll);
            Ok(())
        } else {
            Err(BankrollError::InsufficientFunds)
        }
    }

    /// Stakes the round's bet: a positive amount covered by the bankroll is
    /// debited at once — a player can never stake more than they hold — and
    /// anything else is rejected with the round unchanged.
    pub fn place_bet(&mut self, bet: Money) -> (r: Result<(), BetError>)
        requires
            old(self).wf(),
        ensures
            final(self).wf(),
            r is Ok <==> bet@ > 0 && old(self).bankroll@ >= bet@,
            r == Err::<(), BetError>(BetError::NotPositive) <==> bet@ <= 0,
            r == Err::<(), BetError>(BetError::InsufficientFunds) <==> bet@ > 0 && old(
                self,
            ).bankroll@ < bet@,
            r is Err ==> *final(self) == *old(self),
            r is Ok ==> {
                &&& final(self).bankroll@ == old(self).bankroll@ - bet@
                &&& final(self).stats == old(self).stats.spec_update_bankroll(
                    final(self).bankroll,
                )
                &&& final(self).blackjack.bet == bet
                &&& final(self).blackjack.config == old(self).blackjack.config
                &&& final(self).blackjack.shoe == old(self).blackjack.shoe
                &&& final(self).blackjack.dealer_hand == old(self).blackjack.dealer_hand
                &&& final(self).blackjack.player_hands@ == old(self).blackjack.player_hands@
                &&& final(self).blackjack.insurance == old(self).blackjack.insurance
                &&& final(self).blackjack.splitting == old(self).blackjack.splitting
                &&& final(self).blackjack.current_hand == old(self).blackjack.current_hand
                &&& final(self).config == old(self).config
            },
    {
        if !(bet.is_sign_positive() && !bet.is_zero()) {
            return Err(BetError::NotPositive);
        }
        if self.bankroll < bet {
            return Err(BetError::InsufficientFunds);
        }
        self.bankroll = self.bankroll.sub(bet);
        self.stats.update_bankroll(self.bankroll);
        self.blackjack.set_bet(bet);
        Ok(())
    }

    /// Whether the insurance side bet is on offer: the dealer shows an Ace
    /// and the bankroll covers the half-bet stake.
    pub fn can_place_insurance(&self) -> (r: bool)
        requires
            self.wf(),
            self.blackjack.dealer_hand.cards@.len() >= 2,
        ensures
            r == (self.blackjack.dealer_hand.cards@[1].value == Value::Ace && self.bankroll@
                >= spec_insurance_stake(self.blackjack.bet@)),
    {
        let stake = self.blackjack.bet.div_int(2);
        self.blackjack.can_place_insurance_bet() && self.bankroll >= stake
    }

    /// Stakes the insurance side bet: half the main bet, debited at once
    /// and tracked separately from the hands.
    pub fn place_insurance(&mut self)
        requires
            old(self).wf(),
            old(self).blackjack.dealer_hand.cards@.len() >= 2,
            old(self).blackjack.dealer_hand.cards@[1].value == Value::Ace,
            old(self).bankroll@ >= spec_insurance_stake(old(self).blackjack.bet@),
        ensures
            final(self).wf(),
            final(self).bankroll@ == old(self).bankroll@ - spec_insurance_stake(
                old(self).blackjack.bet@,
            ),
            final(self).stats == old(self).stats.spec_update_bankroll(final(self).bankroll),
            final(self).blackjack.insurance,
            final(self).blackjack.bet == old(self).blackjack.bet,
            final(self).blackjack.config == old(self).blackjack.config,
            final(self).blackjack.shoe == old(self).blackjack.shoe,
            final(self).blackjack.dealer_hand == old(self).blackjack.dealer_hand,
            final(self).blackjack.player_hands@ == old(self).blackjack.player_hands@,
            final(self).blackjack.splitting == old(self).blackjack.splitting,
            final(self).blackjack.current_hand == old(self).blackjack.current_hand,
            final(self).config == old(self).config,
    {
        let stake = self.blackjack.bet.div_int(2);
        self.bankroll = self.bankroll.sub(stake);
        self.stats.update_bankroll(self.bankroll);
        self.blackjack.place_insurance_bet();
    }

    /// Discards the finished round and readies the next one: fresh hands,
    /// no bet, no flags — while the shoe plays on where it left off.
    pub fn reset_round(&mut self)
        requires
            old(self).wf(),
        ensures
            final(self).wf(),
            final(self).config == old(self).config,
            final(self).bankroll == old(self).bankroll,
            final(self).stats == old(self).stats,
            final(self).blackjack.shoe == old(self).blackjack.shoe,
            final(self).blackjack.config == old(self).blackjack.config,
            final(self).blackjack.bet@ == 0,
            !final(self).blackjack.insurance,
            !final(self).blackjack.splitting,
            final(self).blackjack.current_hand == 0,
            final(self).blackjack.dealer_hand.cards@.len() == 0,
            final(self).blackjack.dealer_hand.hidden_count == 1,
            final(self).blackjack.player_hands@.len() == 1,
            final(self).blackjack.player_hands@[0].cards@.len() == 0,
            !final(self).blackjack.player_hands@[0].standing,
            !final(self).blackjack.player_hands@[0].doubling_down,
    {
        self.blackjack.dealer_hand = Hand::new_hidden(1);
        let mut hands: Vec<Hand> = Vec::new();
        hands.push(Hand::new());
        self.blackjack.player_hands = hands;
        self.blackjack.bet = Money::zero();
        self.blackjack.insurance = false;
        self.blackjack.splitting = false;
        self.blackjack.current_hand = 0;
    }
}


/// The stake a busted hand forfeits to the record: the bet, doubled for a
/// doubled-down hand, clamped to the machine range as all statistics are.
pub open spec fn spec_bust_loss_stake(bet: Money, h: Hand) -> Money {
    if h.doubling_down {
        Money { cents: sat_add_cents(bet@, bet@) as i64 }
    } else {
        bet
    }
}

/// Whether the hand in play may double down, with the bankroll left aside.
pub open spec fn spec_can_double(c: Casino) -> bool {
    let h = c.blackjack.player_hands@[c.blackjack.current_hand as int];
    h.cards@.len() == 2 && !h.doubling_down && (spec_hand_sum(h.cards@) == 10 || spec_hand_sum(
        h.cards@,
    ) == 11)
}

/// Whether the hand in play may split, with the bankroll left aside.
pub open spec fn spec_can_split(c: Casino) -> bool {
    let h = c.blackjack.player_hands@[c.blackjack.current_hand as int];
    !c.blackjack.splitting && h.cards@.len() == 2 && h.cards@[0].value == h.cards@[1].value
}

/// The session after a hit: one card to the hand in play; a hand that goes
/// bust forfeits its stake to the record at once and play moves on.
pub open spec fn casino_hit_post(pre: Casino, post: Casino) -> bool {
    let cur = pre.blackjack.current_hand as int;
    let pre_h = pre.blackjack.player_hands@[cur];
    let post_h = post.blackjack.player_hands@[cur];
    let busted = spec_hand_sum(post_h.cards@) > 21;
    &&& post.config == pre.config
    &&& post.bankroll == pre.bankroll
    &&& post.blackjack.config == pre.blackjack.config
    &&& post.blackjack.bet == pre.blackjack.bet
    &&& post.blackjack.insurance == pre.blackjack.insurance
    &&& post.blackjack.splitting == pre.blackjack.splitting
    &&& post.blackjack.dealer_hand == pre.blackjack.dealer_hand
    &&& post.blackjack.player_hands@.len() == pre.blackjack.player_hands@.len()
    &&& forall|j: int|
        0 <= j < pre.blackjack.player_hands@.len() && j != cur
            ==> #[trigger] post.blackjack.player_hands@[j] == pre.blackjack.player_hands@[j]
    &&& post_h.cards@ == pre_h.cards@.push(post_h.cards@.last())
    &&& shoe_draw_rel(pre.blackjack.shoe, post.blackjack.shoe, post_h.cards@.last())
    &&& post_h.standing == pre_h.standing
    &&& post_h.doubling_down == pre_h.doubling_down
    &&& post_h.hidden_count == pre_h.hidden_count
    &&& busted ==> post.blackjack.current_hand == cur + 1
    &&& !busted ==> post.blackjack.current_hand == cur
    &&& post.stats == if busted {
        Statistics {
            blackjack: pre.stats.blackjack.spec_record_loss(
                spec_bust_loss_stake(pre.blackjack.bet, post_h),
            ),
            ..pre.stats
        }.spec_update_bankroll(pre.bankroll)
    } else {
        pre.stats
    }
}

/// The session after a stand: the hand in play stands and play moves on.
pub open spec fn casino_stand_post(pre: Casino, post: Casino) -> bool {
    let cur = pre.blackjack.current_hand as int;
    &&& post.config == pre.config
    &&& post.bankroll == pre.bankroll
    &&& post.stats == pre.stats
    &&& post.blackjack.config == pre.blackjack.config
    &&& post.blackjack.shoe == pre.blackjack.shoe
    &&& post.blackjack.bet == pre.blackjack.bet
    &&& post.blackjack.insurance == pre.blackjack.insurance
    &&& post.blackjack.splitting == pre.blackjack.splitting
    &&& post.blackjack.dealer_hand == pre.blackjack.dealer_hand
    &&& post.blackjack.player_hands@.len() == pre.blackjack.player_hands@.len()
    &&& forall|j: int|
        0 <= j < pre.blackjack.player_hands@.len() && j != cur
            ==> #[trigger] post.blackjack.player_hands@[j] == pre.blackjack.player_hands@[j]
    &&& post.blackjack.player_hands@[cur] == (Hand {
        standing: true,
        ..pre.blackjack.player_hands@[cur]
    })
    &&& post.blackjack.current_hand == cur + 1
}

/// The session after a double-down: the doubled stake is debited at once,
/// the hand takes exactly one more card and stands, a bust forfeits the
/// doubled stake to the record, and play moves on in every case.
pub open spec fn casino_double_post(pre: Casino, post: Casino) -> bool {
    let cur = pre.blackjack.current_hand as int;
    let pre_h = pre.blackjack.player_hands@[cur];
    let post_h = post.blackjack.player_hands@[cur];
    let bankroll2 = Money { cents: (pre.bankroll@ - pre.blackjack.bet@) as i64 };
    let stats1 = pre.stats.spec_update_bankroll(bankroll2);
    let busted = spec_hand_sum(post_h.cards@) > 21;
    &&& post.config == pre.config
    &&& post.bankroll == bankroll2
    &&& post.blackjack.config == pre.blackjack.config
    &&& post.blackjack.bet == pre.blackjack.bet
    &&& post.blackjack.insurance == pre.blackjack.insurance
    &&& post.blackjack.splitting == pre.blackjack.splitting
    &&& post.blackjack.dealer_hand == pre.blackjack.dealer_hand
    &&& post.blackjack.player_hands@.len() == pre.blackjack.player_hands@.len()
    &&& forall|j: int|
        0 <= j < pre.blackjack.player_hands@.len() && j != cur
            ==> #[trigger] post.blackjack.player_hands@[j] == pre.blackjack.player_hands@[j]
    &&& post_h.cards@ == pre_h.cards@.push(post_h.cards@.last())
    &&& shoe_draw_rel(pre.blackjack.shoe, post.blackjack.shoe, post_h.cards@.last())
    &&& post_h.standing
    &&& post_h.doubling_down
    &&& post_h.hidden_count == pre_h.hidden_count
    &&& post.blackjack.current_hand == cur + 1
    &&& post.stats == if busted {
        Statistics {
            blackjack: stats1.blackjack.spec_record_loss(
                spec_bust_loss_stake(pre.blackjack.bet, post_h),
            ),
            ..stats1
        }.spec_update_bankroll(bankroll2)
    } else {
        stats1
    }
}

/// The session after a split: the second stake is debited at once, and the
/// pair parts into two hands of two cards each as the round's split says.
pub open spec fn casino_split_post(pre: Casino, post: Casino) -> bool {
    &&& post.config == pre.config
    &&& post.bankroll@ == pre.bankroll@ - pre.blackjack.bet@
    &&& post.stats == pre.stats.spec_update_bankroll(post.bankroll)
    &&& split_rel(pre.blackjack, post.blackjack)
}

impl Casino {
    /// Plays one choice on the hand in play. Hit and Stand are always open;
    /// Double and Split are rejected — with the round unchanged, so the
    /// player is simply asked again — when the hand does not qualify or the
    /// bankroll does not cover the extra stake they need.
    pub fn apply_action(&mut self, action: PlayerAction) -> (r: Result<(), ActionError>)
        requires
            old(self).wf(),
            old(self).blackjack.current_hand < old(self).blackjack.player_hands@.len(),
            !old(self).blackjack.player_hands@[old(self).blackjack.current_hand as int].standing,
            spec_hand_sum(
                old(self).blackjack.player_hands@[old(self).blackjack.current_hand as int].cards@,
            ) <= 21,
        ensures
            final(self).wf(),
            action == PlayerAction::Hit ==> r is Ok && casino_hit_post(*old(self), *final(self)),
            action == PlayerAction::Stand ==> r is Ok && casino_stand_post(
                *old(self),
                *final(self),
            ),
            action == PlayerAction::Double ==> {
                &&& r is Ok <==> spec_can_double(*old(self)) && old(self).bankroll@ >= old(
                    self,
                ).blackjack.bet@
                &&& r == Err::<(), ActionError>(ActionError::Unavailable) <==> !spec_can_double(
                    *old(self),
                )
                &&& r is Ok ==> casino_double_post(*old(self), *final(self))
                &&& r is Err ==> *final(self) == *old(self)
            },
            action == PlayerAction::Split ==> {
                &&& r is Ok <==> spec_can_split(*old(self)) && old(self).bankroll@ >= old(
                    self,
                ).blackjack.bet@
                &&& r == Err::<(), ActionError>(ActionError::Unavailable) <==> !spec_can_split(
                    *old(self),
                )
                &&& r is Ok ==> casino_split_post(*old(self), *final(self))
                &&& r is Err ==> *final(self) == *old(self)
            },
    {
        let ghost pre = *old(self);
        match action {
            PlayerAction::Hit => {
                self.blackjack.hit();
                let i = self.blackjack.current_hand_index();
                proof {
                    let cur = pre.blackjack.current_hand as int;
                    lemma_raw_sum_push(
                        pre.blackjack.player_hands@[cur].cards@,
                        self.blackjack.player_hands@[cur].cards@.last(),
                    );
                    lemma_sum_adjusts_at_most_one_ace(pre.blackjack.player_hands@[cur].cards@);
                }
                let busted = self.blackjack.player_hands[i].is_bust();
                if busted {
                    let stake = self.bust_loss_stake_of(i);
                    self.stats.blackjack.record_loss(stake);
                    self.stats.update_bankroll(self.bankroll);
                    self.blackjack.next_hand();
                }
                Ok(())
            },
            PlayerAction::Stand => {
                self.blackjack.stand();
                self.blackjack.next_hand();
                Ok(())
            },
            PlayerAction::Double => {
                if !self.blackjack.can_double_down() {
                    return Err(ActionError::Unavailable);
                }
                if self.bankroll < self.blackjack.bet {
                    return Err(ActionError::InsufficientFunds);
                }
                self.bankroll = self.bankroll.sub(self.blackjack.bet);
                self.stats.update_bankroll(self.bankroll);
                self.blackjack.double_down();
                let i = self.blackjack.current_hand_index();
                proof {
                    let cur = pre.blackjack.current_hand as int;
                    lemma_raw_sum_push(
                        pre.blackjack.player_hands@[cur].cards@,
                        self.blackjack.player_hands@[cur].cards@.last(),
                    );
                    lemma_sum_adjusts_at_most_one_ace(pre.blackjack.player_hands@[cur].cards@);
                }
                let busted = self.blackjack.player_hands[i].is_bust();
                if busted {
                    let stake = self.bust_loss_stake_of(i);
                    self.stats.blackjack.record_loss(stake);
                    self.stats.update_bankroll(self.bankroll);
                }
                self.blackjack.next_hand();
                Ok(())
            },
            PlayerAction::Split => {
                if !self.blackjack.can_split() {
                    return Err(ActionError::Unavailable);
                }
                if self.bankroll < self.blackjack.bet {
                    return Err(ActionError::InsufficientFunds);
                }
                self.bankroll = self.bankroll.sub(self.blackjack.bet);
                self.stats.update_bankroll(self.bankroll);
                self.blackjack.split();
                proof {
                    let cur = pre.blackjack.current_hand as int;
                    lemma_raw_sum_bounds(self.blackjack.player_hands@[cur].cards@);
                    lemma_raw_sum_bounds(self.blackjack.player_hands@.last().cards@);
                }
                Ok(())
            },
        }
    }

    /// The stake the busted hand at `i` forfeits to the record.
    fn bust_loss_stake_of(&self, i: usize) -> (r: Money)
        requires
            i < self.blackjack.player_hands@.len(),
        ensures
            r == spec_bust_loss_stake(
                self.blackjack.bet,
                self.blackjack.player_hands@[i as int],
            ),
    {
        if self.blackjack.player_hands[i].doubling_down {
            self.blackjack.bet.saturating_add(self.blackjack.bet)
        } else {
            self.blackjack.bet
        }
    }
}


/// Whether at least one player hand is still in the running (not bust).
pub open spec fn spec_any_survivor(hands: Seq<Hand>) -> bool {
    exists|i: int| 0 <= i < hands.len() && spec_hand_sum(hands[i].cards@) <= 21
}

/// The dealer's fixed policy, run out deterministically on a known shoe
/// order: draw from the top while the total is under seventeen, as far as
/// the cards last.
pub open spec fn dealer_run(dealer: Seq<Card>, shoe: Seq<Card>) -> (Seq<Card>, Seq<Card>)
    decreases shoe.len(),
{
    if spec_hand_sum(dealer) >= 17 || shoe.len() == 0 {
        (dealer, shoe)
    } else {
        dealer_run(dealer.push(shoe.last()), shoe.drop_last())
    }
}

/// The dealer's run never puts cards back.
pub proof fn lemma_dealer_run_len(dealer: Seq<Card>, shoe: Seq<Card>)
    ensures
        dealer_run(dealer, shoe).1.len() <= shoe.len(),
    decreases shoe.len(),
{
    if !(spec_hand_sum(dealer) >= 17 || shoe.len() == 0) {
        lemma_dealer_run_len(dealer.push(shoe.last()), shoe.drop_last());
    }
}

impl Casino {
    /// Plays the dealer's part, if it is owed: when at least one player
    /// hand survived, the hole card is revealed and the dealer draws while
    /// under seventeen. When every hand busted, the round ends here: the
    /// hole card stays down and the dealer draws nothing. When the shoe
    /// holds enough cards that no reshuffle intervenes, the dealer's cards
    /// are exactly the run off the top of the shoe.
    pub fn dealer_play(&mut self)
        requires
            old(self).wf(),
        ensures
            final(self).wf(),
            !spec_any_survivor(old(self).blackjack.player_hands@) ==> *final(self) == *old(self),
            spec_any_survivor(old(self).blackjack.player_hands@) ==> {
                let run = dealer_run(old(self).blackjack.dealer_hand.cards@, old(self).blackjack.shoe.cards@);
                &&& final(self).config == old(self).config
                &&& final(self).bankroll == old(self).bankroll
                &&& final(self).stats == old(self).stats
                &&& final(self).blackjack.config == old(self).blackjack.config
                &&& final(self).blackjack.bet == old(self).blackjack.bet
                &&& final(self).blackjack.insurance == old(self).blackjack.insurance
                &&& final(self).blackjack.splitting == old(self).blackjack.splitting
                &&& final(self).blackjack.current_hand == old(self).blackjack.current_hand
                &&& final(self).blackjack.player_hands@ == old(self).blackjack.player_hands@
                &&& final(self).blackjack.dealer_hand.hidden_count == 0
                &&& final(self).blackjack.dealer_hand.standing == old(self).blackjack.dealer_hand.standing
                &&& final(self).blackjack.dealer_hand.doubling_down == old(self).blackjack.dealer_hand.doubling_down
                &&& spec_hand_sum(final(self).blackjack.dealer_hand.cards@) >= 17
                &&& final(self).blackjack.shoe.deck_count == old(self).blackjack.shoe.deck_count
                &&& final(self).blackjack.shoe.shuffle_threshold == old(self).blackjack.shoe.shuffle_threshold
                &&& (run.1.len() + 1 >= old(self).blackjack.shoe.shuffle_threshold && spec_hand_sum(run.0) >= 17)
                    ==> final(self).blackjack.dealer_hand.cards@ =~= run.0
                        && final(self).blackjack.shoe.cards@ =~= run.1
            },
    {
        let mut any_survivor = false;
        let n = self.blackjack.player_hands.len();
        let mut k: usize = 0;
        while k < n
            invariant
                old(self) == self,
                self.wf(),
                k <= n,
                n == self.blackjack.player_hands@.len(),
                any_survivor == spec_any_survivor(self.blackjack.player_hands@.take(k as int)),
            decreases n - k,
        {
            proof {
                assert(self.blackjack.player_hands@.take(k as int + 1).drop_last()
                    =~= self.blackjack.player_hands@.take(k as int));
                assert(forall|j: int| 0 <= j < k + 1 ==> self.blackjack.player_hands@.take(
                    k as int + 1,
                )[j] == self.blackjack.player_hands@[j]);
            }
            if !self.blackjack.player_hands[k].is_bust() {
                any_survivor = true;
                proof {
                    let hs = self.blackjack.player_hands@.take(k as int + 1);
                    assert(spec_hand_sum(hs[k as int].cards@) <= 21);
                }
            }
            k = k + 1;
        }
        proof {
            assert(self.blackjack.player_hands@.take(n as int) =~= self.blackjack.player_hands@);
        }
        if !any_survivor {
            return ;
        }
        self.blackjack.reveal_hole_card();
        let ghost d0 = self.blackjack.dealer_hand.cards@;
        let ghost s0 = self.blackjack.shoe.cards@;
        let ghost th = self.blackjack.shoe.shuffle_threshold as int;
        proof {
            assert(d0 == old(self).blackjack.dealer_hand.cards@);
        }
        while self.blackjack.dealer_hand.blackjack_sum() < 17
            invariant
                self.wf(),
                self.config == old(self).config,
                self.bankroll == old(self).bankroll,
                self.stats == old(self).stats,
                self.blackjack.config == old(self).blackjack.config,
                self.blackjack.bet == old(self).blackjack.bet,
                self.blackjack.insurance == old(self).blackjack.insurance,
                self.blackjack.splitting == old(self).blackjack.splitting,
                self.blackjack.current_hand == old(self).blackjack.current_hand,
                self.blackjack.player_hands@ == old(self).blackjack.player_hands@,
                self.blackjack.dealer_hand.hidden_count == 0,
                self.blackjack.dealer_hand.standing == old(self).blackjack.dealer_hand.standing,
                self.blackjack.dealer_hand.doubling_down == old(
                    self,
                ).blackjack.dealer_hand.doubling_down,
                self.blackjack.shoe.deck_count == old(self).blackjack.shoe.deck_count,
                self.blackjack.shoe.shuffle_threshold == old(self).blackjack.shoe.shuffle_threshold,
                th == self.blackjack.shoe.shuffle_threshold as int,
                spec_raw_sum(self.blackjack.dealer_hand.cards@) <= 26,
                dealer_run(d0, s0) == dealer_run(
                    self.blackjack.dealer_hand.cards@,
                    self.blackjack.shoe.cards@,
                ) || dealer_run(d0, s0).1.len() + 1 < th || spec_hand_sum(dealer_run(d0, s0).0)
                    < 17,
            decreases (if spec_raw_sum(self.blackjack.dealer_hand.cards@) < 17 {
                17 - spec_raw_sum(self.blackjack.dealer_hand.cards@)
            } else {
                0int
            }),
        {
            let ghost d_pre = self.blackjack.dealer_hand.cards@;
            let ghost s_pre = self.blackjack.shoe.cards@;
            proof {
                lemma_sum_adjusts_at_most_one_ace(d_pre);
            }
            self.blackjack.card_to_dealer();
            proof {
                lemma_raw_sum_push(d_pre, self.blackjack.dealer_hand.cards@.last());
                assert(self.blackjack.dealer_hand.cards@ == d_pre.push(
                    self.blackjack.dealer_hand.cards@.last(),
                ));
                assert(spec_blackjack_value(self.blackjack.dealer_hand.cards@.last().value) >= 1);
                assert(spec_raw_sum(d_pre) < 17);
                assert(spec_raw_sum(self.blackjack.dealer_hand.cards@) > spec_raw_sum(d_pre));
                if s_pre.len() >= th {
                    // the draw matched one step of the deterministic run
                    assert(s_pre.len() > 0);
                    assert(dealer_run(d_pre, s_pre) == dealer_run(
                        d_pre.push(s_pre.last()),
                        s_pre.drop_last(),
                    ));
                    assert(self.blackjack.dealer_hand.cards@ =~= d_pre.push(s_pre.last()));
                } else {
                    // a reshuffle intervened: the deterministic run cannot
                    // have stayed above the threshold with a finished total
                    if dealer_run(d0, s0) == dealer_run(d_pre, s_pre) {
                        if s_pre.len() == 0 {
                            assert(dealer_run(d_pre, s_pre).0 == d_pre);
                            assert(spec_hand_sum(dealer_run(d0, s0).0) < 17);
                        } else {
                            assert(dealer_run(d_pre, s_pre) == dealer_run(
                                d_pre.push(s_pre.last()),
                                s_pre.drop_last(),
                            ));
                            lemma_dealer_run_len(d_pre.push(s_pre.last()), s_pre.drop_last());
                            assert(dealer_run(d0, s0).1.len() + 1 < th);
                        }
                    }
                }
            }
        }
        proof {
            let run = dealer_run(d0, s0);
            if run.1.len() + 1 >= th && spec_hand_sum(run.0) >= 17 {
                assert(dealer_run(d0, s0) == dealer_run(
                    self.blackjack.dealer_hand.cards@,
                    self.blackjack.shoe.cards@,
                ));
                assert(spec_hand_sum(self.blackjack.dealer_hand.cards@) >= 17);
                assert(dealer_run(
                    self.blackjack.dealer_hand.cards@,
                    self.blackjack.shoe.cards@,
                ).0 == self.blackjack.dealer_hand.cards@);
            }
        }
    }
}


/// How one player hand fared against the dealer.
#[derive(Clone, Copy, Debug, PartialEq, Eq, Structural)]
pub enum HandOutcome {
    /// The hand went over twenty-one: its stake was forfeited during play.
    Busted,
    /// The dealer went over twenty-one: the hand wins at the plain ratio.
    DealerBusted,
    /// A tie: the stake comes back, nobody wins.
    Push,
    /// The dealer's total is higher: the stake, already debited, is lost.
    DealerWins,
    /// A two-card twenty-one beating the dealer: the blackjack ratio pays.
    NaturalBlackjack,
    /// A higher total than the dealer: the hand wins at the plain ratio.
    PlayerWins,
}

/// One hand's settlement: how it fared, and what the player received for
/// it — stake and winnings together, zero for a lost or busted hand.
#[derive(Clone, Copy, Debug, PartialEq, Eq)]
pub struct HandSettlement {
    pub outcome: HandOutcome,
    pub amount: Money,
}

/// The whole round's settlement, hand by hand, with the insurance payout if
/// that side bet won, and whether going broke triggered the starting gift.
#[derive(Clone, Debug)]
pub struct RoundSettlement {
    pub hands: Vec<HandSettlement>,
    pub insurance_paid: Option<Money>,
    pub gift_granted: bool,
}

/// Settlement failed: an amount would not fit the machine representation.
/// The session is left exactly as it was.
#[derive(Clone, Copy, Debug, PartialEq, Eq, Structural)]
pub enum SettleError {
    AmountOverflow,
}

/// What one hand staked in all: the bet, doubled by a double-down.
pub open spec fn spec_hand_stake(bet: int, h: Hand) -> int {
    if h.doubling_down {
        2 * bet
    } else {
        bet
    }
}

/// How one hand fares against the dealer's final cards.
pub open spec fn spec_hand_outcome(dealer: Seq<Card>, h: Hand) -> HandOutcome {
    let p = spec_hand_sum(h.cards@);
    let d = spec_hand_sum(dealer);
    if p > 21 {
        HandOutcome::Busted
    } else if d > 21 {
        HandOutcome::DealerBusted
    } else if d == p {
        HandOutcome::Push
    } else if d > p {
        HandOutcome::DealerWins
    } else if spec_is_natural(h.cards@) {
        HandOutcome::NaturalBlackjack
    } else {
        HandOutcome::PlayerWins
    }
}

/// What one hand's settlement credits to the bankroll: stake plus winnings
/// for a win, the stake back for a push, nothing for a loss — the stake was
/// debited when it was placed.
pub open spec fn spec_hand_credit(cfg: BlackjackConfig, bet: int, dealer: Seq<Card>, h: Hand) -> int {
    let stake = spec_hand_stake(bet, h);
    match spec_hand_outcome(dealer, h) {
        HandOutcome::Busted => 0,
        HandOutcome::DealerBusted => spec_ratio_payout(stake, cfg.payout_ratio),
        HandOutcome::Push => stake,
        HandOutcome::DealerWins => 0,
        HandOutcome::NaturalBlackjack => spec_ratio_payout(stake, cfg.blackjack_payout_ratio),
        HandOutcome::PlayerWins => spec_ratio_payout(stake, cfg.payout_ratio),
    }
}

/// Whether one hand's credit can be computed in machine arithmetic.
pub open spec fn spec_hand_credit_fits(
    cfg: BlackjackConfig,
    bet: int,
    dealer: Seq<Card>,
    h: Hand,
) -> bool {
    let stake = spec_hand_stake(bet, h);
    match spec_hand_outcome(dealer, h) {
        HandOutcome::Busted => true,
        HandOutcome::DealerWins => true,
        HandOutcome::Push => stake <= i64::MAX,
        HandOutcome::DealerBusted => stake <= i64::MAX && stake * cfg.payout_ratio.num <= i64::MAX
            && spec_ratio_payout(stake, cfg.payout_ratio) <= i64::MAX,
        HandOutcome::PlayerWins => stake <= i64::MAX && stake * cfg.payout_ratio.num <= i64::MAX
            && spec_ratio_payout(stake, cfg.payout_ratio) <= i64::MAX,
        HandOutcome::NaturalBlackjack => stake <= i64::MAX && stake
            * cfg.blackjack_payout_ratio.num <= i64::MAX && spec_ratio_payout(
            stake,
            cfg.blackjack_payout_ratio,
        ) <= i64::MAX,
    }
}

/// The round's total credit across the hands, settled left to right.
pub open spec fn spec_round_credit(
    cfg: BlackjackConfig,
    bet: int,
    dealer: Seq<Card>,
    hands: Seq<Hand>,
) -> int
    decreases hands.len(),
{
    if hands.len() == 0 {
        0
    } else {
        spec_round_credit(cfg, bet, dealer, hands.drop_last()) + spec_hand_credit(
            cfg,
            bet,
            dealer,
            hands.last(),
        )
    }
}

/// What the insurance side bet credits: its payout when it was placed and
/// the dealer's hand is a natural blackjack — even when every player hand
/// busted, since insurance bets against dealer blackjack alone — and
/// nothing otherwise.
pub open spec fn spec_insurance_credit(
    cfg: BlackjackConfig,
    bet: int,
    dealer: Seq<Card>,
    insurance: bool,
) -> int {
    if insurance && spec_is_natural(dealer) {
        spec_insurance_payout(bet, cfg.insurance_payout_ratio)
    } else {
        0
    }
}

/// Whether the whole settlement can be computed in machine arithmetic.
pub open spec fn spec_settle_fits(c: Casino) -> bool {
    let cfg = c.blackjack.config;
    let bet = c.blackjack.bet@;
    let dealer = c.blackjack.dealer_hand.cards@;
    let hands = c.blackjack.player_hands@;
    &&& forall|i: int|
        0 <= i < hands.len() ==> spec_hand_credit_fits(cfg, bet, dealer, #[trigger] hands[i])
    &&& (c.blackjack.insurance && spec_is_natural(dealer)) ==> spec_insurance_stake(bet)
        * cfg.insurance_payout_ratio.num <= i64::MAX
    &&& c.bankroll@ + spec_round_credit(cfg, bet, dealer, hands) + spec_insurance_credit(
        cfg,
        bet,
        dealer,
        c.blackjack.insurance,
    ) <= i64::MAX
}

/// One hand's settlement applied to the record and the bankroll: a win is
/// credited and recorded, a push returns the stake, a loss records the
/// stake, and a hand that busted was recorded when it busted. The
/// statistics see the bankroll after each resolved hand.
pub open spec fn spec_apply_hand(
    cfg: BlackjackConfig,
    bet: Money,
    dealer: Seq<Card>,
    st: Statistics,
    bankroll: Money,
    h: Hand,
) -> (Statistics, Money) {
    let credit = spec_hand_credit(cfg, bet@, dealer, h);
    let credit_m = Money { cents: credit as i64 };
    let stake_m = spec_bust_loss_stake(bet, h);
    let nb = Money { cents: (bankroll@ + credit) as i64 };
    match spec_hand_outcome(dealer, h) {
        HandOutcome::Busted => (st, bankroll),
        HandOutcome::Push => (
            Statistics { blackjack: st.blackjack.spec_record_push(), ..st }.spec_update_bankroll(
                nb,
            ),
            nb,
        ),
        HandOutcome::DealerWins => (
            Statistics {
                blackjack: st.blackjack.spec_record_loss(stake_m),
                ..st
            }.spec_update_bankroll(bankroll),
            bankroll,
        ),
        _ => (
            Statistics {
                blackjack: st.blackjack.spec_record_win(credit_m),
                ..st
            }.spec_update_bankroll(nb),
            nb,
        ),
    }
}

/// The record and bankroll after settling the hands left to right.
pub open spec fn spec_settle_hands(
    cfg: BlackjackConfig,
    bet: Money,
    dealer: Seq<Card>,
    st: Statistics,
    bankroll: Money,
    hands: Seq<Hand>,
) -> (Statistics, Money)
    decreases hands.len(),
{
    if hands.len() == 0 {
        (st, bankroll)
    } else {
        let prev = spec_settle_hands(cfg, bet, dealer, st, bankroll, hands.drop_last());
        spec_apply_hand(cfg, bet, dealer, prev.0, prev.1, hands.last())
    }
}

/// The whole session after settlement: the hands settled in order, then the
/// insurance side bet, and at last — exactly when the bankroll stands at
/// zero — one grant of the starting gift, never more, and never while any
/// money is left.
pub open spec fn spec_settle_result(c: Casino) -> Casino {
    let cfg = c.blackjack.config;
    let bet = c.blackjack.bet@;
    let dealer = c.blackjack.dealer_hand.cards@;
    let sb = spec_settle_hands(
        cfg,
        c.blackjack.bet,
        dealer,
        c.stats,
        c.bankroll,
        c.blackjack.player_hands@,
    );
    let ins_paid = c.blackjack.insurance && spec_is_natural(dealer);
    let ins = spec_insurance_credit(cfg, bet, dealer, c.blackjack.insurance);
    let b2 = if ins_paid {
        Money { cents: (sb.1@ + ins) as i64 }
    } else {
        sb.1
    };
    let st2 = if ins_paid {
        sb.0.spec_update_bankroll(b2)
    } else {
        sb.0
    };
    let gift = b2@ == 0;
    let b3 = if gift {
        c.config.mister_greens_gift
    } else {
        b2
    };
    let st3 = if gift {
        st2.spec_update_bankroll(b3)
    } else {
        st2
    };
    Casino { bankroll: b3, stats: st3, ..c }
}


/// The bankroll after the hands and the insurance settle, before any gift.
pub open spec fn spec_bankroll_after_insurance(c: Casino) -> int {
    let cfg = c.blackjack.config;
    let bet = c.blackjack.bet@;
    let dealer = c.blackjack.dealer_hand.cards@;
    c.bankroll@ + spec_round_credit(cfg, bet, dealer, c.blackjack.player_hands@)
        + spec_insurance_credit(cfg, bet, dealer, c.blackjack.insurance)
}

/// No settlement ever takes money back: every hand's credit is zero or more.
pub proof fn lemma_hand_credit_nonneg(cfg: BlackjackConfig, bet: int, dealer: Seq<Card>, h: Hand)
    requires
        cfg.wf(),
        bet >= 0,
    ensures
        spec_hand_credit(cfg, bet, dealer, h) >= 0,
{
    let stake = spec_hand_stake(bet, h);
    crate::money::lemma_div_round_half_up_range(stake * cfg.payout_ratio.num, cfg.payout_ratio.den as int);
    crate::money::lemma_div_round_half_up_range(
        stake * cfg.blackjack_payout_ratio.num,
        cfg.blackjack_payout_ratio.den as int,
    );
    assert(stake * cfg.payout_ratio.num >= 0) by (nonlinear_arith)
        requires
            stake >= 0,
            cfg.payout_ratio.num >= 0,
    {
    }
    assert(stake * cfg.blackjack_payout_ratio.num >= 0) by (nonlinear_arith)
        requires
            stake >= 0,
            cfg.blackjack_payout_ratio.num >= 0,
    {
    }
}

/// The insurance credit is zero or more.
pub proof fn lemma_insurance_credit_nonneg(
    cfg: BlackjackConfig,
    bet: int,
    dealer: Seq<Card>,
    insurance: bool,
)
    requires
        cfg.wf(),
        bet >= 0,
    ensures
        spec_insurance_credit(cfg, bet, dealer, insurance) >= 0,
{
    crate::money::lemma_div_round_half_up_range(bet, 2);
    let stake = spec_insurance_stake(bet);
    assert(stake * cfg.insurance_payout_ratio.num >= 0) by (nonlinear_arith)
        requires
            stake >= 0,
            cfg.insurance_payout_ratio.num >= 0,
    {
    }
    crate::money::lemma_div_round_half_up_range(
        stake * cfg.insurance_payout_ratio.num,
        cfg.insurance_payout_ratio.den as int,
    );
}

/// The round's total credit is zero or more.
pub proof fn lemma_round_credit_nonneg(
    cfg: BlackjackConfig,
    bet: int,
    dealer: Seq<Card>,
    hands: Seq<Hand>,
)
    requires
        cfg.wf(),
        bet >= 0,
    ensures
        spec_round_credit(cfg, bet, dealer, hands) >= 0,
    decreases hands.len(),
{
    if hands.len() > 0 {
        lemma_round_credit_nonneg(cfg, bet, dealer, hands.drop_last());
        lemma_hand_credit_nonneg(cfg, bet, dealer, hands.last());
    }
}

/// Credits over a prefix of the hands never exceed the round's total.
pub proof fn lemma_round_credit_prefix(
    cfg: BlackjackConfig,
    bet: int,
    dealer: Seq<Card>,
    hands: Seq<Hand>,
    i: int,
)
    requires
        cfg.wf(),
        bet >= 0,
        0 <= i <= hands.len(),
    ensures
        spec_round_credit(cfg, bet, dealer, hands.take(i)) <= spec_round_credit(
            cfg,
            bet,
            dealer,
            hands,
        ),
    decreases hands.len() - i,
{
    if i == hands.len() {
        assert(hands.take(i) =~= hands);
    } else {
        lemma_round_credit_prefix(cfg, bet, dealer, hands, i + 1);
        assert(hands.take(i + 1).drop_last() =~= hands.take(i));
        lemma_hand_credit_nonneg(cfg, bet, dealer, hands.take(i + 1).last());
        assert(spec_round_credit(cfg, bet, dealer, hands.take(i + 1)) == spec_round_credit(
            cfg,
            bet,
            dealer,
            hands.take(i),
        ) + spec_hand_credit(cfg, bet, dealer, hands[i]));
    }
}

/// Settling the hands raises the bankroll by exactly the round's credit,
/// as long as the total stays in machine range.
pub proof fn lemma_settle_hands_bankroll(
    cfg: BlackjackConfig,
    bet: Money,
    dealer: Seq<Card>,
    st: Statistics,
    bankroll: Money,
    hands: Seq<Hand>,
)
    requires
        cfg.wf(),
        bet@ >= 0,
        bankroll@ >= 0,
        bankroll@ + spec_round_credit(cfg, bet@, dealer, hands) <= i64::MAX,
    ensures
        spec_settle_hands(cfg, bet, dealer, st, bankroll, hands).1@ == bankroll@
            + spec_round_credit(cfg, bet@, dealer, hands),
    decreases hands.len(),
{
    if hands.len() > 0 {
        lemma_round_credit_nonneg(cfg, bet@, dealer, hands.drop_last());
        lemma_hand_credit_nonneg(cfg, bet@, dealer, hands.last());
        lemma_settle_hands_bankroll(cfg, bet, dealer, st, bankroll, hands.drop_last());
    }
}

/// A winning stake's full credit — stake plus winnings at the ratio — when
/// it fits the machine representation.
fn win_credit(stake: Money, ratio: Ratio) -> (r: Option<i64>)
    requires
        stake@ >= 0,
        ratio.wf(),
    ensures
        r is Some <==> stake@ * ratio.num <= i64::MAX && spec_ratio_payout(stake@, ratio)
            <= i64::MAX,
        r is Some ==> r->0 == spec_ratio_payout(stake@, ratio) && r->0 >= 0,
{
    match stake.checked_mul_ratio(ratio) {
        Some(w) => match stake.checked_add(w) {
            Some(t) => Some(t.as_minor_units()),
            None => None,
        },
        None => None,
    }
}

/// One hand settled in machine arithmetic: the outcome, and the credit when
/// it fits the machine representation.
fn settle_hand(
    cfg: &BlackjackConfig,
    bet: Money,
    Ghost(dealer): Ghost<Seq<Card>>,
    dealer_sum: u8,
    h: &Hand,
) -> (r: Option<(HandOutcome, i64)>)
    requires
        cfg.wf(),
        bet@ >= 0,
        dealer_sum == spec_hand_sum(dealer),
        spec_raw_sum(h.cards@) + 10 <= u8::MAX,
    ensures
        r is Some <==> spec_hand_credit_fits(*cfg, bet@, dealer, *h),
        r is Some ==> (r->0).0 == spec_hand_outcome(dealer, *h) && (r->0).1 == spec_hand_credit(
            *cfg,
            bet@,
            dealer,
            *h,
        ) && (r->0).1 >= 0,
{
    proof {
        lemma_hand_credit_nonneg(*cfg, bet@, dealer, *h);
    }
    let p = h.blackjack_sum();
    if p > 21 {
        return Some((HandOutcome::Busted, 0));
    }
    if dealer_sum <= 21 && dealer_sum > p {
        return Some((HandOutcome::DealerWins, 0));
    }
    let stake = if h.doubling_down {
        match bet.checked_mul_int(2) {
            Some(s) => s,
            None => {
                return None;
            },
        }
    } else {
        bet
    };
    if dealer_sum > 21 {
        match win_credit(stake, cfg.payout_ratio) {
            Some(c) => Some((HandOutcome::DealerBusted, c)),
            None => None,
        }
    } else if dealer_sum == p {
        Some((HandOutcome::Push, stake.as_minor_units()))
    } else if h.is_natural_blackjack() {
        match win_credit(stake, cfg.blackjack_payout_ratio) {
            Some(c) => Some((HandOutcome::NaturalBlackjack, c)),
            None => None,
        }
    } else {
        match win_credit(stake, cfg.payout_ratio) {
            Some(c) => Some((HandOutcome::PlayerWins, c)),
            None => None,
        }
    }
}


impl Casino {
    /// Settles the round. Per surviving hand: a win over a bust or beaten
    /// dealer returns the stake plus winnings at the plain ratio, a natural
    /// blackjack beating the dealer pays at the blackjack ratio, a push
    /// returns the stake, and a loss — the stake already staked — only
    /// enters the record. The insurance side bet resolves on its own, and a
    /// bankroll left at exactly zero receives the starting gift, once.
    /// When any amount would not fit the machine representation, nothing at
    /// all changes and the error says so.
    pub fn settle_round(&mut self) -> (r: Result<RoundSettlement, SettleError>)
        requires
            old(self).wf(),
        ensures
            final(self).wf(),
            r is Ok <==> spec_settle_fits(*old(self)),
            r is Err ==> *final(self) == *old(self),
            r is Ok ==> *final(self) == spec_settle_result(*old(self)),
            r is Ok ==> {
                let cfg = old(self).blackjack.config;
                let bet = old(self).blackjack.bet@;
                let dealer = old(self).blackjack.dealer_hand.cards@;
                let hands = old(self).blackjack.player_hands@;
                let out = r->Ok_0;
                &&& out.hands@.len() == hands.len()
                &&& forall|i: int|
                    0 <= i < hands.len() ==> (#[trigger] out.hands@[i]).outcome
                        == spec_hand_outcome(dealer, hands[i]) && out.hands@[i].amount@
                        == spec_hand_credit(cfg, bet, dealer, hands[i])
                &&& (out.insurance_paid is Some <==> old(self).blackjack.insurance
                    && spec_is_natural(dealer))
                &&& out.insurance_paid is Some ==> out.insurance_paid->0@ == spec_insurance_payout(
                    bet,
                    cfg.insurance_payout_ratio,
                )
                &&& (out.gift_granted <==> spec_bankroll_after_insurance(*old(self)) == 0)
            },
    {
        let ghost pre = *old(self);
        let ghost cfg_g = pre.blackjack.config;
        let ghost dealer = pre.blackjack.dealer_hand.cards@;
        let ghost hands = pre.blackjack.player_hands@;
        let ghost bet_g = pre.blackjack.bet@;
        let cfg = self.config.blackjack;
        let bet = self.blackjack.bet;

        proof {
            lemma_raw_sum_bounds(dealer);
        }
        let dealer_sum = self.blackjack.dealer_hand.blackjack_sum();
        let dealer_natural = self.blackjack.dealer_hand.is_natural_blackjack();
        let n = self.blackjack.player_hands.len();

        // First pass: fix every hand's outcome and credit in machine
        // arithmetic, touching nothing.
        let mut settlements: Vec<HandSettlement> = Vec::new();
        let mut credit_total: i64 = 0;
        let mut k: usize = 0;
        proof {
            assert(hands.take(0) =~= Seq::<Hand>::empty());
        }
        while k < n
            invariant
                *self == pre,
                pre.wf(),
                cfg == cfg_g,
                cfg_g == pre.blackjack.config,
                bet_g == pre.blackjack.bet@,
                bet == pre.blackjack.bet,
                dealer == pre.blackjack.dealer_hand.cards@,
                hands == pre.blackjack.player_hands@,
                dealer_sum == spec_hand_sum(dealer),
                k <= n,
                n == hands.len(),
                settlements@.len() == k,
                forall|i: int|
                    0 <= i < k ==> (#[trigger] settlements@[i]).outcome == spec_hand_outcome(
                        dealer,
                        hands[i],
                    ) && settlements@[i].amount@ == spec_hand_credit(cfg_g, bet_g, dealer, hands[i]),
                forall|i: int|
                    0 <= i < k ==> spec_hand_credit_fits(cfg_g, bet_g, dealer, #[trigger] hands[i]),
                credit_total == spec_round_credit(cfg_g, bet_g, dealer, hands.take(k as int)),
                credit_total >= 0,
            decreases n - k,
        {
            proof {
                assert(hands.take(k as int + 1).drop_last() =~= hands.take(k as int));
                assert(hands.take(k as int + 1).last() == hands[k as int]);
            }
            let hr = settle_hand(
                &cfg,
                bet,
                Ghost(dealer),
                dealer_sum,
                &self.blackjack.player_hands[k],
            );
            match hr {
                None => {
                    return Err(SettleError::AmountOverflow);
                },
                Some((outcome, credit)) => {
                    settlements.push(HandSettlement { outcome, amount: Money::from_minor_units(credit) });
                    credit_total = match credit_total.checked_add(credit) {
                        Some(v) => v,
                        None => {
                            proof {
                                lemma_round_credit_prefix(cfg_g, bet_g, dealer, hands, k as int + 1);
                                lemma_insurance_credit_nonneg(
                                    cfg_g,
                                    bet_g,
                                    dealer,
                                    pre.blackjack.insurance,
                                );
                            }
                            return Err(SettleError::AmountOverflow);
                        },
                    };
                },
            }
            k = k + 1;
        }
        proof {
            assert(hands.take(n as int) =~= hands);
        }

        // The insurance side bet resolves on the dealer's hand alone.
        let insurance_paid = self.blackjack.insurance && dealer_natural;
        let ins_credit: i64 = if insurance_paid {
            let stake = self.blackjack.bet.div_int(2);
            match stake.checked_mul_ratio(cfg.insurance_payout_ratio) {
                Some(m) => m.as_minor_units(),
                None => {
                    return Err(SettleError::AmountOverflow);
                },
            }
        } else {
            0
        };
        proof {
            lemma_insurance_credit_nonneg(cfg_g, bet_g, dealer, pre.blackjack.insurance);
        }

        // The whole settlement must fit before anything is touched.
        let total: i64 = match credit_total.checked_add(ins_credit) {
            Some(v) => v,
            None => {
                return Err(SettleError::AmountOverflow);
            },
        };
        match self.bankroll.checked_add(Money::from_minor_units(total)) {
            Some(_) => (),
            None => {
                return Err(SettleError::AmountOverflow);
            },
        };
        assert(spec_settle_fits(pre));

        // Second pass: apply each hand's settlement to the bankroll and the
        // record, in order.
        let mut k: usize = 0;
        while k < n
            invariant
                pre.wf(),
                cfg == cfg_g,
                cfg_g == pre.blackjack.config,
                bet_g == pre.blackjack.bet@,
                bet == pre.blackjack.bet,
                dealer == pre.blackjack.dealer_hand.cards@,
                hands == pre.blackjack.player_hands@,
                spec_settle_fits(pre),
                k <= n,
                n == hands.len(),
                self.config == pre.config,
                self.blackjack == pre.blackjack,
                settlements@.len() == n,
                forall|i: int|
                    0 <= i < n ==> (#[trigger] settlements@[i]).outcome == spec_hand_outcome(
                        dealer,
                        hands[i],
                    ) && settlements@[i].amount@ == spec_hand_credit(cfg_g, bet_g, dealer, hands[i]),
                forall|i: int|
                    0 <= i < n ==> spec_hand_credit_fits(cfg_g, bet_g, dealer, #[trigger] hands[i]),
                (self.stats, self.bankroll) == spec_settle_hands(
                    cfg_g,
                    pre.blackjack.bet,
                    dealer,
                    pre.stats,
                    pre.bankroll,
                    hands.take(k as int),
                ),
                self.bankroll@ == pre.bankroll@ + spec_round_credit(
                    cfg_g,
                    bet_g,
                    dealer,
                    hands.take(k as int),
                ),
                ins_credit == spec_insurance_credit(cfg_g, bet_g, dealer, pre.blackjack.insurance),
            decreases n - k,
        {
            proof {
                assert(hands.take(k as int + 1).drop_last() =~= hands.take(k as int));
                assert(hands.take(k as int + 1).last() == hands[k as int]);
                lemma_round_credit_prefix(cfg_g, bet_g, dealer, hands, k as int + 1);
                lemma_insurance_credit_nonneg(cfg_g, bet_g, dealer, pre.blackjack.insurance);
                lemma_hand_credit_nonneg(cfg_g, bet_g, dealer, hands[k as int]);
            }
            let s = settlements[k];
            match s.outcome {
                HandOutcome::Busted => {},
                HandOutcome::Push => {
                    self.stats.blackjack.record_push();
                    self.bankroll = self.bankroll.add(s.amount);
                    self.stats.update_bankroll(self.bankroll);
                },
                HandOutcome::DealerWins => {
                    let stake = self.bust_loss_stake_of(k);
                    self.stats.blackjack.record_loss(stake);
                    self.stats.update_bankroll(self.bankroll);
                },
                _ => {
                    self.stats.blackjack.record_win(s.amount);
                    self.bankroll = self.bankroll.add(s.amount);
                    self.stats.update_bankroll(self.bankroll);
                },
            }
            k = k + 1;
        }
        proof {
            assert(hands.take(n as int) =~= hands);
        }

        // The insurance payout, and the gift owed to a bankroll at zero.
        let mut insurance_payment: Option<Money> = None;
        if insurance_paid {
            let m = Money::from_minor_units(ins_credit);
            self.bankroll = self.bankroll.add(m);
            self.stats.update_bankroll(self.bankroll);
            insurance_payment = Some(m);
        }
        let mut gift_granted = false;
        if self.bankroll.is_zero() {
            self.add_bankroll(self.config.mister_greens_gift);
            gift_granted = true;
        }
        Ok(RoundSettlement { hands: settlements, insurance_paid: insurance_payment, gift_granted })
    }
}


/// The narrow slice of a session that outlives the process: the bankroll
/// and the shoe. A round in progress is never persisted; on restore the
/// round starts fresh.
#[derive(Clone, Debug)]
pub struct CasinoSnapshot {
    pub bankroll: Money,
    pub shoe: Shoe,
}

impl Casino {
    /// The persistable slice of the session.
    pub fn snapshot(&self) -> (r: CasinoSnapshot)
        ensures
            r.bankroll == self.bankroll,
            r.shoe.deck_count == self.blackjack.shoe.deck_count,
            r.shoe.shuffle_threshold == self.blackjack.shoe.shuffle_threshold,
            r.shoe.cards@ == self.blackjack.shoe.cards@,
    {
        let mut cards: Vec<Card> = Vec::new();
        let n = self.blackjack.shoe.cards.len();
        let mut k: usize = 0;
        while k < n
            invariant
                k <= n,
                n == self.blackjack.shoe.cards@.len(),
                cards@ == self.blackjack.shoe.cards@.take(k as int),
            decreases n - k,
        {
            proof {
                assert(self.blackjack.shoe.cards@.take(k as int + 1)
                    =~= self.blackjack.shoe.cards@.take(k as int).push(
                    self.blackjack.shoe.cards@[k as int],
                ));
            }
            cards.push(self.blackjack.shoe.cards[k]);
            k = k + 1;
        }
        proof {
            assert(self.blackjack.shoe.cards@.take(n as int) =~= self.blackjack.shoe.cards@);
        }
        CasinoSnapshot {
            bankroll: self.bankroll,
            shoe: Shoe {
                deck_count: self.blackjack.shoe.deck_count,
                shuffle_threshold: self.blackjack.shoe.shuffle_threshold,
                cards,
            },
        }
    }

    /// A session rebuilt from a persisted slice: the saved bankroll and
    /// shoe are restored, the round is reconstructed fresh, and the
    /// statistics are whatever record the host hands back.
    pub fn from_snapshot(config: Config, snapshot: CasinoSnapshot, stats: Statistics) -> (r: Casino)
        requires
            config.wf(),
            snapshot.bankroll@ >= 0,
            snapshot.shoe.wf(),
        ensures
            r.config == config,
            r.bankroll == snapshot.bankroll,
            r.blackjack.shoe == snapshot.shoe,
            r.stats == stats,
            r.blackjack.bet@ == 0,
            r.blackjack.dealer_hand.cards@.len() == 0,
            r.blackjack.player_hands@.len() == 1,
            r.blackjack.player_hands@[0].cards@.len() == 0,
            !r.blackjack.insurance,
            !r.blackjack.splitting,
            r.blackjack.current_hand == 0,
            r.wf(),
    {
        let mut blackjack = Blackjack::new(config.blackjack);
        blackjack.set_shoe(snapshot.shoe);
        Casino { config, bankroll: snapshot.bankroll, blackjack, stats }
    }
}


/// Law: a bankroll standing at exactly zero once the hands and the
/// insurance have settled triggers exactly one grant of the starting gift
/// — and a bankroll with anything left in it is never topped up.
pub proof fn lemma_gift_exactly_when_broke(c: Casino)
    requires
        c.wf(),
        spec_settle_fits(c),
    ensures
        spec_bankroll_after_insurance(c) == 0 ==> spec_settle_result(c).bankroll
            == c.config.mister_greens_gift,
        spec_bankroll_after_insurance(c) != 0 ==> spec_settle_result(c).bankroll@
            == spec_bankroll_after_insurance(c),
{
    let cfg = c.blackjack.config;
    let bet = c.blackjack.bet@;
    let dealer = c.blackjack.dealer_hand.cards@;
    let hands = c.blackjack.player_hands@;
    lemma_round_credit_nonneg(cfg, bet, dealer, hands);
    lemma_insurance_credit_nonneg(cfg, bet, dealer, c.blackjack.insurance);
    lemma_settle_hands_bankroll(cfg, c.blackjack.bet, dealer, c.stats, c.bankroll, hands);
}

} // verus!

