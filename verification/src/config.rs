//! Engine configuration: table rules and the starting gift. Where the
//! session keeps its files is the host program's concern, not the engine's.
use crate::money::Money;
use crate::money::Ratio;
use vstd::prelude::*;

verus! {

/// Rules of the blackjack table: decks in the shoe, when the shoe is
/// reshuffled, and the payout multipliers.
#[derive(Clone, Copy, Debug)]
pub struct BlackjackConfig {
    pub shoe_count: u8,
    /// The fraction of the shoe dealt before it is rebuilt and reshuffled.
    pub shuffle_at_penetration: Ratio,
    pub payout_ratio: Ratio,
    pub blackjack_payout_ratio: Ratio,
    pub insurance_payout_ratio: Ratio,
}

/// The card count under which the shoe is rebuilt:
/// `shoe_count * 52 * (1 - penetration)`, in whole cards.
pub open spec fn spec_shuffle_threshold(c: BlackjackConfig) -> int {
    52 * c.shoe_count * (c.shuffle_at_penetration.den - c.shuffle_at_penetration.num)
        / (c.shuffle_at_penetration.den as int)
}

impl BlackjackConfig {
    pub open spec fn wf(&self) -> bool {
        &&& self.shoe_count >= 1
        &&& self.shuffle_at_penetration.wf()
        &&& self.shuffle_at_penetration.num <= self.shuffle_at_penetration.den
        &&& 52 * self.shoe_count * (self.shuffle_at_penetration.den
            - self.shuffle_at_penetration.num) <= i64::MAX
        &&& 1 <= spec_shuffle_threshold(*self) <= 52 * self.shoe_count
        &&& self.payout_ratio.wf()
        &&& self.blackjack_payout_ratio.wf()
        &&& self.insurance_payout_ratio.wf()
    }

    /// The rules played by default: four decks reshuffled at three-quarters
    /// penetration, even-money wins, three-to-two blackjacks, and
    /// two-to-one insurance.
    pub fn default_rules() -> (r: BlackjackConfig)
        ensures
            r.shoe_count == 4,
            r.shuffle_at_penetration == (Ratio { num: 3, den: 4 }),
            r.payout_ratio == (Ratio { num: 1, den: 1 }),
            r.blackjack_payout_ratio == (Ratio { num: 3, den: 2 }),
            r.insurance_payout_ratio == (Ratio { num: 2, den: 1 }),
            r.wf(),
            spec_shuffle_threshold(r) == 52,
    {
        BlackjackConfig {
            shoe_count: 4,
            shuffle_at_penetration: Ratio::new(3, 4),
            payout_ratio: Ratio::new(1, 1),
            blackjack_payout_ratio: Ratio::new(3, 2),
            insurance_payout_ratio: Ratio::new(2, 1),
        }
    }

    /// The card count under which the shoe is rebuilt before the next draw.
    pub fn shuffle_shoe_threshold_count(&self) -> (r: usize)
        requires
            self.wf(),
        ensures
            r == spec_shuffle_threshold(*self),
    {
        let starting_shoe_size: i64 = 52 * (self.shoe_count as i64);
        let remainder = self.shuffle_at_penetration.den - self.shuffle_at_penetration.num;
        proof {
            assert(starting_shoe_size * remainder == 52 * self.shoe_count
                * (self.shuffle_at_penetration.den - self.shuffle_at_penetration.num))
                by (nonlinear_arith)
                requires
                    starting_shoe_size == 52 * self.shoe_count,
                    remainder == self.shuffle_at_penetration.den
                        - self.shuffle_at_penetration.num,
            {
            }
            assert(starting_shoe_size * remainder >= 0) by (nonlinear_arith)
                requires
                    starting_shoe_size >= 0,
                    remainder >= 0,
            {
            }
        }
        let scaled: i64 = starting_shoe_size * remainder;
        let threshold = scaled / self.shuffle_at_penetration.den;
        threshold as usize
    }
}

impl Default for BlackjackConfig {
    fn default() -> (r: BlackjackConfig)
        ensures
            r.shoe_count == 4,
            r.shuffle_at_penetration == (Ratio { num: 3, den: 4 }),
            r.payout_ratio == (Ratio { num: 1, den: 1 }),
            r.blackjack_payout_ratio == (Ratio { num: 3, den: 2 }),
            r.insurance_payout_ratio == (Ratio { num: 2, den: 1 }),
            r.wf(),
    {
        BlackjackConfig::default_rules()
    }
}

/// Session configuration: the table rules and the gift granted to a player
/// who starts out, or goes broke.
#[derive(Clone, Copy, Debug)]
pub struct Config {
    pub blackjack: BlackjackConfig,
    pub mister_greens_gift: Money,
}

impl Config {
    pub open spec fn wf(&self) -> bool {
        &&& self.blackjack.wf()
        &&& self.mister_greens_gift@ >= 0
    }
}

impl Default for Config {
    fn default() -> (r: Config)
        ensures
            r.blackjack.wf(),
            r.blackjack.shoe_count == 4,
            r.mister_greens_gift@ == 100_000,
            r.wf(),
    {
        Config { blackjack: BlackjackConfig::default_rules(), mister_greens_gift: Money::from_major(1_000) }
    }
}

} // verus!
