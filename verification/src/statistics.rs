//! Cumulative play statistics. Counters and money totals saturate at the
//! machine range instead of overflowing, so recording is always possible.
use crate::money::sat_add_cents;
use crate::money::Money;
use vstd::prelude::*;

verus! {

/// The count `a + b` clamped to the range of a counter.
pub open spec fn sat_add_u32(a: int, b: int) -> int {
    if a + b > u32::MAX {
        u32::MAX as int
    } else {
        a + b
    }
}

#[derive(Clone, Copy, Debug)]
pub struct BlackjackStatistics {
    pub hands_won: u32,
    pub hands_lost: u32,
    pub hands_push: u32,
    pub money_won: Money,
    pub money_lost: Money,
    pub biggest_win: Money,
    pub biggest_loss: Money,
}

impl BlackjackStatistics {
    /// The record after one won hand paying `amount`.
    pub open spec fn spec_record_win(self, amount: Money) -> BlackjackStatistics {
        BlackjackStatistics {
            hands_won: sat_add_u32(self.hands_won as int, 1) as u32,
            money_won: Money { cents: sat_add_cents(self.money_won@, amount@) as i64 },
            biggest_win: if amount@ > self.biggest_win@ {
                amount
            } else {
                self.biggest_win
            },
            ..self
        }
    }

    /// The record after one lost hand forfeiting `amount`.
    pub open spec fn spec_record_loss(self, amount: Money) -> BlackjackStatistics {
        BlackjackStatistics {
            hands_lost: sat_add_u32(self.hands_lost as int, 1) as u32,
            money_lost: Money { cents: sat_add_cents(self.money_lost@, amount@) as i64 },
            biggest_loss: if amount@ > self.biggest_loss@ {
                amount
            } else {
                self.biggest_loss
            },
            ..self
        }
    }

    /// The record after one pushed hand.
    pub open spec fn spec_record_push(self) -> BlackjackStatistics {
        BlackjackStatistics { hands_push: sat_add_u32(self.hands_push as int, 1) as u32, ..self }
    }

    pub fn record_win(&mut self, amount: Money)
        ensures
            *final(self) == old(self).spec_record_win(amount),
    {
        self.hands_won = self.hands_won.saturating_add(1);
        self.money_won = self.money_won.saturating_add(amount);
        if self.biggest_win < amount {
            self.biggest_win = amount;
        }
    }

    pub fn record_loss(&mut self, amount: Money)
        ensures
            *final(self) == old(self).spec_record_loss(amount),
    {
        self.hands_lost = self.hands_lost.saturating_add(1);
        self.money_lost = self.money_lost.saturating_add(amount);
        if self.biggest_loss < amount {
            self.biggest_loss = amount;
        }
    }

    pub fn record_push(&mut self)
        ensures
            *final(self) == old(self).spec_record_push(),
    {
        self.hands_push = self.hands_push.saturating_add(1);
    }
}

impl Default for BlackjackStatistics {
    fn default() -> (r: BlackjackStatistics)
        ensures
            r.hands_won == 0,
            r.hands_lost == 0,
            r.hands_push == 0,
            r.money_won@ == 0,
            r.money_lost@ == 0,
            r.biggest_win@ == 0,
            r.biggest_loss@ == 0,
    {
        BlackjackStatistics {
            hands_won: 0,
            hands_lost: 0,
            hands_push: 0,
            money_won: Money::zero(),
            money_lost: Money::zero(),
            biggest_win: Money::zero(),
            biggest_loss: Money::zero(),
        }
    }
}

#[derive(Clone, Copy, Debug)]
pub struct RouletteStatistics {
    pub spins_won: u32,
    pub spins_lost: u32,
    pub money_won: Money,
    pub money_lost: Money,
    pub biggest_win: Money,
    pub biggest_loss: Money,
}

impl RouletteStatistics {
    pub fn record_win(&mut self, amount: Money)
        ensures
            final(self).spins_won == sat_add_u32(old(self).spins_won as int, 1),
            final(self).money_won@ == sat_add_cents(old(self).money_won@, amount@),
            final(self).biggest_win == if amount@ > old(self).biggest_win@ {
                amount
            } else {
                old(self).biggest_win
            },
            final(self).spins_lost == old(self).spins_lost,
            final(self).money_lost == old(self).money_lost,
            final(self).biggest_loss == old(self).biggest_loss,
    {
        self.spins_won = self.spins_won.saturating_add(1);
        self.money_won = self.money_won.saturating_add(amount);
        if self.biggest_win < amount {
            self.biggest_win = amount;
        }
    }

    pub fn record_loss(&mut self, amount: Money)
        ensures
            final(self).spins_lost == sat_add_u32(old(self).spins_lost as int, 1),
            final(self).money_lost@ == sat_add_cents(old(self).money_lost@, amount@),
            final(self).biggest_loss == if amount@ > old(self).biggest_loss@ {
                amount
            } else {
                old(self).biggest_loss
            },
            final(self).spins_won == old(self).spins_won,
            final(self).money_won == old(self).money_won,
            final(self).biggest_win == old(self).biggest_win,
    {
        self.spins_lost = self.spins_lost.saturating_add(1);
        self.money_lost = self.money_lost.saturating_add(amount);
        if self.biggest_loss < amount {
            self.biggest_loss = amount;
        }
    }
}

impl Default for RouletteStatistics {
    fn default() -> (r: RouletteStatistics)
        ensures
            r.spins_won == 0,
            r.spins_lost == 0,
            r.money_won@ == 0,
            r.money_lost@ == 0,
            r.biggest_win@ == 0,
            r.biggest_loss@ == 0,
    {
        RouletteStatistics {
            spins_won: 0,
            spins_lost: 0,
            money_won: Money::zero(),
            money_lost: Money::zero(),
            biggest_win: Money::zero(),
            biggest_loss: Money::zero(),
        }
    }
}

#[derive(Clone, Copy, Debug)]
pub struct SlotMachineStatistics {
    pub total_pulls: u32,
    pub money_won: Money,
    pub money_spent: Money,
    pub biggest_jackpot: Money,
}

impl SlotMachineStatistics {
    pub fn record_pull(&mut self, amount: Money)
        ensures
            final(self).total_pulls == sat_add_u32(old(self).total_pulls as int, 1),
            final(self).money_spent@ == sat_add_cents(old(self).money_spent@, amount@),
            final(self).money_won == old(self).money_won,
            final(self).biggest_jackpot == old(self).biggest_jackpot,
    {
        self.total_pulls = self.total_pulls.saturating_add(1);
        self.money_spent = self.money_spent.saturating_add(amount);
    }

    pub fn record_win(&mut self, amount: Money)
        ensures
            final(self).money_won@ == sat_add_cents(old(self).money_won@, amount@),
            final(self).biggest_jackpot == if old(self).biggest_jackpot@ < amount@ {
                amount
            } else {
                old(self).biggest_jackpot
            },
            final(self).total_pulls == old(self).total_pulls,
            final(self).money_spent == old(self).money_spent,
    {
        self.money_won = self.money_won.saturating_add(amount);
        if self.biggest_jackpot < amount {
            self.biggest_jackpot = amount;
        }
    }
}

impl Default for SlotMachineStatistics {
    fn default() -> (r: SlotMachineStatistics)
        ensures
            r.total_pulls == 0,
            r.money_won@ == 0,
            r.money_spent@ == 0,
            r.biggest_jackpot@ == 0,
    {
        SlotMachineStatistics {
            total_pulls: 0,
            money_won: Money::zero(),
            money_spent: Money::zero(),
            biggest_jackpot: Money::zero(),
        }
    }
}

#[derive(Clone, Copy, Debug)]
pub struct Statistics {
    pub biggest_bankroll: Money,
    pub times_bankrupted: u32,
    pub blackjack: BlackjackStatistics,
    pub roulette: RouletteStatistics,
    pub slots: SlotMachineStatistics,
}

impl Statistics {
    /// The record after the bankroll changed to `amount`: a new high is
    /// remembered, and a bankroll of exactly zero counts one bankruptcy.
    pub open spec fn spec_update_bankroll(self, amount: Money) -> Statistics {
        if amount@ > self.biggest_bankroll@ {
            Statistics { biggest_bankroll: amount, ..self }
        } else if amount@ == 0 {
            Statistics {
                times_bankrupted: sat_add_u32(self.times_bankrupted as int, 1) as u32,
                ..self
            }
        } else {
            self
        }
    }

    pub fn update_bankroll(&mut self, amount: Money)
        ensures
            *final(self) == old(self).spec_update_bankroll(amount),
    {
        if amount > self.biggest_bankroll {
            self.biggest_bankroll = amount;
        } else if amount.is_zero() {
            self.times_bankrupted = self.times_bankrupted.saturating_add(1);
        }
    }
}

impl Default for Statistics {
    fn default() -> (r: Statistics)
        ensures
            r.biggest_bankroll@ == 0,
            r.times_bankrupted == 0,
            r.blackjack.hands_won == 0,
            r.blackjack.hands_lost == 0,
            r.blackjack.hands_push == 0,
            r.blackjack.money_won@ == 0,
            r.blackjack.money_lost@ == 0,
            r.blackjack.biggest_win@ == 0,
            r.blackjack.biggest_loss@ == 0,
            r.roulette.spins_won == 0,
            r.roulette.spins_lost == 0,
            r.roulette.money_won@ == 0,
            r.roulette.money_lost@ == 0,
            r.roulette.biggest_win@ == 0,
            r.roulette.biggest_loss@ == 0,
            r.slots.total_pulls == 0,
            r.slots.money_won@ == 0,
            r.slots.money_spent@ == 0,
            r.slots.biggest_jackpot@ == 0,
    {
        Statistics {
            biggest_bankroll: Money::zero(),
            times_bankrupted: 0,
            blackjack: Default::default(),
            roulette: Default::default(),
            slots: Default::default(),
        }
    }
}

} // verus!
