//! Craps bets: which rolls win or lose each kind of bet, what it pays, and
//! how a table of open bets resolves against one roll of the dice.
use crate::cards::rand_below;
use crate::money::Money;
use vstd::prelude::*;

verus! {

/// How long a bet stays on the table: until resolved, or for a single roll.
#[derive(Clone, Copy, Debug, PartialEq, Eq, Structural)]
pub enum BetDuration {
    MultiRoll,
    SingleRoll,
}

/// The kinds of craps bet the table offers.
#[derive(Clone, Copy, Debug, PartialEq, Eq, Structural)]
pub enum BetKind {
    PassLine,
    DontPass,
    Come,
    DontCome,
    Field,
}

impl BetKind {
    /// The bet's name as shown at the table.
    pub fn label(&self) -> (r: &'static str) {
        match self {
            BetKind::PassLine => "Pass Line",
            BetKind::DontPass => "Don't Pass",
            BetKind::Come => "Come",
            BetKind::DontCome => "Don't Come",
            BetKind::Field => "Field",
        }
    }
}

/// Which rolls win the given kind of bet.
pub open spec fn spec_bet_wins(kind: BetKind, roll: u8) -> bool {
    match kind {
        BetKind::PassLine => roll == 7 || roll == 11,
        BetKind::DontPass => roll == 2 || roll == 3 || roll == 12,
        BetKind::Come => roll == 7 || roll == 11,
        BetKind::DontCome => roll == 2 || roll == 3 || roll == 12,
        BetKind::Field => roll == 2 || roll == 3 || roll == 4 || roll == 9 || roll == 10 || roll
            == 11 || roll == 12,
    }
}

/// Which rolls lose the given kind of bet.
pub open spec fn spec_bet_loses(kind: BetKind, roll: u8) -> bool {
    match kind {
        BetKind::PassLine => roll == 2 || roll == 3 || roll == 12,
        BetKind::DontPass => roll == 7 || roll == 11,
        BetKind::Come => roll == 2 || roll == 3 || roll == 12,
        BetKind::DontCome => roll == 7 || roll == 11,
        BetKind::Field => roll == 5 || roll == 6 || roll == 7 || roll == 8,
    }
}

/// What a winning bet pays: even money, except a Field bet on a two or a
/// twelve, which pays double.
pub open spec fn spec_bet_payout(kind: BetKind, amount: int, roll: u8) -> int {
    match kind {
        BetKind::Field => if roll == 2 || roll == 12 {
            2 * amount
        } else {
            amount
        },
        _ => amount,
    }
}

/// How long the given kind of bet stays on the table.
pub open spec fn spec_bet_duration(kind: BetKind) -> BetDuration {
    match kind {
        BetKind::Field => BetDuration::SingleRoll,
        _ => BetDuration::MultiRoll,
    }
}

/// One bet on the craps table.
#[derive(Clone, Copy, Debug)]
pub struct Bet {
    pub kind: BetKind,
    pub amount: Money,
}

impl Bet {
    pub fn new(kind: BetKind, amount: Money) -> (r: Bet)
        ensures
            r.kind == kind,
            r.amount == amount,
    {
        Bet { kind, amount }
    }

    pub fn is_win(&self, roll: u8) -> (r: bool)
        ensures
            r == spec_bet_wins(self.kind, roll),
    {
        match self.kind {
            BetKind::PassLine => roll == 7 || roll == 11,
            BetKind::DontPass => roll == 2 || roll == 3 || roll == 12,
            BetKind::Come => roll == 7 || roll == 11,
            BetKind::DontCome => roll == 2 || roll == 3 || roll == 12,
            BetKind::Field => roll == 2 || roll == 3 || roll == 4 || roll == 9 || roll == 10
                || roll == 11 || roll == 12,
        }
    }

    pub fn is_lose(&self, roll: u8) -> (r: bool)
        ensures
            r == spec_bet_loses(self.kind, roll),
    {
        match self.kind {
            BetKind::PassLine => roll == 2 || roll == 3 || roll == 12,
            BetKind::DontPass => roll == 7 || roll == 11,
            BetKind::Come => roll == 2 || roll == 3 || roll == 12,
            BetKind::DontCome => roll == 7 || roll == 11,
            BetKind::Field => roll == 5 || roll == 6 || roll == 7 || roll == 8,
        }
    }

    pub fn payout(&self, roll: u8) -> (r: Money)
        requires
            i64::MIN <= self.amount@ * 2 <= i64::MAX,
        ensures
            r@ == spec_bet_payout(self.kind, self.amount@, roll),
    {
        match self.kind {
            BetKind::Field => {
                if roll == 2 || roll == 12 {
                    self.amount.mul_int(2)
                } else {
                    self.amount
                }
            },
            _ => self.amount,
        }
    }

    pub fn duration(&self) -> (r: BetDuration)
        ensures
            r == spec_bet_duration(self.kind),
    {
        match self.kind {
            BetKind::Field => BetDuration::SingleRoll,
            _ => BetDuration::MultiRoll,
        }
    }
}

/// Whether a bet wins on the roll.
pub open spec fn spec_wins_on(roll: u8) -> spec_fn(Bet) -> bool {
    |b: Bet| spec_bet_wins(b.kind, roll)
}

/// Whether a bet loses on the roll, not having won.
pub open spec fn spec_loses_on(roll: u8) -> spec_fn(Bet) -> bool {
    |b: Bet| !spec_bet_wins(b.kind, roll) && spec_bet_loses(b.kind, roll)
}

/// Whether an unresolved single-roll bet expires on the roll.
pub open spec fn spec_expires_on(roll: u8) -> spec_fn(Bet) -> bool {
    |b: Bet|
        !spec_bet_wins(b.kind, roll) && !spec_bet_loses(b.kind, roll) && spec_bet_duration(b.kind)
            == BetDuration::SingleRoll
}

/// Whether a bet rides on after the roll.
pub open spec fn spec_rides_on(roll: u8) -> spec_fn(Bet) -> bool {
    |b: Bet|
        !spec_bet_wins(b.kind, roll) && !spec_bet_loses(b.kind, roll) && spec_bet_duration(b.kind)
            == BetDuration::MultiRoll
}

/// The open bets sorted against one roll: the winners, the losers, the
/// expired single-roll bets, and those that ride on.
pub struct BetSplit {
    pub wins: Vec<Bet>,
    pub losses: Vec<Bet>,
    pub expired: Vec<Bet>,
    pub rest: Vec<Bet>,
}

/// Resolves the open bets against one roll. Every bet lands in exactly one
/// of the four groups, in its original order: winners first by their win
/// rule, then losers, then expiring single-roll bets, and the rest ride on.
pub fn split_bets(bets: Vec<Bet>, roll: u8) -> (r: BetSplit)
    ensures
        r.wins@ == bets@.filter(spec_wins_on(roll)),
        r.losses@ == bets@.filter(spec_loses_on(roll)),
        r.expired@ == bets@.filter(spec_expires_on(roll)),
        r.rest@ == bets@.filter(spec_rides_on(roll)),
{
    let mut wins: Vec<Bet> = Vec::new();
    let mut losses: Vec<Bet> = Vec::new();
    let mut expired: Vec<Bet> = Vec::new();
    let mut rest: Vec<Bet> = Vec::new();
    let n = bets.len();
    let mut k: usize = 0;
    proof {
        reveal(Seq::filter);
        assert(bets@.take(0) =~= Seq::<Bet>::empty());
    }
    while k < n
        invariant
            k <= n,
            n == bets@.len(),
            wins@ == bets@.take(k as int).filter(spec_wins_on(roll)),
            losses@ == bets@.take(k as int).filter(spec_loses_on(roll)),
            expired@ == bets@.take(k as int).filter(spec_expires_on(roll)),
            rest@ == bets@.take(k as int).filter(spec_rides_on(roll)),
        decreases n - k,
    {
        proof {
            reveal(Seq::filter);
            assert(bets@.take(k as int + 1).drop_last() =~= bets@.take(k as int));
            assert(bets@.take(k as int + 1).last() == bets@[k as int]);
        }
        let b = bets[k];
        if b.is_win(roll) {
            wins.push(b);
        } else if b.is_lose(roll) {
            losses.push(b);
        } else if matches!(b.duration(), BetDuration::SingleRoll) {
            expired.push(b);
        } else {
            rest.push(b);
        }
        k = k + 1;
    }
    proof {
        assert(bets@.take(n as int) =~= bets@);
    }
    BetSplit { wins, losses, expired, rest }
}

/// One six-sided die.
#[derive(Clone, Copy, Debug, PartialEq, Eq, Structural)]
pub struct Die(pub u8);

/// A die value must show one through six pips.
#[derive(Clone, Copy, Debug, PartialEq, Eq, Structural)]
pub enum DieError {
    OutOfRange,
}

impl Die {
    /// A die showing the given number of pips, one through six.
    pub fn new(num: u8) -> (r: Result<Die, DieError>)
        ensures
            r is Ok <==> 1 <= num <= 6,
            r is Ok ==> r->Ok_0.0 == num,
    {
        if 1 <= num && num <= 6 {
            Ok(Die(num))
        } else {
            Err(DieError::OutOfRange)
        }
    }

    /// A die thrown: a random face.
    pub fn roll() -> (r: Die)
        ensures
            1 <= r.0 <= 6,
    {
        let num = rand_below(6);
        Die((num as u8) + 1)
    }

    pub fn as_u8(&self) -> (r: u8)
        ensures
            r == self.0,
    {
        self.0
    }

    /// The die face glyph, for a face of one through six.
    pub fn symbol(&self) -> (r: char)
        requires
            1 <= self.0 <= 6,
    {
        match self.0 {
            1 => '\u{2680}',
            2 => '\u{2681}',
            3 => '\u{2682}',
            4 => '\u{2683}',
            5 => '\u{2684}',
            _ => '\u{2685}',
        }
    }
}

} // verus!
