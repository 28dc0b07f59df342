//! Roulette: the single-zero wheel, the bets the table offers, which
//! pockets match each bet, and what each bet pays.
use vstd::prelude::*;

verus! {

use crate::cards::rand_below;

#[derive(Clone, Copy, Debug, PartialEq, Eq, Structural)]
pub enum Color {
    Black,
    Green,
    Red,
}

#[derive(Clone, Copy, Debug, PartialEq, Eq, Structural)]
pub enum Parity {
    Odd,
    Even,
}

#[derive(Clone, Copy, Debug, PartialEq, Eq, Structural)]
pub enum HighLow {
    High,
    Low,
}

#[derive(Clone, Copy, Debug, PartialEq, Eq, Structural)]
pub enum Dozen {
    First,
    Second,
    Third,
}

/// The colour a pocket number carries on a single-zero wheel: zero is
/// green; in the runs one to ten and nineteen to twenty-eight the even
/// numbers are black; elsewhere the even numbers are red.
pub open spec fn spec_pocket_color(v: int) -> Color {
    if v == 0 {
        Color::Green
    } else if (1 <= v <= 10) || (19 <= v <= 28) {
        if v % 2 == 0 {
            Color::Black
        } else {
            Color::Red
        }
    } else {
        if v % 2 == 0 {
            Color::Red
        } else {
            Color::Black
        }
    }
}

/// One pocket of the wheel.
#[derive(Clone, Copy, Debug, PartialEq, Eq, Structural)]
pub struct Pocket {
    pub value: u8,
    pub color: Color,
}

/// A pocket number must lie on the wheel.
#[derive(Clone, Copy, Debug, PartialEq, Eq, Structural)]
pub enum PocketError {
    OutOfRange,
}

impl Pocket {
    /// The pocket for a number up to thirty-six, with its wheel colour.
    pub fn new(val: u8) -> (r: Result<Pocket, PocketError>)
        ensures
            r is Ok <==> val <= 36,
            r is Ok ==> r->Ok_0 == (Pocket { value: val, color: spec_pocket_color(val as int) }),
    {
        if val > 36 {
            return Err(PocketError::OutOfRange);
        }
        let color = if val == 0 {
            Color::Green
        } else if (1 <= val && val <= 10) || (19 <= val && val <= 28) {
            if val % 2 == 0 {
                Color::Black
            } else {
                Color::Red
            }
        } else {
            if val % 2 == 0 {
                Color::Red
            } else {
                Color::Black
            }
        };
        Ok(Pocket { value: val, color })
    }
}

/// The pocket order of the single-zero wheel this table spins.
pub open spec fn spec_wheel_values() -> Seq<u8> {
    seq![
        0u8, 32u8, 15u8, 19u8, 4u8, 21u8, 2u8, 25u8, 17u8, 34u8, 6u8, 27u8, 3u8, 36u8, 11u8,
        30u8, 8u8, 23u8, 10u8, 5u8, 24u8, 16u8, 33u8, 1u8, 0u8, 14u8, 31u8, 9u8, 22u8, 18u8,
        29u8, 7u8, 27u8, 12u8, 35u8, 3u8, 26u8,
    ]
}

/// The wheel, pocket by pocket in spin order.
pub fn single_zero_wheel() -> (r: Vec<Pocket>)
    ensures
        r@.len() == 37,
        forall|i: int|
            0 <= i < 37 ==> #[trigger] r@[i] == (Pocket {
                value: spec_wheel_values()[i],
                color: spec_pocket_color(spec_wheel_values()[i] as int),
            }),
{
    let values: [u8; 37] = [
        0, 32, 15, 19, 4, 21, 2, 25, 17, 34, 6, 27, 3, 36, 11, 30, 8, 23, 10, 5, 24, 16, 33, 1,
        0, 14, 31, 9, 22, 18, 29, 7, 27, 12, 35, 3, 26,
    ];
    let mut wheel: Vec<Pocket> = Vec::new();
    let mut k: usize = 0;
    while k < 37
        invariant
            k <= 37,
            values@ =~= spec_wheel_values(),
            wheel@.len() == k,
            forall|i: int|
                0 <= i < k ==> #[trigger] wheel@[i] == (Pocket {
                    value: spec_wheel_values()[i],
                    color: spec_pocket_color(spec_wheel_values()[i] as int),
                }),
        decreases 37 - k,
    {
        let v = values[k];
        let pocket = match Pocket::new(v) {
            Ok(p) => p,
            Err(_) => {
                proof {
                    assert(false);
                }
                unreached()
            },
        };
        wheel.push(pocket);
        k = k + 1;
    }
    wheel
}

/// The kinds of bet the table offers.
#[derive(Clone, Copy, Debug, PartialEq, Eq, Structural)]
pub enum RouletteBetType {
    Straight,
    Split,
    Street,
    Square,
    SixLine,
    Color,
    Dozens,
    HighsLows,
    OddsEvens,
    Column,
}

/// One placed bet.
#[derive(Clone, Debug)]
pub enum RouletteBet {
    Straight(u8),
    Split(u8, u8),
    Street(u8),
    Square(u8),
    SixLine(u8),
    Color(Color),
    Dozens(Dozen),
    HighsLows(HighLow),
    OddsEvens(Parity),
    Column(Vec<u8>),
}

/// Whether the bet covers the pocket.
pub open spec fn spec_bet_matches(bet: RouletteBet, pocket: Pocket) -> bool {
    match bet {
        RouletteBet::Straight(val) => pocket.value == val,
        RouletteBet::Split(v1, v2) => pocket.value == v1 || pocket.value == v2,
        RouletteBet::Street(first) => pocket.value == first || pocket.value == first + 1
            || pocket.value == first + 2,
        RouletteBet::Square(first) => pocket.value == first || pocket.value == first + 1
            || pocket.value == first + 3 || pocket.value == first + 4,
        RouletteBet::SixLine(first) => first <= pocket.value <= first + 5,
        RouletteBet::Color(color) => pocket.color == color,
        RouletteBet::Dozens(Dozen::First) => 1 <= pocket.value <= 12,
        RouletteBet::Dozens(Dozen::Second) => 13 <= pocket.value <= 24,
        RouletteBet::Dozens(Dozen::Third) => 25 <= pocket.value <= 36,
        RouletteBet::HighsLows(HighLow::Low) => 1 <= pocket.value <= 18,
        RouletteBet::HighsLows(HighLow::High) => 19 <= pocket.value <= 36,
        RouletteBet::OddsEvens(Parity::Odd) => pocket.value % 2 == 1,
        RouletteBet::OddsEvens(Parity::Even) => pocket.value % 2 == 0,
        RouletteBet::Column(vals) => vals@.contains(pocket.value),
    }
}

/// The odds each kind of bet pays, winnings to stake.
pub open spec fn spec_bet_odds(bet: RouletteBet) -> (u8, u8) {
    match bet {
        RouletteBet::Straight(_) => (35u8, 1u8),
        RouletteBet::Split(_, _) => (17u8, 1u8),
        RouletteBet::Street(_) => (11u8, 1u8),
        RouletteBet::Square(_) => (8u8, 1u8),
        RouletteBet::SixLine(_) => (5u8, 1u8),
        RouletteBet::Color(_) => (1u8, 1u8),
        RouletteBet::Dozens(_) => (2u8, 1u8),
        RouletteBet::HighsLows(_) => (1u8, 1u8),
        RouletteBet::OddsEvens(_) => (1u8, 1u8),
        RouletteBet::Column(_) => (2u8, 1u8),
    }
}

impl RouletteBet {
    /// Whether the bet covers the pocket. Street, Square and SixLine bets
    /// take their anchor low enough that the covered run stays on the wheel.
    pub fn is_match(&self, pocket: &Pocket) -> (r: bool)
        requires
            self matches RouletteBet::Street(first) ==> first <= 34,
            self matches RouletteBet::Square(first) ==> first <= 32,
            self matches RouletteBet::SixLine(first) ==> first <= 31,
        ensures
            r == spec_bet_matches(*self, *pocket),
    {
        match self {
            RouletteBet::Straight(val) => pocket.value == *val,
            RouletteBet::Split(v1, v2) => pocket.value == *v1 || pocket.value == *v2,
            RouletteBet::Street(first) => pocket.value == *first || pocket.value == *first + 1
                || pocket.value == *first + 2,
            RouletteBet::Square(first) => pocket.value == *first || pocket.value == *first + 1
                || pocket.value == *first + 3 || pocket.value == *first + 4,
            RouletteBet::SixLine(first) => *first <= pocket.value && pocket.value <= *first + 5,
            RouletteBet::Color(color) => pocket.color == *color,
            RouletteBet::Dozens(Dozen::First) => 1 <= pocket.value && pocket.value <= 12,
            RouletteBet::Dozens(Dozen::Second) => 13 <= pocket.value && pocket.value <= 24,
            RouletteBet::Dozens(Dozen::Third) => 25 <= pocket.value && pocket.value <= 36,
            RouletteBet::HighsLows(HighLow::Low) => 1 <= pocket.value && pocket.value <= 18,
            RouletteBet::HighsLows(HighLow::High) => 19 <= pocket.value && pocket.value <= 36,
            RouletteBet::OddsEvens(Parity::Odd) => pocket.value % 2 == 1,
            RouletteBet::OddsEvens(Parity::Even) => pocket.value % 2 == 0,
            RouletteBet::Column(vals) => contains_u8(vals, pocket.value),
        }
    }

    /// The odds the bet pays, winnings to stake.
    pub fn payout(&self) -> (r: (u8, u8))
        ensures
            r == spec_bet_odds(*self),
    {
        match self {
            RouletteBet::Straight(_) => (35, 1),
            RouletteBet::Split(_, _) => (17, 1),
            RouletteBet::Street(_) => (11, 1),
            RouletteBet::Square(_) => (8, 1),
            RouletteBet::SixLine(_) => (5, 1),
            RouletteBet::Color(_) => (1, 1),
            RouletteBet::Dozens(_) => (2, 1),
            RouletteBet::HighsLows(_) => (1, 1),
            RouletteBet::OddsEvens(_) => (1, 1),
            RouletteBet::Column(_) => (2, 1),
        }
    }
}

/// Whether the list holds the value.
fn contains_u8(vals: &Vec<u8>, x: u8) -> (r: bool)
    ensures
        r == vals@.contains(x),
{
    let n = vals.len();
    let mut k: usize = 0;
    while k < n
        invariant
            k <= n,
            n == vals@.len(),
            forall|i: int| 0 <= i < k ==> vals@[i] != x,
        decreases n - k,
    {
        if vals[k] == x {
            return true;
        }
        k = k + 1;
    }
    false
}

impl RouletteBetType {
    /// Every bet of this kind the table lets the player pick from.
    pub fn bets(&self) -> (r: Vec<RouletteBet>)
        ensures
            *self == RouletteBetType::Straight ==> r@.len() == 37 && forall|i: int|
                0 <= i < 37 ==> (#[trigger] r@[i] matches RouletteBet::Straight(v) && v == i),
            *self == RouletteBetType::Split ==> r@.len() == 33 && forall|i: int|
                0 <= i < 33 ==> (#[trigger] r@[i] matches RouletteBet::Split(a, b) && a == i + 1
                    && b == i + 4),
    {
        match self {
            RouletteBetType::Straight => {
                let mut bets: Vec<RouletteBet> = Vec::new();
                let mut v: u8 = 0;
                while v <= 36
                    invariant
                        v <= 37,
                        bets@.len() == v,
                        forall|i: int|
                            0 <= i < v ==> (#[trigger] bets@[i] matches RouletteBet::Straight(x)
                                && x == i),
                    decreases 37 - v,
                {
                    bets.push(RouletteBet::Straight(v));
                    v = v + 1;
                }
                bets
            },
            RouletteBetType::Split => {
                let mut bets: Vec<RouletteBet> = Vec::new();
                let mut v: u8 = 1;
                while v <= 33
                    invariant
                        1 <= v <= 34,
                        bets@.len() == v - 1,
                        forall|i: int|
                            0 <= i < v - 1 ==> (#[trigger] bets@[i] matches RouletteBet::Split(
                                a,
                                b,
                            ) && a == i + 1 && b == i + 4),
                    decreases 34 - v,
                {
                    bets.push(RouletteBet::Split(v, v + 3));
                    v = v + 1;
                }
                bets
            },
            RouletteBetType::Street => {
                let mut bets: Vec<RouletteBet> = Vec::new();
                bets.push(RouletteBet::Street(1));
                bets.push(RouletteBet::Street(4));
                bets.push(RouletteBet::Street(7));
                bets.push(RouletteBet::Street(10));
                bets.push(RouletteBet::Street(13));
                bets.push(RouletteBet::Street(16));
                bets.push(RouletteBet::Street(19));
                bets.push(RouletteBet::Street(22));
                bets.push(RouletteBet::Street(25));
                bets.push(RouletteBet::Street(28));
                bets.push(RouletteBet::Street(31));
                bets.push(RouletteBet::Street(34));
                bets
            },
            RouletteBetType::Square => {
                let mut bets: Vec<RouletteBet> = Vec::new();
                bets.push(RouletteBet::Square(1));
                bets.push(RouletteBet::Square(2));
                bets.push(RouletteBet::Square(4));
                bets.push(RouletteBet::Square(5));
                bets.push(RouletteBet::Square(7));
                bets.push(RouletteBet::Square(8));
                bets.push(RouletteBet::Square(10));
                bets.push(RouletteBet::Square(11));
                bets.push(RouletteBet::Square(13));
                bets.push(RouletteBet::Square(14));
                bets.push(RouletteBet::Square(16));
                bets.push(RouletteBet::Square(17));
                bets.push(RouletteBet::Square(19));
                bets.push(RouletteBet::Square(20));
                bets.push(RouletteBet::Square(22));
                bets.push(RouletteBet::Square(23));
                bets.push(RouletteBet::Square(25));
                bets.push(RouletteBet::Square(26));
                bets.push(RouletteBet::Square(28));
                bets.push(RouletteBet::Square(29));
                bets.push(RouletteBet::Square(21));
                bets.push(RouletteBet::Square(32));
                bets
            },
            RouletteBetType::SixLine => {
                let mut bets: Vec<RouletteBet> = Vec::new();
                bets.push(RouletteBet::SixLine(1));
                bets.push(RouletteBet::SixLine(4));
                bets.push(RouletteBet::SixLine(7));
                bets.push(RouletteBet::SixLine(10));
                bets.push(RouletteBet::SixLine(13));
                bets.push(RouletteBet::SixLine(16));
                bets.push(RouletteBet::SixLine(19));
                bets.push(RouletteBet::SixLine(22));
                bets.push(RouletteBet::SixLine(25));
                bets.push(RouletteBet::SixLine(28));
                bets.push(RouletteBet::SixLine(31));
                bets
            },
            RouletteBetType::Color => {
                let mut bets: Vec<RouletteBet> = Vec::new();
                bets.push(RouletteBet::Color(Color::Red));
                bets.push(RouletteBet::Color(Color::Black));
                bets
            },
            RouletteBetType::Dozens => {
                let mut bets: Vec<RouletteBet> = Vec::new();
                bets.push(RouletteBet::Dozens(Dozen::First));
                bets.push(RouletteBet::Dozens(Dozen::Second));
                bets.push(RouletteBet::Dozens(Dozen::Third));
                bets
            },
            RouletteBetType::Column => {
                let mut bets: Vec<RouletteBet> = Vec::new();
                bets.push(RouletteBet::Column(column_values(1)));
                bets.push(RouletteBet::Column(column_values(2)));
                bets.push(RouletteBet::Column(column_values(3)));
                bets
            },
            RouletteBetType::HighsLows => {
                let mut bets: Vec<RouletteBet> = Vec::new();
                bets.push(RouletteBet::HighsLows(HighLow::High));
                bets.push(RouletteBet::HighsLows(HighLow::Low));
                bets
            },
            RouletteBetType::OddsEvens => {
                let mut bets: Vec<RouletteBet> = Vec::new();
                bets.push(RouletteBet::OddsEvens(Parity::Odd));
                bets.push(RouletteBet::OddsEvens(Parity::Even));
                bets
            },
        }
    }
}

/// The twelve numbers of one of the three columns of the layout.
pub fn column_values(column: u8) -> (r: Vec<u8>)
    requires
        1 <= column <= 3,
    ensures
        r@.len() == 12,
        forall|i: int| 0 <= i < 12 ==> #[trigger] r@[i] == column + 3 * i,
{
    let mut vals: Vec<u8> = Vec::new();
    let mut k: u8 = 0;
    while k < 12
        invariant
            1 <= column <= 3,
            k <= 12,
            vals@.len() == k,
            forall|i: int| 0 <= i < k ==> #[trigger] vals@[i] == column + 3 * i,
        decreases 12 - k,
    {
        vals.push(column + 3 * k);
        k = k + 1;
    }
    vals
}


/// Where the ball lands: a uniformly random pocket index of the wheel.
pub fn spin_index(wheel_len: usize) -> (r: usize)
    requires
        wheel_len >= 1,
    ensures
        r < wheel_len,
{
    rand_below(wheel_len)
}

} // verus!
