//! The slot machine: weighted symbols, a weighted random pull, and the pay
//! table that prices runs of three or more matching symbols.
use crate::money::Money;
use vstd::prelude::*;

verus! {

use rand::distributions::Distribution;

/// The total of a list of symbol weights.
pub open spec fn spec_weights_total(ws: Seq<(char, u32)>) -> int
    decreases ws.len(),
{
    if ws.len() == 0 {
        0
    } else {
        spec_weights_total(ws.drop_last()) + ws.last().1
    }
}

/// The total of a plain list of weights.
pub open spec fn spec_u32_total(ws: Seq<u32>) -> int
    decreases ws.len(),
{
    if ws.len() == 0 {
        0
    } else {
        spec_u32_total(ws.drop_last()) + ws.last()
    }
}

/// Relies on rand's `WeightedIndex::new` and `Distribution::sample`: the
/// sampled value is an index of the weight list, and only an index whose
/// weight is positive can be drawn. The weights must not be empty or all
/// zero, and their sum must fit the weight type, or the constructor fails.
#[verifier::external_body]
fn weighted_random_index(weights: &Vec<u32>) -> (r: usize)
    requires
        weights@.len() >= 1,
        exists|i: int| 0 <= i < weights@.len() && weights@[i] > 0,
        spec_u32_total(weights@) <= u32::MAX,
    ensures
        r < weights@.len(),
        weights@[r as int] > 0,
{
    let dist = rand::distributions::WeightedIndex::new(weights.iter().cloned()).unwrap();
    dist.sample(&mut rand::thread_rng())
}

/// One row of the pay table: a symbol that came up `count` times and what
/// that run pays.
#[derive(Clone, Copy, Debug)]
pub struct PayTableEntry {
    pub symbol: char,
    pub count: usize,
    pub payout: Money,
}

impl PayTableEntry {
    pub fn new(symbol: char, count: usize, payout: Money) -> (r: PayTableEntry)
        ensures
            r.symbol == symbol,
            r.count == count,
            r.payout == payout,
    {
        PayTableEntry { symbol, count, payout }
    }
}

/// What one pull of the machine paid, row by row.
pub struct SlotMachineOutput {
    pub entries: Vec<PayTableEntry>,
}

/// A slot machine: a stake multiplier in whole dollars and a list of
/// symbols with their draw weights.
#[derive(Clone, Debug)]
pub struct SlotMachine {
    pub multiplier: i64,
    pub weights: Vec<(char, u32)>,
}

/// How often `c` occurs among the drawn symbols.
pub open spec fn spec_count_symbol(symbols: Seq<char>, c: char) -> int
    decreases symbols.len(),
{
    if symbols.len() == 0 {
        0
    } else {
        spec_count_symbol(symbols.drop_last(), c) + if symbols.last() == c {
            1int
        } else {
            0int
        }
    }
}

/// What a run of `count` matching symbols of weight `w` pays, in whole
/// dollars: rarer symbols pay more, and each symbol beyond the third pays
/// the base value again.
pub open spec fn spec_symbol_payout_major(multiplier: int, w: u32, count: int) -> int {
    (multiplier * 120 / (w as int)) * (count - 2)
}

/// The pay table for one pull: one row for each machine symbol that came up
/// three or more times, in the machine's symbol order.
pub open spec fn spec_pay_table(
    multiplier: int,
    ws: Seq<(char, u32)>,
    symbols: Seq<char>,
) -> Seq<PayTableEntry>
    decreases ws.len(),
{
    if ws.len() == 0 {
        Seq::<PayTableEntry>::empty()
    } else {
        let rest = spec_pay_table(multiplier, ws.drop_last(), symbols);
        let c = spec_count_symbol(symbols, ws.last().0);
        if c >= 3 && ws.last().1 > 0 {
            rest.push(
                PayTableEntry {
                    symbol: ws.last().0,
                    count: c as usize,
                    payout: Money {
                        cents: (spec_symbol_payout_major(multiplier, ws.last().1, c) * 100) as i64,
                    },
                },
            )
        } else {
            rest
        }
    }
}

impl SlotMachine {
    /// Workable machine state: a positive multiplier small enough for the
    /// pay table arithmetic, and weights that a draw can be made from.
    pub open spec fn wf(&self) -> bool {
        &&& 0 <= self.multiplier
        &&& self.multiplier * 120 <= i64::MAX
        &&& self.weights@.len() >= 1
        &&& exists|i: int| 0 <= i < self.weights@.len() && (#[trigger] self.weights@[i]).1 > 0
        &&& spec_weights_total(self.weights@) <= u32::MAX
    }

    /// The house machine: nine fruit-to-gem symbols, common ones heavy and
    /// the diamond rare.
    pub fn new_with_default_symbols(multiplier: i64) -> (r: SlotMachine)
        requires
            0 <= multiplier,
            multiplier * 120 <= i64::MAX,
        ensures
            r.multiplier == multiplier,
            r.weights@ =~= seq![
                ('\u{1f34b}', 30u32),
                ('\u{1f352}', 30u32),
                ('\u{1f34a}', 30u32),
                ('\u{1f349}', 30u32),
                ('\u{1f514}', 20u32),
                ('\u{1f34c}', 20u32),
                ('\u{1f36b}', 10u32),
                ('\u{1f4b0}', 2u32),
                ('\u{1f48e}', 1u32),
            ],
            r.wf(),
    {
        let mut weights: Vec<(char, u32)> = Vec::new();
        let ghost w0 = weights@;
        weights.push(('\u{1f34b}', 30));
        let ghost w1 = weights@;
        weights.push(('\u{1f352}', 30));
        let ghost w2 = weights@;
        weights.push(('\u{1f34a}', 30));
        let ghost w3 = weights@;
        weights.push(('\u{1f349}', 30));
        let ghost w4 = weights@;
        weights.push(('\u{1f514}', 20));
        let ghost w5 = weights@;
        weights.push(('\u{1f34c}', 20));
        let ghost w6 = weights@;
        weights.push(('\u{1f36b}', 10));
        let ghost w7 = weights@;
        weights.push(('\u{1f4b0}', 2));
        let ghost w8 = weights@;
        weights.push(('\u{1f48e}', 1));
        proof {
            lemma_weights_total_push(w0, ('\u{1f34b}', 30));
            lemma_weights_total_push(w1, ('\u{1f352}', 30));
            lemma_weights_total_push(w2, ('\u{1f34a}', 30));
            lemma_weights_total_push(w3, ('\u{1f349}', 30));
            lemma_weights_total_push(w4, ('\u{1f514}', 20));
            lemma_weights_total_push(w5, ('\u{1f34c}', 20));
            lemma_weights_total_push(w6, ('\u{1f36b}', 10));
            lemma_weights_total_push(w7, ('\u{1f4b0}', 2));
            lemma_weights_total_push(w8, ('\u{1f48e}', 1));
        }
        let r = SlotMachine { multiplier, weights };
        proof {
            assert(r.weights@[0].1 > 0);
        }
        r
    }

    /// Adds one symbol with its draw weight.
    pub fn add_symbol(&mut self, symbol: char, weight: u32)
        ensures
            final(self).multiplier == old(self).multiplier,
            final(self).weights@ == old(self).weights@.push((symbol, weight)),
    {
        self.weights.push((symbol, weight));
    }

    /// Prices one pull: each machine symbol that came up three or more
    /// times earns a row of the pay table.
    pub fn payout(&self, symbols: &Vec<char>) -> (r: Vec<PayTableEntry>)
        requires
            self.wf(),
            symbols@.len() <= i64::MAX,
            self.multiplier * 120 * (symbols@.len() as int) * 100 <= i64::MAX,
        ensures
            r@ == spec_pay_table(self.multiplier as int, self.weights@, symbols@),
    {
        let mut entries: Vec<PayTableEntry> = Vec::new();
        let n = self.weights.len();
        let mut k: usize = 0;
        proof {
            assert(self.weights@.take(0) =~= Seq::<(char, u32)>::empty());
        }
        while k < n
            invariant
                self.wf(),
                symbols@.len() <= i64::MAX,
                self.multiplier * 120 * (symbols@.len() as int) * 100 <= i64::MAX,
                k <= n,
                n == self.weights@.len(),
                entries@ == spec_pay_table(
                    self.multiplier as int,
                    self.weights@.take(k as int),
                    symbols@,
                ),
            decreases n - k,
        {
            proof {
                assert(self.weights@.take(k as int + 1).drop_last() =~= self.weights@.take(
                    k as int,
                ));
                assert(self.weights@.take(k as int + 1).last() == self.weights@[k as int]);
            }
            let (sym, w) = self.weights[k];
            let count = count_symbol(symbols, sym);
            if count >= 3 && w > 0 {
                proof {
                    lemma_count_symbol_le_len(symbols@, sym);
                    lemma_symbol_payout_bounds(
                        self.multiplier as int,
                        w,
                        count as int,
                        symbols@.len() as int,
                    );
                }
                let base: i64 = (self.multiplier * 120) / (w as i64);
                let value: i64 = base * ((count - 2) as i64);
                let pay = Money::from_major(value);
                entries.push(PayTableEntry { symbol: sym, count, payout: pay });
            }
            k = k + 1;
        }
        proof {
            assert(self.weights@.take(n as int) =~= self.weights@);
        }
        entries
    }

    /// Pulls the arm: five symbols drawn by weight. Each drawn symbol is
    /// one of the machine's symbols with a positive weight; which ones come
    /// up is the machine's own chance.
    pub fn pull(&self) -> (r: Vec<char>)
        requires
            self.wf(),
        ensures
            r@.len() == 5,
            forall|i: int|
                0 <= i < 5 ==> exists|j: int|
                    0 <= j < self.weights@.len() && #[trigger] r@[i] == (
                    #[trigger] self.weights@[j]).0 && self.weights@[j].1 > 0,
    {
        let mut ws: Vec<u32> = Vec::new();
        let n = self.weights.len();
        let mut k: usize = 0;
        while k < n
            invariant
                k <= n,
                n == self.weights@.len(),
                ws@.len() == k,
                forall|i: int| 0 <= i < k ==> ws@[i] == (#[trigger] self.weights@[i]).1,
            decreases n - k,
        {
            let (_sym, w) = self.weights[k];
            ws.push(w);
            k = k + 1;
        }
        proof {
            lemma_totals_agree(ws@, self.weights@);
        }
        let mut out: Vec<char> = Vec::new();
        let mut d: usize = 0;
        while d < 5
            invariant
                d <= 5,
                self.wf(),
                spec_u32_total(ws@) <= u32::MAX,
                ws@.len() == self.weights@.len(),
                forall|i: int|
                    0 <= i < ws@.len() ==> ws@[i] == (#[trigger] self.weights@[i]).1,
                out@.len() == d,
                forall|i: int|
                    0 <= i < d ==> exists|j: int|
                        0 <= j < self.weights@.len() && #[trigger] out@[i] == (
                        #[trigger] self.weights@[j]).0 && self.weights@[j].1 > 0,
            decreases 5 - d,
        {
            let idx = weighted_random_index(&ws);
            let (sym, _w) = self.weights[idx];
            out.push(sym);
            proof {
                assert(out@[d as int] == self.weights@[idx as int].0 && self.weights@[idx as int].1
                    > 0);
            }
            d = d + 1;
        }
        out
    }
}

/// How often `c` occurs among the drawn symbols, counted out.
fn count_symbol(symbols: &Vec<char>, c: char) -> (r: usize)
    ensures
        r == spec_count_symbol(symbols@, c),
{
    let mut count: usize = 0;
    let n = symbols.len();
    let mut k: usize = 0;
    proof {
        assert(symbols@.take(0) =~= Seq::<char>::empty());
        lemma_count_symbol_le_len(symbols@.take(0), c);
    }
    while k < n
        invariant
            k <= n,
            n == symbols@.len(),
            count == spec_count_symbol(symbols@.take(k as int), c),
            count <= k,
        decreases n - k,
    {
        proof {
            assert(symbols@.take(k as int + 1).drop_last() =~= symbols@.take(k as int));
            assert(symbols@.take(k as int + 1).last() == symbols@[k as int]);
        }
        if symbols[k] == c {
            count = count + 1;
        }
        k = k + 1;
    }
    proof {
        assert(symbols@.take(n as int) =~= symbols@);
    }
    count
}

/// One more weight adds exactly itself to the total.
proof fn lemma_weights_total_push(ws: Seq<(char, u32)>, x: (char, u32))
    ensures
        spec_weights_total(ws.push(x)) == spec_weights_total(ws) + x.1,
{
    assert(ws.push(x).drop_last() =~= ws);
}

/// A plain weight list drawn off the symbol table sums to the same total.
proof fn lemma_totals_agree(ws: Seq<u32>, table: Seq<(char, u32)>)
    requires
        ws.len() == table.len(),
        forall|i: int| 0 <= i < ws.len() ==> ws[i] == (#[trigger] table[i]).1,
    ensures
        spec_u32_total(ws) == spec_weights_total(table),
    decreases ws.len(),
{
    if ws.len() > 0 {
        lemma_totals_agree(ws.drop_last(), table.drop_last());
    }
}

/// A symbol cannot occur more often than there are symbols drawn.
proof fn lemma_count_symbol_le_len(symbols: Seq<char>, c: char)
    ensures
        0 <= spec_count_symbol(symbols, c) <= symbols.len(),
    decreases symbols.len(),
{
    if symbols.len() > 0 {
        lemma_count_symbol_le_len(symbols.drop_last(), c);
    }
}

/// The pay table arithmetic stays within machine range for a bounded
/// multiplier and a bounded run.
proof fn lemma_symbol_payout_bounds(multiplier: int, w: u32, count: int, len: int)
    requires
        0 <= multiplier,
        multiplier * 120 <= i64::MAX,
        w >= 1,
        3 <= count <= len,
        multiplier * 120 * len * 100 <= i64::MAX,
    ensures
        0 <= multiplier * 120 / (w as int) <= multiplier * 120,
        0 <= (multiplier * 120 / (w as int)) * (count - 2) <= multiplier * 120 * len,
        i64::MIN <= ((multiplier * 120 / (w as int)) * (count - 2)) * 100 <= i64::MAX,
{
    let base = multiplier * 120 / (w as int);
    assert(0 <= multiplier * 120) by (nonlinear_arith)
        requires
            0 <= multiplier,
    {
    }
    assert(0 <= base <= multiplier * 120) by (nonlinear_arith)
        requires
            0 <= multiplier * 120,
            w >= 1,
            base == multiplier * 120 / (w as int),
    {
    }
    assert(0 <= base * (count - 2) <= multiplier * 120 * len) by (nonlinear_arith)
        requires
            0 <= base <= multiplier * 120,
            3 <= count <= len,
    {
    }
    assert(base * (count - 2) * 100 <= multiplier * 120 * len * 100) by (nonlinear_arith)
        requires
            0 <= base * (count - 2) <= multiplier * 120 * len,
    {
    }
}

/// One tier of machine: the cost of a pull, and the multiplier — the cost
/// in whole dollars — that scales its pay table.
#[derive(Clone, Copy, Debug)]
pub struct PriceTier {
    pub cost: Money,
    pub multiplier: i64,
}

impl PriceTier {
    /// A tier whose multiplier is its cost in whole dollars.
    pub fn new(cost: Money) -> (r: PriceTier)
        requires
            cost@ >= 0,
        ensures
            r.cost == cost,
            r.multiplier == cost@ / 100,
    {
        PriceTier { cost, multiplier: cost.as_minor_units() / 100 }
    }
}

} // verus!
