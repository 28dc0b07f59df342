//! Exact fixed-point currency: amounts are held in minor units (cents),
//! so every value carries exactly two fraction digits at rest. All rounding
//! is explicit and half-up, applied once at the end of an operation.
use vstd::prelude::*;

verus! {

use vstd::string::StringSliceAdditionalSpecFns;

/// A currency amount, stored as a count of cents.
#[derive(Clone, Copy, Debug)]
pub struct Money {
    pub cents: i64,
}

impl View for Money {
    type V = int;

    open spec fn view(&self) -> int {
        self.cents as int
    }
}

/// The sum of two cent amounts clamped to the machine range.
pub open spec fn sat_add_cents(a: int, b: int) -> int {
    if a + b > i64::MAX {
        i64::MAX as int
    } else if a + b < i64::MIN {
        i64::MIN as int
    } else {
        a + b
    }
}

/// A non-negative ratio of two integers, used for payout multipliers
/// and for the shoe penetration fraction.
#[derive(Clone, Copy, Debug, PartialEq, Eq, Structural)]
pub struct Ratio {
    pub num: i64,
    pub den: i64,
}

impl Ratio {
    pub open spec fn wf(&self) -> bool {
        self.num >= 0 && self.den >= 1
    }

    pub fn new(num: i64, den: i64) -> (r: Ratio)
        requires
            num >= 0,
            den >= 1,
        ensures
            r.num == num,
            r.den == den,
            r.wf(),
    {
        Ratio { num, den }
    }
}

/// The quotient `n / d` rounded half-up, for `n >= 0` and `d >= 1`.
pub open spec fn div_round_half_up(n: int, d: int) -> int {
    if 2 * (n % d) >= d {
        n / d + 1
    } else {
        n / d
    }
}

/// Why parsing a decimal string failed.
#[derive(Clone, Copy, Debug, PartialEq, Eq, Structural)]
pub enum ParseError {
    /// The text is not of the form `-? digits (. digits)?`.
    Malformed,
    /// The text is a well-formed decimal, but the amount in cents does not
    /// fit the machine representation.
    OutOfRange,
}

pub open spec fn is_digit_byte(b: u8) -> bool {
    48 <= b <= 57
}

pub open spec fn digit_byte_val(b: u8) -> int {
    b - 48
}

/// The value of a run of decimal digit bytes, most significant first.
pub open spec fn digits_val(s: Seq<u8>) -> int
    decreases s.len(),
{
    if s.len() == 0 {
        0
    } else {
        digits_val(s.drop_last()) * 10 + digit_byte_val(s.last())
    }
}

pub open spec fn all_digit_bytes(s: Seq<u8>) -> bool {
    forall|i: int| 0 <= i < s.len() ==> is_digit_byte(s[i])
}

/// The end of the run of digit bytes that starts at `i`.
pub open spec fn digits_end(s: Seq<u8>, i: int) -> int
    decreases s.len() - i,
{
    if 0 <= i < s.len() && is_digit_byte(s[i]) {
        digits_end(s, i + 1)
    } else {
        i
    }
}

/// Where the integer digits of a money text start: after an optional minus sign.
pub open spec fn money_text_start(s: Seq<u8>) -> int {
    if s.len() > 0 && s[0] == 45u8 {
        1int
    } else {
        0int
    }
}

/// Whether the bytes read as an optional minus sign, one or more digits, and
/// optionally a dot followed by one or more digits.
pub open spec fn money_text_ok(s: Seq<u8>) -> bool {
    let start = money_text_start(s);
    let ie = digits_end(s, start);
    &&& ie > start
    &&& (ie == s.len() || (s[ie] == 46u8 && s.len() > ie + 1 && digits_end(s, ie + 1) == s.len()))
}

/// The cents contributed by the fraction digits, rounded half-up at the
/// second place: two digits are kept, and the third rounds the result up
/// when it is five or more.
pub open spec fn frac_cents(f: Seq<u8>) -> int {
    let kept = if f.len() == 0 {
        0int
    } else if f.len() == 1 {
        digit_byte_val(f[0]) * 10
    } else {
        digit_byte_val(f[0]) * 10 + digit_byte_val(f[1])
    };
    if f.len() >= 3 && digit_byte_val(f[2]) >= 5 {
        kept + 1
    } else {
        kept
    }
}

/// The magnitude in cents of a well-formed money text.
pub open spec fn money_text_magnitude(s: Seq<u8>) -> int {
    let start = money_text_start(s);
    let ie = digits_end(s, start);
    let frac = if ie == s.len() {
        Seq::<u8>::empty()
    } else {
        s.subrange(ie + 1, s.len() as int)
    };
    digits_val(s.subrange(start, ie)) * 100 + frac_cents(frac)
}

/// The signed value in cents of a well-formed money text.
pub open spec fn money_text_cents(s: Seq<u8>) -> int {
    if money_text_start(s) == 1 {
        -money_text_magnitude(s)
    } else {
        money_text_magnitude(s)
    }
}

proof fn lemma_digits_val_nonneg(s: Seq<u8>)
    requires
        all_digit_bytes(s),
    ensures
        digits_val(s) >= 0,
    decreases s.len(),
{
    if s.len() > 0 {
        assert(all_digit_bytes(s.drop_last()));
        lemma_digits_val_nonneg(s.drop_last());
    }
}

/// Appending another digit can only grow the value of a digit run.
proof fn lemma_digits_val_push(s: Seq<u8>, b: u8)
    requires
        all_digit_bytes(s),
        is_digit_byte(b),
    ensures
        digits_val(s.push(b)) == digits_val(s) * 10 + digit_byte_val(b),
        digits_val(s.push(b)) >= digits_val(s),
{
    assert(s.push(b).drop_last() =~= s);
    lemma_digits_val_nonneg(s);
}

proof fn lemma_digits_end_range(s: Seq<u8>, i: int)
    requires
        0 <= i <= s.len(),
    ensures
        i <= digits_end(s, i) <= s.len(),
        forall|j: int| i <= j < digits_end(s, i) ==> is_digit_byte(s[j]),
        digits_end(s, i) < s.len() ==> !is_digit_byte(s[digits_end(s, i)]),
    decreases s.len() - i,
{
    if i < s.len() && is_digit_byte(s[i]) {
        lemma_digits_end_range(s, i + 1);
    }
}

impl Money {
    /// The zero amount, $0.00.
    pub fn zero() -> (r: Money)
        ensures
            r@ == 0,
    {
        Money { cents: 0 }
    }

    /// An amount of whole dollars.
    pub fn from_major(dollars: i64) -> (r: Money)
        requires
            i64::MIN <= dollars * 100 <= i64::MAX,
        ensures
            r@ == dollars * 100,
    {
        Money { cents: dollars * 100 }
    }

    /// An amount given directly in cents.
    pub fn from_minor_units(cents: i64) -> (r: Money)
        ensures
            r@ == cents,
    {
        Money { cents }
    }

    /// The amount in cents.
    pub fn as_minor_units(&self) -> (r: i64)
        ensures
            r == self@,
    {
        self.cents
    }

    pub fn is_zero(&self) -> (r: bool)
        ensures
            r == (self@ == 0),
    {
        self.cents == 0
    }

    pub fn is_sign_positive(&self) -> (r: bool)
        ensures
            r == (self@ >= 0),
    {
        self.cents >= 0
    }

    /// The sum of two amounts.
    pub fn add(self, other: Money) -> (r: Money)
        requires
            i64::MIN <= self@ + other@ <= i64::MAX,
        ensures
            r@ == self@ + other@,
    {
        Money { cents: self.cents + other.cents }
    }

    /// The sum of two amounts, or `None` when it does not fit the machine
    /// representation.
    pub fn checked_add(self, other: Money) -> (r: Option<Money>)
        ensures
            r is Some <==> i64::MIN <= self@ + other@ <= i64::MAX,
            r is Some ==> r->0@ == self@ + other@,
    {
        match self.cents.checked_add(other.cents) {
            Some(c) => Some(Money { cents: c }),
            None => None,
        }
    }

    /// The sum of two amounts, clamped to the machine range instead of
    /// overflowing. Used for cumulative statistics.
    pub fn saturating_add(self, other: Money) -> (r: Money)
        ensures
            r@ == sat_add_cents(self@, other@),
    {
        match self.cents.checked_add(other.cents) {
            Some(c) => Money { cents: c },
            None => {
                if self.cents < 0 {
                    Money { cents: i64::MIN }
                } else {
                    Money { cents: i64::MAX }
                }
            },
        }
    }

    /// The difference of two amounts.
    pub fn sub(self, other: Money) -> (r: Money)
        requires
            i64::MIN <= self@ - other@ <= i64::MAX,
        ensures
            r@ == self@ - other@,
    {
        Money { cents: self.cents - other.cents }
    }

    /// The amount scaled by an integer; exact, no rounding involved.
    pub fn mul_int(self, k: i64) -> (r: Money)
        requires
            i64::MIN <= self@ * k <= i64::MAX,
        ensures
            r@ == self@ * k,
    {
        Money { cents: self.cents * k }
    }

    /// The amount divided by a positive integer, rounded half-up to a cent.
    pub fn div_int(self, d: i64) -> (r: Money)
        requires
            self@ >= 0,
            d >= 1,
        ensures
            r@ == div_round_half_up(self@, d as int),
            0 <= r@ <= self@,
    {
        proof {
            lemma_div_round_half_up_range(self@, d as int);
        }
        Money { cents: div_half_up_i64(self.cents, d) }
    }

    /// The amount scaled by a non-negative ratio: multiplied exactly by the
    /// numerator, then divided by the denominator with one half-up rounding.
    pub fn mul_ratio(self, ratio: Ratio) -> (r: Money)
        requires
            self@ >= 0,
            ratio.wf(),
            self@ * ratio.num <= i64::MAX,
        ensures
            r@ == div_round_half_up(self@ * ratio.num, ratio.den as int),
            0 <= r@ <= self@ * ratio.num,
    {
        proof {
            lemma_mul_nonneg_money(self@, ratio.num as int);
            lemma_div_round_half_up_range(self@ * ratio.num, ratio.den as int);
        }
        let prod: i64 = self.cents * ratio.num;
        Money { cents: div_half_up_i64(prod, ratio.den) }
    }

    /// The amount scaled by an integer, or `None` when the product does not
    /// fit the machine representation.
    pub fn checked_mul_int(self, k: i64) -> (r: Option<Money>)
        ensures
            r is Some <==> i64::MIN <= self@ * k <= i64::MAX,
            r is Some ==> r->0@ == self@ * k,
    {
        match self.cents.checked_mul(k) {
            Some(c) => Some(Money { cents: c }),
            None => None,
        }
    }

    /// The amount scaled by a non-negative ratio, or `None` when the exact
    /// product before rounding does not fit the machine representation.
    pub fn checked_mul_ratio(self, ratio: Ratio) -> (r: Option<Money>)
        requires
            self@ >= 0,
            ratio.wf(),
        ensures
            r is Some <==> self@ * ratio.num <= i64::MAX,
            r is Some ==> r->0@ == div_round_half_up(self@ * ratio.num, ratio.den as int) && 0
                <= r->0@ <= self@ * ratio.num,
    {
        proof {
            lemma_mul_nonneg_money(self@, ratio.num as int);
        }
        match self.cents.checked_mul(ratio.num) {
            Some(p) => {
                proof {
                    lemma_div_round_half_up_range(p as int, ratio.den as int);
                }
                Some(Money { cents: div_half_up_i64(p, ratio.den) })
            },
            None => None,
        }
    }

    /// Parses a decimal string: an optional minus sign, digits, and an
    /// optional fraction part, rounded half-up to two places. Fails with
    /// `Malformed` on any other shape, and with `OutOfRange` when the
    /// magnitude in cents does not fit the machine representation.
    pub fn parse(s: &str) -> (r: Result<Money, ParseError>)
        ensures
            r is Ok <==> money_text_ok(s.spec_bytes()) && money_text_magnitude(s.spec_bytes())
                <= i64::MAX,
            r is Ok ==> r->Ok_0@ == money_text_cents(s.spec_bytes()),
            r == Err::<Money, ParseError>(ParseError::Malformed) <==> !money_text_ok(
                s.spec_bytes(),
            ),
    {
        let bytes = s.as_bytes();
        let ghost bs = s.spec_bytes();
        let n = bytes.len();
        let negative = n > 0 && bytes[0] == 45u8;
        let start: usize = if negative {
            1
        } else {
            0
        };

        // Scan the integer digits, accumulating their value in cents when it fits.
        let mut i: usize = start;
        let mut acc: Option<i64> = Some(0);
        loop
            invariant
                bytes@ == bs,
                start <= i <= n,
                n == bs.len(),
                digits_end(bs, start as int) == digits_end(bs, i as int),
                forall|j: int| start <= j < i ==> is_digit_byte(bs[j]),
                acc is Some <==> digits_val(bs.subrange(start as int, i as int)) <= i64::MAX,
                acc is Some ==> acc->0 == digits_val(bs.subrange(start as int, i as int)),
            ensures
                i == digits_end(bs, start as int),
                acc is Some <==> digits_val(bs.subrange(start as int, i as int)) <= i64::MAX,
                acc is Some ==> acc->0 == digits_val(bs.subrange(start as int, i as int)),
            decreases n - i,
        {
            proof {
                lemma_digits_end_range(bs, start as int);
                assert(all_digit_bytes(bs.subrange(start as int, i as int)));
                lemma_digits_val_nonneg(bs.subrange(start as int, i as int));
            }
            if i >= n {
                break ;
            }
            let b = bytes[i];
            if !(48 <= b && b <= 57) {
                break ;
            }
            let d: i64 = (b - 48) as i64;
            proof {
                assert(bs.subrange(start as int, i as int + 1) =~= bs.subrange(
                    start as int,
                    i as int,
                ).push(b));
                lemma_digits_val_push(bs.subrange(start as int, i as int), b);
            }
            acc = match acc {
                Some(v) => {
                    if v <= (i64::MAX - d) / 10 {
                        proof {
                            lemma_digit_acc_fits(v as int, d as int);
                        }
                        Some(v * 10 + d)
                    } else {
                        proof {
                            lemma_digit_acc_overflow(v as int, d as int);
                        }
                        None
                    }
                },
                None => {
                    proof {
                        lemma_digits_val_push(bs.subrange(start as int, i as int), b);
                    }
                    None
                },
            };
            i = i + 1;
        }
        let int_end = i;
        if int_end == start {
            // no integer digits
            return Err(ParseError::Malformed);
        }

        // Scan the fraction digits, if a dot follows.
        let mut frac0: Option<u8> = None;
        let mut frac1: Option<u8> = None;
        let mut round_up = false;
        let ghost frac_seq: Seq<u8> = if int_end as int == bs.len() {
            Seq::<u8>::empty()
        } else {
            bs.subrange(int_end as int + 1, bs.len() as int)
        };
        if int_end < n {
            let b = bytes[int_end];
            if b != 46u8 {
                return Err(ParseError::Malformed);
            }
            if int_end + 1 >= n {
                return Err(ParseError::Malformed);
            }
            let mut j: usize = int_end + 1;
            loop
                invariant
                    bytes@ == bs,
                    n == bs.len(),
                    int_end + 1 <= j <= n,
                    digits_end(bs, int_end as int + 1) == digits_end(bs, j as int),
                    forall|k: int| int_end + 1 <= k < j ==> is_digit_byte(bs[k]),
                    frac_seq == bs.subrange(int_end as int + 1, bs.len() as int),
                    frac0 is Some <==> j >= int_end + 2,
                    frac0 is Some ==> frac0->0 == frac_seq[0],
                    frac1 is Some <==> j >= int_end + 3,
                    frac1 is Some ==> frac1->0 == frac_seq[1],
                    round_up <==> (j >= int_end + 4 && digit_byte_val(frac_seq[2]) >= 5),
                ensures
                    j == digits_end(bs, int_end as int + 1),
                    frac0 is Some <==> j >= int_end + 2,
                    frac0 is Some ==> frac0->0 == frac_seq[0],
                    frac1 is Some <==> j >= int_end + 3,
                    frac1 is Some ==> frac1->0 == frac_seq[1],
                    round_up <==> (j >= int_end + 4 && digit_byte_val(frac_seq[2]) >= 5),
                decreases n - j,
            {
                proof {
                    lemma_digits_end_range(bs, int_end as int + 1);
                }
                if j >= n {
                    break ;
                }
                let b = bytes[j];
                if !(48 <= b && b <= 57) {
                    break ;
                }
                if j == int_end + 1 {
                    frac0 = Some(b);
                } else if j == int_end + 2 {
                    frac1 = Some(b);
                } else if j == int_end + 3 {
                    round_up = b >= 53u8;
                }
                j = j + 1;
            }
            if j < n {
                return Err(ParseError::Malformed);
            }
        }
        proof {
            lemma_digits_end_range(bs, start as int);
            assert(money_text_ok(bs));
        }

        // Assemble the magnitude in cents.
        let ghost int_seq: Seq<u8> = bs.subrange(start as int, int_end as int);
        proof {
            assert(all_digit_bytes(int_seq));
            lemma_digits_val_nonneg(int_seq);
            if int_end as int == bs.len() {
                assert(frac_seq =~= Seq::<u8>::empty());
            }
            assert(all_digit_bytes(frac_seq));
            lemma_frac_cents_range(frac_seq);
        }
        let int_val: i64 = match acc {
            Some(v) => v,
            None => {
                proof {
                    lemma_magnitude_grows(digits_val(int_seq), frac_cents(frac_seq));
                }
                return Err(ParseError::OutOfRange);
            },
        };
        let fc: i64 = {
            let hi: i64 = match frac0 {
                Some(b) => ((b - 48) as i64) * 10,
                None => 0,
            };
            let lo: i64 = match frac1 {
                Some(b) => (b - 48) as i64,
                None => 0,
            };
            hi + lo + if round_up {
                1
            } else {
                0
            }
        };
        assert(fc == frac_cents(frac_seq));
        proof {
            assert(all_digit_bytes(bs.subrange(start as int, int_end as int)));
            lemma_digits_val_nonneg(bs.subrange(start as int, int_end as int));
        }
        let scaled: i64 = match int_val.checked_mul(100) {
            Some(v) => v,
            None => {
                proof {
                    lemma_magnitude_grows(digits_val(int_seq), frac_cents(frac_seq));
                }
                return Err(ParseError::OutOfRange);
            },
        };
        let mag: i64 = match scaled.checked_add(fc) {
            Some(v) => v,
            None => {
                return Err(ParseError::OutOfRange);
            },
        };
        if negative {
            Ok(Money { cents: -mag })
        } else {
            Ok(Money { cents: mag })
        }
    }
}

/// The character for one decimal digit.
pub open spec fn digit_char(d: int) -> char {
    if d == 0 {
        '0'
    } else if d == 1 {
        '1'
    } else if d == 2 {
        '2'
    } else if d == 3 {
        '3'
    } else if d == 4 {
        '4'
    } else if d == 5 {
        '5'
    } else if d == 6 {
        '6'
    } else if d == 7 {
        '7'
    } else if d == 8 {
        '8'
    } else {
        '9'
    }
}

/// The decimal digits of a non-negative number, most significant first.
pub open spec fn dec_digits(n: int) -> Seq<char>
    decreases n,
{
    if n < 10 {
        seq![digit_char(n)]
    } else {
        dec_digits(n / 10).push(digit_char(n % 10))
    }
}

/// The currency rendering of an amount of cents: a dollar sign, the sign,
/// the whole dollars, and exactly two fraction digits.
pub open spec fn money_display(c: int) -> Seq<char> {
    let mag = if c < 0 {
        -c
    } else {
        c
    };
    let sign = if c < 0 {
        seq!['-']
    } else {
        Seq::<char>::empty()
    };
    seq!['$'] + sign + dec_digits(mag / 100) + seq!['.', digit_char((mag % 100) / 10), digit_char(
        mag % 10,
    )]
}

/// The text for one decimal digit.
pub(crate) fn digit_str(d: u64) -> (r: &'static str)
    requires
        d <= 9,
    ensures
        r@ =~= seq![digit_char(d as int)],
{
    proof {
        reveal_strlit("0");
        reveal_strlit("1");
        reveal_strlit("2");
        reveal_strlit("3");
        reveal_strlit("4");
        reveal_strlit("5");
        reveal_strlit("6");
        reveal_strlit("7");
        reveal_strlit("8");
        reveal_strlit("9");
    }
    match d {
        0 => "0",
        1 => "1",
        2 => "2",
        3 => "3",
        4 => "4",
        5 => "5",
        6 => "6",
        7 => "7",
        8 => "8",
        _ => "9",
    }
}

/// Appends the decimal digits of `n`, most significant first.
pub(crate) fn push_dec_digits(s: &mut String, n: u64)
    ensures
        final(s)@ == old(s)@ + dec_digits(n as int),
    decreases n,
{
    if n >= 10 {
        push_dec_digits(s, n / 10);
    }
    s.append(digit_str(n % 10));
    proof {
        if n < 10 {
            assert(n as int % 10 == n as int);
        }
    }
}

impl Money {
    /// The currency text of the amount, such as `$12.50`.
    pub fn to_display_string(&self) -> (r: String)
        ensures
            r@ == money_display(self@),
    {
        proof {
            reveal_strlit("$");
            reveal_strlit("-");
            reveal_strlit(".");
        }
        let mut s = String::new();
        s.append("$");
        let mag: u64 = if self.cents < 0 {
            s.append("-");
            ((-(self.cents + 1)) as u64) + 1
        } else {
            self.cents as u64
        };
        push_dec_digits(&mut s, mag / 100);
        s.append(".");
        s.append(digit_str((mag % 100) / 10));
        s.append(digit_str(mag % 10));
        proof {
            assert((mag as int % 100) / 10 == (mag as int / 10) % 10) by (nonlinear_arith);
            assert(s@ =~= money_display(self@));
        }
        s
    }
}

/// The quotient `n / d` rounded half-up, executable form.
fn div_half_up_i64(n: i64, d: i64) -> (r: i64)
    requires
        n >= 0,
        d >= 1,
    ensures
        r == div_round_half_up(n as int, d as int),
{
    let q = n / d;
    let rem = n % d;
    if rem >= d - rem {
        proof {
            assert(q < i64::MAX) by (nonlinear_arith)
                requires
                    q == n as int / d as int,
                    rem == n as int % d as int,
                    n >= 0,
                    d >= 1,
                    2 * rem >= d,
                    n <= i64::MAX,
            {
            }
        }
        q + 1
    } else {
        q
    }
}

/// The half-up rounded quotient of non-negative by positive stays between
/// zero and the dividend.
pub proof fn lemma_div_round_half_up_range(n: int, d: int)
    requires
        n >= 0,
        d >= 1,
    ensures
        0 <= div_round_half_up(n, d) <= n,
{
    assert(0 <= div_round_half_up(n, d) <= n) by (nonlinear_arith)
        requires
            n >= 0,
            d >= 1,
    {
        vstd::arithmetic::div_mod::lemma_fundamental_div_mod(n, d);
    }
}

proof fn lemma_mul_nonneg_money(a: int, b: int)
    requires
        a >= 0,
        b >= 0,
    ensures
        a * b >= 0,
{
    assert(a * b >= 0) by (nonlinear_arith)
        requires
            a >= 0,
            b >= 0,
    {
    }
}

/// The fraction digits contribute between zero and one whole dollar in cents.
proof fn lemma_frac_cents_range(f: Seq<u8>)
    requires
        all_digit_bytes(f),
    ensures
        0 <= frac_cents(f) <= 100,
{
}

/// A magnitude in cents dominates both its parts.
proof fn lemma_magnitude_grows(iv: int, fc: int)
    requires
        iv >= 0,
        fc >= 0,
    ensures
        iv * 100 + fc >= iv,
        iv * 100 + fc >= iv * 100,
{
    assert(iv * 100 >= iv) by (nonlinear_arith)
        requires
            iv >= 0,
    {
    }
}

/// When the running value still leaves room, appending a digit stays in range.
proof fn lemma_digit_acc_fits(v: int, d: int)
    requires
        0 <= d <= 9,
        0 <= v <= (i64::MAX - d) / 10,
    ensures
        v * 10 + d <= i64::MAX,
{
    assert(v * 10 + d <= i64::MAX) by (nonlinear_arith)
        requires
            0 <= d <= 9,
            0 <= v <= (i64::MAX - d) / 10,
    {
        vstd::arithmetic::div_mod::lemma_fundamental_div_mod((i64::MAX - d) as int, 10);
    }
}

/// When the running value is too large for one more digit, the full run of
/// digits is certainly out of range.
proof fn lemma_digit_acc_overflow(v: int, d: int)
    requires
        0 <= d <= 9,
        v > (i64::MAX - d) / 10,
    ensures
        v * 10 + d > i64::MAX,
{
    assert(v * 10 + d > i64::MAX) by (nonlinear_arith)
        requires
            0 <= d <= 9,
            v > (i64::MAX - d) / 10,
    {
        vstd::arithmetic::div_mod::lemma_fundamental_div_mod((i64::MAX - d) as int, 10);
    }
}

/// Law: adding an amount and then subtracting it again returns the
/// original value, exactly, for any two-place amounts.
pub proof fn lemma_add_then_sub_cancels(a: Money, b: Money)
    ensures
        (a@ + b@) - b@ == a@,
{
}

/// Law: scaling an amount by the integer one leaves it unchanged.
pub proof fn lemma_mul_one_identity(a: Money)
    ensures
        a@ * 1 == a@,
{
}

impl PartialEq for Money {
    fn eq(&self, other: &Money) -> (r: bool) {
        self.cents == other.cents
    }
}

impl Eq for Money {

}

impl vstd::std_specs::cmp::PartialEqSpecImpl for Money {
    open spec fn obeys_eq_spec() -> bool {
        true
    }

    open spec fn eq_spec(&self, other: &Money) -> bool {
        self@ == other@
    }
}

impl PartialOrd for Money {
    fn partial_cmp(&self, other: &Money) -> (r: Option<core::cmp::Ordering>) {
        if self.cents < other.cents {
            Some(core::cmp::Ordering::Less)
        } else if self.cents == other.cents {
            Some(core::cmp::Ordering::Equal)
        } else {
            Some(core::cmp::Ordering::Greater)
        }
    }
}

impl vstd::std_specs::cmp::PartialOrdSpecImpl for Money {
    open spec fn obeys_partial_cmp_spec() -> bool {
        true
    }

    open spec fn partial_cmp_spec(&self, other: &Money) -> Option<core::cmp::Ordering> {
        if self@ < other@ {
            Some(core::cmp::Ordering::Less)
        } else if self@ == other@ {
            Some(core::cmp::Ordering::Equal)
        } else {
            Some(core::cmp::Ordering::Greater)
        }
    }
}

} // verus!

