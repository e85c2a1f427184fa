//! Currencies and fixed-point monetary amounts.
//!
//! An [`Amount`] holds its value in ten-thousandths, so every value that the
//! ledger's four-decimal wire format can carry is held exactly.

use crate::text::{upper_of, uppercase};
use vstd::prelude::*;

verus! {

/// Bound on the magnitude of an amount in ten-thousandths: the whole part has at most 30 digits.
pub const AMOUNT_LIMIT: i128 = 10000000000000000000000000000000000;

/// The currencies whose minor units the library knows how to scale.
#[derive(Debug, Clone, Copy, PartialEq, Eq, Structural)]
pub enum Currency {
    Clp,
    Usd,
    Eur,
}

impl Currency {
    /// The upper-case ISO 4217 code.
    pub open spec fn code(self) -> Seq<char> {
        match self {
            Currency::Clp => seq!['C', 'L', 'P'],
            Currency::Usd => seq!['U', 'S', 'D'],
            Currency::Eur => seq!['E', 'U', 'R'],
        }
    }

    /// The lower-case ISO 4217 code.
    pub open spec fn lower_code(self) -> Seq<char> {
        match self {
            Currency::Clp => seq!['c', 'l', 'p'],
            Currency::Usd => seq!['u', 's', 'd'],
            Currency::Eur => seq!['e', 'u', 'r'],
        }
    }

    /// Minor units in one whole unit.
    pub open spec fn scale(self) -> int {
        match self {
            Currency::Clp => 1,
            _ => 100,
        }
    }

    pub fn minor_per_unit(&self) -> (r: i128)
        ensures
            r == self.scale(),
    {
        match self {
            Currency::Clp => 1,
            _ => 100,
        }
    }

    pub fn iso_code(&self) -> (r: String)
        ensures
            r@ == self.code(),
    {
        proof {
            reveal_strlit("CLP");
            reveal_strlit("USD");
            reveal_strlit("EUR");
        }
        match self {
            Currency::Clp => String::from_str("CLP"),
            Currency::Usd => String::from_str("USD"),
            Currency::Eur => String::from_str("EUR"),
        }
    }

    pub fn lowercase_code(&self) -> (r: String)
        ensures
            r@ == self.lower_code(),
    {
        proof {
            reveal_strlit("clp");
            reveal_strlit("usd");
            reveal_strlit("eur");
        }
        match self {
            Currency::Clp => String::from_str("clp"),
            Currency::Usd => String::from_str("usd"),
            Currency::Eur => String::from_str("eur"),
        }
    }

    /// The symbol shown before amounts of this currency.
    pub open spec fn symbol(self) -> Seq<char> {
        match self {
            Currency::Eur => seq!['\u{20ac}'],
            _ => seq!['$'],
        }
    }

    /// Decimals shown for amounts of this currency.
    pub open spec fn display_precision(self) -> nat {
        match self {
            Currency::Clp => 0,
            _ => 2,
        }
    }

    pub fn display_symbol(&self) -> (r: String)
        ensures
            r@ == self.symbol(),
    {
        proof {
            reveal_strlit("$");
            reveal_strlit("\u{20ac}");
        }
        match self {
            Currency::Eur => String::from_str("\u{20ac}"),
            _ => String::from_str("$"),
        }
    }

    pub fn decimals_shown(&self) -> (r: u8)
        ensures
            r == self.display_precision(),
    {
        match self {
            Currency::Clp => 0,
            _ => 2,
        }
    }

    /// Reads a currency code without regard to case; `None` for an unsupported code.
    pub fn from_code(code: &str) -> (r: Option<Currency>)
        ensures
            r == currency_of_code(code@),
    {
        let up = uppercase(code);
        Currency::from_upper_code(up.as_str())
    }

    /// Reads an upper-case currency code; `None` for an unsupported code.
    pub fn from_upper_code(code: &str) -> (r: Option<Currency>)
        ensures
            r == currency_of_upper(code@),
    {
        let up = String::from_str(code);
        if up == Currency::Clp.iso_code() {
            Some(Currency::Clp)
        } else if up == Currency::Usd.iso_code() {
            Some(Currency::Usd)
        } else if up == Currency::Eur.iso_code() {
            Some(Currency::Eur)
        } else {
            None
        }
    }
}

/// The currency named by an upper-case code.
pub open spec fn currency_of_upper(u: Seq<char>) -> Option<Currency> {
    if u == Currency::Clp.code() {
        Some(Currency::Clp)
    } else if u == Currency::Usd.code() {
        Some(Currency::Usd)
    } else if u == Currency::Eur.code() {
        Some(Currency::Eur)
    } else {
        None
    }
}

/// The currency named by a code in any case.
pub open spec fn currency_of_code(code: Seq<char>) -> Option<Currency> {
    currency_of_upper(upper_of(code))
}

/// A monetary value, in ten-thousandths of the currency's whole unit.
#[derive(Debug, Clone, Copy, PartialEq, Eq, Structural)]
pub struct Amount {
    pub ten_thousandths: i128,
}

/// Why an amount could not be formed from provider minor units.
#[derive(Debug, Clone, PartialEq, Eq)]
pub enum MoneyError {
    /// The currency code, upper-cased, is not one of the supported currencies.
    UnsupportedCurrency { code: String },
    /// The value does not fit the amount's range.
    OutOfRange,
}

/// Value in ten-thousandths of `raw` minor units of currency `c`.
pub open spec fn minor_units_value(raw: int, c: Currency) -> int {
    raw * 10000 / c.scale()
}

pub open spec fn in_amount_range(v: int) -> bool {
    -AMOUNT_LIMIT < v < AMOUNT_LIMIT
}

/// The amount for `raw` minor units of `c`, when it is in range.
pub open spec fn minor_units_amount(raw: int, c: Currency) -> Option<Amount> {
    let v = minor_units_value(raw, c);
    if in_amount_range(v) {
        Some(Amount { ten_thousandths: v as i128 })
    } else {
        None
    }
}

pub open spec fn abs(v: int) -> nat {
    if v < 0 {
        (-v) as nat
    } else {
        v as nat
    }
}

/// The decimal digit character for `d` in `0..10`.
pub open spec fn digit_char(d: int) -> char {
    ((d + 48) as u32) as char
}

pub open spec fn is_digit(c: char) -> bool {
    '0' <= c && c <= '9'
}

pub open spec fn digit_value(c: char) -> int {
    (c as u32) as int - 48
}

/// The decimal digits of `n`, most significant first, without leading zeros.
pub open spec fn digits_of(n: nat) -> Seq<char>
    decreases n,
{
    if n < 10 {
        seq![digit_char(n as int)]
    } else {
        digits_of(n / 10).push(digit_char((n % 10) as int))
    }
}

/// The four digits of `f` in `0..10000`, leading zeros kept.
pub open spec fn four_digits(f: nat) -> Seq<char> {
    seq![
        digit_char((f / 1000) as int),
        digit_char((f / 100 % 10) as int),
        digit_char((f / 10 % 10) as int),
        digit_char((f % 10) as int),
    ]
}

/// The text of `v` ten-thousandths: optional minus sign, whole part, point, four decimals.
pub open spec fn decimal_text(v: int) -> Seq<char> {
    let m = abs(v);
    (if v < 0 {
        seq!['-']
    } else {
        Seq::empty()
    }) + digits_of(m / 10000) + seq!['.'] + four_digits(m % 10000)
}

pub open spec fn all_digits(s: Seq<char>) -> bool {
    forall|i: int| 0 <= i < s.len() ==> is_digit(#[trigger] s[i])
}

/// The number that a run of digits denotes.
pub open spec fn digits_value(s: Seq<char>) -> int
    decreases s.len(),
{
    if s.len() == 0 {
        0
    } else {
        digits_value(s.drop_last()) * 10 + digit_value(s.last())
    }
}

pub open spec fn pow10(n: nat) -> int
    decreases n,
{
    if n == 0 {
        1
    } else {
        10 * pow10((n - 1) as nat)
    }
}

/// A whole part: one to thirty digits.
pub open spec fn whole_ok(w: Seq<char>) -> bool {
    1 <= w.len() <= 30 && all_digits(w)
}

/// `s` is a whole part, a point and `f` decimal digits.
pub open spec fn fraction_split(s: Seq<char>, f: int) -> bool {
    &&& s.len() > f
    &&& s[s.len() - f - 1] == '.'
    &&& whole_ok(s.take(s.len() - f - 1))
    &&& all_digits(s.skip(s.len() - f))
}

/// Value in ten-thousandths of `s` read as a whole part, a point and `f` decimals.
pub open spec fn split_value(s: Seq<char>, f: int) -> int {
    digits_value(s.take(s.len() - f - 1)) * 10000 + digits_value(s.skip(s.len() - f)) * pow10(
        (4 - f) as nat,
    )
}

/// Value in ten-thousandths of unsigned decimal text: a whole part of one to thirty
/// digits, optionally followed by a point and one to four decimals.
pub open spec fn unsigned_text_value(s: Seq<char>) -> Option<int> {
    if whole_ok(s) {
        Some(digits_value(s) * 10000)
    } else if fraction_split(s, 1) {
        Some(split_value(s, 1))
    } else if fraction_split(s, 2) {
        Some(split_value(s, 2))
    } else if fraction_split(s, 3) {
        Some(split_value(s, 3))
    } else if fraction_split(s, 4) {
        Some(split_value(s, 4))
    } else {
        None
    }
}

/// Value in ten-thousandths of decimal text with an optional leading minus sign.
pub open spec fn text_value(s: Seq<char>) -> Option<int> {
    if s.len() > 0 && s[0] == '-' {
        match unsigned_text_value(s.drop_first()) {
            Some(v) => Some(-v),
            None => None,
        }
    } else {
        unsigned_text_value(s)
    }
}

/// The amount that decimal text denotes, if it is well formed.
pub open spec fn parse_amount(s: Seq<char>) -> Option<Amount> {
    match text_value(s) {
        Some(v) => Some(Amount { ten_thousandths: v as i128 }),
        None => None,
    }
}

proof fn lemma_pow10_30()
    ensures
        pow10(30) == 1000000000000000000000000000000,
{
    reveal_with_fuel(pow10, 31);
}

proof fn lemma_pow10_monotone(a: nat, b: nat)
    requires
        a <= b,
    ensures
        1 <= pow10(a) <= pow10(b),
    decreases b,
{
    if b > a {
        lemma_pow10_monotone(a, (b - 1) as nat);
    } else if b > 0 {
        lemma_pow10_monotone(0, (b - 1) as nat);
    }
}

proof fn lemma_digits_value_bound(s: Seq<char>)
    requires
        all_digits(s),
    ensures
        0 <= digits_value(s) < pow10(s.len()),
    decreases s.len(),
{
    if s.len() > 0 {
        let t = s.drop_last();
        assert(all_digits(t)) by {
            assert forall|i: int| 0 <= i < t.len() implies is_digit(#[trigger] t[i]) by {
                assert(t[i] == s[i]);
            }
        }
        lemma_digits_value_bound(t);
        assert(is_digit(s[s.len() - 1]));
        let a = digits_value(t);
        let p = pow10(t.len());
        assert(a * 10 + digit_value(s.last()) < p * 10) by (nonlinear_arith)
            requires
                0 <= a < p,
                0 <= digit_value(s.last()) < 10,
        ;
    }
}

proof fn lemma_whole_bound(w: Seq<char>)
    requires
        whole_ok(w),
    ensures
        0 <= digits_value(w) < 1000000000000000000000000000000,
{
    lemma_digits_value_bound(w);
    lemma_pow10_monotone(w.len(), 30);
    lemma_pow10_30();
}

proof fn lemma_digits_of(n: nat)
    ensures
        all_digits(digits_of(n)),
        digits_value(digits_of(n)) == n,
        1 <= digits_of(n).len(),
        n < 10 || pow10((digits_of(n).len() - 1) as nat) <= n,
    decreases n,
{
    let s = digits_of(n);
    if n < 10 {
        lemma_digit_char(n as int);
        assert(s.drop_last() =~= Seq::<char>::empty());
        assert(digits_value(s.drop_last()) == 0);
        assert(s.last() == digit_char(n as int));
    } else {
        lemma_digits_of(n / 10);
        lemma_digit_char((n % 10) as int);
        let t = digits_of(n / 10);
        assert(s.drop_last() =~= t);
        assert(s.last() == digit_char((n % 10) as int));
        assert(all_digits(s)) by {
            assert forall|i: int| 0 <= i < s.len() implies is_digit(#[trigger] s[i]) by {
                if i < t.len() {
                    assert(s[i] == t[i]);
                }
            }
        }
        if n / 10 < 10 {
            assert(pow10(1) == 10 * pow10(0));
        } else {
            let p = pow10((t.len() - 1) as nat);
            assert(pow10(t.len()) == 10 * p);
            assert(10 * p <= n) by (nonlinear_arith)
                requires
                    p <= n / 10,
            ;
        }
    }
}

proof fn lemma_digits_of_short(n: nat)
    requires
        n < 1000000000000000000000000000000,
    ensures
        digits_of(n).len() <= 30,
{
    lemma_digits_of(n);
    let k = (digits_of(n).len() - 1) as nat;
    if k >= 30 {
        lemma_pow10_monotone(30, k);
        lemma_pow10_30();
    }
}

proof fn lemma_four_digits(f: nat)
    requires
        f < 10000,
    ensures
        all_digits(four_digits(f)),
        digits_value(four_digits(f)) == f,
{
    let s = four_digits(f);
    let q1 = f / 10;
    let q2 = q1 / 10;
    let q3 = q2 / 10;
    assert(f / 100 == q2);
    assert(f / 1000 == q3);
    lemma_digit_char(q3 as int);
    lemma_digit_char((q2 % 10) as int);
    lemma_digit_char((q1 % 10) as int);
    lemma_digit_char((f % 10) as int);
    let s1 = s.drop_last();
    let s2 = s1.drop_last();
    let s3 = s2.drop_last();
    assert(s3.drop_last() =~= Seq::<char>::empty());
    assert(digits_value(s3.drop_last()) == 0);
    assert(s3.last() == digit_char(q3 as int));
    assert(s2.last() == digit_char((q2 % 10) as int));
    assert(s3 =~= seq![digit_char(q3 as int)]);
    assert(s2 =~= seq![digit_char(q3 as int), digit_char((q2 % 10) as int)]);
    assert(s1.last() == digit_char((q1 % 10) as int));
    assert(s.last() == digit_char((f % 10) as int));
    assert(digits_value(s3) == q3);
    assert(digits_value(s2) == q2);
    assert(digits_value(s1) == q1);
    assert(all_digits(s));
}

/// Printing an amount in range and reading the text back gives the same amount.
pub proof fn lemma_text_round_trip(a: Amount)
    requires
        in_amount_range(a.ten_thousandths as int),
    ensures
        parse_amount(decimal_text(a.ten_thousandths as int)) == Some(a),
{
    let v = a.ten_thousandths as int;
    let m = abs(v);
    let w = digits_of(m / 10000);
    let fr = four_digits(m % 10000);
    let u = w + seq!['.'] + fr;
    let t = decimal_text(v);
    lemma_digits_of(m / 10000);
    lemma_digits_of_short(m / 10000);
    lemma_four_digits(m % 10000);
    assert(u.take(u.len() - 5) =~= w);
    assert(u.skip(u.len() - 4) =~= fr);
    assert(!is_digit(u[w.len() as int]));
    assert(!whole_ok(u));
    assert(!fraction_split(u, 1)) by {
        assert(u[u.len() - 2] == fr[2]);
    }
    assert(!fraction_split(u, 2)) by {
        assert(u[u.len() - 3] == fr[1]);
    }
    assert(!fraction_split(u, 3)) by {
        assert(u[u.len() - 4] == fr[0]);
    }
    assert(fraction_split(u, 4));
    assert(pow10(0) == 1);
    assert(unsigned_text_value(u) == Some(m as int));
    if v < 0 {
        assert(t =~= seq!['-'] + u);
        assert(t.drop_first() =~= u);
    } else {
        assert(t =~= u);
        assert(is_digit(t[0]));
    }
}

/// Converting minor units of a supported currency and printing the amount gives
/// `raw / scale` with exactly four decimals, and that text reads back to the same
/// amount.
pub proof fn lemma_minor_units_text(raw: int, code: Seq<char>)
    requires
        currency_of_code(code) is Some ==> in_amount_range(
            minor_units_value(raw, currency_of_code(code).unwrap()),
        ),
    ensures
        currency_of_code(code) is Some ==> ({
            let c = currency_of_code(code).unwrap();
            let a = minor_units_amount(raw, c).unwrap();
            let t = decimal_text(a.ten_thousandths as int);
            &&& minor_units_amount(raw, c) is Some
            &&& a.ten_thousandths * c.scale() == raw * 10000
            &&& t.len() >= 6
            &&& t[t.len() - 5] == '.'
            &&& all_digits(t.skip(t.len() - 4))
            &&& parse_amount(t) == Some(a)
        }),
{
    if currency_of_code(code) is Some {
        let c = currency_of_code(code).unwrap();
        let a = minor_units_amount(raw, c).unwrap();
        let v = a.ten_thousandths as int;
        if c == Currency::Clp {
            assert(raw * 10000 / 1 == raw * 10000);
        } else {
            assert(raw * 10000 / 100 == raw * 100);
        }
        lemma_text_round_trip(a);
        let m = abs(v);
        let t = decimal_text(v);
        let w = digits_of(m / 10000);
        let fr = four_digits(m % 10000);
        lemma_digits_of(m / 10000);
        lemma_four_digits(m % 10000);
        let pre = if v < 0 {
            seq!['-']
        } else {
            Seq::<char>::empty()
        };
        assert(t =~= pre + w + seq!['.'] + fr);
        assert(t.skip(t.len() - 4) =~= fr);
        assert(t[t.len() - 5] == '.');
    }
}

proof fn lemma_digit_char(d: int)
    requires
        0 <= d < 10,
    ensures
        is_digit(digit_char(d)),
        digit_value(digit_char(d)) == d,
{
}

/// The one-character string for digit `d`.
fn digit_str(d: u8) -> (r: &'static str)
    requires
        d < 10,
    ensures
        r@ == seq![digit_char(d as int)],
{
    proof {
        reveal_strlit("0");
        reveal_strlit("1");
        reveal_strlit("2");
        reveal_strlit("3");
        reveal_strlit("4");
        reveal_strlit("5");
        reveal_strlit("6");
        reveal_strlit("7");
        reveal_strlit("8");
        reveal_strlit("9");
    }
    let r = if d == 0 {
        "0"
    } else if d == 1 {
        "1"
    } else if d == 2 {
        "2"
    } else if d == 3 {
        "3"
    } else if d == 4 {
        "4"
    } else if d == 5 {
        "5"
    } else if d == 6 {
        "6"
    } else if d == 7 {
        "7"
    } else if d == 8 {
        "8"
    } else {
        "9"
    };
    assert(r@ =~= seq![digit_char(d as int)]);
    r
}

/// Appends the decimal digits of `n` to `s`.
fn push_digits(s: &mut String, n: u128)
    ensures
        final(s)@ == old(s)@ + digits_of(n as nat),
    decreases n,
{
    if n >= 10 {
        push_digits(s, n / 10);
    }
    s.append(digit_str((n % 10) as u8));
    proof {
        if n >= 10 {
            assert(digits_of(n as nat) == digits_of((n / 10) as nat).push(
                digit_char((n % 10) as int),
            ));
        }
        assert(final(s)@ =~= old(s)@ + digits_of(n as nat));
    }
}

proof fn lemma_digit_step_bound(s: Seq<char>)
    requires
        all_digits(s),
        s.len() <= 29,
    ensures
        0 <= digits_value(s) * 10 + 9 < 1000000000000000000000000000000,
{
    lemma_digits_value_bound(s);
    lemma_pow10_monotone(s.len(), 29);
    lemma_pow10_30();
    assert(pow10(30) == 10 * pow10(29));
}

/// Whether `text@[lo..hi]` is all digits, and if so its value.
fn digits_in(text: &str, lo: usize, hi: usize) -> (r: Option<i128>)
    requires
        lo <= hi <= text@.len(),
        hi - lo <= 30,
    ensures
        all_digits(text@.subrange(lo as int, hi as int)) <==> r is Some,
        r is Some ==> r->Some_0 == digits_value(text@.subrange(lo as int, hi as int)),
{
    let mut acc: i128 = 0;
    let mut i: usize = lo;
    while i < hi
        invariant
            lo <= i <= hi <= text@.len(),
            hi - lo <= 30,
            all_digits(text@.subrange(lo as int, i as int)),
            acc == digits_value(text@.subrange(lo as int, i as int)),
        decreases hi - i,
    {
        let c = text.get_char(i);
        let ghost prev = text@.subrange(lo as int, i as int);
        let ghost next = text@.subrange(lo as int, i + 1);
        assert(next.drop_last() =~= prev);
        if c < '0' || c > '9' {
            assert(!all_digits(text@.subrange(lo as int, hi as int))) by {
                assert(text@.subrange(lo as int, hi as int)[i - lo] == c);
            }
            return None;
        }
        proof {
            lemma_digit_step_bound(prev);
        }
        let d: i128 = (c as u32 - 48) as i128;
        acc = acc * 10 + d;
        i = i + 1;
        assert(all_digits(next)) by {
            assert forall|j: int| 0 <= j < next.len() implies is_digit(#[trigger] next[j]) by {
                if j < prev.len() {
                    assert(next[j] == prev[j]);
                }
            }
        }
    }
    Some(acc)
}

/// Reads `text@.skip(start)` as a whole part, a point and `f` decimals.
fn fraction_in(text: &str, start: usize, f: usize) -> (r: Option<i128>)
    requires
        start <= text@.len(),
        1 <= f <= 4,
    ensures
        fraction_split(text@.skip(start as int), f as int) <==> r is Some,
        r is Some ==> r->Some_0 == split_value(text@.skip(start as int), f as int),
        r is Some ==> 0 <= r->Some_0 < AMOUNT_LIMIT,
{
    let n = text.unicode_len();
    let ghost s = text@.skip(start as int);
    if n - start <= f {
        return None;
    }
    let dot = n - f - 1;
    if text.get_char(dot) != '.' {
        assert(s[s.len() - f - 1] == text@[dot as int]);
        return None;
    }
    assert(s[s.len() - f - 1] == text@[dot as int]);
    assert(s.take(s.len() - f - 1) =~= text@.subrange(start as int, dot as int));
    assert(s.skip(s.len() - f) =~= text@.subrange(dot + 1, n as int));
    if dot - start < 1 || dot - start > 30 {
        return None;
    }
    let whole = digits_in(text, start, dot);
    let frac = digits_in(text, dot + 1, n);
    match (whole, frac) {
        (Some(w), Some(d)) => {
            proof {
                lemma_whole_bound(s.take(s.len() - f - 1));
                lemma_digits_value_bound(s.skip(s.len() - f));
                lemma_pow10_monotone(f as nat, 4);
                reveal_with_fuel(pow10, 5);
            }
            let p: i128 = if f == 1 {
                1000
            } else if f == 2 {
                100
            } else if f == 3 {
                10
            } else {
                1
            };
            assert(p == pow10((4 - f) as nat) && p * pow10(f as nat) == 10000) by {
                reveal_with_fuel(pow10, 5);
            }
            assert(0 <= d * p < 10000) by (nonlinear_arith)
                requires
                    0 <= d < pow10(f as nat),
                    p * pow10(f as nat) == 10000,
                    p >= 1,
            ;
            Some(w * 10000 + d * p)
        },
        _ => None,
    }
}

impl Amount {
    pub open spec fn wf(self) -> bool {
        in_amount_range(self.ten_thousandths as int)
    }

    pub open spec fn zero_spec() -> Amount {
        Amount { ten_thousandths: 0 }
    }

    pub fn zero() -> (r: Amount)
        ensures
            r == Amount::zero_spec(),
    {
        Amount { ten_thousandths: 0 }
    }

    /// The amount for `raw` minor units of `currency`; `None` when it is out of range.
    pub fn from_minor_units(raw: i128, currency: Currency) -> (r: Option<Amount>)
        ensures
            r == minor_units_amount(raw as int, currency),
    {
        let factor: i128 = match currency {
            Currency::Clp => 10000,
            _ => 100,
        };
        let bound: i128 = AMOUNT_LIMIT / factor;
        assert(raw * 10000 / 1 == raw * 10000);
        assert(raw * 10000 / 100 == raw * 100);
        if raw <= -bound || raw >= bound {
            assert(!in_amount_range(raw * factor)) by (nonlinear_arith)
                requires
                    raw <= -bound || raw >= bound,
                    factor > 0,
                    bound == AMOUNT_LIMIT / factor,
                    AMOUNT_LIMIT % factor == 0,
            ;
            return None;
        }
        assert(in_amount_range(raw * factor)) by (nonlinear_arith)
            requires
                -bound < raw < bound,
                factor > 0,
                bound == AMOUNT_LIMIT / factor,
                AMOUNT_LIMIT % factor == 0,
        ;
        Some(Amount { ten_thousandths: raw * factor })
    }

    /// The amount with exactly four decimals, as the ledger's wire format asks.
    pub fn to_string(&self) -> (r: String)
        ensures
            r@ == decimal_text(self.ten_thousandths as int),
    {
        let v = self.ten_thousandths;
        let m: u128 = if v < 0 {
            ((-(v + 1)) as u128) + 1
        } else {
            v as u128
        };
        assert(m as int == abs(v as int));
        proof {
            reveal_strlit("-");
            reveal_strlit(".");
        }
        let mut s = if v < 0 {
            String::from_str("-")
        } else {
            String::new()
        };
        assert(s@ =~= (if v < 0 {
            seq!['-']
        } else {
            Seq::<char>::empty()
        }));
        push_digits(&mut s, m / 10000);
        s.append(".");
        let f = m % 10000;
        s.append(digit_str((f / 1000) as u8));
        s.append(digit_str((f / 100 % 10) as u8));
        s.append(digit_str((f / 10 % 10) as u8));
        s.append(digit_str((f % 10) as u8));
        assert(s@ =~= decimal_text(v as int));
        s
    }

    /// Reads decimal text: an optional minus sign, one to thirty digits, and
    /// optionally a point followed by one to four decimals.
    pub fn parse(text: &str) -> (r: Option<Amount>)
        ensures
            r == parse_amount(text@),
            r is Some ==> r->Some_0.wf(),
    {
        let n = text.unicode_len();
        let neg = n > 0 && text.get_char(0) == '-';
        let start: usize = if neg {
            1
        } else {
            0
        };
        let ghost s = text@.skip(start as int);
        assert(neg ==> s =~= text@.drop_first());
        assert(!neg ==> s =~= text@);
        let value = if n - start >= 1 && n - start <= 30 {
            match digits_in(text, start, n) {
                Some(w) => {
                    assert(text@.subrange(start as int, n as int) =~= s);
                    proof {
                        lemma_whole_bound(s);
                    }
                    Some(w * 10000)
                },
                None => {
                    assert(text@.subrange(start as int, n as int) =~= s);
                    None
                },
            }
        } else {
            None
        };
        let value = match value {
            Some(v) => Some(v),
            None => match fraction_in(text, start, 1) {
                Some(v) => Some(v),
                None => match fraction_in(text, start, 2) {
                    Some(v) => Some(v),
                    None => match fraction_in(text, start, 3) {
                        Some(v) => Some(v),
                        None => fraction_in(text, start, 4),
                    },
                },
            },
        };
        assert(value is Some <==> unsigned_text_value(s) is Some);
        assert(value is Some ==> value->Some_0 == unsigned_text_value(s)->Some_0);
        match value {
            Some(v) => {
                proof {
                    if fraction_split(s, 1) || fraction_split(s, 2) || fraction_split(s, 3)
                        || fraction_split(s, 4) {
                    }
                }
                if neg {
                    Some(Amount { ten_thousandths: -v })
                } else {
                    Some(Amount { ten_thousandths: v })
                }
            },
            None => None,
        }
    }
}

/// Forms the amount for `raw` minor units of the currency named by `code` (any case).
pub fn amount_from_minor_units(raw: i128, code: &str) -> (r: Result<Amount, MoneyError>)
    ensures
        match currency_of_code(code@) {
            None => r matches Err(MoneyError::UnsupportedCurrency { code: u }) && u@ == upper_of(
                code@,
            ),
            Some(c) => match minor_units_amount(raw as int, c) {
                Some(a) => r == Ok::<Amount, MoneyError>(a),
                None => r matches Err(MoneyError::OutOfRange),
            },
        },
{
    match Currency::from_code(code) {
        None => Err(MoneyError::UnsupportedCurrency { code: uppercase(code) }),
        Some(c) => match Amount::from_minor_units(raw, c) {
            Some(a) => Ok(a),
            None => Err(MoneyError::OutOfRange),
        },
    }
}

} // verus!
