//! Amounts of money as exact decimals.
//!
//! A [`Price`] counts ten-thousandths of the currency unit, so every decimal
//! with up to four fractional digits is held without rounding. A text that
//! denotes an amount which cannot be held exactly does not parse.

use crate::text::{digit_of, digit_value, is_decimal_digit, is_digit, is_separator, to_chars};
use vstd::prelude::*;

verus! {

/// How many units of a [`Price`] make one whole.
pub const PRICE_SCALE: i64 = 10_000;

/// The number of fractional digits a [`Price`] can hold.
pub const FRACTION_DIGITS: usize = 4;

/// How far a reported total may lie from the computed one and still count as
/// the same amount: one whole, in units of a [`Price`].
pub const TOLERANCE: i64 = 10_000;

/// An amount of money, in ten-thousandths.
#[derive(Clone, Copy, Debug, PartialEq, Eq, Structural)]
pub struct Price {
    pub units: i64,
}

/// Ten to the power of `n`.
pub open spec fn pow10(n: nat) -> nat
    decreases n,
{
    if n == 0 {
        1
    } else {
        10 * pow10((n - 1) as nat)
    }
}

/// Whether every character of `s` is a decimal digit.
pub open spec fn all_digits(s: Seq<char>) -> bool {
    forall|i: int| 0 <= i < s.len() ==> is_digit(#[trigger] s[i])
}

/// The number that the decimal digits `s` denote; 0 for the empty sequence.
pub open spec fn digits_value(s: Seq<char>) -> nat
    decreases s.len(),
{
    if s.len() == 0 {
        0
    } else {
        digits_value(s.drop_last()) * 10 + digit_value(s.last())
    }
}

/// The index of the first character at or after `from` that is no digit, or
/// the length of `s` where there is none.
pub open spec fn digits_end(s: Seq<char>, from: int) -> int
    decreases s.len() - from,
{
    if 0 <= from < s.len() && is_digit(s[from]) {
        digits_end(s, from + 1)
    } else {
        from
    }
}

/// The bounds of `digits_end`, and what lies on either side of its result.
pub proof fn lemma_digits_end(s: Seq<char>, from: int)
    requires
        0 <= from <= s.len(),
    ensures
        from <= digits_end(s, from) <= s.len(),
        all_digits(s.subrange(from, digits_end(s, from))),
        digits_end(s, from) < s.len() ==> !is_digit(s[digits_end(s, from)]),
    decreases s.len() - from,
{
    if from < s.len() && is_digit(s[from]) {
        lemma_digits_end(s, from + 1);
        let e = digits_end(s, from);
        assert forall|i: int| 0 <= i < e - from implies is_digit(
            #[trigger] s.subrange(from, e)[i],
        ) by {
            if i > 0 {
                assert(s.subrange(from, e)[i] == s.subrange(from + 1, e)[i - 1]);
            }
        }
    }
}

/// A number is no smaller than the number its leading digits denote.
pub proof fn lemma_digits_value_prefix(s: Seq<char>, k: int)
    requires
        0 <= k <= s.len(),
    ensures
        digits_value(s.take(k)) <= digits_value(s),
    decreases s.len() - k,
{
    if k < s.len() {
        lemma_digits_value_prefix(s.drop_last(), k);
        assert(s.drop_last().take(k) =~= s.take(k));
    } else {
        assert(s.take(k) =~= s);
    }
}

/// The units that the digits `whole`, a separator and the digits `fraction`
/// denote together.
pub open spec fn decimal_units(whole: Seq<char>, fraction: Seq<char>) -> int
    recommends
        fraction.len() <= 4,
{
    (digits_value(whole) * 10_000 + digits_value(fraction) * pow10((4 - fraction.len()) as nat)) as int
}

/// The price that `whole` and `fraction` denote, where a [`Price`] can hold
/// it: where there are at most four fractional digits and the units fit.
/// A decimal with five fractional digits or more, such as `1,23456`, and a
/// decimal above `922337203685477,5807` denote no price: they are numbers,
/// but none that is held exactly, and nothing is rounded.
pub open spec fn decimal(whole: Seq<char>, fraction: Seq<char>) -> Option<Price> {
    if fraction.len() <= 4 && decimal_units(whole, fraction) <= i64::MAX {
        Some(Price { units: decimal_units(whole, fraction) as i64 })
    } else {
        None
    }
}

/// The price that an unsigned decimal text denotes: one or more digits, then
/// nothing more or a separator and one to four digits.
pub open spec fn unsigned_price(s: Seq<char>) -> Option<Price> {
    let w = digits_end(s, 0);
    if w == 0 {
        None
    } else if w == s.len() {
        decimal(s, Seq::empty())
    } else if is_separator(s[w]) && w + 1 < s.len() && digits_end(s, w + 1) == s.len() {
        decimal(s.subrange(0, w), s.subrange(w + 1, s.len() as int))
    } else {
        None
    }
}

/// The price that a text denotes as a whole: an unsigned decimal, or a minus
/// sign and an unsigned decimal. Other ways of writing a number denote no
/// price: a plus sign (`+1`), a separator without digits on both sides (`1.`,
/// `.5`), an exponent (`1e2`), white space, and names such as `inf`.
pub open spec fn parsed_price(s: Seq<char>) -> Option<Price> {
    if s.len() > 0 && s[0] == '-' {
        match unsigned_price(s.drop_first()) {
            Some(p) => Some(Price { units: (-p.units) as i64 }),
            None => None,
        }
    } else {
        unsigned_price(s)
    }
}

/// The index of the first character at or after `from` that is no decimal
/// digit of any script, or the length of `s` where there is none.
pub open spec fn number_end(s: Seq<char>, from: int) -> int
    decreases s.len() - from,
{
    if 0 <= from < s.len() && is_decimal_digit(s[from]) {
        number_end(s, from + 1)
    } else {
        from
    }
}

/// The bounds of `number_end`.
pub proof fn lemma_number_end(s: Seq<char>, from: int)
    requires
        0 <= from <= s.len(),
    ensures
        from <= number_end(s, from) <= s.len(),
        forall|i: int| from <= i < number_end(s, from) ==> is_decimal_digit(#[trigger] s[i]),
        number_end(s, from) < s.len() ==> !is_decimal_digit(s[number_end(s, from)]),
    decreases s.len() - from,
{
    if from < s.len() && is_decimal_digit(s[from]) {
        lemma_number_end(s, from + 1);
    }
}

/// Whether a price is written in `s` from index `at`: a run of digits that
/// starts there is followed by a separator and a digit. The digits may be of
/// any script.
pub open spec fn price_at(s: Seq<char>, at: int) -> bool {
    let j = number_end(s, at);
    &&& 0 <= at < s.len()
    &&& is_decimal_digit(s[at])
    &&& j + 1 < s.len()
    &&& is_separator(s[j])
    &&& is_decimal_digit(s[j + 1])
}

/// The first index at or after `from` at which a price is written, if any.
pub open spec fn price_start(s: Seq<char>, from: int) -> Option<int>
    decreases s.len() - from,
{
    if 0 <= from < s.len() {
        if price_at(s, from) {
            Some(from)
        } else {
            price_start(s, from + 1)
        }
    } else {
        None
    }
}

/// What `price_start` finds is the leftmost place where a price is written.
pub proof fn lemma_price_start(s: Seq<char>, from: int)
    requires
        0 <= from <= s.len(),
    ensures
        match price_start(s, from) {
            Some(i) => from <= i < s.len() && price_at(s, i) && forall|k: int|
                from <= k < i ==> !price_at(s, k),
            None => forall|k: int| from <= k ==> !price_at(s, k),
        },
    decreases s.len() - from,
{
    if from < s.len() && !price_at(s, from) {
        lemma_price_start(s, from + 1);
    }
}

/// The price written first in a line: the leftmost run of digits that a
/// separator and more digits follow, read with all the digits that follow the
/// separator. `None` where the line holds no such text, and also where the
/// first such text denotes no amount that a [`Price`] holds: where one of
/// its digits is none of `0` to `9`, and where [`decimal`] says so. `x 1,23456`
/// gives no price, and neither does `x 1,23456 2,50`, since only the first
/// text counts.
pub open spec fn price_of(s: Seq<char>) -> Option<Price> {
    match price_start(s, 0) {
        Some(i) => {
            let j = number_end(s, i);
            let k = number_end(s, j + 1);
            if all_digits(s.subrange(i, j)) && all_digits(s.subrange(j + 1, k)) {
                decimal(s.subrange(i, j), s.subrange(j + 1, k))
            } else {
                None
            }
        },
        None => None,
    }
}

/// The character that writes the digit `d`.
pub open spec fn digit_char(d: nat) -> char
    recommends
        d <= 9,
{
    if d == 0 {
        '0'
    } else if d == 1 {
        '1'
    } else if d == 2 {
        '2'
    } else if d == 3 {
        '3'
    } else if d == 4 {
        '4'
    } else if d == 5 {
        '5'
    } else if d == 6 {
        '6'
    } else if d == 7 {
        '7'
    } else if d == 8 {
        '8'
    } else {
        '9'
    }
}

/// The decimal digits of `n`, without leading zeros; `0` for zero.
pub open spec fn nat_digits(n: nat) -> Seq<char>
    decreases n,
{
    if n < 10 {
        seq![digit_char(n)]
    } else {
        nat_digits(n / 10).push(digit_char(n % 10))
    }
}

/// The digits of a fraction of `f` ten-thousandths, `0 < f < 10000`, without
/// zeros at the end.
pub open spec fn fraction_digits(f: nat) -> Seq<char>
    recommends
        0 < f < 10_000,
{
    let thousandths = f / 10;
    let hundredths = thousandths / 10;
    let tenths = hundredths / 10;
    let d1 = digit_char(tenths);
    let d2 = digit_char(hundredths % 10);
    let d3 = digit_char(thousandths % 10);
    let d4 = digit_char(f % 10);
    if f % 10 != 0 {
        seq![d1, d2, d3, d4]
    } else if thousandths % 10 != 0 {
        seq![d1, d2, d3]
    } else if hundredths % 10 != 0 {
        seq![d1, d2]
    } else {
        seq![d1]
    }
}

/// How an amount of `m` units is written without a sign: the whole part,
/// and, where the amount is no whole number, a `.` and the fraction.
pub open spec fn magnitude_text(m: nat) -> Seq<char> {
    if m % 10_000 == 0 {
        nat_digits(m / 10_000)
    } else {
        nat_digits(m / 10_000) + seq!['.'] + fraction_digits(m % 10_000)
    }
}

/// How a price is written: a minus sign where it is negative, then its magnitude.
pub open spec fn price_text(p: Price) -> Seq<char> {
    if p.units < 0 {
        seq!['-'] + magnitude_text((-p.units) as nat)
    } else {
        magnitude_text(p.units as nat)
    }
}

/// A digit is written by a digit character, which denotes it.
pub proof fn lemma_digit_char(d: nat)
    requires
        d <= 9,
    ensures
        is_digit(digit_char(d)),
        digit_value(digit_char(d)) == d,
        digit_char(d) != '-',
        !is_separator(digit_char(d)),
{
}

/// The digits of a number are digits, at least one, and denote the number.
pub proof fn lemma_nat_digits(n: nat)
    ensures
        nat_digits(n).len() >= 1,
        all_digits(nat_digits(n)),
        digits_value(nat_digits(n)) == n,
    decreases n,
{
    if n < 10 {
        lemma_digit_char(n);
        let s = nat_digits(n);
        assert(s.drop_last() =~= Seq::<char>::empty());
        assert(digits_value(s.drop_last()) == 0);
    } else {
        lemma_nat_digits(n / 10);
        lemma_digit_char(n % 10);
        let s = nat_digits(n);
        assert(s.drop_last() =~= nat_digits(n / 10));
        assert(s.last() == digit_char(n % 10));
        assert forall|i: int| 0 <= i < s.len() implies is_digit(#[trigger] s[i]) by {
            if i < s.len() - 1 {
                assert(s[i] == nat_digits(n / 10)[i]);
            }
        }
    }
}

/// The value of a few digits, written out.
proof fn lemma_digits_value_short(s: Seq<char>)
    requires
        1 <= s.len() <= 4,
    ensures
        s.len() == 1 ==> digits_value(s) == digit_value(s[0]),
        s.len() == 2 ==> digits_value(s) == digit_value(s[0]) * 10 + digit_value(s[1]),
        s.len() == 3 ==> digits_value(s) == digit_value(s[0]) * 100 + digit_value(s[1]) * 10
            + digit_value(s[2]),
        s.len() == 4 ==> digits_value(s) == digit_value(s[0]) * 1000 + digit_value(s[1]) * 100
            + digit_value(s[2]) * 10 + digit_value(s[3]),
    decreases s.len(),
{
    let t = s.drop_last();
    if s.len() == 1 {
        assert(digits_value(t) == 0);
    } else {
        lemma_digits_value_short(t);
        assert(forall|i: int| 0 <= i < t.len() ==> t[i] == s[i]);
    }
}

/// The digits of a fraction are digits, one to four, and denote the fraction.
pub proof fn lemma_fraction_digits(f: nat)
    requires
        0 < f < 10_000,
    ensures
        1 <= fraction_digits(f).len() <= 4,
        all_digits(fraction_digits(f)),
        digits_value(fraction_digits(f)) * pow10((4 - fraction_digits(f).len()) as nat) == f,
{
    let s = fraction_digits(f);
    let thousandths = f / 10;
    let hundredths = thousandths / 10;
    let tenths = hundredths / 10;
    lemma_digit_char(tenths);
    lemma_digit_char(hundredths % 10);
    lemma_digit_char(thousandths % 10);
    lemma_digit_char(f % 10);
    lemma_pow10_small();
    lemma_digits_value_short(s);
    let v = digits_value(s);
    if f % 10 != 0 {
        assert(v * pow10(0) == f);
    } else if thousandths % 10 != 0 {
        assert(v * 10 == f);
        assert(v * pow10(1) == f);
    } else if hundredths % 10 != 0 {
        assert(v * 100 == f);
        assert(v * pow10(2) == f);
    } else {
        assert(v * 1_000 == f);
        assert(v * pow10(3) == f);
    }
}

/// In a text that starts with digits, the run of digits ends where the
/// digits end.
pub proof fn lemma_digits_end_of_run(digits: Seq<char>, rest: Seq<char>, from: int)
    requires
        all_digits(digits),
        rest.len() == 0 || !is_digit(rest[0]),
        0 <= from <= digits.len(),
    ensures
        digits_end(digits + rest, from) == digits.len(),
    decreases digits.len() - from,
{
    let s = digits + rest;
    if from < digits.len() {
        assert(s[from] == digits[from]);
        lemma_digits_end_of_run(digits, rest, from + 1);
    } else if rest.len() > 0 {
        assert(s[from] == rest[0]);
    }
}

/// How an amount is written parses as that amount.
pub proof fn lemma_magnitude_text_parses(m: nat)
    requires
        m <= i64::MAX,
    ensures
        unsigned_price(magnitude_text(m)) == Some(Price { units: m as i64 }),
        magnitude_text(m).len() > 0,
        magnitude_text(m)[0] != '-',
{
    let whole = nat_digits(m / 10_000);
    let text = magnitude_text(m);
    lemma_nat_digits(m / 10_000);
    lemma_pow10_small();
    assert(is_digit(whole[0]));
    if m % 10_000 == 0 {
        lemma_digits_end_of_run(whole, Seq::empty(), 0);
        assert(whole + Seq::<char>::empty() =~= whole);
        assert(digits_end(text, 0) == text.len());
        assert(digits_value(Seq::<char>::empty()) == 0);
        assert(digits_value(Seq::<char>::empty()) * pow10(4) == 0);
        assert(decimal_units(text, Seq::empty()) == m);
    } else {
        let fraction = fraction_digits(m % 10_000);
        lemma_fraction_digits(m % 10_000);
        let tail = seq!['.'] + fraction;
        assert(text =~= whole + tail);
        assert(tail[0] == '.');
        lemma_digits_end_of_run(whole, tail, 0);
        let w = whole.len() as int;
        assert(text[w] == '.');
        assert(text[0] == whole[0]);
        assert(text.subrange(0, w) =~= whole);
        assert(text.subrange(w + 1, text.len() as int) =~= fraction);
        assert(digits_end(text, w + 1) == text.len()) by {
            let head = whole + seq!['.'];
            assert(text =~= head + fraction);
            lemma_digits_end_shift(text, w + 1, w + 1);
            assert(text.subrange(w + 1, text.len() as int) =~= fraction + Seq::<char>::empty());
            lemma_digits_end_of_run(fraction, Seq::empty(), 0);
        }
        assert(digits_end(text, 0) == w);
        assert(is_separator(text[w]));
        assert(decimal_units(whole, fraction) == m);
    }
}

/// What [`Price::to_string`] writes, [`Price::parse`] reads back: every
/// price but the one that has no positive counterpart is the price that its
/// text denotes.
pub proof fn lemma_price_text_parses(p: Price)
    requires
        p.units > i64::MIN,
    ensures
        parsed_price(price_text(p)) == Some(p),
{
    if p.units < 0 {
        let m = (-p.units) as nat;
        lemma_magnitude_text_parses(m);
        let text = price_text(p);
        assert(text[0] == '-');
        assert(text.drop_first() =~= magnitude_text(m));
    } else {
        lemma_magnitude_text_parses(p.units as nat);
    }
}

/// Whether a reported total and a computed one agree within [`TOLERANCE`].
pub open spec fn reconciled(reported: Price, computed: int) -> bool {
    reported.units - TOLERANCE <= computed <= reported.units + TOLERANCE
}

/// The largest whole part that can stand before a fraction.
const MAX_WHOLE: u64 = 922_337_203_685_477;

/// The index of the first character of `v` at or after `from` that is no digit.
pub fn find_digits_end(v: &Vec<char>, from: usize) -> (end: usize)
    requires
        from <= v.len(),
    ensures
        end == digits_end(v@, from as int),
        from <= end <= v.len(),
{
    let mut end: usize = from;
    while end < v.len() && is_digit(v[end])
        invariant
            from <= end <= v.len(),
            digits_end(v@, end as int) == digits_end(v@, from as int),
        decreases v.len() - end,
    {
        end += 1;
    }
    end
}

/// The number that the digits `v[from..to]` denote, where it is at most `limit`.
fn read_digits(v: &Vec<char>, from: usize, to: usize, limit: u64) -> (r: Option<u64>)
    requires
        from <= to <= v.len(),
        all_digits(v@.subrange(from as int, to as int)),
    ensures
        match r {
            Some(n) => n == digits_value(v@.subrange(from as int, to as int)) && n <= limit,
            None => digits_value(v@.subrange(from as int, to as int)) > limit,
        },
{
    let ghost s = v@.subrange(from as int, to as int);
    let mut n: u64 = 0;
    let mut i: usize = from;
    assert(s.take(0) =~= Seq::<char>::empty());
    while i < to
        invariant
            from <= i <= to <= v.len(),
            s == v@.subrange(from as int, to as int),
            all_digits(s),
            n == digits_value(s.take(i - from)),
            n <= limit,
        decreases to - i,
    {
        let c = v[i];
        assert(c == s[i - from]);
        let d: u64 = digit_of(c) as u64;
        proof {
            let t = s.take(i - from + 1);
            assert(t.drop_last() =~= s.take(i - from));
            assert(t.last() == c);
            assert(digits_value(t) == n * 10 + d);
            lemma_digits_value_prefix(s, i - from + 1);
        }
        if d > limit || n > (limit - d) / 10 {
            return None;
        }
        n = n * 10 + d;
        i += 1;
    }
    assert(s.take(to - from) =~= s);
    Some(n)
}

/// The value of `pow10` on the exponents that occur.
proof fn lemma_pow10_small()
    ensures
        pow10(0) == 1,
        pow10(1) == 10,
        pow10(2) == 100,
        pow10(3) == 1_000,
        pow10(4) == 10_000,
{
    reveal_with_fuel(pow10, 5);
}

/// A number of `n` digits is less than ten to the power of `n`.
pub proof fn lemma_digits_value_bound(s: Seq<char>)
    requires
        all_digits(s),
    ensures
        digits_value(s) < pow10(s.len()),
    decreases s.len(),
{
    if s.len() > 0 {
        lemma_digits_value_bound(s.drop_last());
        assert(is_digit(s.last()));
    }
}

/// The price that the digits `v[from..mid]`, as the whole part, and
/// `v[frac..to]`, as the fraction, denote.
fn read_decimal(v: &Vec<char>, from: usize, mid: usize, frac: usize, to: usize) -> (r: Option<
    Price,
>)
    requires
        from <= mid <= frac <= to <= v.len(),
        all_digits(v@.subrange(from as int, mid as int)),
        all_digits(v@.subrange(frac as int, to as int)),
    ensures
        r == decimal(v@.subrange(from as int, mid as int), v@.subrange(frac as int, to as int)),
{
    let ghost w = v@.subrange(from as int, mid as int);
    let ghost f = v@.subrange(frac as int, to as int);
    if to - frac > FRACTION_DIGITS {
        return None;
    }
    proof {
        lemma_pow10_small();
        lemma_digits_value_bound(f);
    }
    let whole = match read_digits(v, from, mid, MAX_WHOLE) {
        Some(n) => n,
        None => {
            return None;
        },
    };
    let part = match read_digits(v, frac, to, 9_999) {
        Some(n) => n,
        None => {
            return None;
        },
    };
    let missing: usize = FRACTION_DIGITS - (to - frac);
    let factor: u64 = if missing == 0 {
        1
    } else if missing == 1 {
        10
    } else if missing == 2 {
        100
    } else if missing == 3 {
        1_000
    } else {
        10_000
    };
    assert(factor == pow10(missing as nat));
    assert(part * factor <= 9_999 * 10_000) by (nonlinear_arith)
        requires
            part <= 9_999,
            factor <= 10_000,
    ;
    let units: u64 = whole * 10_000 + part * factor;
    assert(units == decimal_units(w, f));
    if units > 9_223_372_036_854_775_807 {
        return None;
    }
    Some(Price { units: units as i64 })
}

/// The character that writes the digit `d`.
fn write_digit(d: u64) -> (c: char)
    requires
        d <= 9,
    ensures
        c == digit_char(d as nat),
{
    if d == 0 {
        '0'
    } else if d == 1 {
        '1'
    } else if d == 2 {
        '2'
    } else if d == 3 {
        '3'
    } else if d == 4 {
        '4'
    } else if d == 5 {
        '5'
    } else if d == 6 {
        '6'
    } else if d == 7 {
        '7'
    } else if d == 8 {
        '8'
    } else {
        '9'
    }
}

/// Appends the decimal digits of `n` to `out`.
fn write_nat(out: &mut String, n: u64)
    ensures
        final(out)@ == old(out)@ + nat_digits(n as nat),
    decreases n,
{
    if n >= 10 {
        write_nat(out, n / 10);
    }
    out.push(write_digit(n % 10));
}

/// Appends the digits of the fraction `f` to `out`.
fn write_fraction(out: &mut String, f: u64)
    requires
        0 < f < 10_000,
    ensures
        final(out)@ == old(out)@ + fraction_digits(f as nat),
{
    let thousandths: u64 = f / 10;
    let hundredths: u64 = thousandths / 10;
    let tenths: u64 = hundredths / 10;
    out.push(write_digit(tenths));
    if f % 10 != 0 || thousandths % 10 != 0 || hundredths % 10 != 0 {
        out.push(write_digit(hundredths % 10));
        if f % 10 != 0 || thousandths % 10 != 0 {
            out.push(write_digit(thousandths % 10));
            if f % 10 != 0 {
                out.push(write_digit(f % 10));
            }
        }
    }
}

impl Price {
    /// The price of `units` ten-thousandths.
    pub fn new(units: i64) -> (p: Price)
        ensures
            p.units == units,
    {
        Price { units }
    }

    /// Reads a text as a price: optionally a minus sign, then one or more
    /// digits, then nothing more or a `.` or `,` and one to four digits.
    /// Nothing else parses: not `+1`, `1.`, `.5` or `1e2`, not a decimal
    /// with more than four fractional digits, and not an amount too large
    /// to hold.
    pub fn parse(text: &str) -> (r: Option<Price>)
        ensures
            r == parsed_price(text@),
    {
        let v = to_chars(text);
        if v.len() > 0 && v[0] == '-' {
            assert(v@.subrange(1, v.len() as int) =~= v@.drop_first());
            match parse_unsigned(&v, 1) {
                Some(p) => Some(Price { units: -p.units }),
                None => None,
            }
        } else {
            assert(v@.subrange(0, v.len() as int) =~= v@);
            parse_unsigned(&v, 0)
        }
    }

    /// Writes the price as a decimal: the whole part, and a `.` and the
    /// fraction where there is one, without zeros at its end.
    pub fn to_string(&self) -> (s: String)
        ensures
            s@ == price_text(*self),
    {
        let mut s = String::new();
        let magnitude: u64 = if self.units < 0 {
            s.push('-');
            (-(self.units as i128)) as u64
        } else {
            self.units as u64
        };
        write_nat(&mut s, magnitude / 10_000);
        if magnitude % 10_000 != 0 {
            s.push('.');
            write_fraction(&mut s, magnitude % 10_000);
        }
        s
    }

    /// Whether this price, as a reported total, agrees with a computed total
    /// within [`TOLERANCE`].
    pub fn reconciles(&self, computed: i128) -> (r: bool)
        ensures
            r == reconciled(*self, computed as int),
    {
        let low: i128 = self.units as i128 - TOLERANCE as i128;
        let high: i128 = self.units as i128 + TOLERANCE as i128;
        low <= computed && computed <= high
    }
}

/// The unsigned price that `v[from..]` denotes as a whole.
fn parse_unsigned(v: &Vec<char>, from: usize) -> (r: Option<Price>)
    requires
        from <= v.len(),
    ensures
        r == unsigned_price(v@.subrange(from as int, v.len() as int)),
        r matches Some(p) ==> p.units >= 0,
{
    let ghost s = v@.subrange(from as int, v.len() as int);
    let w = find_digits_end(v, from);
    proof {
        lemma_digits_end(v@, from as int);
        lemma_digits_end_shift(v@, from as int, from as int);
    }
    if w == from {
        return None;
    }
    if w == v.len() {
        assert(s.subrange(0, s.len() as int) =~= s);
        assert(v@.subrange(w as int, w as int) =~= Seq::<char>::empty());
        return read_decimal(v, from, w, w, w);
    }
    assert(s[w - from] == v@[w as int]);
    if !is_separator(v[w]) || w + 1 >= v.len() {
        return None;
    }
    let e = find_digits_end(v, w + 1);
    proof {
        lemma_digits_end(v@, w + 1);
        lemma_digits_end_shift(v@, from as int, w + 1);
    }
    if e != v.len() {
        return None;
    }
    assert(s.subrange(0, w - from) =~= v@.subrange(from as int, w as int));
    assert(s.subrange(w + 1 - from, s.len() as int) =~= v@.subrange(w + 1, v.len() as int));
    read_decimal(v, from, w, w + 1, v.len())
}

/// Where a run of digits ends does not depend on how much text stands before it.
pub proof fn lemma_digits_end_shift(s: Seq<char>, cut: int, from: int)
    requires
        0 <= cut <= from <= s.len(),
    ensures
        digits_end(s.subrange(cut, s.len() as int), from - cut) == digits_end(s, from) - cut,
    decreases s.len() - from,
{
    let t = s.subrange(cut, s.len() as int);
    if from < s.len() {
        assert(t[from - cut] == s[from]);
        if is_digit(s[from]) {
            lemma_digits_end_shift(s, cut, from + 1);
        }
    }
}

/// The index of the first character of `v` at or after `from` that is no
/// decimal digit of any script.
pub fn find_number_end(v: &Vec<char>, from: usize) -> (end: usize)
    requires
        from <= v.len(),
    ensures
        end == number_end(v@, from as int),
        from <= end <= v.len(),
{
    let mut end: usize = from;
    while end < v.len() && is_decimal_digit(v[end])
        invariant
            from <= end <= v.len(),
            number_end(v@, end as int) == number_end(v@, from as int),
        decreases v.len() - end,
    {
        end += 1;
    }
    end
}

/// Whether every character of `v[from..to]` is one of `0` to `9`.
pub fn range_all_digits(v: &Vec<char>, from: usize, to: usize) -> (r: bool)
    requires
        from <= to <= v.len(),
    ensures
        r == all_digits(v@.subrange(from as int, to as int)),
{
    let ghost s = v@.subrange(from as int, to as int);
    let mut i: usize = from;
    while i < to
        invariant
            from <= i <= to <= v.len(),
            s == v@.subrange(from as int, to as int),
            forall|k: int| 0 <= k < i - from ==> is_digit(#[trigger] s[k]),
        decreases to - i,
    {
        if !is_digit(v[i]) {
            assert(!is_digit(s[i - from]));
            return false;
        }
        i += 1;
    }
    true
}

/// The price written first in `v`.
pub fn find_price(v: &Vec<char>) -> (r: Option<Price>)
    ensures
        r == price_of(v@),
{
    let mut i: usize = 0;
    while i < v.len()
        invariant
            i <= v.len(),
            price_start(v@, i as int) == price_start(v@, 0),
        decreases v.len() - i,
    {
        if is_decimal_digit(v[i]) {
            let j = find_number_end(v, i);
            proof {
                lemma_number_end(v@, i as int);
            }
            if j < v.len() && is_separator(v[j]) && j + 1 < v.len() && is_decimal_digit(v[j + 1]) {
                let k = find_number_end(v, j + 1);
                proof {
                    lemma_number_end(v@, j + 1);
                }
                assert(price_at(v@, i as int));
                if range_all_digits(v, i, j) && range_all_digits(v, j + 1, k) {
                    return read_decimal(v, i, j, j + 1, k);
                }
                return None;
            }
            assert(!price_at(v@, i as int));
        }
        i += 1;
    }
    None
}

} // verus!
