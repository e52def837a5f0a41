//! Pulling one field out of one line: a date, the name of a product, a price.
//!
//! Each function answers with `None` where the line does not hold the field;
//! a miss is an ordinary outcome.

use crate::price::{find_price, price_of, Price};
use crate::text::{
    find_last, is_decimal_digit, is_separator, last_index_of, to_chars, to_string_range,
};
use vstd::prelude::*;

verus! {

/// The length of a written date: two digits, a separator, two digits, a
/// separator, four digits.
pub const DATE_LENGTH: usize = 10;

/// Whether a date is written in `s` from index `at`.
pub open spec fn date_at(s: Seq<char>, at: int) -> bool {
    &&& 0 <= at
    &&& at + 10 <= s.len()
    &&& is_decimal_digit(s[at])
    &&& is_decimal_digit(s[at + 1])
    &&& is_separator(s[at + 2])
    &&& is_decimal_digit(s[at + 3])
    &&& is_decimal_digit(s[at + 4])
    &&& is_separator(s[at + 5])
    &&& is_decimal_digit(s[at + 6])
    &&& is_decimal_digit(s[at + 7])
    &&& is_decimal_digit(s[at + 8])
    &&& is_decimal_digit(s[at + 9])
}

/// The first index at or after `from` at which a date is written, if any.
pub open spec fn date_start(s: Seq<char>, from: int) -> Option<int>
    decreases s.len() - from,
{
    if 0 <= from < s.len() {
        if date_at(s, from) {
            Some(from)
        } else {
            date_start(s, from + 1)
        }
    } else {
        None
    }
}

/// What `date_start` finds is the leftmost place where a date is written.
pub proof fn lemma_date_start(s: Seq<char>, from: int)
    requires
        0 <= from <= s.len(),
    ensures
        match date_start(s, from) {
            Some(i) => from <= i && date_at(s, i) && forall|k: int|
                from <= k < i ==> !date_at(s, k),
            None => forall|k: int| from <= k ==> !date_at(s, k),
        },
    decreases s.len() - from,
{
    if from < s.len() && !date_at(s, from) {
        lemma_date_start(s, from + 1);
    }
}

/// The date written first in a line, as it stands there.
pub open spec fn date_of(s: Seq<char>) -> Option<Seq<char>> {
    match date_start(s, 0) {
        Some(i) => Some(s.subrange(i, i + 10)),
        None => None,
    }
}

/// The name on a line: what stands before its last space. `None` where the
/// line holds no space.
pub open spec fn name_of(s: Seq<char>) -> Option<Seq<char>> {
    let i = last_index_of(s, ' ', s.len() as int);
    if i >= 0 {
        Some(s.subrange(0, i))
    } else {
        None
    }
}

/// Whether a date is written in `v` from index `at`.
fn is_date_at(v: &Vec<char>, at: usize) -> (r: bool)
    requires
        at <= v.len(),
    ensures
        r == date_at(v@, at as int),
{
    if v.len() - at < DATE_LENGTH {
        return false;
    }
    is_decimal_digit(v[at]) && is_decimal_digit(v[at + 1]) && is_separator(v[at + 2]) && is_decimal_digit(v[at + 3])
        && is_decimal_digit(v[at + 4]) && is_separator(v[at + 5]) && is_decimal_digit(v[at + 6]) && is_decimal_digit(
        v[at + 7],
    ) && is_decimal_digit(v[at + 8]) && is_decimal_digit(v[at + 9])
}

/// The date written first in `v`.
pub fn find_date(v: &Vec<char>) -> (r: Option<String>)
    ensures
        r.deep_view() == date_of(v@),
{
    let mut i: usize = 0;
    while i < v.len()
        invariant
            i <= v.len(),
            date_start(v@, i as int) == date_start(v@, 0),
        decreases v.len() - i,
    {
        if is_date_at(v, i) {
            return Some(to_string_range(v, i, i + DATE_LENGTH));
        }
        i += 1;
    }
    None
}

/// The name written in `v`.
pub fn find_name(v: &Vec<char>) -> (r: Option<String>)
    ensures
        r.deep_view() == name_of(v@),
{
    assert(v@.subrange(0, v.len() as int) =~= v@);
    match find_last(v, ' ', 0, v.len()) {
        Some(i) => {
            proof {
                crate::text::lemma_last_index_of(v@, ' ', v.len() as int);
            }
            Some(to_string_range(v, 0, i))
        },
        None => None,
    }
}

/// The first date in a line: the leftmost ten characters that read two
/// digits, `.` or `,`, two digits, `.` or `,`, four digits, returned as they
/// stand.
pub fn extract_date(line: &str) -> (r: Option<String>)
    ensures
        r.deep_view() == date_of(line@),
{
    let v = to_chars(line);
    find_date(&v)
}

/// The product name in a line: the line up to its last space, so without its
/// last token. `None` where the line holds no space.
pub fn extract_name(line: &str) -> (r: Option<String>)
    ensures
        r.deep_view() == name_of(line@),
{
    let v = to_chars(line);
    find_name(&v)
}

/// The first price in a line: the leftmost text that reads digits, `.` or
/// `,`, digits. `None` where there is none, and where that text is no amount
/// that a [`Price`] holds: where it has more than four fractional digits, or
/// is too large.
pub fn extract_price(line: &str) -> (r: Option<Price>)
    ensures
        r == price_of(line@),
{
    let v = to_chars(line);
    find_price(&v)
}

} // verus!
