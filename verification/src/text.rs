//! Characters and character sequences: the vocabulary in which the rest of
//! the library states what it finds in a line of recognised text.
//!
//! Text is handled as a sequence of Unicode scalar values. White space is
//! what Unicode calls so. The digits that a number is read from are the ten
//! characters `0` to `9`; the digits and word characters that a line is
//! searched for are those of the pattern language of regular expressions:
//! within ASCII they are written out here, beyond it the `regex` crate is
//! asked. Every executable function here comes with a function on
//! sequences that says what it computes, and the contracts of the other
//! modules are written in those.

use vstd::prelude::*;

verus! {

/// A digit that a number is read from, `0` to `9`.
pub open spec fn spec_is_digit(c: char) -> bool {
    '0' <= c && c <= '9'
}

/// Whether `c` is one of `0` to `9`.
#[verifier::when_used_as_spec(spec_is_digit)]
pub fn is_digit(c: char) -> (r: bool)
    ensures
        r == spec_is_digit(c),
{
    c >= '0' && c <= '9'
}

/// The value of a decimal digit.
pub open spec fn digit_value(c: char) -> nat
    recommends
        is_digit(c),
{
    (c as u32 - '0' as u32) as nat
}

/// The value of a decimal digit.
pub fn digit_of(c: char) -> (r: u8)
    requires
        is_digit(c),
    ensures
        r as nat == digit_value(c),
        r <= 9,
{
    let code: u32 = c as u32;
    (code - 48) as u8
}

/// The two characters that may part the whole of a number from its fraction,
/// or the fields of a date.
pub open spec fn spec_is_separator(c: char) -> bool {
    c == '.' || c == ','
}

/// Whether `c` is `.` or `,`.
#[verifier::when_used_as_spec(spec_is_separator)]
pub fn is_separator(c: char) -> (r: bool)
    ensures
        r == spec_is_separator(c),
{
    c == '.' || c == ','
}

/// A character that marks a line as holding a number or a date.
pub open spec fn spec_is_delimiter(c: char) -> bool {
    c == ',' || c == '.' || c == ':' || c == '-'
}

/// Whether `c` is one of `,` `.` `:` `-`.
#[verifier::when_used_as_spec(spec_is_delimiter)]
pub fn is_delimiter(c: char) -> (r: bool)
    ensures
        r == spec_is_delimiter(c),
{
    c == ',' || c == '.' || c == ':' || c == '-'
}

/// White space in Unicode's sense: the twenty-five code points that Unicode
/// marks as `White_Space`.
pub open spec fn spec_is_whitespace(c: char) -> bool {
    let u = c as u32;
    ||| 0x09 <= u <= 0x0D
    ||| u == 0x20
    ||| u == 0x85
    ||| u == 0xA0
    ||| u == 0x1680
    ||| 0x2000 <= u <= 0x200A
    ||| u == 0x2028
    ||| u == 0x2029
    ||| u == 0x202F
    ||| u == 0x205F
    ||| u == 0x3000
}

/// Whether `c` is white space.
#[verifier::when_used_as_spec(spec_is_whitespace)]
pub fn is_whitespace(c: char) -> (r: bool)
    ensures
        r == spec_is_whitespace(c),
{
    let u: u32 = c as u32;
    (0x09 <= u && u <= 0x0D) || u == 0x20 || u == 0x85 || u == 0xA0 || u == 0x1680 || (0x2000 <= u
        && u <= 0x200A) || u == 0x2028 || u == 0x2029 || u == 0x202F || u == 0x205F || u == 0x3000
}

/// Whether `c` is one of the 128 characters of ASCII.
pub open spec fn spec_is_ascii(c: char) -> bool {
    (c as u32) < 0x80
}

/// Whether `c` is one of the 128 characters of ASCII.
#[verifier::when_used_as_spec(spec_is_ascii)]
pub fn is_ascii(c: char) -> (r: bool)
    ensures
        r == spec_is_ascii(c),
{
    (c as u32) < 0x80
}

/// Whether the pattern `pattern`, as a regular expression, matches somewhere
/// in `text`; false of a pattern that is no regular expression.
pub uninterp spec fn regex_is_match(pattern: Seq<char>, text: Seq<char>) -> bool;

/// `regex::Regex::is_match`, on the expression that `regex::Regex::new`
/// makes of the pattern, tells whether the pattern matches somewhere in the
/// text. The answer depends on the pattern and the text alone; what it is for
/// a given pattern and text is not stated here. A pattern that is refused
/// matches nothing.
#[verifier::external_body]
fn pattern_matches(pattern: &str, text: &str) -> (r: bool)
    ensures
        r == regex_is_match(pattern@, text@),
{
    match regex::Regex::new(pattern) {
        Ok(expression) => expression.is_match(text),
        Err(_) => false,
    }
}

/// Whether the pattern `pattern` matches the text of the one character `c`.
fn matches_char(pattern: &str, c: char) -> (r: bool)
    ensures
        r == regex_is_match(pattern@, seq![c]),
{
    let mut text = String::new();
    text.push(c);
    assert(text@ =~= seq![c]);
    pattern_matches(pattern, text.as_str())
}

/// The pattern that a decimal digit matches, and nothing else.
pub open spec fn digit_pattern() -> Seq<char> {
    "^\\d$"@
}

/// The pattern that a word character matches, and nothing else.
pub open spec fn word_pattern() -> Seq<char> {
    "^\\w$"@
}

/// A decimal digit of any script: within ASCII one of `0` to `9`, beyond it
/// whatever the pattern language calls a digit.
pub open spec fn spec_is_decimal_digit(c: char) -> bool {
    if is_ascii(c) {
        is_digit(c)
    } else {
        regex_is_match(digit_pattern(), seq![c])
    }
}

/// Whether `c` is a decimal digit of any script.
#[verifier::when_used_as_spec(spec_is_decimal_digit)]
pub fn is_decimal_digit(c: char) -> (r: bool)
    ensures
        r == spec_is_decimal_digit(c),
{
    if is_ascii(c) {
        is_digit(c)
    } else {
        matches_char("^\\d$", c)
    }
}

/// One of the letters `a` to `z` and `A` to `Z`.
pub open spec fn spec_is_ascii_letter(c: char) -> bool {
    ('a' <= c && c <= 'z') || ('A' <= c && c <= 'Z')
}

/// Whether `c` is one of the letters `a` to `z` and `A` to `Z`.
#[verifier::when_used_as_spec(spec_is_ascii_letter)]
pub fn is_ascii_letter(c: char) -> (r: bool)
    ensures
        r == spec_is_ascii_letter(c),
{
    (c >= 'a' && c <= 'z') || (c >= 'A' && c <= 'Z')
}

/// A character that may stand in a word: within ASCII a letter, a digit or
/// an underscore, beyond it whatever the pattern language calls a word
/// character.
pub open spec fn spec_is_word_char(c: char) -> bool {
    if is_ascii(c) {
        is_ascii_letter(c) || is_digit(c) || c == '_'
    } else {
        regex_is_match(word_pattern(), seq![c])
    }
}

/// Whether `c` is a word character.
#[verifier::when_used_as_spec(spec_is_word_char)]
pub fn is_word_char(c: char) -> (r: bool)
    ensures
        r == spec_is_word_char(c),
{
    if is_ascii(c) {
        is_ascii_letter(c) || is_digit(c) || c == '_'
    } else {
        matches_char("^\\w$", c)
    }
}

/// The characters of a string slice, in order.
pub fn to_chars(s: &str) -> (v: Vec<char>)
    ensures
        v@ == s@,
{
    let mut v: Vec<char> = Vec::new();
    for c in it: s.chars()
        invariant
            v@ == it.seq().take(it.index() as int),
            it.seq() == s@,
    {
        v.push(c);
    }
    v
}

/// A copy of the characters `v[from..to]`.
pub fn copy_range(v: &Vec<char>, from: usize, to: usize) -> (r: Vec<char>)
    requires
        from <= to <= v.len(),
    ensures
        r@ == v@.subrange(from as int, to as int),
{
    let mut r: Vec<char> = Vec::new();
    let mut i: usize = from;
    while i < to
        invariant
            from <= i <= to <= v.len(),
            r@ == v@.subrange(from as int, i as int),
        decreases to - i,
    {
        r.push(v[i]);
        i += 1;
    }
    r
}

/// `String::push` of the standard library appends one character.
pub assume_specification[ String::push ](s: &mut String, c: char)
    ensures
        final(s)@ == old(s)@.push(c),
;

/// The string made of the characters `v[from..to]`.
pub fn to_string_range(v: &Vec<char>, from: usize, to: usize) -> (s: String)
    requires
        from <= to <= v.len(),
    ensures
        s@ == v@.subrange(from as int, to as int),
{
    let mut s = String::new();
    let mut i: usize = from;
    while i < to
        invariant
            from <= i <= to <= v.len(),
            s@ == v@.subrange(from as int, i as int),
        decreases to - i,
    {
        s.push(v[i]);
        i += 1;
    }
    s
}

/// The string made of the characters of `v`.
pub fn to_string(v: &Vec<char>) -> (s: String)
    ensures
        s@ == v@,
{
    let s = to_string_range(v, 0, v.len());
    assert(v@.subrange(0, v.len() as int) == v@);
    s
}

/// Whether some character of `s` is a decimal digit of any script.
pub open spec fn has_digit(s: Seq<char>) -> bool {
    exists|i: int| 0 <= i < s.len() && is_decimal_digit(#[trigger] s[i])
}

/// Whether some character of `s` is a delimiter.
pub open spec fn has_delimiter(s: Seq<char>) -> bool {
    exists|i: int| 0 <= i < s.len() && is_delimiter(#[trigger] s[i])
}

/// Whether `v[from..to]` holds a decimal digit.
pub fn range_has_digit(v: &Vec<char>, from: usize, to: usize) -> (r: bool)
    requires
        from <= to <= v.len(),
    ensures
        r == has_digit(v@.subrange(from as int, to as int)),
{
    let ghost s = v@.subrange(from as int, to as int);
    let mut i: usize = from;
    while i < to
        invariant
            from <= i <= to <= v.len(),
            s == v@.subrange(from as int, to as int),
            forall|k: int| 0 <= k < i - from ==> !is_decimal_digit(#[trigger] s[k]),
        decreases to - i,
    {
        if is_decimal_digit(v[i]) {
            assert(is_decimal_digit(s[i - from]));
            return true;
        }
        i += 1;
    }
    false
}

/// Whether `v[from..to]` holds a delimiter.
pub fn range_has_delimiter(v: &Vec<char>, from: usize, to: usize) -> (r: bool)
    requires
        from <= to <= v.len(),
    ensures
        r == has_delimiter(v@.subrange(from as int, to as int)),
{
    let ghost s = v@.subrange(from as int, to as int);
    let mut i: usize = from;
    while i < to
        invariant
            from <= i <= to <= v.len(),
            s == v@.subrange(from as int, to as int),
            forall|k: int| 0 <= k < i - from ==> !is_delimiter(#[trigger] s[k]),
        decreases to - i,
    {
        if is_delimiter(v[i]) {
            assert(is_delimiter(s[i - from]));
            return true;
        }
        i += 1;
    }
    false
}

/// Whether `needle` stands in `hay` at index `at`.
pub open spec fn occurs_at(hay: Seq<char>, needle: Seq<char>, at: int) -> bool {
    &&& 0 <= at
    &&& at + needle.len() <= hay.len()
    &&& hay.subrange(at, at + needle.len()) == needle
}

/// Whether `needle` is a substring of `hay`. The empty sequence is a
/// substring of every sequence.
pub open spec fn occurs_in(hay: Seq<char>, needle: Seq<char>) -> bool {
    exists|at: int| occurs_at(hay, needle, at)
}

/// Whether `needle` stands in `hay` at index `at`.
pub fn matches_at(hay: &Vec<char>, needle: &Vec<char>, at: usize) -> (r: bool)
    ensures
        r == occurs_at(hay@, needle@, at as int),
{
    if needle.len() > hay.len() || at > hay.len() - needle.len() {
        return false;
    }
    let ghost window = hay@.subrange(at as int, at + needle.len());
    let mut k: usize = 0;
    while k < needle.len()
        invariant
            k <= needle.len(),
            at + needle.len() <= hay.len(),
            window == hay@.subrange(at as int, at + needle.len()),
            forall|j: int| 0 <= j < k ==> window[j] == needle@[j],
        decreases needle.len() - k,
    {
        if hay[at + k] != needle[k] {
            assert(window[k as int] != needle@[k as int]);
            return false;
        }
        k += 1;
    }
    assert(window =~= needle@);
    true
}

/// Whether `needle` is a substring of `hay`.
pub fn contains(hay: &Vec<char>, needle: &Vec<char>) -> (r: bool)
    ensures
        r == occurs_in(hay@, needle@),
{
    if needle.len() > hay.len() {
        return false;
    }
    let last: usize = hay.len() - needle.len();
    let mut at: usize = 0;
    loop
        invariant
            last == hay.len() - needle.len(),
            at <= last,
            forall|j: int| 0 <= j < at ==> !occurs_at(hay@, needle@, j),
        decreases last - at,
    {
        if matches_at(hay, needle, at) {
            return true;
        }
        if at == last {
            return false;
        }
        at += 1;
    }
}

/// Whether some member of `needles` is a substring of `hay`.
pub open spec fn occurs_any(hay: Seq<char>, needles: Seq<Seq<char>>) -> bool {
    exists|k: int| 0 <= k < needles.len() && occurs_in(hay, #[trigger] needles[k])
}

/// Whether some member of `needles` is a substring of `hay`.
pub fn contains_any(hay: &Vec<char>, needles: &Vec<String>) -> (r: bool)
    ensures
        r == occurs_any(hay@, needles.deep_view()),
{
    let ghost ns = needles.deep_view();
    let mut k: usize = 0;
    while k < needles.len()
        invariant
            k <= needles.len(),
            ns == needles.deep_view(),
            ns.len() == needles.len(),
            forall|j: int| 0 <= j < k ==> !occurs_in(hay@, #[trigger] ns[j]),
        decreases needles.len() - k,
    {
        let needle = to_chars(needles[k].as_str());
        assert(ns[k as int] == needles@[k as int]@);
        if contains(hay, &needle) {
            return true;
        }
        k += 1;
    }
    false
}

/// The index of the first member of `names` at or after `from` that equals
/// `x`, or -1 where there is none.
pub open spec fn index_of_from(names: Seq<Seq<char>>, x: Seq<char>, from: int) -> int
    decreases names.len() - from,
{
    if 0 <= from < names.len() {
        if names[from] == x {
            from
        } else {
            index_of_from(names, x, from + 1)
        }
    } else {
        -1
    }
}

/// The index of the first member of `names` that equals `x`, or -1.
pub open spec fn index_of(names: Seq<Seq<char>>, x: Seq<char>) -> int {
    index_of_from(names, x, 0)
}

/// What `index_of_from` finds is the first member equal to `x`, and it finds
/// one wherever there is one.
pub proof fn lemma_index_of_from(names: Seq<Seq<char>>, x: Seq<char>, from: int)
    requires
        0 <= from <= names.len(),
    ensures
        index_of_from(names, x, from) == -1 || from <= index_of_from(names, x, from) < names.len(),
        index_of_from(names, x, from) >= 0 ==> names[index_of_from(names, x, from)] == x,
        forall|k: int|
            from <= k < names.len() && (index_of_from(names, x, from) == -1 || k < index_of_from(
                names,
                x,
                from,
            )) ==> #[trigger] names[k] != x,
    decreases names.len() - from,
{
    if from < names.len() && names[from] != x {
        lemma_index_of_from(names, x, from + 1);
    }
}

/// `index_of` finds a member exactly where `names` contains `x`.
pub proof fn lemma_index_of_contains(names: Seq<Seq<char>>, x: Seq<char>)
    ensures
        index_of(names, x) >= 0 <==> names.contains(x),
        index_of(names, x) >= 0 ==> index_of(names, x) < names.len() && names[index_of(names, x)]
            == x,
{
    lemma_index_of_from(names, x, 0);
    if names.contains(x) {
        let k = choose|k: int| 0 <= k < names.len() && names[k] == x;
        assert(names[k] == x);
    }
}

/// The index of the first member of `names` that equals `x`.
pub fn position(names: &Vec<String>, x: &str) -> (r: Option<usize>)
    ensures
        match r {
            Some(i) => i == index_of(names.deep_view(), x@) && i < names.len()
                && names.deep_view()[i as int] == x@,
            None => index_of(names.deep_view(), x@) == -1,
        },
        r is Some <==> names.deep_view().contains(x@),
{
    let ghost ns = names.deep_view();
    let wanted = to_chars(x);
    let mut i: usize = 0;
    proof {
        lemma_index_of_contains(ns, x@);
    }
    while i < names.len()
        invariant
            i <= names.len(),
            ns == names.deep_view(),
            wanted@ == x@,
            index_of_from(ns, x@, i as int) == index_of(ns, x@),
        decreases names.len() - i,
    {
        assert(ns[i as int] == names@[i as int]@);
        let name = to_chars(names[i].as_str());
        if same_text(&name, &wanted) {
            return Some(i);
        }
        i += 1;
    }
    None
}

/// Whether two texts are the same.
pub fn same_text(a: &Vec<char>, b: &Vec<char>) -> (r: bool)
    ensures
        r == (a@ == b@),
{
    if a.len() != b.len() {
        return false;
    }
    let mut i: usize = 0;
    while i < a.len()
        invariant
            i <= a.len(),
            a.len() == b.len(),
            forall|k: int| 0 <= k < i ==> a@[k] == b@[k],
        decreases a.len() - i,
    {
        if a[i] != b[i] {
            return false;
        }
        i += 1;
    }
    assert(a@ =~= b@);
    true
}

/// The index of the first character at or after `from` that is not white
/// space, or the length of `s` where there is none.
pub open spec fn skip_whitespace(s: Seq<char>, from: int) -> int
    decreases s.len() - from,
{
    if 0 <= from < s.len() && is_whitespace(s[from]) {
        skip_whitespace(s, from + 1)
    } else {
        from
    }
}

/// The end of the text that is left of `s[..to]` once the white space at its
/// end is dropped, never less than `floor`.
pub open spec fn drop_whitespace(s: Seq<char>, floor: int, to: int) -> int
    decreases to,
{
    if floor < to && 0 < to <= s.len() && is_whitespace(s[to - 1]) {
        drop_whitespace(s, floor, to - 1)
    } else {
        to
    }
}

/// Where the trimmed text starts in `s`.
pub open spec fn trim_start(s: Seq<char>) -> int {
    skip_whitespace(s, 0)
}

/// Where the trimmed text ends in `s`.
pub open spec fn trim_end(s: Seq<char>) -> int {
    drop_whitespace(s, trim_start(s), s.len() as int)
}

/// `s` without the white space at its two ends.
pub open spec fn trim(s: Seq<char>) -> Seq<char> {
    s.subrange(trim_start(s), trim_end(s))
}

/// The bounds of `skip_whitespace`, and what lies on either side of its result.
pub proof fn lemma_skip_whitespace(s: Seq<char>, from: int)
    requires
        0 <= from <= s.len(),
    ensures
        from <= skip_whitespace(s, from) <= s.len(),
        forall|i: int| from <= i < skip_whitespace(s, from) ==> is_whitespace(#[trigger] s[i]),
        skip_whitespace(s, from) < s.len() ==> !is_whitespace(s[skip_whitespace(s, from)]),
    decreases s.len() - from,
{
    if from < s.len() && is_whitespace(s[from]) {
        lemma_skip_whitespace(s, from + 1);
    }
}

/// The bounds of `drop_whitespace`, and what lies on either side of its result.
pub proof fn lemma_drop_whitespace(s: Seq<char>, floor: int, to: int)
    requires
        0 <= floor <= to <= s.len(),
    ensures
        floor <= drop_whitespace(s, floor, to) <= to,
        forall|i: int| drop_whitespace(s, floor, to) <= i < to ==> is_whitespace(#[trigger] s[i]),
        floor < drop_whitespace(s, floor, to) ==> !is_whitespace(
            s[drop_whitespace(s, floor, to) - 1],
        ),
    decreases to,
{
    if floor < to && is_whitespace(s[to - 1]) {
        lemma_drop_whitespace(s, floor, to - 1);
    }
}

/// Trimming cuts white space off the two ends of a text, all of it and
/// nothing else: what is cut is white space, and what is left neither
/// starts nor ends with white space.
pub proof fn lemma_trim(s: Seq<char>)
    ensures
        0 <= trim_start(s) <= trim_end(s) <= s.len(),
        forall|i: int| 0 <= i < trim_start(s) ==> is_whitespace(#[trigger] s[i]),
        forall|i: int| trim_end(s) <= i < s.len() ==> is_whitespace(#[trigger] s[i]),
        trim(s).len() > 0 ==> !is_whitespace(trim(s).first()) && !is_whitespace(trim(s).last()),
{
    lemma_skip_whitespace(s, 0);
    lemma_drop_whitespace(s, trim_start(s), s.len() as int);
}

/// The bounds `(a, b)` of the trimmed part of `v[from..to]`, as indices into `v`.
pub fn trim_range(v: &Vec<char>, from: usize, to: usize) -> (r: (usize, usize))
    requires
        from <= to <= v.len(),
    ensures
        from <= r.0 <= r.1 <= to,
        r.0 - from == trim_start(v@.subrange(from as int, to as int)),
        r.1 - from == trim_end(v@.subrange(from as int, to as int)),
        v@.subrange(r.0 as int, r.1 as int) == trim(v@.subrange(from as int, to as int)),
{
    let ghost s = v@.subrange(from as int, to as int);
    let mut a: usize = from;
    while a < to && is_whitespace(v[a])
        invariant
            from <= a <= to <= v.len(),
            s == v@.subrange(from as int, to as int),
            skip_whitespace(s, a - from) == skip_whitespace(s, 0),
        decreases to - a,
    {
        assert(s[a - from] == v@[a as int]);
        a += 1;
    }
    assert(skip_whitespace(s, a - from) == a - from) by {
        if a < to {
            assert(s[a - from] == v@[a as int]);
        }
    }
    let mut b: usize = to;
    while b > a && is_whitespace(v[b - 1])
        invariant
            from <= a <= b <= to <= v.len(),
            s == v@.subrange(from as int, to as int),
            drop_whitespace(s, a - from, b - from) == drop_whitespace(s, a - from, s.len() as int),
        decreases b,
    {
        assert(s[b - 1 - from] == v@[b - 1]);
        b -= 1;
    }
    assert(drop_whitespace(s, a - from, b - from) == b - from) by {
        if b > a {
            assert(s[b - 1 - from] == v@[b - 1]);
        }
    }
    assert(v@.subrange(a as int, b as int) =~= s.subrange(a - from, b - from));
    (a, b)
}

/// The index of the last occurrence of `c` in `s[..to]`, or -1 where there is none.
pub open spec fn last_index_of(s: Seq<char>, c: char, to: int) -> int
    decreases to,
{
    if 0 < to <= s.len() {
        if s[to - 1] == c {
            to - 1
        } else {
            last_index_of(s, c, to - 1)
        }
    } else {
        -1
    }
}

/// What `last_index_of` finds is the last occurrence, and no other.
pub proof fn lemma_last_index_of(s: Seq<char>, c: char, to: int)
    requires
        0 <= to <= s.len(),
    ensures
        -1 <= last_index_of(s, c, to) < to,
        last_index_of(s, c, to) >= 0 ==> s[last_index_of(s, c, to)] == c,
        forall|i: int| last_index_of(s, c, to) < i < to ==> #[trigger] s[i] != c,
    decreases to,
{
    if 0 < to && s[to - 1] != c {
        lemma_last_index_of(s, c, to - 1);
    }
}

/// The index of the last occurrence of `c` in `v[from..to]`, counted from
/// `from`, if there is one.
pub fn find_last(v: &Vec<char>, c: char, from: usize, to: usize) -> (r: Option<usize>)
    requires
        from <= to <= v.len(),
    ensures
        match r {
            Some(i) => i == last_index_of(v@.subrange(from as int, to as int), c, to - from),
            None => last_index_of(v@.subrange(from as int, to as int), c, to - from) == -1,
        },
{
    let ghost s = v@.subrange(from as int, to as int);
    let mut j: usize = to;
    while j > from
        invariant
            from <= j <= to <= v.len(),
            s == v@.subrange(from as int, to as int),
            last_index_of(s, c, j - from) == last_index_of(s, c, to - from),
        decreases j,
    {
        assert(s[j - 1 - from] == v@[j - 1]);
        if v[j - 1] == c {
            return Some(j - 1 - from);
        }
        j -= 1;
    }
    None
}

/// The part of `s` that follows its last space; all of `s` where it holds none.
pub open spec fn last_token(s: Seq<char>) -> Seq<char> {
    s.subrange(last_index_of(s, ' ', s.len() as int) + 1, s.len() as int)
}

/// The index of the first line feed in `s` at or after `from`, or the length
/// of `s` where there is none.
pub open spec fn line_end(s: Seq<char>, from: int) -> int
    decreases s.len() - from,
{
    if 0 <= from < s.len() && s[from] != '\n' {
        line_end(s, from + 1)
    } else {
        from
    }
}

/// The bounds of `line_end`, and what lies before its result.
pub proof fn lemma_line_end(s: Seq<char>, from: int)
    requires
        0 <= from <= s.len(),
    ensures
        from <= line_end(s, from) <= s.len(),
        forall|i: int| from <= i < line_end(s, from) ==> #[trigger] s[i] != '\n',
        line_end(s, from) < s.len() ==> s[line_end(s, from)] == '\n',
    decreases s.len() - from,
{
    if from < s.len() && s[from] != '\n' {
        lemma_line_end(s, from + 1);
    }
}

/// The lines of `s` from index `from` on: the pieces between line feeds, the
/// last of which runs to the end of `s`.
pub open spec fn lines_from(s: Seq<char>, from: int) -> Seq<Seq<char>>
    recommends
        0 <= from <= s.len(),
    decreases s.len() - from,
    when 0 <= from <= s.len()
    via lines_from_decreases
{
    let end = line_end(s, from);
    if end < s.len() {
        seq![s.subrange(from, end)] + lines_from(s, end + 1)
    } else {
        seq![s.subrange(from, s.len() as int)]
    }
}

/// The recursion of `lines_from` ends: the next line starts further on.
#[via_fn]
proof fn lines_from_decreases(s: Seq<char>, from: int) {
    lemma_line_end(s, from);
}

/// The lines of `s`. A text without a line feed is one line; a text that ends
/// in a line feed has an empty last line.
pub open spec fn lines(s: Seq<char>) -> Seq<Seq<char>> {
    lines_from(s, 0)
}

/// The index of the first line feed in `v` at or after `from`, or `v.len()`.
pub fn find_line_end(v: &Vec<char>, from: usize) -> (end: usize)
    requires
        from <= v.len(),
    ensures
        end == line_end(v@, from as int),
        from <= end <= v.len(),
{
    let mut end: usize = from;
    while end < v.len() && v[end] != '\n'
        invariant
            from <= end <= v.len(),
            line_end(v@, end as int) == line_end(v@, from as int),
        decreases v.len() - end,
    {
        end += 1;
    }
    end
}

} // verus!
