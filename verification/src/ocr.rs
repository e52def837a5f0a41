//! Recognised lines: sorting the raw text of a receipt into the lines worth
//! keeping, and tagging them.

use crate::list::{ListState, ListView};
use crate::text::{
    contains_any, copy_range, find_last, find_line_end, has_delimiter, has_digit, is_word_char,
    last_token, lemma_last_index_of, lemma_line_end, lines, lines_from,
    occurs_any, range_has_delimiter, range_has_digit, to_chars, to_string, trim, trim_range,
};
use vstd::prelude::*;

verus! {

/// The role a recognised line plays in a receipt.
#[derive(Clone, Copy, Debug, PartialEq, Eq, Structural)]
pub enum OcrType {
    /// The line holds the date of the receipt.
    Date,
    /// The line holds one item and its price.
    Entry,
    /// The line holds the total.
    Sum,
}

/// One recognised line and its tag.
#[derive(Clone, Debug, PartialEq, Eq)]
pub struct OcrEntry {
    pub name: String,
    pub ocr_type: OcrType,
}

/// What an [`OcrEntry`] stands for: a text and a tag.
pub struct OcrLine {
    pub text: Seq<char>,
    pub tag: OcrType,
}

impl View for OcrEntry {
    type V = OcrLine;

    open spec fn view(&self) -> OcrLine {
        OcrLine { text: self.name@, tag: self.ocr_type }
    }
}

impl DeepView for OcrEntry {
    type V = OcrLine;

    open spec fn deep_view(&self) -> OcrLine {
        self@
    }
}

impl OcrEntry {
    /// A line with the given text and tag.
    pub fn new(name: &str, ocr_type: OcrType) -> (e: OcrEntry)
        ensures
            e@ == (OcrLine { text: name@, tag: ocr_type }),
    {
        OcrEntry { name: name.to_owned(), ocr_type }
    }

    /// A copy of this line.
    pub fn duplicate(&self) -> (e: OcrEntry)
        ensures
            e@ == self@,
    {
        OcrEntry { name: self.name.clone(), ocr_type: self.ocr_type }
    }
}

/// The recognised lines, and the cursor on them.
#[derive(Clone, Debug)]
pub struct OcrList {
    pub items: Vec<OcrEntry>,
    pub state: ListState,
}

impl View for OcrList {
    type V = ListView<OcrLine>;

    open spec fn view(&self) -> ListView<OcrLine> {
        ListView { items: self.items.deep_view(), state: self.state }
    }
}

/// The text of the line that stands in the list while recognition runs.
pub open spec fn placeholder_text() -> Seq<char> {
    "Processing.."@
}

/// A trimmed line without the stray single character that recognition
/// sometimes leaves at the end: where the line ends in a space and one word
/// character, both are dropped.
pub open spec fn strip_stray(t: Seq<char>) -> Seq<char> {
    if t.len() >= 2 {
        t.subrange(0, stray_cut(t, is_word_char(t.last())))
    } else {
        t
    }
}

/// Where a line of two characters or more is cut, given whether its last
/// character is a word character: before the space that stands before a
/// last word character, else at its end.
pub open spec fn stray_cut(t: Seq<char>, word: bool) -> int
    recommends
        t.len() >= 2,
{
    if t[t.len() - 2] == ' ' && word {
        t.len() - 2
    } else {
        t.len() as int
    }
}

/// Whether a line has the shape of a line worth keeping: its last token
/// holds a digit, and it holds a delimiter.
pub open spec fn well_shaped(line: Seq<char>) -> bool {
    has_digit(last_token(line)) && has_delimiter(line)
}

/// What is kept of one raw line: the trimmed line without a stray last
/// character, where the trimmed line is longer than one character and what
/// is left of it is well shaped and holds nothing of the blacklist.
pub open spec fn classified(raw: Seq<char>, blacklist: Seq<Seq<char>>) -> Option<Seq<char>> {
    let t = trim(raw);
    let n = strip_stray(t);
    if t.len() > 1 && well_shaped(n) && !occurs_any(n, blacklist) {
        Some(n)
    } else {
        None
    }
}

/// The lines kept of a sequence of raw lines, in their order, each tagged as
/// an entry.
pub open spec fn classified_lines(raws: Seq<Seq<char>>, blacklist: Seq<Seq<char>>) -> Seq<
    OcrLine,
>
    decreases raws.len(),
{
    if raws.len() == 0 {
        Seq::empty()
    } else {
        let rest = classified_lines(raws.drop_first(), blacklist);
        match classified(raws[0], blacklist) {
            Some(n) => seq![OcrLine { text: n, tag: OcrType::Entry }] + rest,
            None => rest,
        }
    }
}

/// The lines kept of a recognised text.
pub open spec fn classified_text(text: Seq<char>, blacklist: Seq<Seq<char>>) -> Seq<OcrLine> {
    classified_lines(lines(text), blacklist)
}

/// Whether a line may stay in the list: it is well shaped, holds nothing of
/// the blacklist and is tagged as an entry.
pub open spec fn fresh_line(line: OcrLine, blacklist: Seq<Seq<char>>) -> bool {
    &&& has_delimiter(line.text)
    &&& has_digit(last_token(line.text))
    &&& !occurs_any(line.text, blacklist)
    &&& line.tag == OcrType::Entry
}

/// Every line that classification keeps holds a delimiter, has a last token
/// with a digit in it, and holds no entry of the blacklist.
pub proof fn lemma_classified_lines_are_fresh(raws: Seq<Seq<char>>, blacklist: Seq<Seq<char>>)
    ensures
        forall|i: int|
            0 <= i < classified_lines(raws, blacklist).len() ==> fresh_line(
                #[trigger] classified_lines(raws, blacklist)[i],
                blacklist,
            ),
    decreases raws.len(),
{
    if raws.len() > 0 {
        lemma_classified_lines_are_fresh(raws.drop_first(), blacklist);
        let rest = classified_lines(raws.drop_first(), blacklist);
        let all = classified_lines(raws, blacklist);
        assert forall|i: int| 0 <= i < all.len() implies fresh_line(#[trigger] all[i], blacklist) by {
            match classified(raws[0], blacklist) {
                Some(n) => {
                    if i > 0 {
                        assert(all[i] == rest[i - 1]);
                    }
                },
                None => {},
            }
        }
    }
}

/// The lines of `lines` that hold no entry of the blacklist, in their order
/// and with their tags.
pub open spec fn allowed_lines(lines: Seq<OcrLine>, blacklist: Seq<Seq<char>>) -> Seq<OcrLine>
    decreases lines.len(),
{
    if lines.len() == 0 {
        Seq::empty()
    } else {
        let rest = allowed_lines(lines.drop_first(), blacklist);
        if occurs_any(lines[0].text, blacklist) {
            rest
        } else {
            seq![lines[0]] + rest
        }
    }
}

/// Whether at most one of `lines` carries `tag`.
pub open spec fn at_most_one(lines: Seq<OcrLine>, tag: OcrType) -> bool {
    forall|i: int, j: int|
        0 <= i < lines.len() && 0 <= j < lines.len() && (#[trigger] lines[i]).tag == tag && (
        #[trigger] lines[j]).tag == tag ==> i == j
}

/// Whether the tags of `lines` are in order: at most one line is tagged as
/// the date, and at most one as the sum.
pub open spec fn tags_in_order(lines: Seq<OcrLine>) -> bool {
    at_most_one(lines, OcrType::Date) && at_most_one(lines, OcrType::Sum)
}

/// The line `line` after line `at` was marked with `tag`, where `here` says
/// whether `line` is line `at`: line `at` takes the tag, and a line that had
/// it gives it up.
pub open spec fn remarked(line: OcrLine, here: bool, tag: OcrType) -> OcrLine {
    if here {
        OcrLine { text: line.text, tag }
    } else if line.tag == tag {
        OcrLine { text: line.text, tag: OcrType::Entry }
    } else {
        line
    }
}

/// The lines after the mark `tag`, the date or the sum, was toggled on line
/// `at`.
///
/// A line that carries the mark loses it. A line tagged as an entry takes
/// the mark, and whichever line carried it before becomes an entry again. A
/// line that carries the other mark stays as it is, and so do all lines where
/// `at` is no line or `tag` is no mark.
pub open spec fn marked(lines: Seq<OcrLine>, at: int, tag: OcrType) -> Seq<OcrLine> {
    if 0 <= at < lines.len() && tag != OcrType::Entry {
        if lines[at].tag == tag {
            lines.update(at, OcrLine { text: lines[at].text, tag: OcrType::Entry })
        } else if lines[at].tag == OcrType::Entry {
            Seq::new(lines.len(), |k: int| remarked(lines[k], k == at, tag))
        } else {
            lines
        }
    } else {
        lines
    }
}

/// Marking an entry gives it the mark and takes the mark from every other
/// line: afterwards exactly the marked line carries it. The texts stay, and
/// so does the tag of every line that neither takes nor loses the mark.
pub proof fn lemma_marked_entry(lines: Seq<OcrLine>, at: int, tag: OcrType)
    requires
        0 <= at < lines.len(),
        tag != OcrType::Entry,
        lines[at].tag == OcrType::Entry,
    ensures
        marked(lines, at, tag).len() == lines.len(),
        marked(lines, at, tag)[at].tag == tag,
        forall|k: int|
            0 <= k < lines.len() && k != at ==> (#[trigger] marked(lines, at, tag)[k]).tag != tag,
        forall|k: int|
            0 <= k < lines.len() && k != at && lines[k].tag == tag ==> (#[trigger] marked(
                lines,
                at,
                tag,
            )[k]).tag == OcrType::Entry,
        forall|k: int|
            0 <= k < lines.len() && k != at && lines[k].tag != tag ==> #[trigger] marked(
                lines,
                at,
                tag,
            )[k] == lines[k],
        forall|k: int|
            0 <= k < lines.len() ==> (#[trigger] marked(lines, at, tag)[k]).text == lines[k].text,
        at_most_one(marked(lines, at, tag), tag),
{
}

/// Toggling a mark never leaves two lines with the same mark, whatever line
/// it is toggled on: lines whose tags are in order stay so.
pub proof fn lemma_marked_in_order(lines: Seq<OcrLine>, at: int, tag: OcrType)
    requires
        tags_in_order(lines),
    ensures
        tags_in_order(marked(lines, at, tag)),
{
    let after = marked(lines, at, tag);
    if 0 <= at < lines.len() && tag != OcrType::Entry {
        assert forall|i: int, j: int|
            0 <= i < after.len() && 0 <= j < after.len() && (#[trigger] after[i]).tag
                == OcrType::Date && (#[trigger] after[j]).tag == OcrType::Date implies i == j by {
            if tag != OcrType::Date {
                assert(lines[i].tag == OcrType::Date);
                assert(lines[j].tag == OcrType::Date);
            } else if lines[at].tag == tag {
                assert(lines[i].tag == OcrType::Date);
                assert(lines[j].tag == OcrType::Date);
            }
        }
        assert forall|i: int, j: int|
            0 <= i < after.len() && 0 <= j < after.len() && (#[trigger] after[i]).tag
                == OcrType::Sum && (#[trigger] after[j]).tag == OcrType::Sum implies i == j by {
            if tag != OcrType::Sum {
                assert(lines[i].tag == OcrType::Sum);
                assert(lines[j].tag == OcrType::Sum);
            } else if lines[at].tag == tag {
                assert(lines[i].tag == OcrType::Sum);
                assert(lines[j].tag == OcrType::Sum);
            }
        }
    }
}

/// Taking a line away leaves the tags in order.
pub proof fn lemma_remove_in_order(lines: Seq<OcrLine>, at: int)
    requires
        tags_in_order(lines),
        0 <= at < lines.len(),
    ensures
        tags_in_order(lines.remove(at)),
{
    let after = lines.remove(at);
    assert forall|i: int, j: int|
        0 <= i < after.len() && 0 <= j < after.len() && (#[trigger] after[i]).tag == OcrType::Date
            && (#[trigger] after[j]).tag == OcrType::Date implies i == j by {
        let a = if i < at { i } else { i + 1 };
        let b = if j < at { j } else { j + 1 };
        assert(lines[a].tag == OcrType::Date && lines[b].tag == OcrType::Date);
    }
    assert forall|i: int, j: int|
        0 <= i < after.len() && 0 <= j < after.len() && (#[trigger] after[i]).tag == OcrType::Sum
            && (#[trigger] after[j]).tag == OcrType::Sum implies i == j by {
        let a = if i < at { i } else { i + 1 };
        let b = if j < at { j } else { j + 1 };
        assert(lines[a].tag == OcrType::Sum && lines[b].tag == OcrType::Sum);
    }
}

/// Every line that the blacklist lets stand is one of the lines, and they
/// stand in the order of the lines.
pub proof fn lemma_allowed_lines_embed(lines: Seq<OcrLine>, blacklist: Seq<Seq<char>>) -> (at:
    Seq<int>)
    ensures
        at.len() == allowed_lines(lines, blacklist).len(),
        forall|k: int|
            0 <= k < at.len() ==> 0 <= #[trigger] at[k] < lines.len() && lines[at[k]]
                == allowed_lines(lines, blacklist)[k],
        forall|a: int, b: int| 0 <= a < b < at.len() ==> #[trigger] at[a] < #[trigger] at[b],
    decreases lines.len(),
{
    if lines.len() == 0 {
        Seq::empty()
    } else {
        let rest = lemma_allowed_lines_embed(lines.drop_first(), blacklist);
        let shifted = Seq::new(rest.len(), |k: int| rest[k] + 1);
        if occurs_any(lines[0].text, blacklist) {
            assert forall|k: int| 0 <= k < shifted.len() implies 0 <= #[trigger] shifted[k]
                < lines.len() && lines[shifted[k]] == allowed_lines(lines, blacklist)[k] by {
                assert(lines.drop_first()[rest[k]] == lines[rest[k] + 1]);
            }
            shifted
        } else {
            let at = seq![0int] + shifted;
            assert forall|k: int| 0 <= k < at.len() implies 0 <= #[trigger] at[k] < lines.len()
                && lines[at[k]] == allowed_lines(lines, blacklist)[k] by {
                if k > 0 {
                    assert(lines.drop_first()[rest[k - 1]] == lines[rest[k - 1] + 1]);
                    assert(at[k] == shifted[k - 1]);
                }
            }
            assert forall|a: int, b: int| 0 <= a < b < at.len() implies #[trigger] at[a]
                < #[trigger] at[b] by {
                if a > 0 {
                    assert(at[a] == shifted[a - 1]);
                    assert(rest[a - 1] < rest[b - 1]);
                }
                assert(at[b] == shifted[b - 1]);
            }
            at
        }
    }
}

/// No line that the blacklist lets stand holds an entry of the blacklist.
pub proof fn lemma_allowed_lines_are_allowed(lines: Seq<OcrLine>, blacklist: Seq<Seq<char>>)
    ensures
        forall|k: int|
            0 <= k < allowed_lines(lines, blacklist).len() ==> !occurs_any(
                (#[trigger] allowed_lines(lines, blacklist)[k]).text,
                blacklist,
            ),
    decreases lines.len(),
{
    if lines.len() > 0 {
        lemma_allowed_lines_are_allowed(lines.drop_first(), blacklist);
        let rest = allowed_lines(lines.drop_first(), blacklist);
        let all = allowed_lines(lines, blacklist);
        assert forall|k: int| 0 <= k < all.len() implies !occurs_any(
            (#[trigger] all[k]).text,
            blacklist,
        ) by {
            if !occurs_any(lines[0].text, blacklist) {
                if k > 0 {
                    assert(all[k] == rest[k - 1]);
                }
            }
        }
    }
}

/// Filtering by the blacklist leaves the tags in order.
pub proof fn lemma_allowed_lines_in_order(lines: Seq<OcrLine>, blacklist: Seq<Seq<char>>)
    requires
        tags_in_order(lines),
    ensures
        tags_in_order(allowed_lines(lines, blacklist)),
{
    let after = allowed_lines(lines, blacklist);
    let at = lemma_allowed_lines_embed(lines, blacklist);
    assert forall|i: int, j: int|
        0 <= i < after.len() && 0 <= j < after.len() && (#[trigger] after[i]).tag == OcrType::Date
            && (#[trigger] after[j]).tag == OcrType::Date implies i == j by {
        assert(lines[at[i]].tag == OcrType::Date && lines[at[j]].tag == OcrType::Date);
        if i < j {
            assert(at[i] < at[j]);
        }
        if j < i {
            assert(at[j] < at[i]);
        }
    }
    assert forall|i: int, j: int|
        0 <= i < after.len() && 0 <= j < after.len() && (#[trigger] after[i]).tag == OcrType::Sum
            && (#[trigger] after[j]).tag == OcrType::Sum implies i == j by {
        assert(lines[at[i]].tag == OcrType::Sum && lines[at[j]].tag == OcrType::Sum);
        if i < j {
            assert(at[i] < at[j]);
        }
        if j < i {
            assert(at[j] < at[i]);
        }
    }
}

/// Lines that are all tagged as entries have their tags in order.
pub proof fn lemma_entries_in_order(lines: Seq<OcrLine>)
    requires
        forall|i: int| 0 <= i < lines.len() ==> (#[trigger] lines[i]).tag == OcrType::Entry,
    ensures
        tags_in_order(lines),
{
}

/// Where the line `v[from..to]`, of two characters or more, is cut, given
/// whether its last character is a word character: see [`stray_cut`].
pub fn cut_stray(v: &Vec<char>, from: usize, to: usize, word: bool) -> (end: usize)
    requires
        from <= to <= v.len(),
        to - from >= 2,
    ensures
        end - from == stray_cut(v@.subrange(from as int, to as int), word),
        from <= end <= to,
{
    assert(v@.subrange(from as int, to as int)[to - from - 2] == v@[to - 2]);
    if v[to - 2] == ' ' && word {
        to - 2
    } else {
        to
    }
}

/// Whether a line has the shape of a line worth keeping: see [`well_shaped`].
pub fn is_well_shaped(line: &Vec<char>) -> (r: bool)
    ensures
        r == well_shaped(line@),
{
    assert(line@.subrange(0, line.len() as int) =~= line@);
    proof {
        lemma_last_index_of(line@, ' ', line.len() as int);
    }
    let token: usize = match find_last(line, ' ', 0, line.len()) {
        Some(i) => i + 1,
        None => 0,
    };
    range_has_digit(line, token, line.len()) && range_has_delimiter(line, 0, line.len())
}

/// The raw line `v[from..to]`, trimmed and without a stray last character;
/// nothing where the trimmed line is no longer than one character.
fn normalize_line(v: &Vec<char>, from: usize, to: usize) -> (r: Option<Vec<char>>)
    requires
        from <= to <= v.len(),
    ensures
        match r {
            Some(line) => trim(v@.subrange(from as int, to as int)).len() > 1 && line@
                == strip_stray(trim(v@.subrange(from as int, to as int))),
            None => trim(v@.subrange(from as int, to as int)).len() <= 1,
        },
{
    let (a, b) = trim_range(v, from, to);
    let ghost t = trim(v@.subrange(from as int, to as int));
    if b - a <= 1 {
        return None;
    }
    assert(t.last() == v@[b - 1]);
    let word = is_word_char(v[b - 1]);
    let end = cut_stray(v, a, b, word);
    let line = copy_range(v, a, end);
    assert(line@ =~= strip_stray(t));
    Some(line)
}

/// What is kept of the raw line `v[from..to]`.
fn classify_line(v: &Vec<char>, from: usize, to: usize, blacklist: &Vec<String>) -> (r: Option<
    OcrEntry,
>)
    requires
        from <= to <= v.len(),
    ensures
        match r {
            Some(e) => classified(v@.subrange(from as int, to as int), blacklist.deep_view())
                == Some(e.name@) && e.ocr_type == OcrType::Entry,
            None => classified(v@.subrange(from as int, to as int), blacklist.deep_view())
                is None,
        },
{
    match normalize_line(v, from, to) {
        Some(line) => {
            if is_well_shaped(&line) && !contains_any(&line, blacklist) {
                Some(OcrEntry { name: to_string(&line), ocr_type: OcrType::Entry })
            } else {
                None
            }
        },
        None => None,
    }
}

/// Sorts a recognised text into the lines worth keeping.
///
/// The text is cut at line feeds. Each line is trimmed; a line of at most
/// one character is dropped; a stray single word character at the end, with
/// the space before it, is taken off; and the line is kept where its last
/// token holds a digit, where it holds one of `, . : -`, and where no entry
/// of the blacklist occurs in it. The lines kept come in their order, each
/// tagged as an entry.
pub fn classify(text: &str, blacklist: &Vec<String>) -> (r: Vec<OcrEntry>)
    ensures
        r.deep_view() == classified_text(text@, blacklist.deep_view()),
        forall|i: int|
            0 <= i < r.len() ==> fresh_line(#[trigger] r.deep_view()[i], blacklist.deep_view()),
{
    let v = to_chars(text);
    let ghost bl = blacklist.deep_view();
    let mut out: Vec<OcrEntry> = Vec::new();
    let mut pos: usize = 0;
    assert(out.deep_view() =~= Seq::<OcrLine>::empty());
    loop
        invariant
            pos <= v.len(),
            v@ == text@,
            bl == blacklist.deep_view(),
            out.deep_view() + classified_lines(lines_from(v@, pos as int), bl) == classified_text(
                v@,
                bl,
            ),
        decreases v.len() - pos,
    {
        let end = find_line_end(&v, pos);
        let ghost before = out.deep_view();
        let ghost raw = v@.subrange(pos as int, end as int);
        let ghost rest = if end < v.len() {
            lines_from(v@, end + 1)
        } else {
            Seq::<Seq<char>>::empty()
        };
        proof {
            lemma_line_end(v@, pos as int);
            assert(lines_from(v@, pos as int) =~= seq![raw] + rest);
            assert((seq![raw] + rest).drop_first() =~= rest);
            assert((seq![raw] + rest)[0] == raw);
        }
        match classify_line(&v, pos, end, blacklist) {
            Some(e) => {
                let ghost line = e@;
                out.push(e);
                assert(out.deep_view() =~= before + seq![line]);
                assert(before + (seq![line] + classified_lines(rest, bl)) =~= (before + seq![line])
                    + classified_lines(rest, bl));
            },
            None => {},
        }
        if end >= v.len() {
            assert(classified_lines(rest, bl) =~= Seq::<OcrLine>::empty());
            assert(out.deep_view() + Seq::<OcrLine>::empty() =~= out.deep_view());
            proof {
                lemma_classified_lines_are_fresh(lines(v@), bl);
            }
            return out;
        }
        pos = end + 1;
    }
}

/// Toggles the mark `tag` on line `at`: see [`marked`].
pub fn mark(items: &mut Vec<OcrEntry>, at: usize, tag: OcrType)
    ensures
        final(items).deep_view() == marked(old(items).deep_view(), at as int, tag),
{
    let ghost lines = items.deep_view();
    if at >= items.len() {
        return ;
    }
    match tag {
        OcrType::Entry => {
            return ;
        },
        _ => {},
    }
    let current = items[at].ocr_type;
    if current == tag {
        let e = OcrEntry { name: items[at].name.clone(), ocr_type: OcrType::Entry };
        items.set(at, e);
        assert(items.deep_view() =~= marked(lines, at as int, tag));
    } else if current == OcrType::Entry {
        let mut k: usize = 0;
        while k < items.len()
            invariant
                k <= items.len(),
                at < items.len(),
                items.len() == lines.len(),
                tag != OcrType::Entry,
                forall|j: int|
                    0 <= j < k ==> #[trigger] items.deep_view()[j] == remarked(
                        lines[j],
                        j == at,
                        tag,
                    ),
                forall|j: int| k <= j < items.len() ==> #[trigger] items.deep_view()[j] == lines[j],
            decreases items.len() - k,
        {
            let ghost before = items.deep_view();
            assert(before[k as int] == items@[k as int]@);
            if k == at {
                let e = OcrEntry { name: items[k].name.clone(), ocr_type: tag };
                items.set(k, e);
                assert(items.deep_view() =~= before.update(k as int, e@));
            } else if items[k].ocr_type == tag {
                let e = OcrEntry { name: items[k].name.clone(), ocr_type: OcrType::Entry };
                items.set(k, e);
                assert(items.deep_view() =~= before.update(k as int, e@));
            }
            k += 1;
        }
        assert(items.deep_view() =~= marked(lines, at as int, tag));
    }
}

/// Drops the lines in which an entry of the blacklist occurs; the others
/// stay in their order and keep their tags.
pub fn refilter(items: &Vec<OcrEntry>, blacklist: &Vec<String>) -> (r: Vec<OcrEntry>)
    ensures
        r.deep_view() == allowed_lines(items.deep_view(), blacklist.deep_view()),
        forall|i: int|
            0 <= i < r.len() ==> !occurs_any(
                (#[trigger] r.deep_view()[i]).text,
                blacklist.deep_view(),
            ),
{
    let ghost all = items.deep_view();
    let ghost bl = blacklist.deep_view();
    proof {
        lemma_allowed_lines_are_allowed(all, bl);
    }
    let mut out: Vec<OcrEntry> = Vec::new();
    let mut i: usize = 0;
    assert(out.deep_view() =~= Seq::<OcrLine>::empty());
    assert(all.subrange(0, all.len() as int) =~= all);
    while i < items.len()
        invariant
            i <= items.len(),
            all == items.deep_view(),
            bl == blacklist.deep_view(),
            out.deep_view() + allowed_lines(all.subrange(i as int, all.len() as int), bl)
                == allowed_lines(all, bl),
        decreases items.len() - i,
    {
        let ghost before = out.deep_view();
        let ghost tail = all.subrange(i as int, all.len() as int);
        let ghost rest = all.subrange(i + 1, all.len() as int);
        assert(tail.drop_first() =~= rest);
        assert(tail[0] == items@[i as int]@);
        let name = to_chars(items[i].name.as_str());
        if !contains_any(&name, blacklist) {
            let e = items[i].duplicate();
            out.push(e);
            assert(out.deep_view() =~= before + seq![tail[0]]);
            assert(before + (seq![tail[0]] + allowed_lines(rest, bl)) =~= (before + seq![tail[0]])
                + allowed_lines(rest, bl));
        }
        i += 1;
    }
    assert(all.subrange(all.len() as int, all.len() as int) =~= Seq::<OcrLine>::empty());
    assert(out.deep_view() + Seq::<OcrLine>::empty() =~= out.deep_view());
    out
}

} // verus!
