//! The summary of a stored receipt: what was spent in each category, and in all.

use crate::database::{Entry, EntryView};
use crate::draft::total;
use crate::text::position;
use vstd::prelude::*;

verus! {

/// One line of a summary: a category and what was spent in it.
#[derive(Clone, Debug, PartialEq, Eq)]
pub struct SummaryEntry {
    pub category: String,
    pub total: i128,
}

/// What a [`SummaryEntry`] stands for.
pub struct SummaryView {
    pub category: Seq<char>,
    pub total: int,
}

impl View for SummaryEntry {
    type V = SummaryView;

    open spec fn view(&self) -> SummaryView {
        SummaryView { category: self.category@, total: self.total as int }
    }
}

impl DeepView for SummaryEntry {
    type V = SummaryView;

    open spec fn deep_view(&self) -> SummaryView {
        self@
    }
}

/// The sum of the prices of the items of `entries` that stand under `category`.
pub open spec fn category_total(entries: Seq<EntryView>, category: Seq<char>) -> int
    decreases entries.len(),
{
    if entries.len() == 0 {
        0
    } else if entries.last().category == category {
        category_total(entries.drop_last(), category) + entries.last().price.units
    } else {
        category_total(entries.drop_last(), category)
    }
}

/// The categories of `entries`, each once, in the order in which they first occur.
pub open spec fn categories_of(entries: Seq<EntryView>) -> Seq<Seq<char>>
    decreases entries.len(),
{
    if entries.len() == 0 {
        Seq::empty()
    } else {
        let before = categories_of(entries.drop_last());
        if before.contains(entries.last().category) {
            before
        } else {
            before.push(entries.last().category)
        }
    }
}

/// The summary of `entries`: a line for each category, in the order in which
/// the categories first occur, and a last line for all of them, named `total`.
pub open spec fn summary_of(entries: Seq<EntryView>) -> Seq<SummaryView> {
    let categories = categories_of(entries);
    Seq::new(
        categories.len(),
        |k: int|
            SummaryView { category: categories[k], total: category_total(entries, categories[k]) },
    ).push(SummaryView { category: "total"@, total: total(entries) })
}

/// `categories_of` holds the category of every item, holds no category twice,
/// and holds no category that no item has.
pub proof fn lemma_categories_of(entries: Seq<EntryView>)
    ensures
        forall|j: int|
            0 <= j < entries.len() ==> categories_of(entries).contains(
                #[trigger] entries[j].category,
            ),
        forall|a: int, b: int|
            0 <= a < b < categories_of(entries).len() ==> categories_of(entries)[a]
                != categories_of(entries)[b],
        forall|c: Seq<char>| !categories_of(entries).contains(c) ==> category_total(entries, c) == 0,
    decreases entries.len(),
{
    if entries.len() > 0 {
        let before = categories_of(entries.drop_last());
        let all = categories_of(entries);
        let last = entries.last().category;
        lemma_categories_of(entries.drop_last());
        if !before.contains(last) {
            assert(all[before.len() as int] == last);
        }
        assert forall|c: Seq<char>| before.contains(c) implies all.contains(c) by {
            let k = choose|k: int| 0 <= k < before.len() && before[k] == c;
            assert(all[k] == c);
        }
        assert(all.contains(last)) by {
            if !before.contains(last) {
                assert(all[before.len() as int] == last);
            }
        }
        assert forall|j: int| 0 <= j < entries.len() implies all.contains(
            #[trigger] entries[j].category,
        ) by {
            if j < entries.len() - 1 {
                assert(entries.drop_last()[j] == entries[j]);
            }
        }
        assert forall|c: Seq<char>| !all.contains(c) implies category_total(entries, c) == 0 by {
            assert(!before.contains(c));
            assert(last != c);
            assert(category_total(entries.drop_last(), c) == 0);
        }
    }
}

/// What is spent in a category lies within the number of items times the
/// range of a price.
pub proof fn lemma_category_total_bounds(entries: Seq<EntryView>, category: Seq<char>)
    ensures
        -0x8000_0000_0000_0000 * entries.len() <= category_total(entries, category)
            <= 0x7fff_ffff_ffff_ffff * entries.len(),
    decreases entries.len(),
{
    if entries.len() > 0 {
        lemma_category_total_bounds(entries.drop_last(), category);
    }
}

/// Sums the items of a receipt by category: see [`summary_of`].
pub fn summarize(entries: &Vec<Entry>) -> (r: Vec<SummaryEntry>)
    ensures
        r.deep_view() == summary_of(entries.deep_view()),
{
    let ghost all = entries.deep_view();
    let mut names: Vec<String> = Vec::new();
    let mut totals: Vec<i128> = Vec::new();
    let mut all_sum: i128 = 0;
    let mut i: usize = 0;
    assert(all.take(0) =~= Seq::<EntryView>::empty());
    assert(names.deep_view() =~= Seq::<Seq<char>>::empty());
    while i < entries.len()
        invariant
            i <= entries.len(),
            all == entries.deep_view(),
            names.deep_view() == categories_of(all.take(i as int)),
            totals.len() == names.len(),
            all_sum == total(all.take(i as int)),
            forall|k: int|
                0 <= k < totals.len() ==> #[trigger] totals@[k] == category_total(
                    all.take(i as int),
                    names.deep_view()[k],
                ),
        decreases entries.len() - i,
    {
        let ghost seen = all.take(i as int);
        let ghost next = all.take(i + 1);
        let ghost before = names.deep_view();
        let entry = &entries[i];
        proof {
            assert(next.drop_last() =~= seen);
            assert(next.last() == entry@);
            lemma_categories_of(seen);
            crate::draft::lemma_total_bounds(seen);
        }
        all_sum = all_sum + entry.price.units as i128;
        match position(&names, entry.category.as_str()) {
            Some(k) => {
                proof {
                    lemma_category_total_bounds(seen, before[k as int]);
                }
                let sum: i128 = totals[k] + entry.price.units as i128;
                totals.set(k, sum);
                assert forall|j: int| 0 <= j < totals.len() implies #[trigger] totals@[j]
                    == category_total(next, names.deep_view()[j]) by {
                    if j != k {
                        assert(before[j] != before[k as int]);
                    }
                }
            },
            None => {
                names.push(entry.category.clone());
                totals.push(entry.price.units as i128);
                assert(names.deep_view() =~= before.push(entry.category@));
                assert forall|j: int| 0 <= j < totals.len() implies #[trigger] totals@[j]
                    == category_total(next, names.deep_view()[j]) by {
                    if j < before.len() {
                        assert(before.contains(before[j]));
                        assert(names.deep_view()[j] == before[j]);
                    } else {
                        assert(!before.contains(entry.category@));
                        assert(category_total(seen, entry.category@) == 0);
                    }
                }
            },
        }
        i += 1;
    }
    assert(all.take(entries.len() as int) =~= all);
    let ghost categories = names.deep_view();
    let mut r: Vec<SummaryEntry> = Vec::new();
    let mut k: usize = 0;
    while k < names.len()
        invariant
            k <= names.len(),
            totals.len() == names.len(),
            categories == names.deep_view(),
            categories == categories_of(all),
            r.len() == k,
            forall|j: int|
                0 <= j < totals.len() ==> #[trigger] totals@[j] == category_total(
                    all,
                    categories[j],
                ),
            forall|j: int|
                0 <= j < k ==> #[trigger] r.deep_view()[j] == (SummaryView {
                    category: categories[j],
                    total: category_total(all, categories[j]),
                }),
        decreases names.len() - k,
    {
        let ghost before = r.deep_view();
        let e = SummaryEntry { category: names[k].clone(), total: totals[k] };
        assert(e@.category == categories[k as int]);
        r.push(e);
        assert(r.deep_view() =~= before.push(e@));
        k += 1;
    }
    let ghost lines = r.deep_view();
    let last = SummaryEntry { category: "total".to_owned(), total: all_sum };
    r.push(last);
    assert(r.deep_view() =~= lines.push(last@));
    assert(lines =~= Seq::new(
        categories.len(),
        |k: int|
            SummaryView { category: categories[k], total: category_total(all, categories[k]) },
    ));
    r
}

} // verus!
