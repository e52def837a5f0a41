//! The draft of a receipt: what conversion makes of the tagged lines, and
//! what editing makes of the draft.
//!
//! A draft is well formed where its computed total is the sum of the prices
//! of its items, its reconciliation flag says whether that sum agrees with
//! the reported total, and its cursor fits its items. Conversion yields a
//! well-formed draft and every edit keeps it so.

use crate::database::{Category, CategoryView, Entry, EntryView, Product, ProductView};
use crate::extract::{date_of, extract_date, extract_name, extract_price, name_of};
use crate::list::ListState;
use crate::matcher::{match_product, matched_in};
use crate::ocr::{OcrEntry, OcrLine, OcrType};
use crate::price::{price_of, reconciled, Price};
use vstd::prelude::*;

verus! {

/// The draft of a receipt under editing.
#[derive(Clone, Debug)]
pub struct NewBonList {
    /// The date, as it was read.
    pub date: String,
    /// The items, in the order of their lines.
    pub items: Vec<Entry>,
    /// The sum of the prices of the items.
    pub price_calc: i128,
    /// Whether the reported total agrees with the computed one.
    pub price_eq: bool,
    /// The total that the receipt reports.
    pub price_ocr: Price,
    /// The cursor on the items.
    pub state: ListState,
}

/// What a [`NewBonList`] stands for.
pub struct DraftView {
    pub date: Seq<char>,
    pub items: Seq<EntryView>,
    pub price_calc: int,
    pub price_eq: bool,
    pub price_ocr: Price,
    pub state: ListState,
}

impl View for NewBonList {
    type V = DraftView;

    open spec fn view(&self) -> DraftView {
        DraftView {
            date: self.date@,
            items: self.items.deep_view(),
            price_calc: self.price_calc as int,
            price_eq: self.price_eq,
            price_ocr: self.price_ocr,
            state: self.state,
        }
    }
}

impl DeepView for NewBonList {
    type V = DraftView;

    open spec fn deep_view(&self) -> DraftView {
        self@
    }
}

/// The sum of the prices of `items`, in units.
pub open spec fn total(items: Seq<EntryView>) -> int
    decreases items.len(),
{
    if items.len() == 0 {
        0
    } else {
        total(items.drop_last()) + items.last().price.units
    }
}

impl DraftView {
    /// Whether the draft is well formed: the computed total is the sum of
    /// the prices of the items, the flag tells whether it agrees with the
    /// reported total, and the cursor fits the items.
    pub open spec fn wf(self) -> bool {
        &&& self.price_calc == total(self.items)
        &&& self.price_eq == reconciled(self.price_ocr, self.price_calc)
        &&& self.state.fits(self.items.len())
    }

    /// The well-formed draft with this date, these items, this reported
    /// total and this cursor.
    pub open spec fn settled(
        date: Seq<char>,
        items: Seq<EntryView>,
        price_ocr: Price,
        state: ListState,
    ) -> DraftView {
        DraftView {
            date,
            items,
            price_calc: total(items),
            price_eq: reconciled(price_ocr, total(items)),
            price_ocr,
            state: state.clamped(items.len()),
        }
    }

    /// The index of the selected item, if one is selected.
    pub open spec fn selected(self) -> Option<int> {
        self.state.index_in(self.items.len())
    }

    /// The empty draft.
    pub open spec fn empty() -> DraftView {
        DraftView::settled(Seq::empty(), Seq::empty(), Price { units: 0 }, ListState { selected: None })
    }

    /// The draft with the reported total replaced.
    pub open spec fn with_reported(self, price: Price) -> DraftView {
        DraftView::settled(self.date, self.items, price, self.state)
    }

    /// The draft with the price of item `at` replaced; the draft itself where
    /// there is no such item.
    pub open spec fn with_price(self, at: int, price: Price) -> DraftView {
        if 0 <= at < self.items.len() {
            DraftView::settled(
                self.date,
                self.items.update(at, EntryView { price, ..self.items[at] }),
                self.price_ocr,
                self.state,
            )
        } else {
            DraftView::settled(self.date, self.items, self.price_ocr, self.state)
        }
    }

    /// The draft with the product name of item `at` replaced.
    pub open spec fn with_product(self, at: int, product: Seq<char>) -> DraftView {
        if 0 <= at < self.items.len() {
            DraftView::settled(
                self.date,
                self.items.update(at, EntryView { product, ..self.items[at] }),
                self.price_ocr,
                self.state,
            )
        } else {
            DraftView::settled(self.date, self.items, self.price_ocr, self.state)
        }
    }

    /// The draft with the category of item `at` replaced.
    pub open spec fn with_category(self, at: int, category: Seq<char>) -> DraftView {
        if 0 <= at < self.items.len() {
            DraftView::settled(
                self.date,
                self.items.update(at, EntryView { category, ..self.items[at] }),
                self.price_ocr,
                self.state,
            )
        } else {
            DraftView::settled(self.date, self.items, self.price_ocr, self.state)
        }
    }

    /// The draft without item `at`.
    pub open spec fn without(self, at: int) -> DraftView {
        if 0 <= at < self.items.len() {
            DraftView::settled(self.date, self.items.remove(at), self.price_ocr, self.state)
        } else {
            DraftView::settled(self.date, self.items, self.price_ocr, self.state)
        }
    }
}

/// A settled draft is well formed.
pub proof fn lemma_settled_is_wf(
    date: Seq<char>,
    items: Seq<EntryView>,
    price_ocr: Price,
    state: ListState,
)
    ensures
        DraftView::settled(date, items, price_ocr, state).wf(),
{
}

/// Every edit leaves a draft well formed: whatever item is edited or taken
/// away and whatever total is reported, afterwards the computed total is the
/// sum of the prices of the items, and the flag tells whether the reported
/// total agrees with it.
pub proof fn lemma_edits_are_wf(draft: DraftView, at: int, price: Price, text: Seq<char>)
    ensures
        draft.with_reported(price).wf(),
        draft.with_price(at, price).wf(),
        draft.with_product(at, text).wf(),
        draft.with_category(at, text).wf(),
        draft.without(at).wf(),
        draft.with_reported(price).items == draft.items,
        draft.with_reported(price).price_ocr == price,
        0 <= at < draft.items.len() ==> draft.with_price(at, price).items[at].price == price,
        0 <= at < draft.items.len() ==> draft.without(at).items.len() == draft.items.len() - 1,
{
}

/// The date of a draft: what the last line tagged as the date holds of one,
/// among the lines in which a date is found; empty where there is none.
pub open spec fn draft_date(lines: Seq<OcrLine>) -> Seq<char>
    decreases lines.len(),
{
    if lines.len() == 0 {
        Seq::empty()
    } else {
        match date_of(lines.last().text) {
            Some(d) if lines.last().tag == OcrType::Date => d,
            _ => draft_date(lines.drop_last()),
        }
    }
}

/// The reported total of a draft: the price in the last line tagged as the
/// sum, among the lines in which a price is found; nothing where there is none.
pub open spec fn draft_reported(lines: Seq<OcrLine>) -> Price
    decreases lines.len(),
{
    if lines.len() == 0 {
        Price { units: 0 }
    } else {
        match price_of(lines.last().text) {
            Some(p) if lines.last().tag == OcrType::Sum => p,
            _ => draft_reported(lines.drop_last()),
        }
    }
}

/// The item that a line gives: for a line tagged as an entry in which both a
/// name and a price are found, the name matched against the catalog, and the
/// price.
pub open spec fn item_of(
    line: OcrLine,
    products: Seq<ProductView>,
    categories: Seq<CategoryView>,
) -> Option<EntryView> {
    match (name_of(line.text), price_of(line.text)) {
        (Some(name), Some(price)) if line.tag == OcrType::Entry => {
            let m = matched_in(name, products, categories);
            Some(EntryView { category: m.category, product: m.product, price })
        },
        _ => None,
    }
}

/// The items of a draft: the items that the lines give, in their order.
pub open spec fn draft_items(
    lines: Seq<OcrLine>,
    products: Seq<ProductView>,
    categories: Seq<CategoryView>,
) -> Seq<EntryView>
    decreases lines.len(),
{
    if lines.len() == 0 {
        Seq::empty()
    } else {
        let rest = draft_items(lines.drop_last(), products, categories);
        match item_of(lines.last(), products, categories) {
            Some(e) => rest.push(e),
            None => rest,
        }
    }
}

/// The draft that a sequence of tagged lines converts to, given the catalog.
pub open spec fn draft_of(
    lines: Seq<OcrLine>,
    products: Seq<ProductView>,
    categories: Seq<CategoryView>,
) -> DraftView {
    let items = draft_items(lines, products, categories);
    DraftView::settled(
        draft_date(lines),
        items,
        draft_reported(lines),
        ListState::at_first(items.len()),
    )
}

/// The sum of the prices of `n` items lies within `n` times the range of a price.
pub proof fn lemma_total_bounds(items: Seq<EntryView>)
    ensures
        -0x8000_0000_0000_0000 * items.len() <= total(items) <= 0x7fff_ffff_ffff_ffff
            * items.len(),
    decreases items.len(),
{
    if items.len() > 0 {
        lemma_total_bounds(items.drop_last());
    }
}

/// The sum of the prices of `items`, in units.
pub fn sum_prices(items: &Vec<Entry>) -> (sum: i128)
    ensures
        sum == total(items.deep_view()),
{
    let ghost all = items.deep_view();
    let mut sum: i128 = 0;
    let mut i: usize = 0;
    assert(all.take(0) =~= Seq::<EntryView>::empty());
    while i < items.len()
        invariant
            i <= items.len(),
            all == items.deep_view(),
            sum == total(all.take(i as int)),
        decreases items.len() - i,
    {
        proof {
            lemma_total_bounds(all.take(i as int));
            assert(all.take(i + 1).drop_last() =~= all.take(i as int));
            assert(all.take(i + 1).last() == items@[i as int]@);
        }
        sum = sum + items[i].price.units as i128;
        i += 1;
    }
    assert(all.take(items.len() as int) =~= all);
    sum
}

impl NewBonList {
    /// Whether the draft is well formed.
    pub open spec fn wf(&self) -> bool {
        self@.wf()
    }

    /// The empty draft.
    pub fn new() -> (d: NewBonList)
        ensures
            d@ == DraftView::empty(),
            d.wf(),
    {
        let mut d = NewBonList {
            date: String::new(),
            items: Vec::new(),
            price_calc: 0,
            price_eq: false,
            price_ocr: Price { units: 0 },
            state: ListState::new(),
        };
        d.settle();
        assert(d.items.deep_view() =~= Seq::<EntryView>::empty());
        d
    }

    /// Recomputes the total of the items and the reconciliation flag, and
    /// brings the cursor back into the items.
    pub fn settle(&mut self)
        ensures
            final(self)@ == DraftView::settled(
                old(self)@.date,
                old(self)@.items,
                old(self)@.price_ocr,
                old(self)@.state,
            ),
            final(self).wf(),
    {
        self.price_calc = sum_prices(&self.items);
        self.price_eq = self.price_ocr.reconciles(self.price_calc);
        self.state.clamp(self.items.len());
    }

    /// Whether the draft is well formed, found out by computing.
    pub fn is_well_formed(&self) -> (ok: bool)
        ensures
            ok == self.wf(),
    {
        let sum = sum_prices(&self.items);
        let fits = match self.state.selected {
            Some(i) => i < self.items.len(),
            None => true,
        };
        self.price_calc == sum && self.price_eq == self.price_ocr.reconciles(sum) && fits
    }

    /// Converts tagged lines to a draft.
    ///
    /// A line tagged as the date gives the date, where one is found in it; a
    /// line tagged as the sum gives the reported total, where a price is found
    /// in it: of several, the last counts. A line tagged as an entry gives an
    /// item where both a name and a price are found in it: the name is matched
    /// against the catalog, and the item takes the matched product and its
    /// category, or the name as read and no category. Lines that give
    /// nothing are passed over. The first item is selected where there is one.
    pub fn convert(lines: &Vec<OcrEntry>, products: &Vec<Product>, categories: &Vec<Category>) -> (d:
        NewBonList)
        ensures
            d@ == draft_of(lines.deep_view(), products.deep_view(), categories.deep_view()),
            d.wf(),
    {
        let ghost all = lines.deep_view();
        let ghost ps = products.deep_view();
        let ghost cs = categories.deep_view();
        let mut date = String::new();
        let mut items: Vec<Entry> = Vec::new();
        let mut price_ocr = Price { units: 0 };
        let mut i: usize = 0;
        assert(all.take(0) =~= Seq::<OcrLine>::empty());
        assert(items.deep_view() =~= Seq::<EntryView>::empty());
        while i < lines.len()
            invariant
                i <= lines.len(),
                all == lines.deep_view(),
                ps == products.deep_view(),
                cs == categories.deep_view(),
                date@ == draft_date(all.take(i as int)),
                price_ocr == draft_reported(all.take(i as int)),
                items.deep_view() == draft_items(all.take(i as int), ps, cs),
            decreases lines.len() - i,
        {
            let line = &lines[i];
            proof {
                assert(all.take(i + 1).drop_last() =~= all.take(i as int));
                assert(all.take(i + 1).last() == line@);
            }
            let ghost before = items.deep_view();
            match line.ocr_type {
                OcrType::Date => {
                    if let Some(found) = extract_date(line.name.as_str()) {
                        date = found;
                    }
                },
                OcrType::Entry => {
                    if let Some(name) = extract_name(line.name.as_str()) {
                        if let Some(price) = extract_price(line.name.as_str()) {
                            let m = match_product(name, products, categories);
                            let e = Entry { category: m.category, product: m.product, price };
                            let ghost ev = e@;
                            items.push(e);
                            assert(items.deep_view() =~= before.push(ev));
                        }
                    }
                },
                OcrType::Sum => {
                    if let Some(sum) = extract_price(line.name.as_str()) {
                        price_ocr = sum;
                    }
                },
            }
            i += 1;
        }
        assert(all.take(lines.len() as int) =~= all);
        let mut d = NewBonList {
            date,
            items,
            price_calc: 0,
            price_eq: false,
            price_ocr,
            state: ListState::new(),
        };
        d.state.first(d.items.len());
        d.settle();
        d
    }

    /// Replaces the reported total.
    pub fn set_reported(&mut self, price: Price)
        ensures
            final(self)@ == old(self)@.with_reported(price),
            final(self).wf(),
    {
        self.price_ocr = price;
        self.settle();
    }

    /// Replaces the price of item `at`. Without such an item nothing changes
    /// but that the draft is settled.
    pub fn set_price(&mut self, at: usize, price: Price)
        ensures
            final(self)@ == old(self)@.with_price(at as int, price),
            final(self).wf(),
    {
        if at < self.items.len() {
            let ghost before = self.items.deep_view();
            let e = Entry {
                category: self.items[at].category.clone(),
                product: self.items[at].product.clone(),
                price,
            };
            let ghost ev = e@;
            self.items.set(at, e);
            assert(self.items.deep_view() =~= before.update(at as int, ev));
        }
        self.settle();
    }

    /// Replaces the product name of item `at`.
    pub fn set_product(&mut self, at: usize, product: String)
        ensures
            final(self)@ == old(self)@.with_product(at as int, product@),
            final(self).wf(),
    {
        if at < self.items.len() {
            let ghost before = self.items.deep_view();
            let e = Entry {
                category: self.items[at].category.clone(),
                product,
                price: self.items[at].price,
            };
            let ghost ev = e@;
            self.items.set(at, e);
            assert(self.items.deep_view() =~= before.update(at as int, ev));
        }
        self.settle();
    }

    /// Replaces the category of item `at`.
    pub fn set_category(&mut self, at: usize, category: String)
        ensures
            final(self)@ == old(self)@.with_category(at as int, category@),
            final(self).wf(),
    {
        if at < self.items.len() {
            let ghost before = self.items.deep_view();
            let e = Entry {
                category,
                product: self.items[at].product.clone(),
                price: self.items[at].price,
            };
            let ghost ev = e@;
            self.items.set(at, e);
            assert(self.items.deep_view() =~= before.update(at as int, ev));
        }
        self.settle();
    }

    /// Removes item `at`.
    pub fn remove(&mut self, at: usize)
        ensures
            final(self)@ == old(self)@.without(at as int),
            final(self).wf(),
    {
        if at < self.items.len() {
            let ghost before = self.items.deep_view();
            self.items.remove(at);
            assert(self.items.deep_view() =~= before.remove(at as int));
        }
        self.settle();
    }
}

} // verus!
