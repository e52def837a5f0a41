//! Committing a draft: the plan of what has to be written to the store.
//!
//! The plan names every row to create, once: the receipt, the categories and
//! products that the store does not hold yet, and one entry for each item of
//! the draft. Rows that the plan creates are referred to by their place in
//! the plan, so that whoever carries it out needs no lookup of its own.

use crate::database::{Category, CategoryView, Entry, EntryView, Product, ProductView};
use crate::draft::{DraftView, NewBonList};
use crate::path::{file_name, file_name_of};
use crate::price::Price;
use crate::text::{
    find_last, index_of, last_index_of, lemma_index_of_contains, lemma_index_of_from,
    lemma_last_index_of, position, to_chars,
};
use vstd::prelude::*;

verus! {

/// A category that an item of a plan stands under.
#[derive(Clone, Copy, Debug, PartialEq, Eq)]
pub enum CategoryRef {
    /// The stored category with this key.
    Existing(i64),
    /// The category that the plan creates at this place of its list.
    Created(usize),
}

/// A product that an entry of a plan refers to.
#[derive(Clone, Copy, Debug, PartialEq, Eq)]
pub enum ProductRef {
    /// The stored product with this key.
    Existing(i64),
    /// The product that the plan creates at this place of its list.
    Created(usize),
}

/// A product to create.
#[derive(Clone, Debug, PartialEq, Eq)]
pub struct NewProduct {
    pub category: CategoryRef,
    pub product: String,
}

/// What a [`NewProduct`] stands for.
pub struct NewProductView {
    pub category: CategoryRef,
    pub product: Seq<char>,
}

impl View for NewProduct {
    type V = NewProductView;

    open spec fn view(&self) -> NewProductView {
        NewProductView { category: self.category, product: self.product@ }
    }
}

impl DeepView for NewProduct {
    type V = NewProductView;

    open spec fn deep_view(&self) -> NewProductView {
        self@
    }
}

/// An entry to create: a product and what was paid for it.
#[derive(Clone, Copy, Debug, PartialEq, Eq)]
pub struct PlannedEntry {
    pub product: ProductRef,
    pub price: Price,
}

/// What has to be written to the store to commit a draft.
#[derive(Clone, Debug, PartialEq, Eq)]
pub struct CommitPlan {
    /// The date of the receipt, as the store holds dates.
    pub date: String,
    /// The total of the receipt: the total that the receipt reports.
    pub price: Price,
    /// The names of the categories to create, in this order.
    pub categories: Vec<String>,
    /// The products to create, in this order.
    pub products: Vec<NewProduct>,
    /// The entries to create, one for each item of the draft, in their order.
    pub entries: Vec<PlannedEntry>,
    /// The name of the file to mark as processed.
    pub processed: String,
}

/// What a [`CommitPlan`] stands for.
pub struct CommitPlanView {
    pub date: Seq<char>,
    pub price: Price,
    pub categories: Seq<Seq<char>>,
    pub products: Seq<NewProductView>,
    pub entries: Seq<PlannedEntry>,
    pub processed: Seq<char>,
}

impl View for CommitPlan {
    type V = CommitPlanView;

    open spec fn view(&self) -> CommitPlanView {
        CommitPlanView {
            date: self.date@,
            price: self.price,
            categories: self.categories.deep_view(),
            products: self.products.deep_view(),
            entries: self.entries@,
            processed: self.processed@,
        }
    }
}

impl DeepView for CommitPlan {
    type V = CommitPlanView;

    open spec fn deep_view(&self) -> CommitPlanView {
        self@
    }
}

/// A date as the store holds it: the fields between the dots, in reverse
/// order, joined by hyphens. `24.12.2024` becomes `2024-12-24`; a text
/// without a dot stays as it is.
pub open spec fn storage_date(date: Seq<char>) -> Seq<char>
    decreases date.len(),
{
    let dot = last_index_of(date, '.', date.len() as int);
    if 0 <= dot < date.len() {
        date.subrange(dot + 1, date.len() as int) + seq!['-'] + storage_date(date.subrange(0, dot))
    } else {
        date
    }
}

/// The names in `names` that are not in `known`, each once, in the order in
/// which they first occur.
pub open spec fn fresh(names: Seq<Seq<char>>, known: Seq<Seq<char>>) -> Seq<Seq<char>>
    decreases names.len(),
{
    if names.len() == 0 {
        Seq::empty()
    } else {
        let before = fresh(names.drop_last(), known);
        if known.contains(names.last()) || before.contains(names.last()) {
            before
        } else {
            before.push(names.last())
        }
    }
}

/// The names of the categories, in their order.
pub open spec fn category_names(categories: Seq<CategoryView>) -> Seq<Seq<char>> {
    Seq::new(categories.len(), |k: int| categories[k].category)
}

/// The names of the products, in their order.
pub open spec fn product_names(products: Seq<ProductView>) -> Seq<Seq<char>> {
    Seq::new(products.len(), |k: int| products[k].product)
}

/// The category of each item, in their order.
pub open spec fn item_categories(items: Seq<EntryView>) -> Seq<Seq<char>> {
    Seq::new(items.len(), |k: int| items[k].category)
}

/// The product name of each item, in their order.
pub open spec fn item_products(items: Seq<EntryView>) -> Seq<Seq<char>> {
    Seq::new(items.len(), |k: int| items[k].product)
}

/// The category called `name`: the first stored one of that name, or else
/// the one created under that name.
pub open spec fn category_ref(
    name: Seq<char>,
    categories: Seq<CategoryView>,
    created: Seq<Seq<char>>,
) -> CategoryRef {
    let k = index_of(category_names(categories), name);
    if 0 <= k < categories.len() {
        CategoryRef::Existing(categories[k].category_id)
    } else {
        CategoryRef::Created(index_of(created, name) as usize)
    }
}

/// The product called `name`: the first stored one of that name, or else the
/// one created under that name.
pub open spec fn product_ref(
    name: Seq<char>,
    products: Seq<ProductView>,
    created: Seq<Seq<char>>,
) -> ProductRef {
    let k = index_of(product_names(products), name);
    if 0 <= k < products.len() {
        ProductRef::Existing(products[k].product_id)
    } else {
        ProductRef::Created(index_of(created, name) as usize)
    }
}

/// The categories that committing `items` creates.
pub open spec fn new_categories(items: Seq<EntryView>, categories: Seq<CategoryView>) -> Seq<
    Seq<char>,
> {
    fresh(item_categories(items), category_names(categories))
}

/// The names of the products that committing `items` creates.
pub open spec fn new_product_names(items: Seq<EntryView>, products: Seq<ProductView>) -> Seq<
    Seq<char>,
> {
    fresh(item_products(items), product_names(products))
}

/// The product to create under `name`: it stands under the category of the
/// first item that has this product.
pub open spec fn new_product(
    name: Seq<char>,
    items: Seq<EntryView>,
    categories: Seq<CategoryView>,
) -> NewProductView {
    NewProductView {
        category: category_ref(
            items[index_of(item_products(items), name)].category,
            categories,
            new_categories(items, categories),
        ),
        product: name,
    }
}

/// The products that committing `items` creates.
pub open spec fn new_products(
    items: Seq<EntryView>,
    categories: Seq<CategoryView>,
    products: Seq<ProductView>,
) -> Seq<NewProductView> {
    let names = new_product_names(items, products);
    Seq::new(names.len(), |k: int| new_product(names[k], items, categories))
}

/// The entries that committing `items` creates.
pub open spec fn planned_entries(items: Seq<EntryView>, products: Seq<ProductView>) -> Seq<
    PlannedEntry,
> {
    Seq::new(
        items.len(),
        |k: int|
            PlannedEntry {
                product: product_ref(
                    items[k].product,
                    products,
                    new_product_names(items, products),
                ),
                price: items[k].price,
            },
    )
}

/// The plan to commit a draft, given the categories and products that the
/// store holds and the path of the file that the draft was read from. The
/// file is marked as processed by its name, without its directory.
pub open spec fn plan_of(
    draft: DraftView,
    categories: Seq<CategoryView>,
    products: Seq<ProductView>,
    file: Seq<char>,
) -> CommitPlanView {
    CommitPlanView {
        date: storage_date(draft.date),
        price: draft.price_ocr,
        categories: new_categories(draft.items, categories),
        products: new_products(draft.items, categories, products),
        entries: planned_entries(draft.items, products),
        processed: file_name(file),
    }
}

/// Of the fresh names: there are no more of them than names; every name is
/// known or fresh; no fresh name is known; no name is fresh twice; and every
/// fresh name is one of the names.
pub proof fn lemma_fresh(names: Seq<Seq<char>>, known: Seq<Seq<char>>)
    ensures
        fresh(names, known).len() <= names.len(),
        forall|j: int|
            0 <= j < names.len() ==> known.contains(#[trigger] names[j]) || fresh(
                names,
                known,
            ).contains(names[j]),
        forall|k: int|
            0 <= k < fresh(names, known).len() ==> !known.contains(
                #[trigger] fresh(names, known)[k],
            ),
        forall|a: int, b: int|
            0 <= a < b < fresh(names, known).len() ==> fresh(names, known)[a] != fresh(
                names,
                known,
            )[b],
        forall|k: int|
            0 <= k < fresh(names, known).len() ==> names.contains(
                #[trigger] fresh(names, known)[k],
            ),
    decreases names.len(),
{
    if names.len() > 0 {
        let before = fresh(names.drop_last(), known);
        let all = fresh(names, known);
        let last = names.last();
        lemma_fresh(names.drop_last(), known);
        assert forall|c: Seq<char>| before.contains(c) implies all.contains(c) by {
            let k = choose|k: int| 0 <= k < before.len() && before[k] == c;
            assert(all[k] == c);
        }
        assert forall|c: Seq<char>| names.drop_last().contains(c) implies names.contains(c) by {
            let k = choose|k: int| 0 <= k < names.drop_last().len() && names.drop_last()[k] == c;
            assert(names[k] == c);
        }
        assert(names.contains(last)) by {
            assert(names[names.len() - 1] == last);
        }
        assert(known.contains(last) || all.contains(last)) by {
            if !known.contains(last) && !before.contains(last) {
                assert(all[before.len() as int] == last);
            }
        }
        assert forall|j: int| 0 <= j < names.len() implies known.contains(#[trigger] names[j])
            || all.contains(names[j]) by {
            if j < names.len() - 1 {
                assert(names.drop_last()[j] == names[j]);
            }
        }
        assert forall|k: int| 0 <= k < all.len() implies names.contains(#[trigger] all[k]) by {
            if k < before.len() {
                assert(before[k] == all[k]);
                assert(names.drop_last().contains(before[k]));
            }
        }
        assert forall|a: int, b: int| 0 <= a < b < all.len() implies all[a] != all[b] by {
            if b == before.len() {
                assert(before.contains(before[a]));
            }
        }
    }
}

/// The place of a name among the names is where it stands first.
pub proof fn lemma_index_of_first(names: Seq<Seq<char>>, x: Seq<char>, at: int)
    requires
        0 <= at < names.len(),
        names[at] == x,
        forall|j: int| 0 <= j < at ==> names[j] != x,
    ensures
        index_of(names, x) == at,
{
    lemma_index_of_from(names, x, 0);
}

/// What a plan creates, it creates once, and what it refers to is there.
///
/// No category and no product of the plan is in the store already, and none
/// stands in the plan twice, however many items share it. Every item has its
/// entry, with its price, and the entry's product is the stored product of
/// the item's name or the product that the plan creates under that name.
/// Every product that the plan creates stands under a stored category or
/// under one that the plan creates.
pub proof fn lemma_plan_creates_once(
    draft: DraftView,
    categories: Seq<CategoryView>,
    products: Seq<ProductView>,
    file: Seq<char>,
)
    requires
        draft.items.len() <= usize::MAX,
    ensures
        ({
            let plan = plan_of(draft, categories, products, file);
            &&& forall|a: int, b: int|
                0 <= a < b < plan.categories.len() ==> plan.categories[a] != plan.categories[b]
            &&& forall|k: int|
                0 <= k < plan.categories.len() ==> !category_names(categories).contains(
                    #[trigger] plan.categories[k],
                )
            &&& forall|a: int, b: int|
                0 <= a < b < plan.products.len() ==> plan.products[a].product
                    != plan.products[b].product
            &&& forall|k: int|
                0 <= k < plan.products.len() ==> !product_names(products).contains(
                    #[trigger] plan.products[k].product,
                )
            &&& forall|k: int|
                0 <= k < plan.products.len() ==> match (#[trigger] plan.products[k]).category {
                    CategoryRef::Existing(id) => exists|c: int|
                        0 <= c < categories.len() && categories[c].category_id == id,
                    CategoryRef::Created(c) => c < plan.categories.len(),
                }
            &&& plan.entries.len() == draft.items.len()
            &&& forall|i: int|
                0 <= i < draft.items.len() ==> (#[trigger] plan.entries[i]).price
                    == draft.items[i].price && match plan.entries[i].product {
                    ProductRef::Existing(id) => exists|p: int|
                        0 <= p < products.len() && products[p].product_id == id
                            && products[p].product == draft.items[i].product,
                    ProductRef::Created(p) => p < plan.products.len() && plan.products[p as int].product
                        == draft.items[i].product,
                }
        }),
{
    let plan = plan_of(draft, categories, products, file);
    let items = draft.items;
    let cats = item_categories(items);
    let prods = item_products(items);
    let known_c = category_names(categories);
    let known_p = product_names(products);
    lemma_fresh(cats, known_c);
    lemma_fresh(prods, known_p);
    assert forall|k: int| 0 <= k < plan.products.len() implies match (
    #[trigger] plan.products[k]).category {
        CategoryRef::Existing(id) => exists|c: int|
            0 <= c < categories.len() && categories[c].category_id == id,
        CategoryRef::Created(c) => c < plan.categories.len(),
    } by {
        let name = new_product_names(items, products)[k];
        assert(prods.contains(name));
        lemma_index_of_contains(prods, name);
        let first = index_of(prods, name);
        let category = items[first].category;
        assert(cats[first] == category);
        lemma_index_of_contains(known_c, category);
        lemma_index_of_contains(plan.categories, category);
        let c = index_of(known_c, category);
        if c >= 0 {
            assert(plan.products[k].category == CategoryRef::Existing(categories[c].category_id));
        }
    }
    assert forall|i: int| 0 <= i < items.len() implies (#[trigger] plan.entries[i]).price
        == items[i].price && match plan.entries[i].product {
        ProductRef::Existing(id) => exists|p: int|
            0 <= p < products.len() && products[p].product_id == id && products[p].product
                == items[i].product,
        ProductRef::Created(p) => p < plan.products.len() && plan.products[p as int].product
            == items[i].product,
    } by {
        let name = items[i].product;
        assert(prods[i] == name);
        lemma_index_of_contains(known_p, name);
        lemma_index_of_contains(new_product_names(items, products), name);
        let p = index_of(known_p, name);
        if p >= 0 {
            assert(known_p[p] == products[p].product);
        }
    }
}

/// Writes a date as the store holds it: see [`storage_date`].
pub fn normalize_date(date: &str) -> (r: String)
    ensures
        r@ == storage_date(date@),
{
    let v = to_chars(date);
    let mut out = String::new();
    let mut end: usize = v.len();
    assert(v@.subrange(0, v.len() as int) =~= v@);
    loop
        invariant
            end <= v.len(),
            v@ == date@,
            out@ + storage_date(v@.subrange(0, end as int)) == storage_date(v@),
        decreases end,
    {
        let ghost head = v@.subrange(0, end as int);
        let ghost written = out@;
        proof {
            lemma_last_index_of(head, '.', end as int);
        }
        match find_last(&v, '.', 0, end) {
            Some(dot) => {
                let mut i: usize = dot + 1;
                while i < end
                    invariant
                        dot < i <= end <= v.len(),
                        out@ == written + v@.subrange(dot + 1, i as int),
                    decreases end - i,
                {
                    out.push(v[i]);
                    i += 1;
                }
                out.push('-');
                proof {
                    assert(head.subrange(dot + 1, end as int) =~= v@.subrange(dot + 1, end as int));
                    assert(head.subrange(0, dot as int) =~= v@.subrange(0, dot as int));
                    assert(out@ + storage_date(v@.subrange(0, dot as int)) =~= written
                        + storage_date(head));
                }
                end = dot;
            },
            None => {
                let mut i: usize = 0;
                while i < end
                    invariant
                        i <= end <= v.len(),
                        out@ == written + v@.subrange(0, i as int),
                    decreases end - i,
                {
                    out.push(v[i]);
                    i += 1;
                }
                return out;
            },
        }
    }
}

/// The names of the categories, in their order.
pub fn names_of_categories(categories: &Vec<Category>) -> (r: Vec<String>)
    ensures
        r.deep_view() == category_names(categories.deep_view()),
{
    let mut r: Vec<String> = Vec::new();
    let mut i: usize = 0;
    while i < categories.len()
        invariant
            i <= categories.len(),
            r.len() == i,
            forall|k: int| 0 <= k < i ==> #[trigger] r@[k]@ == categories@[k].category@,
        decreases categories.len() - i,
    {
        r.push(categories[i].category.clone());
        i += 1;
    }
    assert(r.deep_view() =~= category_names(categories.deep_view()));
    r
}

/// The names of the products, in their order.
pub fn names_of_products(products: &Vec<Product>) -> (r: Vec<String>)
    ensures
        r.deep_view() == product_names(products.deep_view()),
{
    let mut r: Vec<String> = Vec::new();
    let mut i: usize = 0;
    while i < products.len()
        invariant
            i <= products.len(),
            r.len() == i,
            forall|k: int| 0 <= k < i ==> #[trigger] r@[k]@ == products@[k].product@,
        decreases products.len() - i,
    {
        r.push(products[i].product.clone());
        i += 1;
    }
    assert(r.deep_view() =~= product_names(products.deep_view()));
    r
}

/// The category called `name`, given the names of the stored categories and
/// the names of the categories to create.
fn refer_to_category(
    name: &str,
    categories: &Vec<Category>,
    known: &Vec<String>,
    created: &Vec<String>,
) -> (r: CategoryRef)
    requires
        known.deep_view() == category_names(categories.deep_view()),
        known.deep_view().contains(name@) || created.deep_view().contains(name@),
    ensures
        r == category_ref(name@, categories.deep_view(), created.deep_view()),
{
    match position(known, name) {
        Some(k) => CategoryRef::Existing(categories[k].category_id),
        None => match position(created, name) {
            Some(c) => CategoryRef::Created(c),
            None => CategoryRef::Created(0),
        },
    }
}

/// The product called `name`, given the names of the stored products and the
/// names of the products to create.
fn refer_to_product(
    name: &str,
    products: &Vec<Product>,
    known: &Vec<String>,
    created: &Vec<String>,
) -> (r: ProductRef)
    requires
        known.deep_view() == product_names(products.deep_view()),
        known.deep_view().contains(name@) || created.deep_view().contains(name@),
    ensures
        r == product_ref(name@, products.deep_view(), created.deep_view()),
{
    match position(known, name) {
        Some(k) => ProductRef::Existing(products[k].product_id),
        None => match position(created, name) {
            Some(p) => ProductRef::Created(p),
            None => ProductRef::Created(0),
        },
    }
}

/// The names among the categories of `items` that `known` does not hold.
fn fresh_categories(items: &Vec<Entry>, known: &Vec<String>) -> (r: Vec<String>)
    ensures
        r.deep_view() == fresh(item_categories(items.deep_view()), known.deep_view()),
{
    let ghost names = item_categories(items.deep_view());
    let mut r: Vec<String> = Vec::new();
    let mut i: usize = 0;
    assert(names.take(0) =~= Seq::<Seq<char>>::empty());
    assert(r.deep_view() =~= Seq::<Seq<char>>::empty());
    while i < items.len()
        invariant
            i <= items.len(),
            names == item_categories(items.deep_view()),
            r.deep_view() == fresh(names.take(i as int), known.deep_view()),
        decreases items.len() - i,
    {
        let ghost before = r.deep_view();
        proof {
            assert(names.take(i + 1).drop_last() =~= names.take(i as int));
            assert(names.take(i + 1).last() == items@[i as int].category@);
        }
        let name = items[i].category.as_str();
        if position(known, name).is_none() && position(&r, name).is_none() {
            r.push(items[i].category.clone());
            assert(r.deep_view() =~= before.push(name@));
        }
        i += 1;
    }
    assert(names.take(items.len() as int) =~= names);
    r
}

/// Plans the commit of a draft.
///
/// The date is written as the store holds dates; the total is the reported
/// one. Each category of an item that the store does not hold is created,
/// once; so is each product, under the category of the first item that has
/// it. Each item gets an entry with its price, for the stored product of its
/// name or the created one. The file at the path `file` is marked as
/// processed, by its name.
pub fn plan_commit(
    draft: &NewBonList,
    categories: &Vec<Category>,
    products: &Vec<Product>,
    file: &str,
) -> (plan: CommitPlan)
    ensures
        plan@ == plan_of(draft@, categories.deep_view(), products.deep_view(), file@),
{
    let ghost items = draft.items.deep_view();
    let ghost cats = item_categories(items);
    let ghost prods = item_products(items);
    let known_categories = names_of_categories(categories);
    let known_products = names_of_products(products);
    let ghost known_c = known_categories.deep_view();
    let ghost known_p = known_products.deep_view();
    let created = fresh_categories(&draft.items, &known_categories);
    proof {
        lemma_fresh(cats, known_c);
    }
    let mut to_create: Vec<NewProduct> = Vec::new();
    let mut names: Vec<String> = Vec::new();
    let mut i: usize = 0;
    assert(prods.take(0) =~= Seq::<Seq<char>>::empty());
    assert(names.deep_view() =~= Seq::<Seq<char>>::empty());
    while i < draft.items.len()
        invariant
            i <= draft.items.len(),
            items == draft.items.deep_view(),
            cats == item_categories(items),
            prods == item_products(items),
            known_c == known_categories.deep_view(),
            known_c == category_names(categories.deep_view()),
            known_p == known_products.deep_view(),
            created.deep_view() == new_categories(items, categories.deep_view()),
            forall|j: int|
                0 <= j < cats.len() ==> known_c.contains(#[trigger] cats[j])
                    || created.deep_view().contains(cats[j]),
            names.deep_view() == fresh(prods.take(i as int), known_p),
            to_create.len() == names.len(),
            forall|k: int|
                0 <= k < to_create.len() ==> #[trigger] to_create@[k]@ == new_product(
                    names.deep_view()[k],
                    items,
                    categories.deep_view(),
                ),
        decreases draft.items.len() - i,
    {
        let ghost before = names.deep_view();
        let item = &draft.items[i];
        proof {
            assert(prods.take(i + 1).drop_last() =~= prods.take(i as int));
            assert(prods.take(i + 1).last() == item.product@);
            assert(cats[i as int] == item.category@);
        }
        let name = item.product.as_str();
        if position(&known_products, name).is_none() && position(&names, name).is_none() {
            proof {
                lemma_fresh(prods.take(i as int), known_p);
                assert forall|j: int| 0 <= j < i implies prods[j] != name@ by {
                    assert(prods.take(i as int)[j] == prods[j]);
                }
                lemma_index_of_first(prods, name@, i as int);
            }
            let category = refer_to_category(
                item.category.as_str(),
                categories,
                &known_categories,
                &created,
            );
            to_create.push(NewProduct { category, product: item.product.clone() });
            names.push(item.product.clone());
            assert(names.deep_view() =~= before.push(name@));
        }
        i += 1;
    }
    assert(prods.take(draft.items.len() as int) =~= prods);
    proof {
        lemma_fresh(prods, known_p);
    }
    let mut entries: Vec<PlannedEntry> = Vec::new();
    let mut i: usize = 0;
    while i < draft.items.len()
        invariant
            i <= draft.items.len(),
            items == draft.items.deep_view(),
            prods == item_products(items),
            known_p == known_products.deep_view(),
            known_p == product_names(products.deep_view()),
            names.deep_view() == new_product_names(items, products.deep_view()),
            forall|j: int|
                0 <= j < prods.len() ==> known_p.contains(#[trigger] prods[j])
                    || names.deep_view().contains(prods[j]),
            entries.len() == i,
            forall|k: int|
                0 <= k < i ==> #[trigger] entries@[k] == planned_entries(
                    items,
                    products.deep_view(),
                )[k],
        decreases draft.items.len() - i,
    {
        let item = &draft.items[i];
        assert(prods[i as int] == item.product@);
        let product = refer_to_product(item.product.as_str(), products, &known_products, &names);
        entries.push(PlannedEntry { product, price: item.price });
        i += 1;
    }
    let plan = CommitPlan {
        date: normalize_date(draft.date.as_str()),
        price: draft.price_ocr,
        categories: created,
        products: to_create,
        entries,
        processed: file_name_of(file),
    };
    assert(plan.products.deep_view() =~= new_products(
        items,
        categories.deep_view(),
        products.deep_view(),
    ));
    assert(plan.entries@ =~= planned_entries(items, products.deep_view()));
    plan
}

} // verus!
