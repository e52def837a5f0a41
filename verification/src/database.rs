//! The records that the store holds, as the library reads and writes them.

use crate::price::Price;
use vstd::prelude::*;

verus! {

/// A category of products.
#[derive(Clone, Debug, PartialEq, Eq)]
pub struct Category {
    pub category_id: i64,
    pub category: String,
}

/// What a [`Category`] stands for.
pub struct CategoryView {
    pub category_id: i64,
    pub category: Seq<char>,
}

impl View for Category {
    type V = CategoryView;

    open spec fn view(&self) -> CategoryView {
        CategoryView { category_id: self.category_id, category: self.category@ }
    }
}

impl DeepView for Category {
    type V = CategoryView;

    open spec fn deep_view(&self) -> CategoryView {
        self@
    }
}

impl Category {
    /// The category with the given key and name.
    pub fn new(category_id: i64, category: &str) -> (c: Category)
        ensures
            c@ == (CategoryView { category_id, category: category@ }),
    {
        Category { category_id, category: category.to_owned() }
    }
}

/// A product of the catalog, under its category.
#[derive(Clone, Debug, PartialEq, Eq)]
pub struct Product {
    pub product_id: i64,
    pub category_id: i64,
    pub product: String,
}

/// What a [`Product`] stands for.
pub struct ProductView {
    pub product_id: i64,
    pub category_id: i64,
    pub product: Seq<char>,
}

impl View for Product {
    type V = ProductView;

    open spec fn view(&self) -> ProductView {
        ProductView {
            product_id: self.product_id,
            category_id: self.category_id,
            product: self.product@,
        }
    }
}

impl DeepView for Product {
    type V = ProductView;

    open spec fn deep_view(&self) -> ProductView {
        self@
    }
}

impl Product {
    /// The product with the given keys and name.
    pub fn new(product_id: i64, category_id: i64, product: &str) -> (p: Product)
        ensures
            p@ == (ProductView { product_id, category_id, product: product@ }),
    {
        Product { product_id, category_id, product: product.to_owned() }
    }
}

/// One item of a receipt: what was bought, under which category, for how much.
#[derive(Clone, Debug, PartialEq, Eq)]
pub struct Entry {
    pub category: String,
    pub product: String,
    pub price: Price,
}

/// What an [`Entry`] stands for.
pub struct EntryView {
    pub category: Seq<char>,
    pub product: Seq<char>,
    pub price: Price,
}

impl View for Entry {
    type V = EntryView;

    open spec fn view(&self) -> EntryView {
        EntryView { category: self.category@, product: self.product@, price: self.price }
    }
}

impl DeepView for Entry {
    type V = EntryView;

    open spec fn deep_view(&self) -> EntryView {
        self@
    }
}

impl Entry {
    /// The item with the given category, product and price.
    pub fn new(category: &str, product: &str, price: Price) -> (e: Entry)
        ensures
            e@ == (EntryView { category: category@, product: product@, price }),
    {
        Entry { category: category.to_owned(), product: product.to_owned(), price }
    }

    /// A copy of this item.
    pub fn duplicate(&self) -> (e: Entry)
        ensures
            e@ == self@,
    {
        Entry { category: self.category.clone(), product: self.product.clone(), price: self.price }
    }
}

/// A stored receipt.
#[derive(Clone, Debug, PartialEq, Eq)]
pub struct Bon {
    pub bon_id: i64,
    pub date: String,
    pub price: Price,
    pub entries: Vec<Entry>,
}

/// What a [`Bon`] stands for.
pub struct BonView {
    pub bon_id: i64,
    pub date: Seq<char>,
    pub price: Price,
    pub entries: Seq<EntryView>,
}

impl View for Bon {
    type V = BonView;

    open spec fn view(&self) -> BonView {
        BonView {
            bon_id: self.bon_id,
            date: self.date@,
            price: self.price,
            entries: self.entries.deep_view(),
        }
    }
}

impl DeepView for Bon {
    type V = BonView;

    open spec fn deep_view(&self) -> BonView {
        self@
    }
}

impl Bon {
    /// A receipt of the given date and total, without items and not yet stored.
    pub fn new(date: &str, price: Price) -> (b: Bon)
        ensures
            b@ == (BonView { bon_id: 0, date: date@, price, entries: Seq::empty() }),
    {
        let b = Bon { bon_id: 0, date: date.to_owned(), price, entries: Vec::new() };
        assert(b.entries.deep_view() =~= Seq::<EntryView>::empty());
        b
    }
}

impl Default for Bon {
    fn default() -> (b: Bon)
        ensures
            b@ == (BonView {
                bon_id: 0,
                date: Seq::empty(),
                price: Price { units: 0 },
                entries: Seq::empty(),
            }),
    {
        let b = Bon { bon_id: 0, date: String::new(), price: Price { units: 0 }, entries: Vec::new() };
        assert(b.entries.deep_view() =~= Seq::<EntryView>::empty());
        b
    }
}

/// What the store held at one moment, as far as the library reads it.
#[derive(Clone, Debug)]
pub struct Snapshot {
    /// The stored receipts that are not hidden.
    pub bons: Vec<Bon>,
    /// The categories.
    pub categories: Vec<Category>,
    /// The catalog of products.
    pub products: Vec<Product>,
    /// The texts that bar a recognised line from the list.
    pub blacklist: Vec<String>,
    /// The names of the files that were committed before.
    pub processed: Vec<String>,
    /// The names of the files in the import directory.
    pub files: Vec<String>,
}

/// What the store held at one moment, as a mathematical value.
pub struct SnapshotView {
    pub bons: Seq<BonView>,
    pub categories: Seq<CategoryView>,
    pub products: Seq<ProductView>,
    pub blacklist: Seq<Seq<char>>,
    pub processed: Seq<Seq<char>>,
    pub files: Seq<Seq<char>>,
}

impl View for Snapshot {
    type V = SnapshotView;

    open spec fn view(&self) -> SnapshotView {
        SnapshotView {
            bons: self.bons.deep_view(),
            categories: self.categories.deep_view(),
            products: self.products.deep_view(),
            blacklist: self.blacklist.deep_view(),
            processed: self.processed.deep_view(),
            files: self.files.deep_view(),
        }
    }
}

} // verus!
