//! Matching a name read off a receipt against the catalog of known products.

use crate::database::{Category, CategoryView, Product, ProductView};
use vstd::prelude::*;

verus! {

/// A catalog entry is taken for the product on the receipt where its name
/// lies at a distance below this from the name read.
pub const MATCH_THRESHOLD: usize = 4;

/// The Damerau-Levenshtein distance of two texts: the least number of
/// insertions, deletions and substitutions of one character, and of swaps of
/// two neighbours, that turns one into the other.
pub uninterp spec fn damerau_levenshtein(a: Seq<char>, b: Seq<char>) -> nat;

/// `textdistance::str::damerau_levenshtein` computes the unrestricted
/// Damerau-Levenshtein distance of two strings, character by character, each
/// edit and each swap counting one. Its result is a function of the two texts
/// alone; what the distance of two given texts is, is not stated here. The
/// function fills a table of as many cells as the product of the two lengths,
/// so it returns for whatever texts and table fit in memory together.
pub assume_specification[ textdistance::str::damerau_levenshtein ](s1: &str, s2: &str) -> (d:
    usize)
    ensures
        d == damerau_levenshtein(s1@, s2@),
;

/// The distances of `name` to the names of `products`, in their order.
pub open spec fn distances_of(name: Seq<char>, products: Seq<ProductView>) -> Seq<usize> {
    Seq::new(products.len(), |i: int| damerau_levenshtein(name, products[i].product) as usize)
}

/// The index of the first least member of `d[..n]`; 0 where `n` is at most 1.
pub open spec fn first_minimum_of(d: Seq<usize>, n: int) -> int
    decreases n,
{
    if n <= 1 {
        0
    } else {
        let b = first_minimum_of(d, n - 1);
        if d[n - 1] < d[b] {
            n - 1
        } else {
            b
        }
    }
}

/// What `first_minimum_of` finds is a least member, and the first such.
pub proof fn lemma_first_minimum_of(d: Seq<usize>, n: int)
    requires
        1 <= n <= d.len(),
    ensures
        0 <= first_minimum_of(d, n) < n,
        forall|j: int| 0 <= j < n ==> d[first_minimum_of(d, n)] <= #[trigger] d[j],
        forall|j: int| 0 <= j < first_minimum_of(d, n) ==> d[first_minimum_of(d, n)] < #[trigger] d[j],
    decreases n,
{
    if n > 1 {
        lemma_first_minimum_of(d, n - 1);
    }
}

/// The name of the first category with the key `id`; the empty text where
/// there is none.
pub open spec fn category_name(categories: Seq<CategoryView>, id: i64) -> Seq<char>
    decreases categories.len(),
{
    if categories.len() == 0 {
        Seq::empty()
    } else if categories[0].category_id == id {
        categories[0].category
    } else {
        category_name(categories.drop_first(), id)
    }
}

/// A product and its category, as they will stand in a draft.
#[derive(Clone, Debug, PartialEq, Eq)]
pub struct ProductMatch {
    pub product: String,
    pub category: String,
}

/// What a [`ProductMatch`] stands for.
pub struct ProductMatchView {
    pub product: Seq<char>,
    pub category: Seq<char>,
}

impl View for ProductMatch {
    type V = ProductMatchView;

    open spec fn view(&self) -> ProductMatchView {
        ProductMatchView { product: self.product@, category: self.category@ }
    }
}

/// What a name is matched to, given its distance to each product of the
/// catalog.
///
/// The first product at the least distance is the candidate. Where its
/// distance is below [`MATCH_THRESHOLD`], the match is the candidate's name
/// and the name of its category, empty where no category has its key.
/// Otherwise, and where the catalog is empty or the distances are not one for
/// each product, the name stays as read and the category is empty.
pub open spec fn matched(
    name: Seq<char>,
    distances: Seq<usize>,
    products: Seq<ProductView>,
    categories: Seq<CategoryView>,
) -> ProductMatchView {
    let best = first_minimum_of(distances, distances.len() as int);
    if products.len() > 0 && distances.len() == products.len() && distances[best]
        < MATCH_THRESHOLD {
        ProductMatchView {
            product: products[best].product,
            category: category_name(categories, products[best].category_id),
        }
    } else {
        ProductMatchView { product: name, category: Seq::empty() }
    }
}

/// What a name is matched to in a catalog.
pub open spec fn matched_in(
    name: Seq<char>,
    products: Seq<ProductView>,
    categories: Seq<CategoryView>,
) -> ProductMatchView {
    matched(name, distances_of(name, products), products, categories)
}

/// A name is matched exactly where some product of the catalog lies nearer
/// than [`MATCH_THRESHOLD`]. Then the match is a product at the least
/// distance, the first of them in the order of the catalog, with the name of
/// its category. Otherwise the name stays as read and has no category.
pub proof fn lemma_matched_in(
    name: Seq<char>,
    products: Seq<ProductView>,
    categories: Seq<CategoryView>,
)
    ensures
        (forall|k: int|
            0 <= k < products.len() ==> #[trigger] distances_of(name, products)[k]
                >= MATCH_THRESHOLD) ==> matched_in(name, products, categories) == (ProductMatchView {
            product: name,
            category: Seq::empty(),
        }),
        (exists|k: int|
            0 <= k < products.len() && #[trigger] distances_of(name, products)[k]
                < MATCH_THRESHOLD) ==> exists|best: int|
            {
                &&& 0 <= best < products.len()
                &&& matched_in(name, products, categories) == (ProductMatchView {
                    product: products[best].product,
                    category: category_name(categories, products[best].category_id),
                })
                &&& #[trigger] distances_of(name, products)[best] < MATCH_THRESHOLD
                &&& forall|j: int|
                    0 <= j < products.len() ==> distances_of(name, products)[best]
                        <= #[trigger] distances_of(name, products)[j]
                &&& forall|j: int|
                    0 <= j < best ==> distances_of(name, products)[best] < #[trigger] distances_of(
                        name,
                        products,
                    )[j]
            },
{
    let d = distances_of(name, products);
    if products.len() > 0 {
        lemma_first_minimum_of(d, d.len() as int);
        let best = first_minimum_of(d, d.len() as int);
        if exists|k: int| 0 <= k < products.len() && #[trigger] d[k] < MATCH_THRESHOLD {
            let k = choose|k: int| 0 <= k < products.len() && #[trigger] d[k] < MATCH_THRESHOLD;
            assert(d[best] <= d[k]);
            assert(d[best] < MATCH_THRESHOLD);
        } else if forall|k: int| 0 <= k < products.len() ==> #[trigger] d[k] >= MATCH_THRESHOLD {
            assert(d[best] >= MATCH_THRESHOLD);
        }
    }
}

/// The distance of `name` to the name of each product.
pub fn distances(name: &str, products: &Vec<Product>) -> (d: Vec<usize>)
    ensures
        d@ == distances_of(name@, products.deep_view()),
{
    let mut d: Vec<usize> = Vec::new();
    let mut i: usize = 0;
    while i < products.len()
        invariant
            i <= products.len(),
            d@.len() == i,
            forall|j: int|
                0 <= j < i ==> d@[j] == damerau_levenshtein(
                    name@,
                    #[trigger] products@[j].product@,
                ),
        decreases products.len() - i,
    {
        d.push(textdistance::str::damerau_levenshtein(name, products[i].product.as_str()));
        i += 1;
    }
    assert(d@ =~= distances_of(name@, products.deep_view()));
    d
}

/// The index of the first least member of `d`, if `d` has a member.
pub fn first_minimum(d: &Vec<usize>) -> (r: Option<usize>)
    ensures
        match r {
            Some(i) => d.len() > 0 && i == first_minimum_of(d@, d.len() as int),
            None => d.len() == 0,
        },
{
    if d.len() == 0 {
        return None;
    }
    let mut best: usize = 0;
    let mut n: usize = 1;
    while n < d.len()
        invariant
            1 <= n <= d.len(),
            best < n,
            best == first_minimum_of(d@, n as int),
        decreases d.len() - n,
    {
        if d[n] < d[best] {
            best = n;
        }
        n += 1;
    }
    Some(best)
}

/// The name of the first category with the key `id`, or the empty string.
pub fn category_of(categories: &Vec<Category>, id: i64) -> (name: String)
    ensures
        name@ == category_name(categories.deep_view(), id),
{
    let ghost all = categories.deep_view();
    let mut i: usize = 0;
    assert(all.subrange(0, all.len() as int) =~= all);
    while i < categories.len()
        invariant
            i <= categories.len(),
            all == categories.deep_view(),
            category_name(all.subrange(i as int, all.len() as int), id) == category_name(all, id),
        decreases categories.len() - i,
    {
        let ghost tail = all.subrange(i as int, all.len() as int);
        assert(tail[0] == categories@[i as int]@);
        if categories[i].category_id == id {
            return categories[i].category.clone();
        }
        assert(tail.drop_first() =~= all.subrange(i + 1, all.len() as int));
        i += 1;
    }
    String::new()
}

/// Settles a match from distances that were measured before: see
/// [`matched`].
pub fn resolve(
    name: String,
    distances: &Vec<usize>,
    products: &Vec<Product>,
    categories: &Vec<Category>,
) -> (m: ProductMatch)
    ensures
        m@ == matched(name@, distances@, products.deep_view(), categories.deep_view()),
{
    if products.len() == 0 || distances.len() != products.len() {
        return ProductMatch { product: name, category: String::new() };
    }
    match first_minimum(distances) {
        Some(best) => {
            proof {
                lemma_first_minimum_of(distances@, distances.len() as int);
            }
            if distances[best] < MATCH_THRESHOLD {
                let product = products[best].product.clone();
                let category = category_of(categories, products[best].category_id);
                assert(products.deep_view()[best as int] == products@[best as int]@);
                ProductMatch { product, category }
            } else {
                ProductMatch { product: name, category: String::new() }
            }
        },
        None => ProductMatch { product: name, category: String::new() },
    }
}

/// Matches a name read off a receipt against the catalog.
///
/// The distance of the name to every product is measured, and the match
/// settled from them as [`matched`] says: the nearest product, the first of
/// several, where it is nearer than [`MATCH_THRESHOLD`]; else the name as read,
/// without a category.
pub fn match_product(name: String, products: &Vec<Product>, categories: &Vec<Category>) -> (m:
    ProductMatch)
    ensures
        m@ == matched_in(name@, products.deep_view(), categories.deep_view()),
{
    let d = distances(name.as_str(), products);
    resolve(name, &d, products, categories)
}

} // verus!
