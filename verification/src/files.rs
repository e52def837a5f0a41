//! Which files of the import directory are offered for import.

use crate::text::{contains, contains_any, occurs_any, occurs_at, occurs_in, to_chars};
use vstd::prelude::*;

verus! {

/// Whether a file name names an image: whether `jpg`, `png` or `jpeg` occurs
/// in it.
pub open spec fn is_image_name(name: Seq<char>) -> bool {
    occurs_in(name, "jpg"@) || occurs_in(name, "png"@) || occurs_in(name, "jpeg"@)
}

/// Whether a file is offered for import: it names an image, and the name of
/// no processed file occurs in its name.
pub open spec fn importable(name: Seq<char>, processed: Seq<Seq<char>>) -> bool {
    !occurs_any(name, processed) && is_image_name(name)
}

/// The files offered for import, in the order of the directory.
pub open spec fn importable_names(files: Seq<Seq<char>>, processed: Seq<Seq<char>>) -> Seq<
    Seq<char>,
>
    decreases files.len(),
{
    if files.len() == 0 {
        Seq::empty()
    } else {
        let before = importable_names(files.drop_last(), processed);
        if importable(files.last(), processed) {
            before.push(files.last())
        } else {
            before
        }
    }
}

/// Every file offered for import is a file of the directory and is
/// importable.
pub proof fn lemma_importable_names(files: Seq<Seq<char>>, processed: Seq<Seq<char>>)
    ensures
        forall|k: int|
            0 <= k < importable_names(files, processed).len() ==> files.contains(
                #[trigger] importable_names(files, processed)[k],
            ) && importable(importable_names(files, processed)[k], processed),
    decreases files.len(),
{
    if files.len() > 0 {
        let before = importable_names(files.drop_last(), processed);
        let all = importable_names(files, processed);
        lemma_importable_names(files.drop_last(), processed);
        assert forall|k: int| 0 <= k < all.len() implies files.contains(#[trigger] all[k])
            && importable(all[k], processed) by {
            if k < before.len() {
                assert(all[k] == before[k]);
                let j = choose|j: int|
                    0 <= j < files.drop_last().len() && files.drop_last()[j] == before[k];
                assert(files[j] == before[k]);
            } else {
                assert(files[files.len() - 1] == all[k]);
            }
        }
    }
}

/// A file that was processed is not offered for import again, whatever the
/// directory holds.
pub proof fn lemma_processed_is_not_offered(
    files: Seq<Seq<char>>,
    processed: Seq<Seq<char>>,
    name: Seq<char>,
)
    requires
        processed.contains(name),
    ensures
        !importable(name, processed),
        !importable_names(files, processed).contains(name),
{
    let k = choose|k: int| 0 <= k < processed.len() && processed[k] == name;
    assert(name.subrange(0, name.len() as int) =~= name);
    assert(occurs_at(name, name, 0));
    assert(occurs_in(name, processed[k]));
    lemma_importable_names(files, processed);
}

/// Whether a file is offered for import.
pub fn is_importable(name: &str, processed: &Vec<String>) -> (r: bool)
    ensures
        r == importable(name@, processed.deep_view()),
{
    let v = to_chars(name);
    if contains_any(&v, processed) {
        return false;
    }
    let jpg = to_chars("jpg");
    let png = to_chars("png");
    let jpeg = to_chars("jpeg");
    contains(&v, &jpg) || contains(&v, &png) || contains(&v, &jpeg)
}

/// The files of a directory that are offered for import: the images that
/// were not processed before, in the order of the directory.
pub fn importable_files(files: &Vec<String>, processed: &Vec<String>) -> (r: Vec<String>)
    ensures
        r.deep_view() == importable_names(files.deep_view(), processed.deep_view()),
{
    let ghost all = files.deep_view();
    let mut r: Vec<String> = Vec::new();
    let mut i: usize = 0;
    assert(all.take(0) =~= Seq::<Seq<char>>::empty());
    assert(r.deep_view() =~= Seq::<Seq<char>>::empty());
    while i < files.len()
        invariant
            i <= files.len(),
            all == files.deep_view(),
            r.deep_view() == importable_names(all.take(i as int), processed.deep_view()),
        decreases files.len() - i,
    {
        let ghost before = r.deep_view();
        proof {
            assert(all.take(i + 1).drop_last() =~= all.take(i as int));
            assert(all.take(i + 1).last() == files@[i as int]@);
        }
        if is_importable(files[i].as_str(), processed) {
            r.push(files[i].clone());
            assert(r.deep_view() =~= before.push(files@[i as int]@));
        }
        i += 1;
    }
    assert(all.take(files.len() as int) =~= all);
    r
}

} // verus!
