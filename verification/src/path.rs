//! Paths of files, as texts: a directory and a name joined by a slash, and
//! the name taken off a path again.

use crate::text::{
    find_last, last_index_of, lemma_last_index_of, to_chars, to_string, to_string_range,
};
use vstd::prelude::*;

verus! {

/// The path of the file `name` in the directory `dir`: the two joined by a
/// slash, unless the directory ends in one. In no directory, the name alone.
pub open spec fn joined(dir: Seq<char>, name: Seq<char>) -> Seq<char> {
    if dir.len() == 0 {
        name
    } else if dir.last() == '/' {
        dir + name
    } else {
        dir + seq!['/'] + name
    }
}

/// The name of the file at a path: what follows the last slash of the path,
/// all of the path where it holds none.
pub open spec fn file_name(path: Seq<char>) -> Seq<char> {
    path.subrange(last_index_of(path, '/', path.len() as int) + 1, path.len() as int)
}

/// Whether a text holds a slash.
pub open spec fn has_slash(name: Seq<char>) -> bool {
    exists|i: int| 0 <= i < name.len() && #[trigger] name[i] == '/'
}

/// Where a slash is looked for from the end of a text that ends in a part
/// without one, the part is passed over.
proof fn lemma_last_index_passes(head: Seq<char>, tail: Seq<char>, to: int)
    requires
        !has_slash(tail),
        head.len() <= to <= head.len() + tail.len(),
    ensures
        last_index_of(head + tail, '/', to) == last_index_of(head + tail, '/', head.len() as int),
    decreases to,
{
    if to > head.len() {
        assert((head + tail)[to - 1] == tail[to - 1 - head.len()]);
        lemma_last_index_passes(head, tail, to - 1);
    }
}

/// The name of a file at the path of that name in a directory is the name
/// again, whatever the directory, as long as the name holds no slash.
pub proof fn lemma_file_name_of_joined(dir: Seq<char>, name: Seq<char>)
    requires
        !has_slash(name),
    ensures
        file_name(joined(dir, name)) == name,
{
    let path = joined(dir, name);
    if dir.len() == 0 {
        lemma_last_index_of(name, '/', name.len() as int);
        let at = last_index_of(name, '/', name.len() as int);
        if at >= 0 {
            assert(name[at] == '/');
        }
        assert(name.subrange(0, name.len() as int) =~= name);
    } else {
        let head = if dir.last() == '/' {
            dir
        } else {
            dir + seq!['/']
        };
        assert(path =~= head + name);
        assert(head.last() == '/');
        lemma_last_index_passes(head, name, path.len() as int);
        assert((head + name)[head.len() - 1] == '/');
        assert(last_index_of(path, '/', head.len() as int) == head.len() - 1);
        assert(path.subrange(head.len() as int, path.len() as int) =~= name);
    }
}

/// The path of the file `name` in the directory `dir`.
pub fn join_path(dir: &str, name: &str) -> (path: String)
    ensures
        path@ == joined(dir@, name@),
{
    let d = to_chars(dir);
    let n = to_chars(name);
    let mut out: Vec<char> = Vec::new();
    let mut i: usize = 0;
    while i < d.len()
        invariant
            i <= d.len(),
            out@ == d@.take(i as int),
        decreases d.len() - i,
    {
        out.push(d[i]);
        i += 1;
    }
    assert(d@.take(d.len() as int) =~= d@);
    if d.len() > 0 && d[d.len() - 1] != '/' {
        out.push('/');
    }
    let ghost prefix = out@;
    let mut k: usize = 0;
    while k < n.len()
        invariant
            k <= n.len(),
            out@ == prefix + n@.take(k as int),
        decreases n.len() - k,
    {
        out.push(n[k]);
        k += 1;
    }
    assert(n@.take(n.len() as int) =~= n@);
    assert(Seq::<char>::empty() + n@ =~= n@);
    to_string(&out)
}

/// The name of the file at a path: see [`file_name`].
pub fn file_name_of(path: &str) -> (name: String)
    ensures
        name@ == file_name(path@),
{
    let v = to_chars(path);
    assert(v@.subrange(0, v.len() as int) =~= v@);
    proof {
        lemma_last_index_of(v@, '/', v.len() as int);
    }
    let from: usize = match find_last(&v, '/', 0, v.len()) {
        Some(at) => at + 1,
        None => 0,
    };
    to_string_range(&v, from, v.len())
}

} // verus!
