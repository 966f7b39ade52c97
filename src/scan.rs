//! Which walked paths are package archives.

use vstd::prelude::*;

use crate::record::texts;
use crate::text::{chars_of, find_last, last_index};

verus! {

/// The last segment of a `/`-separated path.
pub open spec fn file_name_of(p: Seq<char>) -> Seq<char> {
    match last_index(p, '/') {
        Some(k) => p.subrange(k + 1, p.len() as int),
        None => p,
    }
}

/// A path whose last segment has the extension `deb`: a non-empty stem,
/// then `.deb`.
pub open spec fn is_archive(p: Seq<char>) -> bool {
    let n = file_name_of(p);
    let l = n.len();
    &&& l > 4
    &&& n[l - 4] == '.'
    &&& n[l - 3] == 'd'
    &&& n[l - 2] == 'e'
    &&& n[l - 1] == 'b'
}

/// The archive paths among `ps`, in their order.
pub open spec fn archives_in(ps: Seq<Seq<char>>) -> Seq<Seq<char>>
    decreases ps.len(),
{
    if ps.len() == 0 {
        Seq::empty()
    } else if is_archive(ps.last()) {
        archives_in(ps.drop_last()).push(ps.last())
    } else {
        archives_in(ps.drop_last())
    }
}

/// Whether `path` names a package archive by its extension.
pub fn is_archive_path(path: &str) -> (r: bool)
    ensures
        r == is_archive(path@),
{
    let cs = chars_of(path);
    let n = cs.len();
    let start = match find_last(&cs, 0, n, '/') {
        Some(k) => k + 1,
        None => 0,
    };
    assert(cs@.subrange(0, n as int) =~= cs@);
    assert(file_name_of(path@) =~= cs@.subrange(start as int, n as int));
    n - start > 4 && cs[n - 4] == '.' && cs[n - 3] == 'd' && cs[n - 2] == 'e' && cs[n - 1] == 'b'
}

/// The archive paths among the walked `paths`, in their order.
pub fn select_archives(paths: Vec<String>) -> (r: Vec<String>)
    ensures
        texts(r@) == archives_in(texts(paths@)),
{
    let ghost ps = texts(paths@);
    let mut r: Vec<String> = Vec::new();
    for p in it: paths
        invariant
            it.seq() == paths@,
            ps == texts(paths@),
            texts(r@) == archives_in(ps.subrange(0, it.index() as int)),
    {
        let ghost i = it.index();
        assert(ps.subrange(0, i + 1).drop_last() =~= ps.subrange(0, i as int));
        assert(ps.subrange(0, i + 1).last() == p@);
        if is_archive_path(p.as_str()) {
            let ghost before = texts(r@);
            r.push(p);
            assert(texts(r@) =~= before.push(p@));
        }
    }
    assert(ps.subrange(0, ps.len() as int) =~= ps);
    r
}

proof fn lemma_push_contains(q: Seq<Seq<char>>, s: Seq<char>, x: Seq<char>)
    ensures
        q.push(s).contains(x) <==> (q.contains(x) || x == s),
{
    if q.push(s).contains(x) {
        let j = choose|j: int| 0 <= j < q.push(s).len() && q.push(s)[j] == x;
        if j < q.len() {
            assert(q[j] == x);
        }
    }
    if q.contains(x) {
        let j = choose|j: int| 0 <= j < q.len() && q[j] == x;
        assert(q.push(s)[j] == x);
    }
    if x == s {
        assert(q.push(s)[q.len() as int] == x);
    }
}

/// A path is among the selected ones exactly when it was walked and is an
/// archive.
pub proof fn lemma_archives_in_contains(ps: Seq<Seq<char>>, x: Seq<char>)
    ensures
        archives_in(ps).contains(x) <==> (ps.contains(x) && is_archive(x)),
    decreases ps.len(),
{
    if ps.len() > 0 {
        let pre = ps.drop_last();
        let s = ps.last();
        lemma_archives_in_contains(pre, x);
        assert(ps =~= pre.push(s));
        lemma_push_contains(pre, s, x);
        lemma_push_contains(archives_in(pre), s, x);
    }
}

/// Two walks that found the same set of paths, in whatever order, select the
/// same set of archives.
pub proof fn lemma_selection_order_independent(a: Seq<Seq<char>>, b: Seq<Seq<char>>)
    requires
        a.to_set() == b.to_set(),
    ensures
        archives_in(a).to_set() == archives_in(b).to_set(),
{
    assert forall|x: Seq<char>| archives_in(a).to_set().contains(x) <==> archives_in(b).to_set().contains(x) by {
        lemma_archives_in_contains(a, x);
        lemma_archives_in_contains(b, x);
        assert(a.to_set().contains(x) == a.contains(x));
        assert(b.to_set().contains(x) == b.contains(x));
    }
    assert(archives_in(a).to_set() =~= archives_in(b).to_set());
}

} // verus!
