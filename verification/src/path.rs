//! Paths as text: the relation between a file, the root it was found under,
//! and where it lands in the working copy.
//!
//! Components are separated by `/`. Separators at the end of a path are
//! passed over where its parent or its last component is asked for, and a
//! root may be written with or without one. Nothing here resolves `.` or
//! `..`, or joins separators that stand side by side within a path.

use vstd::prelude::*;
use crate::text::{chars_of, has_prefix, last_segment, last_segment_start, lemma_segment_start, segment_start, slice_matches_at};

verus! {

/// The path separator.
pub open spec fn sep() -> char {
    '/'
}

/// `path` relative to `root`, where `path` is `root` itself or lies under it.
pub open spec fn relative_to(path: Seq<char>, root: Seq<char>) -> Option<Seq<char>> {
    if root.len() == 0 {
        Some(path)
    } else if path == root {
        Some(Seq::<char>::empty())
    } else if has_prefix(path, root) && root.last() == sep() {
        Some(path.subrange(root.len() as int, path.len() as int))
    } else if has_prefix(path, root) && path.len() > root.len() + 1 && path[root.len() as int]
        == sep() {
        Some(path.subrange(root.len() as int + 1, path.len() as int))
    } else {
        None
    }
}

/// `rel` appended to `root` as a further run of components.
pub open spec fn joined(root: Seq<char>, rel: Seq<char>) -> Seq<char> {
    if rel.len() == 0 {
        root
    } else if root.len() == 0 {
        rel
    } else if root.last() == sep() {
        root + rel
    } else {
        root + seq![sep()] + rel
    }
}

/// `p` without the separators at its end; a path made of separators alone
/// keeps one.
pub open spec fn without_trailing_sep(p: Seq<char>) -> Seq<char>
    decreases p.len(),
{
    if p.len() > 1 && p.last() == sep() {
        without_trailing_sep(p.drop_last())
    } else {
        p
    }
}

/// The directory that holds `p`; `None` for the empty path and for `/`.
/// Separators at the end of `p` are passed over.
pub open spec fn parent_of(p: Seq<char>) -> Option<Seq<char>> {
    let q = without_trailing_sep(p);
    let k = segment_start(q, sep());
    if q.len() == 0 || (q.len() == 1 && k == 1) {
        None
    } else if k == 0 {
        Some(Seq::<char>::empty())
    } else if k == 1 {
        Some(q.subrange(0, 1))
    } else {
        Some(q.subrange(0, k - 1))
    }
}

/// The last component of `p`. Separators at the end of `p` are passed over.
pub open spec fn file_name(p: Seq<char>) -> Seq<char> {
    last_segment(without_trailing_sep(p), sep())
}

/// What a file's destination is measured from: the root itself in
/// single-root mode, else the directory that holds the root.
pub open spec fn destination_base(root: Seq<char>, single_root_mode: bool) -> Seq<char> {
    if single_root_mode {
        root
    } else {
        match parent_of(root) {
            Some(p) => p,
            None => root,
        }
    }
}

/// Where the file at `path`, found under `root`, lands in the working copy.
pub open spec fn destination(path: Seq<char>, root: Seq<char>, single_root_mode: bool) -> Seq<
    char,
> {
    match relative_to(path, destination_base(root, single_root_mode)) {
        Some(rel) => rel,
        None => path,
    }
}

/// Joining a root with a path taken relative to it gives the path back.
pub proof fn lemma_relative_round_trip(path: Seq<char>, root: Seq<char>)
    requires
        relative_to(path, root).is_some(),
    ensures
        joined(root, relative_to(path, root).unwrap()) == path,
{
    let rel = relative_to(path, root).unwrap();
    if root.len() == 0 {
        assert(rel.len() == 0 ==> path =~= root);
    } else if path == root {
    } else if has_prefix(path, root) && root.last() == sep() {
        assert(path.subrange(0, path.len() as int) =~= path);
        assert(root + rel =~= path);
    } else {
        assert(root + seq![sep()] + rel =~= path);
    }
}

/// Two paths with the same relative form under one root are the same path.
pub proof fn lemma_relative_injective(a: Seq<char>, b: Seq<char>, root: Seq<char>)
    requires
        relative_to(a, root).is_some(),
        relative_to(a, root) == relative_to(b, root),
    ensures
        a == b,
{
    lemma_relative_round_trip(a, root);
    lemma_relative_round_trip(b, root);
}

/// A root in normal form that is not the filesystem root: not empty, and
/// not ending in a separator.
pub open spec fn proper_root(root: Seq<char>) -> bool {
    &&& root.len() > 0
    &&& root.last() != sep()
    &&& forall|i: int|
        #![trigger root[i]]
        0 <= i < root.len() - 1 ==> !(root[i] == sep() && root[i + 1] == sep())
}

/// What lies under a root lies under the directory that holds the root.
pub proof fn lemma_under_parent(path: Seq<char>, root: Seq<char>)
    requires
        proper_root(root),
        relative_to(path, root).is_some(),
    ensures
        parent_of(root).is_some(),
        relative_to(path, destination_base(root, false)).is_some(),
{
    lemma_segment_start(root, sep());
    let k = segment_start(root, sep());
    assert(has_prefix(path, root)) by {
        if path == root {
            assert(path.subrange(0, root.len() as int) =~= root);
        }
    }
    if k >= 1 {
        let dir = if k == 1 {
            root.subrange(0, 1)
        } else {
            root.subrange(0, k - 1)
        };
        assert(path.subrange(0, dir.len() as int) =~= dir) by {
            assert forall|i: int| 0 <= i < dir.len() implies path.subrange(0, dir.len() as int)[i]
                == dir[i] by {
                assert(path.subrange(0, root.len() as int)[i] == root[i]);
            }
        }
        assert(path[k - 1] == sep()) by {
            assert(path.subrange(0, root.len() as int)[k - 1] == root[k - 1]);
        }
    }
}

/// With several roots, the destination of a file under a root starts with
/// the root's own name: it is the name joined with the file's path relative
/// to the root.
pub proof fn lemma_destination_shape(path: Seq<char>, root: Seq<char>)
    requires
        proper_root(root),
        relative_to(path, root).is_some(),
    ensures
        destination(path, root, false) == joined(
            file_name(root),
            relative_to(path, root).unwrap(),
        ),
        file_name(root).len() > 0,
        forall|j: int| 0 <= j < file_name(root).len() ==> file_name(root)[j] != sep(),
{
    lemma_segment_start(root, sep());
    lemma_relative_round_trip(path, root);
    lemma_under_parent(path, root);
    let k = segment_start(root, sep());
    let rel = relative_to(path, root).unwrap();
    let name = file_name(root);
    let n = path.len() as int;
    assert(name.last() == root.last());
    assert(has_prefix(path, root)) by {
        if path == root {
            assert(path.subrange(0, root.len() as int) =~= root);
        }
    }
    if k == 0 {
        assert(name =~= root);
    } else {
        assert(path[k - 1] == sep()) by {
            assert(path.subrange(0, root.len() as int)[k - 1] == root[k - 1]);
        }
        let dir = destination_base(root, false);
        assert(has_prefix(path, dir)) by {
            assert(path.subrange(0, dir.len() as int) =~= dir) by {
                assert forall|i: int| 0 <= i < dir.len() implies path.subrange(
                    0,
                    dir.len() as int,
                )[i] == dir[i] by {
                    assert(path.subrange(0, root.len() as int)[i] == root[i]);
                }
            }
        }
        if k >= 2 {
            assert(root[k - 2] != sep());
            assert(dir.last() == root[k - 2]);
        }
        assert(relative_to(path, dir) == Some(path.subrange(k, n)));
        if rel.len() == 0 {
            assert(path.subrange(k, n) =~= name);
        } else {
            assert(path =~= root + seq![sep()] + rel);
            assert(path.subrange(k, n) =~= name + seq![sep()] + rel);
        }
    }
}

/// Whether two strings hold the same characters.
pub fn slice_eq(a: &[char], b: &[char]) -> (r: bool)
    ensures
        r == (a@ == b@),
{
    if a.len() != b.len() {
        return false;
    }
    let r = slice_matches_at(a, b, 0);
    assert(a@.subrange(0, b@.len() as int) =~= a@);
    r
}

/// Whether two strings hold the same characters.
pub fn str_eq(a: &str, b: &str) -> (r: bool)
    ensures
        r == (a@ == b@),
{
    let av = chars_of(a);
    let bv = chars_of(b);
    slice_eq(av.as_slice(), bv.as_slice())
}

/// `path` relative to `root`; `None` where `path` is not under `root`.
pub fn strip_root<'a>(path: &'a str, root: &str) -> (r: Option<&'a str>)
    ensures
        match r {
            Some(rel) => relative_to(path@, root@) == Some(rel@),
            None => relative_to(path@, root@).is_none(),
        },
{
    let pv = chars_of(path);
    let rv = chars_of(root);
    let n: usize = pv.len();
    let m: usize = rv.len();
    if m == 0 {
        return Some(path);
    }
    if slice_eq(pv.as_slice(), rv.as_slice()) {
        return Some(path.substring_char(0, 0));
    }
    if !slice_matches_at(pv.as_slice(), rv.as_slice(), 0) {
        return None;
    }
    if rv[m - 1] == '/' {
        return Some(path.substring_char(m, n));
    }
    if n - m > 1 && pv[m] == '/' {
        return Some(path.substring_char(m + 1, n));
    }
    None
}

/// `p` without the separators at its end.
pub fn trim_trailing_sep<'a>(p: &'a str) -> (r: &'a str)
    ensures
        r@ == without_trailing_sep(p@),
{
    let pv = chars_of(p);
    let mut end: usize = pv.len();
    assert(p@.subrange(0, end as int) =~= p@);
    while end > 1 && pv[end - 1] == '/'
        invariant
            pv@ == p@,
            end <= p@.len(),
            without_trailing_sep(p@.subrange(0, end as int)) == without_trailing_sep(p@),
        decreases end,
    {
        proof {
            let cur = p@.subrange(0, end as int);
            assert(cur.drop_last() =~= p@.subrange(0, end - 1));
        }
        end = end - 1;
    }
    p.substring_char(0, end)
}

/// The directory that holds `p`.
pub fn parent<'a>(p: &'a str) -> (r: Option<&'a str>)
    ensures
        match r {
            Some(d) => parent_of(p@) == Some(d@),
            None => parent_of(p@).is_none(),
        },
{
    let q: &str = trim_trailing_sep(p);
    let qv = chars_of(q);
    let n: usize = qv.len();
    let k: usize = last_segment_start(qv.as_slice(), '/');
    proof {
        lemma_segment_start(q@, sep());
    }
    if n == 0 || (n == 1 && k == 1) {
        None
    } else if k == 0 {
        Some(q.substring_char(0, 0))
    } else if k == 1 {
        Some(q.substring_char(0, 1))
    } else {
        Some(q.substring_char(0, k - 1))
    }
}

/// Where the file at `path`, found under `root`, lands in the working copy.
pub fn destination_of(path: &str, root: &str, single_root_mode: bool) -> (r: String)
    ensures
        r@ == destination(path@, root@, single_root_mode),
{
    let base: &str = if single_root_mode {
        root
    } else {
        match parent(root) {
            Some(p) => p,
            None => root,
        }
    };
    match strip_root(path, base) {
        Some(rel) => String::from_str(rel),
        None => String::from_str(path),
    }
}

/// `rel` appended to `root`: the inverse of taking a path relative to `root`.
pub fn join(root: &str, rel: &str) -> (r: String)
    ensures
        r@ == joined(root@, rel@),
{
    let rv = chars_of(root);
    let m: usize = rv.len();
    if rel.unicode_len() == 0 {
        String::from_str(root)
    } else if m == 0 {
        String::from_str(rel)
    } else if rv[m - 1] == '/' {
        let mut out = String::from_str(root);
        out.append(rel);
        out
    } else {
        let mut out = String::from_str(root);
        proof {
            reveal_strlit("/");
            assert("/"@ =~= seq![sep()]);
        }
        out.append("/");
        out.append(rel);
        out
    }
}

} // verus!
