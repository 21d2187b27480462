//! The folder pane's flattened listing and the conversion between a
//! position in it and a path of child indices.
use vstd::prelude::*;
use crate::folder::{Folder, sorted_children, lemma_display_order_prefix, folder_names};
use crate::store::valid_path;

verus! {

broadcast use vstd::std_specs::vec::group_vec_axioms, vstd::seq::group_seq_axioms;

/// The paths of all folders below `f`, depth first, children in display
/// order, each folder before its own children; `prefix` is the path of `f`.
pub open spec fn flat_of(f: Folder, prefix: Seq<usize>) -> Seq<Seq<usize>>
    decreases f, 1int, 0int,
{
    flat_children(f, prefix, 0)
}

/// The part of `flat_of(f, prefix)` that starts at the `k`-th child in
/// display order.
pub open spec fn flat_children(f: Folder, prefix: Seq<usize>, k: int) -> Seq<Seq<usize>>
    decreases f, 0int, sorted_children(f).len() - k,
{
    if k < 0 || k >= sorted_children(f).len() {
        Seq::empty()
    } else {
        let c = sorted_children(f)[k];
        if c < f.subfolders@.len() {
            seq![prefix.push(c)] + flat_of(f.subfolders@[c as int], prefix.push(c)) + flat_children(f, prefix, k + 1)
        } else {
            Seq::empty()
        }
    }
}

proof fn proof_decreases_child(f: Folder, c: int)
    requires
        0 <= c < f.subfolders@.len(),
    ensures
        decreases_to!(f => f.subfolders@[c]),
{
    assert(decreases_to!(f => f.subfolders));
    assert(decreases_to!(f.subfolders => f.subfolders@));
    assert(decreases_to!(f.subfolders@ => f.subfolders@[c]));
}

/// The folder pane's listing of the tree under `root`, root excluded.
pub open spec fn flat_list(root: Folder) -> Seq<Seq<usize>> {
    flat_of(root, Seq::empty())
}

pub open spec fn paths_view(v: Seq<Vec<usize>>) -> Seq<Seq<usize>> {
    v.map_values(|p: Vec<usize>| p@)
}

fn flat_into(f: &Folder, prefix: &Vec<usize>, out: &mut Vec<Vec<usize>>)
    ensures
        paths_view(final(out)@) == paths_view(old(out)@) + flat_of(*f, prefix@),
    decreases *f, 1int, 0int,
{
    let order = f.sorted_indices();
    let n = f.subfolders.len();
    proof {
        lemma_display_order_prefix(folder_names(f.subfolders@), n as nat);
    }
    let mut k: usize = 0;
    while k < order.len()
        invariant
            order@ == sorted_children(*f),
            order@.len() == n,
            n == f.subfolders@.len(),
            forall|q: int| 0 <= q < n ==> (#[trigger] order@[q]) < n,
            k <= order@.len(),
            flat_of(*f, prefix@) == flat_children(*f, prefix@, 0),
            paths_view(out@) + flat_children(*f, prefix@, k as int) == paths_view(old(out)@) + flat_of(*f, prefix@),
        decreases order@.len() - k,
    {
        let c = order[k];
        let mut p = prefix.clone();
        assert(p@ == prefix@);
        p.push(c);
        let ghost before = paths_view(out@);
        out.push(p.clone());
        assert(paths_view(out@) == before.push(p@));
        proof {
            proof_decreases_child(*f, c as int);
        }
        flat_into(&f.subfolders[c], &p, out);
        assert(flat_children(*f, prefix@, k as int) == seq![prefix@.push(c)] + flat_of(f.subfolders@[c as int], prefix@.push(c))
            + flat_children(*f, prefix@, k + 1));
        k = k + 1;
    }
}

/// The paths of the folders listed in the folder pane, in listing order.
pub fn build_flat_folder_list(folder: &Folder) -> (r: Vec<Vec<usize>>)
    ensures
        paths_view(r@) == flat_list(*folder),
{
    let mut out: Vec<Vec<usize>> = Vec::new();
    let prefix: Vec<usize> = Vec::new();
    assert(paths_view(out@) == Seq::<Seq<usize>>::empty());
    flat_into(folder, &prefix, &mut out);
    out
}

/// The number of folders listed in the folder pane.
pub fn count_visible_folders(folder: &Folder) -> (r: usize)
    ensures
        r == flat_list(*folder).len(),
{
    let l = build_flat_folder_list(folder);
    l.len()
}

/// The path of the folder shown at `display_index` in the folder pane.
pub fn get_folder_path_from_display_index(folder: &Folder, display_index: usize) -> (r: Option<Vec<usize>>)
    ensures
        display_index < flat_list(*folder).len() ==> r is Some && r->Some_0@ == flat_list(*folder)[display_index as int],
        display_index >= flat_list(*folder).len() ==> r is None,
{
    let mut flat = build_flat_folder_list(folder);
    if display_index < flat.len() {
        let ghost v = paths_view(flat@);
        let p = flat.remove(display_index);
        assert(p@ == v[display_index as int]);
        Some(p)
    } else {
        None
    }
}

/// The first position at which `path` is listed, if it is.
pub open spec fn first_index_of(l: Seq<Seq<usize>>, path: Seq<usize>) -> Option<int> {
    if exists|i: int| 0 <= i < l.len() && l[i] == path {
        Some(choose|i: int| 0 <= i < l.len() && l[i] == path && forall|j: int| 0 <= j < i ==> l[j] != path)
    } else {
        None
    }
}

fn vec_eq(a: &Vec<usize>, b: &Vec<usize>) -> (r: bool)
    ensures
        r == (a@ == b@),
{
    if a.len() != b.len() {
        return false;
    }
    let mut i: usize = 0;
    while i < a.len()
        invariant
            a.len() == b.len(),
            i <= a.len(),
            forall|k: int| 0 <= k < i ==> a@[k] == b@[k],
        decreases a.len() - i,
    {
        if a[i] != b[i] {
            return false;
        }
        i = i + 1;
    }
    assert(a@ == b@);
    true
}

/// The position at which the folder with the given path is listed in the
/// folder pane; `None` when it is not listed.
pub fn display_index_of_path(folder: &Folder, path: &Vec<usize>) -> (r: Option<usize>)
    ensures
        r is None ==> forall|i: int| 0 <= i < flat_list(*folder).len() ==> flat_list(*folder)[i] != path@,
        r is Some ==> r->Some_0 < flat_list(*folder).len() && flat_list(*folder)[r->Some_0 as int] == path@
            && forall|j: int| 0 <= j < r->Some_0 ==> flat_list(*folder)[j] != path@,
{
    let flat = build_flat_folder_list(folder);
    let ghost l = flat_list(*folder);
    assert(l.len() == flat@.len());
    let mut i: usize = 0;
    while i < flat.len()
        invariant
            l == flat_list(*folder),
            paths_view(flat@) == l,
            l.len() == flat@.len(),
            i <= flat@.len(),
            forall|j: int| 0 <= j < i ==> l[j] != path@,
        decreases flat@.len() - i,
    {
        if vec_eq(&flat[i], path) {
            assert(l[i as int] == flat@[i as int]@);
            return Some(i);
        }
        assert(l[i as int] == flat@[i as int]@);
        i = i + 1;
    }
    None
}

} // verus!

verus! {

/// Every path in the listing of `f` below `prefix` starts with `prefix`
/// and continues with valid child indices of the folder at `prefix`.
proof fn lemma_flat_paths_valid(f: Folder, prefix: Seq<usize>, k: int)
    ensures
        forall|i: int| 0 <= i < flat_children(f, prefix, k).len() ==> {
            let p = #[trigger] flat_children(f, prefix, k)[i];
            &&& p.len() > prefix.len()
            &&& p.subrange(0, prefix.len() as int) == prefix
            &&& valid_path(f, p.subrange(prefix.len() as int, p.len() as int))
        },
    decreases f, 0int, sorted_children(f).len() - k,
{
    if 0 <= k < sorted_children(f).len() {
        let c = sorted_children(f)[k];
        if c < f.subfolders@.len() {
            let sub = f.subfolders@[c as int];
            let q = prefix.push(c);
            proof_decreases_child(f, c as int);
            lemma_flat_paths_valid(sub, q, 0);
            lemma_flat_paths_valid(f, prefix, k + 1);
            let head = seq![q];
            let mid = flat_of(sub, q);
            let tail = flat_children(f, prefix, k + 1);
            assert(flat_children(f, prefix, k) == head + mid + tail);
            assert forall|i: int| 0 <= i < flat_children(f, prefix, k).len() implies {
                let p = #[trigger] flat_children(f, prefix, k)[i];
                &&& p.len() > prefix.len()
                &&& p.subrange(0, prefix.len() as int) == prefix
                &&& valid_path(f, p.subrange(prefix.len() as int, p.len() as int))
            } by {
                let p = flat_children(f, prefix, k)[i];
                if i == 0 {
                    assert(p == q);
                    assert(p.subrange(0, prefix.len() as int) == prefix);
                    let rest = p.subrange(prefix.len() as int, p.len() as int);
                    assert(rest == seq![c]);
                    assert(rest.drop_first() == Seq::<usize>::empty());
                    assert(valid_path(sub, rest.drop_first()));
                    assert(valid_path(f, rest));
                } else if i < 1 + mid.len() {
                    assert(p == mid[i - 1]);
                    assert(mid == flat_children(sub, q, 0));
                    let rest = p.subrange(prefix.len() as int, p.len() as int);
                    assert(p.subrange(0, q.len() as int) == q);
                    assert(p.subrange(0, prefix.len() as int) == q.subrange(0, prefix.len() as int));
                    assert(p[prefix.len() as int] == p.subrange(0, q.len() as int)[prefix.len() as int]);
                    assert(q[prefix.len() as int] == c);
                    assert(rest[0] == p[prefix.len() as int]);
                    assert(rest[0] == c);
                    assert(rest.drop_first() == p.subrange(q.len() as int, p.len() as int));
                    assert(valid_path(sub, p.subrange(q.len() as int, p.len() as int)));
                    assert(valid_path(f, rest));
                    assert(p.len() > prefix.len());
                } else {
                    let j = i - 1 - mid.len();
                    assert(p == tail[j]);
                    assert(p == flat_children(f, prefix, k + 1)[j]);
                    assert(p.len() > prefix.len());
                    assert(p.subrange(0, prefix.len() as int) == prefix);
                    assert(valid_path(f, p.subrange(prefix.len() as int, p.len() as int)));
                }
            }
        }
    }
}

/// A listed path names a folder: every index of it is valid.
pub proof fn lemma_listed_paths_valid(root: Folder, i: int)
    requires
        0 <= i < flat_list(root).len(),
    ensures
        valid_path(root, flat_list(root)[i]),
{
    lemma_flat_paths_valid(root, Seq::empty(), 0);
    assert(flat_list(root) == flat_children(root, Seq::empty(), 0));
    let p = flat_list(root)[i];
    assert(p.subrange(0, 0) == Seq::<usize>::empty());
    assert(p.subrange(0, p.len() as int) == p);
}

} // verus!

verus! {

/// Every path listed from the `k`-th child on extends `prefix` with a
/// child index taken from display positions `k` onwards, and no path is
/// listed twice.
proof fn lemma_flat_distinct(f: Folder, prefix: Seq<usize>, k: int)
    requires
        0 <= k,
    ensures
        forall|i: int| 0 <= i < flat_children(f, prefix, k).len() ==> {
            let p = #[trigger] flat_children(f, prefix, k)[i];
            &&& p.len() > prefix.len()
            &&& p.subrange(0, prefix.len() as int) == prefix
            &&& exists|j: int| k <= j < sorted_children(f).len() && sorted_children(f)[j] == p[prefix.len() as int]
        },
        forall|i: int, i2: int| 0 <= i < i2 < flat_children(f, prefix, k).len() ==>
            flat_children(f, prefix, k)[i] != flat_children(f, prefix, k)[i2],
    decreases f, 0int, sorted_children(f).len() - k,
{
    let o = sorted_children(f);
    if k < o.len() {
        let c = o[k];
        if c < f.subfolders@.len() {
            let sub = f.subfolders@[c as int];
            let q = prefix.push(c);
            proof_decreases_child(f, c as int);
            lemma_flat_distinct(sub, q, 0);
            lemma_flat_distinct(f, prefix, k + 1);
            assert(f.subfolders.len() == f.subfolders@.len());
            lemma_display_order_prefix(folder_names(f.subfolders@), f.subfolders@.len());
            let mid = flat_of(sub, q);
            let tail = flat_children(f, prefix, k + 1);
            let all = flat_children(f, prefix, k);
            assert(mid == flat_children(sub, q, 0));
            assert(all == seq![q] + mid + tail);
            let n = prefix.len() as int;
            assert forall|i: int| 0 <= i < all.len() implies {
                let p = #[trigger] all[i];
                &&& p.len() > prefix.len()
                &&& p.subrange(0, n) == prefix
                &&& exists|j: int| k <= j < o.len() && o[j] == p[n]
            } by {
                let p = all[i];
                if i == 0 {
                    assert(p == q);
                    assert(p.subrange(0, n) == prefix);
                    assert(o[k] == p[n]);
                } else if i < 1 + mid.len() {
                    assert(p == mid[i - 1]);
                    assert(p.subrange(0, q.len() as int) == q);
                    assert(p[n] == p.subrange(0, q.len() as int)[n]);
                    assert(p.subrange(0, n) == p.subrange(0, q.len() as int).subrange(0, n));
                    assert(q.subrange(0, n) == prefix);
                    assert(o[k] == p[n]);
                } else {
                    assert(p == tail[i - 1 - mid.len()]);
                    let j = choose|j: int| k + 1 <= j < o.len() && o[j] == p[n];
                    assert(k <= j < o.len() && o[j] == p[n]);
                }
            }
            assert forall|i: int, i2: int| 0 <= i < i2 < all.len() implies all[i] != all[i2] by {
                let p = all[i];
                let p2 = all[i2];
                if i2 < 1 + mid.len() {
                    if i == 0 {
                        assert(p2 == mid[i2 - 1]);
                        assert(p2.len() > q.len());
                    } else {
                        assert(p == mid[i - 1] && p2 == mid[i2 - 1]);
                    }
                } else if i >= 1 + mid.len() {
                    assert(p == tail[i - 1 - mid.len()] && p2 == tail[i2 - 1 - mid.len()]);
                } else {
                    assert(p2 == tail[i2 - 1 - mid.len()]);
                    let j = choose|j: int| k + 1 <= j < o.len() && o[j] == p2[n];
                    if i == 0 {
                        assert(p == q);
                        assert(p[n] == c);
                    } else {
                        assert(p == mid[i - 1]);
                        assert(p.subrange(0, q.len() as int) == q);
                        assert(p[n] == p.subrange(0, q.len() as int)[n]);
                    }
                    assert(o[j] != o[k]);
                    assert(p[n] != p2[n]);
                }
            }
        }
    }
}

/// Each listed position resolves to a path that is listed at that same
/// position and at no earlier one, so going from a position to its path
/// and back is the identity.
pub proof fn law_display_index_round_trip(root: Folder, i: int)
    requires
        0 <= i < flat_list(root).len(),
    ensures
        forall|j: int| 0 <= j < flat_list(root).len() && flat_list(root)[j] == flat_list(root)[i] ==> j == i,
{
    lemma_flat_distinct(root, Seq::empty(), 0);
    assert(flat_list(root) == flat_children(root, Seq::empty(), 0));
}

} // verus!
