//! Folders: their messages, their children, and the order they are shown in.
use vstd::prelude::*;
use vstd::string::*;
use crate::email::Email;
use crate::text::{
    append_str, chars_of, decimal, eq_ignore_ascii_case, eq_ignore_ascii_case_exec, lemma_lex_irreflexive,
    lemma_lex_total, lemma_lex_transitive, lex_less,
    lex_less_exec, push_decimal,
};

verus! {

/// A mail folder. `subfolders` are kept in the order they were found;
/// `get_sorted_subfolders` gives the order they are shown in.
#[derive(Debug)]
pub struct Folder {
    pub name: String,
    pub path: String,
    pub emails: Vec<Email>,
    pub subfolders: Vec<Folder>,
    pub unread_count: usize,
    pub total_count: usize,
    /// Whether every message on disk has been taken in.
    pub is_loaded: bool,
}

/// The number of unread messages in `emails`.
pub open spec fn unread_in(emails: Seq<Email>) -> nat
    decreases emails.len(),
{
    if emails.len() == 0 {
        0
    } else {
        unread_in(emails.drop_last()) + if emails.last().is_unread { 1nat } else { 0nat }
    }
}

/// The name of the folder that is always shown first, compared without
/// regard to ASCII case.
pub open spec fn is_inbox_name(n: Seq<char>) -> bool {
    eq_ignore_ascii_case(n, "inbox"@)
}

/// Display order of two names: an inbox before anything else, otherwise
/// by name.
pub open spec fn sorts_before(a: Seq<char>, b: Seq<char>) -> bool {
    (is_inbox_name(a) && !is_inbox_name(b)) || (is_inbox_name(a) == is_inbox_name(b) && lex_less(a, b))
}

/// Where child `i` goes in an ordering `sorted` of earlier children:
/// before the first one it sorts before, so that equal names keep their
/// order.
pub open spec fn insert_pos(names: Seq<Seq<char>>, sorted: Seq<usize>, i: int, p: int) -> int
    decreases sorted.len() - p,
{
    if p >= sorted.len() {
        sorted.len() as int
    } else if sorts_before(names[i], names[sorted[p] as int]) {
        p
    } else {
        insert_pos(names, sorted, i, p + 1)
    }
}

/// The display order of the first `n` children.
pub open spec fn display_order_prefix(names: Seq<Seq<char>>, n: nat) -> Seq<usize>
    decreases n,
{
    if n == 0 {
        Seq::empty()
    } else {
        let s = display_order_prefix(names, (n - 1) as nat);
        s.insert(insert_pos(names, s, n - 1, 0), (n - 1) as usize)
    }
}

/// The indices of children with the given names, in display order: a
/// stable sort by `sorts_before`.
pub open spec fn display_order(names: Seq<Seq<char>>) -> Seq<usize> {
    display_order_prefix(names, names.len())
}

pub open spec fn folder_names(fs: Seq<Folder>) -> Seq<Seq<char>> {
    fs.map_values(|f: Folder| f.name@)
}

/// The children of `f` in display order, as indices into `f.subfolders`.
pub open spec fn sorted_children(f: Folder) -> Seq<usize> {
    display_order(folder_names(f.subfolders@))
}

/// A folder's label: its name, followed by the unread count in
/// parentheses when there are unread messages.
pub open spec fn spec_display_name(name: Seq<char>, unread: nat) -> Seq<char> {
    if unread == 0 {
        name
    } else {
        name + " ("@ + decimal(unread) + ")"@
    }
}

proof fn lemma_insert_pos_range(names: Seq<Seq<char>>, sorted: Seq<usize>, i: int, p: int)
    requires
        0 <= p <= sorted.len(),
    ensures
        p <= insert_pos(names, sorted, i, p) <= sorted.len(),
    decreases sorted.len() - p,
{
    if p < sorted.len() && !sorts_before(names[i], names[sorted[p] as int]) {
        lemma_insert_pos_range(names, sorted, i, p + 1);
    }
}

/// The display order holds each of the first `n` indices once.
pub proof fn lemma_display_order_prefix(names: Seq<Seq<char>>, n: nat)
    requires
        n <= usize::MAX,
    ensures
        display_order_prefix(names, n).len() == n,
        forall|k: int| 0 <= k < n ==> (#[trigger] display_order_prefix(names, n)[k]) < n,
        forall|a: int, b: int| 0 <= a < b < n ==> display_order_prefix(names, n)[a] != display_order_prefix(names, n)[b],
    decreases n,
{
    if n > 0 {
        let s = display_order_prefix(names, (n - 1) as nat);
        lemma_display_order_prefix(names, (n - 1) as nat);
        lemma_insert_pos_range(names, s, n - 1, 0);
        let p = insert_pos(names, s, n - 1, 0);
        let t = s.insert(p, (n - 1) as usize);
        assert(t == display_order_prefix(names, n));
        assert forall|k: int| 0 <= k < n implies (#[trigger] t[k]) < n by {
            if k < p {
                assert(t[k] == s[k]);
            } else if k > p {
                assert(t[k] == s[k - 1]);
            }
        }
        assert(t[p] == (n - 1) as usize);
        assert forall|a: int, b: int| 0 <= a < b < n implies t[a] != t[b] by {
            let ta = if a < p { s[a] } else if a == p { (n - 1) as usize } else { s[a - 1] };
            let tb = if b < p { s[b] } else if b == p { (n - 1) as usize } else { s[b - 1] };
            assert(t[a] == ta);
            assert(t[b] == tb);
            let m = (n - 1) as nat;
            if a < p && b < p {
                assert(s[a] != s[b]);
            } else if a < p && b == p {
                assert(s[a] < m);
            } else if a < p && b > p {
                assert(s[a] != s[b - 1]);
            } else if a == p {
                assert(s[b - 1] < m);
            } else {
                assert(s[a - 1] != s[b - 1]);
            }
        }
    }
}

pub proof fn lemma_unread_le_len(emails: Seq<Email>)
    ensures
        unread_in(emails) <= emails.len(),
    decreases emails.len(),
{
    if emails.len() > 0 {
        lemma_unread_le_len(emails.drop_last());
    }
}

impl Folder {
    /// Whether the counters agree with the messages held.
    pub open spec fn counts_consistent(&self) -> bool {
        self.total_count == self.emails@.len() && self.unread_count == unread_in(self.emails@)
    }

    pub fn new(name: String, path: String) -> (r: Folder)
        ensures
            r.name == name,
            r.path == path,
            r.emails@.len() == 0,
            r.subfolders@.len() == 0,
            r.unread_count == 0,
            r.total_count == 0,
            !r.is_loaded,
            r.counts_consistent(),
    {
        Folder {
            name,
            path,
            emails: Vec::new(),
            subfolders: Vec::new(),
            unread_count: 0,
            total_count: 0,
            is_loaded: false,
        }
    }

    /// Appends a message and counts it.
    pub fn add_email(&mut self, email: Email)
        requires
            old(self).total_count < usize::MAX,
            old(self).unread_count < usize::MAX,
        ensures
            final(self).emails@ == old(self).emails@.push(email),
            final(self).total_count == old(self).total_count + 1,
            final(self).unread_count == old(self).unread_count + if email.is_unread { 1int } else { 0int },
            final(self).name == old(self).name,
            final(self).path == old(self).path,
            final(self).subfolders == old(self).subfolders,
            final(self).is_loaded == old(self).is_loaded,
            old(self).counts_consistent() ==> final(self).counts_consistent(),
    {
        let ghost before = self.emails@;
        if email.is_unread {
            self.unread_count = self.unread_count + 1;
        }
        self.total_count = self.total_count + 1;
        self.emails.push(email);
        assert(self.emails@.drop_last() == before);
    }

    pub fn add_subfolder(&mut self, folder: Folder)
        ensures
            final(self).subfolders@ == old(self).subfolders@.push(folder),
            final(self).name == old(self).name,
            final(self).path == old(self).path,
            final(self).emails == old(self).emails,
            final(self).unread_count == old(self).unread_count,
            final(self).total_count == old(self).total_count,
            final(self).is_loaded == old(self).is_loaded,
    {
        self.subfolders.push(folder);
    }

    /// The indices of the children in display order.
    pub fn sorted_indices(&self) -> (r: Vec<usize>)
        ensures
            r@ == sorted_children(*self),
            forall|a: int, b: int| 0 <= a < b < r@.len() ==> shown_before(folder_names(self.subfolders@),
                #[trigger] r@[a], #[trigger] r@[b]),
    {
        proof {
            law_display_order_is_stable_sort(*self);
        }
        let n = self.subfolders.len();
        let ghost names = folder_names(self.subfolders@);
        let mut keys: Vec<Vec<char>> = Vec::new();
        let mut inbox: Vec<bool> = Vec::new();
        let inbox_chars = chars_of("inbox");
        for i in 0..n
            invariant
                n == self.subfolders@.len(),
                names == folder_names(self.subfolders@),
                inbox_chars@ == "inbox"@,
                keys@.len() == i,
                inbox@.len() == i,
                forall|k: int| 0 <= k < i ==> (#[trigger] keys@[k])@ == names[k],
                forall|k: int| 0 <= k < i ==> (#[trigger] inbox@[k]) == is_inbox_name(names[k]),
        {
            let c = chars_of(self.subfolders[i].name.as_str());
            let b = eq_ignore_ascii_case_exec(&c, &inbox_chars);
            keys.push(c);
            inbox.push(b);
        }
        let mut sorted: Vec<usize> = Vec::new();
        for i in 0..n
            invariant
                n == names.len(),
                keys@.len() == n,
                inbox@.len() == n,
                forall|k: int| 0 <= k < n ==> (#[trigger] keys@[k])@ == names[k],
                forall|k: int| 0 <= k < n ==> (#[trigger] inbox@[k]) == is_inbox_name(names[k]),
                sorted@ == display_order_prefix(names, i as nat),
        {
            proof {
                lemma_display_order_prefix(names, i as nat);
            }
            let mut p: usize = 0;
            let mut found = false;
            while p < sorted.len() && !found
                invariant
                    found ==> p < sorted@.len() && sorts_before(names[i as int], names[sorted@[p as int] as int]),
                    n == names.len(),
                    i < n,
                    keys@.len() == n,
                    inbox@.len() == n,
                    forall|k: int| 0 <= k < n ==> (#[trigger] keys@[k])@ == names[k],
                    forall|k: int| 0 <= k < n ==> (#[trigger] inbox@[k]) == is_inbox_name(names[k]),
                    sorted@ == display_order_prefix(names, i as nat),
                    sorted@.len() == i,
                    forall|k: int| 0 <= k < i ==> (#[trigger] sorted@[k]) < i,
                    p <= sorted@.len(),
                    insert_pos(names, sorted@, i as int, 0) == insert_pos(names, sorted@, i as int, p as int),
                decreases sorted@.len() - p + if found { 0int } else { 1int },
            {
                let j = sorted[p];
                let before = (inbox[i] && !inbox[j]) || (inbox[i] == inbox[j] && lex_less_exec(&keys[i], &keys[j]));
                if before {
                    found = true;
                } else {
                    p = p + 1;
                }
            }
            let ghost prev = sorted@;
            assert(insert_pos(names, prev, i as int, p as int) == p as int);
            sorted.insert(p, i);
            assert(display_order_prefix(names, (i + 1) as nat) == prev.insert(p as int, i));
        }
        sorted
    }

    /// The children in display order.
    pub fn get_sorted_subfolders(&self) -> (r: Vec<&Folder>)
        ensures
            r@.len() == sorted_children(*self).len(),
            forall|k: int| 0 <= k < r@.len() ==> *(#[trigger] r@[k]) == self.subfolders@[sorted_children(*self)[k] as int],
    {
        let order = self.sorted_indices();
        let n = self.subfolders.len();
        proof {
            lemma_display_order_prefix(folder_names(self.subfolders@), self.subfolders@.len());
        }
        let mut r: Vec<&Folder> = Vec::new();
        for k in 0..order.len()
            invariant
                order@ == sorted_children(*self),
                order@.len() == self.subfolders@.len(),
                forall|q: int| 0 <= q < order@.len() ==> (#[trigger] order@[q]) < self.subfolders@.len(),
                r@.len() == k,
                forall|q: int| 0 <= q < k ==> *(#[trigger] r@[q]) == self.subfolders@[order@[q] as int],
        {
            r.push(&self.subfolders[order[k]]);
        }
        r
    }

    pub fn get_display_name(&self) -> (r: String)
        ensures
            r@ == spec_display_name(self.name@, self.unread_count as nat),
    {
        if self.unread_count == 0 {
            self.name.clone()
        } else {
            let mut r = self.name.clone();
            append_str(&mut r, " (");
            push_decimal(&mut r, self.unread_count);
            append_str(&mut r, ")");
            r
        }
    }
}

} // verus!

verus! {

/// A folder whose counters agree with its messages counts no more unread
/// messages than messages, and counts exactly the messages it holds.
pub proof fn law_counts_bounded(f: Folder)
    requires
        f.counts_consistent(),
    ensures
        f.unread_count <= f.total_count,
        f.total_count == f.emails@.len(),
        f.unread_count == unread_in(f.emails@),
{
    lemma_unread_le_len(f.emails@);
}

} // verus!

verus! {

/// Child `x` is shown before child `y`: its name sorts first, or the names
/// are equal and `x` was found first.
pub open spec fn shown_before(names: Seq<Seq<char>>, x: usize, y: usize) -> bool {
    sorts_before(names[x as int], names[y as int]) || (names[x as int] == names[y as int] && x < y)
}

proof fn lemma_sorts_before_order(a: Seq<char>, b: Seq<char>, c: Seq<char>)
    ensures
        !sorts_before(a, a),
        sorts_before(a, b) && sorts_before(b, c) ==> sorts_before(a, c),
        sorts_before(a, b) || sorts_before(b, a) || a == b,
{
    lemma_lex_irreflexive(a);
    lemma_lex_total(a, b);
    if sorts_before(a, b) && sorts_before(b, c) {
        if is_inbox_name(a) == is_inbox_name(b) && is_inbox_name(b) == is_inbox_name(c) {
            lemma_lex_transitive(a, b, c);
        }
    }
}

proof fn lemma_insert_pos_facts(names: Seq<Seq<char>>, sorted: Seq<usize>, i: int, p: int)
    requires
        0 <= p <= sorted.len(),
        forall|q: int| 0 <= q < p ==> !sorts_before(names[i], names[sorted[q] as int]),
    ensures
        forall|q: int| 0 <= q < insert_pos(names, sorted, i, p) ==> !sorts_before(names[i], names[sorted[q] as int]),
        insert_pos(names, sorted, i, p) < sorted.len() ==> sorts_before(names[i], names[sorted[insert_pos(names, sorted, i, p)] as int]),
    decreases sorted.len() - p,
{
    if p < sorted.len() && !sorts_before(names[i], names[sorted[p] as int]) {
        lemma_insert_pos_facts(names, sorted, i, p + 1);
    }
}

/// The display order of the first `n` children is strictly increasing in
/// `shown_before`.
proof fn lemma_display_order_sorted(names: Seq<Seq<char>>, n: nat)
    requires
        n <= names.len(),
        n <= usize::MAX,
    ensures
        forall|a: int, b: int| 0 <= a < b < n ==> shown_before(names,
            #[trigger] display_order_prefix(names, n)[a], #[trigger] display_order_prefix(names, n)[b]),
    decreases n,
{
    if n > 0 {
        let m = (n - 1) as nat;
        let s = display_order_prefix(names, m);
        lemma_display_order_sorted(names, m);
        lemma_display_order_prefix(names, m);
        lemma_insert_pos_range(names, s, n - 1, 0);
        lemma_insert_pos_facts(names, s, n - 1, 0);
        let p = insert_pos(names, s, n - 1, 0);
        let i = (n - 1) as usize;
        let t = s.insert(p, i);
        assert(t == display_order_prefix(names, n));
        assert forall|a: int, b: int| 0 <= a < b < n implies shown_before(names, t[a], t[b]) by {
            if a != p && b != p {
                let sa = if a < p { a } else { a - 1 };
                let sb = if b < p { b } else { b - 1 };
                assert(t[a] == s[sa] && t[b] == s[sb]);
                assert(sa < sb);
                assert(shown_before(names, s[sa], s[sb]));
            } else if a == p {
                assert(t[a] == i);
                assert(t[b] == s[b - 1]);
                let x = s[p];
                let y = s[b - 1];
                lemma_sorts_before_order(names[i as int], names[x as int], names[y as int]);
                if b - 1 > p {
                    assert(shown_before(names, s[p], s[b - 1]));
                }
                assert(sorts_before(names[i as int], names[x as int]));
                assert(sorts_before(names[i as int], names[y as int]));
            } else {
                assert(b == p);
                assert(t[b] == i);
                assert(t[a] == s[a]);
                let x = s[a];
                assert(!sorts_before(names[i as int], names[x as int]));
                lemma_sorts_before_order(names[x as int], names[i as int], names[x as int]);
                assert(x < i);
            }
        }
    }
}

/// The children are shown in a stable sort by name with the inbox first:
/// each child is shown before every later one in the display order, and
/// the order holds each child once.
pub proof fn law_display_order_is_stable_sort(f: Folder)
    ensures
        sorted_children(f).len() == f.subfolders@.len(),
        forall|a: int, b: int| 0 <= a < b < sorted_children(f).len() ==> shown_before(folder_names(f.subfolders@),
            #[trigger] sorted_children(f)[a], #[trigger] sorted_children(f)[b]),
        forall|a: int| 0 <= a < sorted_children(f).len() ==> (#[trigger] sorted_children(f)[a]) < f.subfolders@.len(),
{
    assert(f.subfolders.len() == f.subfolders@.len());
    let names = folder_names(f.subfolders@);
    lemma_display_order_prefix(names, names.len());
    lemma_display_order_sorted(names, names.len());
}

} // verus!

verus! {

broadcast use vstd::std_specs::vec::group_vec_axioms, vstd::seq::group_seq_axioms;

/// Every folder of the tree under `f` has counters that agree with its
/// messages.
pub open spec fn tree_consistent(f: Folder) -> bool
    decreases f, 1int, 0int,
{
    f.counts_consistent() && children_consistent(f, 0)
}

/// The trees of the children of `f` from the `k`-th on are consistent.
pub open spec fn children_consistent(f: Folder, k: int) -> bool
    decreases f, 0int, f.subfolders@.len() - k,
{
    if k < 0 || k >= f.subfolders@.len() {
        true
    } else {
        tree_consistent(f.subfolders@[k]) && children_consistent(f, k + 1)
    }
}

pub proof fn lemma_children_consistent(f: Folder, k: int)
    requires
        0 <= k <= f.subfolders@.len(),
    ensures
        children_consistent(f, k) <==> forall|j: int| k <= j < f.subfolders@.len() ==> tree_consistent(#[trigger] f.subfolders@[j]),
    decreases f.subfolders@.len() - k,
{
    if k < f.subfolders@.len() {
        lemma_children_consistent(f, k + 1);
    }
}

} // verus!
