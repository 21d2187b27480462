//! The folder tree with the reader's position in it.
use vstd::prelude::*;
use crate::email::Email;
use crate::folder::{Folder, children_consistent, lemma_children_consistent, tree_consistent};
use crate::scanner::{MaildirContents, MaildirScanner, spec_load};
use crate::text::append_str;
use vstd::string::*;

verus! {

broadcast use vstd::std_specs::vec::group_vec_axioms, vstd::seq::group_seq_axioms;

/// The folder reached from `f` by following `path`; the walk stops at the
/// first index that names no child, so a malformed path degrades to its
/// deepest valid ancestor.
pub open spec fn folder_at(f: Folder, path: Seq<usize>) -> Folder
    decreases path.len(),
{
    if path.len() > 0 && path[0] < f.subfolders@.len() {
        folder_at(f.subfolders@[path[0] as int], path.drop_first())
    } else {
        f
    }
}

/// Whether every index of `path` names a child.
pub open spec fn valid_path(f: Folder, path: Seq<usize>) -> bool
    decreases path.len(),
{
    if path.len() == 0 {
        true
    } else {
        path[0] < f.subfolders@.len() && valid_path(f.subfolders@[path[0] as int], path.drop_first())
    }
}

/// `r` is `f` with the folder at `path` replaced by `g`, and nothing else
/// changed.
pub open spec fn replaced_at(f: Folder, path: Seq<usize>, g: Folder, r: Folder) -> bool
    decreases path.len(),
{
    if path.len() == 0 {
        r == g
    } else if path[0] < f.subfolders@.len() {
        &&& r.name == f.name
        &&& r.path == f.path
        &&& r.emails == f.emails
        &&& r.unread_count == f.unread_count
        &&& r.total_count == f.total_count
        &&& r.is_loaded == f.is_loaded
        &&& r.subfolders@.len() == f.subfolders@.len()
        &&& forall|j: int| 0 <= j < f.subfolders@.len() && j != path[0] ==> r.subfolders@[j] == f.subfolders@[j]
        &&& replaced_at(f.subfolders@[path[0] as int], path.drop_first(), g, r.subfolders@[path[0] as int])
    } else {
        r == g
    }
}

/// A mutable reference to the folder at `path[k..]` below `f`.
fn folder_at_mut<'a>(f: &'a mut Folder, path: &Vec<usize>, k: usize) -> (r: &'a mut Folder)
    requires
        k <= path@.len(),
    ensures
        *r == folder_at(*old(f), path@.subrange(k as int, path@.len() as int)),
        replaced_at(*old(f), path@.subrange(k as int, path@.len() as int), *final(r), *final(f)),
    decreases path@.len() - k,
{
    let ghost rest = path@.subrange(k as int, path@.len() as int);
    if k == path.len() {
        return f;
    }
    let i = path[k];
    assert(rest.drop_first() == path@.subrange(k + 1, path@.len() as int));
    if i < f.subfolders.len() {
        folder_at_mut(&mut f.subfolders[i], path, k + 1)
    } else {
        f
    }
}

} // verus!

verus! {

/// A request to take in the messages of the folder at `path`, at most
/// `limit` of them. The caller reads the folder's message directories and
/// hands them to `EmailStore::apply_load`.
#[derive(Clone, Debug, PartialEq, Eq)]
pub struct LoadRequest {
    pub path: Vec<usize>,
    pub limit: Option<usize>,
}

#[derive(Clone, Copy, Debug, PartialEq, Eq, Structural)]
pub enum StoreError {
    InvalidPath,
}

impl StoreError {
    pub fn message(&self) -> (r: String)
        ensures
            r@ == "Invalid folder path"@,
    {
        String::from_str("Invalid folder path")
    }
}

/// The folder tree, the path of the folder being read, and the selected
/// message in it.
#[derive(Debug)]
pub struct EmailStore {
    pub root_folder: Folder,
    /// Child indices from the root; empty for the root itself.
    pub current_folder: Vec<usize>,
    /// The selected message, an index into the current folder's messages.
    pub selected_email: Option<usize>,
}

/// The breadcrumb trail after the root's name for `path` below `f`.
pub open spec fn crumbs(f: Folder, path: Seq<usize>) -> Seq<char>
    decreases path.len(),
{
    if path.len() == 0 {
        Seq::empty()
    } else if path[0] < f.subfolders@.len() {
        " > "@ + f.subfolders@[path[0] as int].name@ + crumbs(f.subfolders@[path[0] as int], path.drop_first())
    } else {
        Seq::empty()
    }
}

/// The indices of `s` in a vector.
pub fn slice_to_vec(s: &[usize]) -> (r: Vec<usize>)
    ensures
        r@ == s@,
{
    let mut r: Vec<usize> = Vec::new();
    let mut i: usize = 0;
    while i < s.len()
        invariant
            i <= s@.len(),
            r@ == s@.subrange(0, i as int),
        decreases s@.len() - i,
    {
        r.push(s[i]);
        i = i + 1;
    }
    r
}

fn load_limit_for_rows(visible_rows: usize) -> (r: usize)
    requires
        visible_rows <= usize::MAX - 5,
    ensures
        r == if visible_rows + 5 >= 10 { visible_rows + 5 } else { 10 },
{
    if visible_rows + 5 >= 10 { visible_rows + 5 } else { 10 }
}

impl EmailStore {
    /// The folder being read.
    pub open spec fn current(&self) -> Folder {
        folder_at(self.root_folder, self.current_folder@)
    }

    /// The selected message, when the selection names one.
    pub open spec fn selected_spec(&self) -> Option<Email> {
        if self.selected_email matches Some(i) && i < self.current().emails@.len() {
            Some(self.current().emails@[self.selected_email->Some_0 as int])
        } else {
            None
        }
    }

    /// A selection, when there is one, names a message of the current folder.
    pub open spec fn wf(&self) -> bool {
        self.selected_email matches Some(i) ==> i < self.current().emails@.len()
    }

    pub fn new(maildir_path: String) -> (r: EmailStore)
        ensures
            r.root_folder.name@ == "Mail"@,
            r.root_folder.path == maildir_path,
            r.root_folder.emails@.len() == 0,
            r.root_folder.subfolders@.len() == 0,
            !r.root_folder.is_loaded,
            r.current_folder@.len() == 0,
            r.selected_email is None,
            r.wf(),
    {
        EmailStore {
            root_folder: Folder::new(String::from_str("Mail"), maildir_path),
            current_folder: Vec::new(),
            selected_email: None,
        }
    }

    pub fn get_current_folder(&self) -> (r: &Folder)
        ensures
            *r == self.current(),
    {
        self.get_folder_clamped(self.current_folder.as_slice())
    }

    /// The folder `path` leads to, skipping indices that name no child (as
    /// the current folder is resolved).
    pub fn get_folder_clamped(&self, path: &[usize]) -> (r: &Folder)
        ensures
            *r == folder_at(self.root_folder, path@),
    {
        let mut folder = &self.root_folder;
        let mut k: usize = 0;
        assert(path@.subrange(0, path@.len() as int) == path@);
        while k < path.len()
            invariant
                k <= path@.len(),
                folder_at(*folder, path@.subrange(k as int, path@.len() as int)) == folder_at(self.root_folder, path@),
            decreases path@.len() - k,
        {
            let i = path[k];
            let ghost rest = path@.subrange(k as int, path@.len() as int);
            assert(rest.drop_first() == path@.subrange(k + 1, path@.len() as int));
            if i >= folder.subfolders.len() {
                return folder;
            }
            folder = &folder.subfolders[i];
            k = k + 1;
        }
        folder
    }

    pub fn get_current_folder_mut(&mut self) -> (r: &mut Folder)
        ensures
            *r == old(self).current(),
            replaced_at(old(self).root_folder, old(self).current_folder@, *final(r), final(self).root_folder),
            final(self).current_folder == old(self).current_folder,
            final(self).selected_email == old(self).selected_email,
    {
        assert(self.current_folder@.subrange(0, self.current_folder@.len() as int) == self.current_folder@);
        folder_at_mut(&mut self.root_folder, &self.current_folder, 0)
    }

    /// Goes down `path` from the current folder and clears the selection.
    pub fn enter_folder_by_path(&mut self, path: &[usize])
        ensures
            final(self).current_folder@ == old(self).current_folder@ + path@,
            final(self).selected_email is None,
            final(self).root_folder == old(self).root_folder,
            final(self).wf(),
    {
        let mut i: usize = 0;
        let ghost start = self.current_folder@;
        while i < path.len()
            invariant
                i <= path@.len(),
                self.current_folder@ == start + path@.subrange(0, i as int),
                self.root_folder == old(self).root_folder,
            decreases path@.len() - i,
        {
            self.current_folder.push(path[i]);
            assert(path@.subrange(0, i + 1) == path@.subrange(0, i as int).push(path@[i as int]));
            i = i + 1;
        }
        assert(path@.subrange(0, path@.len() as int) == path@);
        self.selected_email = None;
    }

    /// Goes up one level, clearing the selection; at the root nothing
    /// changes.
    pub fn exit_folder(&mut self)
        ensures
            final(self).current_folder@ == exited(old(self).current_folder@),
            old(self).current_folder@.len() > 0 ==> final(self).selected_email is None,
            old(self).current_folder@.len() == 0 ==> *final(self) == *old(self),
            final(self).root_folder == old(self).root_folder,
            old(self).wf() ==> final(self).wf(),
    {
        if self.current_folder.len() > 0 {
            self.current_folder.pop();
            self.selected_email = None;
        }
    }

    /// Selects message `email_index` of the current folder; an index out of
    /// range leaves the selection as it was.
    pub fn select_email(&mut self, email_index: usize)
        ensures
            email_index < old(self).current().emails@.len() ==> final(self).selected_email == Some(email_index),
            email_index >= old(self).current().emails@.len() ==> final(self).selected_email == old(self).selected_email,
            final(self).root_folder == old(self).root_folder,
            final(self).current_folder == old(self).current_folder,
            old(self).wf() ==> final(self).wf(),
    {
        let n = self.get_current_folder().emails.len();
        if email_index < n {
            self.selected_email = Some(email_index);
        }
    }

    /// The folder at `path`, if every index of it names a child.
    pub fn get_folder_at_path(&self, path: &[usize]) -> (r: Option<&Folder>)
        ensures
            valid_path(self.root_folder, path@) ==> r is Some && *r->Some_0 == folder_at(self.root_folder, path@),
            !valid_path(self.root_folder, path@) ==> r is None,
    {
        let mut folder = &self.root_folder;
        let mut k: usize = 0;
        assert(path@.subrange(0, path@.len() as int) == path@);
        while k < path.len()
            invariant
                k <= path@.len(),
                folder_at(*folder, path@.subrange(k as int, path@.len() as int)) == folder_at(self.root_folder, path@),
                valid_path(*folder, path@.subrange(k as int, path@.len() as int)) == valid_path(self.root_folder, path@),
            decreases path@.len() - k,
        {
            let i = path[k];
            let ghost rest = path@.subrange(k as int, path@.len() as int);
            assert(rest.drop_first() == path@.subrange(k + 1, path@.len() as int));
            if i < folder.subfolders.len() {
                folder = &folder.subfolders[i];
            } else {
                return None;
            }
            k = k + 1;
        }
        Some(folder)
    }

    /// What loading the folder at `path` for a pane of `visible_rows` rows
    /// needs: an invalid path is an error; a folder not loaded and still
    /// empty asks for `max(visible_rows + 5, 10)` messages; any other
    /// needs nothing.
    pub fn ensure_folder_at_path_loaded(&self, path: &[usize], visible_rows: usize) -> (r: Result<Option<LoadRequest>, StoreError>)
        requires
            visible_rows <= usize::MAX - 5,
        ensures
            !valid_path(self.root_folder, path@) ==> r == Err::<Option<LoadRequest>, StoreError>(StoreError::InvalidPath),
            valid_path(self.root_folder, path@) ==> r is Ok && {
                let f = folder_at(self.root_folder, path@);
                if !f.is_loaded && f.emails@.len() == 0 {
                    r->Ok_0 is Some && r->Ok_0->Some_0.path@ == path@
                        && r->Ok_0->Some_0.limit == Some(if visible_rows + 5 >= 10 { (visible_rows + 5) as usize } else { 10usize })
                } else {
                    r->Ok_0 is None
                }
            },
    {
        match self.get_folder_at_path(path) {
            None => Err(StoreError::InvalidPath),
            Some(f) => {
                if !f.is_loaded && f.emails.len() == 0 {
                    let limit = load_limit_for_rows(visible_rows);
                    Ok(Some(LoadRequest { path: slice_to_vec(path), limit: Some(limit) }))
                } else {
                    Ok(None)
                }
            },
        }
    }

    /// A capped load of the current folder, when it is not loaded and still
    /// empty.
    pub fn ensure_current_folder_loaded_with_limit(&self, limit: usize) -> (r: Option<LoadRequest>)
        ensures
            (!self.current().is_loaded && self.current().emails@.len() == 0) ==> r is Some
                && r->Some_0.path@ == self.current_folder@ && r->Some_0.limit == Some(limit),
            !(!self.current().is_loaded && self.current().emails@.len() == 0) ==> r is None,
    {
        let f = self.get_current_folder();
        if !f.is_loaded && f.emails.len() == 0 {
            Some(LoadRequest { path: self.current_folder.clone(), limit: Some(limit) })
        } else {
            None
        }
    }

    /// A full load of the current folder, when it is not loaded and
    /// `index` is within five of the end of the messages held.
    pub fn load_more_messages_if_needed(&self, index: usize) -> (r: Option<LoadRequest>)
        ensures
            (!self.current().is_loaded && index + 5 >= self.current().emails@.len()) ==> r is Some
                && r->Some_0.path@ == self.current_folder@ && r->Some_0.limit is None,
            !(!self.current().is_loaded && index + 5 >= self.current().emails@.len()) ==> r is None,
    {
        let f = self.get_current_folder();
        let n = f.emails.len();
        if !f.is_loaded && (n < 5 || index >= n - 5) {
            Some(LoadRequest { path: self.current_folder.clone(), limit: None })
        } else {
            None
        }
    }

    /// Carries out `req` with the folder's message directories `contents`:
    /// the folder at `req.path` is loaded as the scanner loads it, and
    /// nothing else in the tree changes. A selection that no longer names
    /// a message is cleared.
    pub fn apply_load(&mut self, scanner: &MaildirScanner, req: &LoadRequest, contents: &MaildirContents)
        requires
            contents.cur@.len() + contents.new@.len() < usize::MAX,
        ensures
            exists|g: Folder| {
                &&& spec_load(folder_at(old(self).root_folder, req.path@), *contents, req.limit, g)
                &&& replaced_at(old(self).root_folder, req.path@, g, final(self).root_folder)
            },
            final(self).current_folder == old(self).current_folder,
            old(self).selected_email is None ==> final(self).selected_email is None,
            final(self).selected_email is Some ==> final(self).selected_email == old(self).selected_email,
            final(self).wf(),
            tree_consistent(old(self).root_folder) ==> tree_consistent(final(self).root_folder),
    {
        assert(req.path@.subrange(0, req.path@.len() as int) == req.path@);
        let ghost root0 = self.root_folder;
        let f = folder_at_mut(&mut self.root_folder, &req.path, 0);
        scanner.load_folder_emails_with_limit(f, contents, req.limit);
        let ghost g = *f;
        assert(spec_load(folder_at(root0, req.path@), *contents, req.limit, g));
        assert(replaced_at(root0, req.path@, g, self.root_folder));
        if let Some(i) = self.selected_email {
            if i >= self.get_current_folder().emails.len() {
                self.selected_email = None;
            }
        }
        assert(spec_load(folder_at(root0, req.path@), *contents, req.limit, g)
            && replaced_at(root0, req.path@, g, self.root_folder));
        proof {
            if tree_consistent(root0) {
                let f0 = folder_at(root0, req.path@);
                lemma_folder_at_consistent(root0, req.path@);
                crate::scanner::lemma_load_keeps_consistency(f0, *contents, req.limit, g);
                lemma_replace_keeps_consistency(root0, req.path@, g, self.root_folder);
            }
        }
    }

    /// The selected message, read-only, as far as it has been parsed.
    pub fn get_selected_email_headers(&self) -> (r: Option<&Email>)
        ensures
            (self.selected_email matches Some(i) && i < self.current().emails@.len()) ==> r is Some
                && *r->Some_0 == self.current().emails@[self.selected_email->Some_0 as int],
            !(self.selected_email matches Some(i) && i < self.current().emails@.len()) ==> r is None,
    {
        let current = self.get_current_folder();
        match self.selected_email {
            Some(i) => {
                if i < current.emails.len() {
                    Some(&current.emails[i])
                } else {
                    None
                }
            },
            None => None,
        }
    }

    /// The selected message, mutably.
    pub fn get_selected_email_mut(&mut self) -> (r: Option<&mut Email>)
        ensures
            (old(self).selected_email matches Some(i) && i < old(self).current().emails@.len()) ==> r is Some
                && *r->Some_0 == old(self).current().emails@[old(self).selected_email->Some_0 as int],
            !(old(self).selected_email matches Some(i) && i < old(self).current().emails@.len()) ==> r is None,
            final(self).current_folder == old(self).current_folder,
            final(self).selected_email == old(self).selected_email,
    {
        let selected = self.selected_email;
        let current = self.get_current_folder_mut();
        match selected {
            Some(i) => {
                if i < current.emails.len() {
                    Some(&mut current.emails[i])
                } else {
                    None
                }
            },
            None => None,
        }
    }

    /// Parses the selected message's body if that was not done yet.
    /// Returns whether there is a selected message whose body is available.
    fn load_selected(&mut self) -> (r: bool)
        ensures
            spec_load_selected(*old(self), *final(self), r),
    {
        let i = match self.selected_email {
            Some(i) => i,
            None => {
                return false;
            },
        };
        if i >= self.get_current_folder().emails.len() {
            return false;
        }
        let ghost s0 = *self;
        let current = self.get_current_folder_mut();
        let res = current.emails[i].ensure_fully_loaded();
        let ghost g = *current;
        proof {
            lemma_replaced_at_resolves(s0.root_folder, s0.current_folder@, g, self.root_folder);
        }
        assert(self.current() == g);
        res.is_ok()
    }

    /// The selected message with its body parsed; `None` when nothing is
    /// selected or the body cannot be parsed.
    pub fn get_selected_email(&mut self) -> (r: Option<&Email>)
        ensures
            spec_load_selected(*old(self), *final(self), r is Some),
            r is Some ==> *r->Some_0 == final(self).current().emails@[final(self).selected_email->Some_0 as int],
    {
        let ok = self.load_selected();
        if ok {
            self.get_selected_email_headers()
        } else {
            None
        }
    }

    /// The selected message's body text, parsing it first if needed.
    pub fn get_selected_email_markdown(&mut self) -> (r: Option<String>)
        ensures
            spec_load_selected(*old(self), *final(self), r is Some),
            r is Some ==> r->Some_0 == final(self).current().emails@[final(self).selected_email->Some_0 as int].body_text,
    {
        match self.get_selected_email() {
            Some(e) => Some(e.body_text.clone()),
            None => None,
        }
    }

    /// The breadcrumb trail of the current folder: `Mail` and the name of
    /// each folder on the way, joined by ` > `.
    pub fn get_folder_path(&self) -> (r: String)
        ensures
            r@ == "Mail"@ + crumbs(self.root_folder, self.current_folder@),
    {
        self.get_folder_path_for_indices(self.current_folder.as_slice())
    }

    /// The breadcrumb trail for `indices`; the trail stops at the first
    /// index that names no child.
    pub fn get_folder_path_for_indices(&self, indices: &[usize]) -> (r: String)
        ensures
            r@ == "Mail"@ + crumbs(self.root_folder, indices@),
    {
        let mut r = String::from_str("Mail");
        let mut folder = &self.root_folder;
        let mut k: usize = 0;
        assert(indices@.subrange(0, indices@.len() as int) == indices@);
        while k < indices.len()
            invariant
                k <= indices@.len(),
                r@ + crumbs(*folder, indices@.subrange(k as int, indices@.len() as int)) == "Mail"@ + crumbs(self.root_folder, indices@),
            decreases indices@.len() - k,
        {
            let i = indices[k];
            let ghost rest = indices@.subrange(k as int, indices@.len() as int);
            assert(rest.drop_first() == indices@.subrange(k + 1, indices@.len() as int));
            let ghost fold0 = *folder;
            if i >= folder.subfolders.len() {
                assert(r@ + crumbs(fold0, rest) =~= r@);
                return r;
            }
            folder = &folder.subfolders[i];
            let ghost r0 = r@;
            append_str(&mut r, " > ");
            append_str(&mut r, folder.name.as_str());
            assert(crumbs(fold0, rest) == " > "@ + folder.name@ + crumbs(*folder, rest.drop_first()));
            assert(r@ + crumbs(*folder, rest.drop_first()) =~= r0 + crumbs(fold0, rest));
            k = k + 1;
        }
        r
    }
}

/// What asking for the selected message's body does: with a selected
/// message, that message alone may change, as `after_full_load` says, and
/// `ok` tells whether its body is available; without one nothing changes.
pub open spec fn spec_load_selected(s: EmailStore, t: EmailStore, ok: bool) -> bool {
    &&& t.current_folder == s.current_folder
    &&& t.selected_email == s.selected_email
    &&& if s.selected_email matches Some(i) && i < s.current().emails@.len() {
        let i = s.selected_email->Some_0 as int;
        &&& ok == crate::email::loads_fully(s.current().emails@[i])
        &&& replaced_at(s.root_folder, s.current_folder@, t.current(), t.root_folder)
        &&& t.current().emails@ == s.current().emails@.update(i, t.current().emails@[i])
        &&& crate::email::after_full_load(s.current().emails@[i], t.current().emails@[i])
        &&& t.current().name == s.current().name
        &&& t.current().path == s.current().path
        &&& t.current().subfolders == s.current().subfolders
        &&& t.current().unread_count == s.current().unread_count
        &&& t.current().total_count == s.current().total_count
        &&& t.current().is_loaded == s.current().is_loaded
    } else {
        !ok && t == s
    }
}

/// Resolving the replaced path finds the replacement, when the replacement
/// has as many children as the folder it replaced; the root keeps its
/// number of children.
pub proof fn lemma_replaced_at_resolves(f: Folder, p: Seq<usize>, g: Folder, r: Folder)
    requires
        replaced_at(f, p, g, r),
        g.subfolders@.len() == folder_at(f, p).subfolders@.len(),
    ensures
        folder_at(r, p) == g,
        r.subfolders@.len() == f.subfolders@.len(),
    decreases p.len(),
{
    if p.len() > 0 {
        if p[0] < f.subfolders@.len() {
            lemma_replaced_at_resolves(f.subfolders@[p[0] as int], p.drop_first(), g, r.subfolders@[p[0] as int]);
        }
    }
}

} // verus!

verus! {

/// The current-folder path after leaving one folder.
pub open spec fn exited(p: Seq<usize>) -> Seq<usize> {
    if p.len() > 0 { p.drop_last() } else { p }
}

/// The current-folder path after leaving `n` folders.
pub open spec fn exited_times(p: Seq<usize>, n: nat) -> Seq<usize>
    decreases n,
{
    if n == 0 { p } else { exited_times(exited(p), (n - 1) as nat) }
}

/// Entering a path and then leaving as many folders as it has steps
/// returns to the folder one started from.
pub proof fn law_enter_then_exit(start: Seq<usize>, path: Seq<usize>)
    ensures
        exited_times(start + path, path.len()) == start,
    decreases path.len(),
{
    if path.len() > 0 {
        assert(exited(start + path) == start + path.drop_last());
        law_enter_then_exit(start, path.drop_last());
    } else {
        assert(start + path == start);
    }
}

} // verus!

verus! {

/// The folder at any path of a consistent tree heads a consistent tree.
pub proof fn lemma_folder_at_consistent(f: Folder, p: Seq<usize>)
    requires
        tree_consistent(f),
    ensures
        tree_consistent(folder_at(f, p)),
    decreases p.len(),
{
    if p.len() > 0 {
        if p[0] < f.subfolders@.len() {
            lemma_children_consistent(f, 0);
            lemma_folder_at_consistent(f.subfolders@[p[0] as int], p.drop_first());
        }
    }
}

/// Replacing a folder of a consistent tree by a consistent tree keeps the
/// whole tree consistent.
pub proof fn lemma_replace_keeps_consistency(f: Folder, p: Seq<usize>, g: Folder, r: Folder)
    requires
        replaced_at(f, p, g, r),
        tree_consistent(f),
        tree_consistent(g),
    ensures
        tree_consistent(r),
    decreases p.len(),
{
    if p.len() > 0 {
        if p[0] < f.subfolders@.len() {
            let i = p[0] as int;
            lemma_children_consistent(f, 0);
            lemma_replace_keeps_consistency(f.subfolders@[i], p.drop_first(), g, r.subfolders@[i]);
            assert forall|j: int| 0 <= j < r.subfolders@.len() implies tree_consistent(#[trigger] r.subfolders@[j]) by {
                if j != i {
                    assert(r.subfolders@[j] == f.subfolders@[j]);
                }
            }
            lemma_children_consistent(r, 0);
        }
    }
}

} // verus!

verus! {

/// In a consistent tree every folder, wherever it sits, counts no more
/// unread messages than messages, and both counters match the messages it
/// holds. Scanning gives a consistent tree and loads keep it so.
pub proof fn law_every_folder_counts(root: Folder, path: Seq<usize>)
    requires
        tree_consistent(root),
    ensures
        folder_at(root, path).unread_count <= folder_at(root, path).total_count,
        folder_at(root, path).total_count == folder_at(root, path).emails@.len(),
        folder_at(root, path).unread_count == crate::folder::unread_in(folder_at(root, path).emails@),
{
    lemma_folder_at_consistent(root, path);
    crate::folder::law_counts_bounded(folder_at(root, path));
}

} // verus!
