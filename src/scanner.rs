//! Building the folder tree from a mail directory and taking in a folder's
//! messages. The directory listings and file contents come in as plain
//! values; what to keep and how to count it is decided here.
use vstd::prelude::*;
use vstd::string::*;
use crate::email::{Email, parsed_header_fields, spec_headers_of, headers_view};
use crate::folder::{Folder, children_consistent, lemma_children_consistent, lemma_unread_le_len, tree_consistent};
use crate::text::{append_str, chars_eq_str, chars_of, has_prefix, has_suffix, starts_with_chars, ends_with_chars};

verus! {

broadcast use vstd::std_specs::vec::group_vec_axioms, vstd::seq::group_seq_axioms;

/// A directory and the directories inside it.
#[derive(Debug)]
pub struct DirNode {
    pub name: String,
    pub path: String,
    pub children: Vec<DirNode>,
}

/// What the configured root path turned out to be.
#[derive(Debug)]
pub enum RootStatus {
    Missing,
    NotADirectory,
    Directory(DirNode),
}

/// Why the root path cannot be scanned.
#[derive(Clone, Debug, PartialEq, Eq)]
pub enum ScanError {
    Missing(String),
    NotADirectory(String),
}

/// One entry of a `cur` or `new` directory, with the file's bytes when
/// they were read (or why they could not be).
#[derive(Debug)]
pub struct MessageFile {
    pub name: String,
    pub path: String,
    pub is_file: bool,
    pub raw: Result<Vec<u8>, String>,
}

/// The message directories of one folder.
#[derive(Debug)]
pub struct MaildirContents {
    /// Whether the folder holds `cur`, `new` and `tmp`.
    pub is_maildir: bool,
    /// Entries of `cur`: messages already seen.
    pub cur: Vec<MessageFile>,
    /// Entries of `new`: unread messages.
    pub new: Vec<MessageFile>,
}

#[derive(Debug)]
pub struct MaildirScanner {
    root_path: String,
}

/// Directory names that are folders: not one of the message directories
/// and not hidden.
pub open spec fn is_folder_dir(name: Seq<char>) -> bool {
    name != "cur"@ && name != "new"@ && name != "tmp"@ && !has_prefix(name, "."@)
}

/// File names that are messages: not hidden, not a lock or temporary file.
pub open spec fn is_message_name(name: Seq<char>) -> bool {
    !has_prefix(name, "."@) && !has_suffix(name, ".lock"@) && !has_suffix(name, ".tmp"@)
}

pub open spec fn is_message_entry(e: MessageFile) -> bool {
    e.is_file && is_message_name(e.name@)
}

/// `f` is the structure-only folder for directory `node`.
pub open spec fn folder_of_node(node: DirNode, f: Folder) -> bool
    decreases node, 1int, 0int,
{
    &&& f.name == node.name
    &&& f.path == node.path
    &&& f.emails@.len() == 0
    &&& f.unread_count == 0
    &&& f.total_count == 0
    &&& !f.is_loaded
    &&& children_upto(node, node.children@.len() as int, f.subfolders@)
}

/// The first `k` children of `node` that are folders correspond, in order,
/// to `subs`.
pub open spec fn children_upto(node: DirNode, k: int, subs: Seq<Folder>) -> bool
    decreases node, 0int, k,
{
    if k <= 0 {
        subs.len() == 0
    } else if k > node.children@.len() {
        false
    } else if !is_folder_dir(node.children@[k - 1].name@) {
        children_upto(node, k - 1, subs)
    } else {
        subs.len() > 0 && folder_of_node(node.children@[k - 1], subs.last()) && children_upto(node, k - 1, subs.drop_last())
    }
}

/// The positions of the message entries among the first `n` entries.
pub open spec fn message_positions(es: Seq<MessageFile>, n: nat) -> Seq<usize>
    decreases n,
{
    if n == 0 || n > es.len() {
        Seq::empty()
    } else if is_message_entry(es[n - 1]) {
        message_positions(es, (n - 1) as nat).push((n - 1) as usize)
    } else {
        message_positions(es, (n - 1) as nat)
    }
}

/// The positions of the message entries that a load takes: all of them,
/// or the first `max`.
pub open spec fn taken_positions(es: Seq<MessageFile>, max: Option<usize>) -> Seq<usize> {
    let all = message_positions(es, es.len());
    match max {
        None => all,
        Some(m) => if m < all.len() { all.take(m as int) } else { all },
    }
}

/// How many messages a load takes from `new` after taking `from_cur`
/// from `cur`.
pub open spec fn remaining_limit(limit: Option<usize>, from_cur: nat) -> Option<usize> {
    match limit {
        None => None,
        Some(l) => Some(if from_cur < l { (l - from_cur) as usize } else { 0usize }),
    }
}

/// The files a load takes: messages of `cur`, then of `new`, together at
/// most `limit`.
pub open spec fn taken_files(c: MaildirContents, limit: Option<usize>) -> Seq<(MessageFile, bool)> {
    let a = taken_positions(c.cur@, limit);
    let b = taken_positions(c.new@, remaining_limit(limit, a.len()));
    a.map_values(|p: usize| (c.cur@[p as int], false)) + b.map_values(|p: usize| (c.new@[p as int], true))
}

/// The subject given to a message that could not be parsed.
pub open spec fn parse_error_subject(file: MessageFile) -> Seq<char> {
    match file.raw {
        Err(msg) => "Parse Error: "@ + msg@,
        Ok(_) => "Parse Error: Failed to parse email headers"@,
    }
}

/// `e` is the message taken in from `file`: headers when the bytes parse,
/// otherwise a subject that names the failure.
pub open spec fn email_of_file(file: MessageFile, unread: bool, e: Email) -> bool {
    &&& e.file_path == file.path
    &&& e.is_unread == unread
    &&& e.load_state == crate::email::EmailLoadState::HeadersOnly
    &&& e.body_text@.len() == 0
    &&& e.body_html is None
    &&& e.attachments@.len() == 0
    &&& match file.raw {
        Ok(bytes) => match parsed_header_fields(bytes@) {
            Some(h) => headers_view(e.headers) == spec_headers_of(h) && e.raw is Some && e.raw->Some_0@ == bytes@,
            None => e.headers.subject@ == parse_error_subject(file) && e.raw is Some && e.raw->Some_0@ == bytes@,
        },
        Err(_) => e.headers.subject@ == parse_error_subject(file) && e.raw is None,
    }
}

proof fn lemma_positions_bounded(es: Seq<MessageFile>, n: nat)
    ensures
        message_positions(es, n).len() <= n,
        forall|k: int| 0 <= k < message_positions(es, n).len() ==> (#[trigger] message_positions(es, n)[k]) < n,
        n <= es.len() ==> forall|k: int| 0 <= k < message_positions(es, n).len() ==> (#[trigger] message_positions(es, n)[k]) < es.len(),
    decreases n,
{
    if n > 0 && n <= es.len() {
        lemma_positions_bounded(es, (n - 1) as nat);
    }
}

proof fn lemma_positions_prefix(es: Seq<MessageFile>, i: nat, n: nat)
    requires
        i <= n <= es.len(),
    ensures
        message_positions(es, i).len() <= message_positions(es, n).len(),
        message_positions(es, n).take(message_positions(es, i).len() as int) == message_positions(es, i),
    decreases n - i,
{
    if i < n {
        lemma_positions_prefix(es, i, (n - 1) as nat);
        let p = message_positions(es, (n - 1) as nat);
        let q = message_positions(es, n);
        let l = message_positions(es, i).len() as int;
        if is_message_entry(es[n - 1]) {
            assert(q == p.push((n - 1) as usize));
            assert(q.take(l) == p.take(l));
        }
    } else {
        assert(message_positions(es, n).take(message_positions(es, n).len() as int) == message_positions(es, n));
    }
}

fn is_message_entry_exec(e: &MessageFile) -> (r: bool)
    ensures
        r == is_message_entry(*e),
{
    if !e.is_file {
        return false;
    }
    let c = chars_of(e.name.as_str());
    !starts_with_chars(&c, ".") && !ends_with_chars(&c, ".lock") && !ends_with_chars(&c, ".tmp")
}

/// The positions of the message entries of `es` that a load takes.
fn select_positions(es: &Vec<MessageFile>, max: Option<usize>) -> (r: Vec<usize>)
    ensures
        r@ == taken_positions(es@, max),
{
    let mut r: Vec<usize> = Vec::new();
    let mut i: usize = 0;
    let ghost all = message_positions(es@, es@.len());
    proof {
        lemma_positions_bounded(es@, es@.len());
    }
    while i < es.len()
        invariant
            i <= es@.len(),
            all == message_positions(es@, es@.len()),
            r@ == message_positions(es@, i as nat),
            max matches Some(m) ==> r@.len() <= m,
        decreases es@.len() - i,
    {
        if let Some(m) = max {
            if r.len() >= m {
                proof {
                    lemma_positions_prefix(es@, i as nat, es@.len());
                    assert(r@.len() == m);
                }
                return r;
            }
        }
        if is_message_entry_exec(&es[i]) {
            r.push(i);
        }
        proof {
            lemma_positions_bounded(es@, i as nat);
        }
        i = i + 1;
    }
    proof {
        assert(all.take(all.len() as int) == all);
    }
    r
}

fn parse_error_text(file: &MessageFile) -> (r: String)
    requires
        file.raw is Err,
    ensures
        r@ == parse_error_subject(*file),
{
    let mut s = String::from_str("Parse Error: ");
    match &file.raw {
        Err(msg) => append_str(&mut s, msg.as_str()),
        Ok(_) => {},
    }
    s
}

/// The message taken in from one file.
pub fn email_from_file(file: &MessageFile, unread: bool) -> (r: Email)
    ensures
        email_of_file(*file, unread, r),
{
    let mut email = Email::new(file.path.clone());
    email.is_unread = unread;
    match &file.raw {
        Err(_) => {
            email.headers.subject = parse_error_text(file);
        },
        Ok(bytes) => {
            let res = email.parse_headers_only(bytes.clone());
            match res {
                Ok(()) => {},
                Err(_) => {
                    email.headers.subject = String::from_str("Parse Error: Failed to parse email headers");
                    email.raw = Some(bytes.clone());
                },
            }
        },
    }
    email
}

impl MaildirScanner {
    pub fn new(root_path: String) -> (r: MaildirScanner)
        ensures
            r.root_path() == root_path,
    {
        MaildirScanner { root_path }
    }

    pub closed spec fn root_path(&self) -> String {
        self.root_path
    }

    pub fn get_root_path(&self) -> (r: &String)
        ensures
            *r == self.root_path(),
    {
        &self.root_path
    }

    /// The structure-only folder for `node` and the folders below it.
    fn folder_from_node(node: &DirNode) -> (r: Folder)
        ensures
            folder_of_node(*node, r),
            tree_consistent(r),
        decreases *node,
    {
        let mut f = Folder::new(node.name.clone(), node.path.clone());
        let mut k: usize = 0;
        while k < node.children.len()
            invariant
                k <= node.children@.len(),
                f.name == node.name,
                f.path == node.path,
                f.emails@.len() == 0,
                f.unread_count == 0,
                f.total_count == 0,
                !f.is_loaded,
                children_upto(*node, k as int, f.subfolders@),
                forall|j: int| 0 <= j < f.subfolders@.len() ==> tree_consistent(#[trigger] f.subfolders@[j]),
            decreases node.children@.len() - k,
        {
            let child = &node.children[k];
            let c = chars_of(child.name.as_str());
            let hidden = starts_with_chars(&c, ".");
            let reserved = chars_eq_str(&c, "cur") || chars_eq_str(&c, "new") || chars_eq_str(&c, "tmp");
            let ghost before = f.subfolders@;
            if !hidden && !reserved {
                let sub = Self::folder_from_node(child);
                f.add_subfolder(sub);
                assert(f.subfolders@.drop_last() == before);
            }
            k = k + 1;
        }
        proof {
            lemma_children_consistent(f, 0);
        }
        f
    }

    /// The folder tree under the root path, structure only: no message is
    /// read. Directories named `cur`, `new` or `tmp`, and hidden ones, are
    /// not folders.
    pub fn scan(&self, root: &RootStatus) -> (r: Result<Folder, ScanError>)
        ensures
            root is Missing ==> r == Err::<Folder, ScanError>(ScanError::Missing(self.root_path())),
            root is NotADirectory ==> r == Err::<Folder, ScanError>(ScanError::NotADirectory(self.root_path())),
            root matches RootStatus::Directory(node) ==> r is Ok && {
                let f = r->Ok_0;
                &&& f.name@ == "Mail"@
                &&& f.path == self.root_path()
                &&& f.emails@.len() == 0
                &&& f.unread_count == 0
                &&& f.total_count == 0
                &&& !f.is_loaded
                &&& children_upto(*node, node.children@.len() as int, f.subfolders@)
                &&& tree_consistent(f)
            },
    {
        match root {
            RootStatus::Missing => Err(ScanError::Missing(self.root_path.clone())),
            RootStatus::NotADirectory => Err(ScanError::NotADirectory(self.root_path.clone())),
            RootStatus::Directory(node) => {
                let mut f = Self::folder_from_node(node);
                proof {
                    lemma_children_consistent(f, 0);
                }
                f.name = String::from_str("Mail");
                f.path = self.root_path.clone();
                proof {
                    lemma_children_consistent(f, 0);
                }
                Ok(f)
            },
        }
    }

    /// The paths of the files a load with `limit` takes, in the order they
    /// are taken; only these need to be read.
    pub fn files_to_read(&self, contents: &MaildirContents, limit: Option<usize>) -> (r: Vec<String>)
        ensures
            r@.len() == taken_files(*contents, limit).len(),
            forall|i: int| 0 <= i < r@.len() ==> (#[trigger] r@[i]) == taken_files(*contents, limit)[i].0.path,
    {
        let ghost t = taken_files(*contents, limit);
        let a = select_positions(&contents.cur, limit);
        let b = select_positions(&contents.new, remaining(limit, a.len()));
        proof {
            lemma_positions_bounded(contents.cur@, contents.cur@.len());
            lemma_positions_bounded(contents.new@, contents.new@.len());
        }
        let mut r: Vec<String> = Vec::new();
        for q in 0..a.len()
            invariant
                t == taken_files(*contents, limit),
                a@ == taken_positions(contents.cur@, limit),
                b@ == taken_positions(contents.new@, remaining_limit(limit, a@.len())),
                forall|k: int| 0 <= k < a@.len() ==> (#[trigger] a@[k]) < contents.cur@.len(),
                r@.len() == q,
                forall|i: int| 0 <= i < q ==> (#[trigger] r@[i]) == t[i].0.path,
        {
            r.push(contents.cur[a[q]].path.clone());
        }
        for q in 0..b.len()
            invariant
                t == taken_files(*contents, limit),
                a@ == taken_positions(contents.cur@, limit),
                b@ == taken_positions(contents.new@, remaining_limit(limit, a@.len())),
                forall|k: int| 0 <= k < b@.len() ==> (#[trigger] b@[k]) < contents.new@.len(),
                r@.len() == a@.len() + q,
                forall|i: int| 0 <= i < a@.len() + q ==> (#[trigger] r@[i]) == t[i].0.path,
        {
            r.push(contents.new[b[q]].path.clone());
        }
        r
    }

    /// Takes in every message of the folder and marks it loaded.
    pub fn load_folder_emails(&self, folder: &mut Folder, contents: &MaildirContents)
        requires
            contents.cur@.len() + contents.new@.len() < usize::MAX,
        ensures
            spec_load(*old(folder), *contents, None, *final(folder)),
    {
        self.load_folder_emails_with_limit(folder, contents, None)
    }

    /// Takes in the folder's messages: those of `cur` (seen) then those of
    /// `new` (unread), at most `limit` together. A folder already loaded is
    /// left as it is, and so is one that holds messages when a limit is
    /// given. Only a load without a limit marks the folder loaded.
    pub fn load_folder_emails_with_limit(&self, folder: &mut Folder, contents: &MaildirContents, limit: Option<usize>)
        requires
            contents.cur@.len() + contents.new@.len() < usize::MAX,
        ensures
            spec_load(*old(folder), *contents, limit, *final(folder)),
            old(folder).counts_consistent() ==> final(folder).counts_consistent(),
            final(folder).counts_consistent() ==> final(folder).unread_count <= final(folder).total_count,
    {
        proof {
            lemma_unread_le_len(folder.emails@);
        }
        if folder.is_loaded {
            return;
        }
        if limit.is_some() && folder.emails.len() > 0 {
            return;
        }
        let ghost t = taken_files(*contents, limit);
        if contents.is_maildir {
            folder.emails.clear();
            folder.unread_count = 0;
            folder.total_count = 0;
            let a = select_positions(&contents.cur, limit);
            proof {
                lemma_positions_bounded(contents.cur@, contents.cur@.len());
                lemma_positions_bounded(contents.new@, contents.new@.len());
                lemma_unread_le_len(folder.emails@);
            }
            for q in 0..a.len()
                invariant
                    t == taken_files(*contents, limit),
                    contents.cur@.len() + contents.new@.len() < usize::MAX,
                    a@ == taken_positions(contents.cur@, limit),
                    a@.len() <= contents.cur@.len(),
                    forall|k: int| 0 <= k < a@.len() ==> (#[trigger] a@[k]) < contents.cur@.len(),
                    folder.emails@.len() == q,
                    folder.counts_consistent(),
                    folder.name == old(folder).name,
                    folder.path == old(folder).path,
                    folder.subfolders == old(folder).subfolders,
                    folder.is_loaded == old(folder).is_loaded,
                    forall|i: int| 0 <= i < q ==> email_of_file(t[i].0, t[i].1, #[trigger] folder.emails@[i]),
            {
                let e = email_from_file(&contents.cur[a[q]], false);
                proof {
                    lemma_unread_le_len(folder.emails@);
                }
                folder.add_email(e);
            }
            let rem = remaining(limit, folder.emails.len());
            let b = select_positions(&contents.new, rem);
            for q in 0..b.len()
                invariant
                    t == taken_files(*contents, limit),
                    contents.cur@.len() + contents.new@.len() < usize::MAX,
                    a@ == taken_positions(contents.cur@, limit),
                    a@.len() <= contents.cur@.len(),
                    b@ == taken_positions(contents.new@, remaining_limit(limit, a@.len())),
                    b@.len() <= contents.new@.len(),
                    forall|k: int| 0 <= k < b@.len() ==> (#[trigger] b@[k]) < contents.new@.len(),
                    folder.emails@.len() == a@.len() + q,
                    folder.counts_consistent(),
                    folder.name == old(folder).name,
                    folder.path == old(folder).path,
                    folder.subfolders == old(folder).subfolders,
                    folder.is_loaded == old(folder).is_loaded,
                    forall|i: int| 0 <= i < a@.len() + q ==> email_of_file(t[i].0, t[i].1, #[trigger] folder.emails@[i]),
            {
                let e = email_from_file(&contents.new[b[q]], true);
                proof {
                    lemma_unread_le_len(folder.emails@);
                }
                folder.add_email(e);
            }
        }
        if limit.is_none() {
            folder.is_loaded = true;
        }
        proof {
            lemma_unread_le_len(folder.emails@);
        }
    }
}

/// How many more messages may be taken once `taken` are in.
fn remaining(limit: Option<usize>, taken: usize) -> (r: Option<usize>)
    ensures
        r == remaining_limit(limit, taken as nat),
{
    match limit {
        None => None,
        Some(l) => Some(if taken < l { l - taken } else { 0 }),
    }
}

/// What a load does to a folder (see `load_folder_emails_with_limit`).
pub open spec fn spec_load(f: Folder, c: MaildirContents, limit: Option<usize>, r: Folder) -> bool {
    if f.is_loaded || (limit is Some && f.emails@.len() > 0) {
        r == f
    } else {
        &&& r.name == f.name
        &&& r.path == f.path
        &&& r.subfolders == f.subfolders
        &&& r.is_loaded == (limit is None)
        &&& if c.is_maildir {
            let t = taken_files(c, limit);
            &&& r.emails@.len() == t.len()
            &&& r.counts_consistent()
            &&& forall|i: int| 0 <= i < t.len() ==> email_of_file(t[i].0, t[i].1, #[trigger] r.emails@[i])
        } else {
            &&& r.emails == f.emails
            &&& r.unread_count == f.unread_count
            &&& r.total_count == f.total_count
        }
    }
}

impl ScanError {
    /// The message shown for the error.
    pub fn message(&self) -> (r: String)
        ensures
            self matches ScanError::Missing(p) ==> r@ == "MailDir path does not exist: "@ + p@,
            self matches ScanError::NotADirectory(p) ==> r@ == "MailDir path is not a directory: "@ + p@,
    {
        match self {
            ScanError::Missing(p) => {
                let mut s = String::from_str("MailDir path does not exist: ");
                append_str(&mut s, p.as_str());
                s
            },
            ScanError::NotADirectory(p) => {
                let mut s = String::from_str("MailDir path is not a directory: ");
                append_str(&mut s, p.as_str());
                s
            },
        }
    }
}

} // verus!

verus! {

/// A load leaves a consistent tree consistent: the loaded folder's
/// counters match what it took in, and its children are untouched.
pub proof fn lemma_load_keeps_consistency(f: Folder, c: MaildirContents, limit: Option<usize>, g: Folder)
    requires
        tree_consistent(f),
        spec_load(f, c, limit, g),
    ensures
        tree_consistent(g),
{
    lemma_children_consistent(f, 0);
    lemma_children_consistent(g, 0);
}

} // verus!
