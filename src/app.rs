//! The navigation state machine: which view and pane are showing, the
//! selection memory between them, and the folder loads they ask for.
use vstd::prelude::*;
use vstd::string::*;
use crate::email::Email;
use crate::folder::{Folder, is_inbox_name, sorted_children, lemma_display_order_prefix, folder_names};
use crate::folder_list::{flat_list, get_folder_path_from_display_index};
use crate::scanner::{MaildirContents, MaildirScanner};
use crate::store::{EmailStore, LoadRequest, folder_at};
use crate::text::{append_str, chars_of, eq_ignore_ascii_case_exec};
use crate::view::{
    ActivePane, AppState, PaneSwitchDirection, ScrollDirection, View, spec_available_panes,
    spec_default_pane, spec_next_view, spec_prev_view,
};
use vstd::view::View as HasView;

verus! {

/// Positions inside the panes.
#[derive(Clone, Copy, Debug, PartialEq, Eq, Structural)]
pub struct SelectionState {
    /// Position in the folder pane's listing.
    pub folder_index: usize,
    /// Position in the message list.
    pub email_index: usize,
    pub scroll_offset: usize,
    pub attachment_index: usize,
    /// The message selection saved while the folder pane has focus.
    pub remembered_email_index: Option<usize>,
}

impl SelectionState {
    pub fn new() -> (r: SelectionState)
        ensures
            r == (SelectionState {
                folder_index: 0,
                email_index: 0,
                scroll_offset: 0,
                attachment_index: 0,
                remembered_email_index: None,
            }),
    {
        SelectionState { folder_index: 0, email_index: 0, scroll_offset: 0, attachment_index: 0, remembered_email_index: None }
    }
}

/// Why a folder load was asked for; it decides what follows the load and
/// how a failure is reported.
#[derive(Clone, Copy, Debug, PartialEq, Eq, Structural)]
pub enum LoadPurpose {
    /// The folder highlighted in the folder pane, loaded for a preview.
    Browse,
    /// The folder just entered: its first message is selected once loaded.
    Enter,
    /// More messages of the folder being read.
    More,
}

/// A folder load that the host has still to carry out.
#[derive(Clone, Debug, PartialEq, Eq)]
pub struct PendingLoad {
    pub request: LoadRequest,
    pub purpose: LoadPurpose,
}

/// The whole state of the reader.
#[derive(Debug)]
pub struct App {
    pub state: AppState,
    pub active_pane: ActivePane,
    pub current_view: View,
    pub content_pane_hidden: bool,
    pub selection: SelectionState,
    pub email_store: EmailStore,
    pub scanner: MaildirScanner,
    pub should_quit: bool,
    pub status_message: Option<String>,
    /// Rows of the message pane, used to size the first load of a folder.
    pub message_pane_visible_rows: usize,
    pub initial_loading_done: bool,
    /// A folder load asked for by the last transition.
    pub pending_load: Option<PendingLoad>,
}

/// The messages of the current folder.
pub open spec fn current_len(a: App) -> nat {
    a.email_store.current().emails@.len()
}

/// The highlighted folder at start: the position, among the root's
/// children in display order, of the first one named like the inbox, or
/// the first position when none is; `None` when the root has no child.
pub open spec fn inbox_choice(root: Folder, r: Option<usize>) -> bool {
    let o = sorted_children(root);
    if root.subfolders@.len() == 0 {
        r is None
    } else {
        r is Some && r->Some_0 < root.subfolders@.len() && {
            let j = r->Some_0 as int;
            ||| (is_inbox_name(root.subfolders@[o[j] as int].name@)
                && forall|q: int| 0 <= q < j ==> !is_inbox_name(root.subfolders@[(#[trigger] o[q]) as int].name@))
            ||| (j == 0 && forall|q: int| 0 <= q < o.len() ==> !is_inbox_name(root.subfolders@[(#[trigger] o[q]) as int].name@))
        }
    }
}

/// What a request for a state does (see `App::set_state`).
pub open spec fn spec_set_state(a: App, s: AppState, r: App) -> bool {
    if a.state == AppState::Quit {
        r == a
    } else {
        &&& r.state == s
        &&& r.should_quit == (a.should_quit || s == AppState::Quit)
        &&& r.active_pane == if s == AppState::EmailList && spec_available_panes(a.current_view, a.content_pane_hidden).contains(ActivePane::Messages) {
            ActivePane::Messages
        } else if s == AppState::EmailContent && spec_available_panes(a.current_view, a.content_pane_hidden).contains(ActivePane::Content) {
            ActivePane::Content
        } else {
            a.active_pane
        }
        &&& r.current_view == a.current_view
        &&& r.content_pane_hidden == a.content_pane_hidden
        &&& r.selection == a.selection
        &&& r.email_store == a.email_store
        &&& r.scanner == a.scanner
        &&& r.status_message == a.status_message
        &&& r.message_pane_visible_rows == a.message_pane_visible_rows
        &&& r.initial_loading_done == a.initial_loading_done
        &&& r.pending_load == a.pending_load
    }
}

/// The view the content toggle leads to from `v` once the content pane is
/// hidden (`now_hidden`) or shown again.
pub open spec fn toggled_view(v: View, now_hidden: bool) -> View {
    if now_hidden {
        if v == View::FolderMessages { View::FolderMessages } else { View::Messages }
    } else {
        if v == View::FolderMessages { View::FolderMessages } else { View::MessagesContent }
    }
}

/// The index of `p` in `ps`, or 0 when it is not there.
pub open spec fn pane_position(ps: Seq<ActivePane>, p: ActivePane) -> int {
    if ps.contains(p) {
        choose|i: int| 0 <= i < ps.len() && ps[i] == p && forall|j: int| 0 <= j < i ==> ps[j] != p
    } else {
        0
    }
}

/// The pane that pane cycling moves to, wrapping at both ends.
pub open spec fn cycled_pane(v: View, hidden: bool, p: ActivePane, d: PaneSwitchDirection) -> ActivePane {
    let ps = spec_available_panes(v, hidden);
    let i = pane_position(ps, p);
    match d {
        PaneSwitchDirection::Left => if i > 0 { ps[i - 1] } else { ps[ps.len() - 1] },
        PaneSwitchDirection::Right => if i < ps.len() - 1 { ps[i + 1] } else { ps[0] },
    }
}

impl App {
    /// The state every transition keeps: the selection names a message of
    /// the current folder.
    pub open spec fn wf(&self) -> bool {
        self.email_store.wf()
    }

    /// A new reader on `email_store`: folder pane of the folder-and-list
    /// view, content shown, and the inbox highlighted.
    pub fn new(email_store: EmailStore, scanner: MaildirScanner) -> (r: App)
        ensures
            r.state == AppState::FolderView,
            r.active_pane == ActivePane::Folders,
            r.current_view == View::FolderMessages,
            !r.content_pane_hidden,
            r.email_store == email_store,
            r.scanner == scanner,
            !r.should_quit,
            r.status_message is None,
            r.message_pane_visible_rows == 20,
            !r.initial_loading_done,
            r.pending_load is None,
            r.selection.email_index == 0,
            r.selection.scroll_offset == 0,
            r.selection.attachment_index == 0,
            r.selection.remembered_email_index is None,
            email_store.root_folder.subfolders@.len() > 0 ==> inbox_choice(email_store.root_folder, Some(r.selection.folder_index)),
            email_store.root_folder.subfolders@.len() == 0 ==> r.selection.folder_index == 0,
    {
        let mut app = App {
            state: AppState::FolderView,
            active_pane: ActivePane::Folders,
            current_view: View::FolderMessages,
            content_pane_hidden: false,
            selection: SelectionState::new(),
            email_store,
            scanner,
            should_quit: false,
            status_message: None,
            message_pane_visible_rows: 20,
            initial_loading_done: false,
            pending_load: None,
        };
        app.auto_select_inbox_without_loading();
        app
    }

    fn auto_select_inbox_without_loading(&mut self)
        ensures
            final(self).email_store == old(self).email_store,
            final(self).scanner == old(self).scanner,
            final(self).state == old(self).state,
            final(self).active_pane == old(self).active_pane,
            final(self).current_view == old(self).current_view,
            final(self).content_pane_hidden == old(self).content_pane_hidden,
            final(self).should_quit == old(self).should_quit,
            final(self).status_message == old(self).status_message,
            final(self).message_pane_visible_rows == old(self).message_pane_visible_rows,
            final(self).initial_loading_done == old(self).initial_loading_done,
            final(self).pending_load == old(self).pending_load,
            final(self).selection == (SelectionState { folder_index: final(self).selection.folder_index, ..old(self).selection }),
            old(self).email_store.root_folder.subfolders@.len() == 0 ==> final(self).selection == old(self).selection,
            old(self).email_store.root_folder.subfolders@.len() > 0 ==> inbox_choice(old(self).email_store.root_folder, Some(final(self).selection.folder_index)),
    {
        if let Some(i) = self.find_inbox_folder() {
            self.selection.folder_index = i;
        }
    }

    /// The folder pane position of the inbox among the root's children;
    /// without one the first position; `None` when the root has no child.
    fn find_inbox_folder(&self) -> (r: Option<usize>)
        ensures
            inbox_choice(self.email_store.root_folder, r),
    {
        let root = &self.email_store.root_folder;
        if root.subfolders.len() == 0 {
            return None;
        }
        let order = root.sorted_indices();
        let n = root.subfolders.len();
        proof {
            lemma_display_order_prefix(folder_names(root.subfolders@), n as nat);
        }
        let inbox_chars = chars_of("inbox");
        let mut k: usize = 0;
        while k < order.len()
            invariant
                *root == self.email_store.root_folder,
                order@ == sorted_children(*root),
                order@.len() == n,
                n == root.subfolders@.len(),
                n > 0,
                inbox_chars@ == "inbox"@,
                forall|q: int| 0 <= q < n ==> (#[trigger] order@[q]) < n,
                forall|q: int| 0 <= q < k ==> !is_inbox_name(root.subfolders@[(#[trigger] order@[q]) as int].name@),
                k <= n,
            decreases n - k,
        {
            let c = order[k];
            let name = chars_of(root.subfolders[c].name.as_str());
            if eq_ignore_ascii_case_exec(&name, &inbox_chars) {
                return Some(k);
            }
            k = k + 1;
        }
        Some(0)
    }
}


} // verus!

verus! {

/// The message selection to restore when the list gets focus: the
/// remembered one, else the first message if there is one.
pub open spec fn restored_index(a: App) -> Option<usize> {
    match a.selection.remembered_email_index {
        Some(k) => Some(k),
        None => if current_len(a) > 0 { Some(0usize) } else { None },
    }
}

/// The store's selection after restoring: the restored index when it
/// names a message, else the selection as it was.
pub open spec fn restored_selection(a: App) -> Option<usize> {
    match restored_index(a) {
        Some(k) => if k < current_len(a) { Some(k) } else { a.email_store.selected_email },
        None => a.email_store.selected_email,
    }
}

/// Whether the message selected in `s` has a body that can be shown.
pub open spec fn selected_loads(s: EmailStore) -> bool {
    s.selected_email matches Some(i) && i < s.current().emails@.len()
        && crate::email::loads_fully(s.current().emails@[s.selected_email->Some_0 as int])
}

/// What restoring the selection does (see `App::restore_selection`).
pub open spec fn spec_restore(a: App, r: App) -> bool {
    let mid = EmailStore { selected_email: restored_selection(a), ..a.email_store };
    let ok = selected_loads(mid);
    &&& r.selection == (SelectionState {
        email_index: match restored_index(a) { Some(k) => k, None => a.selection.email_index },
        ..a.selection
    })
    &&& crate::store::spec_load_selected(mid, r.email_store, ok)
    &&& if ok {
        spec_set_state(App { selection: r.selection, email_store: r.email_store, ..a }, AppState::EmailContent, r)
    } else {
        r == App { selection: r.selection, email_store: r.email_store, ..a }
    }
}

/// What leaving the message list for the folder pane does: the selection
/// is remembered when there is one, and cleared.
pub open spec fn spec_forget(a: App, r: App) -> bool {
    &&& r.selection == (SelectionState {
        remembered_email_index: if a.email_store.selected_email is Some {
            a.email_store.selected_email
        } else {
            a.selection.remembered_email_index
        },
        ..a.selection
    })
    &&& r.email_store == (EmailStore { selected_email: None, ..a.email_store })
    &&& r == App { selection: r.selection, email_store: r.email_store, ..a }
}

fn panes_contain(v: &Vec<ActivePane>, p: ActivePane) -> (r: bool)
    ensures
        r == v@.contains(p),
{
    let mut i: usize = 0;
    while i < v.len()
        invariant
            i <= v@.len(),
            forall|k: int| 0 <= k < i ==> v@[k] != p,
        decreases v@.len() - i,
    {
        if v[i] == p {
            return true;
        }
        i = i + 1;
    }
    false
}

fn pane_index(v: &Vec<ActivePane>, p: ActivePane) -> (r: usize)
    ensures
        r == pane_position(v@, p),
{
    let mut i: usize = 0;
    while i < v.len()
        invariant
            i <= v@.len(),
            forall|k: int| 0 <= k < i ==> v@[k] != p,
        decreases v@.len() - i,
    {
        if v[i] == p {
            let ghost w = choose|j: int| 0 <= j < v@.len() && v@[j] == p && forall|q: int| 0 <= q < j ==> v@[q] != p;
            assert(v@[i as int] == p && forall|q: int| 0 <= q < i ==> v@[q] != p);
            assert(w == i) by {
                if w < i {
                } else if w > i {
                    assert(v@[i as int] != p);
                }
            }
            return i;
        }
        i = i + 1;
    }
    0
}

impl App {
    /// Asks for a state. `Quit` is terminal: once in it, nothing changes.
    /// Entering the list focuses the message pane, and viewing content
    /// focuses the content pane, where the view has one.
    pub fn set_state(&mut self, new_state: AppState)
        ensures
            spec_set_state(*old(self), new_state, *final(self)),
    {
        if self.state == AppState::Quit {
            return;
        }
        match new_state {
            AppState::Quit => {
                self.should_quit = true;
            },
            AppState::EmailList => {
                let panes = self.current_view.get_available_panes(self.content_pane_hidden);
                if panes_contain(&panes, ActivePane::Messages) {
                    self.active_pane = ActivePane::Messages;
                }
            },
            AppState::EmailContent => {
                let panes = self.current_view.get_available_panes(self.content_pane_hidden);
                if panes_contain(&panes, ActivePane::Content) {
                    self.active_pane = ActivePane::Content;
                }
            },
            _ => {},
        }
        self.state = new_state;
    }

    /// Restores the remembered selection, or selects the first message,
    /// and parses the selected message; when its body is available the
    /// reader is viewing content.
    fn restore_selection(&mut self)
        ensures
            spec_restore(*old(self), *final(self)),
    {
        match self.selection.remembered_email_index {
            Some(k) => {
                self.selection.email_index = k;
                self.email_store.select_email(k);
            },
            None => {
                if self.email_store.get_current_folder().emails.len() > 0 {
                    self.selection.email_index = 0;
                    self.email_store.select_email(0);
                }
            },
        }
        let ok = self.email_store.get_selected_email().is_some();
        if ok {
            self.set_state(AppState::EmailContent);
        }
    }

    /// Remembers the selection, if any, and clears it.
    fn forget_selection(&mut self)
        ensures
            spec_forget(*old(self), *final(self)),
    {
        if self.email_store.selected_email.is_some() {
            self.selection.remembered_email_index = self.email_store.selected_email;
        }
        self.email_store.selected_email = None;
    }

    /// Moves focus to the neighbouring pane of the current view, wrapping
    /// at the ends. Leaving the message list for the folder pane remembers
    /// and clears the selection; the opposite move restores it.
    #[verifier::spinoff_prover]
    pub fn switch_pane(&mut self, direction: PaneSwitchDirection)
        ensures
            spec_switch_pane(*old(self), direction, *final(self)),
    {
        let panes = self.current_view.get_available_panes(self.content_pane_hidden);
        let current_index = pane_index(&panes, self.active_pane);
        let last = panes.len() - 1;
        let new_index = match direction {
            PaneSwitchDirection::Left => if current_index > 0 { current_index - 1 } else { last },
            PaneSwitchDirection::Right => if current_index < last { current_index + 1 } else { 0 },
        };
        let old_pane = self.active_pane;
        let new_pane = panes[new_index];
        if old_pane == ActivePane::Messages && new_pane == ActivePane::Folders {
            self.forget_selection();
        } else if old_pane == ActivePane::Folders && new_pane == ActivePane::Messages {
            self.restore_selection();
            let ghost m = *self;
            self.active_pane = new_pane;
            assert(*self == (App { active_pane: new_pane, ..m }));
            return;
        }
        self.active_pane = new_pane;
    }
}


impl App {
    /// One view to the right. Entering the list-and-content view from the
    /// folder view restores the selection. Focus goes to the new view's
    /// default pane. At the end of the chain nothing changes.
    pub fn next_view(&mut self)
        ensures
            spec_next_view_step(*old(self), *final(self)),
    {
        if let Some(new_view) = self.current_view.next_view(self.content_pane_hidden) {
            if self.current_view == View::FolderMessages && new_view == View::MessagesContent {
                self.restore_selection();
            }
            let ghost m = *self;
            self.current_view = new_view;
            self.active_pane = new_view.get_default_active_pane(self.content_pane_hidden);
            assert(*self == (App { current_view: new_view, active_pane: self.active_pane, ..m }));
        }
    }

    /// One view to the left. Leaving the list-and-content view for the
    /// folder view remembers and clears the selection. Focus goes to the
    /// new view's default pane. At the folder view nothing changes.
    pub fn prev_view(&mut self)
        ensures
            spec_prev_view_step(*old(self), *final(self)),
    {
        if let Some(new_view) = self.current_view.prev_view(self.content_pane_hidden) {
            if self.current_view == View::MessagesContent && new_view == View::FolderMessages {
                self.forget_selection();
            }
            let ghost m = *self;
            self.current_view = new_view;
            self.active_pane = new_view.get_default_active_pane(self.content_pane_hidden);
            assert(*self == (App { current_view: new_view, active_pane: self.active_pane, ..m }));
        }
    }

    /// Hides or shows the content pane. The folder view belongs to both
    /// chains and keeps its focused pane; any other view moves to the list
    /// view of the other chain, focusing its default pane.
    pub fn toggle_content_pane(&mut self)
        ensures
            spec_toggle(*old(self), *final(self)),
    {
        self.content_pane_hidden = !self.content_pane_hidden;
        let view = self.current_view;
        if view != View::FolderMessages {
            self.current_view = if self.content_pane_hidden { View::Messages } else { View::MessagesContent };
        }
        if self.current_view != view {
            self.active_pane = self.current_view.get_default_active_pane(self.content_pane_hidden);
        }
    }

    pub fn set_status(&mut self, message: String)
        ensures
            *final(self) == (App { status_message: Some(message), ..*old(self) }),
    {
        self.status_message = Some(message);
    }

    pub fn clear_status(&mut self)
        ensures
            *final(self) == (App { status_message: None, ..*old(self) }),
    {
        self.status_message = None;
    }

    /// Moves the content scroll position; it stops at 0 going up and at
    /// the largest offset going down.
    pub fn scroll(&mut self, direction: ScrollDirection, amount: usize)
        ensures
            spec_scroll(*old(self), direction, amount, *final(self)),
    {
        match direction {
            ScrollDirection::Up => {
                if self.selection.scroll_offset >= amount {
                    self.selection.scroll_offset = self.selection.scroll_offset - amount;
                } else {
                    self.selection.scroll_offset = 0;
                }
            },
            ScrollDirection::Down => {
                self.selection.scroll_offset = self.selection.scroll_offset.saturating_add(amount);
            },
        }
    }

    /// The message the mirror shows: none while the folder pane has focus,
    /// else the selected message as far as it is parsed.
    pub fn get_current_email_for_web(&self) -> (r: Option<&Email>)
        ensures
            self.active_pane == ActivePane::Folders ==> r is None,
            self.active_pane != ActivePane::Folders ==> {
                let s = self.email_store;
                if s.selected_email matches Some(i) && i < s.current().emails@.len() {
                    r is Some && *r->Some_0 == s.current().emails@[s.selected_email->Some_0 as int]
                } else {
                    r is None
                }
            },
    {
        match self.active_pane {
            ActivePane::Folders => None,
            _ => self.email_store.get_selected_email_headers(),
        }
    }

    /// Loads the highlighted folder the first time this is called.
    pub fn perform_initial_loading_if_needed(&mut self)
        requires
            old(self).message_pane_visible_rows <= usize::MAX - 5,
        ensures
            old(self).initial_loading_done ==> *final(self) == *old(self),
            !old(self).initial_loading_done ==> final(self).initial_loading_done
                && spec_browse_load(*old(self), App { initial_loading_done: false, ..*final(self) }),
    {
        if !self.initial_loading_done {
            self.load_selected_folder_messages();
            self.initial_loading_done = true;
        }
    }

    /// Asks for the highlighted folder's first messages, and starts the
    /// message list afresh with nothing remembered. A path that names no
    /// folder is reported in the status line.
    pub fn load_selected_folder_messages(&mut self)
        requires
            old(self).message_pane_visible_rows <= usize::MAX - 5,
        ensures
            spec_browse_load(*old(self), *final(self)),
    {
        let path = get_folder_path_from_display_index(&self.email_store.root_folder, self.selection.folder_index);
        if let Some(path) = path {
            proof {
                crate::folder_list::lemma_listed_paths_valid(self.email_store.root_folder, self.selection.folder_index as int);
            }
            let res = self.email_store.ensure_folder_at_path_loaded(path.as_slice(), self.message_pane_visible_rows);
            match res {
                Err(e) => {
                    let mut msg = String::from_str("Error loading folder messages: ");
                    let m = e.message();
                    append_str(&mut msg, m.as_str());
                    self.set_status(msg);
                },
                Ok(Some(request)) => {
                    self.pending_load = Some(PendingLoad { request, purpose: LoadPurpose::Browse });
                },
                Ok(None) => {},
            }
            self.selection.email_index = 0;
            self.selection.remembered_email_index = None;
        }
    }

    /// The folder highlighted in the folder pane.
    pub fn get_selected_folder(&self) -> (r: Option<&Folder>)
        ensures
            self.selection.folder_index < flat_list(self.email_store.root_folder).len() ==> r is Some
                && *r->Some_0 == folder_at(self.email_store.root_folder, flat_list(self.email_store.root_folder)[self.selection.folder_index as int]),
            self.selection.folder_index >= flat_list(self.email_store.root_folder).len() ==> r is None,
    {
        let path = get_folder_path_from_display_index(&self.email_store.root_folder, self.selection.folder_index);
        match path {
            Some(p) => {
                proof {
                    crate::folder_list::lemma_listed_paths_valid(self.email_store.root_folder, self.selection.folder_index as int);
                }
                self.email_store.get_folder_at_path(p.as_slice())
            },
            None => None,
        }
    }

    /// The folder load the last transition asked for, if any.
    pub fn get_pending_load(&self) -> (r: Option<LoadRequest>)
        ensures
            r is Some == self.pending_load is Some,
            r is Some ==> r->Some_0.path@ == self.pending_load->Some_0.request.path@
                && r->Some_0.limit == self.pending_load->Some_0.request.limit,
    {
        match &self.pending_load {
            Some(p) => Some(LoadRequest { path: p.request.path.clone(), limit: p.request.limit }),
            None => None,
        }
    }

    /// Completes the pending load with the folder's message directories.
    /// After entering a folder its first message is selected once loaded.
    pub fn finish_load(&mut self, contents: &MaildirContents)
        requires
            contents.cur@.len() + contents.new@.len() < usize::MAX,
        ensures
            final(self).pending_load is None,
            old(self).pending_load is None ==> *final(self) == (App { pending_load: None, ..*old(self) }),
            old(self).pending_load matches Some(p) ==> {
                &&& final(self).email_store.current_folder == old(self).email_store.current_folder
                &&& exists|g: Folder| {
                    &&& crate::scanner::spec_load(folder_at(old(self).email_store.root_folder, p.request.path@), *contents, p.request.limit, g)
                    &&& crate::store::replaced_at(old(self).email_store.root_folder, p.request.path@, g, final(self).email_store.root_folder)
                }
                &&& (p.purpose == LoadPurpose::Enter && old(self).email_store.selected_email is None
                    && final(self).email_store.current().emails@.len() > 0) ==> final(self).email_store.selected_email == Some(0usize)
                &&& !(p.purpose == LoadPurpose::Enter && old(self).email_store.selected_email is None
                    && final(self).email_store.current().emails@.len() > 0) ==> (old(self).email_store.selected_email is None
                        ==> final(self).email_store.selected_email is None)
                &&& final(self).email_store.wf()
            },
            crate::folder::tree_consistent(old(self).email_store.root_folder)
                ==> crate::folder::tree_consistent(final(self).email_store.root_folder),
    {
        let mut pending: Option<PendingLoad> = None;
        core::mem::swap(&mut pending, &mut self.pending_load);
        if let Some(p) = pending {
            self.email_store.apply_load(&self.scanner, &p.request, contents);
            if p.purpose == LoadPurpose::Enter && self.email_store.selected_email.is_none()
                && self.email_store.get_current_folder().emails.len() > 0 {
                self.email_store.select_email(0);
            }
        }
    }

    /// Reports that the pending load could not be carried out.
    pub fn fail_load(&mut self, error: &str)
        ensures
            final(self).pending_load is None,
            old(self).pending_load matches Some(p) ==> final(self).status_message is Some
                && final(self).status_message->Some_0@ == load_error_prefix(p.purpose) + error@,
    {
        if let Some(p) = &self.pending_load {
            let mut msg = match p.purpose {
                LoadPurpose::Browse => String::from_str("Error loading folder messages: "),
                LoadPurpose::Enter => String::from_str("Error loading folder: "),
                LoadPurpose::More => String::from_str("Error loading more messages: "),
            };
            append_str(&mut msg, error);
            self.status_message = Some(msg);
        }
        self.pending_load = None;
    }
}

/// What stepping one view to the right does (see `App::next_view`).
pub open spec fn spec_next_view_step(a: App, r: App) -> bool {
    match spec_next_view(a.current_view, a.content_pane_hidden) {
        None => r == a,
        Some(nv) => {
            let pane = spec_default_pane(nv, a.content_pane_hidden);
            if a.current_view == View::FolderMessages && nv == View::MessagesContent {
                exists|m: App| spec_restore(a, m) && r == (App { current_view: nv, active_pane: pane, ..m })
            } else {
                r == (App { current_view: nv, active_pane: pane, ..a })
            }
        },
    }
}

/// What stepping one view to the left does (see `App::prev_view`).
pub open spec fn spec_prev_view_step(a: App, r: App) -> bool {
    match spec_prev_view(a.current_view, a.content_pane_hidden) {
        None => r == a,
        Some(pv) => {
            let pane = spec_default_pane(pv, a.content_pane_hidden);
            if a.current_view == View::MessagesContent && pv == View::FolderMessages {
                exists|m: App| spec_forget(a, m) && r == (App { current_view: pv, active_pane: pane, ..m })
            } else {
                r == (App { current_view: pv, active_pane: pane, ..a })
            }
        },
    }
}

/// What cycling the focus does (see `App::switch_pane`).
pub open spec fn spec_switch_pane(a: App, direction: PaneSwitchDirection, r: App) -> bool {
    let np = cycled_pane(a.current_view, a.content_pane_hidden, a.active_pane, direction);
    &&& r.active_pane == np
    &&& r.current_view == a.current_view
    &&& r.content_pane_hidden == a.content_pane_hidden
    &&& if a.active_pane == ActivePane::Messages && np == ActivePane::Folders {
        spec_forget(a, App { active_pane: a.active_pane, ..r })
    } else if a.active_pane == ActivePane::Folders && np == ActivePane::Messages {
        exists|m: App| spec_restore(a, m) && r == (App { active_pane: np, ..m })
    } else {
        r == (App { active_pane: np, ..a })
    }
}

/// The scroll position after scrolling `amount` lines.
pub open spec fn scrolled(offset: usize, direction: ScrollDirection, amount: usize) -> usize {
    match direction {
        ScrollDirection::Up => if offset >= amount { (offset - amount) as usize } else { 0usize },
        ScrollDirection::Down => if offset + amount <= usize::MAX { (offset + amount) as usize } else { usize::MAX },
    }
}

/// What scrolling does (see `App::scroll`).
pub open spec fn spec_scroll(a: App, direction: ScrollDirection, amount: usize, r: App) -> bool {
    r == (App {
        selection: SelectionState { scroll_offset: scrolled(a.selection.scroll_offset, direction, amount), ..a.selection },
        ..a
    })
}

/// What the content toggle does (see `App::toggle_content_pane`).
pub open spec fn spec_toggle(a: App, r: App) -> bool {
    &&& r.content_pane_hidden == !a.content_pane_hidden
    &&& r.current_view == toggled_view(a.current_view, r.content_pane_hidden)
    &&& r.active_pane == if r.current_view == a.current_view {
        a.active_pane
    } else {
        spec_default_pane(r.current_view, r.content_pane_hidden)
    }
    &&& r == (App {
        content_pane_hidden: r.content_pane_hidden,
        current_view: r.current_view,
        active_pane: r.active_pane,
        ..a
    })
}

/// Toggling the content pane twice returns to the same view and pane,
/// from a view of the chain of the current mode other than its last one.
/// The folder view, common to both modes, keeps whichever pane has focus;
/// the list views come back with their default pane, so that pane must be
/// the focused one.
pub proof fn law_toggle_twice(a: App, m: App, b: App)
    requires
        spec_toggle(a, m),
        spec_toggle(m, b),
        crate::view::view_in_mode(a.current_view, a.content_pane_hidden),
        a.current_view != crate::view::terminal_view(a.content_pane_hidden),
        a.current_view == View::FolderMessages || a.active_pane == spec_default_pane(a.current_view, a.content_pane_hidden),
    ensures
        b.current_view == a.current_view,
        b.active_pane == a.active_pane,
        b.content_pane_hidden == a.content_pane_hidden,
        b == a,
{
}

/// The selection survives a step back to the folder view and forward
/// again: it is cleared and remembered on the way back, and restored on
/// the way forward, so the round trip can be repeated.
pub proof fn law_selection_round_trip(a: App, m: App, b: App, k: usize)
    requires
        a.current_view == View::MessagesContent,
        !a.content_pane_hidden,
        a.email_store.selected_email == Some(k),
        k < current_len(a),
        spec_prev_view_step(a, m),
        spec_next_view_step(m, b),
    ensures
        m.current_view == View::FolderMessages,
        m.email_store.selected_email is None,
        m.selection.remembered_email_index == Some(k),
        b.current_view == View::MessagesContent,
        !b.content_pane_hidden,
        b.email_store.selected_email == Some(k),
        b.selection.email_index == k,
        b.selection.remembered_email_index == Some(k),
        k < current_len(b),
{
    let m0 = choose|m0: App| spec_forget(a, m0)
        && m == (App { current_view: View::FolderMessages, active_pane: ActivePane::Folders, ..m0 });
    assert(m.email_store.current() == a.email_store.current());
    let b0 = choose|b0: App| spec_restore(m, b0)
        && b == (App { current_view: View::MessagesContent, active_pane: ActivePane::Messages, ..b0 });
    assert(restored_index(m) == Some(k));
    assert(restored_selection(m) == Some(k));
    let mid = EmailStore { selected_email: restored_selection(m), ..m.email_store };
    assert(mid.current() == m.email_store.current());
    if selected_loads(mid) {
        assert(b0.email_store.current().emails@.len() == mid.current().emails@.len());
    }
}

/// How a failed load is reported, by what it was for.
pub open spec fn load_error_prefix(p: LoadPurpose) -> Seq<char> {
    match p {
        LoadPurpose::Browse => "Error loading folder messages: "@,
        LoadPurpose::Enter => "Error loading folder: "@,
        LoadPurpose::More => "Error loading more messages: "@,
    }
}

/// What asking for the highlighted folder's messages does (see
/// `App::load_selected_folder_messages`).
pub open spec fn spec_browse_load(a: App, r: App) -> bool {
    let root = a.email_store.root_folder;
    let fi = a.selection.folder_index;
    if fi >= flat_list(root).len() {
        r == a
    } else {
        let path = flat_list(root)[fi as int];
        let f = folder_at(root, path);
        let rows = a.message_pane_visible_rows;
        &&& r.selection == (SelectionState { email_index: 0, remembered_email_index: None, ..a.selection })
        &&& if !f.is_loaded && f.emails@.len() == 0 {
            &&& r.pending_load is Some
            &&& r.pending_load->Some_0.purpose == LoadPurpose::Browse
            &&& r.pending_load->Some_0.request.path@ == path
            &&& r.pending_load->Some_0.request.limit == Some(if rows + 5 >= 10 { (rows + 5) as usize } else { 10usize })
            &&& r == App { selection: r.selection, pending_load: r.pending_load, ..a }
        } else {
            r == App { selection: r.selection, ..a }
        }
    }
}

} // verus!
