//! Turns key presses into transitions of the reader.
use vstd::prelude::*;
use vstd::string::*;
use crate::app::{
    App, LoadPurpose, PendingLoad, SelectionState, current_len, selected_loads, spec_browse_load, spec_next_view_step,
    spec_prev_view_step, spec_scroll, spec_set_state, spec_switch_pane, spec_toggle,
};
use crate::folder_list::{count_visible_folders, flat_list, get_folder_path_from_display_index};
use crate::store::{EmailStore, folder_at};
use crate::text::append_str;
use crate::view::{ActivePane, AppState, PaneSwitchDirection, ScrollDirection, View};
use vstd::view::View as HasView;

verus! {

/// A key, as far as the reader tells keys apart.
#[derive(Clone, Copy, Debug, PartialEq, Eq, Structural)]
pub enum KeyCode {
    Char(char),
    Up,
    Down,
    Tab,
    BackTab,
    Enter,
    Backspace,
    Esc,
    PageUp,
    PageDown,
    Other,
}

/// The modifier keys held with a key.
#[derive(Clone, Copy, Debug, PartialEq, Eq, Structural)]
pub enum Modifiers {
    /// No modifier.
    Plain,
    Alt,
    Shift,
    /// Any other combination.
    Other,
}

#[derive(Clone, Copy, Debug, PartialEq, Eq, Structural)]
pub struct KeyEvent {
    pub code: KeyCode,
    pub modifiers: Modifiers,
}

/// What the terminal reports.
#[derive(Clone, Copy, Debug, PartialEq, Eq, Structural)]
pub enum InputEvent {
    Key(KeyEvent),
    Resize,
    Other,
}

#[derive(Clone, Copy, Debug, PartialEq, Eq, Structural)]
pub enum NavigationDirection {
    Up,
    Down,
}

/// The number of messages the first load of an entered folder takes.
pub const ENTER_LOAD_COUNT: usize = 25;

/// The highlighted folder position after one step.
pub open spec fn stepped_folder_index(fi: usize, total: nat, d: NavigationDirection) -> usize {
    match d {
        NavigationDirection::Down => if fi + 1 < total { (fi + 1) as usize } else { fi },
        NavigationDirection::Up => if fi > 0 { (fi - 1) as usize } else { fi },
    }
}

/// Handles one terminal event; returns whether the reader should stop.
pub fn handle_input(app: &mut App, event: InputEvent) -> (r: bool)
    requires
        old(app).message_pane_visible_rows <= usize::MAX - 5,
    ensures
        event matches InputEvent::Key(k) ==> spec_key_outcome(*old(app), k, *final(app), r),
        !(event is Key) ==> !r && *final(app) == *old(app),
{
    match event {
        InputEvent::Key(k) => handle_key_event(app, k),
        _ => false,
    }
}

/// The outcome of one key that every key obeys: once the reader quits it
/// stays quit and nothing changes; `q` quits; `?` opens and closes help.
pub open spec fn spec_key_outcome(a: App, k: KeyEvent, r: App, quit: bool) -> bool {
    if a.state == AppState::Quit {
        quit && r == a
    } else if k.code == KeyCode::Char('q') && k.modifiers == Modifiers::Plain {
        quit && spec_set_state(a, AppState::Quit, r)
    } else if k.code == KeyCode::Char('?') && k.modifiers == Modifiers::Plain {
        !quit && spec_set_state(a, if a.state == AppState::Help { AppState::FolderView } else { AppState::Help }, r)
    } else if a.state == AppState::Help {
        !quit && spec_set_state(a, AppState::FolderView, r)
    } else if a.state == AppState::AttachmentView {
        !quit && spec_attachment_key(a, k, r)
    } else {
        !quit && spec_main_key(a, k, r)
    }
}

/// The transition a key makes in the main views.
pub open spec fn spec_main_key(a: App, k: KeyEvent, r: App) -> bool {
    let plain = k.modifiers == Modifiers::Plain;
    if (k.code == KeyCode::Char('j') && plain) || k.code == KeyCode::Down {
        spec_navigation(a, NavigationDirection::Down, r)
    } else if (k.code == KeyCode::Char('k') && plain) || k.code == KeyCode::Up {
        spec_navigation(a, NavigationDirection::Up, r)
    } else if k.code == KeyCode::Tab {
        spec_switch_pane(a, PaneSwitchDirection::Right, r)
    } else if k.code == KeyCode::BackTab {
        spec_switch_pane(a, PaneSwitchDirection::Left, r)
    } else if k.code == KeyCode::Char('h') && plain {
        spec_prev_view_step(a, r)
    } else if k.code == KeyCode::Char('l') && plain {
        if a.active_pane == ActivePane::Folders && a.email_store.current_folder@.len() == 0 {
            spec_enter_and_open(a, r)
        } else {
            spec_next_view_step(a, r)
        }
    } else if k.code == KeyCode::Char('c') && k.modifiers == Modifiers::Alt {
        spec_toggle(a, r)
    } else if k.code == KeyCode::Enter {
        if a.active_pane == ActivePane::Folders {
            spec_enter_and_open(a, r)
        } else {
            spec_selection(a, r)
        }
    } else if k.code == KeyCode::Backspace {
        spec_back(a, r)
    } else if k.code == KeyCode::Char('a') && k.modifiers == Modifiers::Alt {
        spec_open_attachments(a, r)
    } else if k.code == KeyCode::PageDown && a.active_pane == ActivePane::Content {
        spec_scroll(a, ScrollDirection::Down, 10, r)
    } else if k.code == KeyCode::PageUp && a.active_pane == ActivePane::Content {
        spec_scroll(a, ScrollDirection::Up, 10, r)
    } else {
        r == a
    }
}

/// The transition a key makes in the attachment view.
pub open spec fn spec_attachment_key(a: App, k: KeyEvent, r: App) -> bool {
    if k.code == KeyCode::Esc {
        spec_set_state(a, AppState::EmailContent, r)
    } else if k.code == KeyCode::Char('j') || k.code == KeyCode::Down {
        spec_next_attachment(a, r)
    } else if k.code == KeyCode::Char('k') || k.code == KeyCode::Up {
        r == (App {
            selection: SelectionState {
                attachment_index: if a.selection.attachment_index > 0 {
                    (a.selection.attachment_index - 1) as usize
                } else {
                    a.selection.attachment_index
                },
                ..a.selection
            },
            ..a
        })
    } else if k.code == KeyCode::Enter {
        spec_attachment_open(a, k.modifiers == Modifiers::Shift, r)
    } else {
        r == a
    }
}

/// Handles one key; returns whether the reader should stop.
#[verifier::spinoff_prover]
pub fn handle_key_event(app: &mut App, key: KeyEvent) -> (r: bool)
    requires
        old(app).message_pane_visible_rows <= usize::MAX - 5,
    ensures
        spec_key_outcome(*old(app), key, *final(app), r),
{
    if app.state == AppState::Quit {
        return true;
    }
    if key.code == KeyCode::Char('q') && key.modifiers == Modifiers::Plain {
        app.set_state(AppState::Quit);
        return true;
    }
    if key.code == KeyCode::Char('?') && key.modifiers == Modifiers::Plain {
        if app.state == AppState::Help {
            app.set_state(AppState::FolderView);
        } else {
            app.set_state(AppState::Help);
        }
        return false;
    }
    match app.state {
        AppState::Help => {
            app.set_state(AppState::FolderView);
            false
        },
        AppState::AttachmentView => handle_attachment_view_input(app, key),
        _ => handle_main_view_input(app, key),
    }
}

#[verifier::spinoff_prover]
#[verifier::rlimit(100)]
fn handle_main_view_input(app: &mut App, key: KeyEvent) -> (r: bool)
    requires
        old(app).message_pane_visible_rows <= usize::MAX - 5,
        old(app).state != AppState::Quit,
        old(app).state != AppState::AttachmentView,
        old(app).state != AppState::Help,
    ensures
        !r,
        spec_main_key(*old(app), key, *final(app)),
{
    let plain = key.modifiers == Modifiers::Plain;
    match key.code {
        KeyCode::Char('j') if plain => handle_navigation(app, NavigationDirection::Down),
        KeyCode::Char('k') if plain => handle_navigation(app, NavigationDirection::Up),
        KeyCode::Down => handle_navigation(app, NavigationDirection::Down),
        KeyCode::Up => handle_navigation(app, NavigationDirection::Up),
        KeyCode::Tab => app.switch_pane(PaneSwitchDirection::Right),
        KeyCode::BackTab => app.switch_pane(PaneSwitchDirection::Left),
        KeyCode::Char('h') if plain => app.prev_view(),
        KeyCode::Char('l') if plain => {
            if app.active_pane == ActivePane::Folders && app.email_store.current_folder.len() == 0 {
                handle_folder_selection_and_switch_view(app);
            } else {
                app.next_view();
            }
        },
        KeyCode::Char('c') if key.modifiers == Modifiers::Alt => app.toggle_content_pane(),
        KeyCode::Enter => {
            if app.active_pane == ActivePane::Folders {
                handle_folder_selection_and_switch_view(app);
            } else {
                handle_selection(app);
            }
        },
        KeyCode::Backspace => handle_back_navigation(app),
        KeyCode::Char('a') if key.modifiers == Modifiers::Alt => open_attachment_view(app),
        KeyCode::PageDown => {
            if app.active_pane == ActivePane::Content {
                app.scroll(ScrollDirection::Down, 10);
            }
        },
        KeyCode::PageUp => {
            if app.active_pane == ActivePane::Content {
                app.scroll(ScrollDirection::Up, 10);
            }
        },
        _ => {},
    }
    false
}

/// What asking for the attachment view does (see `open_attachment_view`).
pub open spec fn spec_open_attachments(a: App, r: App) -> bool {
    let ok = selected_loads(a.email_store);
    let loaded = App { email_store: r.email_store, ..a };
    &&& crate::store::spec_load_selected(a.email_store, r.email_store, ok)
    &&& if ok && r.email_store.selected_spec()->Some_0.attachments@.len() > 0 {
        spec_set_state(loaded, AppState::AttachmentView, r)
    } else if ok {
        r == App { status_message: r.status_message, ..loaded } && r.status_message is Some
            && r.status_message->Some_0@ == "No attachments in this email"@
    } else {
        r == App { status_message: r.status_message, ..loaded } && r.status_message is Some
            && r.status_message->Some_0@ == "No email selected"@
    }
}

/// Opens the attachment view for the selected message when it has
/// attachments; otherwise says why not in the status line.
pub fn open_attachment_view(app: &mut App)
    requires
        old(app).state != AppState::Quit,
        old(app).state != AppState::AttachmentView,
    ensures
        spec_open_attachments(*old(app), *final(app)),
{
    let has = match app.email_store.get_selected_email() {
        Some(email) => Some(email.has_attachments()),
        None => None,
    };
    match has {
        Some(true) => app.set_state(AppState::AttachmentView),
        Some(false) => app.set_status(String::from_str("No attachments in this email")),
        None => app.set_status(String::from_str("No email selected")),
    }
}

fn handle_attachment_view_input(app: &mut App, key: KeyEvent) -> (r: bool)
    requires
        old(app).state == AppState::AttachmentView,
    ensures
        !r,
        spec_attachment_key(*old(app), key, *final(app)),
{
    match key.code {
        KeyCode::Esc => app.set_state(AppState::EmailContent),
        KeyCode::Char('j') | KeyCode::Down => next_attachment(app),
        KeyCode::Char('k') | KeyCode::Up => {
            if app.selection.attachment_index > 0 {
                app.selection.attachment_index = app.selection.attachment_index - 1;
            }
        },
        KeyCode::Enter => handle_attachment_open(app, key.modifiers == Modifiers::Shift),
        _ => {},
    }
    false
}

/// What moving to the next attachment does (see `next_attachment`).
pub open spec fn spec_next_attachment(a: App, r: App) -> bool {
    let ok = selected_loads(a.email_store);
    &&& crate::store::spec_load_selected(a.email_store, r.email_store, ok)
    &&& r.selection.attachment_index == if ok && a.selection.attachment_index + 1
        < r.email_store.selected_spec()->Some_0.attachments@.len() {
        (a.selection.attachment_index + 1) as usize
    } else {
        a.selection.attachment_index
    }
    &&& r == App {
        selection: SelectionState { attachment_index: r.selection.attachment_index, ..a.selection },
        email_store: r.email_store,
        ..a
    }
}

/// Moves to the next attachment of the selected message, if there is one.
fn next_attachment(app: &mut App)
    ensures
        spec_next_attachment(*old(app), *final(app)),
{
    let n = match app.email_store.get_selected_email() {
        Some(email) => email.attachments.len(),
        None => 0,
    };
    if app.selection.attachment_index < n && app.selection.attachment_index + 1 < n {
        app.selection.attachment_index = app.selection.attachment_index + 1;
    }
}

/// What one step up or down does (see `handle_navigation`).
pub open spec fn spec_navigation(a: App, direction: NavigationDirection, r: App) -> bool {
    &&& (r.state != AppState::Quit)
    &&& (r.message_pane_visible_rows == a.message_pane_visible_rows)
    &&& (a.active_pane == ActivePane::Folders ==> {
        let fi = stepped_folder_index(a.selection.folder_index, flat_list(a.email_store.root_folder).len(), direction);
        if fi == a.selection.folder_index {
            r == a
        } else {
            spec_browse_load(App { selection: SelectionState { folder_index: fi, ..a.selection }, ..a }, r)
        }
    })
    &&& (a.active_pane == ActivePane::Messages ==> {
        let ei = a.selection.email_index;
        let n = current_len(a);
        let moves = match direction {
            NavigationDirection::Down => ei + 1 < n,
            NavigationDirection::Up => ei > 0,
        };
        !moves ==> r == a
    })
    &&& ((a.active_pane == ActivePane::Messages && (match direction {
        NavigationDirection::Down => a.selection.email_index + 1 < current_len(a),
        NavigationDirection::Up => a.selection.email_index > 0,
    })) ==> {
        let ni: usize = match direction {
            NavigationDirection::Down => (a.selection.email_index + 1) as usize,
            NavigationDirection::Up => (a.selection.email_index - 1) as usize,
        };
        let sel = if ni < current_len(a) { Some(ni) } else { a.email_store.selected_email };
        let m = App {
            selection: SelectionState { email_index: ni, ..a.selection },
            email_store: EmailStore { selected_email: sel, ..a.email_store },
            pending_load: r.pending_load,
            ..a
        };
        &&& spec_set_state(m, AppState::EmailList, r)
        &&& r.selection.email_index == ni
        &&& r.email_store.selected_email == sel
        &&& r.state == AppState::EmailList
        &&& r.active_pane == ActivePane::Messages
        &&& if direction == NavigationDirection::Down && !a.email_store.current().is_loaded
            && ni + 5 >= current_len(a) {
            &&& r.pending_load is Some
            &&& r.pending_load->Some_0.purpose == LoadPurpose::More
            &&& r.pending_load->Some_0.request.limit is None
            &&& r.pending_load->Some_0.request.path@ == a.email_store.current_folder@
        } else {
            r.pending_load == a.pending_load
        }
    })
    &&& (a.active_pane == ActivePane::Content ==> spec_scroll(a, match direction {
        NavigationDirection::Down => ScrollDirection::Down,
        NavigationDirection::Up => ScrollDirection::Up,
    }, 1, r))
    &&& ((a.active_pane == ActivePane::Attachments && direction == NavigationDirection::Down)
        ==> spec_next_attachment(a, r))
    &&& ((a.active_pane == ActivePane::Attachments && direction == NavigationDirection::Up) ==> r == (App {
        selection: SelectionState {
            attachment_index: if a.selection.attachment_index > 0 {
                (a.selection.attachment_index - 1) as usize
            } else {
                a.selection.attachment_index
            },
            ..a.selection
        },
        ..a
    }))
}

/// Up or down in the focused pane: the folder highlight (loading the
/// newly highlighted folder), the message selection (asking for more
/// messages near the end), the content scroll, or the attachment.
pub fn handle_navigation(app: &mut App, direction: NavigationDirection)
    requires
        old(app).message_pane_visible_rows <= usize::MAX - 5,
        old(app).state != AppState::Quit,
    ensures
        spec_navigation(*old(app), direction, *final(app)),
{
    match app.active_pane {
        ActivePane::Folders => {
            let total = count_visible_folders(&app.email_store.root_folder);
            let old_index = app.selection.folder_index;
            match direction {
                NavigationDirection::Down => {
                    if app.selection.folder_index < total && app.selection.folder_index + 1 < total {
                        app.selection.folder_index = app.selection.folder_index + 1;
                    }
                },
                NavigationDirection::Up => {
                    if app.selection.folder_index > 0 {
                        app.selection.folder_index = app.selection.folder_index - 1;
                    }
                },
            }
            if app.selection.folder_index != old_index {
                app.load_selected_folder_messages();
            }
        },
        ActivePane::Messages => {
            let total = app.email_store.get_current_folder().emails.len();
            match direction {
                NavigationDirection::Down => {
                    if app.selection.email_index < total && app.selection.email_index + 1 < total {
                        app.selection.email_index = app.selection.email_index + 1;
                        app.email_store.select_email(app.selection.email_index);
                        if let Some(request) = app.email_store.load_more_messages_if_needed(app.selection.email_index) {
                            app.pending_load = Some(PendingLoad { request, purpose: LoadPurpose::More });
                        }
                        app.set_state(AppState::EmailList);
                    }
                },
                NavigationDirection::Up => {
                    if app.selection.email_index > 0 {
                        app.selection.email_index = app.selection.email_index - 1;
                        app.email_store.select_email(app.selection.email_index);
                        app.set_state(AppState::EmailList);
                    }
                },
            }
        },
        ActivePane::Content => {
            match direction {
                NavigationDirection::Down => app.scroll(ScrollDirection::Down, 1),
                NavigationDirection::Up => app.scroll(ScrollDirection::Up, 1),
            }
        },
        ActivePane::Attachments => {
            match direction {
                NavigationDirection::Down => next_attachment(app),
                NavigationDirection::Up => {
                    if app.selection.attachment_index > 0 {
                        app.selection.attachment_index = app.selection.attachment_index - 1;
                    }
                },
            }
        },
    }
}

/// What entering the highlighted folder does to the store and the
/// selection (see `enter_highlighted_folder`).
pub open spec fn spec_enter_highlighted(a: App, r: App) -> bool {
    let path = flat_list(a.email_store.root_folder)[a.selection.folder_index as int];
    let f = folder_at(a.email_store.root_folder, path);
    &&& r.email_store.current_folder@ == path
    &&& r.email_store.root_folder == a.email_store.root_folder
    &&& r.selection == (SelectionState { email_index: 0, scroll_offset: 0, remembered_email_index: None, ..a.selection })
    &&& r.email_store.selected_email == if f.emails@.len() > 0 { Some(0usize) } else { None }
    &&& if !f.is_loaded && f.emails@.len() == 0 {
        &&& r.pending_load is Some
        &&& r.pending_load->Some_0.purpose == LoadPurpose::Enter
        &&& r.pending_load->Some_0.request.path@ == path
        &&& r.pending_load->Some_0.request.limit == Some(ENTER_LOAD_COUNT)
    } else {
        r.pending_load == a.pending_load
    }
    &&& r.state == a.state
    &&& r.active_pane == a.active_pane
    &&& r.current_view == a.current_view
    &&& r.content_pane_hidden == a.content_pane_hidden
    &&& r.should_quit == a.should_quit
    &&& r.status_message == a.status_message
    &&& r.message_pane_visible_rows == a.message_pane_visible_rows
}

/// Enters the folder highlighted in the folder pane, starting from the
/// root; returns whether a folder is highlighted.
fn enter_highlighted_folder(app: &mut App) -> (r: bool)
    ensures
        r == (old(app).selection.folder_index < flat_list(old(app).email_store.root_folder).len()),
        !r ==> *final(app) == *old(app),
        r ==> spec_enter_highlighted(*old(app), *final(app)),
{
    let path = get_folder_path_from_display_index(&app.email_store.root_folder, app.selection.folder_index);
    match path {
        None => false,
        Some(path) => {
            app.email_store.current_folder.clear();
            app.email_store.enter_folder_by_path(path.as_slice());
            assert(app.email_store.current_folder@ =~= path@);
            if let Some(request) = app.email_store.ensure_current_folder_loaded_with_limit(ENTER_LOAD_COUNT) {
                app.pending_load = Some(PendingLoad { request, purpose: LoadPurpose::Enter });
            }
            app.selection.email_index = 0;
            app.selection.scroll_offset = 0;
            app.selection.remembered_email_index = None;
            if app.email_store.get_current_folder().emails.len() > 0 {
                app.email_store.select_email(0);
            }
            true
        },
    }
}

/// The list view of the current mode.
pub open spec fn list_view(hidden: bool) -> View {
    if hidden { View::Messages } else { View::MessagesContent }
}

/// What entering the highlighted folder and opening its list does (see
/// `handle_folder_selection_and_switch_view`).
pub open spec fn spec_enter_and_open(a: App, r: App) -> bool {
    &&& (r.state != AppState::Quit)
    &&& (r.message_pane_visible_rows == a.message_pane_visible_rows)
    &&& (a.selection.folder_index >= flat_list(a.email_store.root_folder).len() ==> r == a)
    &&& (a.selection.folder_index < flat_list(a.email_store.root_folder).len() ==> {
        &&& spec_enter_highlighted(a, App {
            state: a.state,
            active_pane: a.active_pane,
            current_view: a.current_view,
            ..r
        })
        &&& r.current_view == list_view(a.content_pane_hidden)
        &&& r.active_pane == ActivePane::Messages
        &&& r.state == AppState::EmailList
    })
}

/// Enters the folder highlighted in the folder pane from the root: the
/// message list starts afresh, its first message is selected (once
/// loaded), and the list view of the current mode opens with the list
/// focused.
pub fn handle_folder_selection_and_switch_view(app: &mut App)
    requires
        old(app).state != AppState::Quit,
    ensures
        spec_enter_and_open(*old(app), *final(app)),
{
    if enter_highlighted_folder(app) {
        let ghost m = *app;
        app.current_view = if app.content_pane_hidden { View::Messages } else { View::MessagesContent };
        app.active_pane = ActivePane::Messages;
        app.set_state(AppState::EmailList);
        assert(App { state: m.state, active_pane: m.active_pane, current_view: m.current_view, ..*app } == m);
    }
}

/// What Enter does outside the folder pane's entering (see
/// `handle_selection`).
pub open spec fn spec_selection(a: App, r: App) -> bool {
    &&& (r.state != AppState::Quit)
    &&& (r.message_pane_visible_rows == a.message_pane_visible_rows)
    &&& (a.active_pane == ActivePane::Messages ==> {
        if a.selection.email_index < current_len(a) {
            let m = App {
                email_store: EmailStore { selected_email: Some(a.selection.email_index), ..a.email_store },
                current_view: list_view(a.content_pane_hidden),
                active_pane: ActivePane::Messages,
                ..a
            };
            &&& spec_set_state(m, AppState::EmailContent, r)
            &&& r.email_store.selected_email == Some(a.selection.email_index)
            &&& r.email_store.current_folder == a.email_store.current_folder
            &&& r.current_view == list_view(a.content_pane_hidden)
            &&& r.active_pane == if a.content_pane_hidden { ActivePane::Messages } else { ActivePane::Content }
            &&& r.state == AppState::EmailContent
        } else {
            r == a
        }
    })
    &&& (a.active_pane == ActivePane::Content ==> r == a)
    &&& ((a.active_pane == ActivePane::Folders
        && a.selection.folder_index < flat_list(a.email_store.root_folder).len()) ==> {
        &&& spec_enter_highlighted(a, App { state: a.state, active_pane: a.active_pane, ..r })
        &&& spec_set_state(App { state: a.state, active_pane: a.active_pane, ..r }, AppState::EmailList, r)
        &&& r.state == AppState::EmailList
    })
    &&& ((a.active_pane == ActivePane::Folders
        && a.selection.folder_index >= flat_list(a.email_store.root_folder).len()) ==> r == a)
    &&& (a.active_pane == ActivePane::Attachments ==> spec_attachment_open(a, false, r))
}

/// Enter in the focused pane: in the folder pane the highlighted folder
/// is entered; in the message list the message at the list position is
/// selected and its content shown; on an attachment it is opened.
pub fn handle_selection(app: &mut App)
    requires
        old(app).state != AppState::Quit,
    ensures
        spec_selection(*old(app), *final(app)),
{
    match app.active_pane {
        ActivePane::Folders => {
            if enter_highlighted_folder(app) {
                let ghost m = *app;
                app.set_state(AppState::EmailList);
                assert(App { state: m.state, active_pane: m.active_pane, ..*app } == m);
            }
        },
        ActivePane::Messages => {
            let n = app.email_store.get_current_folder().emails.len();
            if app.selection.email_index < n {
                app.email_store.select_email(app.selection.email_index);
                app.current_view = if app.content_pane_hidden { View::Messages } else { View::MessagesContent };
                app.active_pane = ActivePane::Messages;
                app.set_state(AppState::EmailContent);
            }
        },
        ActivePane::Content => {},
        ActivePane::Attachments => handle_attachment_open(app, false),
    }
}

/// What going back does (see `handle_back_navigation`).
pub open spec fn spec_back(a: App, r: App) -> bool {
    &&& (r.state != AppState::Quit)
    &&& (r.message_pane_visible_rows == a.message_pane_visible_rows)
    &&& ((a.active_pane == ActivePane::Folders || a.active_pane == ActivePane::Messages) ==> {
        &&& r.email_store.current_folder@ == if a.email_store.current_folder@.len() > 0 {
            a.email_store.current_folder@.drop_last()
        } else {
            a.email_store.current_folder@
        }
        &&& r.selection == (SelectionState { folder_index: 0, email_index: 0, scroll_offset: 0, ..a.selection })
        &&& r.email_store.root_folder == a.email_store.root_folder
        &&& r.current_view == a.current_view
        &&& r.state == AppState::FolderView
    })
    &&& (a.active_pane == ActivePane::Content ==> spec_set_state(a, AppState::EmailList, r))
    &&& (a.active_pane == ActivePane::Attachments ==> {
        &&& r.current_view == list_view(a.content_pane_hidden)
        &&& r.active_pane == ActivePane::Messages
        &&& r.state == AppState::EmailList
    })
}

/// Backspace: from the folder pane or the list, up one folder with the
/// positions reset and the folder view restored; from the content, back
/// to the list; from the attachments, back to the list view.
pub fn handle_back_navigation(app: &mut App)
    requires
        old(app).state != AppState::Quit,
    ensures
        spec_back(*old(app), *final(app)),
{
    match app.active_pane {
        ActivePane::Folders | ActivePane::Messages => {
            app.email_store.exit_folder();
            app.selection.folder_index = 0;
            app.selection.email_index = 0;
            app.selection.scroll_offset = 0;
            app.set_state(AppState::FolderView);
        },
        ActivePane::Content => app.set_state(AppState::EmailList),
        ActivePane::Attachments => {
            app.current_view = if app.content_pane_hidden { View::Messages } else { View::MessagesContent };
            app.active_pane = ActivePane::Messages;
            app.set_state(AppState::EmailList);
        },
    }
}

/// The status text for opening an attachment.
pub open spec fn open_status(name: Seq<char>, custom: bool) -> Seq<char> {
    if custom { "Custom command for "@ + name } else { "Opening "@ + name }
}

/// What opening the highlighted attachment does (see
/// `handle_attachment_open`).
pub open spec fn spec_attachment_open(a: App, custom_command: bool, r: App) -> bool {
    let ok = selected_loads(a.email_store);
    let e = r.email_store.selected_spec();
    &&& crate::store::spec_load_selected(a.email_store, r.email_store, ok)
    &&& r == App { status_message: r.status_message, email_store: r.email_store, ..a }
    &&& if ok && a.selection.attachment_index < e->Some_0.attachments@.len() {
        r.status_message is Some && r.status_message->Some_0@ == open_status(
            e->Some_0.attachments@[a.selection.attachment_index as int].filename@, custom_command)
    } else {
        r.status_message == a.status_message
    }
}

/// Opens the highlighted attachment of the selected message: the status
/// line names it. Without such an attachment nothing is said.
pub fn handle_attachment_open(app: &mut App, custom_command: bool)
    ensures
        spec_attachment_open(*old(app), custom_command, *final(app)),
{
    let filename = match app.email_store.get_selected_email() {
        Some(email) => {
            if app.selection.attachment_index < email.attachments.len() {
                Some(email.attachments[app.selection.attachment_index].filename.clone())
            } else {
                None
            }
        },
        None => None,
    };
    if let Some(name) = filename {
        let mut msg = if custom_command {
            String::from_str("Custom command for ")
        } else {
            String::from_str("Opening ")
        };
        append_str(&mut msg, name.as_str());
        app.set_status(msg);
    }
}

} // verus!
