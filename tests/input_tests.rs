use vulthor::app::App;
use vulthor::email::Email;
use vulthor::folder::Folder;
use vulthor::input::{handle_key_event, KeyCode, KeyEvent, Modifiers};
use vulthor::scanner::MaildirScanner;
use vulthor::store::EmailStore;
use vulthor::view::{ActivePane, AppState, View};

fn key(code: KeyCode, modifiers: Modifiers) -> KeyEvent {
    KeyEvent { code, modifiers }
}

fn plain(c: char) -> KeyEvent {
    key(KeyCode::Char(c), Modifiers::Plain)
}

fn create_test_app_with_emails() -> App {
    let mut email_store = EmailStore::new("/tmp".to_string());
    let mut inbox = Folder::new("INBOX".to_string(), "/tmp/INBOX".to_string());
    inbox.add_email(Email::new("/tmp/email1".to_string()));
    inbox.add_email(Email::new("/tmp/email2".to_string()));
    inbox.add_email(Email::new("/tmp/email3".to_string()));
    inbox.is_loaded = true;
    email_store.root_folder.add_subfolder(inbox);
    let scanner = MaildirScanner::new("/tmp".to_string());
    App::new(email_store, scanner)
}

fn empty_app() -> App {
    App::new(EmailStore::new("/tmp".to_string()), MaildirScanner::new("/tmp".to_string()))
}

#[test]
fn test_handle_quit_key() {
    let mut app = empty_app();
    let should_quit = handle_key_event(&mut app, plain('q'));
    assert!(should_quit);
    assert!(matches!(app.state, AppState::Quit));
}

#[test]
fn test_handle_help_key() {
    let mut app = empty_app();
    let should_quit = handle_key_event(&mut app, plain('?'));
    assert!(!should_quit);
    assert!(matches!(app.state, AppState::Help));
}

#[test]
fn test_content_toggle() {
    let mut app = empty_app();
    assert!(!app.content_pane_hidden);
    handle_key_event(&mut app, key(KeyCode::Char('c'), Modifiers::Alt));
    assert!(app.content_pane_hidden);
    handle_key_event(&mut app, key(KeyCode::Char('c'), Modifiers::Alt));
    assert!(!app.content_pane_hidden);
}

#[test]
fn test_message_selection_memory_with_h_l_navigation() {
    let mut app = create_test_app_with_emails();
    app.email_store.current_folder = vec![0];
    app.current_view = View::MessagesContent;
    app.active_pane = ActivePane::Messages;

    app.selection.email_index = 2;
    app.email_store.select_email(2);
    assert_eq!(app.selection.email_index, 2);
    assert_eq!(app.email_store.selected_email, Some(2));

    handle_key_event(&mut app, plain('h'));
    assert_eq!(app.selection.remembered_email_index, Some(2));
    assert_eq!(app.email_store.selected_email, None);
    assert_eq!(app.current_view, View::FolderMessages);

    app.active_pane = ActivePane::Messages;
    handle_key_event(&mut app, plain('l'));
    assert_eq!(app.current_view, View::MessagesContent);
    assert_eq!(app.selection.email_index, 2);
    assert_eq!(app.email_store.selected_email, Some(2));
}

#[test]
fn test_realistic_navigation_scenario() {
    let mut app = create_test_app_with_emails();
    assert_eq!(app.current_view, View::FolderMessages);
    assert_eq!(app.active_pane, ActivePane::Folders);

    handle_key_event(&mut app, plain('l'));
    handle_key_event(&mut app, plain('j'));
    assert_eq!(app.selection.email_index, 1);
    assert_eq!(app.email_store.selected_email, Some(1));

    handle_key_event(&mut app, plain('h'));
    assert_eq!(app.selection.remembered_email_index, Some(1));
    assert_eq!(app.email_store.selected_email, None);

    handle_key_event(&mut app, plain('l'));
    assert_eq!(app.selection.email_index, 1);
    assert_eq!(app.email_store.selected_email, Some(1));
}

#[test]
fn test_folder_change_clears_memory() {
    let mut app = create_test_app_with_emails();
    let mut sent = Folder::new("Sent".to_string(), "/tmp/Sent".to_string());
    sent.add_email(Email::new("/tmp/sent1".to_string()));
    sent.is_loaded = true;
    app.email_store.root_folder.add_subfolder(sent);

    app.email_store.current_folder = vec![0];
    app.selection.email_index = 1;
    app.email_store.select_email(1);
    app.selection.remembered_email_index = Some(1);

    app.active_pane = ActivePane::Folders;
    app.selection.folder_index = 1;
    app.load_selected_folder_messages();

    assert_eq!(app.selection.remembered_email_index, None);
    assert_eq!(app.selection.email_index, 0);
}

#[test]
fn test_h_l_navigation_multiple_times() {
    let mut app = create_test_app_with_emails();

    handle_key_event(&mut app, plain('l'));
    assert_eq!(app.current_view, View::MessagesContent);
    assert_eq!(app.active_pane, ActivePane::Messages);

    handle_key_event(&mut app, plain('j'));
    assert_eq!(app.selection.email_index, 1);

    handle_key_event(&mut app, plain('h'));
    assert_eq!(app.current_view, View::FolderMessages);
    assert_eq!(app.active_pane, ActivePane::Folders);

    handle_key_event(&mut app, plain('l'));
    assert_eq!(app.current_view, View::MessagesContent);
    assert_eq!(app.active_pane, ActivePane::Messages);
    assert_eq!(app.selection.email_index, 1);

    handle_key_event(&mut app, plain('h'));
    assert_eq!(app.current_view, View::FolderMessages);
    assert_eq!(app.active_pane, ActivePane::Folders);

    handle_key_event(&mut app, plain('l'));
    assert_eq!(app.current_view, View::MessagesContent);
    assert_eq!(app.active_pane, ActivePane::Messages);
    assert_eq!(app.selection.email_index, 1);
}

#[test]
fn test_l_key_enters_selected_folder_not_inbox() {
    let mut app = create_test_app_with_emails();
    let mut sent = Folder::new("Sent".to_string(), "/tmp/Sent".to_string());
    sent.add_email(Email::new("/tmp/sent1".to_string()));
    sent.is_loaded = true;
    app.email_store.root_folder.add_subfolder(sent);

    app.perform_initial_loading_if_needed();

    assert_eq!(app.selection.folder_index, 0);
    assert!(
        app.email_store.current_folder.is_empty(),
        "current_folder should be empty after initial loading, but is: {:?}",
        app.email_store.current_folder
    );

    handle_key_event(&mut app, plain('j'));
    assert_eq!(app.selection.folder_index, 1);
    assert!(
        app.email_store.current_folder.is_empty(),
        "current_folder should be empty before entering folder, but is: {:?}",
        app.email_store.current_folder
    );

    handle_key_event(&mut app, plain('l'));
    assert_eq!(app.email_store.current_folder, vec![1]);
    assert_eq!(app.current_view, View::MessagesContent);

    let folder_path = app.email_store.get_folder_path();
    assert!(folder_path.contains("Sent"), "Should be in Sent folder, but path is: {}", folder_path);
}

#[test]
fn test_h_l_navigation_when_content_pane_active() {
    let mut app = create_test_app_with_emails();
    app.email_store.current_folder = vec![0];
    app.current_view = View::MessagesContent;
    app.active_pane = ActivePane::Messages;
    app.selection.email_index = 1;
    app.email_store.select_email(1);

    app.active_pane = ActivePane::Content;
    app.set_state(AppState::EmailContent);

    handle_key_event(&mut app, plain('h'));
    handle_key_event(&mut app, plain('l'));
    assert_eq!(app.active_pane, ActivePane::Messages);

    handle_key_event(&mut app, plain('h'));
    assert_eq!(app.active_pane, ActivePane::Folders);
    handle_key_event(&mut app, plain('l'));
    assert_eq!(app.active_pane, ActivePane::Messages);

    handle_key_event(&mut app, plain('h'));
    assert_eq!(app.active_pane, ActivePane::Folders);
    handle_key_event(&mut app, plain('l'));
    assert_eq!(app.active_pane, ActivePane::Messages);
}

#[test]
fn fresh_store_enter_lands_in_inbox_with_first_message() {
    let mut email_store = EmailStore::new("/m".to_string());
    let mut inbox = Folder::new("INBOX".to_string(), "/m/INBOX".to_string());
    for i in 0..3 {
        inbox.add_email(Email::new(format!("/m/INBOX/cur/{}", i)));
    }
    inbox.is_loaded = true;
    let mut sent = Folder::new("Sent".to_string(), "/m/Sent".to_string());
    sent.add_email(Email::new("/m/Sent/cur/0".to_string()));
    sent.is_loaded = true;
    email_store.root_folder.add_subfolder(sent);
    email_store.root_folder.add_subfolder(inbox);
    let mut app = App::new(email_store, MaildirScanner::new("/m".to_string()));
    assert_eq!(app.selection.folder_index, 0);
    handle_key_event(&mut app, key(KeyCode::Enter, Modifiers::Plain));
    assert_eq!(app.email_store.current_folder, vec![1]);
    assert_eq!(app.current_view, View::MessagesContent);
    assert_eq!(app.email_store.selected_email, Some(0));

    let mut hidden = App::new(EmailStore::new("/m".to_string()), MaildirScanner::new("/m".to_string()));
    hidden.content_pane_hidden = true;
    let mut inbox2 = Folder::new("INBOX".to_string(), "/m/INBOX".to_string());
    inbox2.add_email(Email::new("/m/INBOX/cur/0".to_string()));
    inbox2.is_loaded = true;
    hidden.email_store.root_folder.add_subfolder(inbox2);
    handle_key_event(&mut hidden, key(KeyCode::Enter, Modifiers::Plain));
    assert_eq!(hidden.current_view, View::Messages);
    assert_eq!(hidden.email_store.current_folder, vec![0]);
}

#[test]
fn entering_unloaded_folder_requests_capped_load() {
    let mut app = empty_app();
    app.email_store.root_folder.add_subfolder(Folder::new("INBOX".to_string(), "/tmp/INBOX".to_string()));
    handle_key_event(&mut app, key(KeyCode::Enter, Modifiers::Plain));
    let req = app.get_pending_load().expect("a load is requested");
    assert_eq!(req.path, vec![0]);
    assert_eq!(req.limit, Some(25));
}

#[test]
fn attachment_view_needs_attachments() {
    let mut app = create_test_app_with_emails();
    app.email_store.current_folder = vec![0];
    app.email_store.select_email(0);
    app.active_pane = ActivePane::Messages;
    handle_key_event(&mut app, key(KeyCode::Char('a'), Modifiers::Alt));
    assert_ne!(app.state, AppState::AttachmentView);
    assert!(app.status_message.is_some());
}

#[test]
fn quit_stops_every_later_key() {
    let mut app = create_test_app_with_emails();
    assert!(handle_key_event(&mut app, plain('q')));
    assert!(handle_key_event(&mut app, plain('?')));
    assert_eq!(app.state, AppState::Quit);
}

#[test]
fn backspace_leaves_folder() {
    let mut app = create_test_app_with_emails();
    handle_key_event(&mut app, key(KeyCode::Enter, Modifiers::Plain));
    assert_eq!(app.email_store.current_folder, vec![0]);
    handle_key_event(&mut app, key(KeyCode::Backspace, Modifiers::Plain));
    assert!(app.email_store.current_folder.is_empty());
    assert_eq!(app.state, AppState::FolderView);
}

#[test]
fn enter_on_message_focuses_content() {
    let mut app = create_test_app_with_emails();
    app.email_store.current_folder = vec![0];
    app.current_view = View::FolderMessages;
    app.active_pane = ActivePane::Messages;
    app.selection.email_index = 2;
    handle_key_event(&mut app, key(KeyCode::Enter, Modifiers::Plain));
    assert_eq!(app.email_store.selected_email, Some(2));
    assert_eq!(app.current_view, View::MessagesContent);
    assert_eq!(app.active_pane, ActivePane::Content);
    assert_eq!(app.state, AppState::EmailContent);
    assert_eq!(app.email_store.current_folder, vec![0]);

    app.content_pane_hidden = true;
    app.active_pane = ActivePane::Messages;
    app.selection.email_index = 1;
    handle_key_event(&mut app, key(KeyCode::Enter, Modifiers::Plain));
    assert_eq!(app.current_view, View::Messages);
    assert_eq!(app.active_pane, ActivePane::Messages);
}
