use vulthor::app::App;
use vulthor::email::Email;
use vulthor::folder::Folder;
use vulthor::input::{handle_key_event, KeyCode, KeyEvent, Modifiers};
use vulthor::scanner::{MaildirContents, MessageFile};
use vulthor::scanner::MaildirScanner;
use vulthor::store::EmailStore;
use vulthor::view::{ActivePane, AppState, PaneSwitchDirection, View};

fn create_test_app_with_emails() -> App {
    let mut email_store = EmailStore::new("/tmp".to_string());
    let mut inbox = Folder::new("INBOX".to_string(), "/tmp/INBOX".to_string());
    inbox.add_email(Email::new("/tmp/email1".to_string()));
    inbox.add_email(Email::new("/tmp/email2".to_string()));
    inbox.add_email(Email::new("/tmp/email3".to_string()));
    inbox.is_loaded = true;
    email_store.root_folder.add_subfolder(inbox);
    let scanner = MaildirScanner::new("/tmp".to_string());
    let mut app = App::new(email_store, scanner);
    app.email_store.current_folder = vec![0];
    app.email_store.select_email(0);
    app
}

#[test]
fn test_web_serving_behavior_based_on_active_pane() {
    let mut app = create_test_app_with_emails();

    app.active_pane = ActivePane::Folders;
    assert!(app.get_current_email_for_web().is_none(), "Should show welcome screen when active pane is Folders");

    app.active_pane = ActivePane::Messages;
    assert!(app.get_current_email_for_web().is_some(), "Should serve email when active pane is Messages");

    app.active_pane = ActivePane::Content;
    assert!(app.get_current_email_for_web().is_some(), "Should serve email when active pane is Content");

    app.active_pane = ActivePane::Attachments;
    assert!(app.get_current_email_for_web().is_some(), "Should serve email when active pane is Attachments");
}

#[test]
fn test_pane_switching_preserves_email_serving() {
    let mut app = create_test_app_with_emails();

    app.active_pane = ActivePane::Folders;
    assert!(app.get_current_email_for_web().is_none(), "Should show welcome screen initially in Folders pane");

    app.switch_pane(PaneSwitchDirection::Right);
    assert_eq!(app.active_pane, ActivePane::Messages, "Should be in Messages pane after switching from Folders");
    assert!(app.get_current_email_for_web().is_some(), "Should serve email immediately when switching to Messages pane");

    app.switch_pane(PaneSwitchDirection::Left);
    assert_eq!(app.active_pane, ActivePane::Folders, "Should be back in Folders pane");
    assert!(app.get_current_email_for_web().is_none(), "Should show welcome screen when switching back to Folders pane");
}

#[test]
fn test_email_serving_with_no_selected_email() {
    let email_store = EmailStore::new("/tmp".to_string());
    let scanner = MaildirScanner::new("/tmp".to_string());
    let mut app = App::new(email_store, scanner);

    app.active_pane = ActivePane::Folders;
    assert!(app.get_current_email_for_web().is_none(), "Should return None in Folders pane with no selected email");

    app.active_pane = ActivePane::Messages;
    assert!(app.get_current_email_for_web().is_none(), "Should return None in Messages pane with no selected email");

    app.active_pane = ActivePane::Content;
    assert!(app.get_current_email_for_web().is_none(), "Should return None in Content pane with no selected email");

    app.active_pane = ActivePane::Attachments;
    assert!(app.get_current_email_for_web().is_none(), "Should return None in Attachments pane with no selected email");
}

#[test]
fn test_view_transitions_maintain_correct_web_serving() {
    let mut app = create_test_app_with_emails();

    app.current_view = View::FolderMessages;
    app.active_pane = ActivePane::Folders;
    assert!(app.get_current_email_for_web().is_none(), "Should show welcome screen in FolderMessages view with Folders active");

    app.active_pane = ActivePane::Messages;
    assert!(app.get_current_email_for_web().is_some(), "Should serve email in FolderMessages view with Messages active");

    app.next_view();
    assert_eq!(app.current_view, View::MessagesContent);
    assert_eq!(app.active_pane, ActivePane::Messages);
    assert!(app.get_current_email_for_web().is_some(), "Should serve email in MessagesContent view");

    app.active_pane = ActivePane::Content;
    assert!(app.get_current_email_for_web().is_some(), "Should serve email in Content pane");
}

#[test]
fn test_app_initialization() {
    let scanner = MaildirScanner::new("/tmp/mail".to_string());
    let root = scanner
        .scan(&vulthor::scanner::RootStatus::Directory(vulthor::scanner::DirNode {
            name: "mail".to_string(),
            path: "/tmp/mail".to_string(),
            children: vec![],
        }))
        .unwrap();
    let mut email_store = EmailStore::new("/tmp/mail".to_string());
    email_store.root_folder = root;
    let app = App::new(email_store, scanner);
    assert!(!app.should_quit);
    assert!(matches!(app.state, AppState::FolderView));
}

#[test]
fn quit_is_terminal() {
    let mut app = create_test_app_with_emails();
    app.set_state(AppState::Quit);
    assert!(app.should_quit);
    app.set_state(AppState::EmailList);
    assert_eq!(app.state, AppState::Quit);
}

#[test]
fn pane_cycling_wraps_within_view() {
    let mut app = create_test_app_with_emails();
    app.current_view = View::MessagesContent;
    app.active_pane = ActivePane::Content;
    app.switch_pane(PaneSwitchDirection::Right);
    assert_eq!(app.active_pane, ActivePane::Messages);
    app.switch_pane(PaneSwitchDirection::Left);
    assert_eq!(app.active_pane, ActivePane::Content);
    app.current_view = View::Content;
    app.switch_pane(PaneSwitchDirection::Right);
    assert_eq!(app.active_pane, ActivePane::Content);
}

#[test]
fn toggling_content_twice_restores_view_and_pane() {
    let mut app = create_test_app_with_emails();
    app.current_view = View::MessagesContent;
    app.active_pane = ActivePane::Messages;
    app.toggle_content_pane();
    assert!(app.content_pane_hidden);
    assert_eq!(app.current_view, View::Messages);
    assert_eq!(app.active_pane, ActivePane::Messages);
    app.toggle_content_pane();
    assert!(!app.content_pane_hidden);
    assert_eq!(app.current_view, View::MessagesContent);
    assert_eq!(app.active_pane, ActivePane::Messages);
}

#[test]
fn toggling_from_content_view_lands_on_list_view() {
    let mut app = create_test_app_with_emails();
    app.current_view = View::Content;
    app.active_pane = ActivePane::Content;
    app.toggle_content_pane();
    app.toggle_content_pane();
    assert_eq!(app.current_view, View::MessagesContent);
    assert_eq!(app.active_pane, ActivePane::Messages);
}

#[test]
fn selection_round_trip_through_folder_view() {
    let mut app = create_test_app_with_emails();
    app.current_view = View::MessagesContent;
    app.active_pane = ActivePane::Messages;
    app.selection.email_index = 2;
    app.email_store.select_email(2);
    for _ in 0..3 {
        app.prev_view();
        assert_eq!(app.current_view, View::FolderMessages);
        assert_eq!(app.email_store.selected_email, None);
        assert_eq!(app.selection.remembered_email_index, Some(2));
        app.next_view();
        assert_eq!(app.current_view, View::MessagesContent);
        assert_eq!(app.email_store.selected_email, Some(2));
        assert_eq!(app.selection.email_index, 2);
    }
}

#[test]
fn scroll_stops_at_zero() {
    let mut app = create_test_app_with_emails();
    app.scroll(vulthor::view::ScrollDirection::Down, 3);
    assert_eq!(app.selection.scroll_offset, 3);
    app.scroll(vulthor::view::ScrollDirection::Up, 10);
    assert_eq!(app.selection.scroll_offset, 0);
}

#[test]
fn status_set_and_cleared() {
    let mut app = create_test_app_with_emails();
    app.set_status("hello".to_string());
    assert_eq!(app.status_message.as_deref(), Some("hello"));
    app.clear_status();
    assert!(app.status_message.is_none());
}

#[test]
fn view_chain_edges() {
    assert_eq!(View::FolderMessages.next_view(false), Some(View::MessagesContent));
    assert_eq!(View::MessagesContent.next_view(false), Some(View::Content));
    assert_eq!(View::Content.next_view(false), None);
    assert_eq!(View::FolderMessages.prev_view(false), None);
    assert_eq!(View::Content.prev_view(false), Some(View::MessagesContent));
    assert_eq!(View::FolderMessages.next_view(true), Some(View::Messages));
    assert_eq!(View::Messages.next_view(true), Some(View::MessagesAttachments));
    assert_eq!(View::MessagesAttachments.next_view(true), None);
    assert_eq!(View::MessagesAttachments.prev_view(true), Some(View::Messages));
    assert_eq!(View::FolderMessages.prev_view(true), None);
    assert_eq!(View::MessagesContent.get_available_panes(false), vec![ActivePane::Messages, ActivePane::Content]);
    assert_eq!(View::MessagesAttachments.get_default_active_pane(true), ActivePane::Attachments);
}

#[test]
fn entering_unloaded_folder_selects_first_message_after_load() {
    let mut store = EmailStore::new("/m".to_string());
    store.root_folder.add_subfolder(Folder::new("INBOX".to_string(), "/m/INBOX".to_string()));
    let mut app = App::new(store, MaildirScanner::new("/m".to_string()));
    handle_key_event(&mut app, KeyEvent { code: KeyCode::Enter, modifiers: Modifiers::Plain });
    assert_eq!(app.email_store.selected_email, None);
    let contents = MaildirContents {
        is_maildir: true,
        cur: vec![MessageFile {
            name: "1".to_string(),
            path: "/m/INBOX/cur/1".to_string(),
            is_file: true,
            raw: Ok(b"From: a@example.com\r\nSubject: One\r\n\r\nbody\r\n".to_vec()),
        }],
        new: vec![],
    };
    app.finish_load(&contents);
    assert!(app.pending_load.is_none());
    assert_eq!(app.email_store.selected_email, Some(0));
    assert_eq!(app.email_store.get_current_folder().emails[0].headers.subject, "One");
}

#[test]
fn failed_load_is_reported() {
    let mut store = EmailStore::new("/m".to_string());
    store.root_folder.add_subfolder(Folder::new("INBOX".to_string(), "/m/INBOX".to_string()));
    let mut app = App::new(store, MaildirScanner::new("/m".to_string()));
    handle_key_event(&mut app, KeyEvent { code: KeyCode::Enter, modifiers: Modifiers::Plain });
    app.fail_load("disk gone");
    assert_eq!(app.status_message.as_deref(), Some("Error loading folder: disk gone"));
    assert!(app.get_pending_load().is_none());
}

#[test]
fn toggling_twice_in_folder_view_keeps_focus() {
    let mut app = create_test_app_with_emails();
    app.current_view = View::FolderMessages;
    app.active_pane = ActivePane::Messages;
    app.toggle_content_pane();
    assert_eq!(app.current_view, View::FolderMessages);
    assert_eq!(app.active_pane, ActivePane::Messages);
    app.toggle_content_pane();
    assert_eq!(app.current_view, View::FolderMessages);
    assert_eq!(app.active_pane, ActivePane::Messages);
}
