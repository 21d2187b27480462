use vulthor::email::{Email, EmailLoadState};
use vulthor::folder::Folder;
use vulthor::folder_list::{build_flat_folder_list, count_visible_folders, display_index_of_path, get_folder_path_from_display_index};
use vulthor::scanner::{DirNode, MaildirContents, MaildirScanner, MessageFile, RootStatus, ScanError};
use vulthor::store::{EmailStore, LoadRequest, StoreError};

fn dir(name: &str, path: &str, children: Vec<DirNode>) -> DirNode {
    DirNode { name: name.to_string(), path: path.to_string(), children }
}

fn maildir(name: &str, parent: &str, subfolders: Vec<DirNode>) -> DirNode {
    let path = format!("{}/{}", parent, name);
    let mut children = vec![
        dir("cur", &format!("{}/cur", path), vec![]),
        dir("new", &format!("{}/new", path), vec![]),
        dir("tmp", &format!("{}/tmp", path), vec![]),
    ];
    children.extend(subfolders);
    dir(name, &path, children)
}

/// The folder layout of the sample mail directory the tests use.
fn sample_tree(root: &str) -> DirNode {
    dir(
        "mail",
        root,
        vec![
            maildir("Sent", root, vec![]),
            maildir("INBOX", root, vec![]),
            maildir("Drafts", root, vec![]),
            maildir("Trash", root, vec![]),
            maildir("Work", root, vec![
                maildir("Projects", &format!("{}/Work", root), vec![]),
                maildir("Meetings", &format!("{}/Work", root), vec![]),
            ]),
            maildir("Personal", root, vec![
                maildir("Family", &format!("{}/Personal", root), vec![]),
                maildir("Friends", &format!("{}/Personal", root), vec![]),
            ]),
            maildir("Archive", root, vec![
                maildir("2023", &format!("{}/Archive", root), vec![]),
                maildir("2024", &format!("{}/Archive", root), vec![]),
            ]),
            dir(".hidden", &format!("{}/.hidden", root), vec![]),
        ],
    )
}

fn message(name: &str, subject: &str) -> String {
    format!(
        "From: Alice Example <alice@example.com>\r\nTo: bob@example.com\r\nSubject: {}\r\nDate: Mon, 01 Jan 2024 12:00:00 +0000\r\nMessage-ID: <{}@example.com>\r\n\r\nHello from {}.\r\n",
        subject, name, name
    )
}

fn file(dir: &str, name: &str, raw: Result<Vec<u8>, String>) -> MessageFile {
    MessageFile { name: name.to_string(), path: format!("{}/{}", dir, name), is_file: true, raw }
}

fn contents(cur: usize, new: usize) -> MaildirContents {
    MaildirContents {
        is_maildir: true,
        cur: (0..cur).map(|i| file("/m/INBOX/cur", &format!("c{}", i), Ok(message(&format!("c{}", i), &format!("Seen {}", i)).into_bytes()))).collect(),
        new: (0..new).map(|i| file("/m/INBOX/new", &format!("n{}", i), Ok(message(&format!("n{}", i), &format!("Unseen {}", i)).into_bytes()))).collect(),
    }
}

fn scanned_store() -> (EmailStore, MaildirScanner) {
    let scanner = MaildirScanner::new("/m".to_string());
    let mut store = EmailStore::new("/m".to_string());
    store.root_folder = scanner.scan(&RootStatus::Directory(sample_tree("/m"))).unwrap();
    (store, scanner)
}

#[test]
fn test_email_new() {
    let email_path = "/tmp/test_email".to_string();
    let email = Email::new(email_path.clone());
    assert_eq!(email.file_path, email_path);
    assert_eq!(email.headers.subject, "");
    assert_eq!(email.headers.from, "");
    assert_eq!(email.headers.to, "");
    assert_eq!(email.body_text, "");
    assert!(email.body_html.is_none());
    assert!(email.attachments.is_empty());
    assert!(!email.is_unread);
    assert!(matches!(email.load_state, EmailLoadState::HeadersOnly));
}

#[test]
fn test_folder_creation_and_management() {
    let folder = Folder::new("Test Folder".to_string(), "/tmp/folder".to_string());
    assert_eq!(folder.name, "Test Folder");
    assert_eq!(folder.path, "/tmp/folder");
    assert_eq!(folder.emails.len(), 0);
    assert_eq!(folder.subfolders.len(), 0);
    assert_eq!(folder.unread_count, 0);
    assert_eq!(folder.total_count, 0);
    assert!(!folder.is_loaded);
}

#[test]
fn test_folder_add_email() {
    let mut folder = Folder::new("Test".to_string(), "/tmp/t".to_string());
    let mut email = Email::new("/tmp/test".to_string());
    email.is_unread = true;
    folder.add_email(email);
    assert_eq!(folder.emails.len(), 1);
    assert_eq!(folder.unread_count, 1);
    assert_eq!(folder.total_count, 1);
}

#[test]
fn test_folder_add_subfolder() {
    let mut parent_folder = Folder::new("Parent".to_string(), "/tmp/p".to_string());
    let child_folder = Folder::new("Child".to_string(), "/tmp/p/child".to_string());
    parent_folder.add_subfolder(child_folder);
    assert_eq!(parent_folder.subfolders.len(), 1);
    assert_eq!(parent_folder.subfolders[0].name, "Child");
}

#[test]
fn test_folder_get_sorted_subfolders() {
    let mut folder = Folder::new("Root".to_string(), "/tmp/r".to_string());
    folder.add_subfolder(Folder::new("Zebra".to_string(), "/tmp/r/zebra".to_string()));
    folder.add_subfolder(Folder::new("INBOX".to_string(), "/tmp/r/inbox".to_string()));
    folder.add_subfolder(Folder::new("Alpha".to_string(), "/tmp/r/alpha".to_string()));
    let sorted = folder.get_sorted_subfolders();
    assert_eq!(sorted[0].name, "INBOX");
    assert_eq!(sorted[1].name, "Alpha");
    assert_eq!(sorted[2].name, "Zebra");
}

#[test]
fn inbox_sorts_first_whatever_its_case() {
    let mut folder = Folder::new("Root".to_string(), "/r".to_string());
    folder.add_subfolder(Folder::new("Archive".to_string(), "/r/a".to_string()));
    folder.add_subfolder(Folder::new("Inbox".to_string(), "/r/i".to_string()));
    folder.add_subfolder(Folder::new("Archive".to_string(), "/r/a2".to_string()));
    assert_eq!(folder.sorted_indices(), vec![1, 0, 2]);
}

#[test]
fn test_folder_get_display_name() {
    let mut folder = Folder::new("Test".to_string(), "/tmp/t".to_string());
    assert_eq!(folder.get_display_name(), "Test");
    folder.unread_count = 5;
    assert_eq!(folder.get_display_name(), "Test (5)");
    folder.unread_count = 120;
    assert_eq!(folder.get_display_name(), "Test (120)");
}

#[test]
fn test_email_store_creation() {
    let store = EmailStore::new("/tmp/mail".to_string());
    assert_eq!(store.root_folder.name, "Mail");
    assert_eq!(store.root_folder.path, "/tmp/mail");
    assert!(store.current_folder.is_empty());
    assert!(store.selected_email.is_none());
}

#[test]
fn test_email_store_navigation() {
    let (mut store, _scanner) = scanned_store();
    assert!(store.current_folder.is_empty());
    store.enter_folder_by_path(&[0]);
    assert_eq!(store.current_folder.len(), 1);
    assert_eq!(store.current_folder[0], 0);
    store.exit_folder();
    assert!(store.current_folder.is_empty());
}

#[test]
fn test_email_store_get_folder_path() {
    let (mut store, _scanner) = scanned_store();
    let path = store.get_folder_path();
    assert_eq!(path, "Mail");
    if !store.root_folder.subfolders.is_empty() {
        store.enter_folder_by_path(&[0]);
        let path_with_folder = store.get_folder_path();
        assert!(path_with_folder.starts_with("Mail > "));
    }
}

#[test]
fn test_email_store_email_selection() {
    let (mut store, scanner) = scanned_store();
    store.enter_folder_by_path(&[1]);
    assert_eq!(store.get_current_folder().name, "INBOX");
    scanner.load_folder_emails(store.get_current_folder_mut(), &contents(4, 1));
    assert!(store.selected_email.is_none());
    let current_folder = store.get_current_folder();
    if !current_folder.emails.is_empty() {
        store.select_email(0);
        assert_eq!(store.selected_email, Some(0));
        store.select_email(999);
        assert_eq!(store.selected_email, Some(0));
    }
}

#[test]
fn test_maildir_scanner_empty_dir() {
    let scanner = MaildirScanner::new("/tmp/empty".to_string());
    let result = scanner.scan(&RootStatus::Directory(dir("empty", "/tmp/empty", vec![]))).unwrap();
    assert_eq!(result.name, "Mail");
    assert!(result.emails.is_empty());
    assert!(result.subfolders.is_empty());
}

#[test]
fn test_maildir_scanner_basic_structure() {
    let scanner = MaildirScanner::new("/tmp/basic".to_string());
    let mut result = scanner.scan(&RootStatus::Directory(dir("basic", "/tmp/basic", vec![maildir("INBOX", "/tmp/basic", vec![])]))).unwrap();
    assert_eq!(result.subfolders.len(), 1);
    assert_eq!(result.subfolders[0].name, "INBOX");
    let inbox = MaildirContents {
        is_maildir: true,
        cur: vec![file("/tmp/basic/INBOX/cur", "test_email", Ok(b"Test email content".to_vec()))],
        new: vec![],
    };
    scanner.load_folder_emails(&mut result.subfolders[0], &inbox);
    assert_eq!(result.subfolders[0].emails.len(), 1);
}

#[test]
fn scan_reports_missing_and_non_directory_roots() {
    let scanner = MaildirScanner::new("/nowhere".to_string());
    let missing = scanner.scan(&RootStatus::Missing).unwrap_err();
    assert_eq!(missing, ScanError::Missing("/nowhere".to_string()));
    assert_eq!(missing.message(), "MailDir path does not exist: /nowhere");
    let not_dir = scanner.scan(&RootStatus::NotADirectory).unwrap_err();
    assert_eq!(not_dir.message(), "MailDir path is not a directory: /nowhere");
}

#[test]
fn scan_skips_message_and_hidden_directories() {
    let (store, _) = scanned_store();
    let names: Vec<&str> = store.root_folder.subfolders.iter().map(|f| f.name.as_str()).collect();
    assert_eq!(names, vec!["Sent", "INBOX", "Drafts", "Trash", "Work", "Personal", "Archive"]);
    assert_eq!(store.root_folder.subfolders[4].subfolders.len(), 2);
}

#[test]
fn flat_listing_is_sorted_depth_first() {
    let (store, _) = scanned_store();
    let flat = build_flat_folder_list(&store.root_folder);
    assert_eq!(count_visible_folders(&store.root_folder), 13);
    assert_eq!(flat[0], vec![1]);
    assert_eq!(flat[1], vec![6]);
    assert_eq!(flat[2], vec![6, 0]);
    assert_eq!(flat[3], vec![6, 1]);
    assert_eq!(build_flat_folder_list(&store.root_folder), flat);
}

#[test]
fn display_index_round_trip() {
    let (store, _) = scanned_store();
    let n = count_visible_folders(&store.root_folder);
    for i in 0..n {
        let path = get_folder_path_from_display_index(&store.root_folder, i).unwrap();
        assert_eq!(display_index_of_path(&store.root_folder, &path), Some(i));
    }
    assert!(get_folder_path_from_display_index(&store.root_folder, n).is_none());
}

#[test]
fn enter_then_exit_returns_to_start() {
    let (mut store, _) = scanned_store();
    store.enter_folder_by_path(&[4]);
    let start = store.current_folder.clone();
    store.enter_folder_by_path(&[0, 3]);
    store.exit_folder();
    store.exit_folder();
    assert_eq!(store.current_folder, start);
    store.exit_folder();
    store.exit_folder();
    assert!(store.current_folder.is_empty());
}

#[test]
fn malformed_path_resolves_to_deepest_valid_ancestor() {
    let (mut store, _) = scanned_store();
    store.current_folder = vec![4, 9, 1];
    assert_eq!(store.get_current_folder().name, "Work");
    assert_eq!(store.get_folder_path(), "Mail > Work");
    store.current_folder = vec![5, 9, 0];
    assert_eq!(store.get_current_folder().name, "Personal");
    store.current_folder = vec![42, 0];
    assert_eq!(store.get_current_folder().name, "Mail");
    assert_eq!(store.get_folder_path(), "Mail");
    assert!(store.get_folder_at_path(&[4, 9]).is_none());
    assert_eq!(store.get_folder_at_path(&[4, 1]).unwrap().name, "Meetings");
}

#[test]
fn capped_then_full_load() {
    let (mut store, scanner) = scanned_store();
    let req = store.ensure_folder_at_path_loaded(&[1], 5).unwrap().unwrap();
    assert_eq!(req.limit, Some(10));
    let all = contents(20, 5);
    store.apply_load(&scanner, &req, &all);
    let inbox = &store.root_folder.subfolders[1];
    assert_eq!(inbox.emails.len(), 10);
    assert!(!inbox.is_loaded);
    store.enter_folder_by_path(&[1]);
    let more = store.load_more_messages_if_needed(6).unwrap();
    assert_eq!(more.limit, None);
    store.apply_load(&scanner, &more, &all);
    let inbox = store.get_current_folder();
    assert_eq!(inbox.emails.len(), 25);
    assert!(inbox.is_loaded);
    assert_eq!(inbox.total_count, 25);
    assert_eq!(inbox.unread_count, 5);
    assert!(inbox.unread_count <= inbox.total_count);
    assert!(store.load_more_messages_if_needed(24).is_none());
}

#[test]
fn load_without_limit_is_idempotent() {
    let (mut store, scanner) = scanned_store();
    let req = LoadRequest { path: vec![1], limit: None };
    store.apply_load(&scanner, &req, &contents(2, 1));
    store.apply_load(&scanner, &req, &contents(7, 7));
    assert_eq!(store.root_folder.subfolders[1].emails.len(), 3);
}

#[test]
fn invalid_load_path_is_an_error() {
    let (store, _) = scanned_store();
    assert_eq!(store.ensure_folder_at_path_loaded(&[42], 20).unwrap_err(), StoreError::InvalidPath);
    assert_eq!(StoreError::InvalidPath.message(), "Invalid folder path");
}

#[test]
fn unparsable_message_still_listed_and_counted() {
    let scanner = MaildirScanner::new("/m".to_string());
    let mut folder = Folder::new("INBOX".to_string(), "/m/INBOX".to_string());
    let c = MaildirContents {
        is_maildir: true,
        cur: vec![
            file("/m/INBOX/cur", "good", Ok(message("good", "Fine").into_bytes())),
            file("/m/INBOX/cur", "gone", Err("permission denied".to_string())),
        ],
        new: vec![file("/m/INBOX/new", "empty", Ok(Vec::new()))],
    };
    scanner.load_folder_emails(&mut folder, &c);
    assert_eq!(folder.emails.len(), 3);
    assert_eq!(folder.total_count, 3);
    assert_eq!(folder.unread_count, 1);
    assert_eq!(folder.emails[0].headers.subject, "Fine");
    assert_eq!(folder.emails[1].headers.subject, "Parse Error: permission denied");
    assert!(folder.emails[2].headers.subject.starts_with("Parse Error"));
    assert!(!folder.emails[2].headers.subject.is_empty());
}

#[test]
fn lock_and_hidden_files_are_not_messages() {
    let scanner = MaildirScanner::new("/m".to_string());
    let mut folder = Folder::new("INBOX".to_string(), "/m/INBOX".to_string());
    let mut d = file("/m/INBOX/cur", "subdir", Ok(Vec::new()));
    d.is_file = false;
    let c = MaildirContents {
        is_maildir: true,
        cur: vec![
            file("/m/INBOX/cur", ".hidden", Ok(Vec::new())),
            file("/m/INBOX/cur", "x.lock", Ok(Vec::new())),
            file("/m/INBOX/cur", "y.tmp", Ok(Vec::new())),
            d,
            file("/m/INBOX/cur", "real", Ok(message("real", "Real").into_bytes())),
        ],
        new: vec![],
    };
    assert_eq!(scanner.files_to_read(&c, None), vec!["/m/INBOX/cur/real".to_string()]);
    scanner.load_folder_emails(&mut folder, &c);
    assert_eq!(folder.emails.len(), 1);
    assert_eq!(folder.emails[0].headers.subject, "Real");
}

#[test]
fn files_to_read_follow_the_limit() {
    let scanner = MaildirScanner::new("/m".to_string());
    let c = contents(3, 4);
    let paths = scanner.files_to_read(&c, Some(5));
    assert_eq!(paths.len(), 5);
    assert_eq!(paths[0], "/m/INBOX/cur/c0");
    assert_eq!(paths[3], "/m/INBOX/new/n0");
}

#[test]
fn headers_are_formatted_from_parsed_fields() {
    let mut email = Email::new("/m/x".to_string());
    email.parse_headers_only(message("x", "Greetings").into_bytes()).unwrap();
    assert_eq!(email.headers.from, "Alice Example <alice@example.com>");
    assert_eq!(email.headers.to, "bob@example.com");
    assert_eq!(email.headers.subject, "Greetings");
    assert_eq!(email.headers.message_id, "x@example.com");
    assert!(email.headers.date.starts_with("2024-01-01T12:00:00"));
    assert_eq!(email.body_text, "");
    assert!(matches!(email.load_state, EmailLoadState::HeadersOnly));
    let display = email.get_header_display();
    assert!(display.starts_with("From: Alice Example <alice@example.com>\nTo: bob@example.com\nSubject: Greetings\nDate: "));
}

#[test]
fn missing_subject_is_marked() {
    let mut email = Email::new("/m/x".to_string());
    email.parse_headers_only(b"From: a@example.com\r\n\r\nbody\r\n".to_vec()).unwrap();
    assert_eq!(email.headers.subject, "(no subject)");
    assert_eq!(email.headers.from, "a@example.com");
}

#[test]
fn body_is_parsed_on_first_access() {
    let raw = "From: John Doe <john.doe@example.com>\r\nTo: user@example.com\r\nSubject: Docs\r\nMIME-Version: 1.0\r\nContent-Type: multipart/mixed; boundary=\"b1\"\r\n\r\n--b1\r\nContent-Type: text/plain; charset=UTF-8\r\n\r\nSee attached.\r\n--b1\r\nContent-Type: application/pdf; name=\"specs.pdf\"\r\nContent-Disposition: attachment; filename=\"specs.pdf\"\r\nContent-Transfer-Encoding: base64\r\n\r\nJVBERi0xLjQK\r\n--b1--\r\n";
    let mut email = Email::new("/m/y".to_string());
    email.parse_headers_only(raw.as_bytes().to_vec()).unwrap();
    assert!(email.attachments.is_empty());
    email.ensure_fully_loaded().unwrap();
    assert!(matches!(email.load_state, EmailLoadState::FullyLoaded));
    assert!(email.body_text.contains("See attached."));
    assert!(email.has_attachments());
    assert_eq!(email.attachment_count(), 1);
    assert_eq!(email.attachments[0].filename, "specs.pdf");
    assert_eq!(email.attachments[0].content_type, "application/pdf");
    assert!(email.attachments[0].size > 0);
    email.ensure_fully_loaded().unwrap();
    assert_eq!(email.attachment_count(), 1);
}

#[test]
fn unread_email_cannot_load_body() {
    let mut email = Email::new("/m/z".to_string());
    assert!(email.ensure_fully_loaded().is_err());
    assert!(matches!(email.load_state, EmailLoadState::HeadersOnly));
}

#[test]
fn selected_email_markdown_parses_body() {
    let (mut store, scanner) = scanned_store();
    store.enter_folder_by_path(&[1]);
    scanner.load_folder_emails(store.get_current_folder_mut(), &contents(2, 0));
    store.select_email(1);
    assert!(store.get_selected_email_headers().unwrap().body_text.is_empty());
    let body = store.get_selected_email_markdown().unwrap();
    assert!(body.contains("Hello from c1."));
    assert!(matches!(store.get_selected_email().unwrap().load_state, EmailLoadState::FullyLoaded));
    assert_eq!(store.get_folder_path_for_indices(&[4, 0]), "Mail > Work > Projects");
}

#[test]
fn html_body_is_kept() {
    let raw = "From: news@example.com\r\nSubject: News\r\nMIME-Version: 1.0\r\nContent-Type: text/html; charset=UTF-8\r\n\r\n<html><body><h1>Hi</h1></body></html>\r\n";
    let mut email = Email::new("/m/h".to_string());
    email.parse_headers_only(raw.as_bytes().to_vec()).unwrap();
    email.ensure_fully_loaded().unwrap();
    let html = email.body_html.as_ref().unwrap();
    assert!(html.contains("<h1>"));
}
