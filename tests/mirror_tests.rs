use vulthor::app::App;
use vulthor::email::Email;
use vulthor::folder::Folder;
use vulthor::mirror::{current_email_projection, escape_html, fingerprint, fingerprint_step, format_file_size, markdown_to_html};
use vulthor::scanner::MaildirScanner;
use vulthor::store::EmailStore;
use vulthor::view::ActivePane;

#[test]
fn test_escape_html() {
    assert_eq!(escape_html("Hello & <World>"), "Hello &amp; &lt;World&gt;");
    assert_eq!(escape_html("\"quoted\""), "&quot;quoted&quot;");
}

#[test]
fn escape_html_single_quote_and_plain_text() {
    assert_eq!(escape_html("it's"), "it&#x27;s");
    assert_eq!(escape_html("plain ✓"), "plain ✓");
    assert_eq!(escape_html(""), "");
}

#[test]
fn test_format_file_size() {
    assert_eq!(format_file_size(512), "512 B");
    assert_eq!(format_file_size(1024), "1.0 KB");
    assert_eq!(format_file_size(1536), "1.5 KB");
    assert_eq!(format_file_size(1048576), "1.0 MB");
}

#[test]
fn format_file_size_edges() {
    assert_eq!(format_file_size(0), "0 B");
    assert_eq!(format_file_size(1023), "1023 B");
    assert_eq!(format_file_size(1280), "1.2 KB");
    assert_eq!(format_file_size(1331), "1.3 KB");
    assert_eq!(format_file_size(3 * 1024 * 1024 * 1024), "3.0 GB");
    assert_eq!(format_file_size(5000 * 1024 * 1024 * 1024), "5000.0 GB");
}

#[test]
fn test_markdown_to_html() {
    let markdown = "# Title\nThis is a paragraph.\n\n## Subtitle\nAnother paragraph.";
    let html = markdown_to_html(markdown);
    assert!(html.contains("<h1>Title</h1>"));
    assert!(html.contains("<h2>Subtitle</h2>"));
    assert!(html.contains("<p>This is a paragraph.</p>"));
}

#[test]
fn markdown_exact_output() {
    let html = markdown_to_html("  line one \r\nline <two>\n- item\n### Small\n\nlast");
    assert_eq!(
        html,
        "<p>line one<br>line &lt;two&gt;</p>\n<ul><li>item</li></ul>\n<h3>Small</h3>\n<p>last</p>\n"
    );
    assert_eq!(markdown_to_html(""), "");
    assert_eq!(markdown_to_html("* star"), "<ul><li>star</li></ul>\n");
}

fn app_with_selected() -> App {
    let mut store = EmailStore::new("/m".to_string());
    let mut inbox = Folder::new("INBOX".to_string(), "/m/INBOX".to_string());
    let mut e = Email::new("/m/INBOX/cur/1".to_string());
    e.headers.subject = "Hi".to_string();
    e.body_text = "Hello & bye".to_string();
    e.attachments.push(vulthor::email::Attachment {
        filename: "a.pdf".to_string(),
        content_type: "application/pdf".to_string(),
        size: 2048,
    });
    inbox.add_email(e);
    store.root_folder.add_subfolder(inbox);
    let mut app = App::new(store, MaildirScanner::new("/m".to_string()));
    app.email_store.current_folder = vec![0];
    app.email_store.select_email(0);
    app
}

#[test]
fn fingerprint_tracks_focus() {
    let mut app = app_with_selected();
    assert_eq!(fingerprint(&app), "0:0:false");
    app.active_pane = ActivePane::Messages;
    assert_eq!(fingerprint(&app), "0:0:true");
    app.selection.folder_index = 12;
    app.selection.email_index = 3;
    assert_eq!(fingerprint(&app), "12:3:true");
}

#[test]
fn projection_of_focused_message() {
    let mut app = app_with_selected();
    let none = current_email_projection(&app);
    assert!(!none.has_email);
    assert!(none.subject.is_empty() && none.attachments.is_empty());
    assert_eq!(none.email_id, "0:0:false");
    app.active_pane = ActivePane::Content;
    let p = current_email_projection(&app);
    assert!(p.has_email);
    assert_eq!(p.subject, "Hi");
    assert_eq!(p.body_html, "<p>Hello &amp; bye</p>\n");
    assert_eq!(p.attachments.len(), 1);
    assert_eq!(p.attachments[0].size, "2.0 KB");
    assert_eq!(p.email_id, "0:0:true");
}

#[test]
fn fingerprint_pushed_only_on_change() {

    let (push, last) = fingerprint_step(None, "0:0:false".to_string());
    assert!(push);
    let (push, last) = fingerprint_step(last, "0:0:false".to_string());
    assert!(!push);
    assert_eq!(last.as_deref(), Some("0:0:false"));
    let (push, last) = fingerprint_step(last, "0:1:true".to_string());
    assert!(push);
    assert_eq!(last.as_deref(), Some("0:1:true"));
}
