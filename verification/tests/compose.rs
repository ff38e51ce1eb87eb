use nevermail::compose::{
    build_references, forward_body, forward_subject, mime_for_extension, mime_from_ext, quote_body,
    reply_subject, ComposeMode,
};
use nevermail::forms::{ComposeDraft, SetupForm};
use nevermail::model::AppModel;
use nevermail::models::{AttachmentData, MessageSummary};
use nevermail::uri_list::{collect_paths, parse_uri_list, uri_candidates};

fn letter() -> MessageSummary {
    MessageSummary {
        account_id: "work".to_string(),
        uid: 1,
        subject: "Plans".to_string(),
        from: "alice@example.com".to_string(),
        date: "Mon, 1 Jan 2024".to_string(),
        is_read: true,
        is_starred: false,
        has_attachments: false,
        thread_id: None,
        envelope_hash: 1,
        timestamp: 1,
        mailbox_hash: 1,
        message_id: "<b@example.com>".to_string(),
        in_reply_to: Some("<a@example.com>".to_string()),
        thread_depth: 0,
    }
}

#[test]
fn parse_uri_list_basic() {
    let input = "file:///home/user/doc.pdf\nfile:///tmp/photo.jpg\n";
    let paths = parse_uri_list(input);
    assert_eq!(paths, vec!["/home/user/doc.pdf", "/tmp/photo.jpg"]);
}

#[test]
fn parse_uri_list_skips_comments_and_blanks() {
    let input = "# this is a comment\n\nfile:///home/user/doc.pdf\n\n# another comment\n";
    let paths = parse_uri_list(input);
    assert_eq!(paths, vec!["/home/user/doc.pdf"]);
}

#[test]
fn parse_uri_list_skips_non_file_uris() {
    let input = "https://example.com/file.pdf\nfile:///home/user/doc.pdf\n";
    let paths = parse_uri_list(input);
    assert_eq!(paths, vec!["/home/user/doc.pdf"]);
}

#[test]
fn parse_uri_list_handles_spaces_in_paths() {
    let input = "file:///home/user/my%20documents/report.pdf\n";
    let paths = parse_uri_list(input);
    assert_eq!(paths, vec!["/home/user/my documents/report.pdf"]);
}

#[test]
fn parse_uri_list_empty_input() {
    assert!(parse_uri_list("").is_empty());
    assert!(parse_uri_list("   \n  \n").is_empty());
}

#[test]
fn parse_uri_list_trims_whitespace() {
    let input = "  file:///home/user/doc.pdf  \n";
    let paths = parse_uri_list(input);
    assert_eq!(paths, vec!["/home/user/doc.pdf"]);
}

#[test]
fn mime_from_ext_common_types() {
    assert_eq!(mime_from_ext("file.pdf"), "application/pdf");
    assert_eq!(mime_from_ext("photo.jpg"), "image/jpeg");
    assert_eq!(mime_from_ext("photo.JPEG"), "image/jpeg");
    assert_eq!(mime_from_ext("doc.txt"), "text/plain");
    assert_eq!(mime_from_ext("unknown.xyz"), "application/octet-stream");
    assert_eq!(mime_from_ext("noext"), "application/octet-stream");
}

#[test]
fn mime_for_every_known_extension() {
    let table = [
        ("pdf", "application/pdf"),
        ("zip", "application/zip"),
        ("gz", "application/gzip"),
        ("gzip", "application/gzip"),
        ("tar", "application/x-tar"),
        ("png", "image/png"),
        ("jpg", "image/jpeg"),
        ("jpeg", "image/jpeg"),
        ("gif", "image/gif"),
        ("webp", "image/webp"),
        ("svg", "image/svg+xml"),
        ("txt", "text/plain"),
        ("html", "text/html"),
        ("htm", "text/html"),
        ("css", "text/css"),
        ("csv", "text/csv"),
        ("json", "application/json"),
        ("xml", "application/xml"),
        ("doc", "application/msword"),
        ("docx", "application/vnd.openxmlformats-officedocument.wordprocessingml.document"),
        ("xls", "application/vnd.ms-excel"),
        ("xlsx", "application/vnd.openxmlformats-officedocument.spreadsheetml.sheet"),
        ("odt", "application/vnd.oasis.opendocument.text"),
        ("ods", "application/vnd.oasis.opendocument.spreadsheet"),
        ("mp3", "audio/mpeg"),
        ("mp4", "video/mp4"),
        ("webm", "video/webm"),
    ];
    for (ext, mime) in table {
        assert_eq!(mime_for_extension(Some(ext)), mime);
        assert_eq!(mime_for_extension(Some(&ext.to_uppercase())), mime);
    }
    assert_eq!(mime_for_extension(None), "application/octet-stream");
    assert_eq!(mime_for_extension(Some("")), "application/octet-stream");
    assert_eq!(mime_for_extension(Some("pdfx")), "application/octet-stream");
}

#[test]
fn uri_candidates_and_collected_paths() {
    let lines = uri_candidates("  a  \r\n#c\n\n b\n # d\nlast");
    assert_eq!(lines, vec!["a", "b", "last"]);
    let paths = collect_paths(vec![Some("x".to_string()), None, Some("y".to_string())]);
    assert_eq!(paths, vec!["x", "y"]);
    assert_eq!(parse_uri_list("not a url\nfile:///a\nfile://remote.example/b\n"), vec!["/a"]);
}

#[test]
fn quoting_and_forwarding() {
    assert_eq!(
        quote_body("one\r\ntwo\n\nthree", "alice", "Monday"),
        "On Monday, alice wrote:\n> one\n> two\n> \n> three\n"
    );
    assert_eq!(quote_body("", "a", "d"), "On d, a wrote:\n");
    assert_eq!(quote_body("x\n", "a", "d"), "On d, a wrote:\n> x\n");
    assert_eq!(
        forward_body("text", "alice", "Monday", "Plans"),
        "---------- Forwarded message ----------\nFrom: alice\nDate: Monday\nSubject: Plans\n\ntext"
    );
    assert_eq!(build_references(Some("<a>"), "<b>"), "<a> <b>");
    assert_eq!(build_references(None, "<b>"), "<b>");
    assert_eq!(reply_subject("Plans"), "Re: Plans");
    assert_eq!(reply_subject("Re: Plans"), "Re: Plans");
    assert_eq!(reply_subject("Re:"), "Re: Re:");
    assert_eq!(forward_subject("Plans"), "Fwd: Plans");
    assert_eq!(forward_subject("Fwd: Plans"), "Fwd: Plans");
}

#[test]
fn drafts_for_reply_and_forward() {
    let msg = letter();
    let d = ComposeDraft::reply(&msg, "hello\nthere", 2);
    assert_eq!(d.mode, ComposeMode::Reply);
    assert_eq!(d.account, 2);
    assert_eq!(d.to, "alice@example.com");
    assert_eq!(d.subject, "Re: Plans");
    assert_eq!(d.body, "\n\nOn Mon, 1 Jan 2024, alice@example.com wrote:\n> hello\n> there\n");
    assert_eq!(d.in_reply_to.as_deref(), Some("<b@example.com>"));
    assert_eq!(d.references.as_deref(), Some("<a@example.com> <b@example.com>"));
    let att = AttachmentData { filename: "f".into(), mime_type: "m".into(), data: vec![1, 2] };
    let mut f = ComposeDraft::forward(&msg, "hello", &vec![att], 0);
    assert_eq!(f.mode, ComposeMode::Forward);
    assert!(f.to.is_empty());
    assert_eq!(f.subject, "Fwd: Plans");
    assert!(f.body.starts_with("\n\n---------- Forwarded message ----------\nFrom: alice@example.com\n"));
    assert!(f.in_reply_to.is_none());
    assert_eq!(f.attachments.len(), 1);
    f.remove_attachment(3);
    assert_eq!(f.attachments.len(), 1);
    f.remove_attachment(0);
    assert!(f.attachments.is_empty());
    let n = ComposeDraft::new_message(1);
    assert_eq!(n.mode, ComposeMode::New);
    assert!(n.to.is_empty() && n.subject.is_empty() && n.body.is_empty());
}

#[test]
fn send_is_checked() {
    let mut d = ComposeDraft::new_message(0);
    let addresses = vec!["me@example.com".to_string(), "alias@example.com".to_string()];
    assert_eq!(d.check_send("text", Some(&addresses)).unwrap_err(), "Recipient is required");
    d.to = "  bob@example.com ".to_string();
    assert_eq!(d.check_send("  \n", Some(&addresses)).unwrap_err(), "Message body is required");
    assert_eq!(d.check_send("text", None).unwrap_err(), "No account selected");
    assert_eq!(
        d.check_send("text", Some(&vec![])).unwrap_err(),
        "No email address configured. Re-run setup to add one."
    );
    d.subject = "S".to_string();
    d.from = 1;
    let mail = d.check_send("text", Some(&addresses)).unwrap();
    assert_eq!(mail.from, "alias@example.com");
    assert_eq!(mail.to, "  bob@example.com ");
    assert_eq!(mail.subject, "S");
    assert_eq!(mail.body, "text");
    d.from = 7;
    assert_eq!(d.check_send("text", Some(&addresses)).unwrap().from, "me@example.com");
}

#[test]
fn compose_dialog_state() {
    let mut m = AppModel::new(true);
    assert!(m.begin_compose());
    assert!(m.show_compose_dialog);
    assert!(!m.begin_compose());
    m.send_started();
    assert!(m.is_sending);
    assert_eq!(m.send_complete(Err("smtp down".to_string())).as_deref(), Some("Send failed: smtp down"));
    assert!(m.show_compose_dialog && !m.is_sending);
    assert!(m.send_complete(Ok(())).is_none());
    assert!(!m.show_compose_dialog);
    assert_eq!(m.status_message, "Message sent");
    m.show_setup_dialog = true;
    assert!(!m.begin_compose());
    m.show_setup_dialog = false;
    m.begin_compose();
    m.compose_cancel();
    assert!(!m.show_compose_dialog);
    assert_eq!(m.compose_account(5), 0);
    m.active_account = Some(3);
    assert_eq!(m.compose_account(5), 3);
}

#[test]
fn setup_form_is_validated() {
    let form = |server: &str, port: &str, user: &str, pw: &str, emails: &str, label: &str| SetupForm {
        label: label.to_string(),
        server: server.to_string(),
        port: port.to_string(),
        username: user.to_string(),
        password: pw.to_string(),
        starttls: true,
        email_addresses: emails.to_string(),
        smtp_server: String::new(),
        smtp_port: "587".to_string(),
        smtp_username: String::new(),
        smtp_password: String::new(),
        smtp_starttls: true,
    };
    let id = || "id-1".to_string();
    assert_eq!(
        form(" ", "993", "u", "p", "a@b", "").validate(false, id()).unwrap_err(),
        "All fields are required"
    );
    assert_eq!(
        form("s", "993", "", "p", "a@b", "").validate(false, id()).unwrap_err(),
        "All fields are required"
    );
    assert_eq!(
        form("s", "993", "u", "", "a@b", "").validate(false, id()).unwrap_err(),
        "All fields are required"
    );
    assert_eq!(
        form("s", "imap", "u", "p", "a@b", "").validate(false, id()).unwrap_err(),
        "Port must be a number (e.g. 993)"
    );
    assert_eq!(
        form("s", "65536", "u", "p", "a@b", "").validate(false, id()).unwrap_err(),
        "Port must be a number (e.g. 993)"
    );
    assert_eq!(
        form("s", "993", "u", "p", " , ", "").validate(false, id()).unwrap_err(),
        "At least one email address is required for sending"
    );
    let c = form("s", "993", "u", "p", " , ", "").validate(true, id()).unwrap();
    assert!(c.email_addresses.is_empty());
    let c = form(" mail.example.com ", " 143 ", " me ", " pw ", "a@b, c@d ,,", "  ")
        .validate(false, id())
        .unwrap();
    assert_eq!(c.id, "id-1");
    assert_eq!(c.label, "me");
    assert_eq!(c.imap_server, "mail.example.com");
    assert_eq!(c.imap_port, 143);
    assert_eq!(c.username, "me");
    assert_eq!(c.password, " pw ");
    assert!(c.use_starttls);
    assert_eq!(c.email_addresses, vec!["a@b", "c@d"]);
    let c = form("s", "65535", "u", "p", "a@b", " Work ").validate(false, id()).unwrap();
    assert_eq!(c.label, "Work");
    assert_eq!(c.imap_port, 65535);
    assert_eq!(c.smtp_overrides.server, None);
    assert_eq!(c.smtp_overrides.port, Some(587));
    assert_eq!(c.smtp_overrides.username, None);
    assert_eq!(c.smtp_overrides.password, None);
    assert_eq!(c.smtp_overrides.use_starttls, Some(true));
    let mut f = form("s", "993", "u", "p", "a@b", "");
    f.smtp_server = " smtp.example.com ".to_string();
    f.smtp_port = "port".to_string();
    f.smtp_username = " sender ".to_string();
    f.smtp_password = " pw ".to_string();
    f.smtp_starttls = false;
    let c = f.validate(false, id()).unwrap();
    assert_eq!(c.smtp_overrides.server.as_deref(), Some("smtp.example.com"));
    assert_eq!(c.smtp_overrides.port, None);
    assert_eq!(c.smtp_overrides.username.as_deref(), Some("sender"));
    assert_eq!(c.smtp_overrides.password.as_deref(), Some(" pw "));
    assert_eq!(c.smtp_overrides.use_starttls, Some(false));
}
