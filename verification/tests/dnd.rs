use nevermail::dnd::{DraggedFiles, DraggedMessage, NEVERLIGHT_MAIL_MIME};

#[test]
fn dragged_files_allowed_mime() {
    let allowed = DraggedFiles::allowed();
    assert_eq!(allowed, vec!["text/uri-list"]);
}

#[test]
fn dragged_files_try_from_valid() {
    let data = b"file:///home/user/doc.pdf\n".to_vec();
    let files = DraggedFiles::try_from((data, "text/uri-list".into())).unwrap();
    assert!(files.0.contains("file:///home/user/doc.pdf"));
}

#[test]
fn dragged_files_try_from_invalid_utf8() {
    let data = vec![0xFF, 0xFE];
    assert!(DraggedFiles::try_from((data, "text/uri-list".into())).is_err());
}

#[test]
fn dragged_message_roundtrip() {
    let msg = DraggedMessage { envelope_hash: 12345, source_mailbox: 67890 };

    let available = msg.available();
    assert_eq!(available, vec![NEVERLIGHT_MAIL_MIME]);
    let bytes = msg.as_bytes(NEVERLIGHT_MAIL_MIME).unwrap();
    assert_eq!(bytes.as_slice(), b"12345:67890");

    let parsed = DraggedMessage::try_from((bytes, NEVERLIGHT_MAIL_MIME.into())).unwrap();
    assert_eq!(parsed.envelope_hash, 12345);
    assert_eq!(parsed.source_mailbox, 67890);
}

#[test]
fn dragged_message_as_bytes_wrong_mime() {
    let msg = DraggedMessage { envelope_hash: 1, source_mailbox: 2 };
    assert!(msg.as_bytes("text/plain").is_none());
}

#[test]
fn dragged_message_try_from_missing_separator() {
    let data = b"12345".to_vec();
    assert!(DraggedMessage::try_from((data, NEVERLIGHT_MAIL_MIME.into())).is_err());
}

#[test]
fn dragged_message_try_from_non_numeric() {
    let data = b"abc:def".to_vec();
    assert!(DraggedMessage::try_from((data, NEVERLIGHT_MAIL_MIME.into())).is_err());
}

#[test]
fn dragged_message_try_from_large_values() {
    let max = u64::MAX;
    let data = format!("{max}:{max}").into_bytes();
    let parsed = DraggedMessage::try_from((data, NEVERLIGHT_MAIL_MIME.into())).unwrap();
    assert_eq!(parsed.envelope_hash, max);
    assert_eq!(parsed.source_mailbox, max);
}

#[test]
fn dragged_message_allowed_mime() {
    let allowed = DraggedMessage::allowed();
    assert_eq!(allowed, vec![NEVERLIGHT_MAIL_MIME]);
}

#[test]
fn dragged_message_error_texts() {
    let missing = DraggedMessage::try_from((b"12345".to_vec(), String::new())).unwrap_err();
    assert_eq!(missing, "missing ':' separator");
    let empty = DraggedMessage::try_from((b":5".to_vec(), String::new())).unwrap_err();
    assert_eq!(empty, "cannot parse integer from empty string");
    assert_eq!(empty, "".parse::<u64>().unwrap_err().to_string());
    let digit = DraggedMessage::try_from((b"1:x".to_vec(), String::new())).unwrap_err();
    assert_eq!(digit, "x".parse::<u64>().unwrap_err().to_string());
    let plus = DraggedMessage::try_from((b"+:1".to_vec(), String::new())).unwrap_err();
    assert_eq!(plus, "+".parse::<u64>().unwrap_err().to_string());
    let big = DraggedMessage::try_from((b"18446744073709551616:1".to_vec(), String::new()))
        .unwrap_err();
    assert_eq!(big, "18446744073709551616".parse::<u64>().unwrap_err().to_string());
    let big_then_bad = DraggedMessage::try_from((b"99999999999999999999999x:1".to_vec(), String::new()))
        .unwrap_err();
    assert_eq!(big_then_bad, "99999999999999999999999x".parse::<u64>().unwrap_err().to_string());
}

#[test]
fn dragged_message_accepts_plus_and_leading_zeros() {
    let parsed = DraggedMessage::try_from((b"+007:000".to_vec(), String::new())).unwrap();
    assert_eq!(parsed, DraggedMessage { envelope_hash: 7, source_mailbox: 0 });
    let split = DraggedMessage::try_from((b"1:2:3".to_vec(), String::new()));
    assert!(split.is_err());
}
