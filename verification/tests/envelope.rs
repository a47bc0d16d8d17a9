use himalaya_tui::email::envelope::ParsedHeaders;
use himalaya_tui::maildir::backend::{envelope_from_entry, envelope_from_message};

const MESSAGE: &str = "From: Alice <alice@example.org>\r\n\
To: bob@example.org\r\n\
Subject: Hi\r\n\
Date: Tue, 1 Jul 2003 10:52:37 +0200\r\n\
Message-ID: <abc@example.org>\r\n\
\r\n\
Body\r\n";

#[test]
fn a_read_message_folds_into_its_envelope() {
    let envelope = envelope_from_message(Some("1".to_string()), MESSAGE.as_bytes(), vec!['S']);
    assert_eq!(envelope.id, "1");
    assert_eq!(envelope.subject, "Hi");
    assert_eq!(envelope.from.len(), 1);
    assert_eq!(envelope.from[0].name.as_deref(), Some("Alice"));
    assert_eq!(envelope.from[0].email, "alice@example.org");
    assert_eq!(envelope.to.len(), 1);
    assert_eq!(envelope.to[0].email, "bob@example.org");
    assert_eq!(envelope.date, Some((1057049557, 0, 7200)));
    assert_eq!(envelope.message_id.as_deref(), Some("abc@example.org"));
    assert_eq!(envelope.has_attachment, Some(false));
    assert_eq!(envelope.size, MESSAGE.len() as u64);
    assert_eq!(envelope.flags, vec!['S']);
}

#[test]
fn an_unparsed_message_keeps_its_id_and_size_only() {
    let envelope = envelope_from_entry::<char>(None, 42, Vec::new(), None);
    assert_eq!(envelope.id, "");
    assert_eq!(envelope.subject, "");
    assert!(envelope.from.is_empty() && envelope.to.is_empty());
    assert_eq!(envelope.date, None);
    assert_eq!(envelope.has_attachment, None);
    assert_eq!(envelope.message_id, None);
    assert_eq!(envelope.size, 42);
}

#[test]
fn headers_fold_field_by_field() {
    let headers = ParsedHeaders {
        subject: None,
        from: Some(vec![(None, Some(String::new())), (Some("Bo".to_string()), Some("bo@x".to_string()))]),
        to: None,
        date: Some("not a date".to_string()),
        attachment_count: 2,
        message_id: Some("  <>  ".to_string()),
    };
    let envelope = envelope_from_entry(Some("7".to_string()), 3, vec![1u8], Some(headers));
    assert_eq!(envelope.subject, "");
    assert_eq!(envelope.from.len(), 1);
    assert_eq!(envelope.from[0].email, "bo@x");
    assert_eq!(envelope.date, None);
    assert_eq!(envelope.has_attachment, Some(true));
    assert_eq!(envelope.message_id, None);
}
