use himalaya_tui::email::address::addresses_from;
use himalaya_tui::email::envelope::normalize_message_id;

#[test]
fn brackets_and_whitespace_are_stripped() {
    assert_eq!(
        normalize_message_id("  <abc@example.org> \n").as_deref(),
        Some("abc@example.org")
    );
    assert_eq!(normalize_message_id("< spaced@x >").as_deref(), Some("spaced@x"));
    assert_eq!(normalize_message_id("bare@x").as_deref(), Some("bare@x"));
}

#[test]
fn an_empty_id_is_none() {
    assert_eq!(normalize_message_id(""), None);
    assert_eq!(normalize_message_id(" \t "), None);
    assert_eq!(normalize_message_id("<>"), None);
    assert_eq!(normalize_message_id("< >"), None);
}

#[test]
fn a_lone_bracket_is_kept() {
    assert_eq!(normalize_message_id("<").as_deref(), Some("<"));
    assert_eq!(normalize_message_id("<a").as_deref(), Some("<a"));
    assert_eq!(normalize_message_id("<<a>>").as_deref(), Some("<a>"));
}

#[test]
fn only_entries_with_an_address_are_kept() {
    let list = vec![
        (Some("Alice".to_string()), Some("alice@example.org".to_string())),
        (Some("Group".to_string()), None),
        (None, Some(String::new())),
        (None, Some("bob@example.org".to_string())),
    ];
    let kept = addresses_from(list);
    assert_eq!(kept.len(), 2);
    assert_eq!(kept[0].name.as_deref(), Some("Alice"));
    assert_eq!(kept[0].email, "alice@example.org");
    assert_eq!(kept[1].name, None);
    assert_eq!(kept[1].email, "bob@example.org");
}
