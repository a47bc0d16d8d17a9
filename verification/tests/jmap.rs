use himalaya_tui::jmap::client::{jmap_http_auth, mailbox_index, resolve_mailbox_in, JmapCredentials};

fn index() -> Vec<(String, String)> {
    vec![
        ("M1".to_string(), "INBOX".to_string()),
        ("M2".to_string(), "Drafts".to_string()),
        ("M3".to_string(), "M1".to_string()),
        ("M4".to_string(), "Drafts".to_string()),
    ]
}

#[test]
fn a_name_resolves_to_its_id() {
    assert_eq!(resolve_mailbox_in(&index(), "Drafts"), "M2");
    assert_eq!(resolve_mailbox_in(&index(), "INBOX"), "M1");
}

#[test]
fn an_id_passes_through_before_any_name() {
    assert_eq!(resolve_mailbox_in(&index(), "M1"), "M1");
    assert_eq!(resolve_mailbox_in(&index(), "M4"), "M4");
}

#[test]
fn an_unknown_mailbox_is_handed_back() {
    assert_eq!(resolve_mailbox_in(&index(), "Archive"), "Archive");
    assert_eq!(resolve_mailbox_in(&Vec::new(), "Archive"), "Archive");
}

#[test]
fn resolving_twice_changes_nothing() {
    for name in ["Drafts", "INBOX", "M1", "M3", "Archive"] {
        let once = resolve_mailbox_in(&index(), name);
        assert_eq!(resolve_mailbox_in(&index(), &once), once);
    }
}

#[test]
fn each_scheme_formats_its_header() {
    assert_eq!(
        jmap_http_auth(JmapCredentials::Header("Custom abc".to_string())),
        "Custom abc"
    );
    assert_eq!(
        jmap_http_auth(JmapCredentials::Bearer("tok".to_string())),
        "Bearer tok"
    );
    assert_eq!(
        jmap_http_auth(JmapCredentials::Basic {
            username: "user".to_string(),
            password: "pass".to_string(),
        }),
        "Basic dXNlcjpwYXNz"
    );
    assert_eq!(
        jmap_http_auth(JmapCredentials::Basic {
            username: "a".to_string(),
            password: "".to_string(),
        }),
        "Basic YTo="
    );
    assert_eq!(
        jmap_http_auth(JmapCredentials::Basic {
            username: "é".to_string(),
            password: "?".to_string(),
        }),
        "Basic w6k6Pw=="
    );
}

#[test]
fn the_index_keeps_mailboxes_with_an_id() {
    let listing = vec![
        (Some("M1".to_string()), Some("INBOX".to_string())),
        (None, Some("Orphan".to_string())),
        (Some("M2".to_string()), None),
    ];
    assert_eq!(
        mailbox_index(listing),
        vec![
            ("M1".to_string(), "INBOX".to_string()),
            ("M2".to_string(), String::new()),
        ]
    );
}
