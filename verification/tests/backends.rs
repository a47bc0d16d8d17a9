use himalaya_tui::config::ImapIdConfig;
use himalaya_tui::imap::client::{negotiates_sasl, resolve_auto_id_params, IdParamError};
use himalaya_tui::wizard::mailbox::jmap_aliases;
use himalaya_tui::wizard::jmap::{offered_schemes, offers_oauth_brokers, JmapAuthScheme};
use himalaya_tui::config::account_lookup;
use himalaya_tui::imap::client::{canned_imap_id_value, id_param_value};
use himalaya_tui::shared::client::{documented_build, select_storage_kind, send_route, Backends, SendRoute, StorageKind};
use himalaya_tui::wizard::mailbox::{imap_aliases, role_alias, MailboxRole};

#[test]
fn local_storage_comes_before_network() {
    let all = Backends { imap: true, smtp: true, jmap: true, maildir: true };
    assert_eq!(select_storage_kind(true, true, true, all), Some(StorageKind::Maildir));
    assert_eq!(select_storage_kind(false, true, true, all), Some(StorageKind::Jmap));
    assert_eq!(select_storage_kind(false, false, true, all), Some(StorageKind::Imap));
    assert_eq!(select_storage_kind(false, false, false, all), None);
    // The documented build skips the blocks of the backends it leaves out.
    let built = documented_build();
    assert_eq!(select_storage_kind(true, true, true, built), Some(StorageKind::Imap));
    assert_eq!(select_storage_kind(true, true, false, built), None);
}

#[test]
fn jmap_sends_itself_and_the_rest_go_through_smtp() {
    let all = Backends { imap: true, smtp: true, jmap: true, maildir: true };
    assert_eq!(send_route(Some(StorageKind::Jmap), true, all), Some(SendRoute::Storage));
    assert_eq!(send_route(Some(StorageKind::Imap), true, all), Some(SendRoute::Smtp));
    assert_eq!(send_route(Some(StorageKind::Maildir), false, all), None);
    assert_eq!(send_route(None, true, all), Some(SendRoute::Smtp));
    let no_smtp = Backends { imap: true, smtp: false, jmap: false, maildir: false };
    assert_eq!(send_route(Some(StorageKind::Imap), true, no_smtp), None);
}

#[test]
fn well_known_id_keys_have_canned_values() {
    assert_eq!(canned_imap_id_value("vendor"), Some("Pimalaya"));
    assert_eq!(canned_imap_id_value("name"), Some("himalaya-tui"));
    assert_eq!(canned_imap_id_value("os"), None);
    assert_eq!(id_param_value("vendor", false), None);
    assert_eq!(id_param_value("vendor", true), Some("Pimalaya"));
    assert_eq!(id_param_value("os", true), None);
}

#[test]
fn the_imap_inbox_alias_is_pinned() {
    let aliases = imap_aliases();
    assert_eq!(aliases.len(), 1);
    assert_eq!(aliases, vec![("inbox".to_string(), "INBOX".to_string())]);
}

#[test]
fn jmap_roles_name_their_aliases() {
    assert_eq!(role_alias(&MailboxRole::Trash), Some("trash"));
    assert_eq!(role_alias(&MailboxRole::Subscribed), None);
    assert_eq!(role_alias(&MailboxRole::Other("x".to_string())), None);
}

#[test]
fn the_default_account_is_asked_for_three_ways() {
    assert_eq!(account_lookup(None), None);
    assert_eq!(account_lookup(Some("")), None);
    assert_eq!(account_lookup(Some("default")), None);
    assert_eq!(account_lookup(Some("work")), Some("work"));
}

#[test]
fn auto_id_resolves_each_field_in_order() {
    let config = ImapIdConfig {
        auto: true,
        fields: vec![
            ("name".to_string(), true),
            ("vendor".to_string(), false),
            ("os".to_string(), true),
        ],
    };
    assert_eq!(
        resolve_auto_id_params(&config),
        Ok(Some(vec![
            ("name".to_string(), Some("himalaya-tui")),
            ("vendor".to_string(), None),
            ("os".to_string(), None),
        ]))
    );
    let off = ImapIdConfig {
        auto: false,
        fields: config.fields.clone(),
    };
    assert_eq!(resolve_auto_id_params(&off), Ok(None));
}

#[test]
fn a_well_known_key_sends_its_canned_value() {
    let config = ImapIdConfig {
        auto: true,
        fields: vec![("vendor".to_string(), true)],
    };
    assert_eq!(
        resolve_auto_id_params(&config),
        Ok(Some(vec![("vendor".to_string(), Some("Pimalaya"))]))
    );
}

#[test]
fn a_key_that_is_no_imap_string_is_refused() {
    let config = ImapIdConfig {
        auto: true,
        fields: vec![
            ("name".to_string(), true),
            ("bad\0key".to_string(), false),
        ],
    };
    assert_eq!(
        resolve_auto_id_params(&config),
        Err(IdParamError::InvalidKey("bad\0key".to_string()))
    );
}

#[test]
fn jmap_listing_files_its_roles() {
    let listing = vec![
        (Some("m1".to_string()), Some(MailboxRole::Inbox)),
        (None, Some(MailboxRole::Sent)),
        (Some("m3".to_string()), Some(MailboxRole::Subscribed)),
        (Some("m4".to_string()), None),
        (Some("m5".to_string()), Some(MailboxRole::Trash)),
    ];
    assert_eq!(
        jmap_aliases(Some(&listing)),
        vec![("inbox", "m1".to_string()), ("trash", "m5".to_string())]
    );
}

#[test]
fn a_later_mailbox_of_one_role_wins_and_a_failed_reply_gives_nothing() {
    let listing = vec![
        (Some("a".to_string()), Some(MailboxRole::Sent)),
        (Some("b".to_string()), Some(MailboxRole::Inbox)),
        (Some("c".to_string()), Some(MailboxRole::Sent)),
    ];
    assert_eq!(
        jmap_aliases(Some(&listing)),
        vec![("sent", "c".to_string()), ("inbox", "b".to_string())]
    );
    assert!(jmap_aliases(None).is_empty());
}

#[test]
fn jmap_offers_what_the_endpoint_advertises() {
    assert_eq!(offered_schemes(true, false, true), vec![JmapAuthScheme::Basic]);
    assert_eq!(offered_schemes(false, true, true), vec![JmapAuthScheme::Bearer]);
    assert_eq!(
        offered_schemes(false, false, false),
        vec![JmapAuthScheme::Basic, JmapAuthScheme::Bearer]
    );
    assert_eq!(JmapAuthScheme::Basic.label(), "Basic (username + password)");
    assert_eq!(JmapAuthScheme::Bearer.label(), "Bearer (API token)");
    assert!(offers_oauth_brokers(false, false));
    assert!(!offers_oauth_brokers(false, true));
}

#[test]
fn a_unix_socket_is_already_authenticated() {
    assert!(negotiates_sasl("imaps", true));
    assert!(!negotiates_sasl("unix", true));
    assert!(!negotiates_sasl("imap", false));
}
