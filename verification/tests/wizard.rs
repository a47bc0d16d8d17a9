use himalaya_tui::wizard::configure::appended_text;
use himalaya_tui::wizard::configure::{account_name, ExistingConfig};
use himalaya_tui::wizard::discover::{first_label, is_path, prompted_email};

#[test]
fn a_taken_name_gets_a_suffix() {
    let existing = ExistingConfig {
        names: vec!["perso".to_string(), "perso-2".to_string()],
        has_default: true,
    };

    assert_eq!(account_name("perso", None), "perso");
    assert_eq!(account_name("perso", Some(&existing)), "perso-3");
    assert_eq!(account_name("work", Some(&existing)), "work");
}

#[test]
fn a_suffix_skips_only_the_taken_ones() {
    let existing = ExistingConfig {
        names: vec![
            "perso".to_string(),
            "perso-3".to_string(),
            "perso-10".to_string(),
        ],
        has_default: false,
    };

    assert_eq!(account_name("perso", Some(&existing)), "perso-2");

    let mut names = vec!["a".to_string()];
    for k in 2..=11 {
        names.push(format!("a-{k}"));
    }
    let existing = ExistingConfig { names, has_default: false };
    assert_eq!(account_name("a", Some(&existing)), "a-12");
}

#[test]
fn only_an_address_is_kept_as_the_account_from() {
    assert_eq!(
        prompted_email("alice@example.org"),
        Some("alice@example.org")
    );

    // A bare domain, as discovery also synthesizes it, names no
    // mailbox; neither does a folder or a server URL, whose `@`
    // would be a credential.
    assert_eq!(prompted_email("@example.org"), None);
    assert_eq!(prompted_email("example.org"), None);
    assert_eq!(prompted_email("~/mail/work"), None);
    assert_eq!(prompted_email("imaps://alice@imap.example.org"), None);
}

#[test]
fn an_address_needs_a_domain_after_its_last_at() {
    assert_eq!(prompted_email("alice@"), None);
    assert_eq!(prompted_email("a@b@c"), Some("a@b@c"));
    assert_eq!(prompted_email("a@b@"), None);
}

#[test]
fn paths_are_told_apart_from_endpoints() {
    assert!(is_path("file:///var/mail"));
    assert!(is_path("/home/alice"));
    assert!(is_path("~/mail"));
    assert!(is_path("./mail"));
    assert!(is_path("../mail"));
    assert!(!is_path("mail"));
    assert!(!is_path(".mail"));
    assert!(!is_path(""));
}

#[test]
fn the_first_label_stops_at_the_first_dot() {
    assert_eq!(first_label("mail.example.co.uk"), "mail");
    assert_eq!(first_label("localhost"), "localhost");
    assert_eq!(first_label(".hidden"), "");
}

#[test]
fn an_appended_account_starts_on_a_line_of_its_own() {
    assert_eq!(
        appended_text("[accounts.perso]\nmaildir.root = \"/tmp\"\n\n  "),
        "\n[accounts.perso]\nmaildir.root = \"/tmp\"\n"
    );
    assert_eq!(appended_text(""), "\n\n");
}
