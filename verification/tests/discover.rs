use himalaya_tui::shared::client::{documented_build, Backends};
use himalaya_tui::wizard::discover::discovery_input;
use himalaya_tui::wizard::discover::discovery_query;
use himalaya_tui::wizard::configure::claims_default;
use himalaya_tui::wizard::configure::ExistingConfig;
use himalaya_tui::wizard::discover::{
    default_account_name, retain_scheme, retain_supported, DiscoveredKind,
};

#[test]
fn account_name_defaults_to_the_first_domain_label() {
    // Email: the domain's first label, never the local part.
    assert_eq!(default_account_name("clement.douin@posteo.net"), "posteo");
    assert_eq!(default_account_name("alice@mail.example.co.uk"), "mail");
    // Bare domain (as discovery synthesizes it) and plain domain.
    assert_eq!(default_account_name("@posteo.net"), "posteo");
    assert_eq!(default_account_name("posteo.net"), "posteo");
}

#[test]
fn account_name_defaults_to_the_last_path_component() {
    assert_eq!(
        default_account_name("/home/alice/mail/personal"),
        "personal"
    );
    assert_eq!(default_account_name("~/mail/work"), "work");
    assert_eq!(default_account_name("file:///var/mail/archive"), "archive");
}

#[test]
fn a_url_names_the_account_after_its_host() {
    assert_eq!(default_account_name("imaps://imap.example.org:993"), "imap");
    assert_eq!(default_account_name("/"), "personal");
}

fn sample() -> Vec<(DiscoveredKind, &'static str)> {
    vec![
        (DiscoveredKind::Gmail, "gmail"),
        (DiscoveredKind::ImapSmtp { implicit_tls: false }, "starttls"),
        (DiscoveredKind::Jmap, "jmap"),
        (DiscoveredKind::Msgraph, "graph"),
        (DiscoveredKind::ImapSmtp { implicit_tls: true }, "tls"),
    ]
}

fn names(found: &[(DiscoveredKind, &'static str)]) -> Vec<&'static str> {
    found.iter().map(|(_, name)| *name).collect()
}

#[test]
fn unsupported_services_are_dropped_in_order() {
    let mut found = sample();
    retain_supported(&mut found, documented_build());
    assert_eq!(names(&found), ["starttls", "tls"]);

    let everything = Backends { imap: true, smtp: true, jmap: true, maildir: true };
    let mut found = sample();
    retain_supported(&mut found, everything);
    assert_eq!(names(&found), ["starttls", "jmap", "tls"]);

    let jmap_only = Backends { imap: true, smtp: false, jmap: true, maildir: false };
    let mut found = sample();
    retain_supported(&mut found, jmap_only);
    assert_eq!(names(&found), ["jmap"]);
}

#[test]
fn a_scheme_narrows_the_services() {
    let mut found = sample();
    assert!(retain_scheme(&mut found, "imaps", documented_build()).is_ok());
    assert_eq!(names(&found), ["tls"]);

    let mut found = sample();
    assert!(retain_scheme(&mut found, "imap", documented_build()).is_ok());
    assert_eq!(names(&found), ["starttls", "tls"]);

    let mut found = sample();
    assert!(retain_scheme(&mut found, "https", documented_build()).is_ok());
    assert_eq!(names(&found), ["jmap"]);

    let mut found = sample();
    assert!(retain_scheme(&mut found, "ftp", documented_build()).is_err());
    assert_eq!(found.len(), 5);

    // Without IMAP and SMTP in the build, an `imaps` URL names nothing
    // the binary can open.
    let jmap_build = Backends { imap: false, smtp: false, jmap: true, maildir: false };
    let mut found = sample();
    assert!(retain_scheme(&mut found, "imaps", jmap_build).is_err());
    assert_eq!(found.len(), 5);
}

#[test]
fn the_default_is_claimed_only_when_free() {
    assert!(claims_default(None));
    let taken = ExistingConfig { names: vec!["work".to_string()], has_default: true };
    assert!(!claims_default(Some(&taken)));
    let free = ExistingConfig { names: vec!["work".to_string()], has_default: false };
    assert!(claims_default(Some(&free)));
}

#[test]
fn a_blank_answer_is_no_input() {
    assert_eq!(discovery_input("   \n"), None);
    assert_eq!(discovery_input(" alice@example.org\t"), Some("alice@example.org"));
}

#[test]
fn the_query_follows_the_input_shape() {
    let query = |input: &str| discovery_query(input).ok().unwrap();
    assert_eq!(query("alice@example.org"), ("alice@example.org".to_string(), None));
    assert_eq!(query("example.org"), ("@example.org".to_string(), None));
    assert_eq!(
        query("imaps://imap.example.org:993"),
        ("@imap.example.org".to_string(), Some("imaps".to_string()))
    );
    assert!(discovery_query("imaps://[::1").is_err());
}
