use himalaya_tui::config::server::{known_default_port, parse_server, same_authority, scheme_allowed, ServerError};
use himalaya_tui::imap::client::{parse_imap_server, sasl_endpoint};
use himalaya_tui::jmap::client::parse_jmap_server;

/// A bare authority carrying a port must not be read as a URL: the
/// scheme grammar accepts dots, so `mail.example.com:993` parses as
/// the scheme `mail.example.com` and the path `993`.
#[test]
fn bare_authority_keeps_its_host_and_port() {
    let url = parse_server("mail.example.com:993", "imaps", &["imap", "imaps"])
        .ok()
        .unwrap();
    assert_eq!(url.scheme, "imaps");
    assert_eq!(url.host.as_deref(), Some("mail.example.com"));
    assert_eq!(url.port, Some(993));
    assert_eq!(url.serialized, "imaps://mail.example.com:993");
}

#[test]
fn explicit_url_keeps_its_scheme() {
    let url = parse_server("imap://mail.example.com", "imaps", &["imap", "imaps"])
        .ok()
        .unwrap();
    assert_eq!(url.scheme, "imap");
    assert_eq!(url.serialized, "imap://mail.example.com");
    assert_eq!(url.port, None);
}

#[test]
fn unlisted_scheme_is_rejected() {
    assert!(parse_server("ftp://mail.example.com", "imaps", &["imap", "imaps"]).is_err());
}

#[test]
fn a_refused_scheme_is_named() {
    match parse_server("ftp://mail.example.com", "imaps", &["imap", "imaps"]) {
        Err(ServerError::Scheme(scheme)) => assert_eq!(scheme, "ftp"),
        _ => panic!("the scheme should have been refused"),
    }
}

#[test]
fn an_unparsable_server_is_a_parse_error() {
    assert!(matches!(
        parse_server("imaps://[::1", "imaps", &["imaps"]),
        Err(ServerError::Parse(_))
    ));
}

#[test]
fn each_protocol_has_its_default_scheme() {
    let imap = parse_imap_server("imap.example.com").ok().unwrap();
    assert_eq!(imap.scheme, "imaps");
    let jmap = parse_jmap_server("api.example.com").ok().unwrap();
    assert_eq!(jmap.scheme, "https");
    assert_eq!(jmap.serialized, "https://api.example.com/");
    assert!(parse_jmap_server("imaps://api.example.com").is_err());
    let unix = parse_imap_server("unix:///run/sirup.sock").ok().unwrap();
    assert_eq!(unix.scheme, "unix");
}

#[test]
fn only_listed_schemes_are_allowed() {
    assert!(scheme_allowed("https", &["http", "https"]));
    assert!(!scheme_allowed("HTTPS", &["http", "https"]));
    assert!(!scheme_allowed("ftp", &[]));
}

#[test]
fn one_authority_shares_host_and_effective_port() {
    let api = parse_jmap_server("https://api.example.com/jmap").ok().unwrap();
    let same = parse_jmap_server("https://api.example.com:443/download").ok().unwrap();
    let other = parse_jmap_server("https://files.example.com/x").ok().unwrap();
    let other_port = parse_jmap_server("https://api.example.com:8443/x").ok().unwrap();
    assert!(same_authority(&api, &same));
    assert!(!same_authority(&api, &other));
    assert!(!same_authority(&api, &other_port));
    assert_eq!(known_default_port("https"), Some(443));
    assert_eq!(known_default_port("imaps"), None);
}

#[test]
fn sasl_takes_the_host_and_the_scheme_port() {
    let bare = parse_imap_server("imap.example.com").ok().unwrap();
    assert_eq!(sasl_endpoint(&bare), Some(("imap.example.com".to_string(), 993)));
    let plain = parse_imap_server("imap://imap.example.com").ok().unwrap();
    assert_eq!(sasl_endpoint(&plain), Some(("imap.example.com".to_string(), 143)));
    let upper = parse_server("IMAPS://imap.example.com", "imaps", &["imaps"]).ok().unwrap();
    assert_eq!(sasl_endpoint(&upper), Some(("imap.example.com".to_string(), 993)));
    let port = parse_imap_server("imap.example.com:1993").ok().unwrap();
    assert_eq!(sasl_endpoint(&port), Some(("imap.example.com".to_string(), 1993)));
}
