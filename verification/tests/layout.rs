use himalaya_tui::config::layout::layout_account_block;

/// What the emitter writes for a Maildir account with an identity: a
/// header, then dotted keys in alphabetical order.
const EMITTED: &str = "[accounts.perso]\n\
default = true\n\
display-name = \"Alice\"\n\
email = \"alice@example.org\"\n\
imap.sasl.plain.authcid = \"alice\"\n\
imap.server = \"imap.example.org\"\n\
imap.starttls = true\n\
mailbox.alias.inbox = \"INBOX\"\n\
maildir.root = \"/tmp/mail\"\n\
smtp.server = \"smtp.example.org\"\n";

#[test]
fn groups_follow_the_cli_order_and_servers_lead() {
    let document = layout_account_block(EMITTED);
    assert_eq!(
        document,
        "[accounts.perso]\n\
default = true\n\
\n\
email = \"alice@example.org\"\n\
\n\
display-name = \"Alice\"\n\
\n\
imap.server = \"imap.example.org\"\n\
imap.sasl.plain.authcid = \"alice\"\n\
imap.starttls = true\n\
\n\
maildir.root = \"/tmp/mail\"\n\
\n\
smtp.server = \"smtp.example.org\"\n\
\n\
mailbox.alias.inbox = \"INBOX\"\n"
    );
}

#[test]
fn the_endpoint_reads_before_its_credentials() {
    let document = layout_account_block(
        "[accounts.perso]\ndefault = true\nmaildir.root = \"/tmp/mail\"\n",
    );
    let lines: Vec<&str> = document.lines().collect();
    assert_eq!(lines[0], "[accounts.perso]");
    assert_eq!(lines[1], "default = true");
    let maildir: Vec<&str> = document
        .lines()
        .filter(|line| line.starts_with("maildir."))
        .collect();
    assert_eq!(maildir, ["maildir.root = \"/tmp/mail\""]);
}

#[test]
fn an_unknown_key_still_renders_last() {
    let document = layout_account_block(
        "[accounts.x]\nalpha = 1\nsmtp.server = \"s\"\n\n   \nzeta.server = \"z\"\r\nzeta.a = 2\n",
    );
    assert_eq!(
        document,
        "[accounts.x]\nsmtp.server = \"s\"\n\nalpha = 1\n\nzeta.server = \"z\"\nzeta.a = 2\n"
    );
}

#[test]
fn a_document_without_a_newline_is_unchanged() {
    assert_eq!(layout_account_block("[accounts.x]"), "[accounts.x]");
    assert_eq!(layout_account_block("[accounts.x]\n"), "[accounts.x]\n");
}
