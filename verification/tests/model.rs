use himalaya_tui::email::mailbox::Mailbox;
use himalaya_tui::tui::model::{
    dialog_item_count, filtered_mailboxes, selected_compose_action, selected_envelope_action,
    selected_flag_action, selected_mailbox_name, ComposeAction, Dialog, EnvelopeAction,
    FlagAction, Keybinds,
};

fn mailbox(id: &str, name: &str) -> Mailbox {
    Mailbox { id: id.to_string(), name: name.to_string(), total: None, unread: None }
}

fn mailboxes() -> Vec<Mailbox> {
    vec![
        mailbox("1", "INBOX"),
        mailbox("2", "Sent Items"),
        mailbox("3", "Archive/Inbox old"),
        mailbox("2", "Duplicate"),
    ]
}

#[test]
fn labels_read_as_the_dialog_shows_them() {
    assert_eq!(EnvelopeAction::ReplyAll.label(), "Reply All");
    assert_eq!(EnvelopeAction::RemoveFlag.label(), "Remove flag");
    assert_eq!(ComposeAction::SaveToDrafts.label(), "Save to Drafts");
    assert_eq!(FlagAction::Answered.label(), "Answered");
    let labels: Vec<&str> = EnvelopeAction::ALL.iter().map(|a| a.label()).collect();
    assert_eq!(
        labels,
        ["Read", "Reply", "Reply All", "Forward", "Copy", "Move", "Add flag", "Remove flag"]
    );
}

#[test]
fn the_dialog_cursor_picks_in_dialog_order() {
    assert_eq!(selected_envelope_action(0), EnvelopeAction::Read);
    assert_eq!(selected_envelope_action(7), EnvelopeAction::RemoveFlag);
    assert_eq!(selected_compose_action(3), ComposeAction::Cancel);
    assert_eq!(selected_flag_action(1), FlagAction::Flagged);
}

#[test]
fn each_dialog_counts_its_entries() {
    assert_eq!(dialog_item_count(Some(Dialog::Envelope), 5), 8);
    assert_eq!(dialog_item_count(Some(Dialog::Compose), 5), 4);
    assert_eq!(dialog_item_count(Some(Dialog::MoveTo), 5), 5);
    assert_eq!(dialog_item_count(Some(Dialog::FlagRemove), 5), 3);
    assert_eq!(dialog_item_count(None, 5), 0);
}

#[test]
fn the_filter_matches_case_insensitively() {
    let all = mailboxes();
    let kept: Vec<&str> = filtered_mailboxes(&all, "inbox").iter().map(|m| m.name.as_str()).collect();
    assert_eq!(kept, ["INBOX", "Archive/Inbox old"]);
    assert_eq!(filtered_mailboxes(&all, "").len(), 4);
    assert!(filtered_mailboxes(&all, "zzz").is_empty());
}

#[test]
fn the_selected_name_is_the_first_listed_under_its_id() {
    let all = mailboxes();
    assert_eq!(selected_mailbox_name(&all, Some("2")), Some("Sent Items"));
    assert_eq!(selected_mailbox_name(&all, Some("9")), None);
    assert_eq!(selected_mailbox_name(&all, None), None);
}

#[test]
fn vim_is_the_default_flavor() {
    assert_eq!(Keybinds::default(), Keybinds::Vim);
}
