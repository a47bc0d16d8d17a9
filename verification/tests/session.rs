use himalaya_tui::jmap::client::{needs_index, resolve_mailbox_id};
use himalaya_tui::shared::client::{smtp_connected, smtp_step, SmtpSlot, SmtpStep};
use himalaya_tui::tui::model::{tick_action, TickAction};

#[test]
fn the_loop_pings_after_a_minute_idle() {
    assert_eq!(tick_action(true, 120_000), TickAction::HandleEvent);
    assert_eq!(tick_action(false, 60_000), TickAction::Ping);
    assert_eq!(tick_action(false, 59_999), TickAction::Wait);
}

#[test]
fn smtp_connects_on_first_send_and_never_retries() {
    let mut slot: SmtpSlot<&str, u8> = SmtpSlot::Pending("smtp.example.org");
    assert!(matches!(smtp_step(&mut slot), SmtpStep::Connect("smtp.example.org")));
    // The connection failed: nothing was handed back.
    assert!(matches!(smtp_step(&mut slot), SmtpStep::Unavailable));

    let mut slot: SmtpSlot<&str, u8> = SmtpSlot::Pending("smtp.example.org");
    assert!(matches!(smtp_step(&mut slot), SmtpStep::Connect(_)));
    smtp_connected(&mut slot, 7);
    assert!(matches!(smtp_step(&mut slot), SmtpStep::Send));
    assert!(matches!(slot, SmtpSlot::Ready(7)));

    let mut absent: SmtpSlot<&str, u8> = SmtpSlot::Absent;
    assert!(matches!(smtp_step(&mut absent), SmtpStep::Unavailable));
}

#[test]
fn the_mailbox_index_is_fetched_once() {
    let mut cache = None;
    assert!(needs_index(&cache));
    let listing = vec![(Some("M1".to_string()), Some("Drafts".to_string()))];
    assert_eq!(resolve_mailbox_id(&mut cache, Some(listing), "Drafts"), "M1");
    assert!(!needs_index(&cache));
    // A later listing is not read: the cached index answers.
    let other = vec![(Some("M9".to_string()), Some("Drafts".to_string()))];
    assert_eq!(resolve_mailbox_id(&mut cache, Some(other), "Drafts"), "M1");
    assert_eq!(resolve_mailbox_id(&mut cache, None, "Unknown"), "Unknown");
}
