use himalaya_tui::email::mailbox::Mailbox;
use himalaya_tui::maildir::backend::{envelope_page, newest_first, sort_by_name};

fn dated(items: &[(Option<(i64, u32)>, &'static str)]) -> Vec<(Option<(i64, u32)>, &'static str)> {
    items.to_vec()
}

fn ids(items: &[(Option<(i64, u32)>, &'static str)]) -> Vec<&'static str> {
    items.iter().map(|(_, id)| *id).collect()
}

#[test]
fn envelopes_list_newest_first_undated_last() {
    let sorted = newest_first(dated(&[
        (Some((100, 0)), "a"),
        (None, "b"),
        (Some((300, 0)), "c"),
        (Some((100, 5)), "d"),
        (Some((-50, 0)), "e"),
    ]));
    assert_eq!(ids(&sorted), vec!["c", "d", "a", "e", "b"]);
}

#[test]
fn envelopes_of_one_date_keep_their_order() {
    let sorted = newest_first(dated(&[
        (Some((7, 0)), "a"),
        (None, "b"),
        (Some((7, 0)), "c"),
        (None, "d"),
        (Some((9, 0)), "e"),
        (Some((7, 0)), "f"),
    ]));
    assert_eq!(ids(&sorted), vec!["e", "a", "c", "f", "b", "d"]);
}

#[test]
fn a_page_is_cut_from_the_sorted_listing() {
    let items = dated(&[
        (Some((1, 0)), "oldest"),
        (Some((3, 0)), "newest"),
        (Some((2, 0)), "middle"),
    ]);
    let (page, total) = envelope_page(items.clone(), Some(1), Some(2));
    assert_eq!(ids(&page), vec!["newest", "middle"]);
    assert_eq!(total, 3);
    let (page, total) = envelope_page(items.clone(), Some(2), Some(2));
    assert_eq!(ids(&page), vec!["oldest"]);
    assert_eq!(total, 3);
    let (page, _) = envelope_page(items, None, None);
    assert_eq!(ids(&page), vec!["newest", "middle", "oldest"]);
}

fn mailbox(id: &str, name: &str) -> Mailbox {
    Mailbox {
        id: id.to_string(),
        name: name.to_string(),
        total: None,
        unread: None,
    }
}

#[test]
fn maildirs_list_by_name() {
    let sorted = sort_by_name(vec![
        mailbox("/m/Sent", "Sent"),
        mailbox("/m/a/Archive", "Archive"),
        mailbox("/m/INBOX", "INBOX"),
        mailbox("/m/b/Archive", "Archive"),
    ]);
    let listed: Vec<&str> = sorted.iter().map(|m| m.id.as_str()).collect();
    assert_eq!(listed, vec!["/m/a/Archive", "/m/b/Archive", "/m/INBOX", "/m/Sent"]);
}
