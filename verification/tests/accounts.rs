use himalaya_tui::collation::{sorted_names, str_le};
use himalaya_tui::config::{take_account, AccountLookupError};

fn accounts() -> Vec<(String, bool, u32)> {
    vec![
        ("work".to_string(), false, 10),
        ("perso".to_string(), true, 20),
        ("archive".to_string(), false, 30),
    ]
}

fn names(accounts: &[(String, bool, u32)]) -> Vec<&str> {
    accounts.iter().map(|(name, _, _)| name.as_str()).collect()
}

#[test]
fn the_default_account_is_the_one_flagged() {
    for asked in [None, Some("default"), Some("")] {
        let mut declared = accounts();
        let taken = take_account(asked, &mut declared).ok().unwrap();
        assert_eq!(taken, Some(("perso".to_string(), 20)));
        assert_eq!(names(&declared), vec!["work", "archive"]);
    }
}

#[test]
fn no_flagged_account_means_none() {
    let mut unflagged = vec![("work".to_string(), false, 1u32)];
    assert_eq!(take_account(None, &mut unflagged).ok().unwrap(), None);
    assert_eq!(unflagged.len(), 1);
}

#[test]
fn a_named_account_is_taken_by_name() {
    let mut declared = accounts();
    let taken = take_account(Some("archive"), &mut declared).ok().unwrap();
    assert_eq!(taken, Some(("archive".to_string(), 30)));
    assert_eq!(names(&declared), vec!["work", "perso"]);
}

#[test]
fn an_unknown_name_lists_the_declared_ones_sorted() {
    let mut declared = accounts();
    match take_account(Some("travel"), &mut declared) {
        Err(AccountLookupError::Unknown(name, known)) => {
            assert_eq!(name, "travel");
            assert_eq!(known, vec!["archive", "perso", "work"]);
        }
        _ => panic!("an unknown account should be an error"),
    }
    assert_eq!(declared.len(), 3);
}

#[test]
fn a_name_in_an_empty_file_is_an_error() {
    let mut empty: Vec<(String, bool, u32)> = Vec::new();
    match take_account(Some("travel"), &mut empty) {
        Err(AccountLookupError::NoneDeclared(name)) => assert_eq!(name, "travel"),
        _ => panic!("an empty configuration should be an error"),
    }
}

#[test]
fn names_sort_by_character() {
    let names = vec![
        "work".to_string(),
        "Work".to_string(),
        "wor".to_string(),
        "".to_string(),
        "é".to_string(),
    ];
    let mut expected = names.clone();
    expected.sort();
    assert_eq!(sorted_names(&names), expected);
    assert!(str_le("wor", "work"));
    assert!(!str_le("work", "wor"));
    assert!(str_le("Work", "work"));
    assert!(str_le("", ""));
}
