use himalaya_tui::cli::{resolve_signature, signature_block};

#[test]
fn the_signature_block_carries_its_separator() {
    assert_eq!(
        signature_block("Alice".to_string(), None),
        "-- \nAlice",
        "an unset delimiter falls back to the RFC separator",
    );

    assert_eq!(
        signature_block("Alice\n".to_string(), Some("~~~\n".to_string())),
        "~~~\nAlice",
        "the delimiter is written verbatim, its own newline included",
    );
}

#[test]
fn no_signature_means_no_block_at_all() {
    assert_eq!(signature_block(String::new(), None), "");
    // A delimiter alone is not a signature, or every draft would end
    // on a bare `-- `.
    assert_eq!(
        signature_block("  \n".to_string(), Some("-- \n".to_string())),
        "",
    );
}

#[test]
fn every_trailing_newline_is_dropped_but_inner_ones_stay() {
    assert_eq!(
        signature_block("Alice\nBob\n\n\n".to_string(), None),
        "-- \nAlice\nBob",
    );
    assert_eq!(
        signature_block("  Alice  ".to_string(), Some(String::new())),
        "  Alice  ",
    );
}

#[test]
fn the_account_signature_wins_over_the_global_one() {
    assert_eq!(
        resolve_signature(
            Some("Work".to_string()),
            Some("Home".to_string()),
            None,
            Some("~~\n".to_string()),
        ),
        "~~\nWork",
    );
    assert_eq!(
        resolve_signature(None, Some("Home".to_string()), Some("==\n".to_string()), None),
        "==\nHome",
    );
    assert_eq!(resolve_signature(None, None, Some("==\n".to_string()), None), "");
}
