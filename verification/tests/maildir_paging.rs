use himalaya_tui::maildir::backend::paginate;
use himalaya_tui::tui::model::total_pages;

#[test]
fn each_page_is_the_next_slice() {
    let items: Vec<u8> = (1..=12).collect();
    let page = |n| paginate(items.clone(), Some(n), Some(5));

    assert_eq!(page(1), [1, 2, 3, 4, 5]);
    assert_eq!(page(2), [6, 7, 8, 9, 10]);
    assert_eq!(page(3), [11, 12]);
    assert!(page(4).is_empty(), "nothing is left to page into");
}

#[test]
fn pagination_edge_cases() {
    let items: Vec<u8> = (1..=4).collect();
    assert_eq!(paginate(items.clone(), None, None), [1, 2, 3, 4]);
    assert!(paginate(items.clone(), Some(1), Some(0)).is_empty());
    assert_eq!(paginate(items.clone(), Some(0), Some(3)), [1, 2, 3]);
    assert_eq!(paginate(items.clone(), None, Some(3)), [1, 2, 3]);
    assert!(paginate(items, Some(u32::MAX), Some(u32::MAX)).is_empty());
}

#[test]
fn the_page_count_rounds_up_and_is_never_zero() {
    assert_eq!(total_pages(35, 120), 4);
    assert_eq!(total_pages(35, 35), 1);
    assert_eq!(total_pages(35, 36), 2);
    assert_eq!(total_pages(35, 0), 1);
    assert_eq!(total_pages(0, 120), 1);
    assert_eq!(total_pages(1, u32::MAX), u32::MAX as usize);
}
