use plato_calibre::listing::{books_in, collect_listing, Page};

fn page(ids: Vec<u64>, num: u64) -> Page {
    Page { book_ids: ids, num }
}

#[test]
fn empty_on_first_zero_page() {
    let pages = vec![page(vec![], 0)];
    let ids = collect_listing(&pages);
    assert_eq!(ids, Vec::<u64>::new());
}

#[test]
fn full_pages_then_partial_in_order() {
    let first: Vec<u64> = (0..100).collect();
    let second: Vec<u64> = (100..200).collect();
    let partial: Vec<u64> = (200..205).collect();
    let pages = vec![
        page(first, 100),
        page(second, 100),
        page(partial, 5),
        page(vec![], 0),
    ];
    let ids = collect_listing(&pages);
    let expected: Vec<u64> = (0..205).collect();
    assert_eq!(ids.len(), 100 * 2 + 5);
    assert_eq!(ids, expected);
}

#[test]
fn fetch_failure_ends_the_listing() {
    let pages = vec![page(vec![7, 8, 9], 3)];
    let ids = collect_listing(&pages);
    assert_eq!(ids, vec![7, 8, 9]);
}

#[test]
fn page_count_and_id_list_can_disagree() {
    let pages = vec![page(vec![1, 2], 5), page(vec![], 0)];
    let ids = collect_listing(&pages);
    assert_eq!(ids, vec![1, 2]);
}

#[test]
fn counter_steps_through_pages() {
    let mut c = books_in();
    assert!(!c.is_exhausted());
    assert!(c.needs_page());
    assert_eq!(c.page_offset(), 0);

    c.feed_page(page(vec![1, 2], 2));
    assert_eq!(c.page_offset(), 100);
    assert_eq!(c.next(), Some(1));
    assert_eq!(c.next(), Some(2));
    assert_eq!(c.next(), None);
    assert!(c.needs_page());

    c.feed_page(page(vec![], 0));
    assert!(c.is_exhausted());
    assert_eq!(c.next(), None);
    assert!(!c.needs_page());
}

#[test]
fn offset_advances_by_page_size_regardless_of_page_content() {
    let mut c = books_in();
    c.feed_page(page(vec![42], 1));
    assert_eq!(c.page_offset(), 100);
    assert_eq!(c.next(), Some(42));
    c.feed_page(page(vec![43], 1));
    assert_eq!(c.page_offset(), 200);
}
