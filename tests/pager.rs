use locket::Pager;

#[test]
fn test_get_bounds() {
    let length = 100;
    let per = 10;
    let mut pager = Pager::new(0, 1, 1);

    pager.set_per(per);
    pager.set_total_by_len(length);

    assert_eq!(pager.get_page(), 0);
    assert_eq!(pager.get_per(), 10);
    assert_eq!(pager.get_total(), 10);

    // The pager stays put once it reaches the last page.
    for _ in 0..=1000 {
        pager.next();
    }

    assert_eq!(pager.get_page(), 9);
    assert_eq!(pager.get_bounds(length), (90, 100));
}

#[test]
fn total_rounds_up() {
    let mut pager = Pager::new(0, 10, 0);
    assert_eq!(pager.set_total_by_len(101), 11);
    assert_eq!(pager.get_total(), 11);
    assert_eq!(pager.set_total_by_len(1), 1);
    assert_eq!(pager.set_total_by_len(10), 1);
}

#[test]
fn total_unchanged_without_items() {
    let mut pager = Pager::new(0, 10, 7);
    assert_eq!(pager.set_total_by_len(0), 7);
    assert_eq!(pager.get_total(), 7);
}

#[test]
fn last_page_ends_at_item_count() {
    for (len, per) in [(1usize, 1usize), (7, 3), (9, 3), (23, 5), (100, 7)] {
        let mut pager = Pager::new(0, per, 0);
        let total = pager.set_total_by_len(len);
        assert_eq!(total, (len + per - 1) / per);
        pager.set_current(total - 1);
        let (start, end) = pager.get_bounds(len);
        assert_eq!(end, len);
        assert!(start < len);
    }
}

#[test]
fn previous_saturates_at_first_page() {
    let mut pager = Pager::new(4, 5, 5);
    for _ in 0..=10 {
        pager.previous();
    }
    assert_eq!(pager.get_page(), 0);
    assert!(pager.is_on_first_page());
}

#[test]
fn next_and_previous_stay_in_range() {
    let mut pager = Pager::new(0, 5, 5);
    for step in 0..50 {
        if step % 3 == 0 {
            pager.previous();
        } else {
            pager.next();
        }
        assert!(pager.get_page() <= 4);
    }
    assert!(pager.is_on_last_page());
}

#[test]
fn no_pages_is_last_and_first() {
    let mut pager = Pager::new(0, 5, 0);
    assert!(pager.is_on_last_page());
    assert!(pager.is_on_first_page());
    pager.next();
    assert_eq!(pager.get_page(), 0);
}

#[test]
fn num_on_page() {
    let mut pager = Pager::default();
    assert_eq!(pager.get_per(), 1);
    assert_eq!(pager.get_total(), 1);
    pager.set_per(5);
    pager.set_total_by_len(25);
    for _ in 0..5 {
        pager.next();
    }
    assert_eq!(pager.get_page(), 4);
    assert_eq!(pager.get_num_on_page(23), 3);
    assert_eq!(pager.get_num_on_page(0), 0);
}

#[test]
fn bounds_in_the_middle() {
    let mut pager = Pager::new(0, 10, 10);
    pager.next();
    pager.next();
    assert_eq!(pager.get_bounds(622), (20, 30));
}
