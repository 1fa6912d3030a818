use gravel::scroll::Scroll;

#[test]
fn starts_at_top() {
    let s = Scroll::new(10, 4);
    assert_eq!((s.cursor(), s.scroll(), s.length(), s.view_size()), (0, 0, 10, 4));
    assert_eq!(Scroll::new(2, 4).view_size(), 2);
}

#[test]
fn cursor_down_scrolls_and_wraps() {
    let mut s = Scroll::new(5, 3);
    for _ in 0..3 {
        s.cursor_down();
    }
    assert_eq!((s.cursor(), s.scroll()), (3, 1));
    s.cursor_down();
    assert_eq!((s.cursor(), s.scroll()), (4, 2));
    s.cursor_down();
    assert_eq!((s.cursor(), s.scroll()), (0, 0));
}

#[test]
fn cursor_up_wraps_to_bottom() {
    let mut s = Scroll::new(5, 3);
    s.cursor_up();
    assert_eq!((s.cursor(), s.scroll()), (4, 2));
    s.cursor_up();
    s.cursor_up();
    assert_eq!((s.cursor(), s.scroll()), (2, 2));
    s.cursor_up();
    assert_eq!((s.cursor(), s.scroll()), (1, 1));
}

#[test]
fn paging() {
    let mut s = Scroll::new(10, 3);
    s.page_down();
    assert_eq!((s.cursor(), s.scroll()), (5, 3));
    s.page_down();
    assert_eq!((s.cursor(), s.scroll()), (8, 6));
    s.page_down();
    assert_eq!((s.cursor(), s.scroll()), (9, 7));
    s.page_up();
    assert_eq!((s.cursor(), s.scroll()), (4, 4));
    s.page_up();
    assert_eq!((s.cursor(), s.scroll()), (1, 1));
    s.page_up();
    assert_eq!((s.cursor(), s.scroll()), (0, 0));
}

#[test]
fn top_bottom_and_length() {
    let mut s = Scroll::new(6, 4);
    s.bottom();
    assert_eq!((s.cursor(), s.scroll()), (5, 2));
    s.top();
    assert_eq!((s.cursor(), s.scroll()), (0, 0));
    s.bottom();
    s.set_length(2);
    assert_eq!((s.cursor(), s.scroll(), s.length(), s.view_size()), (0, 0, 2, 2));
}

#[test]
fn empty_list() {
    let mut s = Scroll::new(0, 4);
    s.cursor_down();
    assert_eq!((s.cursor(), s.scroll()), (0, 0));
    s.cursor_up();
    assert_eq!((s.cursor(), s.scroll()), (-1, 0));
}
