use batrs::scrollback::Scrollback;

#[test]
fn follows_latest_output_by_default() {
    let mut scrollback = Scrollback::new();

    scrollback.update_viewport(100, 20);

    assert_eq!(scrollback.offset(), 80);
}

#[test]
fn page_up_moves_one_viewport_and_clamps_at_top() {
    let mut scrollback = Scrollback::new();
    scrollback.update_viewport(100, 20);

    scrollback.page_up();
    assert_eq!(scrollback.offset(), 60);

    scrollback.page_up();
    scrollback.page_up();
    scrollback.page_up();
    scrollback.page_up();
    assert_eq!(scrollback.offset(), 0);
}

#[test]
fn page_down_returns_to_follow_mode_at_bottom() {
    let mut scrollback = Scrollback::new();
    scrollback.update_viewport(100, 20);

    scrollback.page_up();
    scrollback.page_down();
    assert_eq!(scrollback.offset(), 80);

    scrollback.update_viewport(120, 20);
    assert_eq!(scrollback.offset(), 100);
}

#[test]
fn line_scroll_moves_by_requested_amount_and_clamps() {
    let mut scrollback = Scrollback::new();
    scrollback.update_viewport(100, 20);

    scrollback.scroll_up(3);
    assert_eq!(scrollback.offset(), 77);

    scrollback.scroll_down(2);
    assert_eq!(scrollback.offset(), 79);

    scrollback.scroll_down(2);
    assert_eq!(scrollback.offset(), 80);
}

#[test]
fn new_output_keeps_scrolled_back_top_line_stable() {
    let mut scrollback = Scrollback::new();
    scrollback.update_viewport(100, 20);

    scrollback.page_up();
    scrollback.update_viewport(120, 20);

    assert_eq!(scrollback.offset(), 60);
}

#[test]
fn paging_is_noop_when_output_fits_viewport() {
    let mut scrollback = Scrollback::new();
    scrollback.update_viewport(10, 20);

    scrollback.page_up();
    assert_eq!(scrollback.offset(), 0);

    scrollback.page_down();
    assert_eq!(scrollback.offset(), 0);
}

#[test]
fn scroll_by_zero_still_moves_one_line() {
    let mut scrollback = Scrollback::new();
    scrollback.update_viewport(100, 20);
    scrollback.scroll_up(0);
    assert_eq!(scrollback.offset(), 79);
}

#[test]
fn offset_is_capped_at_u16_max() {
    let mut scrollback = Scrollback::new();
    scrollback.update_viewport(100_000, 10);
    assert_eq!(scrollback.offset(), u16::MAX);
}
