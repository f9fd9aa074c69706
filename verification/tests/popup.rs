use shell_popup::popup::{scroll_up_within, ShellPopup, TaskTab};

fn popup_with(content: &[u8]) -> ShellPopup {
    let mut popup = ShellPopup::new("Title".to_string(), "win".to_string());
    popup.cached_content = content.to_vec();
    popup
}

#[test]
fn tabs_form_a_cycle() {
    assert_eq!(TaskTab::Agent.next(), TaskTab::Diff);
    assert_eq!(TaskTab::Diff.next(), TaskTab::Terminal);
    assert_eq!(TaskTab::Terminal.next(), TaskTab::Agent);
    assert_eq!(TaskTab::Agent.next().next().next(), TaskTab::Agent);
}

#[test]
fn a_new_popup_is_empty_and_at_the_bottom() {
    let popup = ShellPopup::new("Title".to_string(), "win".to_string());
    assert_eq!(popup.task_title, "Title");
    assert_eq!(popup.window_name, "win");
    assert_eq!(popup.scroll_offset, 0);
    assert!(popup.cached_content.is_empty());
    assert_eq!(popup.last_pane_size, None);
    assert_eq!(popup.escalation_note, None);
    assert_eq!(popup.task_id, None);
    assert_eq!(popup.active_tab, TaskTab::Agent);
    assert_eq!(popup.diff_content, "");
    assert_eq!(popup.diff_scroll, 0);
    assert_eq!(popup.terminal_window_name, "");
    assert!(popup.terminal_cached_content.is_empty());
    assert_eq!(popup.terminal_scroll, 0);
    assert!(popup.is_at_bottom());
}

#[test]
fn scrolling_up_is_clamped_to_the_content() {
    let mut popup = popup_with(b"1\n2\n3\n4\n5\n");
    popup.scroll_up(2);
    assert_eq!(popup.scroll_offset, -2);
    assert!(!popup.is_at_bottom());
    popup.scroll_up(100);
    assert_eq!(popup.scroll_offset, -5);
}

#[test]
fn a_last_line_without_a_line_feed_counts() {
    let mut popup = popup_with(b"1\n2\n3");
    popup.scroll_up(100);
    assert_eq!(popup.scroll_offset, -3);
    let mut empty = popup_with(b"");
    empty.scroll_up(1);
    assert_eq!(empty.scroll_offset, 0);
    assert!(empty.is_at_bottom());
}

#[test]
fn content_that_is_not_utf8_is_counted_by_its_text() {
    let mut popup = popup_with(b"\xff\xfe\n\xc3\n\xf0\x9f");
    popup.scroll_up(100);
    assert_eq!(popup.scroll_offset, -3);
}

#[test]
fn scrolling_down_stops_at_the_bottom() {
    let mut popup = popup_with(b"1\n2\n3\n4\n5\n");
    popup.scroll_up(4);
    popup.scroll_down(1);
    assert_eq!(popup.scroll_offset, -3);
    popup.scroll_down(3);
    assert_eq!(popup.scroll_offset, 0);
    popup.scroll_down(7);
    assert_eq!(popup.scroll_offset, 0);
    assert!(popup.is_at_bottom());
}

#[test]
fn scrolling_back_undoes_scrolling() {
    let mut popup = popup_with(b"1\n2\n3\n4\n5\n");
    popup.scroll_up(1);
    popup.scroll_up(3);
    popup.scroll_down(3);
    assert_eq!(popup.scroll_offset, -1);
    // The first line stops it.
    popup.scroll_up(10);
    popup.scroll_down(10);
    assert_eq!(popup.scroll_offset, 0);
}

#[test]
fn scrolling_adds_up() {
    let mut twice = popup_with(b"1\n2\n3\n4\n5\n");
    twice.scroll_up(2);
    twice.scroll_up(2);
    let mut once = popup_with(b"1\n2\n3\n4\n5\n");
    once.scroll_up(4);
    assert_eq!(twice.scroll_offset, once.scroll_offset);
}

#[test]
fn jumping_to_the_bottom_keeps_the_rest() {
    let mut popup = popup_with(b"1\n2\n3\n");
    popup.diff_scroll = 4;
    popup.terminal_scroll = -2;
    popup.scroll_up(2);
    popup.scroll_to_bottom();
    assert_eq!(popup.scroll_offset, 0);
    assert!(popup.is_at_bottom());
    assert_eq!(popup.diff_scroll, 4);
    assert_eq!(popup.terminal_scroll, -2);
    assert_eq!(popup.cached_content, b"1\n2\n3\n".to_vec());
}

#[test]
fn a_negative_number_of_lines_scrolls_the_other_way() {
    let mut popup = popup_with(b"1\n2\n3\n");
    popup.scroll_up(2);
    popup.scroll_up(-1);
    assert_eq!(popup.scroll_offset, -1);
    popup.scroll_up(-5);
    assert_eq!(popup.scroll_offset, 4);
    assert!(popup.is_at_bottom());
}

#[test]
fn more_lines_than_an_i32_can_count_are_no_obstacle() {
    assert_eq!(scroll_up_within(0, 7, 5), -5);
    assert_eq!(scroll_up_within(0, 3, 5), -3);
    assert_eq!(scroll_up_within(0, i32::MAX, i32::MAX as usize), -i32::MAX);
    assert_eq!(scroll_up_within(0, 10, 0x8000_0000), -10);
    assert_eq!(scroll_up_within(0, 10, usize::MAX), -10);
    assert_eq!(scroll_up_within(-1, i32::MAX, usize::MAX), -i32::MAX);
}
