use shell_popup::{build_footer_text, build_tab_footer_text, TaskTab};

#[test]
fn footer_names_the_line_when_scrolled_up() {
    assert_eq!(
        build_footer_text(-3, 11),
        " [Ctrl+j/k] scroll [Ctrl+d/u] page [Ctrl+g] bottom [Ctrl+q] close | Line 12 "
    );
    assert_eq!(
        build_footer_text(-1, 0),
        " [Ctrl+j/k] scroll [Ctrl+d/u] page [Ctrl+g] bottom [Ctrl+q] close | Line 1 "
    );
}

#[test]
fn footer_says_that_it_is_at_the_bottom() {
    let bottom = " [Ctrl+j/k] scroll [Ctrl+d/u] page [Ctrl+q] close | At bottom ";
    assert_eq!(build_footer_text(0, 11), bottom);
    assert_eq!(build_footer_text(5, usize::MAX), bottom);
}

#[test]
fn tab_footer_of_the_shell_tabs() {
    for tab in [TaskTab::Agent, TaskTab::Terminal] {
        assert_eq!(
            build_tab_footer_text(&tab, -3, 99),
            " [Ctrl+j/k] scroll [Ctrl+d/u] page [Ctrl+g] bottom [Ctrl+T] tab [Ctrl+q] close | Line 100 "
        );
        assert_eq!(
            build_tab_footer_text(&tab, 0, 99),
            " [Ctrl+j/k] scroll [Ctrl+d/u] page [Ctrl+T] tab [Ctrl+q] close | At bottom "
        );
    }
}

#[test]
fn tab_footer_of_the_diff_tab_is_fixed() {
    let text = " [j/k] scroll  [d/u] page  [g/G] top/bot  [Ctrl+T] tab  [Ctrl+q] close ";
    assert_eq!(build_tab_footer_text(&TaskTab::Diff, 0, 0), text);
    assert_eq!(build_tab_footer_text(&TaskTab::Diff, -5, 40), text);
    assert_eq!(build_tab_footer_text(&TaskTab::Diff, -5, usize::MAX), text);
}
