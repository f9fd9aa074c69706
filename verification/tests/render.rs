use ratatui::widgets::{Block, Borders};
use shell_popup::render::{
    active_scroll_offset, build_banner_text, build_title_text, diff_line_color, render_in_rows,
    render_shell_popup, row_heights, visible_diff_lines, DrawOp, ShellPopupColors,
};
use shell_popup::{Color, Line, Rect, ShellPopup, Span, Style, TaskTab};

fn rect(x: u16, y: u16, width: u16, height: u16) -> Rect {
    Rect { x, y, width, height }
}

fn two_colors(fg: Color, bg: Color) -> Style {
    Style::default().fg(fg).bg(bg)
}

fn line(text: &str) -> Line {
    Line {
        spans: vec![Span { content: text.to_string(), style: Style::default() }],
        style: Style::default(),
        alignment: None,
    }
}

fn numbered(prefix: &str, n: usize) -> Vec<Line> {
    (0..n).map(|i| line(&format!("{}{}", prefix, i))).collect()
}

fn area(op: &DrawOp) -> Rect {
    match op {
        DrawOp::Clear { area } => *area,
        DrawOp::Border { area, .. } => *area,
        DrawOp::Text { area, .. } => *area,
        DrawOp::Lines { area, .. } => *area,
    }
}

fn popup() -> ShellPopup {
    ShellPopup::new("Fix it".to_string(), "win".to_string())
}

#[test]
fn default_colors() {
    let colors = ShellPopupColors::default();
    assert_eq!(colors.border, Color::Green);
    assert_eq!(colors.header_fg, Color::Black);
    assert_eq!(colors.header_bg, Color::Cyan);
    assert_eq!(colors.footer_fg, Color::Black);
    assert_eq!(colors.footer_bg, Color::Gray);
    assert_eq!(colors.escalation_fg, Color::Black);
    assert_eq!(colors.escalation_bg, Color::Yellow);
}

#[test]
fn agent_tab_is_drawn_whole() {
    let colors = ShellPopupColors::default();
    let ops = render_shell_popup(
        &popup(),
        rect(2, 3, 12, 8),
        numbered("a", 9),
        numbered("t", 9),
        &colors,
    );
    let highlight = two_colors(Color::Black, Color::Cyan);
    let plain = two_colors(Color::Black, Color::Gray);
    let span = |text: &str, style: Style| Span { content: text.to_string(), style };
    let tabs = Line {
        spans: vec![
            span(" 1:Agent ", highlight),
            span(" 2:Diff ", plain),
            span(" 3:Terminal ", plain),
        ],
        style: Style::default(),
        alignment: None,
    };
    assert_eq!(
        ops,
        vec![
            DrawOp::Clear { area: rect(2, 3, 12, 8) },
            DrawOp::Border {
                area: rect(2, 3, 12, 8),
                title: "Fix it".to_string(),
                style: Style::default().fg(Color::Green),
            },
            DrawOp::Text {
                area: rect(3, 4, 10, 1),
                text: " Fix it   ".to_string(),
                style: highlight,
            },
            DrawOp::Lines { area: rect(3, 5, 10, 1), lines: vec![tabs] },
            DrawOp::Lines {
                area: rect(3, 6, 10, 3),
                lines: vec![line("a6"), line("a7"), line("a8")],
            },
            DrawOp::Text {
                area: rect(3, 9, 10, 1),
                text: " [Ctrl+j/k] scroll [Ctrl+d/u] page [Ctrl+T] tab [Ctrl+q] close | At bottom "
                    .to_string(),
                style: plain,
            },
        ]
    );
}

#[test]
fn an_escalation_note_makes_room_for_a_banner() {
    let colors = ShellPopupColors::default();
    let mut noted = popup();
    noted.escalation_note = Some("help".to_string());
    let ops =
        render_shell_popup(&noted, rect(0, 0, 32, 10), numbered("a", 9), Vec::new(), &colors);
    assert_eq!(ops.len(), 7);
    assert_eq!(
        ops[4],
        DrawOp::Text {
            area: rect(1, 3, 30, 2),
            text: " \u{26a0}  help                      \n Press any key to dismiss     ".to_string(),
            style: two_colors(Color::Black, Color::Yellow),
        }
    );
    assert_eq!(
        ops[5],
        DrawOp::Lines {
            area: rect(1, 5, 30, 3),
            lines: vec![line("a6"), line("a7"), line("a8")],
        }
    );
    assert_eq!(area(&ops[6]), rect(1, 8, 30, 1));
}

#[test]
fn terminal_tab_has_its_own_lines_and_scroll() {
    let colors = ShellPopupColors::default();
    let mut terminal = popup();
    terminal.active_tab = TaskTab::Terminal;
    terminal.terminal_scroll = -2;
    terminal.scroll_offset = i32::MIN;
    let ops = render_shell_popup(
        &terminal,
        rect(0, 0, 100, 8),
        numbered("a", 9),
        numbered("t", 9),
        &colors,
    );
    assert_eq!(
        ops[4],
        DrawOp::Lines {
            area: rect(1, 3, 98, 3),
            lines: vec![line("t4"), line("t5"), line("t6")],
        }
    );
    let footer =
        " [Ctrl+j/k] scroll [Ctrl+d/u] page [Ctrl+g] bottom [Ctrl+T] tab [Ctrl+q] close | Line 5 ";
    assert_eq!(
        ops[5],
        DrawOp::Text {
            area: rect(1, 6, 98, 1),
            text: format!("{:<98}", footer),
            style: two_colors(Color::Black, Color::Gray),
        }
    );
}

#[test]
fn diff_tab_shows_coloured_lines() {
    let colors = ShellPopupColors::default();
    let mut diff = popup();
    diff.active_tab = TaskTab::Diff;
    diff.diff_content = "diff --git a b\n@@ -1 +1 @@\n-old\n+new\n same\n".to_string();
    diff.diff_scroll = 1;
    let ops =
        render_shell_popup(&diff, rect(0, 0, 80, 8), numbered("a", 9), numbered("t", 9), &colors);
    let colored = |text: &str, color: Color| {
        let mut l = line(text);
        l.spans[0].style = Style::default().fg(color);
        l
    };
    assert_eq!(
        ops[4],
        DrawOp::Lines {
            area: rect(1, 3, 78, 3),
            lines: vec![
                colored("@@ -1 +1 @@", Color::Cyan),
                colored("-old", Color::Red),
                colored("+new", Color::Green),
            ],
        }
    );
    let footer = " [j/k] scroll  [d/u] page  [g/G] top/bot  [Ctrl+T] tab  [Ctrl+q] close ";
    assert_eq!(
        ops[5],
        DrawOp::Text {
            area: rect(1, 6, 78, 1),
            text: format!("{:<78}", footer),
            style: two_colors(Color::Black, Color::Gray),
        }
    );
}

#[test]
fn diff_colors() {
    assert_eq!(diff_line_color("+added"), Color::Green);
    assert_eq!(diff_line_color("+"), Color::Green);
    assert_eq!(diff_line_color("++"), Color::Green);
    assert_eq!(diff_line_color("+++ b/file"), Color::White);
    assert_eq!(diff_line_color("-removed"), Color::Red);
    assert_eq!(diff_line_color("--- a/file"), Color::White);
    assert_eq!(diff_line_color("@@ -1,2 +1,2 @@"), Color::Cyan);
    assert_eq!(diff_line_color("@"), Color::White);
    assert_eq!(diff_line_color("diff --git a b"), Color::Yellow);
    assert_eq!(diff_line_color("different"), Color::White);
    assert_eq!(diff_line_color("index 12..34"), Color::Yellow);
    assert_eq!(diff_line_color(" context"), Color::White);
    assert_eq!(diff_line_color(""), Color::White);
}

#[test]
fn diff_scrolls_past_its_end_to_nothing() {
    assert_eq!(visible_diff_lines("a\nb\nc", 2, 5).len(), 1);
    assert_eq!(visible_diff_lines("a\nb\nc", 3, 5).len(), 0);
    assert_eq!(visible_diff_lines("a\nb\nc", usize::MAX, 5).len(), 0);
    assert_eq!(visible_diff_lines("a\nb\nc", 0, 2).len(), 2);
    assert_eq!(visible_diff_lines("", 0, 2).len(), 0);
}

#[test]
fn title_and_banner_fill_their_width() {
    assert_eq!(build_title_text("x", 6), " x    ");
    assert_eq!(build_title_text("long title", 6), " long title ");
    assert_eq!(build_banner_text("n", 2), " \u{26a0}  n \n Press any key to dismiss");
}

#[test]
fn rows_may_be_given() {
    let rows =
        vec![rect(0, 0, 9, 1), rect(0, 1, 9, 0), rect(0, 1, 9, 0), rect(0, 1, 9, 2), rect(0, 3, 9, 1)];
    let mut scrolled = popup();
    scrolled.scroll_offset = -1;
    let ops = render_in_rows(
        &scrolled,
        rect(0, 0, 9, 4),
        &rows,
        numbered("a", 4),
        Vec::new(),
        &ShellPopupColors::default(),
    );
    let areas: Vec<Rect> = ops.iter().map(area).collect();
    assert_eq!(
        areas,
        vec![rect(0, 0, 9, 4), rect(0, 0, 9, 4), rows[0], rows[1], rows[3], rows[4]]
    );
    assert_eq!(ops[4], DrawOp::Lines { area: rows[3], lines: vec![line("a1"), line("a2")] });
}

/// The areas of the five rows that are drawn for a popup with an escalation note.
fn rows_drawn(noted: &ShellPopup, whole: Rect) -> Vec<Rect> {
    let ops =
        render_shell_popup(noted, whole, Vec::new(), Vec::new(), &ShellPopupColors::default());
    assert_eq!(ops.len(), 7);
    ops[2..].iter().map(area).collect()
}

#[test]
fn rows_that_fit_tile_the_inside_of_the_border() {
    let mut noted = popup();
    noted.escalation_note = Some("n".to_string());
    for height in 7..200u16 {
        for (x, y) in [(0u16, 0u16), (5, 9), (300, 65000)] {
            let rows = rows_drawn(&noted, rect(x, y, 20, height));
            let top = y + 1;
            let rest = height - 7;
            assert_eq!(
                rows,
                vec![
                    rect(x + 1, top, 18, 1),
                    rect(x + 1, top + 1, 18, 1),
                    rect(x + 1, top + 2, 18, 2),
                    rect(x + 1, top + 4, 18, rest),
                    rect(x + 1, top + 4 + rest, 18, 1),
                ]
            );
        }
    }
    // Without a note the banner has no row.
    for height in 5..200u16 {
        let ops = render_shell_popup(
            &popup(),
            rect(0, 0, 20, height),
            Vec::new(),
            Vec::new(),
            &ShellPopupColors::default(),
        );
        let rows: Vec<Rect> = ops[2..].iter().map(area).collect();
        assert_eq!(
            rows,
            vec![
                rect(1, 1, 18, 1),
                rect(1, 2, 18, 1),
                rect(1, 3, 18, height - 5),
                rect(1, height - 2, 18, 1),
            ]
        );
    }
}

#[test]
fn rows_of_a_very_high_popup() {
    let mut noted = popup();
    noted.escalation_note = Some("n".to_string());
    for height in [1000u16, 32767, 32768, 40000, 65535] {
        let rows = rows_drawn(&noted, rect(0, 0, 3, height));
        assert_eq!(rows[3], rect(1, 5, 1, height - 7));
        assert_eq!(rows[4], rect(1, height - 2, 1, 1));
    }
    // An area that reaches past the last row ends there.
    let rows = rows_drawn(&noted, rect(0, 65500, 3, 100));
    assert_eq!(rows[0], rect(1, 65501, 1, 1));
    assert_eq!(rows[4].y + rows[4].height, 65535);
}

#[test]
fn nothing_leaves_a_popup_that_is_too_low() {
    let mut noted = popup();
    noted.escalation_note = Some("n".to_string());
    for height in 0..7u16 {
        for width in 0..4u16 {
            let whole = rect(4, 6, width, height);
            for row in rows_drawn(&noted, whole) {
                assert!(row.x >= 4 && row.x + row.width <= 4 + width);
                assert!(row.y >= 6 && row.y + row.height <= 6 + height);
            }
        }
    }
}

#[test]
fn rows_leave_no_gap_in_a_popup_that_is_too_low() {
    let mut noted = popup();
    noted.escalation_note = Some("n".to_string());
    for height in 2..8u16 {
        for y in (0..400u16).chain([32767, 65000, 65520]) {
            let rows = rows_drawn(&noted, rect(0, y, 9, height));
            assert_eq!(rows[0].y, y + 1);
            for i in 0..4 {
                assert_eq!(rows[i].y + rows[i].height, rows[i + 1].y);
            }
            assert_eq!(rows[4].y + rows[4].height, y + height - 1);
            let asked = row_heights(true);
            assert!(rows[0].height <= asked.title);
            assert!(rows[1].height <= asked.tabs);
            assert!(rows[2].height <= asked.banner);
            assert!(rows[4].height <= asked.footer);
            if height < 7 {
                assert_eq!(rows[3].height, 0);
            }
        }
    }
}

#[test]
fn the_inside_of_a_border_is_that_of_a_block() {
    let mut noted = popup();
    noted.escalation_note = Some("n".to_string());
    for (x, y, width, height) in [
        (0u16, 0u16, 0u16, 0u16),
        (0, 0, 1, 9),
        (0, 0, 2, 9),
        (7, 7, 3, 9),
        (65535, 0, 0, 9),
        (65530, 0, 20, 9),
        (3, 4, 50, 30),
    ] {
        let outer = ratatui::layout::Rect { x, y, width, height };
        let inner = Block::default().borders(Borders::ALL).inner(outer);
        for row in rows_drawn(&noted, rect(x, y, width, height)) {
            assert_eq!((row.x, row.width), (inner.x, inner.width));
        }
    }
}

#[test]
fn only_the_active_tab_is_drawn() {
    let colors = ShellPopupColors::default();
    let whole = rect(0, 0, 30, 9);
    let one = render_shell_popup(&popup(), whole, numbered("a", 5), numbered("t", 5), &colors);
    let mut other = popup();
    other.window_name = "other".to_string();
    other.cached_content = b"x".to_vec();
    other.last_pane_size = Some((1, 2));
    other.task_id = Some("id".to_string());
    other.diff_content = "+x".to_string();
    other.diff_scroll = 3;
    other.terminal_window_name = "term".to_string();
    other.terminal_cached_content = b"y".to_vec();
    other.terminal_scroll = -2;
    let two = render_shell_popup(&other, whole, numbered("a", 5), Vec::new(), &colors);
    assert_eq!(one, two);
    other.scroll_offset = -1;
    let three = render_shell_popup(&other, whole, numbered("a", 5), Vec::new(), &colors);
    assert_ne!(one, three);
}

#[test]
fn each_tab_has_its_own_scroll_offset() {
    let mut scrolled = popup();
    scrolled.scroll_offset = -3;
    scrolled.terminal_scroll = -4;
    scrolled.diff_scroll = 5;
    assert_eq!(active_scroll_offset(&scrolled), -3);
    scrolled.active_tab = scrolled.active_tab.next();
    assert_eq!(active_scroll_offset(&scrolled), 0);
    scrolled.active_tab = scrolled.active_tab.next();
    assert_eq!(active_scroll_offset(&scrolled), -4);
}

#[test]
fn only_a_note_asks_for_a_banner() {
    let plain = row_heights(false);
    assert_eq!((plain.title, plain.tabs, plain.banner, plain.content, plain.footer), (1, 1, 0, 0, 1));
    let noted = row_heights(true);
    assert_eq!((noted.title, noted.tabs, noted.banner, noted.content, noted.footer), (1, 1, 2, 0, 1));
}

#[test]
fn a_popup_without_a_note_that_is_too_low_shows_no_content() {
    for height in 0..5u16 {
        for y in 0..300u16 {
            let ops = render_shell_popup(
                &popup(),
                rect(0, y, 9, height),
                numbered("a", 5),
                Vec::new(),
                &ShellPopupColors::default(),
            );
            assert_eq!(ops.len(), 6);
            assert!(area(&ops[2]).height <= 1);
            assert!(area(&ops[3]).height <= 1);
            assert_eq!(area(&ops[4]).height, 0);
            assert!(matches!(&ops[4], DrawOp::Lines { lines, .. } if lines.is_empty()));
            assert!(area(&ops[5]).height <= 1);
        }
    }
}
