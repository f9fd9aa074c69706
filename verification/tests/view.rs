use shell_popup::style::{Alignment, Color, Line, Span, Style};
use shell_popup::view::{compute_visible_lines, ShellPopupView};

fn line(text: &str) -> Line {
    Line {
        spans: vec![Span { content: text.to_string(), style: Style::default() }],
        style: Style::default(),
        alignment: None,
    }
}

fn lines(texts: &[&str]) -> Vec<Line> {
    texts.iter().map(|t| line(t)).collect()
}

fn texts(lines: &[Line]) -> Vec<String> {
    lines
        .iter()
        .map(|l| l.spans.iter().map(|s| s.content.as_str()).collect::<String>())
        .collect()
}

#[test]
fn the_bottom_shows_the_last_lines() {
    let (shown, start, total) = compute_visible_lines(lines(&["1", "2", "3", "4", "5"]), 2, 0);
    assert_eq!(texts(&shown), vec!["4", "5"]);
    assert_eq!((start, total), (3, 5));
}

#[test]
fn the_bottom_keeps_trailing_empty_lines() {
    let (shown, start, total) = compute_visible_lines(lines(&["1", "2", "", " "]), 3, 0);
    assert_eq!(texts(&shown), vec!["2", "", " "]);
    assert_eq!((start, total), (1, 4));
    // A positive offset is the bottom too.
    let (shown, start, total) = compute_visible_lines(lines(&["1", "2", "", " "]), 3, 9);
    assert_eq!(texts(&shown), vec!["2", "", " "]);
    assert_eq!((start, total), (1, 4));
}

#[test]
fn the_history_leaves_trailing_empty_lines_out() {
    let (shown, start, total) = compute_visible_lines(lines(&["1", "2", "3", "", " "]), 2, -1);
    assert_eq!(texts(&shown), vec!["1", "2"]);
    assert_eq!((start, total), (0, 3));
}

#[test]
fn content_of_blank_lines_only_is_shown_whole() {
    let (shown, start, total) = compute_visible_lines(lines(&["", " ", "", ""]), 2, -1);
    assert_eq!(texts(&shown), vec![" ", ""]);
    assert_eq!((start, total), (1, 4));
}

#[test]
fn the_first_line_stops_scrolling() {
    let (shown, start, total) = compute_visible_lines(lines(&["1", "2", "3", "4"]), 2, -100);
    assert_eq!(texts(&shown), vec!["1", "2"]);
    assert_eq!((start, total), (0, 4));
    let (_, start, _) = compute_visible_lines(lines(&["1", "2", "3", "4"]), 2, -i32::MAX);
    assert_eq!(start, 0);
}

#[test]
fn scrolling_moves_the_window_by_lines() {
    let all = lines(&["1", "2", "3", "4", "5", "6"]);
    for offset in 1..=6i32 {
        let (shown, start, _) = compute_visible_lines(all.clone(), 2, -offset);
        assert_eq!(start, 4usize.saturating_sub(offset as usize));
        assert_eq!(shown, all[start..start + 2].to_vec());
    }
}

#[test]
fn short_content_leaves_the_screen_partly_empty() {
    let (shown, start, total) = compute_visible_lines(lines(&["1", "2"]), 10, 0);
    assert_eq!(texts(&shown), vec!["1", "2"]);
    assert_eq!((start, total), (0, 2));
}

#[test]
fn no_content_counts_as_one_line() {
    let (shown, start, total) = compute_visible_lines(Vec::new(), 10, 0);
    assert!(shown.is_empty());
    assert_eq!((start, total), (0, 1));
    let (shown, start, total) = compute_visible_lines(Vec::new(), 0, 0);
    assert!(shown.is_empty());
    assert_eq!((start, total), (1, 1));
    let (shown, start, total) = compute_visible_lines(Vec::new(), 0, -1);
    assert!(shown.is_empty());
    assert_eq!((start, total), (0, 1));
}

#[test]
fn a_screen_without_height_shows_nothing() {
    let (shown, start, total) = compute_visible_lines(lines(&["1", "2", "3"]), 0, 0);
    assert!(shown.is_empty());
    assert_eq!((start, total), (3, 3));
}

#[test]
fn a_line_is_blank_where_all_of_its_spans_are() {
    let mut no_spans = line("");
    no_spans.spans.clear();
    let mut two = line(" ");
    two.spans.push(Span { content: "x".to_string(), style: Style::default() });
    let all = vec![line("1"), two, no_spans, line(" \t")];
    let (_, _, total) = compute_visible_lines(all, 1, -1);
    assert_eq!(total, 2);
}

#[test]
fn lines_keep_their_style() {
    let mut styled = line("x");
    styled.style = Style::default().bg(Color::Rgb(1, 2, 3));
    styled.spans[0].style = Style::default().fg(Color::Indexed(7));
    styled.alignment = Some(Alignment::Right);
    let (shown, _, _) = compute_visible_lines(vec![styled.clone()], 1, 0);
    assert_eq!(shown, vec![styled]);
}

#[test]
fn the_window_is_made_of_consecutive_lines() {
    for bits in 0..64u32 {
        let all: Vec<Line> =
            (0..6).map(|i| line(if bits >> i & 1 == 1 { "x" } else { " " })).collect();
        for height in 0..8usize {
            for offset in -8..2i32 {
                let (shown, start, total) = compute_visible_lines(all.clone(), height, offset);
                assert!(shown.len() <= height);
                assert!(total >= 1);
                if !shown.is_empty() {
                    assert_eq!(shown, all[start..start + shown.len()].to_vec());
                }
                if offset < 0 && bits != 0 {
                    assert_eq!(total, (32 - bits.leading_zeros()) as usize);
                    assert!(shown.is_empty() || start + shown.len() <= total);
                }
            }
        }
    }
}

#[test]
fn view_data_holds_what_was_computed() {
    let (shown, start_line, total_lines) = compute_visible_lines(lines(&["1", "2", "3"]), 2, 0);
    let view = ShellPopupView {
        title: "t".to_string(),
        lines: shown,
        start_line,
        total_lines,
        is_at_bottom: true,
    };
    assert_eq!(view.lines.len(), 2);
    assert_eq!(view.start_line, 1);
    assert_eq!(view.total_lines, 3);
    assert_eq!(view.title, "t");
    assert!(view.is_at_bottom);
}
