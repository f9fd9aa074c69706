use shell_popup::trim::{
    trim_content_to_cursor, trim_lines_to_cursor, trim_text_to_cursor, trim_trailing_empty_lines,
    try_trim_content_to_cursor, MAX_TRAILING_EMPTY_LINES,
};

#[test]
fn empty_input_keeps_nothing() {
    assert_eq!(trim_trailing_empty_lines(&[]), 0);
}

#[test]
fn a_small_buffer_of_empty_lines_is_kept() {
    assert_eq!(MAX_TRAILING_EMPTY_LINES, 3);
    assert_eq!(trim_trailing_empty_lines(&["a", "", "b"]), 3);
    assert_eq!(trim_trailing_empty_lines(&["a", "", " ", "\t"]), 4);
    assert_eq!(trim_trailing_empty_lines(&["a", "", "", "", "", ""]), 4);
    assert_eq!(trim_trailing_empty_lines(&["", "", "", "", ""]), 3);
    assert_eq!(trim_trailing_empty_lines(&["", ""]), 2);
}

#[test]
fn kept_lines_are_not_trimmed_further() {
    let lines = ["a", "", "b", "", "", "", "", "", ""];
    let keep = trim_trailing_empty_lines(&lines);
    assert_eq!(keep, 6);
    assert_eq!(trim_trailing_empty_lines(&lines[..keep]), keep);
}

#[test]
fn space_below_the_cursor_is_cut_off() {
    // A pane of four lines at the end of six; the cursor is in its second line.
    let lines = ["1", "2", "3", "4", "", ""];
    assert_eq!(trim_lines_to_cursor(&lines, Some((1, 4))), 4);
    assert_eq!(trim_lines_to_cursor(&lines, None), 6);
    // A cursor below the content keeps the blank lines up to it.
    assert_eq!(trim_lines_to_cursor(&lines, Some((2, 4))), 5);
    // A pane higher than the capture starts with its first line.
    assert_eq!(trim_lines_to_cursor(&lines, Some((4, 100))), 5);
    // A cursor outside the capture keeps all of it.
    assert_eq!(trim_lines_to_cursor(&lines, Some((100, 4))), 6);
}

#[test]
fn content_below_the_cursor_is_kept_whole() {
    let lines = ["1", "2", "", "4", "", "", "", "", ""];
    assert_eq!(trim_lines_to_cursor(&lines, Some((0, 9))), trim_lines_to_cursor(&lines, None));
    assert_eq!(trim_lines_to_cursor(&lines, Some((0, 9))), 7);
}

#[test]
fn a_pane_without_height_says_nothing() {
    let lines = ["1", "", "", "", "", ""];
    assert_eq!(trim_lines_to_cursor(&lines, Some((0, 0))), 4);
    assert_eq!(trim_lines_to_cursor(&lines, Some((usize::MAX, 0))), 4);
    assert_eq!(trim_lines_to_cursor(&[], Some((usize::MAX, 5))), 0);
}

#[test]
fn no_content_is_ever_trimmed() {
    // All captures of seven lines, each blank or not, with all cursors.
    for bits in 0..128u32 {
        let lines: Vec<&str> = (0..7).map(|i| if bits >> i & 1 == 1 { "x" } else { " " }).collect();
        for y in 0..9usize {
            for h in 0..9usize {
                let keep = trim_lines_to_cursor(&lines, Some((y, h)));
                assert!(lines[keep..].iter().all(|l| l.trim().is_empty()));
                assert!(keep > 0);
                assert!(keep <= trim_lines_to_cursor(&lines, None));
                let tail = lines[..keep].iter().rev().take_while(|l| l.trim().is_empty()).count();
                assert!(tail <= MAX_TRAILING_EMPTY_LINES);
            }
        }
    }
}

#[test]
fn text_is_joined_again_without_a_last_line_ending() {
    assert_eq!(trim_text_to_cursor("a\nb\n", None), "a\nb");
    assert_eq!(trim_text_to_cursor("a\r\nb\r\n", None), "a\nb");
    assert_eq!(trim_text_to_cursor("$ ls\n\n\n\n\n\n\n", Some((0, 7))), "$ ls");
    assert_eq!(trim_text_to_cursor("$ ls\n\n\n\n\n\n\n", None), "$ ls\n\n\n");
    assert_eq!(trim_text_to_cursor("", None), "");
}

#[test]
fn trimmed_text_is_stable_where_its_last_line_is_not_empty() {
    let once = trim_text_to_cursor("a\nb\n\n\n\n", Some((1, 5)));
    assert_eq!(once, "a\nb");
    assert_eq!(trim_text_to_cursor(&once, None), once);
    // Otherwise an empty line is lost each time.
    let blank = trim_text_to_cursor("a\n\n\n\n\n\n", None);
    assert_eq!(blank, "a\n\n\n");
    assert_eq!(trim_text_to_cursor(&blank, None), "a\n\n");
}

#[test]
fn content_is_trimmed_as_text() {
    let content = b"one\ntwo\n\n\n\n\n\n".to_vec();
    assert_eq!(trim_content_to_cursor(content.clone(), None), b"one\ntwo\n\n\n".to_vec());
    assert_eq!(trim_content_to_cursor(content, Some((1, 7))), b"one\ntwo".to_vec());
    assert_eq!(trim_content_to_cursor(Vec::new(), Some((3, 7))), Vec::<u8>::new());
    assert_eq!(trim_content_to_cursor("\u{e9}\n".as_bytes().to_vec(), None), "\u{e9}".as_bytes());
}

#[test]
fn bytes_that_are_not_utf8_are_replaced() {
    let content = b"a\xffb\n\n\n\n\n\n".to_vec();
    assert_eq!(trim_content_to_cursor(content, None), "a\u{fffd}b\n\n\n".as_bytes());
    for byte in 0x80..=0xffu8 {
        let trimmed = trim_content_to_cursor(vec![byte], None);
        assert_eq!(trimmed, "\u{fffd}".as_bytes());
    }
}

#[test]
fn a_cursor_that_cannot_be_counted_is_reported() {
    let content = b"one\ntwo\n\n".to_vec();
    assert_eq!(try_trim_content_to_cursor(content.clone(), Some((usize::MAX, 3))), None);
    assert_eq!(try_trim_content_to_cursor(content.clone(), Some((usize::MAX - 1, 2))), None);
    assert_eq!(
        try_trim_content_to_cursor(content.clone(), Some((usize::MAX - 2, 2))),
        Some(b"one\ntwo\n".to_vec())
    );
    assert_eq!(
        try_trim_content_to_cursor(content.clone(), Some((usize::MAX, 0))),
        Some(b"one\ntwo\n".to_vec())
    );
    assert_eq!(
        try_trim_content_to_cursor(content.clone(), Some((1, 3))),
        Some(trim_content_to_cursor(content, Some((1, 3))))
    );
    assert_eq!(try_trim_content_to_cursor(Vec::new(), Some((usize::MAX, 3))), Some(Vec::new()));
}

#[test]
fn trimmed_content_is_a_prefix_without_carriage_returns() {
    let content = "a\u{e9}\n\n b\n\n\n\n\n".as_bytes().to_vec();
    for cursor in [None, Some((2, 7)), Some((0, 7)), Some((4, 7))] {
        let trimmed = trim_content_to_cursor(content.clone(), cursor);
        assert!(content.starts_with(&trimmed));
        assert!(std::str::from_utf8(&trimmed).is_ok());
    }
    let crlf = b"a\r\nb".to_vec();
    assert_eq!(trim_content_to_cursor(crlf, None), b"a\nb".to_vec());
}
