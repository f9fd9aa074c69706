use shell_popup::text::{
    blank, decimal_text, has_prefix, join_lines, pad_right, split_lines,
};

/// All strings over an alphabet, up to a length.
fn strings(alphabet: &[&str], max_len: usize) -> Vec<String> {
    let mut all = vec![String::new()];
    let mut last = all.clone();
    for _ in 0..max_len {
        let mut next = Vec::new();
        for s in &last {
            for c in alphabet {
                next.push(format!("{}{}", s, c));
            }
        }
        all.extend(next.iter().cloned());
        last = next;
    }
    all
}

#[test]
fn blank_knows_every_whitespace_character() {
    for code in 0..=0x10ffffu32 {
        if let Some(c) = char::from_u32(code) {
            let mut buf = [0u8; 4];
            let s: &str = c.encode_utf8(&mut buf);
            assert_eq!(blank(s), s.trim().is_empty(), "{:x}", code);
        }
    }
}

#[test]
fn blank_looks_at_all_characters() {
    assert!(blank(""));
    assert!(blank(" \t\r\u{3000}"));
    assert!(!blank("   x"));
    assert!(!blank("x   "));
    assert!(!blank("\u{200b}"));
}

#[test]
fn lines_end_with_lf_or_crlf() {
    assert_eq!(split_lines("a\nb\r\nc"), vec!["a", "b", "c"]);
    assert_eq!(split_lines("a\nb\n"), vec!["a", "b"]);
    assert_eq!(split_lines("a\r\r\nb\r"), vec!["a\r", "b\r"]);
    assert_eq!(split_lines("\n\n"), vec!["", ""]);
    let none: Vec<&str> = Vec::new();
    assert_eq!(split_lines(""), none);
}

#[test]
fn lines_agree_with_the_standard_library() {
    for s in strings(&["a", "\n", "\r", "\u{e9}", "\u{1f600}"], 6) {
        let expected: Vec<&str> = s.lines().collect();
        assert_eq!(split_lines(&s), expected, "{:?}", s);
    }
}

#[test]
fn joined_lines_read_back() {
    assert_eq!(join_lines(&["a", "", "b"]), "a\n\nb");
    assert_eq!(join_lines(&[]), "");
    assert_eq!(join_lines(&["x"]), "x");
    assert_eq!(split_lines(&join_lines(&["a", "", "b"])), vec!["a", "", "b"]);
    // A last line that is empty leaves no trace.
    assert_eq!(split_lines(&join_lines(&["a", "b", ""])), vec!["a", "b"]);
    // A carriage return at the end of a line becomes part of the line ending.
    assert_eq!(split_lines(&join_lines(&["a\r", "b"])), vec!["a", "b"]);
}

#[test]
fn first_lines_are_a_prefix() {
    for s in strings(&["a", "\n", " "], 6) {
        let lines = split_lines(&s);
        for k in 0..=lines.len() {
            assert!(s.starts_with(&join_lines(&lines[..k])));
        }
    }
    let text = "a\r\nb";
    let lines = split_lines(text);
    assert!(!text.starts_with(&join_lines(&lines)));
}

#[test]
fn padding_counts_characters() {
    assert_eq!(pad_right("ab".to_string(), 5), "ab   ");
    assert_eq!(pad_right("abcdef".to_string(), 5), "abcdef");
    assert_eq!(pad_right(String::new(), 0), "");
    for s in strings(&["a", "\u{e9}", "\u{26a0}"], 4) {
        for width in 0..8u16 {
            let expected = format!("{:<width$}", s, width = width as usize);
            assert_eq!(pad_right(s.clone(), width), expected);
        }
    }
}

#[test]
fn decimal_agrees_with_format() {
    for n in 0..2000usize {
        assert_eq!(decimal_text(n), format!("{}", n));
    }
    assert_eq!(decimal_text(usize::MAX), format!("{}", usize::MAX));
    assert_eq!(decimal_text(1090), "1090");
}

#[test]
fn prefix_agrees_with_the_standard_library() {
    for s in strings(&["+", "-", "\u{e9}"], 4) {
        for p in strings(&["+", "-", "\u{e9}"], 3) {
            assert_eq!(has_prefix(&s, &p), s.starts_with(&p));
        }
    }
}
