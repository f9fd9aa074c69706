//! Plain text: lines, blank lines, padding and decimal numbers.

use std::borrow::Cow;
use vstd::prelude::*;
use vstd::std_specs::iter::IteratorSpec;
use vstd::string::*;
use vstd::utf8::*;

verus! {

/// The characters with the Unicode `White_Space` property.
pub open spec fn is_whitespace(c: char) -> bool {
    ||| '\u{9}' <= c <= '\u{d}'
    ||| c == '\u{20}'
    ||| c == '\u{85}'
    ||| c == '\u{a0}'
    ||| c == '\u{1680}'
    ||| '\u{2000}' <= c <= '\u{200a}'
    ||| c == '\u{2028}'
    ||| c == '\u{2029}'
    ||| c == '\u{202f}'
    ||| c == '\u{205f}'
    ||| c == '\u{3000}'
}

/// Text that shows nothing: it is empty or all of its characters are whitespace.
pub open spec fn is_blank(s: Seq<char>) -> bool {
    forall|i: int| 0 <= i < s.len() ==> is_whitespace(#[trigger] s[i])
}

/// The number of characters before the first line feed, or all of them.
pub open spec fn first_newline(s: Seq<char>) -> nat
    decreases s.len(),
{
    if s.len() == 0 || s[0] == '\n' {
        0
    } else {
        1 + first_newline(s.drop_first())
    }
}

/// A line without the carriage return that belongs to its line ending.
pub open spec fn without_cr(line: Seq<char>) -> Seq<char> {
    if line.len() > 0 && line.last() == '\r' {
        line.drop_last()
    } else {
        line
    }
}

/// The lines of a text. A line ends with a line feed, or with a carriage return and a line
/// feed, neither of which is part of it. The ending of the last line is optional.
pub open spec fn text_lines(s: Seq<char>) -> Seq<Seq<char>>
    decreases s.len(),
{
    let n = first_newline(s) as int;
    if s.len() == 0 {
        seq![]
    } else if n >= s.len() {
        seq![s]
    } else {
        seq![without_cr(s.take(n))] + text_lines(s.skip(n + 1))
    }
}

/// The contents of a sequence of string slices.
pub open spec fn str_views(lines: Seq<&str>) -> Seq<Seq<char>> {
    Seq::new(lines.len(), |i: int| lines[i]@)
}

pub(crate) proof fn lemma_encode_concat(a: Seq<char>, b: Seq<char>)
    ensures
        encode_utf8(a + b) == encode_utf8(a) + encode_utf8(b),
    decreases a.len(),
{
    if a.len() == 0 {
        assert(a + b =~= b);
    } else {
        assert((a + b).drop_first() =~= a.drop_first() + b);
        lemma_encode_concat(a.drop_first(), b);
        assert(encode_utf8(a + b) =~= encode_utf8(a) + encode_utf8(b));
    }
}

/// A byte below 0x80 stands alone in UTF-8: it encodes the character with its value.
proof fn lemma_ascii_byte(c: char)
    requires
        (c as u32) <= 0x7f,
    ensures
        encode_scalar(c as u32) == seq![c as u8],
{
    let v: u32 = c as u32;
    assert((v & 0x7f) as u8 == v as u8) by (bit_vector)
        requires
            v <= 0x7f,
    ;
}

proof fn lemma_first_ascii(s: Seq<char>)
    requires
        s.len() > 0,
        encode_utf8(s)[0] <= 0x7f,
    ensures
        s[0] as u32 == encode_utf8(s)[0] as u32,
        encode_utf8(s) == seq![encode_utf8(s)[0]] + encode_utf8(s.drop_first()),
{
    encode_utf8_first_scalar(s);
    let b = encode_utf8(s)[0];
    assert((b & 0x7f) as u32 == b as u32) by (bit_vector)
        requires
            b <= 0x7f,
    ;
    lemma_ascii_byte(s[0]);
}

/// Two strings that hold the two halves of a text's bytes hold the two halves of the text.
proof fn lemma_split_chars(whole: Seq<char>, left: Seq<char>, right: Seq<char>, mid: int)
    requires
        0 <= mid <= encode_utf8(whole).len(),
        encode_utf8(left) == encode_utf8(whole).subrange(0, mid),
        encode_utf8(right) == encode_utf8(whole).subrange(mid, encode_utf8(whole).len() as int),
    ensures
        whole == left + right,
{
    lemma_encode_concat(left, right);
    assert(encode_utf8(left + right) =~= encode_utf8(whole));
    encode_utf8_decode_utf8(left + right);
    encode_utf8_decode_utf8(whole);
}

proof fn lemma_no_newline_byte(s: Seq<char>)
    requires
        forall|i: int| 0 <= i < encode_utf8(s).len() ==> encode_utf8(s)[i] != 10u8,
    ensures
        !s.contains('\n'),
    decreases s.len(),
{
    if s.len() > 0 {
        let tail = s.drop_first();
        let head = encode_scalar(s[0] as u32);
        assert(encode_utf8(s) == head + encode_utf8(tail));
        assert forall|i: int| 0 <= i < encode_utf8(tail).len() implies encode_utf8(tail)[i]
            != 10u8 by {
            assert(encode_utf8(s)[head.len() + i] == encode_utf8(tail)[i]);
        }
        lemma_no_newline_byte(tail);
        if s[0] == '\n' {
            lemma_ascii_byte('\n');
            assert(encode_utf8(s)[0] == 10u8);
        }
        assert forall|i: int| 0 <= i < s.len() implies s[i] != '\n' by {
            if i > 0 {
                assert(tail[i - 1] == s[i]);
                assert(tail.contains(tail[i - 1]));
            }
        }
    }
}

proof fn lemma_first_newline_none(s: Seq<char>)
    requires
        !s.contains('\n'),
    ensures
        first_newline(s) == s.len(),
    decreases s.len(),
{
    if s.len() > 0 {
        assert(s.contains(s[0]));
        assert forall|i: int| 0 <= i < s.drop_first().len() implies s.drop_first()[i] != '\n' by {
            assert(s.contains(s[i + 1]));
        }
        lemma_first_newline_none(s.drop_first());
    }
}

proof fn lemma_first_newline_at(s: Seq<char>, n: int)
    requires
        0 <= n < s.len(),
        s[n] == '\n',
        !s.take(n).contains('\n'),
    ensures
        first_newline(s) == n,
    decreases n,
{
    if n > 0 {
        assert(s.take(n).contains(s.take(n)[0]));
        let t = s.drop_first();
        let before = t.take(n - 1);
        assert forall|i: int| 0 <= i < before.len() implies before[i] != '\n' by {
            assert(s.take(n).contains(s.take(n)[i + 1]));
        }
        lemma_first_newline_at(t, n - 1);
    }
}

/// Splits a text at its first line feed, which belongs to neither part.
fn split_at_newline<'a>(s: &'a str) -> (res: Option<(&'a str, &'a str)>)
    ensures
        match res {
            Some((line, rest)) => {
                let n = first_newline(s@) as int;
                n < s@.len() && line@ == s@.take(n) && rest@ == s@.skip(n + 1)
            },
            None => first_newline(s@) == s@.len(),
        },
{
    let bytes = s.as_bytes();
    let mut i: usize = 0;
    while i < bytes.len() && bytes[i] != 10
        invariant
            bytes@ == encode_utf8(s@),
            i <= bytes@.len(),
            forall|j: int| 0 <= j < i ==> bytes@[j] != 10u8,
        decreases bytes@.len() - i,
    {
        i += 1;
    }
    if i == bytes.len() {
        proof {
            lemma_no_newline_byte(s@);
            lemma_first_newline_none(s@);
        }
        return None;
    }
    proof {
        encode_utf8_valid_utf8(s@);
        is_char_boundary_iff_not_is_continuation_byte(bytes@, i as int);
    }
    let (line, tail) = s.split_at(i);
    proof {
        let n = line@.len() as int;
        lemma_split_chars(s@, line@, tail@, i as int);
        assert(tail.spec_bytes()[0] == 10u8);
        assert(tail@.len() > 0);
        lemma_first_ascii(tail@);
        assert('\n' as u32 == 10u32);
        char_u32_cast('\n', 10u32);
        char_u32_cast(tail@[0], 10u32);
        encode_utf8_valid_utf8(tail@);
        reveal_with_fuel(is_char_boundary, 3);
        encode_utf8_first_scalar(tail@);
        assert(is_char_boundary(tail.spec_bytes(), 1));
        lemma_no_newline_byte(line@);
        assert(s@.take(n) =~= line@);
        assert(s@[n] == tail@[0]);
        lemma_first_newline_at(s@, n);
    }
    let (newline, rest) = tail.split_at(1);
    proof {
        lemma_split_chars(tail@, newline@, rest@, 1);
        assert(rest.spec_bytes() =~= encode_utf8(tail@.drop_first()));
        encode_utf8_decode_utf8(rest@);
        encode_utf8_decode_utf8(tail@.drop_first());
        assert(rest@ =~= s@.skip(line@.len() as int + 1));
    }
    Some((line, rest))
}

/// Takes off a carriage return at the end of a line.
fn strip_cr<'a>(line: &'a str) -> (res: &'a str)
    ensures
        res@ == without_cr(line@),
{
    let bytes = line.as_bytes();
    let len = bytes.len();
    if len == 0 || bytes[len - 1] != 13 {
        proof {
            if line@.len() > 0 && line@.last() == '\r' {
                assert(line@ =~= line@.drop_last() + seq!['\r']);
                lemma_encode_concat(line@.drop_last(), seq!['\r']);
                lemma_encode_cr();
                assert(encode_utf8(line@).last() == 13u8);
            }
        }
        return line;
    }
    proof {
        encode_utf8_valid_utf8(line@);
        is_char_boundary_iff_not_is_continuation_byte(bytes@, len - 1);
    }
    let (kept, cr) = line.split_at(len - 1);
    proof {
        lemma_split_chars(line@, kept@, cr@, len - 1);
        lemma_encode_cr();
        assert(cr.spec_bytes() =~= encode_utf8(seq!['\r']));
        encode_utf8_decode_utf8(cr@);
        encode_utf8_decode_utf8(seq!['\r']);
        assert(cr@ == seq!['\r']);
        assert(line@.drop_last() =~= kept@);
    }
    kept
}

proof fn lemma_encode_cr()
    ensures
        encode_utf8(seq!['\r']) == seq![13u8],
{
    lemma_ascii_byte('\r');
    reveal_with_fuel(encode_utf8, 2);
    assert(seq!['\r'].drop_first() =~= seq![]);
    assert(encode_utf8(seq!['\r']) =~= seq![13u8]);
}

/// The lines of a text, as slices of it.
pub fn split_lines<'a>(text: &'a str) -> (lines: Vec<&'a str>)
    ensures
        str_views(lines@) == text_lines(text@),
{
    let mut lines: Vec<&'a str> = Vec::new();
    let mut rest: &'a str = text;
    assert(str_views(lines@) + text_lines(rest@) =~= text_lines(text@));
    while !rest.is_empty()
        invariant
            str_views(lines@) + text_lines(rest@) == text_lines(text@),
        decreases rest@.len(),
    {
        let ghost before = lines@;
        match split_at_newline(rest) {
            Some((line, tail)) => {
                lines.push(strip_cr(line));
                assert(str_views(lines@) =~= str_views(before).push(without_cr(line@)));
                assert(str_views(lines@) + text_lines(tail@) =~= str_views(before) + text_lines(
                    rest@,
                ));
                rest = tail;
            },
            None => {
                lines.push(rest);
                assert(str_views(lines@) =~= str_views(before) + text_lines(rest@));
                return lines;
            },
        }
    }
    assert(str_views(lines@) + text_lines(rest@) =~= str_views(lines@));
    lines
}

/// Whether a character is whitespace.
fn whitespace(c: char) -> (res: bool)
    ensures
        res == is_whitespace(c),
{
    ('\u{9}' <= c && c <= '\u{d}') || c == '\u{20}' || c == '\u{85}' || c == '\u{a0}' || c
        == '\u{1680}' || ('\u{2000}' <= c && c <= '\u{200a}') || c == '\u{2028}' || c == '\u{2029}'
        || c == '\u{202f}' || c == '\u{205f}' || c == '\u{3000}'
}

/// Whether a text shows nothing.
pub fn blank(s: &str) -> (res: bool)
    ensures
        res == is_blank(s@),
{
    for c in it: s.chars()
        invariant
            it.seq() == s@,
            forall|i: int| 0 <= i < it.index() ==> is_whitespace(#[trigger] s@[i]),
    {
        if !whitespace(c) {
            return false;
        }
    }
    true
}

/// Whether a text starts with the given one.
pub fn has_prefix(s: &str, prefix: &str) -> (res: bool)
    ensures
        res == prefix@.is_prefix_of(s@),
{
    let mut chars = s.chars();
    let mut wanted = prefix.chars();
    let ghost mut matched: int = 0;
    loop
        invariant
            0 <= matched <= prefix@.len(),
            matched <= s@.len(),
            wanted.remaining() == prefix@.skip(matched),
            chars.remaining() == s@.skip(matched),
            prefix@.take(matched) == s@.take(matched),
        decreases prefix@.len() - matched,
    {
        match wanted.next() {
            None => {
                assert(prefix@.take(matched) =~= prefix@);
                return true;
            },
            Some(p) => {
                assert(p == prefix@[matched]);
                match chars.next() {
                    Some(c) => {
                        assert(c == s@[matched]);
                        if c != p {
                            proof {
                                if prefix@.is_prefix_of(s@) {
                                    assert(s@.subrange(0, prefix@.len() as int)[matched] == c);
                                }
                            }
                            return false;
                        }
                        proof {
                            assert(prefix@.skip(matched).drop_first() =~= prefix@.skip(matched + 1));
                            assert(s@.skip(matched).drop_first() =~= s@.skip(matched + 1));
                            assert(prefix@.take(matched + 1) =~= prefix@.take(matched).push(p));
                            assert(s@.take(matched + 1) =~= s@.take(matched).push(p));
                            matched = matched + 1;
                        }
                    },
                    None => {
                        return false;
                    },
                }
            },
        }
    }
}

/// Lines put together again, with a line feed between one and the next.
pub open spec fn joined(lines: Seq<Seq<char>>) -> Seq<char>
    decreases lines.len(),
{
    if lines.len() == 0 {
        seq![]
    } else if lines.len() == 1 {
        lines[0]
    } else {
        joined(lines.drop_last()) + seq!['\n'] + lines.last()
    }
}

/// Joins lines with a line feed between one and the next.
pub fn join_lines(lines: &[&str]) -> (text: String)
    ensures
        text@ == joined(str_views(lines@)),
{
    let mut text = String::new();
    let mut i: usize = 0;
    let ghost views = str_views(lines@);
    while i < lines.len()
        invariant
            i <= lines@.len(),
            views == str_views(lines@),
            text@ == joined(views.take(i as int)),
        decreases lines@.len() - i,
    {
        assert(views.take(i + 1).drop_last() =~= views.take(i as int));
        assert(views.take(i + 1).last() == lines@[i as int]@);
        if i > 0 {
            proof {
                reveal_strlit("\n");
                assert("\n"@ =~= seq!['\n']);
            }
            text.append("\n");
        } else {
            assert(views.take(0) =~= seq![]);
            assert(text@ + lines@[0]@ =~= lines@[0]@);
        }
        text.append(lines[i]);
        i += 1;
    }
    assert(views.take(lines@.len() as int) =~= views);
    text
}

/// A text filled up with spaces on the right to at least `width` characters.
pub open spec fn padded(s: Seq<char>, width: nat) -> Seq<char> {
    s + Seq::new((if s.len() < width { width - s.len() } else { 0 }) as nat, |i: int| ' ')
}

/// Fills a text up with spaces on the right to at least `width` characters.
pub fn pad_right(text: String, width: u16) -> (res: String)
    ensures
        res@ == padded(text@, width as nat),
{
    let len = text.as_str().unicode_len();
    let mut res = text;
    let mut filled: usize = len;
    assert(res@ =~= padded(text@, len as nat));
    while filled < width as usize
        invariant
            len == text@.len(),
            len <= filled,
            len < width ==> filled <= width,
            len >= width ==> filled == len,
            res@ == padded(text@, filled as nat),
        decreases width - filled,
    {
        proof {
            reveal_strlit(" ");
            assert(" "@ =~= seq![' ']);
        }
        res.append(" ");
        filled += 1;
        assert(res@ =~= padded(text@, filled as nat));
    }
    assert(padded(text@, filled as nat) =~= padded(text@, width as nat));
    res
}

/// The decimal digit of a number below ten.
pub open spec fn digit(d: nat) -> char {
    ('0' as u32 + d) as char
}

/// A number in decimal, without leading zeros.
pub open spec fn decimal(n: nat) -> Seq<char>
    decreases n,
{
    if n < 10 {
        seq![digit(n)]
    } else {
        decimal(n / 10).push(digit(n % 10))
    }
}

fn digit_text(d: usize) -> (res: &'static str)
    requires
        d < 10,
    ensures
        res@ == seq![digit(d as nat)],
{
    proof {
        reveal_strlit("0");
        reveal_strlit("1");
        reveal_strlit("2");
        reveal_strlit("3");
        reveal_strlit("4");
        reveal_strlit("5");
        reveal_strlit("6");
        reveal_strlit("7");
        reveal_strlit("8");
        reveal_strlit("9");
    }
    match d {
        0 => "0",
        1 => "1",
        2 => "2",
        3 => "3",
        4 => "4",
        5 => "5",
        6 => "6",
        7 => "7",
        8 => "8",
        _ => "9",
    }
}

/// Writes a number in decimal.
pub fn decimal_text(n: usize) -> (res: String)
    ensures
        res@ == decimal(n as nat),
    decreases n,
{
    if n < 10 {
        let mut res = String::new();
        res.append(digit_text(n));
        assert(res@ =~= decimal(n as nat));
        res
    } else {
        let mut res = decimal_text(n / 10);
        res.append(digit_text(n % 10));
        assert(res@ =~= decimal(n as nat));
        res
    }
}

/// The text that bytes hold where whatever is not UTF-8 among them is replaced by U+FFFD.
pub uninterp spec fn utf8_lossy(bytes: Seq<u8>) -> Seq<char>;

/// `String::from_utf8_lossy` of the standard library. Its result is a function of the bytes,
/// `utf8_lossy`. Bytes that are valid UTF-8 are the text that they encode, and no bytes but none
/// at all give an empty text; for bytes that are not valid UTF-8 nothing is said of where the
/// replacement characters stand.
pub assume_specification<'a>[ String::from_utf8_lossy ](v: &'a [u8]) -> (res: Cow<'a, str>)
    ensures
        res@ == utf8_lossy(v@),
        valid_utf8(v@) ==> res@ == decode_utf8(v@),
        v@.len() > 0 ==> res@.len() > 0,
;

/// The text behind a borrowed or owned string.
pub(crate) fn cow_text<'b, 'a>(text: &'b Cow<'a, str>) -> (res: &'b str)
    ensures
        res@ == text@,
{
    match text {
        Cow::Borrowed(s) => s,
        Cow::Owned(s) => s.as_str(),
    }
}

/// No line of a text holds a line feed.
pub proof fn law_lines_hold_no_newline(s: Seq<char>)
    ensures
        forall|i: int| 0 <= i < text_lines(s).len() ==> !(#[trigger] text_lines(s)[i]).contains('\n'),
    decreases s.len(),
{
    let n = first_newline(s) as int;
    lemma_before_first_newline(s);
    if s.len() > 0 && n < s.len() {
        law_lines_hold_no_newline(s.skip(n + 1));
        let head = without_cr(s.take(n));
        assert forall|i: int| 0 <= i < text_lines(s).len() implies !(#[trigger] text_lines(
            s,
        )[i]).contains('\n') by {
            if i == 0 {
                assert forall|k: int| 0 <= k < head.len() implies head[k] != '\n' by {
                    assert(s.take(n).contains(s.take(n)[k]));
                }
            } else {
                assert(text_lines(s)[i] == text_lines(s.skip(n + 1))[i - 1]);
            }
        }
    } else if s.len() > 0 {
        assert(s.take(n) =~= s);
    }
}

proof fn lemma_before_first_newline(s: Seq<char>)
    ensures
        first_newline(s) <= s.len(),
        !s.take(first_newline(s) as int).contains('\n'),
        first_newline(s) < s.len() ==> s[first_newline(s) as int] == '\n',
    decreases s.len(),
{
    if s.len() > 0 && s[0] != '\n' {
        let t = s.drop_first();
        let n = first_newline(s) as int;
        lemma_before_first_newline(t);
        let before = s.take(n);
        assert forall|k: int| 0 <= k < before.len() implies before[k] != '\n' by {
            if k > 0 {
                assert(t.take(n - 1)[k - 1] == before[k]);
                assert(t.take(n - 1).contains(t.take(n - 1)[k - 1]));
            }
        }
    }
}

proof fn lemma_joined_front(lines: Seq<Seq<char>>)
    requires
        lines.len() >= 2,
    ensures
        joined(lines) == lines[0] + seq!['\n'] + joined(lines.drop_first()),
    decreases lines.len(),
{
    if lines.len() == 2 {
        assert(lines.drop_last()[0] == lines[0]);
        assert(lines.drop_first()[0] == lines.last());
        assert(joined(lines.drop_last()) == lines[0]);
        assert(joined(lines.drop_first()) == lines.last());
    } else {
        lemma_joined_front(lines.drop_last());
        assert(lines.drop_first().drop_last() =~= lines.drop_last().drop_first());
        assert(joined(lines) =~= lines[0] + seq!['\n'] + joined(lines.drop_first()));
    }
}

/// Lines that are joined are read back as they were, but for a last line that is empty, which
/// leaves no trace. A line that is followed by another must not end with a carriage return,
/// which would become part of the line ending.
pub proof fn law_joined_lines_read_back(lines: Seq<Seq<char>>)
    requires
        lines.len() > 0,
        forall|i: int| 0 <= i < lines.len() ==> !(#[trigger] lines[i]).contains('\n'),
        forall|i: int|
            0 <= i < lines.len() - 1 ==> without_cr(#[trigger] lines[i]) == lines[i],
    ensures
        text_lines(joined(lines)) == (if lines.last().len() == 0 {
            lines.drop_last()
        } else {
            lines
        }),
    decreases lines.len(),
{
    let text = joined(lines);
    if lines.len() == 1 {
        assert(text == lines[0]);
        if text.len() > 0 {
            lemma_first_newline_none(text);
            assert(text_lines(text) =~= lines);
        } else {
            assert(text_lines(text) =~= lines.drop_last());
        }
    } else {
        let rest = lines.drop_first();
        let n = lines[0].len() as int;
        lemma_joined_front(lines);
        assert forall|i: int| 0 <= i < rest.len() implies !(#[trigger] rest[i]).contains(
            '\n',
        ) by {
            assert(rest[i] == lines[i + 1]);
        }
        assert forall|i: int| 0 <= i < rest.len() - 1 implies without_cr(#[trigger] rest[i])
            == rest[i] by {
            assert(rest[i] == lines[i + 1]);
        }
        law_joined_lines_read_back(rest);
        assert(text.take(n) =~= lines[0]);
        lemma_first_newline_at(text, n);
        assert(text.skip(n + 1) =~= joined(rest));
        assert(without_cr(lines[0]) == lines[0]);
        assert(text_lines(text) == seq![lines[0]] + text_lines(joined(rest)));
        if lines.last().len() == 0 {
            assert(text_lines(text) =~= lines.drop_last());
        } else {
            assert(text_lines(text) =~= lines);
        }
    }
}

/// The first lines of a text without carriage returns, joined, are a beginning of the text.
pub proof fn law_first_lines_are_a_prefix(s: Seq<char>, k: int)
    requires
        !s.contains('\r'),
        0 <= k <= text_lines(s).len(),
    ensures
        joined(text_lines(s).take(k)).is_prefix_of(s),
    decreases s.len(),
{
    let lines = text_lines(s);
    let first = lines.take(k);
    let n = first_newline(s) as int;
    if k == 0 {
        assert(joined(first) =~= seq![]);
        assert(joined(first) =~= s.subrange(0, 0));
    } else if n >= s.len() {
        assert(joined(first) == s);
        assert(s =~= s.subrange(0, s.len() as int));
    } else {
        let head = s.take(n);
        let tail = s.skip(n + 1);
        if head.len() > 0 && head.last() == '\r' {
            assert(s[n - 1] == '\r');
        }
        assert(lines[0] == head);
        lemma_before_first_newline(s);
        assert forall|i: int| 0 <= i < tail.len() implies tail[i] != '\r' by {
            assert(s.contains(s[i + n + 1]));
        }
        if k == 1 {
            assert(joined(first) == head);
            assert(head =~= s.subrange(0, n));
        } else {
            law_first_lines_are_a_prefix(tail, k - 1);
            lemma_joined_front(first);
            assert(first.drop_first() =~= text_lines(tail).take(k - 1));
            let more = joined(text_lines(tail).take(k - 1));
            assert(more == tail.subrange(0, more.len() as int));
            assert(joined(first) =~= s.subrange(0, joined(first).len() as int)) by {
                assert forall|i: int| 0 <= i < joined(first).len() implies joined(first)[i]
                    == s[i] by {
                    if i > n {
                        assert(more[i - n - 1] == tail[i - n - 1]);
                    }
                }
            }
        }
    }
}

/// Padding keeps the text, brings it to the width asked for with spaces, and does nothing to a
/// text that is that wide already.
pub proof fn law_padding(s: Seq<char>, width: nat)
    ensures
        padded(s, width).take(s.len() as int) == s,
        padded(s, width).len() == (if s.len() < width { width } else { s.len() }),
        forall|i: int| s.len() <= i < padded(s, width).len() ==> padded(s, width)[i] == ' ',
        is_blank(padded(s, width).skip(s.len() as int)),
        s.len() >= width ==> padded(s, width) == s,
{
    assert(padded(s, width).take(s.len() as int) =~= s);
}

/// The characters that count as whitespace, by their code points.
pub proof fn law_whitespace_characters(c: char)
    ensures
        ({
            let v = c as u32;
            is_whitespace(c) <==> {
                ||| 9 <= v <= 13
                ||| v == 32
                ||| v == 133
                ||| v == 160
                ||| v == 5760
                ||| 8192 <= v <= 8202
                ||| v == 8232
                ||| v == 8233
                ||| v == 8239
                ||| v == 8287
                ||| v == 12288
            }
        }),
{
}

/// No text is blank but one that is made of whitespace: nothing at all is blank, one character
/// is where it is whitespace, and two texts side by side are where both are.
pub proof fn law_blank_text(s: Seq<char>, t: Seq<char>, c: char)
    ensures
        is_blank(seq![]),
        is_blank(seq![c]) <==> is_whitespace(c),
        is_blank(s + t) <==> is_blank(s) && is_blank(t),
{
    if !is_whitespace(c) {
        assert(!is_whitespace(seq![c][0]));
    }
    let both = s + t;
    if is_blank(both) {
        assert forall|i: int| 0 <= i < s.len() implies is_whitespace(#[trigger] s[i]) by {
            assert(both[i] == s[i]);
        }
        assert forall|i: int| 0 <= i < t.len() implies is_whitespace(#[trigger] t[i]) by {
            assert(both[s.len() + i] == t[i]);
        }
    }
}

/// How a text falls into lines. Text without a line feed is one line, and none where it is empty.
/// Before a line feed, with or without a carriage return before that, stands a line; the lines of
/// what follows come after it.
pub proof fn law_lines_of_text(line: Seq<char>, rest: Seq<char>)
    requires
        !line.contains('\n'),
    ensures
        text_lines(seq![]) == Seq::<Seq<char>>::empty(),
        line.len() > 0 ==> text_lines(line) == seq![line],
        text_lines(line + seq!['\r', '\n'] + rest) == seq![line] + text_lines(rest),
        line.len() == 0 || line.last() != '\r' ==> text_lines(line + seq!['\n'] + rest) == seq![
            line,
        ] + text_lines(rest),
{
    let n = line.len() as int;
    if n > 0 {
        lemma_first_newline_none(line);
        assert(text_lines(line) =~= seq![line]);
    }
    let crlf = line + seq!['\r', '\n'] + rest;
    let before = crlf.take(n + 1);
    assert(before =~= line.push('\r'));
    assert forall|i: int| 0 <= i < before.len() implies before[i] != '\n' by {
        if i < n {
            assert(line.contains(line[i]));
        }
    }
    lemma_first_newline_at(crlf, n + 1);
    assert(before.drop_last() =~= line);
    assert(crlf.skip(n + 2) =~= rest);
    let lf = line + seq!['\n'] + rest;
    assert(lf.take(n) =~= line);
    lemma_first_newline_at(lf, n);
    assert(lf.skip(n + 1) =~= rest);
}

/// Joining puts one line feed between lines and nothing else: a single line is joined as it is,
/// and lines in two groups are the joined groups with a line feed between them.
pub proof fn law_joining(first: Seq<Seq<char>>, second: Seq<Seq<char>>, line: Seq<char>)
    ensures
        joined(seq![]) == Seq::<char>::empty(),
        joined(seq![line]) == line,
        first.len() > 0 && second.len() > 0 ==> joined(first + second) == joined(first) + seq![
            '\n',
        ] + joined(second),
    decreases second.len(),
{
    if first.len() > 0 && second.len() > 0 {
        let both = first + second;
        if second.len() == 1 {
            assert(both.drop_last() =~= first);
            assert(joined(second) == second[0]);
        } else {
            law_joining(first, second.drop_last(), line);
            assert(both.drop_last() =~= first + second.drop_last());
            assert(joined(both) =~= joined(first) + seq!['\n'] + joined(second));
        }
    }
}

/// The number that decimal digits stand for.
pub open spec fn number(digits: Seq<char>) -> nat
    decreases digits.len(),
{
    if digits.len() == 0 {
        0
    } else {
        number(digits.drop_last()) * 10 + (digits.last() as u32 - '0' as u32) as nat
    }
}

/// A number in decimal is made of digits, stands for the number, and does not start with a zero
/// unless the number is zero.
pub proof fn law_decimal(n: nat)
    ensures
        number(decimal(n)) == n,
        decimal(n).len() > 0,
        forall|i: int| 0 <= i < decimal(n).len() ==> '0' <= #[trigger] decimal(n)[i] <= '9',
        n > 0 ==> decimal(n)[0] != '0',
        n < 10 ==> decimal(n).len() == 1,
    decreases n,
{
    if n < 10 {
        assert(decimal(n).drop_last() =~= seq![]);
        reveal_with_fuel(number, 2);
    } else {
        law_decimal(n / 10);
        assert(decimal(n).drop_last() =~= decimal(n / 10));
        assert(decimal(n).last() == digit(n % 10));
    }
}

/// The contents of string slices are those of each of them, in order.
pub proof fn law_str_views(lines: Seq<&str>)
    ensures
        str_views(lines).len() == lines.len(),
        forall|i: int| 0 <= i < lines.len() ==> #[trigger] str_views(lines)[i] == lines[i]@,
{
}

} // verus!
