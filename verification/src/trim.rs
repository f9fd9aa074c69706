//! Trimming captured pane content: unused space below the cursor and trailing empty lines.

use crate::text::{
    blank, cow_text, is_blank, join_lines, joined, law_first_lines_are_a_prefix,
    law_joined_lines_read_back, law_lines_hold_no_newline, lemma_encode_concat, split_lines,
    str_views, text_lines, utf8_lossy, without_cr,
};
use vstd::prelude::*;
use vstd::string::*;
use vstd::utf8::*;

verus! {

/// Maximum number of trailing empty lines to keep after content
pub const MAX_TRAILING_EMPTY_LINES: usize = 3;

/// The number of lines up to the last one that is not blank, that one included.
pub open spec fn content_len(lines: Seq<Seq<char>>) -> nat
    decreases lines.len(),
{
    if lines.len() == 0 {
        0
    } else if !is_blank(lines.last()) {
        lines.len()
    } else {
        content_len(lines.drop_last())
    }
}

/// The number of lines that stay when trailing blank lines are trimmed to a small buffer.
pub open spec fn kept_len(lines: Seq<Seq<char>>) -> nat {
    if content_len(lines) + MAX_TRAILING_EMPTY_LINES < lines.len() {
        content_len(lines) + MAX_TRAILING_EMPTY_LINES as nat
    } else {
        lines.len()
    }
}

/// Whether every line from `start` on is blank.
pub open spec fn blank_from(lines: Seq<Seq<char>>, start: int) -> bool {
    forall|i: int| start <= i < lines.len() ==> is_blank(#[trigger] lines[i])
}

/// The line of a capture of `total` lines in which the cursor stands: the capture ends at the
/// bottom of a pane of `pane_height` lines, and the cursor is `cursor_y` lines below its top.
pub open spec fn cursor_line(total: nat, cursor_y: usize, pane_height: usize) -> int {
    (if total > pane_height { total - pane_height } else { 0 }) + cursor_y
}

/// Whether the number of lines up to the cursor can be counted in a `usize`.
pub open spec fn cursor_fits(total: nat, cursor_info: Option<(usize, usize)>) -> bool {
    match cursor_info {
        Some((cursor_y, pane_height)) => total > 0 && pane_height > 0 ==> cursor_line(
            total,
            cursor_y,
            pane_height,
        ) + 1 <= usize::MAX,
        None => true,
    }
}

/// The number of lines that stay when a capture is cut off below the cursor: all of them where
/// the cursor is not known or something is shown below it.
pub open spec fn cursor_len(lines: Seq<Seq<char>>, cursor_info: Option<(usize, usize)>) -> nat {
    match cursor_info {
        Some((cursor_y, pane_height)) => {
            let end = cursor_line(lines.len(), cursor_y, pane_height) + 1;
            if pane_height > 0 && end < lines.len() && blank_from(lines, end) {
                end as nat
            } else {
                lines.len()
            }
        },
        None => lines.len(),
    }
}

/// The number of lines of a capture that stay: it is cut off below the cursor, then trailing
/// blank lines are trimmed.
pub open spec fn trimmed_len(lines: Seq<Seq<char>>, cursor_info: Option<(usize, usize)>) -> nat {
    kept_len(lines.take(cursor_len(lines, cursor_info) as int))
}

/// The text of a capture after trimming.
pub open spec fn trimmed_text(text: Seq<char>, cursor_info: Option<(usize, usize)>) -> Seq<char> {
    let lines = text_lines(text);
    joined(lines.take(trimmed_len(lines, cursor_info) as int))
}

/// The bytes of a capture after trimming, where `text` is what they hold. Bytes that hold no
/// line stay as they are.
pub open spec fn trimmed_content(
    content: Seq<u8>,
    text: Seq<char>,
    cursor_info: Option<(usize, usize)>,
) -> Seq<u8> {
    if text_lines(text).len() == 0 {
        content
    } else {
        encode_utf8(trimmed_text(text, cursor_info))
    }
}

/// Trim excessive trailing empty lines, keeping a small buffer for the prompt area.
///
/// # Arguments
/// * `lines` - Slice of line strings to process
///
/// # Returns
/// The number of lines to keep (index to slice up to)
pub fn trim_trailing_empty_lines(lines: &[&str]) -> (keep: usize)
    ensures
        keep == kept_len(str_views(lines@)),
{
    let total = lines.len();
    let ghost views = str_views(lines@);
    let mut content: usize = total;
    assert(views.take(total as int) =~= views);
    while content > 0 && blank(lines[content - 1])
        invariant
            content <= total,
            total == lines@.len(),
            views == str_views(lines@),
            content_len(views) == content_len(views.take(content as int)),
        decreases content,
    {
        assert(views.take(content as int).drop_last() =~= views.take(content - 1));
        content -= 1;
    }
    assert(content_len(views) == content);
    if total - content > MAX_TRAILING_EMPTY_LINES {
        content + MAX_TRAILING_EMPTY_LINES
    } else {
        total
    }
}

/// Whether every line from `start` on is blank.
fn all_blank_from(lines: &[&str], start: usize) -> (res: bool)
    requires
        start <= lines@.len(),
    ensures
        res == blank_from(str_views(lines@), start as int),
{
    let ghost views = str_views(lines@);
    let mut i: usize = start;
    while i < lines.len()
        invariant
            start <= i <= lines@.len(),
            views == str_views(lines@),
            forall|j: int| start <= j < i ==> is_blank(#[trigger] views[j]),
        decreases lines@.len() - i,
    {
        if !blank(lines[i]) {
            assert(!is_blank(views[i as int]));
            return false;
        }
        i += 1;
    }
    true
}

/// The number of lines of a capture to keep, given where the cursor is.
///
/// # Arguments
/// * `lines` - The lines of the capture
/// * `cursor_info` - Optional (cursor_y, pane_height)
pub fn trim_lines_to_cursor(lines: &[&str], cursor_info: Option<(usize, usize)>) -> (keep: usize)
    requires
        cursor_fits(lines@.len(), cursor_info),
    ensures
        keep == trimmed_len(str_views(lines@), cursor_info),
{
    let total = lines.len();
    let ghost views = str_views(lines@);
    let mut end: usize = total;
    if let Some((cursor_y, pane_height)) = cursor_info {
        if total > 0 && pane_height > 0 {
            // The capture ends at the bottom of the visible pane.
            let visible_pane_start = total.saturating_sub(pane_height);
            let below_cursor = visible_pane_start + cursor_y + 1;
            // Content below the cursor is kept: a full-screen program may place the cursor in
            // the middle of what it shows.
            if below_cursor < total && all_blank_from(lines, below_cursor) {
                end = below_cursor;
            }
        }
    }
    assert(end == cursor_len(views, cursor_info));
    let (above, _) = lines.split_at(end);
    assert(str_views(above@) =~= views.take(end as int));
    trim_trailing_empty_lines(above)
}

/// Trims the text of a capture to the lines up to the cursor position.
pub fn trim_text_to_cursor(text: &str, cursor_info: Option<(usize, usize)>) -> (res: String)
    requires
        cursor_fits(text_lines(text@).len(), cursor_info),
    ensures
        res@ == trimmed_text(text@, cursor_info),
{
    let lines = split_lines(text);
    let slice = lines.as_slice();
    assert(str_views(slice@).len() == slice@.len());
    let keep = trim_lines_to_cursor(slice, cursor_info);
    proof {
        lemma_trimmed_len_bound(str_views(slice@), cursor_info);
    }
    let (kept, _) = slice.split_at(keep);
    assert(str_views(kept@) =~= text_lines(text@).take(keep as int));
    join_lines(kept)
}

/// Trim captured content to only include lines up to the cursor position.
/// This removes unused pane buffer space below the cursor.
///
/// # Arguments
/// * `content` - Raw captured pane content as bytes
/// * `cursor_info` - Optional (cursor_y, pane_height) from tmux
///
/// # Returns
/// Trimmed content with empty buffer space removed
pub fn trim_content_to_cursor(content: Vec<u8>, cursor_info: Option<(usize, usize)>) -> (res: Vec<
    u8,
>)
    requires
        cursor_fits(text_lines(utf8_lossy(content@)).len(), cursor_info),
    ensures
        res@ == trimmed_content(content@, utf8_lossy(content@), cursor_info),
        valid_utf8(content@) ==> res@ == trimmed_content(
            content@,
            decode_utf8(content@),
            cursor_info,
        ),
        valid_utf8(res@),
        decode_utf8(res@) == trimmed_text(utf8_lossy(content@), cursor_info),
        content@.len() > 0 ==> trimmed_len(text_lines(utf8_lossy(content@)), cursor_info) > 0,
{
    let decoded = String::from_utf8_lossy(content.as_slice());
    let text = cow_text(&decoded);
    proof {
        law_trimmed_content_is_utf8(content@, text@, cursor_info);
        if content@.len() > 0 {
            law_some_line_is_kept(text_lines(text@), cursor_info);
        }
    }
    if text.is_empty() {
        return content;
    }
    let trimmed = trim_text_to_cursor(text, cursor_info);
    trimmed.as_str().as_bytes_vec()
}

/// Trims captured content as `trim_content_to_cursor` does, for any cursor position: the result
/// is `None` where the number of lines up to the cursor is more than a `usize` can hold.
pub fn try_trim_content_to_cursor(
    content: Vec<u8>,
    cursor_info: Option<(usize, usize)>,
) -> (res: Option<Vec<u8>>)
    ensures
        res is Some <==> cursor_fits(text_lines(utf8_lossy(content@)).len(), cursor_info),
        res matches Some(bytes) ==> bytes@ == trimmed_content(
            content@,
            utf8_lossy(content@),
            cursor_info,
        ) && (valid_utf8(content@) ==> bytes@ == trimmed_content(
            content@,
            decode_utf8(content@),
            cursor_info,
        )) && valid_utf8(bytes@) && decode_utf8(bytes@) == trimmed_text(
            utf8_lossy(content@),
            cursor_info,
        ) && (content@.len() > 0 ==> trimmed_len(
            text_lines(utf8_lossy(content@)),
            cursor_info,
        ) > 0),
{
    let decoded = String::from_utf8_lossy(content.as_slice());
    let lines = split_lines(cow_text(&decoded));
    assert(str_views(lines@).len() == lines@.len());
    let total = lines.len();
    if let Some((cursor_y, pane_height)) = cursor_info {
        if total > 0 && pane_height > 0 {
            let visible_pane_start = total.saturating_sub(pane_height);
            if cursor_y >= usize::MAX - visible_pane_start {
                return None;
            }
        }
    }
    Some(trim_content_to_cursor(content, cursor_info))
}

proof fn lemma_content_len(lines: Seq<Seq<char>>)
    ensures
        content_len(lines) <= lines.len(),
        blank_from(lines, content_len(lines) as int),
        content_len(lines) > 0 ==> !is_blank(lines[content_len(lines) - 1]),
    decreases lines.len(),
{
    if lines.len() > 0 && is_blank(lines.last()) {
        lemma_content_len(lines.drop_last());
        assert forall|i: int| content_len(lines) <= i < lines.len() implies is_blank(
            #[trigger] lines[i],
        ) by {
            if i < lines.len() - 1 {
                assert(lines.drop_last()[i] == lines[i]);
            }
        }
    }
}

proof fn lemma_trimmed_len_bound(lines: Seq<Seq<char>>, cursor_info: Option<(usize, usize)>)
    ensures
        trimmed_len(lines, cursor_info) <= cursor_len(lines, cursor_info) <= lines.len(),
{
    lemma_content_len(lines.take(cursor_len(lines, cursor_info) as int));
}

proof fn lemma_content_len_of_prefix(lines: Seq<Seq<char>>, end: int)
    requires
        0 <= end <= lines.len(),
        blank_from(lines, end),
    ensures
        content_len(lines.take(end)) == content_len(lines),
    decreases lines.len(),
{
    if end == lines.len() {
        assert(lines.take(end) =~= lines);
    } else {
        let shorter = lines.drop_last();
        assert forall|i: int| end <= i < shorter.len() implies is_blank(#[trigger] shorter[i]) by {
            assert(shorter[i] == lines[i]);
        }
        lemma_content_len_of_prefix(shorter, end);
        assert(shorter.take(end) =~= lines.take(end));
    }
}

/// Trimming trailing empty lines drops blank lines only.
pub proof fn law_trimming_drops_blank_lines_only(lines: Seq<Seq<char>>)
    ensures
        kept_len(lines) <= lines.len(),
        blank_from(lines, kept_len(lines) as int),
{
    lemma_content_len(lines);
}

/// Of the lines that are kept, at most `MAX_TRAILING_EMPTY_LINES` at the end are blank.
pub proof fn law_trailing_blank_lines_are_limited(lines: Seq<Seq<char>>)
    ensures
        kept_len(lines) > MAX_TRAILING_EMPTY_LINES ==> !blank_from(
            lines.take(kept_len(lines) as int),
            kept_len(lines) - MAX_TRAILING_EMPTY_LINES - 1,
        ),
{
    lemma_content_len(lines);
    let kept = lines.take(kept_len(lines) as int);
    if kept.len() > MAX_TRAILING_EMPTY_LINES {
        let last = content_len(lines) - 1;
        assert(kept[last] == lines[last]);
    }
}

/// Lines that were trimmed are not trimmed further.
pub proof fn law_trimming_is_stable(lines: Seq<Seq<char>>)
    ensures
        kept_len(lines.take(kept_len(lines) as int)) == kept_len(lines),
{
    lemma_content_len(lines);
    lemma_content_len_of_prefix(lines, kept_len(lines) as int);
}

/// Whatever is known of the cursor, trimming a capture drops blank lines only.
pub proof fn law_no_content_is_trimmed(
    lines: Seq<Seq<char>>,
    cursor_info: Option<(usize, usize)>,
)
    ensures
        trimmed_len(lines, cursor_info) <= lines.len(),
        blank_from(lines, trimmed_len(lines, cursor_info) as int),
{
    let end = cursor_len(lines, cursor_info) as int;
    let above = lines.take(end);
    lemma_content_len(above);
    assert forall|i: int| trimmed_len(lines, cursor_info) <= i < lines.len() implies is_blank(
        #[trigger] lines[i],
    ) by {
        if i < end {
            assert(above[i] == lines[i]);
        }
    }
}

/// Where only blank lines follow the cursor, nothing below the line of the cursor is kept.
pub proof fn law_blank_space_below_the_cursor_is_cut_off(
    lines: Seq<Seq<char>>,
    cursor_y: usize,
    pane_height: usize,
)
    requires
        pane_height > 0,
        blank_from(lines, cursor_line(lines.len(), cursor_y, pane_height) + 1),
    ensures
        trimmed_len(lines, Some((cursor_y, pane_height))) <= cursor_line(
            lines.len(),
            cursor_y,
            pane_height,
        ) + 1,
{
    lemma_trimmed_len_bound(lines, Some((cursor_y, pane_height)));
}

/// Where something is shown below the cursor, the cursor has no effect.
pub proof fn law_content_below_the_cursor_is_kept(
    lines: Seq<Seq<char>>,
    cursor_y: usize,
    pane_height: usize,
)
    requires
        !blank_from(lines, cursor_line(lines.len(), cursor_y, pane_height) + 1),
    ensures
        trimmed_len(lines, Some((cursor_y, pane_height))) == trimmed_len(lines, None),
{
}

/// Without a cursor a capture loses its excessive trailing empty lines, and a cursor never
/// makes it longer.
pub proof fn law_cursor_only_shortens(lines: Seq<Seq<char>>, cursor_info: Option<(usize, usize)>)
    ensures
        trimmed_len(lines, None) == kept_len(lines),
        trimmed_len(lines, cursor_info) <= trimmed_len(lines, None),
{
    let end = cursor_len(lines, cursor_info) as int;
    assert(lines.take(lines.len() as int) =~= lines);
    lemma_content_len(lines);
    if end < lines.len() {
        lemma_content_len_of_prefix(lines, end);
    }
}

/// A capture that holds a line keeps one.
pub proof fn law_some_line_is_kept(lines: Seq<Seq<char>>, cursor_info: Option<(usize, usize)>)
    requires
        lines.len() > 0,
    ensures
        trimmed_len(lines, cursor_info) > 0,
{
}

/// The lines of a trimmed capture are the lines that were kept, but for a last one that is
/// empty. A kept line that is followed by another must not end with a carriage return.
pub proof fn law_trimmed_text_holds_the_kept_lines(
    text: Seq<char>,
    cursor_info: Option<(usize, usize)>,
)
    requires
        text.len() > 0,
        forall|i: int|
            0 <= i < trimmed_len(text_lines(text), cursor_info) - 1 ==> without_cr(
                #[trigger] text_lines(text)[i],
            ) == text_lines(text)[i],
    ensures
        ({
            let lines = text_lines(text);
            let kept = lines.take(trimmed_len(lines, cursor_info) as int);
            text_lines(trimmed_text(text, cursor_info)) == (if kept.last().len() == 0 {
                kept.drop_last()
            } else {
                kept
            })
        }),
{
    let lines = text_lines(text);
    let kept = lines.take(trimmed_len(lines, cursor_info) as int);
    lemma_trimmed_len_bound(lines, cursor_info);
    law_some_line_is_kept(lines, cursor_info);
    law_lines_hold_no_newline(text);
    assert forall|i: int| 0 <= i < kept.len() implies !(#[trigger] kept[i]).contains('\n') by {
        assert(kept[i] == lines[i]);
    }
    assert forall|i: int| 0 <= i < kept.len() - 1 implies without_cr(#[trigger] kept[i])
        == kept[i] by {
        assert(kept[i] == lines[i]);
    }
    law_joined_lines_read_back(kept);
}

/// Trimming a text a second time, with no cursor, changes nothing where the first time left a
/// last line that is not empty.
pub proof fn law_trimmed_text_is_stable(text: Seq<char>, cursor_info: Option<(usize, usize)>)
    requires
        text.len() > 0,
        forall|i: int|
            0 <= i < trimmed_len(text_lines(text), cursor_info) - 1 ==> without_cr(
                #[trigger] text_lines(text)[i],
            ) == text_lines(text)[i],
        text_lines(text)[trimmed_len(text_lines(text), cursor_info) - 1].len() > 0,
    ensures
        trimmed_text(trimmed_text(text, cursor_info), None) == trimmed_text(text, cursor_info),
{
    let lines = text_lines(text);
    let above = lines.take(cursor_len(lines, cursor_info) as int);
    let kept = lines.take(trimmed_len(lines, cursor_info) as int);
    lemma_trimmed_len_bound(lines, cursor_info);
    law_some_line_is_kept(lines, cursor_info);
    law_trimmed_text_holds_the_kept_lines(text, cursor_info);
    law_trimming_is_stable(above);
    assert(above.take(kept_len(above) as int) =~= kept);
    law_cursor_only_shortens(kept, None);
    assert(kept.take(kept.len() as int) =~= kept);
}

/// Trimming a text without carriage returns takes something off its end and changes nothing
/// else.
pub proof fn law_trimmed_text_is_a_prefix(text: Seq<char>, cursor_info: Option<(usize, usize)>)
    requires
        !text.contains('\r'),
    ensures
        trimmed_text(text, cursor_info).is_prefix_of(text),
{
    lemma_trimmed_len_bound(text_lines(text), cursor_info);
    law_first_lines_are_a_prefix(text, trimmed_len(text_lines(text), cursor_info) as int);
}

/// Whatever bytes a capture holds, the trimmed ones are valid UTF-8 and hold the trimmed text.
/// The text of a capture is empty only where the capture is.
pub proof fn law_trimmed_content_is_utf8(
    content: Seq<u8>,
    text: Seq<char>,
    cursor_info: Option<(usize, usize)>,
)
    requires
        content.len() > 0 ==> text.len() > 0,
    ensures
        valid_utf8(trimmed_content(content, text, cursor_info)),
        decode_utf8(trimmed_content(content, text, cursor_info)) == trimmed_text(
            text,
            cursor_info,
        ),
{
    if text.len() == 0 {
        lemma_trimmed_len_bound(text_lines(text), cursor_info);
        assert(content =~= encode_utf8(trimmed_text(text, cursor_info)));
    }
    encode_utf8_valid_utf8(trimmed_text(text, cursor_info));
    encode_utf8_decode_utf8(trimmed_text(text, cursor_info));
}

/// Trimming a capture that is valid UTF-8 without carriage returns takes bytes off its end and
/// changes nothing else.
pub proof fn law_trimmed_content_is_a_prefix(
    content: Seq<u8>,
    cursor_info: Option<(usize, usize)>,
)
    requires
        valid_utf8(content),
        !decode_utf8(content).contains('\r'),
    ensures
        trimmed_content(content, decode_utf8(content), cursor_info).is_prefix_of(content),
{
    let text = decode_utf8(content);
    decode_utf8_encode_utf8(content);
    if text_lines(text).len() > 0 {
        law_trimmed_text_is_a_prefix(text, cursor_info);
        let kept = trimmed_text(text, cursor_info);
        let rest = text.skip(kept.len() as int);
        assert(text =~= kept + rest);
        lemma_encode_concat(kept, rest);
        assert(encode_utf8(kept) =~= content.subrange(0, encode_utf8(kept).len() as int));
    } else {
        assert(content =~= content.subrange(0, content.len() as int));
    }
}

/// Whether lines are content followed by blank lines: the content ends with a line that is not
/// blank, or there is none.
pub open spec fn content_then_blanks(
    lines: Seq<Seq<char>>,
    content: Seq<Seq<char>>,
    blanks: Seq<Seq<char>>,
) -> bool {
    &&& lines == content + blanks
    &&& content.len() == 0 || !is_blank(content.last())
    &&& forall|i: int| 0 <= i < blanks.len() ==> is_blank(#[trigger] blanks[i])
}

/// The number of blank lines that stay of those that follow the content: three, or all where
/// there are fewer.
pub open spec fn buffer_len(blanks: Seq<Seq<char>>) -> int {
    if blanks.len() < 3 {
        blanks.len() as int
    } else {
        3
    }
}

/// All content is kept, and of the blank lines that follow it the first three: fewer only where
/// there are fewer, and never more.
pub proof fn law_content_and_a_buffer_are_kept(
    lines: Seq<Seq<char>>,
    content: Seq<Seq<char>>,
    blanks: Seq<Seq<char>>,
)
    requires
        content_then_blanks(lines, content, blanks),
    ensures
        MAX_TRAILING_EMPTY_LINES == 3,
        content_len(lines) == content.len(),
        kept_len(lines) == content.len() + buffer_len(blanks),
        kept_len(lines) < lines.len() ==> kept_len(lines) - content.len()
            == MAX_TRAILING_EMPTY_LINES,
        blanks.len() <= MAX_TRAILING_EMPTY_LINES ==> kept_len(lines) == lines.len(),
{
    lemma_content_len(lines);
    let n = content_len(lines) as int;
    if n > content.len() {
        assert(lines[n - 1] == blanks[n - 1 - content.len()]);
    }
    if n < content.len() {
        assert(lines[content.len() - 1] == content.last());
    }
}

/// A line is dropped only where as many blank lines as may be kept come right before it or
/// between it and what is kept.
pub proof fn law_only_lines_behind_the_buffer_are_dropped(lines: Seq<Seq<char>>, dropped: int)
    requires
        kept_len(lines) <= dropped < lines.len(),
    ensures
        dropped >= MAX_TRAILING_EMPTY_LINES,
        kept_len(lines) >= MAX_TRAILING_EMPTY_LINES,
        forall|i: int|
            kept_len(lines) - MAX_TRAILING_EMPTY_LINES <= i <= dropped ==> is_blank(
                #[trigger] lines[i],
            ),
{
    lemma_content_len(lines);
}

/// Where the cursor stands, counted from the bottom of the pane: as many lines of a capture that
/// fills the pane come after the cursor as of the pane. A lower capture starts at its top.
pub proof fn law_cursor_is_counted_from_the_bottom(
    total: nat,
    cursor_y: usize,
    pane_height: usize,
)
    ensures
        total >= pane_height ==> total - cursor_line(total, cursor_y, pane_height) == pane_height
            - cursor_y,
        total < pane_height ==> cursor_line(total, cursor_y, pane_height) == cursor_y,
{
}

/// A cursor can be counted wherever it stands in the pane, and wherever nothing is known of it
/// or nothing was captured; otherwise exactly where the lines up to it fit in a `usize`.
pub proof fn law_cursors_that_fit(total: nat, cursor_y: usize, pane_height: usize)
    requires
        total <= usize::MAX,
    ensures
        cursor_fits(total, None),
        cursor_fits(0, Some((cursor_y, pane_height))),
        cursor_fits(total, Some((cursor_y, 0))),
        cursor_y < pane_height ==> cursor_fits(total, Some((cursor_y, pane_height))),
        total > 0 && 0 < pane_height <= total ==> (cursor_fits(
            total,
            Some((cursor_y, pane_height)),
        ) <==> total - pane_height + cursor_y < usize::MAX),
        total > 0 && pane_height > total ==> (cursor_fits(total, Some((cursor_y, pane_height)))
            <==> cursor_y < usize::MAX),
{
}

/// A capture is cut off right below the cursor where only blank lines follow, and not at all where
/// something is shown below it; what is left is trimmed like any other lines. The capture is
/// `above`, which ends with the line of the cursor, and `below`.
pub proof fn law_capture_is_cut_off_below_the_cursor(
    above: Seq<Seq<char>>,
    below: Seq<Seq<char>>,
    cursor_y: usize,
    pane_height: usize,
)
    requires
        pane_height > 0,
        above.len() + below.len() >= pane_height ==> below.len() == pane_height - cursor_y - 1,
        above.len() + below.len() < pane_height ==> above.len() == cursor_y + 1,
    ensures
        blank_from(below, 0) ==> trimmed_len(above + below, Some((cursor_y, pane_height)))
            == kept_len(above),
        !blank_from(below, 0) ==> trimmed_len(above + below, Some((cursor_y, pane_height)))
            == kept_len(above + below),
        !blank_from(below, 0) <==> exists|i: int|
            0 <= i < below.len() && !is_blank(#[trigger] below[i]),
{
    let lines = above + below;
    let end = above.len() as int;
    assert(cursor_line(lines.len(), cursor_y, pane_height) + 1 == end);
    assert(lines.take(end) =~= above);
    assert(lines.take(lines.len() as int) =~= lines);
    assert(blank_from(below, 0) <==> blank_from(lines, end)) by {
        if blank_from(below, 0) {
            assert forall|i: int| end <= i < lines.len() implies is_blank(#[trigger] lines[i]) by {
                assert(lines[i] == below[i - end]);
            }
        }
        if blank_from(lines, end) {
            assert forall|i: int| 0 <= i < below.len() implies is_blank(#[trigger] below[i]) by {
                assert(lines[end + i] == below[i]);
            }
        }
    }
}

/// Without a cursor, without a pane, or with a cursor on the last line or further down, a capture
/// is trimmed like any other lines.
pub proof fn law_cursor_without_effect(
    lines: Seq<Seq<char>>,
    cursor_y: usize,
    pane_height: usize,
)
    ensures
        trimmed_len(lines, None) == kept_len(lines),
        trimmed_len(lines, Some((cursor_y, 0))) == kept_len(lines),
        cursor_y + 1 >= pane_height && lines.len() >= pane_height ==> trimmed_len(
            lines,
            Some((cursor_y, pane_height)),
        ) == kept_len(lines),
        cursor_y + 1 >= lines.len() ==> trimmed_len(lines, Some((cursor_y, pane_height)))
            == kept_len(lines),
{
    assert(lines.take(lines.len() as int) =~= lines);
}

/// Where only blank lines follow the cursor, and its line is content or one of the first three
/// blank lines after the content, its line is kept and is the last one that is.
pub proof fn law_line_of_the_cursor_is_kept(
    content: Seq<Seq<char>>,
    blanks: Seq<Seq<char>>,
    below: Seq<Seq<char>>,
    cursor_y: usize,
    pane_height: usize,
)
    requires
        content_then_blanks(content + blanks, content, blanks),
        content.len() + blanks.len() > 0,
        blanks.len() <= 3,
        blank_from(below, 0),
        pane_height > 0,
        content.len() + blanks.len() + below.len() >= pane_height ==> below.len() == pane_height
            - cursor_y - 1,
        content.len() + blanks.len() + below.len() < pane_height ==> content.len() + blanks.len()
            == cursor_y + 1,
    ensures
        trimmed_len(content + blanks + below, Some((cursor_y, pane_height))) == content.len()
            + blanks.len(),
{
    law_capture_is_cut_off_below_the_cursor(content + blanks, below, cursor_y, pane_height);
    law_content_and_a_buffer_are_kept(content + blanks, content, blanks);
}

/// The trimmed text of a capture is its content and at most three of the blank lines after it,
/// joined: with no cursor of all lines, and with one of the lines above what is cut off.
pub proof fn law_trimmed_text_is_content_and_buffer(
    text: Seq<char>,
    cursor_info: Option<(usize, usize)>,
    content: Seq<Seq<char>>,
    blanks: Seq<Seq<char>>,
)
    requires
        content_then_blanks(text_lines(text), content, blanks),
    ensures
        trimmed_text(text, None) == joined(content + blanks.take(buffer_len(blanks))),
        exists|kept: int|
            0 <= kept <= buffer_len(blanks) && trimmed_text(text, cursor_info) == joined(
                #[trigger] (content + blanks.take(kept)),
            ),
{
    let lines = text_lines(text);
    law_content_and_a_buffer_are_kept(lines, content, blanks);
    law_no_content_is_trimmed(lines, cursor_info);
    law_cursor_only_shortens(lines, cursor_info);
    let keep = trimmed_len(lines, cursor_info) as int;
    if keep < content.len() {
        assert(lines[content.len() - 1] == content.last());
    }
    let kept = keep - content.len();
    assert(lines.take(keep) =~= content + blanks.take(kept));
    assert(lines.take(kept_len(lines) as int) =~= content + blanks.take(buffer_len(blanks)));
}

/// The trimmed text is the first lines of the text, as many as are kept, joined; so a cursor that
/// changes nothing about the lines changes nothing about the text.
pub proof fn law_trimmed_text_is_the_first_lines(
    text: Seq<char>,
    cursor_info: Option<(usize, usize)>,
)
    ensures
        trimmed_text(text, cursor_info) == joined(
            text_lines(text).take(trimmed_len(text_lines(text), cursor_info) as int),
        ),
        trimmed_len(text_lines(text), cursor_info) == kept_len(text_lines(text)) ==> trimmed_text(
            text,
            cursor_info,
        ) == trimmed_text(text, None),
{
    law_cursor_only_shortens(text_lines(text), cursor_info);
}

/// With a cursor and only blank lines below it, the trimmed text is what the lines down to the
/// cursor give.
pub proof fn law_trimmed_text_with_a_cursor(
    text: Seq<char>,
    content: Seq<Seq<char>>,
    blanks: Seq<Seq<char>>,
    below: Seq<Seq<char>>,
    cursor_y: usize,
    pane_height: usize,
)
    requires
        text_lines(text) == content + blanks + below,
        content_then_blanks(content + blanks, content, blanks),
        blank_from(below, 0),
        pane_height > 0,
        text_lines(text).len() >= pane_height ==> below.len() == pane_height - cursor_y - 1,
        text_lines(text).len() < pane_height ==> content.len() + blanks.len() == cursor_y + 1,
    ensures
        trimmed_text(text, Some((cursor_y, pane_height))) == joined(
            content + blanks.take(buffer_len(blanks)),
        ),
{
    let above = content + blanks;
    law_capture_is_cut_off_below_the_cursor(above, below, cursor_y, pane_height);
    law_content_and_a_buffer_are_kept(above, content, blanks);
    assert(text_lines(text).take(kept_len(above) as int) =~= content + blanks.take(
        buffer_len(blanks),
    ));
}

} // verus!
