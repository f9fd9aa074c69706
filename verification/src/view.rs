//! Which lines of the content are on screen.

use crate::style::Line;
use crate::text::{blank, is_blank, is_whitespace};
use vstd::prelude::*;

verus! {

/// Computed view data for rendering - separates computation from rendering
#[derive(Debug)]
pub struct ShellPopupView {
    pub title: String,
    pub lines: Vec<Line>,
    pub start_line: usize,
    pub total_lines: usize,
    pub is_at_bottom: bool,
}

/// A line that shows nothing: all of its spans are blank.
pub open spec fn is_blank_line(line: Line) -> bool {
    forall|i: int| 0 <= i < line.spans@.len() ==> is_blank((#[trigger] line.spans@[i]).content@)
}

/// The number of lines up to the last one that shows something, that one included.
pub open spec fn shown_len(lines: Seq<Line>) -> nat
    decreases lines.len(),
{
    if lines.len() == 0 {
        0
    } else if !is_blank_line(lines.last()) {
        lines.len()
    } else {
        shown_len(lines.drop_last())
    }
}

/// The number of lines that can be on screen: at the bottom all of them, so that the prompt is
/// seen; when scrolled up those before the trailing blank lines, if there is one.
pub open spec fn effective_len(lines: Seq<Line>, scroll_offset: int) -> nat {
    if scroll_offset >= 0 || shown_len(lines) == 0 {
        lines.len()
    } else {
        shown_len(lines)
    }
}

/// The number of lines that the view is said to have, which is never zero.
pub open spec fn view_total(lines: Seq<Line>, scroll_offset: int) -> nat {
    if effective_len(lines, scroll_offset) == 0 {
        1
    } else {
        effective_len(lines, scroll_offset)
    }
}

/// The first line on screen: the last page starts there, moved up by as many lines as the view
/// is scrolled up, but not above the first line.
pub open spec fn view_start(lines: Seq<Line>, visible_height: nat, scroll_offset: int) -> nat {
    let last_page = view_total(lines, scroll_offset) - visible_height;
    let start = if scroll_offset < 0 {
        last_page + scroll_offset
    } else {
        last_page
    };
    if start > 0 {
        start as nat
    } else {
        0
    }
}

/// The first line after those on screen.
pub open spec fn view_end(lines: Seq<Line>, visible_height: nat, scroll_offset: int) -> nat {
    let start = view_start(lines, visible_height, scroll_offset);
    let effective = effective_len(lines, scroll_offset);
    if start + visible_height < effective {
        start + visible_height
    } else {
        effective
    }
}

/// The lines on screen.
pub open spec fn visible_lines(
    lines: Seq<Line>,
    visible_height: nat,
    scroll_offset: int,
) -> Seq<Line> {
    let start = view_start(lines, visible_height, scroll_offset) as int;
    let end = view_end(lines, visible_height, scroll_offset) as int;
    if start < end {
        lines.subrange(start, end)
    } else {
        seq![]
    }
}

/// Whether a line shows nothing.
fn blank_line(line: &Line) -> (res: bool)
    ensures
        res == is_blank_line(*line),
{
    let mut i: usize = 0;
    while i < line.spans.len()
        invariant
            i <= line.spans@.len(),
            forall|j: int| 0 <= j < i ==> is_blank((#[trigger] line.spans@[j]).content@),
        decreases line.spans@.len() - i,
    {
        if !blank(line.spans[i].content.as_str()) {
            return false;
        }
        i += 1;
    }
    true
}

proof fn lemma_shown_len(lines: Seq<Line>)
    ensures
        shown_len(lines) <= lines.len(),
        forall|i: int| shown_len(lines) <= i < lines.len() ==> is_blank_line(#[trigger] lines[i]),
        shown_len(lines) > 0 ==> !is_blank_line(lines[shown_len(lines) - 1]),
    decreases lines.len(),
{
    if lines.len() > 0 && is_blank_line(lines.last()) {
        lemma_shown_len(lines.drop_last());
        assert forall|i: int| shown_len(lines) <= i < lines.len() implies is_blank_line(
            #[trigger] lines[i],
        ) by {
            if i < lines.len() - 1 {
                assert(lines.drop_last()[i] == lines[i]);
            }
        }
    }
}

/// Compute the visible lines for the shell popup
/// This is the core testable logic, separated from rendering
pub fn compute_visible_lines(
    styled_lines: Vec<Line>,
    visible_height: usize,
    scroll_offset: i32,
) -> (res: (Vec<Line>, usize, usize))
    requires
        scroll_offset > i32::MIN,
    ensures
        res.0@ == visible_lines(styled_lines@, visible_height as nat, scroll_offset as int),
        res.1 == view_start(styled_lines@, visible_height as nat, scroll_offset as int),
        res.2 == view_total(styled_lines@, scroll_offset as int),
{
    let ghost lines = styled_lines@;
    let total_input_lines = styled_lines.len();
    let mut effective_line_count: usize = total_input_lines;
    // At the bottom all lines stay, so that the cursor is seen. When scrolled up, trailing
    // empty lines are left out for a cleaner view.
    if scroll_offset < 0 {
        let mut shown: usize = total_input_lines;
        assert(lines.take(shown as int) =~= lines);
        while shown > 0 && blank_line(&styled_lines[shown - 1])
            invariant
                shown <= total_input_lines,
                total_input_lines == lines.len(),
                styled_lines@ == lines,
                shown_len(lines) == shown_len(lines.take(shown as int)),
            decreases shown,
        {
            assert(lines.take(shown as int).drop_last() =~= lines.take(shown - 1));
            shown -= 1;
        }
        assert(shown_len(lines) == shown);
        if shown > 0 {
            effective_line_count = shown;
        }
    }
    let total_lines: usize = if effective_line_count == 0 {
        1
    } else {
        effective_line_count
    };
    let last_page = total_lines.saturating_sub(visible_height);
    let start_line = if scroll_offset < 0 {
        // Scrolling up into history
        last_page.saturating_sub((-scroll_offset) as usize)
    } else {
        // At bottom (current)
        last_page
    };
    let mut remaining = styled_lines;
    remaining.truncate(effective_line_count);
    if start_line >= effective_line_count {
        return (Vec::new(), start_line, total_lines);
    }
    let mut on_screen = remaining.split_off(start_line);
    on_screen.truncate(visible_height);
    assert(on_screen@ =~= visible_lines(lines, visible_height as nat, scroll_offset as int));
    (on_screen, start_line, total_lines)
}

/// At most as many lines are on screen as it is high; they are consecutive lines of the content,
/// and the screen is full where the content is high enough.
pub proof fn law_screen_is_a_window(lines: Seq<Line>, visible_height: nat, scroll_offset: int)
    ensures
        ({
            let shown = visible_lines(lines, visible_height, scroll_offset);
            let start = view_start(lines, visible_height, scroll_offset) as int;
            &&& shown.len() <= visible_height
            &&& start + shown.len() <= lines.len() || shown.len() == 0
            &&& forall|i: int| 0 <= i < shown.len() ==> #[trigger] shown[i] == lines[start + i]
            &&& effective_len(lines, scroll_offset) >= visible_height ==> shown.len()
                == visible_height
            &&& effective_len(lines, scroll_offset) < visible_height ==> start == 0 && shown.len()
                == effective_len(lines, scroll_offset)
        }),
{
    lemma_shown_len(lines);
}

/// At the bottom the last lines of the content are on screen, trailing blank ones included: as
/// many as it is high, or all where there are fewer.
pub proof fn law_bottom_shows_the_last_lines(
    lines: Seq<Line>,
    visible_height: nat,
    scroll_offset: int,
)
    requires
        scroll_offset >= 0,
    ensures
        visible_lines(lines, visible_height, scroll_offset) == lines.skip(
            if lines.len() > visible_height { lines.len() - visible_height } else { 0 },
        ),
        view_start(lines, visible_height, scroll_offset) == (if lines.len() > visible_height {
            lines.len() - visible_height
        } else if lines.len() == 0 && visible_height == 0 {
            1
        } else {
            0
        }),
        view_total(lines, scroll_offset) == (if lines.len() > 0 { lines.len() } else { 1 }),
{
    assert(visible_lines(lines, visible_height, scroll_offset) =~= lines.skip(
        if lines.len() > visible_height { lines.len() - visible_height } else { 0 },
    ));
}

/// A line shows something exactly where one of its spans holds a character that is not
/// whitespace.
pub proof fn law_line_shows_something(line: Line)
    ensures
        !is_blank_line(line) <==> exists|i: int, k: int|
            0 <= i < line.spans@.len() && 0 <= k < line.spans@[i].content@.len()
                && !is_whitespace(#[trigger] line.spans@[i].content@[k]),
{
    if !is_blank_line(line) {
        let i = choose|i: int|
            0 <= i < line.spans@.len() && !is_blank((#[trigger] line.spans@[i]).content@);
        let text = line.spans@[i].content@;
        let k = choose|k: int| 0 <= k < text.len() && !is_whitespace(#[trigger] text[k]);
        assert(!is_whitespace(line.spans@[i].content@[k]));
    }
}

/// The lines up to the last one that shows something end with that line, and blank lines follow.
pub proof fn law_content_ends_with_a_line_that_shows(lines: Seq<Line>)
    ensures
        shown_len(lines) <= lines.len(),
        forall|i: int| shown_len(lines) <= i < lines.len() ==> is_blank_line(#[trigger] lines[i]),
        shown_len(lines) > 0 ==> !is_blank_line(lines[shown_len(lines) - 1]),
{
    lemma_shown_len(lines);
}

proof fn lemma_shown_len_of(content: Seq<Line>, blanks: Seq<Line>)
    requires
        content.len() == 0 || !is_blank_line(content.last()),
        forall|i: int| 0 <= i < blanks.len() ==> is_blank_line(#[trigger] blanks[i]),
    ensures
        shown_len(content + blanks) == content.len(),
{
    let lines = content + blanks;
    lemma_shown_len(lines);
    let n = shown_len(lines) as int;
    if n > content.len() {
        assert(lines[n - 1] == blanks[n - 1 - content.len()]);
    }
    if n < content.len() {
        assert(lines[content.len() - 1] == content.last());
    }
}

/// Scrolled up by some lines, the screen is what the bottom of the content would be without as
/// many of its last lines, but it stops at the first page. The blank lines that follow the
/// content count for nothing; where all lines are blank, they are the content.
pub proof fn law_history_is_the_bottom_moved_up(
    content: Seq<Line>,
    blanks: Seq<Line>,
    visible_height: nat,
    up: nat,
)
    requires
        up > 0,
        content.len() == 0 || !is_blank_line(content.last()),
        forall|i: int| 0 <= i < blanks.len() ==> is_blank_line(#[trigger] blanks[i]),
    ensures
        ({
            let lines = content + blanks;
            let shown = if content.len() > 0 { content } else { blanks };
            let room = if shown.len() > visible_height { shown.len() - visible_height } else { 0 };
            let moved = if up < room { up as int } else { room };
            &&& visible_lines(lines, visible_height, -up) == visible_lines(
                shown.take(shown.len() - moved),
                visible_height,
                0,
            )
            &&& visible_lines(lines, visible_height, -up) == shown.subrange(
                room - moved,
                if shown.len() > visible_height {
                    room - moved + visible_height
                } else {
                    shown.len() as int
                },
            )
            &&& view_start(lines, visible_height, -up) == room - moved
            &&& view_total(lines, -up) == (if shown.len() > 0 { shown.len() } else { 1 })
        }),
{
    let lines = content + blanks;
    let shown = if content.len() > 0 { content } else { blanks };
    let room = if shown.len() > visible_height { shown.len() - visible_height } else { 0 };
    let moved = if up < room { up as int } else { room };
    lemma_shown_len_of(content, blanks);
    assert(content.len() == 0 ==> lines =~= blanks);
    let earlier = shown.take(shown.len() - moved);
    law_bottom_shows_the_last_lines(earlier, visible_height, 0);
    assert(visible_lines(lines, visible_height, -up) =~= visible_lines(earlier, visible_height, 0));
    assert(visible_lines(lines, visible_height, -up) =~= shown.subrange(
        room - moved,
        if shown.len() > visible_height {
            room - moved + visible_height
        } else {
            shown.len() as int
        },
    ));
}

/// When scrolled up, the lines on screen end no later than the last line that shows something,
/// if there is one.
pub proof fn law_history_ends_with_content(
    lines: Seq<Line>,
    visible_height: nat,
    scroll_offset: int,
)
    requires
        scroll_offset < 0,
        exists|i: int| 0 <= i < lines.len() && !is_blank_line(#[trigger] lines[i]),
    ensures
        view_end(lines, visible_height, scroll_offset) <= shown_len(lines),
        view_total(lines, scroll_offset) == shown_len(lines),
        shown_len(lines) > 0,
        !is_blank_line(lines[shown_len(lines) - 1]),
{
    lemma_shown_len(lines);
}

/// In the history each line scrolled up moves the first line on screen up by one, until the
/// first line of the content is reached, where it stays.
pub proof fn law_scrolling_moves_the_window(
    lines: Seq<Line>,
    visible_height: nat,
    scroll_offset: int,
    up: nat,
)
    requires
        scroll_offset < 0,
    ensures
        ({
            let before = view_start(lines, visible_height, scroll_offset);
            view_start(lines, visible_height, scroll_offset - up) == (if before > up {
                before - up
            } else {
                0
            })
        }),
{
}

/// Scrolled up by the number of lines or more, the screen starts with the first line.
pub proof fn law_top_is_reached(lines: Seq<Line>, visible_height: nat, scroll_offset: int)
    requires
        scroll_offset < 0,
        -scroll_offset >= lines.len(),
    ensures
        view_start(lines, visible_height, scroll_offset) == 0,
{
    lemma_shown_len(lines);
}

} // verus!
