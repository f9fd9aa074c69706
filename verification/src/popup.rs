//! The state of the popup: its tabs, its content and how far it is scrolled.

use crate::text::{cow_text, split_lines, str_views, text_lines, utf8_lossy};
use vstd::prelude::*;
use vstd::utf8::*;

verus! {

/// Which tab is active in the task popup
#[derive(Debug, Clone, PartialEq, Eq, Structural)]
pub enum TaskTab {
    Agent,
    Diff,
    Terminal,
}

/// The tab to the right of a tab, and the first one after the last.
pub open spec fn next_tab(tab: TaskTab) -> TaskTab {
    match tab {
        TaskTab::Agent => TaskTab::Diff,
        TaskTab::Diff => TaskTab::Terminal,
        TaskTab::Terminal => TaskTab::Agent,
    }
}

impl TaskTab {
    /// The tab to the right of this one, and the first one after the last.
    pub fn next(&self) -> (res: Self)
        ensures
            res == next_tab(*self),
    {
        match self {
            TaskTab::Agent => TaskTab::Diff,
            TaskTab::Diff => TaskTab::Terminal,
            TaskTab::Terminal => TaskTab::Agent,
        }
    }
}

/// State for the shell popup that shows a detached tmux window
#[derive(Debug, Clone)]
pub struct ShellPopup {
    pub task_title: String,
    pub window_name: String,
    pub scroll_offset: i32,  // Negative means scroll up (see more history)
    /// Cached pane content - updated periodically, not on every frame
    pub cached_content: Vec<u8>,
    /// Last known pane dimensions for resize detection
    pub last_pane_size: Option<(u16, u16)>,
    /// Escalation note from the orchestrator, shown as a banner
    pub escalation_note: Option<String>,
    /// Task ID (used to clear escalation note on dismiss)
    pub task_id: Option<String>,
    /// Currently active tab
    pub active_tab: TaskTab,
    /// Git diff content for the Diff tab (loaded on popup open)
    pub diff_content: String,
    /// Scroll offset for the Diff tab
    pub diff_scroll: usize,
    /// Name of the extra terminal tmux window (e.g. "{window_name}-term")
    pub terminal_window_name: String,
    /// Cached content for the Terminal tab
    pub terminal_cached_content: Vec<u8>,
    /// Scroll offset for the Terminal tab
    pub terminal_scroll: i32,
}

/// How far content of `total_lines` lines can be scrolled up: by all of its lines, or by as many
/// as an `i32`, which the scroll offset is, can count.
pub open spec fn scroll_limit(total_lines: nat) -> int {
    if total_lines < i32::MAX {
        total_lines as int
    } else {
        i32::MAX as int
    }
}

/// The offset after scrolling up by `lines` in content of `total_lines` lines.
pub open spec fn scrolled_up(scroll_offset: int, lines: int, total_lines: nat) -> int {
    if scroll_offset - lines < -scroll_limit(total_lines) {
        -scroll_limit(total_lines)
    } else {
        scroll_offset - lines
    }
}

/// The offset after scrolling down by `lines`.
pub open spec fn scrolled_down(scroll_offset: int, lines: int) -> int {
    if scroll_offset + lines > 0 {
        0
    } else {
        scroll_offset + lines
    }
}

/// Whether an offset stands for a place in content of `total_lines` lines.
pub open spec fn offset_in_range(scroll_offset: int, total_lines: nat) -> bool {
    -scroll_limit(total_lines) <= scroll_offset <= 0
}

/// Whether an offset stands for the bottom of the content.
pub open spec fn at_bottom(scroll_offset: int) -> bool {
    scroll_offset >= 0
}

/// The offset after scrolling up by `lines` in content of `total_lines` lines.
pub fn scroll_up_within(scroll_offset: i32, lines: i32, total_lines: usize) -> (res: i32)
    requires
        i32::MIN <= scroll_offset - lines <= i32::MAX,
    ensures
        res == scrolled_up(scroll_offset as int, lines as int, total_lines as nat),
{
    let limit: i32 = if total_lines < i32::MAX as usize {
        total_lines as i32
    } else {
        i32::MAX
    };
    let min_offset: i32 = -limit;
    let offset = scroll_offset - lines;
    if offset < min_offset {
        min_offset
    } else {
        offset
    }
}

impl ShellPopup {
    /// The popup over a window, with nothing captured yet.
    pub fn new(task_title: String, window_name: String) -> (res: Self)
        ensures
            res.task_title == task_title,
            res.window_name == window_name,
            res.scroll_offset == 0,
            res.cached_content@ == Seq::<u8>::empty(),
            res.last_pane_size is None,
            res.escalation_note is None,
            res.task_id is None,
            res.active_tab == TaskTab::Agent,
            res.diff_content@ == Seq::<char>::empty(),
            res.diff_scroll == 0,
            res.terminal_window_name@ == Seq::<char>::empty(),
            res.terminal_cached_content@ == Seq::<u8>::empty(),
            res.terminal_scroll == 0,
            at_bottom(res.scroll_offset as int),
            forall|total_lines: nat| #[trigger]
                offset_in_range(res.scroll_offset as int, total_lines),
    {
        ShellPopup {
            task_title,
            window_name,
            scroll_offset: 0,
            cached_content: Vec::new(),
            last_pane_size: None,
            escalation_note: None,
            task_id: None,
            active_tab: TaskTab::Agent,
            diff_content: String::new(),
            diff_scroll: 0,
            terminal_window_name: String::new(),
            terminal_cached_content: Vec::new(),
            terminal_scroll: 0,
        }
    }

    /// Scroll up into history, clamped to content bounds.
    pub fn scroll_up(&mut self, lines: i32)
        requires
            i32::MIN <= old(self).scroll_offset - lines <= i32::MAX,
        ensures
            *final(self) == (ShellPopup {
                scroll_offset: final(self).scroll_offset,
                ..*old(self)
            }),
            final(self).scroll_offset == scrolled_up(
                old(self).scroll_offset as int,
                lines as int,
                text_lines(utf8_lossy(old(self).cached_content@)).len(),
            ),
            valid_utf8(old(self).cached_content@) ==> final(self).scroll_offset == scrolled_up(
                old(self).scroll_offset as int,
                lines as int,
                text_lines(decode_utf8(old(self).cached_content@)).len(),
            ),
            ({
                let total_lines = text_lines(utf8_lossy(old(self).cached_content@)).len();
                lines >= 0 && offset_in_range(old(self).scroll_offset as int, total_lines)
                    ==> offset_in_range(final(self).scroll_offset as int, total_lines)
            }),
    {
        // Text lines are counted, not line feeds: a last line that no line feed ends counts too.
        let content = String::from_utf8_lossy(self.cached_content.as_slice());
        let content_lines = split_lines(cow_text(&content));
        let total_lines = content_lines.len();
        assert(str_views(content_lines@).len() == total_lines);
        self.scroll_offset = scroll_up_within(self.scroll_offset, lines, total_lines);
    }

    /// Scroll down toward current content, clamped to 0.
    pub fn scroll_down(&mut self, lines: i32)
        requires
            i32::MIN <= old(self).scroll_offset + lines <= i32::MAX,
        ensures
            *final(self) == (ShellPopup {
                scroll_offset: final(self).scroll_offset,
                ..*old(self)
            }),
            final(self).scroll_offset == scrolled_down(
                old(self).scroll_offset as int,
                lines as int,
            ),
            forall|total_lines: nat|
                lines >= 0 && #[trigger] offset_in_range(
                    old(self).scroll_offset as int,
                    total_lines,
                ) ==> offset_in_range(final(self).scroll_offset as int, total_lines),
    {
        let offset = self.scroll_offset + lines;
        self.scroll_offset = if offset > 0 {
            0
        } else {
            offset
        };
    }

    /// Jump to bottom (current content)
    pub fn scroll_to_bottom(&mut self)
        ensures
            *final(self) == (ShellPopup { scroll_offset: 0, ..*old(self) }),
            at_bottom(final(self).scroll_offset as int),
            forall|total_lines: nat| #[trigger]
                offset_in_range(final(self).scroll_offset as int, total_lines),
    {
        self.scroll_offset = 0;
    }

    /// Check if we're at the bottom
    pub fn is_at_bottom(&self) -> (res: bool)
        ensures
            res == at_bottom(self.scroll_offset as int),
            res == (self.scroll_offset >= 0),
    {
        self.scroll_offset >= 0
    }
}

/// Going to the next tab passes every tab, from Agent through Diff to Terminal, and comes back to
/// the first after three steps.
pub proof fn law_tabs_form_a_cycle(tab: TaskTab, other: TaskTab)
    ensures
        next_tab(TaskTab::Agent) == TaskTab::Diff,
        next_tab(TaskTab::Diff) == TaskTab::Terminal,
        next_tab(next_tab(next_tab(tab))) == tab,
        other == tab || other == next_tab(tab) || other == next_tab(next_tab(tab)),
        next_tab(tab) != tab,
        next_tab(next_tab(tab)) != tab,
{
}

/// Content of as many lines as an `i32` can count can be scrolled up by all of its lines, and no
/// content by more than it has, or by fewer than the last number that an `i32` holds where it has
/// more.
pub proof fn law_scroll_limit(total_lines: nat)
    ensures
        0 <= scroll_limit(total_lines) <= total_lines,
        scroll_limit(total_lines) <= i32::MAX,
        total_lines <= i32::MAX ==> scroll_limit(total_lines) == total_lines,
        total_lines >= i32::MAX ==> scroll_limit(total_lines) == i32::MAX,
{
}

/// Scrolling up never leaves the content, and moves up by the lines asked for until its first
/// line, where it stops.
pub proof fn law_scrolling_up_stays_in_the_content(
    scroll_offset: int,
    lines: int,
    total_lines: nat,
)
    ensures
        scrolled_up(scroll_offset, lines, total_lines) >= -total_lines,
        scrolled_up(scroll_offset, lines, total_lines) >= -scroll_limit(total_lines),
        scrolled_up(scroll_offset, lines, total_lines) >= scroll_offset - lines,
        scrolled_up(scroll_offset, lines, total_lines) > -scroll_limit(total_lines)
            ==> scrolled_up(scroll_offset, lines, total_lines) == scroll_offset - lines,
{
}

/// Scrolling down never goes below the bottom, moves down by the lines asked for until the
/// bottom, and reaches it when scrolled far enough.
pub proof fn law_scrolling_down_stops_at_the_bottom(scroll_offset: int, lines: int)
    ensures
        scrolled_down(scroll_offset, lines) <= 0,
        scrolled_down(scroll_offset, lines) <= scroll_offset + lines,
        scrolled_down(scroll_offset, lines) < 0 ==> scrolled_down(scroll_offset, lines)
            == scroll_offset + lines,
        at_bottom(scrolled_down(scroll_offset, lines)) <==> lines >= -scroll_offset,
{
}

/// The bottom is where scrolling down moves no further: every offset that is not negative.
pub proof fn law_bottom_is_where_scrolling_down_ends(scroll_offset: int)
    ensures
        at_bottom(scroll_offset) <==> scrolled_down(scroll_offset, 1) <= scroll_offset,
        at_bottom(scroll_offset) <==> scroll_offset >= 0,
{
}

/// The offsets in range are those from the bottom up to the first line.
pub proof fn law_offsets_in_range(scroll_offset: int, total_lines: nat)
    ensures
        offset_in_range(scroll_offset, total_lines) <==> scroll_offset <= 0 && -scroll_offset
            <= total_lines && -scroll_offset <= i32::MAX,
{
}

/// An offset within the content stays within it, whichever way it is scrolled, and is never
/// the least `i32`, which has no opposite.
pub proof fn law_offset_stays_in_range(scroll_offset: int, lines: int, total_lines: nat)
    requires
        lines >= 0,
        offset_in_range(scroll_offset, total_lines),
    ensures
        offset_in_range(scrolled_up(scroll_offset, lines, total_lines), total_lines),
        offset_in_range(scrolled_down(scroll_offset, lines), total_lines),
        scroll_offset > i32::MIN,
{
}

/// Scrolling down undoes scrolling up where the first line did not stop it, and scrolling up
/// undoes scrolling down where the bottom did not.
pub proof fn law_scrolling_back(scroll_offset: int, lines: int, total_lines: nat)
    requires
        offset_in_range(scroll_offset, total_lines),
    ensures
        scroll_offset - lines >= -scroll_limit(total_lines) ==> scrolled_down(
            scrolled_up(scroll_offset, lines, total_lines),
            lines,
        ) == scroll_offset,
        scroll_offset + lines <= 0 ==> scrolled_up(
            scrolled_down(scroll_offset, lines),
            lines,
            total_lines,
        ) == scroll_offset,
{
}

/// Scrolling in two steps the same way is scrolling by their sum.
pub proof fn law_scrolling_adds_up(
    scroll_offset: int,
    first: int,
    second: int,
    total_lines: nat,
)
    requires
        first >= 0,
        second >= 0,
    ensures
        scrolled_up(scrolled_up(scroll_offset, first, total_lines), second, total_lines)
            == scrolled_up(scroll_offset, first + second, total_lines),
        scrolled_down(scrolled_down(scroll_offset, first), second) == scrolled_down(
            scroll_offset,
            first + second,
        ),
{
}

/// Scrolling up from the bottom leaves it exactly where there is a line to scroll to.
pub proof fn law_scrolling_up_leaves_the_bottom(lines: int, total_lines: nat)
    requires
        lines > 0,
    ensures
        at_bottom(scrolled_up(0, lines, total_lines)) <==> total_lines == 0,
{
}

} // verus!
