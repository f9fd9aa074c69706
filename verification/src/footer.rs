//! The footer: key bindings and the scroll position.

use crate::popup::{at_bottom, TaskTab};
use crate::text::{decimal, decimal_text, law_decimal};
use vstd::prelude::*;
use vstd::string::*;

verus! {

/// The footer of a popup without tabs. Lines are numbered from one.
pub open spec fn footer_text(scroll_offset: int, start_line: nat) -> Seq<char> {
    if at_bottom(scroll_offset) {
        " [Ctrl+j/k] scroll [Ctrl+d/u] page [Ctrl+q] close | At bottom "@
    } else {
        " [Ctrl+j/k] scroll [Ctrl+d/u] page [Ctrl+g] bottom [Ctrl+q] close | Line "@ + decimal(
            start_line + 1,
        ) + " "@
    }
}

/// The footer of a popup with tabs.
pub open spec fn tab_footer_text(
    active_tab: TaskTab,
    scroll_offset: int,
    start_line: nat,
) -> Seq<char> {
    if active_tab == TaskTab::Diff {
        " [j/k] scroll  [d/u] page  [g/G] top/bot  [Ctrl+T] tab  [Ctrl+q] close "@
    } else if at_bottom(scroll_offset) {
        " [Ctrl+j/k] scroll [Ctrl+d/u] page [Ctrl+T] tab [Ctrl+q] close | At bottom "@
    } else {
        " [Ctrl+j/k] scroll [Ctrl+d/u] page [Ctrl+g] bottom [Ctrl+T] tab [Ctrl+q] close | Line "@
            + decimal(start_line + 1) + " "@
    }
}

/// A label, the number of a line counted from one, and a space.
fn line_footer(label: &str, start_line: usize) -> (res: String)
    requires
        start_line < usize::MAX,
    ensures
        res@ == label@ + decimal((start_line + 1) as nat) + " "@,
{
    let mut res = label.to_string();
    res.append(decimal_text(start_line + 1).as_str());
    res.append(" ");
    res
}

/// Build the footer text for a shell popup without tabs
pub fn build_footer_text(scroll_offset: i32, start_line: usize) -> (res: String)
    requires
        scroll_offset < 0 ==> start_line < usize::MAX,
    ensures
        res@ == footer_text(scroll_offset as int, start_line as nat),
{
    if scroll_offset < 0 {
        line_footer(
            " [Ctrl+j/k] scroll [Ctrl+d/u] page [Ctrl+g] bottom [Ctrl+q] close | Line ",
            start_line,
        )
    } else {
        " [Ctrl+j/k] scroll [Ctrl+d/u] page [Ctrl+q] close | At bottom ".to_string()
    }
}

/// Build the footer text for a tabbed popup, reflecting the active tab's keybindings
pub fn build_tab_footer_text(
    active_tab: &TaskTab,
    scroll_offset: i32,
    start_line: usize,
) -> (res: String)
    requires
        *active_tab != TaskTab::Diff && scroll_offset < 0 ==> start_line < usize::MAX,
    ensures
        res@ == tab_footer_text(*active_tab, scroll_offset as int, start_line as nat),
{
    match active_tab {
        TaskTab::Diff => {
            " [j/k] scroll  [d/u] page  [g/G] top/bot  [Ctrl+T] tab  [Ctrl+q] close ".to_string()
        },
        TaskTab::Agent | TaskTab::Terminal => {
            if scroll_offset < 0 {
                line_footer(
                    " [Ctrl+j/k] scroll [Ctrl+d/u] page [Ctrl+g] bottom [Ctrl+T] tab [Ctrl+q] close | Line ",
                    start_line,
                )
            } else {
                " [Ctrl+j/k] scroll [Ctrl+d/u] page [Ctrl+T] tab [Ctrl+q] close | At bottom ".to_string()
            }
        },
    }
}

/// The footer of the Diff tab is the same wherever it is scrolled.
pub proof fn law_diff_footer_is_fixed(
    scroll_offset: int,
    start_line: nat,
    other_offset: int,
    other_start: nat,
)
    ensures
        tab_footer_text(TaskTab::Diff, scroll_offset, start_line) == tab_footer_text(
            TaskTab::Diff,
            other_offset,
            other_start,
        ),
{
}

/// The Agent and the Terminal tab have the same key bindings.
pub proof fn law_shell_tabs_share_a_footer(scroll_offset: int, start_line: nat)
    ensures
        tab_footer_text(TaskTab::Agent, scroll_offset, start_line) == tab_footer_text(
            TaskTab::Terminal,
            scroll_offset,
            start_line,
        ),
{
}

/// At the bottom a footer does not depend on the lines that are on screen.
pub proof fn law_bottom_footer_is_fixed(
    active_tab: TaskTab,
    scroll_offset: int,
    start_line: nat,
)
    requires
        at_bottom(scroll_offset),
    ensures
        footer_text(scroll_offset, start_line) == footer_text(0, 0),
        tab_footer_text(active_tab, scroll_offset, start_line) == tab_footer_text(
            active_tab,
            0,
            0,
        ),
{
}

/// Whether a text ends with another one.
pub open spec fn ends_with(s: Seq<char>, end: Seq<char>) -> bool {
    end.len() <= s.len() && s.skip(s.len() - end.len()) == end
}

proof fn lemma_ends_with_sum(start: Seq<char>, middle: Seq<char>, end: Seq<char>)
    ensures
        ends_with(start + middle + end, end),
        ends_with(start + middle + end, middle + end),
{
    let whole = start + middle + end;
    assert(whole.skip(whole.len() - end.len()) =~= end);
    assert(whole.skip(whole.len() - (middle + end).len()) =~= middle + end);
}

/// Scrolled up at all, a footer names the first line on screen, counted from one, at its end. How
/// far it is scrolled up does not matter otherwise: the footer is the one for a single line up.
pub proof fn law_history_footer_names_the_line(
    active_tab: TaskTab,
    scroll_offset: int,
    start_line: nat,
)
    requires
        scroll_offset < 0,
    ensures
        footer_text(scroll_offset, start_line) == footer_text(-1, start_line),
        tab_footer_text(active_tab, scroll_offset, start_line) == tab_footer_text(
            active_tab,
            -1,
            start_line,
        ),
        ends_with(
            footer_text(scroll_offset, start_line),
            "| Line "@ + decimal(start_line + 1) + " "@,
        ),
        active_tab != TaskTab::Diff ==> ends_with(
            tab_footer_text(active_tab, scroll_offset, start_line),
            "| Line "@ + decimal(start_line + 1) + " "@,
        ),
{
    reveal_strlit("| Line ");
    reveal_strlit(" ");
    reveal_strlit(" [Ctrl+j/k] scroll [Ctrl+d/u] page [Ctrl+g] bottom [Ctrl+q] close | Line ");
    reveal_strlit(
        " [Ctrl+j/k] scroll [Ctrl+d/u] page [Ctrl+g] bottom [Ctrl+T] tab [Ctrl+q] close | Line ",
    );
    let number = decimal(start_line + 1) + " "@;
    let plain = " [Ctrl+j/k] scroll [Ctrl+d/u] page [Ctrl+g] bottom [Ctrl+q] close | Line "@;
    let tabbed =
        " [Ctrl+j/k] scroll [Ctrl+d/u] page [Ctrl+g] bottom [Ctrl+T] tab [Ctrl+q] close | Line "@;
    let label = "| Line "@;
    assert(label + decimal(start_line + 1) + " "@ =~= label + number);
    assert(plain =~= plain.take(plain.len() - 7) + label);
    lemma_ends_with_sum(plain.take(plain.len() - 7), label, number);
    assert(plain + decimal(start_line + 1) + " "@ =~= plain.take(plain.len() - 7) + label + number);
    assert(tabbed =~= tabbed.take(tabbed.len() - 7) + label);
    lemma_ends_with_sum(tabbed.take(tabbed.len() - 7), label, number);
    assert(tabbed + decimal(start_line + 1) + " "@ =~= tabbed.take(tabbed.len() - 7) + label
        + number);
}

/// The footers of two places in the history differ in the number of the line only.
pub proof fn law_history_footers_differ_in_the_number(
    active_tab: TaskTab,
    scroll_offset: int,
    start_line: nat,
)
    requires
        scroll_offset < 0,
        active_tab != TaskTab::Diff,
    ensures
        ({
            let first = footer_text(-1, 0);
            footer_text(scroll_offset, start_line) == first.take(first.len() - 2) + decimal(
                start_line + 1,
            ) + seq![' ']
        }),
        ({
            let first = tab_footer_text(TaskTab::Agent, -1, 0);
            tab_footer_text(active_tab, scroll_offset, start_line) == first.take(first.len() - 2)
                + decimal(start_line + 1) + seq![' ']
        }),
{
    reveal_strlit(" ");
    law_decimal(1);
    assert(" "@ =~= seq![' ']);
    let plain = " [Ctrl+j/k] scroll [Ctrl+d/u] page [Ctrl+g] bottom [Ctrl+q] close | Line "@;
    let tabbed =
        " [Ctrl+j/k] scroll [Ctrl+d/u] page [Ctrl+g] bottom [Ctrl+T] tab [Ctrl+q] close | Line "@;
    let first = footer_text(-1, 0);
    assert(first.take(first.len() - 2) =~= plain);
    let first_tabbed = tab_footer_text(TaskTab::Agent, -1, 0);
    assert(first_tabbed.take(first_tabbed.len() - 2) =~= tabbed);
}

/// A footer tells the bottom from the history: at the bottom it says so at its end, and in the
/// history it says something else.
pub proof fn law_footer_tells_the_bottom(
    active_tab: TaskTab,
    scroll_offset: int,
    start_line: nat,
    bottom_offset: int,
    bottom_line: nat,
)
    requires
        scroll_offset < 0,
        bottom_offset >= 0,
        active_tab != TaskTab::Diff,
    ensures
        ends_with(footer_text(bottom_offset, bottom_line), "| At bottom "@),
        ends_with(tab_footer_text(active_tab, bottom_offset, bottom_line), "| At bottom "@),
        footer_text(scroll_offset, start_line) != footer_text(bottom_offset, bottom_line),
        tab_footer_text(active_tab, scroll_offset, start_line) != tab_footer_text(
            active_tab,
            bottom_offset,
            bottom_line,
        ),
{
    reveal_strlit("| At bottom ");
    reveal_strlit(" ");
    reveal_strlit(" [Ctrl+j/k] scroll [Ctrl+d/u] page [Ctrl+q] close | At bottom ");
    reveal_strlit(" [Ctrl+j/k] scroll [Ctrl+d/u] page [Ctrl+T] tab [Ctrl+q] close | At bottom ");
    law_decimal(start_line + 1);
    let plain = footer_text(bottom_offset, bottom_line);
    let tabbed = tab_footer_text(active_tab, bottom_offset, bottom_line);
    assert(plain.skip(plain.len() - 12) =~= "| At bottom "@);
    assert(tabbed.skip(tabbed.len() - 12) =~= "| At bottom "@);
    let digits = decimal(start_line + 1);
    let up = footer_text(scroll_offset, start_line);
    assert(up[up.len() - 2] == digits.last());
    assert(plain[plain.len() - 2] == 'm');
    let up_tabbed = tab_footer_text(active_tab, scroll_offset, start_line);
    assert(up_tabbed[up_tabbed.len() - 2] == digits.last());
    assert(tabbed[tabbed.len() - 2] == 'm');
}

/// The words of the footers: the key bindings for scrolling, paging and closing, for the next tab
/// where there are tabs, and for the way back to the bottom where it is scrolled up.
pub proof fn law_footers_name_the_keys(active_tab: TaskTab, scroll_offset: int, start_line: nat)
    ensures
        ({
            let keys = " [Ctrl+j/k] scroll [Ctrl+d/u] page"@;
            let back = if scroll_offset < 0 { " [Ctrl+g] bottom"@ } else { seq![] };
            let place = if scroll_offset < 0 {
                " | Line "@ + decimal(start_line + 1) + " "@
            } else {
                " | At bottom "@
            };
            let close = " [Ctrl+q] close"@;
            &&& footer_text(scroll_offset, start_line) == keys + back + close + place
            &&& active_tab != TaskTab::Diff ==> tab_footer_text(
                active_tab,
                scroll_offset,
                start_line,
            ) == keys + back + " [Ctrl+T] tab"@ + close + place
        }),
        tab_footer_text(TaskTab::Diff, scroll_offset, start_line) == " [j/k] scroll  [d/u] page"@
            + "  [g/G] top/bot"@ + "  [Ctrl+T] tab"@ + "  [Ctrl+q] close "@,
{
    reveal_strlit(" [Ctrl+j/k] scroll [Ctrl+d/u] page");
    reveal_strlit(" [Ctrl+g] bottom");
    reveal_strlit(" | Line ");
    reveal_strlit(" | At bottom ");
    reveal_strlit(" [Ctrl+q] close");
    reveal_strlit(" [Ctrl+T] tab");
    reveal_strlit(" [Ctrl+j/k] scroll [Ctrl+d/u] page [Ctrl+q] close | At bottom ");
    reveal_strlit(" [Ctrl+j/k] scroll [Ctrl+d/u] page [Ctrl+T] tab [Ctrl+q] close | At bottom ");
    reveal_strlit(" [Ctrl+j/k] scroll [Ctrl+d/u] page [Ctrl+g] bottom [Ctrl+q] close | Line ");
    reveal_strlit(
        " [Ctrl+j/k] scroll [Ctrl+d/u] page [Ctrl+g] bottom [Ctrl+T] tab [Ctrl+q] close | Line ",
    );
    reveal_strlit(" [j/k] scroll  [d/u] page");
    reveal_strlit("  [g/G] top/bot");
    reveal_strlit("  [Ctrl+T] tab");
    reveal_strlit("  [Ctrl+q] close ");
    reveal_strlit(" [j/k] scroll  [d/u] page  [g/G] top/bot  [Ctrl+T] tab  [Ctrl+q] close ");
    assert(tab_footer_text(TaskTab::Diff, scroll_offset, start_line)
        =~= " [j/k] scroll  [d/u] page"@ + "  [g/G] top/bot"@ + "  [Ctrl+T] tab"@
        + "  [Ctrl+q] close "@);
    let keys = " [Ctrl+j/k] scroll [Ctrl+d/u] page"@;
    let close = " [Ctrl+q] close"@;
    let tab = " [Ctrl+T] tab"@;
    if scroll_offset < 0 {
        let back = " [Ctrl+g] bottom"@;
        let line = " | Line "@;
        assert(" [Ctrl+j/k] scroll [Ctrl+d/u] page [Ctrl+g] bottom [Ctrl+q] close | Line "@ =~= keys
            + back + close + line);
        assert(" [Ctrl+j/k] scroll [Ctrl+d/u] page [Ctrl+g] bottom [Ctrl+T] tab [Ctrl+q] close | Line "@
            =~= keys + back + tab + close + line);
        let number = decimal(start_line + 1);
        assert(keys + back + close + line + number + " "@ =~= keys + back + close + (line + number
            + " "@));
        assert(keys + back + tab + close + line + number + " "@ =~= keys + back + tab + close + (
        line + number + " "@));
    } else {
        let bottom = " | At bottom "@;
        assert(" [Ctrl+j/k] scroll [Ctrl+d/u] page [Ctrl+q] close | At bottom "@ =~= keys + seq![]
            + close + bottom);
        assert(" [Ctrl+j/k] scroll [Ctrl+d/u] page [Ctrl+T] tab [Ctrl+q] close | At bottom "@
            =~= keys + seq![] + tab + close + bottom);
    }
}

} // verus!
