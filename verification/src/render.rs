//! What is drawn for the popup, part by part.

use crate::footer::{build_tab_footer_text, tab_footer_text};
use crate::layout::{
    inner_area, inside_border, law_border_leaves_an_inner_area, lies_within, rows_fit, rows_of,
    split_rows, stacked_rows, Rect, RowHeights,
};
use crate::popup::{next_tab, ShellPopup, TaskTab};
use crate::style::{
    colored, foreground, line_of, line_views, plain_style, Color, Line, LineView, Span, SpanView,
    Style,
};
use crate::text::{has_prefix, pad_right, padded, split_lines, str_views, text_lines};
use crate::view::{
    compute_visible_lines, law_bottom_shows_the_last_lines, law_screen_is_a_window, view_start,
    visible_lines,
};
use vstd::prelude::*;
use vstd::string::*;

verus! {

/// Colors used for rendering the shell popup
#[derive(Debug, Clone)]
pub struct ShellPopupColors {
    pub border: Color,
    pub header_fg: Color,
    pub header_bg: Color,
    pub footer_fg: Color,
    pub footer_bg: Color,
    pub escalation_fg: Color,
    pub escalation_bg: Color,
}

impl Default for ShellPopupColors {
    fn default() -> (res: Self)
        ensures
            res == (ShellPopupColors {
                border: Color::Green,
                header_fg: Color::Black,
                header_bg: Color::Cyan,
                footer_fg: Color::Black,
                footer_bg: Color::Gray,
                escalation_fg: Color::Black,
                escalation_bg: Color::Yellow,
            }),
    {
        ShellPopupColors {
            border: Color::Green,
            header_fg: Color::Black,
            header_bg: Color::Cyan,
            footer_fg: Color::Black,
            footer_bg: Color::Gray,
            escalation_fg: Color::Black,
            escalation_bg: Color::Yellow,
        }
    }
}

/// One step of drawing the popup
#[derive(Debug, Clone, PartialEq, Eq)]
pub enum DrawOp {
    /// Clears an area
    Clear { area: Rect },
    /// Draws a border around the inside of an area, on all four sides, with a title in it
    Border { area: Rect, title: String, style: Style },
    /// Writes text in one style
    Text { area: Rect, text: String, style: Style },
    /// Writes styled lines
    Lines { area: Rect, lines: Vec<Line> },
}

/// What a step of drawing holds.
pub enum DrawOpView {
    Clear { area: Rect },
    Border { area: Rect, title: Seq<char>, style: Style },
    Text { area: Rect, text: Seq<char>, style: Style },
    Lines { area: Rect, lines: Seq<LineView> },
}

impl View for DrawOp {
    type V = DrawOpView;

    open spec fn view(&self) -> DrawOpView {
        match self {
            DrawOp::Clear { area } => DrawOpView::Clear { area: *area },
            DrawOp::Border { area, title, style } => DrawOpView::Border {
                area: *area,
                title: title@,
                style: *style,
            },
            DrawOp::Text { area, text, style } => DrawOpView::Text {
                area: *area,
                text: text@,
                style: *style,
            },
            DrawOp::Lines { area, lines } => DrawOpView::Lines {
                area: *area,
                lines: line_views(lines@),
            },
        }
    }
}

/// What a sequence of steps holds.
pub open spec fn op_views(ops: Seq<DrawOp>) -> Seq<DrawOpView> {
    Seq::new(ops.len(), |i: int| ops[i]@)
}

/// The area that a step draws in.
pub open spec fn area_of(op: DrawOpView) -> Rect {
    match op {
        DrawOpView::Clear { area } => area,
        DrawOpView::Border { area, .. } => area,
        DrawOpView::Text { area, .. } => area,
        DrawOpView::Lines { area, .. } => area,
    }
}

/// The colour of a line of a diff.
pub open spec fn diff_color(line: Seq<char>) -> Color {
    if "+"@.is_prefix_of(line) && !"+++"@.is_prefix_of(line) {
        Color::Green
    } else if "-"@.is_prefix_of(line) && !"---"@.is_prefix_of(line) {
        Color::Red
    } else if "@@"@.is_prefix_of(line) {
        Color::Cyan
    } else if "diff "@.is_prefix_of(line) || "index "@.is_prefix_of(line) {
        Color::Yellow
    } else {
        Color::White
    }
}

/// A line of a diff in its colour.
pub open spec fn diff_line(line: Seq<char>) -> LineView {
    line_of(seq![SpanView { content: line, style: foreground(diff_color(line)) }])
}

/// The lines of a diff that are on screen: as many as it is high, from the one scrolled to.
pub open spec fn diff_lines(diff: Seq<char>, scroll: nat, visible_height: nat) -> Seq<LineView> {
    let lines = text_lines(diff);
    let start = if scroll < lines.len() { scroll as int } else { lines.len() as int };
    let end = if start + visible_height < lines.len() {
        start + visible_height
    } else {
        lines.len() as int
    };
    Seq::new((end - start) as nat, |i: int| diff_line(lines[start + i]))
}

/// How far the active tab is scrolled up, as a negative number. The Diff tab is scrolled in
/// another way.
pub open spec fn active_offset(popup: ShellPopup) -> i32 {
    match popup.active_tab {
        TaskTab::Agent => popup.scroll_offset,
        TaskTab::Terminal => popup.terminal_scroll,
        TaskTab::Diff => 0,
    }
}

/// The lines that the active tab shows on a screen of the given height.
pub open spec fn tab_content(
    popup: ShellPopup,
    agent_lines: Seq<Line>,
    terminal_lines: Seq<Line>,
    visible_height: nat,
) -> Seq<LineView> {
    match popup.active_tab {
        TaskTab::Agent => line_views(
            visible_lines(agent_lines, visible_height, popup.scroll_offset as int),
        ),
        TaskTab::Diff => diff_lines(
            popup.diff_content@,
            popup.diff_scroll as nat,
            visible_height,
        ),
        TaskTab::Terminal => line_views(
            visible_lines(terminal_lines, visible_height, popup.terminal_scroll as int),
        ),
    }
}

/// The first line that the active tab shows.
pub open spec fn tab_start(
    popup: ShellPopup,
    agent_lines: Seq<Line>,
    terminal_lines: Seq<Line>,
    visible_height: nat,
) -> nat {
    match popup.active_tab {
        TaskTab::Agent => view_start(agent_lines, visible_height, popup.scroll_offset as int),
        TaskTab::Diff => popup.diff_scroll as nat,
        TaskTab::Terminal => view_start(
            terminal_lines,
            visible_height,
            popup.terminal_scroll as int,
        ),
    }
}

/// The style of the label of a tab, which is highlighted where the tab is the active one.
pub open spec fn tab_style(tab: TaskTab, active_tab: TaskTab, colors: ShellPopupColors) -> Style {
    if tab == active_tab {
        colored(colors.header_fg, colors.header_bg)
    } else {
        colored(colors.footer_fg, colors.footer_bg)
    }
}

/// The tab bar.
pub open spec fn tab_bar(active_tab: TaskTab, colors: ShellPopupColors) -> LineView {
    line_of(
        seq![
            SpanView {
                content: " 1:Agent "@,
                style: tab_style(TaskTab::Agent, active_tab, colors),
            },
            SpanView {
                content: " 2:Diff "@,
                style: tab_style(TaskTab::Diff, active_tab, colors),
            },
            SpanView {
                content: " 3:Terminal "@,
                style: tab_style(TaskTab::Terminal, active_tab, colors),
            },
        ],
    )
}

/// The text of the title bar, which fills the width.
pub open spec fn title_text(title: Seq<char>, width: nat) -> Seq<char> {
    padded(" "@ + title + " "@, width)
}

/// The text of the escalation banner: the note, and below it how to dismiss it.
pub open spec fn banner_text(note: Seq<char>, width: nat) -> Seq<char> {
    padded(" \u{26a0}  "@ + note + " "@, width) + "\n"@ + padded(
        " Press any key to dismiss"@,
        width,
    )
}

/// The heights of the rows: only an escalation note makes room for the banner.
pub open spec fn popup_heights(has_escalation: bool) -> RowHeights {
    RowHeights {
        title: 1,
        tabs: 1,
        banner: if has_escalation {
            2
        } else {
            0
        },
        content: 0,
        footer: 1,
    }
}

/// What is drawn of the escalation note, in its row.
pub open spec fn banner_ops(
    note: Option<String>,
    row: Rect,
    colors: ShellPopupColors,
) -> Seq<DrawOpView> {
    match note {
        Some(note) => seq![
            DrawOpView::Text {
                area: row,
                text: banner_text(note@, row.width as nat),
                style: colored(colors.escalation_fg, colors.escalation_bg),
            },
        ],
        None => seq![],
    }
}

/// All that is drawn for the popup, in order, where its five rows are given.
pub open spec fn popup_ops(
    popup: ShellPopup,
    popup_area: Rect,
    rows: Seq<Rect>,
    agent_lines: Seq<Line>,
    terminal_lines: Seq<Line>,
    colors: ShellPopupColors,
) -> Seq<DrawOpView> {
    let visible_height = rows[3].height as nat;
    let start_line = tab_start(popup, agent_lines, terminal_lines, visible_height);
    let footer = tab_footer_text(popup.active_tab, active_offset(popup) as int, start_line);
    seq![
        DrawOpView::Clear { area: popup_area },
        DrawOpView::Border {
            area: popup_area,
            title: popup.task_title@,
            style: foreground(colors.border),
        },
        DrawOpView::Text {
            area: rows[0],
            text: title_text(popup.task_title@, rows[0].width as nat),
            style: colored(colors.header_fg, colors.header_bg),
        },
        DrawOpView::Lines { area: rows[1], lines: seq![tab_bar(popup.active_tab, colors)] },
    ] + banner_ops(popup.escalation_note, rows[2], colors) + seq![
        DrawOpView::Lines {
            area: rows[3],
            lines: tab_content(popup, agent_lines, terminal_lines, visible_height),
        },
        DrawOpView::Text {
            area: rows[4],
            text: padded(footer, rows[4].width as nat),
            style: colored(colors.footer_fg, colors.footer_bg),
        },
    ]
}

/// The style for a foreground and a background colour.
fn two_colors(fg: Color, bg: Color) -> (res: Style)
    ensures
        res == colored(fg, bg),
{
    Style::default().fg(fg).bg(bg)
}

/// The colour of a line of a diff: added and removed lines, the headers of hunks and of files,
/// and the rest.
pub fn diff_line_color(line: &str) -> (res: Color)
    ensures
        res == diff_color(line@),
{
    if has_prefix(line, "+") && !has_prefix(line, "+++") {
        Color::Green
    } else if has_prefix(line, "-") && !has_prefix(line, "---") {
        Color::Red
    } else if has_prefix(line, "@@") {
        Color::Cyan
    } else if has_prefix(line, "diff ") || has_prefix(line, "index ") {
        Color::Yellow
    } else {
        Color::White
    }
}

/// A line of one span.
fn single_span(content: &str, style: Style) -> (res: Line)
    ensures
        res@ == line_of(seq![SpanView { content: content@, style }]),
{
    let mut spans: Vec<Span> = Vec::new();
    spans.push(Span::styled(content.to_string(), style));
    let line = Line::of(spans);
    assert(line@.spans =~= seq![SpanView { content: content@, style }]);
    line
}

/// The lines of a diff that are on screen, each in its colour.
pub fn visible_diff_lines(diff: &str, scroll: usize, visible_height: usize) -> (res: Vec<Line>)
    ensures
        line_views(res@) == diff_lines(diff@, scroll as nat, visible_height as nat),
{
    let lines = split_lines(diff);
    let ghost views = text_lines(diff@);
    let ghost expected = diff_lines(diff@, scroll as nat, visible_height as nat);
    let mut res: Vec<Line> = Vec::new();
    assert(str_views(lines@).len() == lines@.len());
    let mut i: usize = scroll;
    while i < lines.len() && res.len() < visible_height
        invariant
            views == text_lines(diff@),
            views == str_views(lines@),
            lines@.len() == views.len(),
            expected == diff_lines(diff@, scroll as nat, visible_height as nat),
            i == scroll + res@.len(),
            res@.len() <= visible_height,
            scroll <= views.len() ==> i <= views.len(),
            scroll > views.len() ==> res@.len() == 0,
            res@.len() <= expected.len(),
            forall|j: int| 0 <= j < res@.len() ==> (#[trigger] res@[j])@ == expected[j],
        decreases lines@.len() - i,
    {
        let line = lines[i];
        let ghost at = res@.len() as int;
        assert(views[i as int] == line@);
        assert(expected[at] == diff_line(line@));
        res.push(single_span(line, Style::default().fg(diff_line_color(line))));
        i += 1;
    }
    assert(res@.len() == expected.len());
    assert(line_views(res@) =~= expected);
    res
}

/// The tab bar: three labels, the active one highlighted.
fn build_tab_bar(active_tab: &TaskTab, colors: &ShellPopupColors) -> (res: Line)
    ensures
        res@ == tab_bar(*active_tab, *colors),
{
    let mut spans: Vec<Span> = Vec::new();
    let highlight = two_colors(colors.header_fg, colors.header_bg);
    let plain = two_colors(colors.footer_fg, colors.footer_bg);
    let agent = if *active_tab == TaskTab::Agent {
        highlight
    } else {
        plain
    };
    let diff = if *active_tab == TaskTab::Diff {
        highlight
    } else {
        plain
    };
    let terminal = if *active_tab == TaskTab::Terminal {
        highlight
    } else {
        plain
    };
    spans.push(Span::styled(" 1:Agent ".to_string(), agent));
    spans.push(Span::styled(" 2:Diff ".to_string(), diff));
    spans.push(Span::styled(" 3:Terminal ".to_string(), terminal));
    let line = Line::of(spans);
    assert(line@.spans =~= tab_bar(*active_tab, *colors).spans);
    line
}

/// The text of the title bar.
pub fn build_title_text(title: &str, width: u16) -> (res: String)
    ensures
        res@ == title_text(title@, width as nat),
{
    let mut text = " ".to_string();
    text.append(title);
    text.append(" ");
    pad_right(text, width)
}

/// The text of the escalation banner.
pub fn build_banner_text(note: &str, width: u16) -> (res: String)
    ensures
        res@ == banner_text(note@, width as nat),
{
    let mut text = " \u{26a0}  ".to_string();
    text.append(note);
    text.append(" ");
    let mut banner = pad_right(text, width);
    let hint = pad_right(" Press any key to dismiss".to_string(), width);
    banner.append("\n");
    banner.append(hint.as_str());
    banner
}

/// How far the active tab is scrolled up, as a negative number.
pub fn active_scroll_offset(popup: &ShellPopup) -> (res: i32)
    ensures
        res == active_offset(*popup),
{
    match popup.active_tab {
        TaskTab::Agent => popup.scroll_offset,
        TaskTab::Terminal => popup.terminal_scroll,
        TaskTab::Diff => 0,
    }
}

/// The heights of the rows: only an escalation note makes room for the banner.
pub fn row_heights(has_escalation: bool) -> (res: RowHeights)
    ensures
        res == popup_heights(has_escalation),
{
    let banner: u16 = if has_escalation {
        2
    } else {
        0
    };
    RowHeights { title: 1, tabs: 1, banner, content: 0, footer: 1 }
}

/// All that is drawn for the popup, in order, in rows that are given: title bar, tab bar,
/// escalation banner, content and footer.
pub fn render_in_rows(
    popup: &ShellPopup,
    popup_area: Rect,
    rows: &Vec<Rect>,
    agent_styled_lines: Vec<Line>,
    terminal_styled_lines: Vec<Line>,
    colors: &ShellPopupColors,
) -> (ops: Vec<DrawOp>)
    requires
        rows@.len() == 5,
        active_offset(*popup) > i32::MIN,
    ensures
        op_views(ops@) == popup_ops(
            *popup,
            popup_area,
            rows@,
            agent_styled_lines@,
            terminal_styled_lines@,
            *colors,
        ),
{
    let ghost agent = agent_styled_lines@;
    let ghost terminal = terminal_styled_lines@;
    let mut ops: Vec<DrawOp> = Vec::new();
    ops.push(DrawOp::Clear { area: popup_area });

    // Border with title
    ops.push(
        DrawOp::Border {
            area: popup_area,
            title: popup.task_title.clone(),
            style: Style::default().fg(colors.border),
        },
    );

    // Title bar
    ops.push(
        DrawOp::Text {
            area: rows[0],
            text: build_title_text(popup.task_title.as_str(), rows[0].width),
            style: two_colors(colors.header_fg, colors.header_bg),
        },
    );

    // Tab bar
    let mut tab_lines: Vec<Line> = Vec::new();
    tab_lines.push(build_tab_bar(&popup.active_tab, colors));
    assert(line_views(tab_lines@) =~= seq![tab_bar(popup.active_tab, *colors)]);
    ops.push(DrawOp::Lines { area: rows[1], lines: tab_lines });

    // Escalation banner (if present)
    let ghost before_banner = ops@;
    if let Some(note) = &popup.escalation_note {
        ops.push(
            DrawOp::Text {
                area: rows[2],
                text: build_banner_text(note.as_str(), rows[2].width),
                style: two_colors(colors.escalation_fg, colors.escalation_bg),
            },
        );
    }
    assert(op_views(ops@) =~= op_views(before_banner) + banner_ops(
        popup.escalation_note,
        rows@[2],
        *colors,
    ));

    // Content (per active tab)
    let visible_height = rows[3].height as usize;
    let (lines, start_line) = match popup.active_tab {
        TaskTab::Agent => {
            let (lines, start_line, _) = compute_visible_lines(
                agent_styled_lines,
                visible_height,
                popup.scroll_offset,
            );
            (lines, start_line)
        },
        TaskTab::Diff => {
            let lines = visible_diff_lines(
                popup.diff_content.as_str(),
                popup.diff_scroll,
                visible_height,
            );
            (lines, popup.diff_scroll)
        },
        TaskTab::Terminal => {
            let (lines, start_line, _) = compute_visible_lines(
                terminal_styled_lines,
                visible_height,
                popup.terminal_scroll,
            );
            (lines, start_line)
        },
    };
    let ghost before_content = ops@;
    ops.push(DrawOp::Lines { area: rows[3], lines });

    // Footer with tab-aware keybindings
    let scroll_offset = active_scroll_offset(popup);
    let footer = build_tab_footer_text(&popup.active_tab, scroll_offset, start_line);
    ops.push(
        DrawOp::Text {
            area: rows[4],
            text: pad_right(footer, rows[4].width),
            style: two_colors(colors.footer_fg, colors.footer_bg),
        },
    );
    assert(op_views(ops@) =~= op_views(before_content) + seq![ops@[ops@.len() - 2]@, ops@.last()@]);
    assert(op_views(ops@) =~= popup_ops(*popup, popup_area, rows@, agent, terminal, *colors));
    ops
}

/// Render the shell popup
///
/// This function works out the complete rendering of the shell popup, in the order in which
/// its parts are drawn:
/// - Border with title
/// - Header bar with task title
/// - Tab bar (Agent / Diff / Terminal)
/// - Content area (per active tab)
/// - Footer with scroll status and keybindings
pub fn render_shell_popup(
    popup: &ShellPopup,
    popup_area: Rect,
    agent_styled_lines: Vec<Line>,
    terminal_styled_lines: Vec<Line>,
    colors: &ShellPopupColors,
) -> (ops: Vec<DrawOp>)
    requires
        active_offset(*popup) > i32::MIN,
    ensures
        exists|rows: Seq<Rect>|
            {
                &&& #[trigger] rows_of(
                    inside_border(popup_area),
                    popup_heights(popup.escalation_note is Some),
                    rows,
                )
                &&& op_views(ops@) == popup_ops(
                    *popup,
                    popup_area,
                    rows,
                    agent_styled_lines@,
                    terminal_styled_lines@,
                    *colors,
                )
            },
        rows_fit(inside_border(popup_area), popup_heights(popup.escalation_note is Some))
            ==> op_views(ops@) == popup_ops(
            *popup,
            popup_area,
            stacked_rows(
                inside_border(popup_area),
                popup_heights(popup.escalation_note is Some),
            ),
            agent_styled_lines@,
            terminal_styled_lines@,
            *colors,
        ),
{
    let heights = row_heights(popup.escalation_note.is_some());
    let rows = split_rows(inner_area(popup_area), heights);
    let ops = render_in_rows(
        popup,
        popup_area,
        &rows,
        agent_styled_lines,
        terminal_styled_lines,
        colors,
    );
    assert(rows_of(
        inside_border(popup_area),
        popup_heights(popup.escalation_note is Some),
        rows@,
    ));
    ops
}

/// Nothing is drawn outside the area of the popup.
pub proof fn law_popup_stays_in_its_area(
    popup: ShellPopup,
    popup_area: Rect,
    rows: Seq<Rect>,
    agent_lines: Seq<Line>,
    terminal_lines: Seq<Line>,
    colors: ShellPopupColors,
)
    requires
        popup_area.x + popup_area.width <= u16::MAX,
        popup_area.y + popup_area.height <= u16::MAX,
        rows_of(
            inside_border(popup_area),
            popup_heights(popup.escalation_note is Some),
            rows,
        ),
    ensures
        ({
            let ops = popup_ops(popup, popup_area, rows, agent_lines, terminal_lines, colors);
            forall|i: int| 0 <= i < ops.len() ==> lies_within(area_of(#[trigger] ops[i]), popup_area)
        }),
{
    law_border_leaves_an_inner_area(popup_area);
    assert(forall|i: int| 0 <= i < 5 ==> lies_within(#[trigger] rows[i], popup_area));
}

/// The area is cleared and its border drawn, with the task title in it, before anything else;
/// the task title stands in the title bar too, and a banner is drawn exactly where there is an
/// escalation note.
pub proof fn law_order_of_drawing(
    popup: ShellPopup,
    popup_area: Rect,
    rows: Seq<Rect>,
    agent_lines: Seq<Line>,
    terminal_lines: Seq<Line>,
    colors: ShellPopupColors,
)
    ensures
        ({
            let ops = popup_ops(popup, popup_area, rows, agent_lines, terminal_lines, colors);
            &&& ops.len() == (if popup.escalation_note is Some { 7int } else { 6int })
            &&& ops[0] == (DrawOpView::Clear { area: popup_area })
            &&& ops[1] == (DrawOpView::Border {
                area: popup_area,
                title: popup.task_title@,
                style: foreground(colors.border),
            })
            &&& area_of(ops[2]) == rows[0]
            &&& ops[2]->Text_text == title_text(popup.task_title@, rows[0].width as nat)
            &&& area_of(ops[3]) == rows[1]
            &&& popup.escalation_note is Some ==> area_of(ops[4]) == rows[2]
            &&& area_of(ops[ops.len() - 2]) == rows[3]
            &&& area_of(ops[ops.len() - 1]) == rows[4]
        }),
{
}

/// The rows of text fill their width.
pub proof fn law_text_fills_its_row(
    popup: ShellPopup,
    popup_area: Rect,
    rows: Seq<Rect>,
    agent_lines: Seq<Line>,
    terminal_lines: Seq<Line>,
    colors: ShellPopupColors,
)
    ensures
        ({
            let ops = popup_ops(popup, popup_area, rows, agent_lines, terminal_lines, colors);
            forall|i: int|
                0 <= i < ops.len() ==> ((#[trigger] ops[i]) matches DrawOpView::Text {
                    area,
                    text,
                    style,
                } ==> text.len() >= area.width)
        }),
{
}

/// The label of a tab is highlighted exactly where the tab is the active one.
pub proof fn law_active_tab_is_highlighted(active_tab: TaskTab, colors: ShellPopupColors)
    requires
        colors.header_fg != colors.footer_fg || colors.header_bg != colors.footer_bg,
    ensures
        ({
            let spans = tab_bar(active_tab, colors).spans;
            let highlight = colored(colors.header_fg, colors.header_bg);
            &&& spans.len() == 3
            &&& spans[0].style == highlight <==> active_tab == TaskTab::Agent
            &&& spans[1].style == highlight <==> active_tab == TaskTab::Diff
            &&& spans[2].style == highlight <==> active_tab == TaskTab::Terminal
        }),
{
}

/// No tab shows more lines than the screen is high.
pub proof fn law_content_fits_on_screen(
    popup: ShellPopup,
    agent_lines: Seq<Line>,
    terminal_lines: Seq<Line>,
    visible_height: nat,
)
    ensures
        tab_content(popup, agent_lines, terminal_lines, visible_height).len() <= visible_height,
{
    law_screen_is_a_window(agent_lines, visible_height, popup.scroll_offset as int);
    law_screen_is_a_window(terminal_lines, visible_height, popup.terminal_scroll as int);
}

/// A popup that is too low for all of its rows shows no content.
pub proof fn law_content_gives_way_first(
    popup: ShellPopup,
    popup_area: Rect,
    rows: Seq<Rect>,
    agent_lines: Seq<Line>,
    terminal_lines: Seq<Line>,
)
    requires
        rows_of(
            inside_border(popup_area),
            popup_heights(popup.escalation_note is Some),
            rows,
        ),
        !rows_fit(
            inside_border(popup_area),
            popup_heights(popup.escalation_note is Some),
        ),
    ensures
        rows[3].height == 0,
        tab_content(popup, agent_lines, terminal_lines, rows[3].height as nat).len() == 0,
{
    law_content_fits_on_screen(popup, agent_lines, terminal_lines, 0);
}

/// The text of an escalation note.
pub open spec fn note_text(note: Option<String>) -> Option<Seq<char>> {
    match note {
        Some(note) => Some(note@),
        None => None,
    }
}

/// What is drawn depends on the task title, the escalation note, the active tab, and what
/// belongs to that tab: two popups that agree on these are drawn alike.
pub proof fn law_only_the_active_tab_is_drawn(
    popup: ShellPopup,
    other: ShellPopup,
    popup_area: Rect,
    rows: Seq<Rect>,
    agent_lines: Seq<Line>,
    terminal_lines: Seq<Line>,
    other_agent_lines: Seq<Line>,
    other_terminal_lines: Seq<Line>,
    colors: ShellPopupColors,
)
    requires
        popup.task_title@ == other.task_title@,
        note_text(popup.escalation_note) == note_text(other.escalation_note),
        popup.active_tab == other.active_tab,
        popup.active_tab == TaskTab::Agent ==> agent_lines == other_agent_lines
            && popup.scroll_offset == other.scroll_offset,
        popup.active_tab == TaskTab::Diff ==> popup.diff_content@ == other.diff_content@
            && popup.diff_scroll == other.diff_scroll,
        popup.active_tab == TaskTab::Terminal ==> terminal_lines == other_terminal_lines
            && popup.terminal_scroll == other.terminal_scroll,
    ensures
        popup_heights(popup.escalation_note is Some) == popup_heights(
            other.escalation_note is Some,
        ),
        popup_ops(popup, popup_area, rows, agent_lines, terminal_lines, colors) == popup_ops(
            other,
            popup_area,
            rows,
            other_agent_lines,
            other_terminal_lines,
            colors,
        ),
{
}

/// The view of drawing steps holds all that they hold, in order.
pub proof fn law_op_views_hold_everything(ops: Seq<DrawOp>, i: int)
    requires
        0 <= i < ops.len(),
    ensures
        op_views(ops).len() == ops.len(),
        ops[i] matches DrawOp::Clear { area } ==> op_views(ops)[i] == (DrawOpView::Clear { area }),
        ops[i] matches DrawOp::Border { area, title, style } ==> op_views(ops)[i] == (
        DrawOpView::Border { area, title: title@, style }),
        ops[i] matches DrawOp::Text { area, text, style } ==> op_views(ops)[i] == (
        DrawOpView::Text { area, text: text@, style }),
        ops[i] matches DrawOp::Lines { area, lines } ==> op_views(ops)[i] == (DrawOpView::Lines {
            area,
            lines: line_views(lines@),
        }),
{
}

/// Where the label of a tab stands in the tab bar.
pub open spec fn tab_position(tab: TaskTab) -> int {
    match tab {
        TaskTab::Agent => 0,
        TaskTab::Diff => 1,
        TaskTab::Terminal => 2,
    }
}

/// The tab bar holds the labels of the three tabs, numbered in order. Whichever tab is active,
/// its label has the colours of the header and the others have those of the footer.
pub proof fn law_tab_bar(tab: TaskTab, active_tab: TaskTab, colors: ShellPopupColors)
    ensures
        ({
            let bar = tab_bar(active_tab, colors);
            let style = bar.spans[tab_position(tab)].style;
            &&& bar.spans.len() == 3
            &&& bar.spans[0].content == " 1:Agent "@
            &&& bar.spans[1].content == " 2:Diff "@
            &&& bar.spans[2].content == " 3:Terminal "@
            &&& tab == active_tab ==> style.fg == Some(colors.header_fg) && style.bg == Some(
                colors.header_bg,
            )
            &&& tab != active_tab ==> style.fg == Some(colors.footer_fg) && style.bg == Some(
                colors.footer_bg,
            )
            &&& style.underline_color is None && style.add_modifier == 0 && style.sub_modifier == 0
            &&& bar.style == plain_style() && bar.alignment is None
        }),
{
}

/// The next tab is the one whose label comes next in the tab bar, and the first after the last:
/// the highlight moves one label to the right.
pub proof fn law_next_tab_is_to_the_right(active_tab: TaskTab, colors: ShellPopupColors)
    ensures
        tab_position(next_tab(active_tab)) == (tab_position(active_tab) + 1) % 3,
        tab_bar(next_tab(active_tab), colors).spans[(tab_position(active_tab) + 1) % 3].style
            == tab_bar(active_tab, colors).spans[tab_position(active_tab)].style,
{
}

/// The title bar holds the task title between two spaces, and spaces fill it up to its width.
pub proof fn law_title_bar(title: Seq<char>, width: nat)
    ensures
        ({
            let text = title_text(title, width);
            &&& text.len() == (if title.len() + 2 < width { width } else { title.len() + 2 })
            &&& text[0] == ' '
            &&& text.subrange(1, title.len() as int + 1) == title
            &&& forall|i: int| title.len() < i < text.len() ==> text[i] == ' '
        }),
{
    reveal_strlit(" ");
    assert(title_text(title, width).subrange(1, title.len() as int + 1) =~= title);
}

/// The banner has two rows. The first holds a warning sign and the note, the second says how to
/// dismiss it, and spaces fill both up to the width.
pub proof fn law_banner(note: Seq<char>, width: nat)
    ensures
        ({
            let text = banner_text(note, width);
            let hint = " Press any key to dismiss"@;
            let first = if note.len() + 5 < width { width as int } else { note.len() as int + 5 };
            let second = if hint.len() < width { width as int } else { hint.len() as int };
            &&& text.len() == first + 1 + second
            &&& text.take(4) == seq![' ', '\u{26a0}', ' ', ' ']
            &&& text.subrange(4, note.len() as int + 4) == note
            &&& forall|i: int| note.len() + 4 <= i < first ==> text[i] == ' '
            &&& text[first] == '\n'
            &&& text.subrange(first + 1, first + 1 + hint.len()) == hint
            &&& forall|i: int| first + 1 + hint.len() <= i < text.len() ==> text[i] == ' '
        }),
{
    reveal_strlit(" ");
    reveal_strlit("\n");
    reveal_strlit(" \u{26a0}  ");
    let text = banner_text(note, width);
    let hint = " Press any key to dismiss"@;
    let first = if note.len() + 5 < width { width as int } else { note.len() as int + 5 };
    let line = padded(" \u{26a0}  "@ + note + " "@, width);
    assert(line.len() == first);
    assert(text.take(4) =~= seq![' ', '\u{26a0}', ' ', ' ']);
    assert(text.subrange(4, note.len() as int + 4) =~= note);
    assert(text.subrange(first + 1, first + 1 + hint.len()) =~= hint);
}

/// Whether the first characters of a line are the given ones.
pub open spec fn begins(line: Seq<char>, first: Seq<char>) -> bool {
    line.len() >= first.len() && forall|i: int|
        0 <= i < first.len() ==> line[i] == #[trigger] first[i]
}

/// The colours of a diff: added lines are green and removed ones red, but not the headers that
/// name the files; the headers of hunks are cyan, those of files yellow, and all else is white.
pub proof fn law_diff_colours(line: Seq<char>)
    ensures
        diff_color(line) == Color::Green <==> begins(line, seq!['+']) && !begins(
            line,
            seq!['+', '+', '+'],
        ),
        diff_color(line) == Color::Red <==> begins(line, seq!['-']) && !begins(
            line,
            seq!['-', '-', '-'],
        ),
        diff_color(line) == Color::Cyan <==> begins(line, seq!['@', '@']),
        diff_color(line) == Color::Yellow <==> begins(line, seq!['d', 'i', 'f', 'f', ' '])
            || begins(line, seq!['i', 'n', 'd', 'e', 'x', ' ']),
        diff_color(line) is Green || diff_color(line) is Red || diff_color(line) is Cyan
            || diff_color(line) is Yellow || diff_color(line) is White,
{
    lemma_begins(line, "+"@);
    lemma_begins(line, "+++"@);
    lemma_begins(line, "-"@);
    lemma_begins(line, "---"@);
    lemma_begins(line, "@@"@);
    lemma_begins(line, "diff "@);
    lemma_begins(line, "index "@);
    reveal_strlit("+");
    reveal_strlit("+++");
    reveal_strlit("-");
    reveal_strlit("---");
    reveal_strlit("@@");
    reveal_strlit("diff ");
    reveal_strlit("index ");
    assert("+"@ =~= seq!['+']);
    assert("+++"@ =~= seq!['+', '+', '+']);
    assert("-"@ =~= seq!['-']);
    assert("---"@ =~= seq!['-', '-', '-']);
    assert("@@"@ =~= seq!['@', '@']);
    assert("diff "@ =~= seq!['d', 'i', 'f', 'f', ' ']);
    assert("index "@ =~= seq!['i', 'n', 'd', 'e', 'x', ' ']);
    let plus = seq!['+'];
    let minus = seq!['-'];
    let hunk = seq!['@', '@'];
    let file = seq!['d', 'i', 'f', 'f', ' '];
    let index = seq!['i', 'n', 'd', 'e', 'x', ' '];
    assert(plus[0] == '+' && minus[0] == '-' && hunk[0] == '@' && file[0] == 'd' && index[0]
        == 'i');
}

proof fn lemma_begins(line: Seq<char>, first: Seq<char>)
    ensures
        first.is_prefix_of(line) <==> begins(line, first),
{
    if first.is_prefix_of(line) {
        assert forall|i: int| 0 <= i < first.len() implies line[i] == #[trigger] first[i] by {
            assert(line.subrange(0, first.len() as int)[i] == line[i]);
        }
    }
    if begins(line, first) {
        assert(line.subrange(0, first.len() as int) =~= first);
    }
}

/// The Diff tab shows the lines of the diff from the one scrolled to, one after the other, until
/// the screen is full or the diff ends. Each is one span in the colour of the line.
pub proof fn law_diff_is_shown_from_the_line_scrolled_to(
    diff: Seq<char>,
    scroll: nat,
    visible_height: nat,
)
    ensures
        ({
            let lines = text_lines(diff);
            let shown = diff_lines(diff, scroll, visible_height);
            let left = if lines.len() > scroll { lines.len() - scroll } else { 0 };
            &&& shown.len() == (if left < visible_height { left } else { visible_height as int })
            &&& forall|i: int|
                0 <= i < shown.len() ==> {
                    &&& (#[trigger] shown[i]).spans.len() == 1
                    &&& shown[i].spans[0].content == lines[scroll + i]
                    &&& shown[i].spans[0].style.fg == Some(diff_color(lines[scroll + i]))
                    &&& shown[i].spans[0].style.bg is None
                    &&& shown[i].spans[0].style.underline_color is None
                    &&& shown[i].spans[0].style.add_modifier == 0
                    &&& shown[i].spans[0].style.sub_modifier == 0
                    &&& shown[i].style == plain_style()
                    &&& shown[i].alignment is None
                }
        }),
{
}

/// Scrolled to its start, a diff is shown from its first line, and scrolling on by one line drops
/// exactly the first line shown and brings in the one after the last.
pub proof fn law_diff_scrolls_by_lines(diff: Seq<char>, scroll: nat, visible_height: nat)
    ensures
        text_lines(diff).len() > 0 && visible_height > 0 ==> diff_lines(
            diff,
            0,
            visible_height,
        )[0].spans[0].content == text_lines(diff)[0],
        text_lines(diff).len() > scroll ==> diff_lines(diff, scroll, visible_height + 1).skip(1)
            == diff_lines(diff, scroll + 1, visible_height),
        diff_lines(diff, scroll, visible_height + 1).take(
            diff_lines(diff, scroll, visible_height).len() as int,
        ) == diff_lines(diff, scroll, visible_height),
{
    if text_lines(diff).len() > scroll {
        assert(diff_lines(diff, scroll, visible_height + 1).skip(1) =~= diff_lines(
            diff,
            scroll + 1,
            visible_height,
        ));
    }
    assert(diff_lines(diff, scroll, visible_height + 1).take(
        diff_lines(diff, scroll, visible_height).len() as int,
    ) =~= diff_lines(diff, scroll, visible_height));
}

/// What an active tab shows on a screen: the Agent and the Terminal tab the window of their lines
/// at their own offset, the Diff tab the diff from the line scrolled to. The line named in the
/// footer is the first of these.
pub proof fn law_tabs_show_their_own_lines(
    popup: ShellPopup,
    agent_lines: Seq<Line>,
    terminal_lines: Seq<Line>,
    visible_height: nat,
)
    ensures
        ({
            let content = tab_content(popup, agent_lines, terminal_lines, visible_height);
            let start = tab_start(popup, agent_lines, terminal_lines, visible_height);
            let agent = popup.scroll_offset as int;
            let terminal = popup.terminal_scroll as int;
            &&& popup.active_tab is Agent ==> {
                &&& content == line_views(visible_lines(agent_lines, visible_height, agent))
                &&& start == view_start(agent_lines, visible_height, agent)
                &&& active_offset(popup) == popup.scroll_offset
            }
            &&& popup.active_tab is Terminal ==> {
                &&& content == line_views(visible_lines(terminal_lines, visible_height, terminal))
                &&& start == view_start(terminal_lines, visible_height, terminal)
                &&& active_offset(popup) == popup.terminal_scroll
            }
            &&& popup.active_tab is Diff ==> {
                &&& content == diff_lines(
                    popup.diff_content@,
                    popup.diff_scroll as nat,
                    visible_height,
                )
                &&& start == popup.diff_scroll
                &&& active_offset(popup) == 0
            }
        }),
{
}

/// A shell tab that is not scrolled up shows the last of its lines, as many as the screen is high.
pub proof fn law_shell_tabs_show_the_last_lines_at_the_bottom(
    popup: ShellPopup,
    agent_lines: Seq<Line>,
    terminal_lines: Seq<Line>,
    visible_height: nat,
)
    ensures
        ({
            let content = tab_content(popup, agent_lines, terminal_lines, visible_height);
            &&& popup.active_tab is Agent && popup.scroll_offset >= 0 ==> content == line_views(
                agent_lines,
            ).skip(
                if agent_lines.len() > visible_height {
                    agent_lines.len() - visible_height
                } else {
                    0
                },
            )
            &&& popup.active_tab is Terminal && popup.terminal_scroll >= 0 ==> content
                == line_views(terminal_lines).skip(
                if terminal_lines.len() > visible_height {
                    terminal_lines.len() - visible_height
                } else {
                    0
                },
            )
        }),
{
    let content = tab_content(popup, agent_lines, terminal_lines, visible_height);
    if popup.active_tab is Agent && popup.scroll_offset >= 0 {
        let offset = popup.scroll_offset as int;
        law_bottom_shows_the_last_lines(agent_lines, visible_height, offset);
        assert(content =~= line_views(agent_lines).skip(
            if agent_lines.len() > visible_height { agent_lines.len() - visible_height } else { 0 },
        ));
    }
    if popup.active_tab is Terminal && popup.terminal_scroll >= 0 {
        let offset = popup.terminal_scroll as int;
        law_bottom_shows_the_last_lines(terminal_lines, visible_height, offset);
        assert(content =~= line_views(terminal_lines).skip(
            if terminal_lines.len() > visible_height {
                terminal_lines.len() - visible_height
            } else {
                0
            },
        ));
    }
}

/// The two shell tabs show the same of the same lines at the same offset, and name the same line.
pub proof fn law_shell_tabs_show_alike(
    popup: ShellPopup,
    other: ShellPopup,
    agent_lines: Seq<Line>,
    terminal_lines: Seq<Line>,
    lines: Seq<Line>,
    visible_height: nat,
)
    requires
        popup.active_tab is Agent,
        other.active_tab is Terminal,
        popup.scroll_offset == other.terminal_scroll,
    ensures
        tab_content(popup, lines, terminal_lines, visible_height) == tab_content(
            other,
            agent_lines,
            lines,
            visible_height,
        ),
        tab_start(popup, lines, terminal_lines, visible_height) == tab_start(
            other,
            agent_lines,
            lines,
            visible_height,
        ),
        active_offset(popup) == active_offset(other),
{
}

/// The heights of the rows: title bar, tab bar and footer have one line each, the content asks for
/// none, and the banner has two lines exactly where there is a note.
pub proof fn law_heights_of_the_rows(has_escalation: bool)
    ensures
        popup_heights(has_escalation).title == 1,
        popup_heights(has_escalation).tabs == 1,
        popup_heights(has_escalation).content == 0,
        popup_heights(has_escalation).footer == 1,
        has_escalation ==> popup_heights(has_escalation).banner == 2,
        !has_escalation ==> popup_heights(has_escalation).banner == 0,
{
}

/// Whether a style sets two colours and nothing else.
pub open spec fn only_colors(style: Style, fg: Color, bg: Color) -> bool {
    &&& style.fg == Some(fg)
    &&& style.bg == Some(bg)
    &&& style.underline_color is None
    &&& style.add_modifier == 0
    &&& style.sub_modifier == 0
}

/// Each part of the popup stands in its own row, with its own text and colours: the title bar, the
/// tab bar, the banner where there is a note, the content, and the footer, which names the first
/// line of the content and fills its row.
pub proof fn law_parts_of_the_popup(
    popup: ShellPopup,
    popup_area: Rect,
    rows: Seq<Rect>,
    agent_lines: Seq<Line>,
    terminal_lines: Seq<Line>,
    colors: ShellPopupColors,
)
    ensures
        ({
            let ops = popup_ops(popup, popup_area, rows, agent_lines, terminal_lines, colors);
            let n = ops.len() as int;
            let height = rows[3].height as nat;
            let start = tab_start(popup, agent_lines, terminal_lines, height);
            let footer = tab_footer_text(popup.active_tab, active_offset(popup) as int, start);
            &&& ops[0] == (DrawOpView::Clear { area: popup_area })
            &&& ops[1] matches DrawOpView::Border { area, title, style } && {
                &&& area == popup_area
                &&& title == popup.task_title@
                &&& style.fg == Some(colors.border) && style.bg is None
                &&& style.underline_color is None && style.add_modifier == 0 && style.sub_modifier
                    == 0
            }
            &&& ops[2] matches DrawOpView::Text { area, text, style } && {
                &&& area == rows[0]
                &&& text == title_text(popup.task_title@, rows[0].width as nat)
                &&& only_colors(style, colors.header_fg, colors.header_bg)
            }
            &&& ops[3] == (DrawOpView::Lines {
                area: rows[1],
                lines: seq![tab_bar(popup.active_tab, colors)],
            })
            &&& popup.escalation_note is None ==> n == 6
            &&& popup.escalation_note matches Some(note) ==> n == 7 && (ops[4] matches
                DrawOpView::Text { area, text, style } && {
                &&& area == rows[2]
                &&& text == banner_text(note@, rows[2].width as nat)
                &&& only_colors(style, colors.escalation_fg, colors.escalation_bg)
            })
            &&& ops[n - 2] == (DrawOpView::Lines {
                area: rows[3],
                lines: tab_content(popup, agent_lines, terminal_lines, height),
            })
            &&& ops[n - 1] matches DrawOpView::Text { area, text, style } && {
                &&& area == rows[4]
                &&& text == padded(footer, rows[4].width as nat)
                &&& only_colors(style, colors.footer_fg, colors.footer_bg)
            }
        }),
{
}

/// In the history the line that the footer names is the first line drawn: it holds that line of
/// the active tab.
pub proof fn law_footer_names_the_first_line_drawn(
    popup: ShellPopup,
    agent_lines: Seq<Line>,
    terminal_lines: Seq<Line>,
    visible_height: nat,
)
    requires
        tab_content(popup, agent_lines, terminal_lines, visible_height).len() > 0,
    ensures
        ({
            let first = tab_content(popup, agent_lines, terminal_lines, visible_height)[0];
            let start = tab_start(popup, agent_lines, terminal_lines, visible_height) as int;
            &&& popup.active_tab is Agent ==> first == line_views(agent_lines)[start]
            &&& popup.active_tab is Terminal ==> first == line_views(terminal_lines)[start]
            &&& popup.active_tab is Diff ==> first.spans[0].content == text_lines(
                popup.diff_content@,
            )[start]
        }),
{
    let agent = popup.scroll_offset as int;
    let terminal = popup.terminal_scroll as int;
    law_screen_is_a_window(agent_lines, visible_height, agent);
    law_screen_is_a_window(terminal_lines, visible_height, terminal);
}

} // verus!
