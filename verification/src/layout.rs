//! Where the parts of the popup stand on the screen.

use ratatui::layout::{Constraint, Direction, Layout};
use ratatui::widgets::{Block, Borders};
use vstd::prelude::*;

verus! {

/// An area of the screen, in cells
#[derive(Debug, Clone, Copy, PartialEq, Eq, Structural)]
pub struct Rect {
    pub x: u16,
    pub y: u16,
    pub width: u16,
    pub height: u16,
}

/// The first column to the right of an area, or the last one there is.
pub open spec fn right_of(area: Rect) -> int {
    if area.x + area.width > u16::MAX {
        u16::MAX as int
    } else {
        area.x + area.width
    }
}

/// The first row below an area, or the last one there is.
pub open spec fn below(area: Rect) -> int {
    if area.y + area.height > u16::MAX {
        u16::MAX as int
    } else {
        area.y + area.height
    }
}

/// Whether an area lies within another one.
pub open spec fn lies_within(area: Rect, outer: Rect) -> bool {
    &&& outer.x <= area.x
    &&& area.x + area.width <= right_of(outer)
    &&& outer.y <= area.y
    &&& area.y + area.height <= below(outer)
}

/// What a border one cell wide on all four sides leaves of an area.
pub open spec fn inside_border(area: Rect) -> Rect {
    Rect {
        x: (if area.x + 1 < right_of(area) { area.x + 1 } else { right_of(area) }) as u16,
        y: (if area.y + 1 < below(area) { area.y + 1 } else { below(area) }) as u16,
        width: (if area.width > 2 { area.width - 2 } else { 0 }) as u16,
        height: (if area.height > 2 { area.height - 2 } else { 0 }) as u16,
    }
}

/// `Block::inner` of `ratatui`, for a block with a border on all four sides and neither title
/// nor padding: the area without its outermost cells.
#[verifier::external_body]
pub(crate) fn inner_area(area: Rect) -> (res: Rect)
    ensures
        res == inside_border(area),
{
    let outer = ratatui::layout::Rect {
        x: area.x,
        y: area.y,
        width: area.width,
        height: area.height,
    };
    let inner = Block::default().borders(Borders::ALL).inner(outer);
    Rect { x: inner.x, y: inner.y, width: inner.width, height: inner.height }
}

/// The heights that the rows of the popup ask for: fixed ones, and the least one of the content
#[derive(Debug, Clone, Copy, PartialEq, Eq, Structural)]
pub struct RowHeights {
    pub title: u16,
    pub tabs: u16,
    pub banner: u16,
    pub content: u16,
    pub footer: u16,
}

/// The rows that the heights ask for in an area that is high enough for them: each has its
/// height, and the content has what the others leave.
pub open spec fn stacked_rows(area: Rect, heights: RowHeights) -> Seq<Rect> {
    let tabs_y = area.y + heights.title;
    let banner_y = tabs_y + heights.tabs;
    let content_y = banner_y + heights.banner;
    let footer_y = below(area) - heights.footer;
    seq![
        Rect { height: heights.title, ..area },
        Rect { y: tabs_y as u16, height: heights.tabs, ..area },
        Rect { y: banner_y as u16, height: heights.banner, ..area },
        Rect { y: content_y as u16, height: (footer_y - content_y) as u16, ..area },
        Rect { y: footer_y as u16, height: heights.footer, ..area },
    ]
}

/// Whether an area is high enough for all of its rows.
pub open spec fn rows_fit(area: Rect, heights: RowHeights) -> bool {
    heights.title + heights.tabs + heights.banner + heights.content + heights.footer <= below(area)
        - area.y
}

/// What holds of the rows of an area: there are five, each is as wide as the area and lies
/// between its top and its bottom, they follow one another from its top to its bottom without a
/// gap, they are those asked for where the area is high enough, and otherwise none is higher than
/// it asks to be.
pub open spec fn rows_of(area: Rect, heights: RowHeights, rows: Seq<Rect>) -> bool {
    &&& rows.len() == 5
    &&& forall|i: int|
        0 <= i < 5 ==> (#[trigger] rows[i]).x == area.x && rows[i].width == area.width && area.y
            <= rows[i].y && rows[i].y + rows[i].height <= below(area)
    &&& rows[0].y == area.y
    &&& rows[0].y + rows[0].height == rows[1].y
    &&& rows[1].y + rows[1].height == rows[2].y
    &&& rows[2].y + rows[2].height == rows[3].y
    &&& rows[3].y + rows[3].height == rows[4].y
    &&& rows[4].y + rows[4].height == below(area)
    &&& rows_fit(area, heights) ==> rows == stacked_rows(area, heights)
    &&& !rows_fit(area, heights) ==> {
        &&& rows[0].height <= heights.title
        &&& rows[1].height <= heights.tabs
        &&& rows[2].height <= heights.banner
        &&& rows[3].height <= heights.content
        &&& rows[4].height <= heights.footer
    }
}

/// `Layout::split` of `ratatui`, for rows from top to bottom with no margin: five rows, of which
/// the content has a least height and the others have fixed ones. A row is as wide as the area
/// and does not leave it, the rows fill it without a gap, and where all of them fit each has its
/// height and the content has the rest. In an area that is too low for them no row is higher than it
/// asks to be, and nothing is said of which rows give way: the constraint solver underneath goes
/// through hash maps with a seed of their own.
#[verifier::external_body]
pub(crate) fn split_rows(area: Rect, heights: RowHeights) -> (rows: Vec<Rect>)
    ensures
        rows_of(area, heights, rows@),
{
    let whole = ratatui::layout::Rect {
        x: area.x,
        y: area.y,
        width: area.width,
        height: area.height,
    };
    let layout = Layout::default().direction(Direction::Vertical).constraints([
        Constraint::Length(heights.title),
        Constraint::Length(heights.tabs),
        Constraint::Length(heights.banner),
        Constraint::Min(heights.content),
        Constraint::Length(heights.footer),
    ]);
    let rows = layout.split(whole);
    rows.iter().map(|r| Rect { x: r.x, y: r.y, width: r.width, height: r.height }).collect()
}

/// What a border leaves of an area lies within it: one cell is taken off each side, as far as
/// there are cells.
pub proof fn law_border_leaves_an_inner_area(area: Rect)
    requires
        area.x + area.width <= u16::MAX,
        area.y + area.height <= u16::MAX,
    ensures
        lies_within(inside_border(area), area),
        area.width >= 2 && area.height >= 2 ==> inside_border(area) == (Rect {
            x: (area.x + 1) as u16,
            y: (area.y + 1) as u16,
            width: (area.width - 2) as u16,
            height: (area.height - 2) as u16,
        }),
        area.width >= 2 ==> inside_border(area).x == area.x + 1 && inside_border(area).width + 2
            == area.width,
        area.height >= 2 ==> inside_border(area).y == area.y + 1 && inside_border(area).height + 2
            == area.height,
        area.width < 2 ==> inside_border(area).x == area.x + area.width && inside_border(area).width
            == 0,
        area.height < 2 ==> inside_border(area).y == area.y + area.height && inside_border(
            area,
        ).height == 0,
{
}

/// An area ends where its size says, but no further than the screen can be counted.
pub proof fn law_edges_of_an_area(area: Rect)
    ensures
        right_of(area) <= u16::MAX && below(area) <= u16::MAX,
        area.x + area.width <= u16::MAX ==> right_of(area) == area.x + area.width,
        area.y + area.height <= u16::MAX ==> below(area) == area.y + area.height,
        area.x + area.width >= u16::MAX ==> right_of(area) == u16::MAX,
        area.y + area.height >= u16::MAX ==> below(area) == u16::MAX,
{
}

/// The rows of an area lie within it.
pub proof fn law_rows_lie_within_the_area(area: Rect, heights: RowHeights, rows: Seq<Rect>)
    requires
        rows_of(area, heights, rows),
        area.x + area.width <= u16::MAX,
    ensures
        forall|i: int| 0 <= i < 5 ==> lies_within(#[trigger] rows[i], area),
{
}

/// The rows of an area follow one another without a gap, from its top to its bottom, whatever
/// its height, so that their heights add up to what can be seen of it; where it is high enough
/// for them they have the heights asked for.
pub proof fn law_rows_tile_the_area(area: Rect, heights: RowHeights, rows: Seq<Rect>)
    requires
        rows_of(area, heights, rows),
    ensures
        rows[0].y == area.y,
        rows[0].y + rows[0].height == rows[1].y,
        rows[1].y + rows[1].height == rows[2].y,
        rows[2].y + rows[2].height == rows[3].y,
        rows[3].y + rows[3].height == rows[4].y,
        rows[4].y + rows[4].height == below(area),
        rows[0].height + rows[1].height + rows[2].height + rows[3].height + rows[4].height
            == below(area) - area.y,
        heights.title + heights.tabs + heights.banner + heights.content + heights.footer <= below(
            area,
        ) - area.y ==> {
            &&& rows[0].height == heights.title
            &&& rows[1].height == heights.tabs
            &&& rows[2].height == heights.banner
            &&& rows[3].height >= heights.content
            &&& rows[4].height == heights.footer
        },
{
}

/// Only the content gets more than it asks for, and only where there is room for all rows.
pub proof fn law_no_row_gets_more_than_it_asks_for(
    area: Rect,
    heights: RowHeights,
    rows: Seq<Rect>,
)
    requires
        rows_of(area, heights, rows),
    ensures
        rows[0].height <= heights.title,
        rows[1].height <= heights.tabs,
        rows[2].height <= heights.banner,
        rows[4].height <= heights.footer,
        rows[3].height > heights.content ==> rows_fit(area, heights),
{
}

} // verus!
