//! A popup over a detached tmux window: its state, which lines of its content are on screen,
//! how captured content is trimmed, and all that is drawn for it.

pub mod footer;
pub mod layout;
pub mod popup;
pub mod render;
pub mod style;
pub mod text;
pub mod trim;
pub mod view;

pub use footer::{build_footer_text, build_tab_footer_text};
pub use layout::Rect;
pub use popup::{ShellPopup, TaskTab};
pub use render::{render_shell_popup, DrawOp, ShellPopupColors};
pub use style::{Alignment, Color, Line, Span, Style};
pub use trim::{trim_content_to_cursor, trim_trailing_empty_lines, MAX_TRAILING_EMPTY_LINES};
pub use view::{compute_visible_lines, ShellPopupView};
