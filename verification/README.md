# shell_popup

The logic of a terminal popup over a detached tmux window, verified with Verus: its tabs and
scroll state (`popup`), the lines that are on screen (`view`), the trimming of captured pane
content (`trim`), the footer (`footer`), where its parts stand (`layout`) and all that is drawn
for it, in order (`render`). `text` and `style` hold what these share: lines, padding and
decimal numbers, and styled text.

`src/` is the verified library, `tests/` its tests, and `app/` draws the popup on a `ratatui`
frame.
