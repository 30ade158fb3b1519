# termitype

The layout and text logic of termitype, a terminal typing test, verified with Verus:
where the words of the test go on the screen, how the typed text is styled, how the
screen, the pickers, the notifications and the results are laid out, and how the style
variants are named and parsed.

## Layout

- `src/` — the verified library.
  - `geometry` — rectangles, constraints and paddings; the calls into ratatui's layout
    solver and block borders.
  - `text` — words and lines of a text.
  - `variants` — cursor, picker and results styles.
  - `utils` — time stamps.
  - `ui` — the typing screen: word placement (`ui::utils`, `ui::helpers::utils`,
    `ui::components`), styled typing text (`ui::components::typing_area`,
    `ui::elements`), the settings bars and footer and their clickable regions
    (`ui::components::action_bar`, `ui::components::bars`), the progress line, the
    size notice, menu lines (`ui::helpers::menu`), the screen's sections (`ui::layout`),
    centering helpers, results placement, the theme preview's areas (`ui::render`), the
    results summary's whole-number parts (`ui::components::results_widget`).
  - `tui` — the newer interface: main layout, text wrapping, typing-line cache and the
    styles of the target text, mode line, size notice, notifications, pickers,
    leaderboard, results screens (plain, footer, neofetch layout).
- `tests/` — tests of the library on concrete values.
- `app/` — what is not verified: conversions to ratatui and crossterm types, serde forms
  of the variants, the configuration directory and files.

Where ratatui's layout solver divides an area, a contract states what holds of every
outcome of the solve (one part per constraint, each spanning the area across the divided
axis and lying within it along that axis, the parts following each other from the area's
start) and, where the constraints can all be met with nothing to trade off, the exact
parts (`geometry::solved_split`); where they conflict, the solver's trade-off is left
unstated, since it may break ties differently from one run to the next. Each public function states its result in its `ensures`; the laws relating several
functions are public proof functions named `lemma_*`. The calls into ratatui and
unicode-width, and into `str::to_lowercase`, go through trusted wrappers whose
contracts say what those crates' sources show.
