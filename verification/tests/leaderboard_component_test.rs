use termitype::geometry::Rect;
use termitype::tui::components::leaderboard::{LeaderboardOverlay, SortOrder};
use termitype::tui::components::modal_dialog::ModalContext;
use termitype::ui::components::leaderboard::{LeaderboardComponent, LeaderboardStatus};
use termitype::ui::components::modal::ModalComponent;

fn texts(pieces: &[(String, bool)]) -> Vec<(&str, bool)> {
    pieces.iter().map(|p| (p.0.as_str(), p.1)).collect()
}

#[test]
fn header_labels_accent_the_shortcut_letter() {
    assert_eq!(texts(&LeaderboardComponent::create_header_labels("WPM")), vec![("W", true), ("PM", false)]);
    assert_eq!(
        texts(&LeaderboardComponent::create_header_labels("Chars")),
        vec![("C", false), ("h", true), ("ars", false)]
    );
    assert_eq!(texts(&LeaderboardComponent::create_header_labels("Streak")), vec![("Streak", false)]);
}

#[test]
fn header_cells_mark_the_sorted_column() {
    let cells = LeaderboardComponent::header_cells(&["WPM", "Date"], 1, SortOrder::Descending);
    assert_eq!(cells.len(), 2);
    assert_eq!(texts(&cells[0]), vec![("W", true), ("PM", false)]);
    assert_eq!(texts(&cells[1]), vec![("D", true), ("ate", false), (" ↓", false)]);
    let none = LeaderboardComponent::header_cells(&["Mode"], 5, SortOrder::Ascending);
    assert_eq!(texts(&none[0]), vec![("M", true), ("ode", false)]);
}

#[test]
fn chars_cell_counts_correct_and_wrong_keystrokes() {
    assert_eq!(LeaderboardComponent::chars_text(180, 200), "180/20/0/0");
    assert_eq!(LeaderboardComponent::chars_text(5, 3), "5/0/0/0");
}

#[test]
fn status_line_reports_sorting_and_loading() {
    let mut status = LeaderboardStatus {
        has_results: true,
        sort_column: "WPM".to_string(),
        order: SortOrder::Ascending,
        shown: 25,
        count: 120,
        is_loading: false,
        error: None,
    };
    assert_eq!(LeaderboardComponent::footer_text(&status), "Sorted by WPM ↑ • Showing 25 of 120 results");
    status.is_loading = true;
    assert_eq!(
        LeaderboardComponent::footer_text(&status),
        "Sorted by WPM ↑ • Showing 25 of 120 results  Loading more..."
    );
    status.has_results = false;
    assert_eq!(LeaderboardComponent::footer_text(&status), "Loading...");
    status.error = Some("disk full".to_string());
    assert_eq!(LeaderboardComponent::footer_text(&status), "Error: disk full");
}

#[test]
fn close_button_sits_in_the_top_right_corner() {
    let area = Rect { x: 10, y: 4, width: 40, height: 12 };
    assert_eq!(LeaderboardComponent::close_area(area), Rect { x: 47, y: 4, width: 3, height: 1 });
}

#[test]
fn modal_input_line_splits_at_the_cursor() {
    let line = ModalComponent::render_modal_input_field("45", 1, ModalContext::CustomTime, 30);
    assert_eq!(line.padding, 8);
    assert_eq!(line.before_cursor, "4");
    assert_eq!(line.after_cursor, "5");
    assert_eq!(line.suffix, " second(s)");
    let words = ModalComponent::render_modal_input_field("1200", 4, ModalContext::CustomWordCount, 10);
    assert_eq!(words.padding, 0);
    assert_eq!(words.before_cursor, "1200");
    assert_eq!(words.after_cursor, "");
    assert_eq!(words.suffix, " word(s)");
}

#[test]
fn overlay_status_line_names_the_sorting() {
    assert_eq!(
        LeaderboardOverlay::status_text("raw_wpm", SortOrder::Descending, Some(2), 40),
        "3/40 results  |  Sort: Raw ↓  "
    );
    assert_eq!(
        LeaderboardOverlay::status_text("created_at", SortOrder::Ascending, None, 7),
        "0/7 results  |  Sort: Date ↑  "
    );
    assert_eq!(LeaderboardOverlay::status_text("wpm", SortOrder::Ascending, Some(0), 0), "No results");
    assert_eq!(LeaderboardOverlay::sort_name("streak"), "Unknown");
    assert_eq!(LeaderboardOverlay::sort_name("error_count"), "Errors");
}
