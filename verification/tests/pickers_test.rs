use ratatui::layout::{Constraint, Direction, Layout};
use ratatui::widgets::{Block, Borders};
use termitype::geometry::Rect;
use termitype::tui::components::pickers::command_palette::{
    fill_width, palette_layout, position_counter, spacer_width,
};
use termitype::tui::components::pickers::telescope::{
    item_indicator, item_text, padded_key, show_bottom_bar, telescope_panels,
};
use termitype::tui::components::pickers::search_bar::{bottom_bar_areas, shows_search_cursor};
use termitype::tui::components::pickers::{current_item_index, ensure_visible, no_items_message, visible_range, Picker};
use termitype::tui::components::modal_dialog::{ModalContext, ModalDialog, ModalKind};
use termitype::tui::renderer::{overlays_for, screen_for, size_warning_rect, Overlays, Screen};
use termitype::tui::components::results::neofetch::{
    keystrokes_text, neofetch_layout, neofetch_mode_text, neofetch_rows, stat_entry_widths, stats_width, NeofetchLayout,
    StatsRow,
};

fn rect(x: u16, y: u16, width: u16, height: u16) -> Rect {
    Rect { x, y, width, height }
}

fn to_ratatui(r: Rect) -> ratatui::layout::Rect {
    ratatui::layout::Rect { x: r.x, y: r.y, width: r.width, height: r.height }
}

fn from_ratatui(r: ratatui::layout::Rect) -> Rect {
    rect(r.x, r.y, r.width, r.height)
}

#[test]
fn picker_heights() {
    assert_eq!(Picker::menu_height(rect(0, 0, 80, 40)), 18);
    assert_eq!(Picker::menu_height(rect(0, 0, 80, 10)), 2);
    assert_eq!(Picker::menu_height(rect(0, 0, 80, 5)), 0);
}

#[test]
fn scrolling_keeps_the_current_item_visible() {
    assert_eq!(ensure_visible(10, 0, 5), 6);
    assert_eq!(ensure_visible(2, 5, 5), 2);
    assert_eq!(ensure_visible(6, 5, 5), 5);
    assert_eq!(ensure_visible(3, 0, 0), 3);
    for current in 0..30usize {
        for scroll in 0..30usize {
            let s = ensure_visible(current, scroll, 4);
            assert!(s <= current && current < s + 4);
        }
    }
}

#[test]
fn telescope_single_panel() {
    let overlay = rect(10, 5, 60, 20);
    assert_eq!(telescope_panels(rect(0, 0, 80, 30), overlay, false, false), (rect(11, 6, 58, 18), rect(0, 0, 0, 0), overlay));
    let tiny = rect(0, 0, 1, 1);
    assert_eq!(telescope_panels(rect(0, 0, 80, 30), tiny, false, true).0, rect(1, 1, 0, 0));
}

#[test]
fn telescope_stacked_panels() {
    let area = rect(0, 0, 70, 30);
    let overlay = termitype::tui::layout::picker_overlay_area(area);
    assert_eq!(overlay, rect(3, 1, 64, 24));
    assert_eq!(telescope_panels(area, overlay, true, false), (rect(4, 2, 62, 10), rect(4, 14, 62, 13), rect(3, 1, 64, 12)));
    assert_eq!(telescope_panels(area, overlay, true, true), (rect(4, 2, 62, 7), rect(4, 14, 62, 13), rect(3, 1, 64, 9)));
}

#[test]
fn telescope_side_by_side_panels() {
    let area = rect(0, 0, 120, 40);
    let overlay = termitype::tui::layout::picker_overlay_area(area);
    let cols = Layout::default()
        .direction(Direction::Horizontal)
        .constraints([Constraint::Percentage(45), Constraint::Length(0), Constraint::Percentage(55)])
        .split(to_ratatui(overlay));
    let border = Block::default().borders(Borders::ALL);
    let left = from_ratatui(cols[0]);
    let right = rect(cols[2].x, overlay.y, cols[2].width, 33);
    let (items, preview, anchor) = telescope_panels(area, overlay, true, false);
    assert_eq!(items, from_ratatui(border.inner(cols[0])));
    assert_eq!(preview, from_ratatui(border.inner(to_ratatui(right))));
    assert_eq!(anchor, left);
}

#[test]
fn telescope_bar_and_items() {
    assert!(show_bottom_bar(rect(0, 0, 120, 40), rect(15, 3, 90, 30), false, true));
    assert!(!show_bottom_bar(rect(0, 0, 70, 30), rect(3, 1, 64, 24), false, true));
    assert!(show_bottom_bar(rect(0, 0, 70, 30), rect(3, 1, 64, 24), true, true));
    assert!(show_bottom_bar(rect(0, 0, 50, 20), rect(0, 0, 50, 17), false, false));
    assert!(!show_bottom_bar(rect(0, 0, 50, 20), rect(0, 0, 50, 17), false, true));
    assert_eq!(item_indicator(true, true, false), "[x]");
    assert_eq!(item_indicator(true, false, true), "[ ]");
    assert_eq!(item_indicator(false, true, true), ">");
    assert_eq!(item_indicator(false, false, false), " ");
    assert_eq!(item_text(">", "Theme"), "> Theme");
    assert_eq!(padded_key("ab", 5), " ab   ");
    assert_eq!(padded_key("abcdef", 3), " abcdef");
    assert_eq!(padded_key("é", 2), " é ");
}

#[test]
fn palette_rows_and_widths() {
    assert_eq!(spacer_width(40, 10, 7, false), 22);
    assert_eq!(spacer_width(40, 10, 0, true), 30);
    assert_eq!(spacer_width(40, 10, 0, false), 0);
    assert_eq!(spacer_width(5, 10, 7, true), 0);
    assert_eq!(fill_width(40, 30, true), 10);
    assert_eq!(fill_width(40, 40, true), 0);
    assert_eq!(fill_width(40, 30, false), 0);
    assert_eq!(position_counter(2, 10), "3/10");
    assert_eq!(position_counter(0, 0), "0/0");
    assert_eq!(position_counter(5, 0), "0/0");
    assert_eq!(position_counter(usize::MAX, 3), format!("{}/3", usize::MAX));
}

#[test]
fn palette_layout_in_a_large_screen() {
    let layout = palette_layout(rect(0, 0, 120, 40));
    assert_eq!(layout.overlay_area, rect(15, 3, 90, 30));
    assert_eq!(layout.items_area, rect(17, 7, 87, 25));
    assert_eq!(layout.available_width, 86);
    let sides = Layout::default()
        .direction(Direction::Horizontal)
        .constraints([Constraint::Percentage(75), Constraint::Percentage(25)])
        .split(ratatui::layout::Rect::new(17, 5, 87, 1));
    assert_eq!(layout.search_area, from_ratatui(sides[0]));
    assert_eq!(layout.counter_area, from_ratatui(sides[1]));
}

#[test]
fn neofetch_layout_shows_art_when_it_fits() {
    let wide = neofetch_layout(100, 30, 30, 18, 40, 16);
    assert_eq!(
        wide,
        NeofetchLayout { show_ascii: true, ascii_width: 30, stats_offset: 1, max_lines: 19, vertical_padding: 5, horizontal_padding: 13 }
    );
    let narrow = neofetch_layout(60, 30, 30, 18, 40, 16);
    assert_eq!(
        narrow,
        NeofetchLayout { show_ascii: false, ascii_width: 0, stats_offset: 0, max_lines: 18, vertical_padding: 6, horizontal_padding: 10 }
    );
    let tiny = neofetch_layout(30, 10, 30, 18, 40, 16);
    assert_eq!((tiny.vertical_padding, tiny.horizontal_padding), (0, 2));

    let rows = neofetch_rows(wide, 18, 16);
    assert_eq!(rows.len(), 19);
    assert_eq!(rows[0], (Some(None), StatsRow::Nothing));
    assert_eq!(rows[1], (Some(Some(0)), StatsRow::Entry(0)));
    assert_eq!(rows[16], (Some(Some(15)), StatsRow::Entry(15)));
    assert_eq!(rows[17], (Some(Some(16)), StatsRow::Gap));
    assert_eq!(rows[18], (Some(Some(17)), StatsRow::Colors));
    let rows = neofetch_rows(narrow, 18, 16);
    assert_eq!(rows.len(), 18);
    assert_eq!(rows[0], (None, StatsRow::Entry(0)));
    assert_eq!(rows[16], (None, StatsRow::Gap));
    assert_eq!(rows[17], (None, StatsRow::Colors));

    assert_eq!(stats_width(12, 4, &[(2, 9), (7, 3)]), 14);
    assert_eq!(stats_width(20, 4, &[(10, 20)]), 32);
}

#[test]
fn search_bar_under_the_panel() {
    let overlay = rect(15, 3, 90, 30);
    let (bar, query, counter) = bottom_bar_areas(overlay, rect(0, 0, 120, 40)).expect("room below");
    assert_eq!(bar, rect(15, 33, 90, 3));
    let inner = Block::default()
        .borders(Borders::ALL)
        .padding(ratatui::widgets::Padding { left: 1, right: 1, top: 0, bottom: 0 })
        .inner(to_ratatui(bar));
    assert_eq!(from_ratatui(inner), rect(17, 34, 86, 1));
    let sides = Layout::default()
        .direction(Direction::Horizontal)
        .constraints([Constraint::Percentage(75), Constraint::Percentage(25)])
        .split(inner);
    assert_eq!((query, counter), (from_ratatui(sides[0]), from_ratatui(sides[1])));
    assert_eq!(bottom_bar_areas(rect(0, 0, 50, 38), rect(0, 0, 50, 40)), None);
    assert!(!shows_search_cursor(true, false));
    assert!(shows_search_cursor(true, true));
    assert!(shows_search_cursor(false, false));
}

#[test]
fn screens_and_size_warning() {
    assert_eq!(screen_for(rect(0, 0, 34, 10), true, false), Screen::TooSmall);
    assert_eq!(screen_for(rect(0, 0, 80, 24), true, true), Screen::Results);
    assert_eq!(screen_for(rect(0, 0, 80, 24), false, true), Screen::Idle);
    assert_eq!(screen_for(rect(0, 0, 80, 24), false, false), Screen::Typing);
    assert_eq!(size_warning_rect(rect(0, 0, 20, 5), 30), Some(rect(0, 1, 20, 2)));
    assert_eq!(size_warning_rect(rect(0, 0, 30, 6), 10), Some(rect(10, 2, 10, 2)));
    assert_eq!(size_warning_rect(rect(0, 0, 30, 1), 10), None);
    assert_eq!(size_warning_rect(rect(0, 0, 0, 9), 10), None);
}

#[test]
fn overlay_precedence() {
    let only = |modal, leaderboard, picker, notifications| Overlays { modal, leaderboard, picker, notifications };
    assert_eq!(overlays_for(true, true, true, false), only(true, false, false, false));
    assert_eq!(overlays_for(false, true, true, false), only(false, true, false, false));
    assert_eq!(overlays_for(false, false, true, false), only(false, false, true, true));
    assert_eq!(overlays_for(false, false, false, true), only(false, false, false, false));
}

#[test]
fn modal_dialog_pieces() {
    assert_eq!(ModalDialog::size(ModalKind::Input), (60, 12));
    assert_eq!(ModalDialog::size(ModalKind::Confirmation), (60, 10));
    assert_eq!(ModalDialog::input_limits(ModalContext::CustomTime), (3, " second(s)"));
    let f = ModalDialog::input_field("12", 1, ModalContext::CustomTime, 40);
    assert_eq!((f.left_padding, f.before_cursor.as_str(), f.after_cursor.as_str(), f.fill, f.suffix), (13, "1", "2", 1, " second(s)"));
    let f = ModalDialog::input_field("12345", 9, ModalContext::CustomWordCount, 10);
    assert_eq!((f.left_padding, f.before_cursor.as_str(), f.after_cursor.as_str(), f.fill), (0, "1234", "", 0));
    let f = ModalDialog::input_field("é", 2, ModalContext::CustomLineCount, 20);
    assert_eq!((f.left_padding, f.before_cursor.as_str(), f.after_cursor.as_str(), f.fill, f.suffix), (5, "é", "", 0, " line(s)"));
    assert_eq!(ModalDialog::button(ModalKind::Input, 20), (8, "<OK>"));
    assert_eq!(ModalDialog::button(ModalKind::Confirmation, 20), (7, "<Yes>"));
    assert_eq!(ModalDialog::button(ModalKind::Input, 2), (0, "<OK>"));
}

#[test]
fn current_index_follows_the_search() {
    let items = vec![7u64, 3, 9, 3];
    assert_eq!(current_item_index(false, &items, Some(9), 5), 5);
    assert_eq!(current_item_index(true, &items, Some(3), 5), 1);
    assert_eq!(current_item_index(true, &items, Some(9), 0), 2);
    assert_eq!(current_item_index(true, &items, Some(4), 2), 0);
    assert_eq!(current_item_index(true, &items, None, 2), 0);
}

#[test]
fn visible_items_are_cut_to_the_list() {
    assert_eq!(visible_range(0, 5, 12), (0, 5));
    assert_eq!(visible_range(10, 5, 12), (10, 12));
    assert_eq!(visible_range(15, 5, 12), (12, 12));
    assert_eq!(visible_range(3, 0, 12), (3, 3));
    assert_eq!(no_items_message(), "No items found");
}

#[test]
fn neofetch_statistics_texts() {
    assert_eq!(neofetch_mode_text(true, 30), "Time (30s)");
    assert_eq!(neofetch_mode_text(false, 50), "Words (50)");
    assert_eq!(keystrokes_text(95, 5), "95 (100)");
    let labels = vec!["OS".to_string(), "Version".to_string(), "WPM Range".to_string()];
    let values = vec!["termitype".to_string(), "0.1".to_string(), "40–60".to_string()];
    let widths = stat_entry_widths(&labels, &values);
    assert_eq!(widths, vec![(2, 9), (7, 3), (9, 5)]);
    assert_eq!(stats_width(14, 4, &widths), 16);
}
