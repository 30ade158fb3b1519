use ratatui::layout::{Constraint, Direction, Layout};
use termitype::geometry::{Alignment, Rect};
use termitype::tui::components::leaderboard::LeaderboardOverlay;
use termitype::tui::components::pickers::telescope::calculate_total_menu_area;
use termitype::tui::layout::{
    create_main_layout, create_results_layout, picker_overlay_area, picker_should_show_visualizer,
    picker_should_use_full_area, LayoutBuilder,
};
use termitype::tui::utils::{
    calculate_horizontal_padding, calculate_padding, center_lines_vertically, centered_rect,
    horizontally_center, max_line_width,
};
use termitype::ui::components::menu::MenuComponent;
use termitype::ui::helpers::positioning::LayoutHelper;
use termitype::ui::helpers::utils::TermiUtils;
use termitype::ui::actions::TermiClickAction;
use termitype::ui::layout::_build_minimal_section;
use termitype::ui::render::{
    element_regions, error_count, results_placement, single_element_area, wpm_range, wpm_range_text, ResultsPlacement,
};

fn rect(x: u16, y: u16, width: u16, height: u16) -> Rect {
    Rect { x, y, width, height }
}

fn ratatui_rect(r: Rect) -> ratatui::layout::Rect {
    ratatui::layout::Rect::new(r.x, r.y, r.width, r.height)
}

fn from_ratatui(r: ratatui::layout::Rect) -> Rect {
    rect(r.x, r.y, r.width, r.height)
}

#[test]
fn rect_new_clamps_to_the_grid() {
    assert_eq!(Rect::new(1, 2, 3, 4), rect(1, 2, 3, 4));
    assert_eq!(Rect::new(65530, 65000, 10, 1000), rect(65530, 65000, 5, 535));
}

#[test]
fn tui_centered_rect_takes_the_middle_cell() {
    assert_eq!(centered_rect(50, 50, rect(0, 0, 100, 40)), rect(25, 10, 50, 20));
    assert_eq!(centered_rect(100, 100, rect(3, 4, 20, 10)), rect(3, 4, 20, 10));
}

#[test]
fn ui_centered_rect_rounds_sizes_down() {
    assert_eq!(termitype::ui::centered_rect(50, 50, rect(0, 0, 100, 40)), rect(25, 10, 50, 20));
    assert_eq!(termitype::ui::centered_rect(33, 50, rect(10, 0, 10, 5)), rect(13, 1, 3, 2));
}

#[test]
fn horizontal_centering_helpers() {
    assert_eq!(horizontally_center(rect(0, 2, 100, 10), 40), rect(30, 2, 40, 10));
    assert_eq!(horizontally_center(rect(5, 0, 50, 3), 200), rect(5, 0, 50, 3));
    assert_eq!(calculate_horizontal_padding(30, 100), (35, 35));
    assert_eq!(calculate_horizontal_padding(31, 100), (34, 35));
    assert_eq!(calculate_horizontal_padding(120, 100), (0, 0));
}

#[test]
fn vertical_padding_centers_lines() {
    assert_eq!(calculate_padding(&[1, 2, 3], 10), 3);
    assert_eq!(calculate_padding(&[0u8; 12], 10), 0);
    let lines = vec!["a".to_string(), "b".to_string()];
    let padded = center_lines_vertically(lines, 6);
    assert_eq!(padded, vec!["", "", "a", "b", "", ""]);
    let lines = vec!["x".to_string(); 3];
    assert_eq!(center_lines_vertically(lines, 2), vec!["x", "x", "x"]);
}

#[test]
fn max_line_width_counts_chars() {
    let lines = vec!["ab".to_string(), "héllo".to_string(), String::new()];
    assert_eq!(max_line_width(&lines), 5);
    assert_eq!(max_line_width(&[]), 0);
}

#[test]
fn layout_builder_percentages() {
    assert_eq!(LayoutBuilder::new().shares(), (15, 75, 7, 2));
    let b = LayoutBuilder::new().top_percent(10).center_percent(80).command_percent(5).footer_percent(3);
    assert_eq!(b.shares(), (10, 80, 5, 3));
    assert_eq!(LayoutBuilder::default().shares(), (0, 0, 0, 0));
    assert!(LayoutBuilder::is_too_smol(rect(0, 0, 34, 10)));
    assert!(LayoutBuilder::is_too_smol(rect(0, 0, 100, 7)));
    assert!(!LayoutBuilder::is_too_smol(rect(0, 0, 35, 8)));
}

#[test]
fn main_layout_matches_the_layout_solver() {
    let area = rect(0, 0, 100, 40);
    let layout = create_main_layout(area);
    let rows = Layout::default()
        .direction(Direction::Vertical)
        .constraints([
            Constraint::Percentage(15),
            Constraint::Percentage(75),
            Constraint::Percentage(7),
            Constraint::Length(1),
            Constraint::Percentage(2),
        ])
        .split(ratatui_rect(area));
    assert_eq!(layout.top_area, from_ratatui(rows[0]));
    assert_eq!(layout.command_area, from_ratatui(rows[2]));
    assert_eq!(layout.footer_area, from_ratatui(rows[4]));
    let typing = from_ratatui(rows[1]);
    assert_eq!(layout.center_area, rect(10, typing.y, 80, typing.height));
    let top = layout.top_area;
    assert_eq!(layout.title_area, Some(rect(top.x, top.y + 1, top.width, 1)));
    assert_eq!(
        layout.mode_bar_area,
        Some(rect(top.x, top.y + 3, top.width, top.height.saturating_sub(1).saturating_sub(2)))
    );
    assert!(layout.show_title && layout.show_mode_bar && layout.show_footer && layout.show_command_bar);
}

#[test]
fn main_layout_on_small_screens() {
    let layout = create_main_layout(rect(0, 0, 40, 14));
    assert!(layout.show_title);
    assert!(!layout.show_mode_bar);
    assert_eq!(layout.mode_bar_area, None);
    assert!(!layout.show_command_bar);
    assert_eq!(layout.center_area.width, 32);
    assert_eq!(layout.center_area.x, 4);
    let tiny = create_main_layout(rect(0, 0, 3, 4));
    assert_eq!(tiny.center_area.width, 2);
    assert!(!tiny.show_title && !tiny.show_footer);
    assert_eq!(tiny.title_area, None);
}

#[test]
fn main_layout_of_a_hundred_by_hundred_screen() {
    let layout = LayoutBuilder::new().build(rect(0, 0, 100, 100));
    assert_eq!(layout.top_area, rect(0, 0, 100, 15));
    assert_eq!(layout.center_area, rect(10, 15, 80, 75));
    assert_eq!(layout.command_area, rect(0, 90, 100, 7));
    assert_eq!(layout.footer_area, rect(0, 98, 100, 2));
    assert_eq!(layout.title_area, Some(rect(0, 1, 100, 1)));
    assert_eq!(layout.mode_bar_area, Some(rect(0, 3, 100, 12)));
    assert!(layout.show_title && layout.show_mode_bar && layout.show_footer && layout.show_command_bar);
}

#[test]
fn main_layout_near_the_bottom_of_the_grid() {
    let layout = create_main_layout(rect(0, 65_520, 60, 14));
    assert_eq!(layout.top_area.y, 65_520);
    assert!(layout.show_title && !layout.show_mode_bar);
    let lowest = create_main_layout(rect(0, 65_532, 60, 15));
    assert_eq!(lowest.mode_bar_area.map(|m| m.y), Some(65_535));
}

#[test]
fn results_layout_of_an_area_without_rows() {
    let layout = create_results_layout(rect(3, 7, 80, 0));
    assert_eq!(layout.results_area, rect(3, 7, 80, 0));
    assert_eq!(layout.footer_area, rect(3, 7, 80, 0));
}

#[test]
fn results_layout_keeps_one_footer_row() {
    let layout = create_results_layout(rect(0, 0, 80, 24));
    assert_eq!(layout.results_area, rect(0, 0, 80, 23));
    assert_eq!(layout.footer_area, rect(0, 23, 80, 1));
}

#[test]
fn picker_overlay_placement() {
    assert!(picker_should_use_full_area(rect(0, 0, 59, 30)));
    assert!(picker_should_use_full_area(rect(0, 0, 100, 24)));
    assert!(!picker_should_use_full_area(rect(0, 0, 60, 25)));
    assert!(picker_should_show_visualizer(rect(0, 0, 10, 17)));
    assert!(!picker_should_show_visualizer(rect(0, 0, 10, 16)));
    assert_eq!(picker_overlay_area(rect(0, 0, 120, 40)), rect(15, 3, 90, 30));
    assert_eq!(picker_overlay_area(rect(0, 0, 80, 26)), rect(3, 1, 74, 20));
    assert_eq!(picker_overlay_area(rect(2, 1, 50, 20)), rect(2, 1, 50, 17));
    assert_eq!(picker_overlay_area(rect(0, 0, 50, 2)), rect(0, 0, 50, 0));
}

#[test]
fn telescope_area_grows_by_the_bar() {
    let overlay = rect(10, 5, 60, 20);
    assert_eq!(calculate_total_menu_area(overlay, rect(0, 0, 80, 24), false), overlay);
    assert_eq!(calculate_total_menu_area(overlay, rect(0, 0, 80, 24), true), rect(10, 5, 60, 19));
    assert_eq!(calculate_total_menu_area(overlay, rect(0, 0, 80, 40), true), rect(10, 5, 60, 23));
}

#[test]
fn leaderboard_overlay_is_bounded() {
    assert_eq!(LeaderboardOverlay::calculate_leaderboard_overlay_area(rect(0, 0, 200, 60)), rect(30, 12, 140, 35));
    assert_eq!(LeaderboardOverlay::calculate_leaderboard_overlay_area(rect(0, 0, 80, 24)), rect(3, 3, 74, 18));
    assert_eq!(LeaderboardOverlay::calculate_leaderboard_overlay_area(rect(0, 0, 4, 4)), rect(2, 2, 0, 0));
}

#[test]
fn layout_helper_centering() {
    assert_eq!(LayoutHelper::center_rect(rect(0, 0, 100, 50), 40, 10), rect(30, 20, 40, 10));
    assert_eq!(LayoutHelper::center_rect(rect(10, 5, 20, 10), 30, 20), rect(10, 5, 20, 10));
    assert_eq!(LayoutHelper::center_text_rect(rect(0, 0, 80, 24), 4), rect(0, 10, 80, 24));
    assert_eq!(LayoutHelper::center_text_rect(rect(0, 0, 80, 3), 10), rect(0, 0, 80, 3));
    assert_eq!(LayoutHelper::center_with_max_width(rect(5, 1, 100, 10), 60), rect(25, 1, 60, 10));
    assert_eq!(LayoutHelper::center_with_max_width(rect(5, 1, 40, 10), 60), rect(5, 1, 40, 10));
    assert_eq!(LayoutHelper::center_div(20, 10, rect(0, 0, 100, 50)), rect(40, 20, 20, 10));
}

#[test]
fn clickable_text_area_follows_alignment() {
    let area = rect(0, 0, 20, 3);
    assert_eq!(LayoutHelper::clickable_text_area(area, 10, 1, Alignment::Center), rect(5, 0, 11, 1));
    assert_eq!(LayoutHelper::clickable_text_area(area, 10, 1, Alignment::Right), rect(10, 0, 11, 1));
    assert_eq!(LayoutHelper::clickable_text_area(area, 10, 1, Alignment::Left), rect(0, 0, 11, 1));
    assert_eq!(LayoutHelper::clickable_text_area(area, 30, 5, Alignment::Center), rect(0, 0, 21, 3));
}

#[test]
fn horizontal_centering_goes_through_the_layout_solver() {
    let area = rect(0, 0, 100, 10);
    assert_eq!(LayoutHelper::apply_horizontal_centering(area, 50), rect(25, 0, 50, 10));
    assert_eq!(termitype::ui::utils::apply_horizontal_centering(area, 60), rect(20, 0, 60, 10));
    assert_eq!(termitype::ui::helpers::utils::apply_horizontal_centering(area, 80), rect(10, 0, 80, 10));
    assert_eq!(
        termitype::ui::layout::create_centered_rect_with_max_width(rect(0, 3, 200, 4), 50),
        rect(50, 3, 100, 4)
    );
}

#[test]
fn scroll_offsets() {
    assert_eq!(LayoutHelper::calculate_scroll_offset(10, 5), 8);
    assert_eq!(LayoutHelper::calculate_scroll_offset(1, 5), 0);
    assert_eq!(LayoutHelper::calculate_scroll_offset(7, 1), 7);
    assert_eq!(LayoutHelper::calculate_scroll_offset(7, 0), 7);
    assert_eq!(MenuComponent::calculate_scroll_offset(20, 5, 0), 0);
    assert_eq!(MenuComponent::calculate_scroll_offset(20, 5, 10), 8);
    assert_eq!(MenuComponent::calculate_scroll_offset(20, 5, 19), 15);
    assert_eq!(MenuComponent::calculate_scroll_offset(20, 5, 18), 15);
    assert_eq!(MenuComponent::calculate_scroll_offset(4, 5, 3), 0);
    assert_eq!(MenuComponent::calculate_scroll_offset(4, 0, 3), 0);
}

#[test]
fn minimum_size_and_minimal_sections() {
    assert!(TermiUtils::has_minimum_size(rect(0, 0, 80, 24), 80, 24));
    assert!(!TermiUtils::has_minimum_size(rect(0, 0, 79, 24), 80, 24));
    assert!(!TermiUtils::has_minimum_size(rect(0, 0, 80, 23), 80, 24));
    let s = _build_minimal_section(3, 4);
    let e = rect(3, 4, 0, 0);
    assert_eq!((s.header, s.action_bar, s.mode_bar), (e, e, e));
    assert_eq!((s.typing_area, s.command_bar, s.footer), (e, e, e));
}

#[test]
fn speed_range_of_samples() {
    assert_eq!(wpm_range(&[]), None);
    assert_eq!(wpm_range(&[50, 40, 70]), Some((40, 70)));
    assert_eq!(wpm_range(&[u32::MAX]), None);
}

#[test]
fn results_placement_side_by_side_or_alone() {
    let area = rect(0, 0, 100, 30);
    assert_eq!(
        results_placement(area, 30, 10, 40, 18, false),
        ResultsPlacement::SideBySide(rect(12, 10, 30, 10), rect(47, 6, 40, 18))
    );
    assert_eq!(results_placement(area, 30, 10, 40, 18, true), ResultsPlacement::StatsOnly(rect(30, 6, 40, 18)));
    assert_eq!(results_placement(rect(0, 0, 0, 30), 30, 10, 40, 18, false), ResultsPlacement::StatsOnly(rect(0, 6, 0, 18)));
}

#[test]
fn row_of_elements() {
    assert_eq!(single_element_area(rect(0, 0, 80, 10), 3), rect(0, 3, 80, 10));
    assert_eq!(single_element_area(rect(0, 0, 80, 2), 3), rect(0, 0, 80, 2));
    let (regions, alignment) = element_regions(
        &[5, 0, 7],
        &[Some(TermiClickAction::ToggleAbout), Some(TermiClickAction::ToggleNumbers), None],
        rect(0, 0, 40, 3),
    );
    assert_eq!(regions, vec![(rect(14, 0, 5, 1), TermiClickAction::ToggleAbout)]);
    assert_eq!(alignment, Alignment::Center);
    let (regions, alignment) = element_regions(
        &[30, 20],
        &[Some(TermiClickAction::ToggleAbout), Some(TermiClickAction::SetModeValue(15))],
        rect(0, 0, 40, 3),
    );
    assert_eq!(
        regions,
        vec![(rect(0, 0, 30, 1), TermiClickAction::ToggleAbout), (rect(30, 0, 20, 1), TermiClickAction::SetModeValue(15))]
    );
    assert_eq!(alignment, Alignment::Left);
}

#[test]
fn details_counts_and_speed_range() {
    assert_eq!(error_count(120, 100), 20);
    assert_eq!(error_count(90, 100), 0);
    assert_eq!(wpm_range_text(&[52, 40, 61]), Some("40-61".to_string()));
    assert_eq!(wpm_range_text(&[]), None);
    assert_eq!(wpm_range_text(&[u32::MAX]), None);
}
