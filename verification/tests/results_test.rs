use termitype::ui::components::results_widget::{elapsed_text, hint_padding, logo_cell, results_mode_text, stats_offset};
use termitype::tui::components::pickers::telescope::{item_style, max_info_key_len, ItemStyle};
use termitype::tui::components::results::minimal::{
    minimal_results_layout, minimal_stats_lines, mode_info,
};

#[test]
fn mode_info_names_time_and_word_modes() {
    assert_eq!(mode_info(true, 30), "Time(30s)");
    assert_eq!(mode_info(false, 50), "Words(50)");
    assert_eq!(mode_info(false, 0), "Words(0)");
}

#[test]
fn minimal_stats_lines_label_each_statistic() {
    let lines = minimal_stats_lines("85", 3, "97.5%", "english", true, 30);
    assert_eq!(
        lines,
        vec![
            "WPM: 85",
            "Errors: 3",
            "Accuracy: 97.5%",
            "Language: english",
            "Mode: Time(30s)",
            "",
        ]
    );
}

#[test]
fn minimal_results_layout_centers_both_ways() {
    let lines = minimal_stats_lines("85", 3, "97.5%", "english", false, 25);
    let shown = minimal_results_layout(lines, 10, 40);
    assert_eq!(shown.lines.len(), 10);
    assert_eq!(shown.lines[0], "");
    assert_eq!(shown.lines[1], "");
    assert_eq!(shown.lines[2], "WPM: 85");
    assert_eq!(shown.lines[6], "Mode: Words(25)");
    assert_eq!(shown.lines[9], "");
    // the widest line, "Language: english", is 17 columns
    assert_eq!((shown.left_pad, shown.right_pad), (11, 12));
}

#[test]
fn minimal_results_layout_in_a_tight_area() {
    let lines = vec!["abcdef".to_string(), "xy".to_string()];
    let shown = minimal_results_layout(lines, 1, 4);
    assert_eq!(shown.lines, vec!["abcdef", "xy"]);
    assert_eq!((shown.left_pad, shown.right_pad), (0, 0));
}

#[test]
fn results_summary_whole_number_parts() {
    assert_eq!(results_mode_text(true, 30), "Time (30 seconds)");
    assert_eq!(results_mode_text(false, 50), "Words (50 words)");
    assert_eq!(elapsed_text(125), "2m 5s");
    assert_eq!(elapsed_text(59), "0m 59s");
    assert_eq!(stats_offset(120, 100), 35);
    assert_eq!(stats_offset(99, 100), 15);
    assert_eq!(logo_cell(Some("/\\_/\\"), 8), "/\\_/\\   ");
    assert_eq!(logo_cell(None, 3), "   ");
    assert_eq!(logo_cell(Some("wider than"), 4), "wider than");
    assert_eq!(hint_padding(20, 60), 20);
    assert_eq!(hint_padding(80, 60), 0);
}

#[test]
fn telescope_item_styles_and_key_width() {
    assert_eq!(item_style(true, false, false, None), ItemStyle { reversed: true, dim: false, success: false });
    assert_eq!(item_style(true, true, false, None), ItemStyle { reversed: false, dim: false, success: false });
    assert_eq!(item_style(false, false, true, Some(true)), ItemStyle { reversed: false, dim: true, success: true });
    assert_eq!(item_style(false, false, false, Some(false)), ItemStyle { reversed: false, dim: true, success: false });
    let keys = vec![Some("wpm".to_string()), None, Some("accuracy".to_string())];
    assert_eq!(max_info_key_len(true, &keys), 8);
    assert_eq!(max_info_key_len(false, &keys), 0);
}
