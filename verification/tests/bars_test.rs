use termitype::config::ModeType;
use termitype::geometry::Rect;
use termitype::tui::components::modal_dialog::ModalContext;
use termitype::tui::components::size_warning::create_size_warning_element;
use termitype::ui::actions::TermiClickAction;
use termitype::ui::components::action_bar::{ActionBarComponent, BarAction, BarSettings};
use termitype::ui::components::command_bar::{command_bar, command_line};
use termitype::ui::components::bars::{
    bar_regions, footer, top_bar, FooterComponent, FooterInfo, FooterState,
};
use termitype::ui::components::progress::{
    language_region, progress_text, ModeBarComponent, ModeBarView, TestPhase,
};
use termitype::ui::components::size_warning::SizeWarningComponent;
use termitype::ui::components::ClickAction;
use termitype::ui::helpers::utils::TermiSymbols;

fn settings(is_time_mode: bool, current_value: usize) -> BarSettings {
    BarSettings {
        use_punctuation: true,
        use_numbers: false,
        use_symbols: false,
        is_time_mode,
        current_value,
    }
}

#[test]
fn action_bar_lists_toggles_modes_and_presets() {
    let symbols = TermiSymbols::unicode();
    let bar = ActionBarComponent::create(settings(true, 30), &[15, 30, 60, 120], &[10, 25, 50, 100], &symbols);
    let texts: Vec<&str> = bar.iter().map(|e| e.text.as_str()).collect();
    assert_eq!(
        texts,
        vec![
            "! punctuation ", "# numbers ", "@ symbols ", " ", "│", " ", "T time ", "A words ",
            " ", "│", " ", "15 ", "30 ", "60 ", "120 ", "⚙ ",
        ]
    );
    let active: Vec<bool> = bar.iter().map(|e| e.is_active).collect();
    assert_eq!(
        active,
        vec![
            true, false, false, false, false, false, true, false, false, false, false, false,
            true, false, false, false,
        ]
    );
    assert_eq!(bar[12].action, Some(BarAction::Click(TermiClickAction::SetModeValue(30))));
    assert_eq!(bar[6].action, Some(BarAction::Click(TermiClickAction::SwitchMode(ModeType::Time))));
    assert_eq!(bar[15].action, Some(BarAction::OpenModal(ModalContext::CustomTime)));
    assert_eq!(bar[3].action, None);
    // one value is current: the custom entry stays inactive
    assert!(!bar[15].is_active);
    assert_eq!((11..15).filter(|&i| bar[i].is_active).count(), 1);
}

#[test]
fn action_bar_marks_a_custom_value() {
    let symbols = TermiSymbols::ascii();
    let bar = ActionBarComponent::create(settings(false, 42), &[15, 30, 60, 120], &[10, 25, 50, 100], &symbols);
    assert_eq!(bar.len(), 16);
    assert_eq!(bar[0].text, "P punctuation ");
    assert_eq!(bar[11].text, "10 ");
    assert!(bar[7].is_active);
    assert!(!bar[6].is_active);
    assert!((11..15).all(|i| !bar[i].is_active));
    assert_eq!(bar[15].text, "<c> ");
    assert!(bar[15].is_active);
    assert_eq!(bar[15].action, Some(BarAction::OpenModal(ModalContext::CustomWordCount)));
}

#[test]
fn top_bar_offers_the_mode_values() {
    let bar = top_bar(settings(false, 50));
    let texts: Vec<&str> = bar.iter().map(|e| e.content.as_str()).collect();
    assert_eq!(
        texts,
        vec![
            "@ punctuation ", "# numbers ", "@ symbols ", "│ ", "⏱ time ", "A words ", "│ ", "10 ",
            "25 ", "50 ", "100 ",
        ]
    );
    assert!(bar[9].is_active);
    assert_eq!(bar[9].action, Some(ClickAction::SetModeValue(50)));
    assert_eq!(bar[4].width, 7);
    let timed = top_bar(settings(true, 15));
    assert_eq!(timed[7].content, "15 ");
    assert!(timed[7].is_active);
    assert_eq!(timed[10].content, "120 ");
}

#[test]
fn footer_shows_about_theme_and_version() {
    let info = FooterInfo {
        about_open: false,
        theme_name: "tokyonight".to_string(),
        previewing_theme: true,
        version: "0.1.0".to_string(),
    };
    let elements = footer(info);
    let texts: Vec<&str> = elements.iter().map(|e| e.content.as_str()).collect();
    assert_eq!(
        texts,
        vec![" ", "ⓘ about", " ", "╣", " ", "tokyonight", " ", "╠", " ", "0.1.0"]
    );
    assert!(elements[5].is_active);
    assert_eq!(elements[5].action, Some(ClickAction::ToggleThemePicker));
}

#[test]
fn bar_regions_follow_the_elements_left_to_right() {
    let elements = footer(FooterInfo {
        about_open: true,
        theme_name: "nord".to_string(),
        previewing_theme: false,
        version: "1".to_string(),
    });
    // widths 1 + 7 + 1 + 1 + 1 + 4 + 1 + 1 + 1 + 1 = 19; centered in 39 columns from x = 2
    let regions = bar_regions(&elements, Rect { x: 2, y: 5, width: 39, height: 3 });
    assert_eq!(
        regions,
        vec![
            (Rect { x: 13, y: 5, width: 7, height: 1 }, ClickAction::ToggleAbout),
            (Rect { x: 23, y: 5, width: 4, height: 1 }, ClickAction::ToggleThemePicker),
        ]
    );
    for pair in regions.windows(2) {
        assert!(pair[0].0.x + pair[0].0.width <= pair[1].0.x);
    }
}

#[test]
fn bar_regions_start_at_the_left_edge_when_too_wide() {
    let elements = top_bar(settings(true, 60));
    let regions = bar_regions(&elements, Rect { x: 0, y: 0, width: 10, height: 1 });
    assert_eq!(regions.len(), 9);
    assert_eq!(regions[0].0, Rect { x: 0, y: 0, width: 14, height: 1 });
    assert_eq!(regions[1].0.x, 14);
}

#[test]
fn progress_text_counts_words_or_seconds() {
    let input = vec![Some('a'), Some(' '), Some('b'), None, Some(' '), Some('x')];
    assert_eq!(progress_text(false, 0, None, &input, 25), "2/25");
    assert_eq!(progress_text(true, 30, None, &input, 25), "30");
    assert_eq!(progress_text(true, 30, Some(12), &input, 25), "12");
    assert_eq!(progress_text(false, 0, None, &[], 10), "0/10");
}

#[test]
fn language_region_is_centered_on_the_first_row() {
    let area = Rect { x: 4, y: 7, width: 20, height: 2 };
    assert_eq!(language_region(area, 7), Rect { x: 10, y: 7, width: 7, height: 1 });
    assert_eq!(language_region(area, 30), Rect { x: 4, y: 7, width: 30, height: 1 });
}

#[test]
fn tui_size_warning_flags_the_short_side() {
    let warning = create_size_warning_element(6, 40);
    assert_eq!(warning.lines, vec!["! too smol.", "(6, 40)"]);
    assert!(warning.height_too_small);
    assert!(!warning.width_too_small);
    assert_eq!(warning.max_width, 18);
    let fine = create_size_warning_element(8, 35);
    assert!(!fine.height_too_small && !fine.width_too_small);
}

#[test]
fn size_warning_component_shows_current_and_needed() {
    let notice = SizeWarningComponent::create(50, 10, 80, 24);
    assert_eq!(
        notice.lines,
        vec![
            "! size too small", "", "Current:", "", "Width = 50 Height = 10", "", "Needed:", "",
            "Width = 80 Height = 24",
        ]
    );
    assert!(notice.width_too_small);
    assert!(notice.height_too_small);
    let wide = SizeWarningComponent::create(80, 10, 80, 24);
    assert!(!wide.width_too_small);
}

#[test]
fn footer_component_lists_about_theme_and_version() {
    let state = FooterState {
        about_open: true,
        theme_id: "dracula".to_string(),
        previewing_theme: false,
        supports_themes: true,
        supports_unicode: true,
        version: "0.3.1".to_string(),
    };
    let elements = FooterComponent::create(state, &TermiSymbols::unicode());
    let texts: Vec<&str> = elements.iter().map(|e| e.0.as_str()).collect();
    assert_eq!(texts, vec!["ⓘ about", " ", "╣", " ", "dracula", " ", "╣", " ", "v0.3.1"]);
    assert!(elements[0].1);
    assert_eq!(elements[0].2, Some(TermiClickAction::ToggleAbout));
    assert_eq!(elements[4].2, Some(TermiClickAction::ToggleThemePicker));
}

#[test]
fn footer_component_without_unicode_or_themes() {
    let state = FooterState {
        about_open: false,
        theme_id: "default".to_string(),
        previewing_theme: false,
        supports_themes: false,
        supports_unicode: false,
        version: "1.0".to_string(),
    };
    let elements = FooterComponent::create(state, &TermiSymbols::ascii());
    let texts: Vec<&str> = elements.iter().map(|e| e.0.as_str()).collect();
    assert_eq!(texts, vec!["i about", " ", "|", " ", "default", " ", "|", " ", "v1.0"]);
    assert_eq!(elements[4].2, None);
}

#[test]
fn mode_bar_shows_language_progress_or_nothing() {
    let input = vec![Some('h'), Some('i'), Some(' ')];
    assert_eq!(
        ModeBarComponent::create(TestPhase::Waiting, "english", false, 0, None, &input, 10, false),
        ModeBarView::Language("english".to_string())
    );
    assert_eq!(
        ModeBarComponent::create(TestPhase::Typing, "english", false, 0, None, &input, 10, true),
        ModeBarView::Progress { text: "1/10".to_string(), show_wpm: false }
    );
    assert_eq!(
        ModeBarComponent::create(TestPhase::Typing, "english", true, 60, Some(42), &input, 10, false),
        ModeBarView::Progress { text: "42".to_string(), show_wpm: true }
    );
    assert_eq!(
        ModeBarComponent::create(TestPhase::Other, "english", true, 60, None, &input, 10, false),
        ModeBarView::Empty
    );
}

#[test]
fn command_bar_centers_each_line() {
    let lines = command_bar(60);
    assert_eq!(lines.len(), 4);
    let second: Vec<(&str, bool)> = lines[1].iter().map(|p| (p.0.as_str(), p.1)).collect();
    assert_eq!(
        second,
        vec![
            ("          ", false),
            ("tab", true),
            (" + ", false),
            ("enter", true),
            (" - restart test", false),
            ("   ", false),
            ("esc", true),
            (" - menu", false),
        ]
    );
    assert_eq!(lines[0][0].0.len(), 30);
    assert_eq!(lines[0][1].0, "");
    assert_eq!(lines[3][0].0.len(), 15);
    assert_eq!(lines[3].len(), 9);
    assert_eq!(lines[3][8].0, " - to quit");
}

#[test]
fn command_line_starts_at_the_edge_when_too_wide() {
    let groups = vec![
        vec![("abc".to_string(), true)],
        vec![("defgh".to_string(), false)],
    ];
    let line = command_line(&groups, 5);
    let pieces: Vec<(&str, bool)> = line.iter().map(|p| (p.0.as_str(), p.1)).collect();
    assert_eq!(pieces, vec![("", false), ("abc", true), ("   ", false), ("defgh", false)]);
    let roomy = command_line(&groups, 21);
    assert_eq!(roomy[0].0, "     ");
}
