use termitype::geometry::Padding;
use termitype::tui::components::mode_bar::create_mode_line;
use termitype::tui::components::typing_area::tracker_progress;
use termitype::tui::components::target_styles::{target_token_styles, TokenColor, TokenStyle, TokenView};
use termitype::ui::components::action_bar::BarSettings;

fn settings(is_time_mode: bool, current_value: usize) -> BarSettings {
    BarSettings {
        use_punctuation: false,
        use_numbers: true,
        use_symbols: false,
        is_time_mode,
        current_value,
    }
}

#[test]
fn mode_line_is_compact_when_narrow() {
    let line = create_mode_line(settings(true, 30), 10, 79);
    let texts: Vec<&str> = line.spans.iter().map(|s| s.0.as_str()).collect();
    assert_eq!(texts, vec!["☰ ", "Menu ", "<esc>"]);
    assert!(line.spans.iter().all(|s| !s.1));
    assert_eq!(line.padding, Padding { left: 0, right: 0, top: 3, bottom: 0 });
}

#[test]
fn mode_line_highlights_what_is_in_effect() {
    let line = create_mode_line(settings(false, 25), 7, 80);
    let texts: Vec<&str> = line.spans.iter().map(|s| s.0.as_str()).collect();
    assert_eq!(
        texts,
        vec![
            "! punctuation ", "# numbers ", "@ symbols ", "| ", "T time ", "A words ", "| ", "10 ",
            "25 ", "50 ", "100 ",
        ]
    );
    let marked: Vec<bool> = line.spans.iter().map(|s| s.1).collect();
    assert_eq!(
        marked,
        vec![false, true, false, false, false, true, false, false, true, false, false]
    );
    assert_eq!(line.padding.top, 0);
}

fn token(target: char, is_wrong: bool) -> TokenView {
    TokenView { target, is_wrong, is_skipped: false, is_extra: false }
}

#[test]
fn target_styles_color_typed_and_upcoming_chars() {
    // "ab cd ef": the first word typed with an error, the cursor in the second word
    let tokens = vec![
        token('a', false),
        token('b', true),
        token(' ', false),
        token('c', false),
        token('d', false),
        token(' ', false),
        token('e', false),
        token('f', false),
    ];
    let styles = target_token_styles(&tokens, 4, 1, &[true, false, false]);
    assert_eq!(styles.len(), 8);
    assert_eq!(styles[0], TokenStyle { color: TokenColor::Success, dim: false, underlined: true });
    assert_eq!(styles[1], TokenStyle { color: TokenColor::Error, dim: false, underlined: true });
    // the space after the first word already counts toward the second word
    assert_eq!(styles[2], TokenStyle { color: TokenColor::Success, dim: false, underlined: false });
    assert_eq!(styles[3], TokenStyle { color: TokenColor::Success, dim: false, underlined: false });
    assert_eq!(styles[4], TokenStyle { color: TokenColor::Fg, dim: true, underlined: false });
    assert_eq!(styles[7], TokenStyle { color: TokenColor::Fg, dim: true, underlined: false });
}

#[test]
fn target_styles_dim_skipped_and_extra_chars() {
    let tokens = vec![
        TokenView { target: 'x', is_wrong: true, is_skipped: true, is_extra: false },
        TokenView { target: 'y', is_wrong: false, is_skipped: false, is_extra: true },
    ];
    let styles = target_token_styles(&tokens, 2, 0, &[]);
    assert_eq!(styles[0], TokenStyle { color: TokenColor::Fg, dim: true, underlined: false });
    assert_eq!(styles[1], TokenStyle { color: TokenColor::Success, dim: true, underlined: false });
}

#[test]
fn tracker_progress_reads_seconds_left_or_words() {
    assert_eq!(tracker_progress(true, 30, 12, 0, 0), "18");
    assert_eq!(tracker_progress(true, 30, 45, 0, 0), "0");
    assert_eq!(tracker_progress(false, 0, 0, 7, 25), "7/25");
}
