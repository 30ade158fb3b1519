use termitype::geometry::{Constraint, Padding, Position, Rect};
use termitype::tui::components::leaderboard::{LeaderboardOverlay, ShowRules, SortOrder};
use termitype::tui::components::mode_bar::mode_line_padding;
use termitype::tui::components::typing_cache::TypingRenderCache;
use termitype::tui::utils::{footer_padding, menu_items_padding, title_padding};
use termitype::ui::components::typing_area::{CharStyle, TypingAreaComponent};
use termitype::ui::components;
use termitype::ui::elements::create_typing_area;
use termitype::ui::helpers::utils::{calculate_word_positions, WordPosition};

/// The typing state after a sequence of key presses: what was typed at each position, and
/// where the cursor is.
struct Typed {
    input: Vec<Option<char>>,
}

impl Typed {
    fn new() -> Self {
        Typed { input: Vec::new() }
    }

    fn type_char(&mut self, c: char) {
        self.input.push(Some(c));
    }

    fn backspace(&mut self) {
        self.input.pop();
    }

    fn cursor(&self) -> usize {
        self.input.len()
    }
}

/// The foreground a style is drawn with.
#[derive(Debug, PartialEq)]
enum Fg {
    Success,
    Error,
    Text,
    Muted,
}

fn fg(style: CharStyle) -> Fg {
    match style {
        CharStyle::Success | CharStyle::UnderlinedSuccess => Fg::Success,
        CharStyle::Error | CharStyle::UnderlinedError => Fg::Error,
        CharStyle::Pending => Fg::Text,
        CharStyle::Skipped => Fg::Muted,
        CharStyle::Plain => Fg::Text,
        CharStyle::Separator => Fg::Muted,
    }
}

fn cells(text: &str, typed: &Typed, wrong: &[bool]) -> Vec<(char, CharStyle)> {
    let positions = calculate_word_positions(text, 50);
    let lines = TypingAreaComponent::create_text(text, &positions, &typed.input, typed.cursor(), wrong, true, 0, 3);
    lines.into_iter().flatten().collect()
}

#[test]
fn test_ui_handles_correctly_typed_chars() {
    let mut typed = Typed::new();
    for c in "hello".chars() {
        typed.type_char(c);
    }
    let chars_and_styles = cells("hello world", &typed, &[false, false]);
    for i in 0..5 {
        let (ch, style) = chars_and_styles[i];
        assert_eq!(ch, "hello".chars().nth(i).unwrap());
        assert_eq!(fg(style), Fg::Success);
    }
    for i in 6..chars_and_styles.len() {
        let (_, style) = chars_and_styles[i];
        assert_eq!(fg(style), Fg::Text);
    }
}

#[test]
fn test_ui_handles_wrongly_typed_chars() {
    let mut typed = Typed::new();
    for c in "hallo".chars() {
        typed.type_char(c);
    }
    let chars_and_styles = cells("hello world", &typed, &[true, false]);
    let (h_char, h_style) = chars_and_styles[0];
    assert_eq!(h_char, 'h');
    assert_eq!(fg(h_style), Fg::Success);
    let (a_char, a_style) = chars_and_styles[1];
    assert_eq!(a_char, 'e');
    assert_eq!(fg(a_style), Fg::Error);
}

#[test]
fn test_ui_char_desync_with_accented_chars() {
    let text = "sí prueba";
    let mut typed = Typed::new();
    typed.type_char('s');
    let chars_and_styles = cells(text, &typed, &[false, false]);
    let (s_char, s_style) = chars_and_styles[0];
    assert_eq!(s_char, 's');
    assert_eq!(fg(s_style), Fg::Success);

    typed.type_char('í');
    let chars_and_styles = cells(text, &typed, &[false, false]);
    let (i_char, i_style) = chars_and_styles[1];
    assert_eq!(i_char, 'í');
    assert_eq!(fg(i_style), Fg::Success);

    typed.type_char(' ');
    typed.type_char('p');
    let chars_and_styles = cells(text, &typed, &[false, false]);
    let (p_char, p_style) = chars_and_styles[3];
    assert_eq!(p_char, 'p');
    assert_eq!(fg(p_style), Fg::Success);
}

#[test]
fn test_ui_and_tracker_sync() {
    let text = "test word";
    let target_chars: Vec<char> = text.chars().collect();
    let mut typed = Typed::new();
    for c in "test ".chars() {
        typed.type_char(c);
    }
    assert_eq!(typed.cursor(), 5);
    assert_eq!(typed.input.len(), 5);
    for i in 0..5 {
        assert_eq!(typed.input[i], Some(target_chars[i]));
    }
    let chars_and_styles = cells(text, &typed, &[false, false]);
    for i in 0..4 {
        let (ui_char, ui_style) = chars_and_styles[i];
        assert_eq!(ui_char, target_chars[i]);
        assert_eq!(fg(ui_style), Fg::Success);
    }
}

#[test]
fn test_ui_with_backspace_corrections() {
    let mut typed = Typed::new();
    typed.type_char('h');
    typed.type_char('a');
    typed.backspace();
    typed.type_char('e');
    let chars_and_styles = cells("hello", &typed, &[false]);
    let (h_char, h_style) = chars_and_styles[0];
    assert_eq!(h_char, 'h');
    assert_eq!(fg(h_style), Fg::Success);
    let (e_char, e_style) = chars_and_styles[1];
    assert_eq!(e_char, 'e');
    assert_eq!(fg(e_style), Fg::Success);
}

#[test]
fn typing_text_marks_skipped_and_underlined_words() {
    let text = "ab cd ef";
    let positions = calculate_word_positions(text, 50);
    // "ab" typed as "xb", then the rest of "cd" skipped by a jump to "ef".
    let input = vec![Some('x'), Some('b'), Some(' '), Some('c'), None, Some(' ')];
    let lines = TypingAreaComponent::create_text(text, &positions, &input, 6, &[true, false, false], true, 0, 3);
    assert_eq!(lines.len(), 1);
    assert_eq!(
        lines[0],
        vec![
            ('a', CharStyle::UnderlinedError),
            ('b', CharStyle::UnderlinedSuccess),
            (' ', CharStyle::Success),
            ('c', CharStyle::Success),
            ('d', CharStyle::Skipped),
            (' ', CharStyle::Success),
            ('e', CharStyle::Pending),
            ('f', CharStyle::Pending),
        ]
    );
    let plain = TypingAreaComponent::create_text(text, &positions, &input, 6, &[true, false, false], false, 0, 3);
    assert_eq!(plain[0][0], ('a', CharStyle::Error));
    assert_eq!(plain[0][1], ('b', CharStyle::Success));
}

#[test]
fn typing_text_shows_only_the_window() {
    let text = "aaaa bbbb cccc dddd";
    let positions = calculate_word_positions(text, 5);
    assert_eq!(positions.iter().map(|p| p.line).collect::<Vec<_>>(), vec![0, 1, 2, 3]);
    let lines = TypingAreaComponent::create_text(text, &positions, &[], 0, &[false; 4], true, 1, 2);
    let shown: Vec<String> = lines.iter().map(|l| l.iter().map(|c| c.0).collect()).collect();
    assert_eq!(shown, vec!["bbbb ", "cccc "]);
    let none = TypingAreaComponent::create_text(text, &[], &[], 0, &[], true, 0, 3);
    assert_eq!(none, vec![Vec::new()]);
}

#[test]
fn cursor_lookup_and_cell() {
    let positions = calculate_word_positions("hello world next", 12);
    assert_eq!(TypingAreaComponent::word_index(&positions, 0), 0);
    assert_eq!(TypingAreaComponent::word_index(&positions, 5), 0);
    assert_eq!(TypingAreaComponent::word_index(&positions, 6), 1);
    assert_eq!(TypingAreaComponent::word_index(&positions, 14), 2);
    let area = TypingAreaComponent::render_area(Rect { x: 0, y: 2, width: 40, height: 5 }, 12);
    assert_eq!(area, Rect { x: 14, y: 2, width: 12, height: 5 });
    // "next" wraps to line 1, column 0; the cursor is two chars into it.
    assert_eq!((positions[2].start_index, positions[2].line, positions[2].col), (12, 1, 0));
    assert_eq!(
        TypingAreaComponent::cursor_cell(&positions, 14, 3, area, 2),
        Some(Position { x: 16, y: 3 })
    );
    assert_eq!(TypingAreaComponent::cursor_cell(&positions, 14, 3, area, 1), None);
    let shifted = vec![WordPosition { start_index: 4, line: 0, col: 0 }];
    assert_eq!(TypingAreaComponent::word_index(&shifted, 2), 0);
}

#[test]
fn typing_render_cache_rebuilds_on_change() {
    let text: Vec<char> = "hello world foo".chars().collect();
    let mut cache = TypingRenderCache::default();
    cache.ensure(&text, 7, 1, 8, 3, 1);
    let lines: Vec<String> = cache.lines().iter().map(|l| l.iter().collect()).collect();
    assert_eq!(lines, vec!["hello ", "world ", "foo"]);
    assert_eq!((cache.cursor_line(), cache.cursor_x()), (1, 1));
    // Same key: nothing is rebuilt, even for another text.
    let other: Vec<char> = "abc".chars().collect();
    cache.ensure(&other, 0, 1, 8, 3, 1);
    assert_eq!(cache.lines().len(), 3);
    // A new revision rebuilds.
    cache.ensure(&other, 1, 1, 8, 3, 2);
    assert_eq!(cache.lines().len(), 1);
    assert_eq!((cache.cursor_line(), cache.cursor_x()), (0, 1));
    cache.invalidate();
    cache.ensure(&text, 20, 1, 8, 3, 2);
    assert_eq!(cache.lines().len(), 3);
    assert_eq!((cache.cursor_line(), cache.cursor_x()), (0, 0));
}

#[test]
fn leaderboard_columns_follow_the_width() {
    let all = LeaderboardOverlay::show_rules(115);
    assert_eq!(
        all,
        ShowRules { language: true, mode: true, errors: true, consistency: true, raw: true, accuracy: true }
    );
    let narrow = LeaderboardOverlay::show_rules(60);
    assert_eq!(
        narrow,
        ShowRules { language: false, mode: false, errors: false, consistency: false, raw: true, accuracy: true }
    );
    assert_eq!(LeaderboardOverlay::show_rules(41), ShowRules {
        language: false, mode: false, errors: false, consistency: false, raw: false, accuracy: false
    });
    assert_eq!(LeaderboardOverlay::column_widths(all).len(), 8);
    assert_eq!(
        LeaderboardOverlay::column_widths(narrow),
        vec![Constraint::Length(12), Constraint::Length(18), Constraint::Min(12), Constraint::Length(18)]
    );
    assert_eq!(
        LeaderboardOverlay::column_widths(LeaderboardOverlay::show_rules(0)),
        vec![Constraint::Percentage(30), Constraint::Percentage(70)]
    );
    let headers = LeaderboardOverlay::header_columns(narrow);
    assert_eq!(headers, vec![("WPM [w]", "wpm"), ("Accuracy [a]", "accuracy"), ("Raw [r]", "raw_wpm"), ("Date [d]", "created_at")]);
    let labels = LeaderboardOverlay::header_labels(narrow, "raw_wpm", SortOrder::Descending);
    assert_eq!(labels[2], ("Raw [r] ↓".to_string(), true));
    assert_eq!(labels[0], ("WPM [w]".to_string(), false));
    let labels = LeaderboardOverlay::header_labels(all, "created_at", SortOrder::Ascending);
    assert_eq!(labels.len(), 8);
    assert_eq!(labels[7], ("Date [d] ↑".to_string(), true));
    assert_eq!(LeaderboardOverlay::empty_message_area(Rect { x: 1, y: 2, width: 30, height: 9 }), Rect { x: 1, y: 6, width: 30, height: 1 });
    assert_eq!(LeaderboardOverlay::date_format(30), "%d %b %Y %H:%M");
    assert_eq!(LeaderboardOverlay::date_format(29), "%d %b %Y");
}

#[test]
fn paddings() {
    assert_eq!(title_padding(), Padding { left: 8, right: 0, top: 2, bottom: 0 });
    assert_eq!(footer_padding(), Padding { left: 0, right: 1, top: 0, bottom: 0 });
    assert_eq!(menu_items_padding(), footer_padding());
    assert_eq!(termitype::tui::utils::mode_line_padding().top, 6);
    assert_eq!(mode_line_padding(8).top, 3);
    assert_eq!(mode_line_padding(7).top, 0);
}

#[test]
fn element_typing_area_styles_and_window() {
    let text = "ab cd ef";
    let positions = calculate_word_positions(text, 50);
    let input = vec![Some('x'), Some('b'), Some(' '), Some('c'), None, Some(' ')];
    let lines = create_typing_area(text, &positions, &input, 6, &[true, false, false], true, 0, 3);
    assert_eq!(
        lines,
        vec![vec![
            ('a', CharStyle::UnderlinedError),
            ('b', CharStyle::UnderlinedSuccess),
            (' ', CharStyle::Plain),
            ('c', CharStyle::Success),
            ('d', CharStyle::Error),
            (' ', CharStyle::Plain),
            ('e', CharStyle::Pending),
            ('f', CharStyle::Pending),
        ]]
    );
    let text = "aaaa bbbb cccc dddd";
    let positions = calculate_word_positions(text, 5);
    let lines = create_typing_area(text, &positions, &[], 0, &[false; 4], true, 1, 2);
    let shown: Vec<String> = lines.iter().map(|l| l.iter().map(|c| c.0).collect()).collect();
    assert_eq!(shown, vec!["bbbb", "cccc"]);
    assert_eq!(create_typing_area(text, &[], &[], 0, &[], true, 0, 3), vec![Vec::new()]);
}

#[test]
fn component_typing_text_and_cursor() {
    let text = "ab cd ef";
    let positions = components::calculate_word_positions(text, 50);
    let input = vec![Some('x'), Some('b'), Some(' '), Some('c'), None, Some(' ')];
    let lines = components::typing_text(text, &positions, &input, 6, &[true, false, false]);
    assert_eq!(
        lines,
        vec![vec![
            ('a', CharStyle::UnderlinedError),
            ('b', CharStyle::UnderlinedSuccess),
            (' ', CharStyle::Separator),
            ('c', CharStyle::Success),
            ('d', CharStyle::Pending),
            (' ', CharStyle::Separator),
            ('e', CharStyle::Pending),
            ('f', CharStyle::Pending),
        ]]
    );
    let later = vec![
        components::WordPosition { start_index: 0, line: 1, col: 0 },
        components::WordPosition { start_index: 3, line: 1, col: 3 },
    ];
    let lines = components::typing_text("ab cd", &later, &[], 0, &[false, false]);
    assert_eq!(lines.len(), 2);
    assert!(lines[0].is_empty());
    assert_eq!(lines[1].iter().map(|c| c.0).collect::<String>(), "ab cd");

    assert_eq!(components::current_word_index(&positions, 4), 1);
    assert_eq!(components::current_word_index(&positions, 0), 0);
    assert_eq!(components::current_word_index(&positions, 100), 2);
    let shifted = vec![components::WordPosition { start_index: 4, line: 0, col: 0 }];
    assert_eq!(components::current_word_index(&shifted, 2), 0);

    assert_eq!(components::visible_window(5, 3, 10), (4, 7));
    assert_eq!(components::visible_window(0, 3, 2), (0, 2));
    assert_eq!(components::visible_window(5, 1, 10), (5, 6));
    let word = components::WordPosition { start_index: 3, line: 2, col: 3 };
    assert_eq!(
        components::typing_cursor_cell(&word, 5, 1, Rect { x: 10, y: 4, width: 40, height: 3 }),
        Position { x: 15, y: 5 }
    );
    assert_eq!(
        components::typing_content_area(Rect { x: 0, y: 0, width: 100, height: 20 }, 3),
        Rect { x: 25, y: 0, width: 50, height: 3 }
    );
}

#[test]
fn plain_text_view_colors_each_char() {
    let styled = termitype::ui::render_text("ab c", &[Some('a'), Some('x'), None], 2);
    assert_eq!(
        styled,
        vec![
            ('a', termitype::ui::PlainColor::Green, false),
            ('b', termitype::ui::PlainColor::Red, false),
            (' ', termitype::ui::PlainColor::DimWhite, true),
            ('c', termitype::ui::PlainColor::DimWhite, false),
        ]
    );
}
