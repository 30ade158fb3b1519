use std::hash::{Hash, Hasher};

use termitype::geometry::{Position, Rect};
use termitype::notifications::{Notification, NotificationPosition, NotificationSeverity};
use termitype::tui::components::notifications::NotificationComponent;
use termitype::tui::components::pickers::command_palette::{calculate_cursor_position, calculate_spans_width};
use termitype::tui::components::results::bottom_bar::{calculate_state, FooterEntry, FooterState};
use termitype::tui::components::typing_cache::{build_target_lines, char_len_utf8, resolve_cursor};
use termitype::tui::utils::{calculate_visible_lines, cursor_position, locate_position, wrap_text};
use termitype::ui::actions::TermiClickAction;
use termitype::ui::components::notifications::NotificationComponent as UiNotificationComponent;
use termitype::ui::elements::{get_pooled_string, SpanPool};
use termitype::ui::helpers::utils::{TermiSymbols, TermiUtils, UiCache};
use termitype::ui::render::TermiClickableRegions;
use termitype::utils::{format_timestamp, Timestamp};
use termitype::variants::ResultsVariant;

fn rect(x: u16, y: u16, width: u16, height: u16) -> Rect {
    Rect { x, y, width, height }
}

fn note(message: &str) -> Notification {
    Notification { title: "Saved".to_string(), message: message.to_string(), severity: NotificationSeverity::Info }
}

fn lines_of(lines: Vec<Vec<char>>) -> Vec<String> {
    lines.into_iter().map(|l| l.into_iter().collect()).collect()
}

fn describe(state: &FooterState) -> Vec<String> {
    state
        .entries
        .iter()
        .map(|e| match e {
            FooterEntry::Splitter => "|".to_string(),
            FooterEntry::Item(item) => format!("{}:{}:{}", item.label, item.key, item.is_selected),
        })
        .collect()
}

#[test]
fn wrap_text_fills_lines_greedily() {
    assert_eq!(wrap_text("the quick brown fox", 10), vec!["the quick", "brown fox"]);
    assert_eq!(wrap_text("  the   quick\tbrown ", 9), vec!["the quick", "brown"]);
    assert_eq!(wrap_text("a verylongword b", 5), vec!["a", "verylongword", "b"]);
    assert_eq!(wrap_text("abcdef", 3), vec!["abcdef"]);
    assert_eq!(wrap_text("", 10), Vec::<String>::new());
    assert_eq!(wrap_text("   ", 10), Vec::<String>::new());
}

#[test]
fn wrap_text_measures_bytes() {
    assert_eq!(wrap_text("héé x", 5), vec!["héé", "x"]);
    assert_eq!(wrap_text("hé x", 5), vec!["hé x"]);
}

#[test]
fn wrap_text_keeps_the_words() {
    let text = "one two three four five six seven";
    for width in 0..40u16 {
        let joined = wrap_text(text, width).join(" ");
        assert_eq!(joined, text);
    }
}

#[test]
fn target_lines_break_after_spaces() {
    let chars: Vec<char> = "hello world foo".chars().collect();
    assert_eq!(lines_of(build_target_lines(&chars, 8)), vec!["hello ", "world ", "foo"]);
    let chars: Vec<char> = "abcdefghij".chars().collect();
    assert_eq!(lines_of(build_target_lines(&chars, 4)), vec!["abcd", "efgh", "ij"]);
    assert!(build_target_lines(&Vec::new(), 10).is_empty());
}

#[test]
fn target_lines_keep_the_text() {
    let text = "the quick brown fox jumps over the lazy dog";
    let chars: Vec<char> = text.chars().collect();
    for width in 1..30u16 {
        let joined: String = lines_of(build_target_lines(&chars, width)).concat();
        assert_eq!(joined, text);
    }
}

#[test]
fn char_lengths_in_bytes() {
    assert_eq!(char_len_utf8('a'), 1);
    assert_eq!(char_len_utf8('é'), 2);
    assert_eq!(char_len_utf8('€'), 3);
    assert_eq!(char_len_utf8('🦀'), 4);
}

#[test]
fn cursor_lookup_in_lines() {
    assert_eq!(resolve_cursor(&[6, 6, 3], 7), (1, 1));
    assert_eq!(resolve_cursor(&[6, 6, 3], 0), (0, 0));
    assert_eq!(resolve_cursor(&[6, 6, 3], 15), (0, 0));
    assert_eq!(locate_position(&[3, 0, 4], 3), (2, 0));
    assert_eq!(locate_position(&[], 3), (0, 0));
}

#[test]
fn visible_lines_follow_the_cursor() {
    assert_eq!(calculate_visible_lines(&[5, 5, 5, 5], 12, 3), (1, 4));
    assert_eq!(calculate_visible_lines(&[5, 5, 5, 5], 2, 3), (0, 3));
    assert_eq!(calculate_visible_lines(&[5, 5, 5, 5], 40, 3), (0, 3));
    assert_eq!(calculate_visible_lines(&[5, 5], 7, 5), (0, 2));
    assert_eq!(calculate_visible_lines(&[5, 5, 5, 5, 5, 5], 27, 1), (5, 6));
}

#[test]
fn cursor_cell_on_screen() {
    assert_eq!(cursor_position(&[5, 5, 5, 5], 12, 3, rect(10, 4, 50, 20), 1), (12, 8));
    assert_eq!(cursor_position(&[5, 5, 5, 5], 3, 3, rect(0, 0, 50, 20), 0), (3, 2));
}

#[test]
fn command_palette_cursor() {
    assert_eq!(calculate_cursor_position(rect(5, 3, 20, 1), "abc"), Position { x: 10, y: 3 });
    assert_eq!(calculate_cursor_position(rect(0, 0, 10, 1), "abcdefgh"), Position { x: 8, y: 0 });
    assert_eq!(calculate_spans_width(&["ab".to_string(), "héllo".to_string()]), 7);
    assert_eq!(calculate_spans_width(&[]), 0);
}

#[test]
fn notification_wrapped_lines() {
    assert_eq!(NotificationComponent::calculate_wrapped_lines("hello world", 5), 3);
    assert_eq!(NotificationComponent::calculate_wrapped_lines("a\n\nb", 10), 3);
    assert_eq!(NotificationComponent::calculate_wrapped_lines(&"x".repeat(100), 10), 4);
    assert_eq!(NotificationComponent::calculate_wrapped_lines("anything", 0), 1);
    assert_eq!(NotificationComponent::calculate_wrapped_lines("", 10), 1);
}

#[test]
fn notification_heights() {
    assert_eq!(NotificationComponent::calculate_height(&note("hello world"), 9), 7);
    assert_eq!(NotificationComponent::calculate_height(&note(""), 35), 4);
    assert_eq!(NotificationComponent::calculate_height(&note("hi"), 3), 5);
    assert_eq!(UiNotificationComponent::calculate_notification_height(&note(""), 35), 5);
    assert_eq!(UiNotificationComponent::calculate_notification_height(&note("hello world"), 9), 7);
    assert_eq!(UiNotificationComponent::calculate_notification_height(&note(&"y".repeat(200)), 35), 8);
}

#[test]
fn notification_space_and_bounds() {
    assert!(NotificationComponent::has_sufficient_space(rect(0, 0, 35, 15)));
    assert!(!NotificationComponent::has_sufficient_space(rect(0, 0, 34, 15)));
    assert!(!NotificationComponent::has_sufficient_space(rect(0, 0, 35, 14)));
    assert!(NotificationComponent::is_within_bounds(rect(1, 1, 10, 10), rect(0, 0, 11, 11)));
    assert!(!NotificationComponent::is_within_bounds(rect(1, 1, 10, 11), rect(0, 0, 11, 11)));
    assert_eq!(NotificationComponent::icon(NotificationSeverity::Info), "i");
    assert_eq!(NotificationComponent::icon(NotificationSeverity::Warning), "!");
    assert_eq!(NotificationComponent::icon(NotificationSeverity::Error), "x");
}

#[test]
fn notification_start_positions() {
    let area = rect(0, 0, 80, 30);
    let start = |p| NotificationComponent::calculate_start_position(area, p, 35, 8, 2, 0);
    assert_eq!(start(NotificationPosition::TopLeft), (2, 0));
    assert_eq!(start(NotificationPosition::TopRight), (45, 0));
    assert_eq!(start(NotificationPosition::BottomLeft), (2, 22));
    assert_eq!(start(NotificationPosition::BottomRight), (45, 22));
}

#[test]
fn notification_boxes_stack_from_the_corner() {
    let notes = vec![note(""), note("")];
    let area = rect(0, 0, 80, 30);
    assert_eq!(
        NotificationComponent::notification_areas(&notes, area, NotificationPosition::TopRight),
        vec![rect(44, 0, 35, 4), rect(44, 4, 35, 4)]
    );
    assert_eq!(
        NotificationComponent::notification_areas(&notes, area, NotificationPosition::BottomLeft),
        vec![rect(1, 22, 35, 4), rect(1, 26, 35, 4)]
    );
    assert_eq!(
        NotificationComponent::notification_areas(&notes, rect(0, 0, 80, 6), NotificationPosition::TopLeft),
        vec![rect(1, 0, 35, 4)]
    );
    assert_eq!(
        NotificationComponent::notification_areas(&[note("hello world")], rect(0, 0, 20, 30), NotificationPosition::TopLeft),
        vec![rect(1, 0, 16, 5)]
    );
    assert_eq!(
        UiNotificationComponent::notification_areas(&notes, area, NotificationPosition::TopRight),
        vec![rect(43, 0, 35, 5), rect(43, 5, 35, 5)]
    );
    assert!(NotificationComponent::notification_areas(&[], area, NotificationPosition::TopLeft).is_empty());
}

#[test]
fn footer_shows_the_actions_that_fit() {
    let views = ["Minimal:m:false", "|", "Graph:g:true", "|", "Neofetch:n:false"];
    assert_eq!(describe(&calculate_state(ResultsVariant::Graph, 49)), views);
    let mut with_new = views.to_vec();
    with_new.extend(["|", "New:N:false"]);
    assert_eq!(describe(&calculate_state(ResultsVariant::Graph, 50)), with_new);
    let mut with_redo = with_new.clone();
    with_redo.extend(["|", "Redo:r:false"]);
    assert_eq!(describe(&calculate_state(ResultsVariant::Graph, 61)), with_redo);
    assert_eq!(calculate_state(ResultsVariant::Minimal, 108).entries.len(), 13);
    let all = describe(&calculate_state(ResultsVariant::Minimal, 109));
    assert_eq!(all.len(), 15);
    assert_eq!(all[0], "Minimal:m:true");
    assert_eq!(all[14], "Randomize Theme:^t:false");
    assert_eq!(describe(&calculate_state(ResultsVariant::Neofetch, 0))[4], "Neofetch:n:true");
}

#[test]
fn timestamps() {
    assert_eq!(format_timestamp(Timestamp { secs: 0, millis: 0 }), "1970-01-01T00-00-00.000");
    assert_eq!(format_timestamp(Timestamp { secs: 0, millis: 7 }), "1970-01-01T00-00-00.007");
    assert_eq!(
        format_timestamp(Timestamp { secs: 1_000_000_000, millis: 1_000_000_000_123 }),
        "2001-09-20T01-46-40.123"
    );
    assert_eq!(format_timestamp(Timestamp { secs: 86_399, millis: 86_399_999 }), "1970-01-01T23-59-59.999");
    // 61.5 s after the epoch: minute 1, second 1, and the 500 ms within that second
    let t = format_timestamp(Timestamp { secs: 61, millis: 61_500 });
    assert_eq!(t, "1970-01-01T00-01-01.500");
    assert_eq!(t.len(), 23);
}

#[test]
fn truncate_text_adds_an_ellipsis() {
    assert_eq!(TermiUtils::truncate_text("hello", 10), "hello");
    assert_eq!(TermiUtils::truncate_text("hello", 5), "hello");
    assert_eq!(TermiUtils::truncate_text("hello world", 8), "hello...");
    assert_eq!(TermiUtils::truncate_text("hello", 3), "...");
    assert_eq!(TermiUtils::truncate_text("hello", 0), "...");
}

#[test]
fn hash_text_is_the_std_string_hash() {
    for text in ["", "abc", "héllo wörld"] {
        let mut hasher = std::collections::hash_map::DefaultHasher::new();
        text.hash(&mut hasher);
        assert_eq!(TermiUtils::hash_text(text), hasher.finish());
    }
    assert_ne!(TermiUtils::hash_text("a"), TermiUtils::hash_text("b"));
}

#[test]
fn symbol_sets() {
    let u = TermiUtils::get_symbols(true);
    assert_eq!((u.divider, u.info, u.arrow, u.cursor), ("│", "ⓘ", "❯ ", "█"));
    let a = TermiUtils::get_symbols(false);
    assert_eq!((a.divider, a.info, a.arrow, a.cursor), ("|", "i", "> ", "_"));
    assert_eq!(TermiSymbols::ascii().custom, "<c>");
    assert_eq!(TermiSymbols::unicode().submenu_arrow, " →");
}

#[test]
fn ui_cache_invalidation() {
    let mut cache = UiCache::new();
    assert!(cache.last_word_positions.is_none());
    cache.last_text_hash = 42;
    cache.last_width = 80;
    cache.last_word_positions = Some(Vec::new());
    cache.invalidate();
    assert!(cache.last_word_positions.is_none());
    assert_eq!((cache.last_text_hash, cache.last_width), (0, 0));
    let d = UiCache::default();
    assert_eq!((d.last_text_hash, d.last_width), (0, 0));
}

#[test]
fn span_pool_hands_out_empty_strings() {
    let mut pool = SpanPool::new();
    for _ in 0..1005 {
        assert!(get_pooled_string(&mut pool).is_empty());
    }
}

#[test]
fn clickable_regions_skip_empty_areas() {
    let mut regions = TermiClickableRegions::new();
    regions.add(rect(0, 0, 10, 1), TermiClickAction::ToggleAbout);
    regions.add(rect(0, 0, 0, 1), TermiClickAction::ToggleAbout);
    regions.add(rect(0, 0, 5, 0), TermiClickAction::ToggleAbout);
    assert_eq!(regions.regions.len(), 1);
    assert_eq!(regions.regions[0].0, rect(0, 0, 10, 1));
    assert!(TermiClickableRegions::default().regions.is_empty());
}

#[test]
fn wrapped_lines_fit_or_hold_one_long_word() {
    let lines = wrap_text("a verylongword b cd", 5);
    assert_eq!(lines, vec!["a", "verylongword", "b cd"]);
    for line in &lines {
        assert!(line.len() <= 5 || !line.contains(' '));
    }
}
