use termitype::ui::components;
use termitype::ui::helpers::utils as helpers_utils;
use termitype::ui::utils;

#[test]
fn utils_test_word_position_basic() {
    let text = "hello world ";
    let available_width = 20;
    let positions = helpers_utils::calculate_word_positions(text, available_width);

    assert_eq!(positions.len(), 2, "Should have positions for two words ");
    assert_eq!(positions[0].start_index, 0, "First word starts at 0");
    assert_eq!(positions[0].line, 0, "First word on line 0");
    assert_eq!(positions[0].col, 0, "First word at column 0");

    assert_eq!(
        positions[1].start_index, 6,
        "Second word starts after \"hello \""
    );
    assert_eq!(positions[1].line, 0, "Second word on line 0");
    assert_eq!(positions[1].col, 6, "Second word after first word + space");
}

#[test]
fn utils_test_word_position_wrapping() {
    let text = "hello world wrap";
    let available_width = 8; // force wrap after "hello"
    let positions = helpers_utils::calculate_word_positions(text, available_width);

    assert_eq!(positions[0].line, 0, "First word on line 0");
    assert_eq!(positions[1].line, 1, "Second word should wrap to line 1");
    assert_eq!(positions[1].col, 0, "Wrapped word starts at column 0");
    assert_eq!(positions[2].line, 2, "Third word on line 2");
}

#[test]
fn utils_test_cursor_positions() {
    let text = "hello world next";
    let available_width = 20;
    let positions = helpers_utils::calculate_word_positions(text, available_width);

    let test_positions = vec![
        (0, 0, "Start of text"),
        (5, 0, "End of first word"),
        (6, 1, "Start of second word"),
        (11, 1, "End of second word"),
        (12, 2, "Start of third word"),
    ];

    for (cursor_pos, expected_word_idx, description) in test_positions {
        let current_pos = positions
            .iter()
            .rev()
            .find(|pos| cursor_pos >= pos.start_index)
            .unwrap();

        assert_eq!(
            positions
                .iter()
                .position(|p| p.start_index == current_pos.start_index)
                .unwrap(),
            expected_word_idx,
            "{}",
            description
        );
    }
}

#[test]
fn utils_test_empty_text() {
    let text = "";
    let available_width = 10;
    let positions = helpers_utils::calculate_word_positions(text, available_width);
    assert!(positions.is_empty(), "Empty text should have no positions");
}

#[test]
fn render_test_word_position_basic() {
    let text = "hello world ";
    let available_width = 20;
    let positions = utils::calculate_word_positions(text, available_width);

    assert_eq!(positions.len(), 2, "Should have positions for two words ");
    assert_eq!(positions[0].start_index, 0, "First word starts at 0");
    assert_eq!(positions[0].line, 0, "First word on line 0");
    assert_eq!(positions[0].col, 0, "First word at column 0");

    assert_eq!(
        positions[1].start_index, 6,
        "Second word starts after \"hello \""
    );
    assert_eq!(positions[1].line, 0, "Second word on line 0");
    assert_eq!(positions[1].col, 6, "Second word after first word + space");
}

#[test]
fn render_test_word_position_wrapping() {
    let text = "hello world wrap";
    let available_width = 8; // force wrap after "hello"
    let positions = utils::calculate_word_positions(text, available_width);

    assert_eq!(positions[0].line, 0, "First word on line 0");
    assert_eq!(positions[1].line, 1, "Second word should wrap to line 1");
    assert_eq!(positions[1].col, 0, "Wrapped word starts at column 0");
    assert_eq!(positions[2].line, 2, "Third word on line 2");
}

#[test]
fn render_test_cursor_positions() {
    let text = "hello world next";
    let available_width = 20;
    let positions = utils::calculate_word_positions(text, available_width);

    let test_positions = vec![
        (0, 0, "Start of text"),
        (5, 0, "End of first word"),
        (6, 1, "Start of second word"),
        (11, 1, "End of second word"),
        (12, 2, "Start of third word"),
    ];

    for (cursor_pos, expected_word_idx, description) in test_positions {
        let current_pos = positions
            .iter()
            .rev()
            .find(|pos| cursor_pos >= pos.start_index)
            .unwrap();

        assert_eq!(
            positions
                .iter()
                .position(|p| p.start_index == current_pos.start_index)
                .unwrap(),
            expected_word_idx,
            "{}",
            description
        );
    }
}

#[test]
fn render_test_empty_text() {
    let text = "";
    let available_width = 10;
    let positions = utils::calculate_word_positions(text, available_width);
    assert!(positions.is_empty(), "Empty text should have no positions");
}

#[test]
fn components_test_word_position_basic() {
    let text = "hello world";
    let available_width = 20;
    let positions = components::calculate_word_positions(text, available_width);

    assert_eq!(positions.len(), 2, "Should have positions for two words");
    assert_eq!(positions[0].start_index, 0, "First word starts at 0");
    assert_eq!(positions[0].line, 0, "First word on line 0");
    assert_eq!(positions[0].col, 0, "First word at column 0");

    assert_eq!(
        positions[1].start_index, 6,
        "Second word starts after 'hello '"
    );
    assert_eq!(positions[1].line, 0, "Second word on line 0");
    assert_eq!(positions[1].col, 6, "Second word after first word + space");
}

#[test]
fn components_test_word_position_wrapping() {
    let text = "hello world wrap";
    let available_width = 8; // force wrap after "hello"
    let positions = components::calculate_word_positions(text, available_width);

    assert_eq!(positions[0].line, 0, "First word on line 0");
    assert_eq!(positions[1].line, 1, "Second word should wrap to line 1");
    assert_eq!(positions[1].col, 0, "Wrapped word starts at column 0");
    assert_eq!(positions[2].line, 2, "Third word on line 2");
}

#[test]
fn components_test_cursor_positions() {
    let text = "hello world next";
    let available_width = 20;
    let positions = components::calculate_word_positions(text, available_width);

    let test_positions = vec![
        (0, 0, "Start of text"),
        (5, 0, "End of first word"),
        (6, 1, "Start of second word"),
        (11, 1, "End of second word"),
        (12, 2, "Start of third word"),
    ];

    for (cursor_pos, expected_word_idx, description) in test_positions {
        let current_pos = positions
            .iter()
            .rev()
            .find(|pos| cursor_pos >= pos.start_index)
            .unwrap();

        assert_eq!(
            positions
                .iter()
                .position(|p| p.start_index == current_pos.start_index)
                .unwrap(),
            expected_word_idx,
            "{}",
            description
        );
    }
}

#[test]
fn components_test_empty_text() {
    let text = "";
    let available_width = 10;
    let positions = components::calculate_word_positions(text, available_width);
    assert!(positions.is_empty(), "Empty text should have no positions");
}

#[test]
fn helpers_positions_follow_the_text_spacing() {
    let positions = helpers_utils::calculate_word_positions("  ab   cd\te", 40);
    let starts: Vec<usize> = positions.iter().map(|p| p.start_index).collect();
    assert_eq!(starts, vec![2, 7, 10]);
    let cols: Vec<usize> = positions.iter().map(|p| p.col).collect();
    assert_eq!(cols, vec![0, 3, 6]);
}

#[test]
fn utils_positions_assume_single_spaces() {
    let positions = utils::calculate_word_positions("  ab   cd\te", 40);
    let starts: Vec<usize> = positions.iter().map(|p| p.start_index).collect();
    assert_eq!(starts, vec![0, 3, 6]);
}

#[test]
fn positions_zero_width_and_long_words() {
    assert!(utils::calculate_word_positions("abc def", 0).is_empty());
    assert!(helpers_utils::calculate_word_positions("abc def", 0).is_empty());
    // the components variant places every word on its own line in a zero-width area
    let c = components::calculate_word_positions("abc def", 0);
    assert_eq!(c.len(), 2);
    assert_eq!((c[0].line, c[0].col), (0, 0));
    assert_eq!((c[1].line, c[1].col), (1, 0));
    // a word longer than the width starts a fresh line and the next word moves on
    let u = utils::calculate_word_positions("ab longword cd", 5);
    let lines: Vec<(usize, usize)> = u.iter().map(|p| (p.line, p.col)).collect();
    assert_eq!(lines, vec![(0, 0), (1, 0), (2, 0)]);
}

#[test]
fn positions_unicode_words_count_chars() {
    let p = helpers_utils::calculate_word_positions("sí prueba", 50);
    assert_eq!(p.len(), 2);
    assert_eq!(p[1].start_index, 3);
    assert_eq!(p[1].col, 3);
}

#[test]
fn variants_of_placement_agree_on_positive_widths() {
    let text = "the quick brown fox jumps over the lazy dog";
    for w in 1..30 {
        let a = utils::calculate_word_positions(text, w);
        let b = components::calculate_word_positions(text, w);
        assert_eq!(a.len(), b.len());
        for (x, y) in a.iter().zip(b.iter()) {
            assert_eq!((x.start_index, x.line, x.col), (y.start_index, y.line, y.col));
        }
    }
}

#[test]
fn word_position_cache_returns_cached_entry() {
    let mut cache = helpers_utils::WordPositionCache::new();
    let first = cache.word_positions("hello world", 20);
    let second = cache.word_positions("hello world", 20);
    assert_eq!(first.len(), second.len());
    assert_eq!(second[1].start_index, 6);
    let other = cache.word_positions("hello world", 8);
    assert_eq!(other[1].line, 1);
}

#[test]
fn hash_text_is_deterministic() {
    let a = helpers_utils::TermiUtils::hash_text("hello");
    let b = helpers_utils::TermiUtils::hash_text("hello");
    let c = helpers_utils::TermiUtils::hash_text("hellp");
    assert_eq!(a, b);
    assert_ne!(a, c);
}
