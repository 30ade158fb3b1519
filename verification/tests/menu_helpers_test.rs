use termitype::ui::helpers::menu::{ItemKind, LabelStyle, MenuEntry, MenuHelpers, PieceStyle};

fn entry(id: &str, key: Option<&str>, label: &str, is_active: Option<bool>, kind: ItemKind) -> MenuEntry {
    MenuEntry {
        id: id.to_string(),
        key: key.map(|k| k.to_string()),
        label: label.to_string(),
        is_disabled: false,
        is_active,
        kind,
    }
}

fn texts(line: &[(String, PieceStyle, bool)]) -> Vec<&str> {
    line.iter().map(|p| p.0.as_str()).collect()
}

#[test]
fn menu_without_content_says_so() {
    let (lines, total) = MenuHelpers::build_menu_items(false, &[], "", 0, 10, false, false);
    assert_eq!(total, 0);
    assert_eq!(lines.len(), 1);
    assert_eq!(texts(&lines[0]), vec!["  No menu content"]);
}

#[test]
fn menu_without_matches_shows_the_grep_notice() {
    let (lines, total) = MenuHelpers::build_menu_items(true, &[], "x", 0, 10, false, false);
    assert_eq!(total, 0);
    assert_eq!(lines.len(), 2);
    assert!(lines[0].is_empty());
    assert_eq!(texts(&lines[1]), vec!["  ", "grep: pattern not found"]);
    assert_eq!(lines[1][1].1, PieceStyle::Muted);
}

#[test]
fn menu_shows_the_visible_window_with_the_selection() {
    let items = vec![
        entry("a", None, "Theme", None, ItemKind::OpenSubMenu),
        entry("b", None, "Punctuation", Some(true), ItemKind::ToggleState),
        entry("c", Some("wpm"), "87", None, ItemKind::Other),
        entry("d", Some("accuracy"), "96%", None, ItemKind::Other),
        entry("e", None, "Quit", None, ItemKind::Other),
    ];
    let (lines, total) = MenuHelpers::build_menu_items(true, &items, "b", 1, 3, false, false);
    assert_eq!(total, 5);
    assert_eq!(lines.len(), 4);
    assert!(lines[0].is_empty());
    // selected toggle: arrow, check box, label on the cursor line
    assert_eq!(texts(&lines[1]), vec!["  ", "❯ ", "[✓] ", "Punctuation"]);
    assert_eq!(lines[1][3].1, PieceStyle::Label(LabelStyle::Cursorline));
    assert!(lines[1][1].2);
    // keys padded to the widest visible key ("accuracy", 8) plus two
    assert_eq!(texts(&lines[2]), vec!["  ", "  ", "wpm       ", "87"]);
    assert_eq!(texts(&lines[3]), vec!["  ", "  ", "accuracy  ", "96%"]);
    assert!(!lines[2][2].2);
}

#[test]
fn item_spans_mark_submenus_and_hidden_descriptions() {
    let submenu = entry("t", None, "Theme", None, ItemKind::OpenSubMenu);
    let spans = MenuHelpers::create_item_spans(&submenu, false, 0, false, false);
    assert_eq!(texts(&spans), vec!["  ", "  ", "Theme", " →"]);
    assert_eq!(spans[2].1, PieceStyle::Label(LabelStyle::Normal));
    assert_eq!(spans[3].1, PieceStyle::SubmenuArrow);

    let info = entry("k", Some("lang"), "english", None, ItemKind::Other);
    let hidden = MenuHelpers::create_item_spans(&info, false, 10, true, false);
    assert_eq!(texts(&hidden), vec!["  ", "  ", "lang", "english"]);
}

#[test]
fn label_styles_follow_selection_and_state() {
    let off = entry("p", None, "Numbers", Some(false), ItemKind::ToggleState);
    assert_eq!(MenuHelpers::get_label_style(&off, false, false), LabelStyle::ToggleOff);
    assert_eq!(MenuHelpers::get_label_style(&off, true, false), LabelStyle::SelectedBold);
    let mut disabled = entry("q", None, "Soon", None, ItemKind::Other);
    disabled.is_disabled = true;
    assert_eq!(MenuHelpers::get_label_style(&disabled, false, false), LabelStyle::Disabled);
    assert!(!MenuHelpers::get_content_bg(true, true, false));
    assert!(!MenuHelpers::get_content_bg(true, false, true));
    assert!(MenuHelpers::get_content_bg(true, false, false));
    let spans = MenuHelpers::create_item_spans(&off, true, 0, false, true);
    assert_eq!(texts(&spans), vec!["  ", "❯ ", "[ ] ", "Numbers"]);
    assert_eq!(spans[3].1, PieceStyle::Label(LabelStyle::SelectedBold));
}
