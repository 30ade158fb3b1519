//! The lines of the menu: which items show, and the pieces each line is drawn from.

use vstd::prelude::*;
use crate::text::chars_of;
use crate::variants::str_equals;

verus! {

/// Builds the lines of the menu.
pub struct MenuHelpers;

/// What choosing an item does, as far as its drawing depends on it.
#[derive(Debug, Clone, Copy, PartialEq, Eq, Structural)]
pub enum ItemKind {
    /// Opens a submenu (an arrow follows the label).
    OpenSubMenu,
    /// Switches a setting on or off.
    ToggleState,
    /// Anything else.
    Other,
}

/// A menu item as the menu draws it.
pub struct MenuEntry {
    pub id: String,
    /// The key of an information item (a key and a value).
    pub key: Option<String>,
    pub label: String,
    pub is_disabled: bool,
    /// The state of a setting that the item switches.
    pub is_active: Option<bool>,
    pub kind: ItemKind,
}

/// How the label of an item is styled.
#[derive(Debug, Clone, Copy, PartialEq, Eq, Structural)]
pub enum LabelStyle {
    /// Selected, without a cursor line: bold, in the success colour.
    SelectedBold,
    /// Selected on the cursor line: the selection colours.
    Cursorline,
    /// Disabled: dim, muted.
    Disabled,
    /// A setting that is on: the success colour.
    ToggleOn,
    /// A setting that is off: dim, muted.
    ToggleOff,
    /// The plain foreground colour.
    Normal,
}

/// How a piece of a menu line is styled.
#[derive(Debug, Clone, Copy, PartialEq, Eq, Structural)]
pub enum PieceStyle {
    /// No style.
    Plain,
    /// The selection arrow (success colour) or its blank place (foreground).
    Indicator { selected: bool },
    /// The key of an information item: bold, accented.
    Key,
    /// A label.
    Label(LabelStyle),
    /// A check box, on or off.
    Checkbox { active: bool },
    /// The arrow after an item that opens a submenu.
    SubmenuArrow,
    /// Dim, muted text.
    Muted,
}

/// A piece of a menu line: its text, its style, and whether it has the selection's
/// background.
pub type Piece = (String, PieceStyle, bool);

/// The pieces as plain values.
pub open spec fn pieces_view(ps: Seq<Piece>) -> Seq<(Seq<char>, PieceStyle, bool)> {
    ps.map_values(|p: Piece| (p.0@, p.1, p.2))
}

/// The lines as plain values.
pub open spec fn lines_view(ls: Seq<Vec<Piece>>) -> Seq<Seq<(Seq<char>, PieceStyle, bool)>> {
    ls.map_values(|l: Vec<Piece>| pieces_view(l@))
}

/// `text` padded with spaces on the right to `width` chars.
pub open spec fn pad_right(text: Seq<char>, width: int) -> Seq<char> {
    text + Seq::new((if width > text.len() { width - text.len() } else { 0 }) as nat, |i: int| ' ')
}

/// Whether a line has the selection's background: selected, enabled, and cursor lines shown.
pub open spec fn content_bg_spec(is_selected: bool, is_disabled: bool, hide_cursorline: bool) -> bool {
    is_selected && !is_disabled && !hide_cursorline
}

/// How the label of `item` is styled.
pub open spec fn label_style_spec(item: MenuEntry, is_selected: bool, cursorline: bool) -> LabelStyle {
    if is_selected && !cursorline {
        LabelStyle::SelectedBold
    } else if is_selected && cursorline {
        LabelStyle::Cursorline
    } else if item.is_disabled {
        LabelStyle::Disabled
    } else {
        match item.kind {
            ItemKind::ToggleState => if item.is_active == Some(true) {
                LabelStyle::ToggleOn
            } else {
                LabelStyle::ToggleOff
            },
            _ => LabelStyle::Normal,
        }
    }
}

/// The pieces of the line of `item`: an indent, the selection arrow or its blank place, then
/// for an information item its key (padded to two more than `max_key_width` unless
/// descriptions are hidden) and label, else the check box of a setting and the label; and an
/// arrow when the item opens a submenu.
pub open spec fn item_pieces_spec(
    item: MenuEntry,
    is_selected: bool,
    max_key_width: int,
    hide_description: bool,
    hide_cursorline: bool,
) -> Seq<(Seq<char>, PieceStyle, bool)> {
    let bg = content_bg_spec(is_selected, item.is_disabled, hide_cursorline);
    let head = seq![
        ("  "@, PieceStyle::Plain, false),
        (if is_selected { "❯ "@ } else { "  "@ }, PieceStyle::Indicator { selected: is_selected }, bg),
    ];
    let body = match item.key {
        Some(k) => seq![
            (
                if hide_description { k@ } else { pad_right(k@, max_key_width + 2) },
                PieceStyle::Key,
                bg,
            ),
            (item.label@, PieceStyle::Label(LabelStyle::Normal), bg),
        ],
        None => {
            let label = (
                item.label@,
                PieceStyle::Label(label_style_spec(item, is_selected, bg)),
                bg,
            );
            match item.is_active {
                Some(active) => seq![
                    (
                        if active { "[✓] "@ } else { "[ ] "@ },
                        PieceStyle::Checkbox { active },
                        bg,
                    ),
                    label,
                ],
                None => seq![label],
            }
        },
    };
    let tail = if item.kind == ItemKind::OpenSubMenu {
        seq![(" →"@, PieceStyle::SubmenuArrow, bg)]
    } else {
        Seq::empty()
    };
    head + body + tail
}

/// The first visible item: the scroll offset, at most the number of items.
pub open spec fn window_start(len: int, scroll_offset: int) -> int {
    if scroll_offset < len {
        scroll_offset
    } else {
        len
    }
}

/// One past the last visible item.
pub open spec fn window_end(len: int, scroll_offset: int, max_visible: int) -> int {
    let s = window_start(len, scroll_offset);
    if max_visible < len - s {
        s + max_visible
    } else {
        len
    }
}

/// The widest key among `items`, in chars; 0 without keys.
pub open spec fn max_key_width_spec(items: Seq<MenuEntry>) -> int
    decreases items.len(),
{
    if items.len() == 0 {
        0
    } else {
        let rest = max_key_width_spec(items.drop_last());
        match items.last().key {
            Some(k) => if k@.len() > rest {
                k@.len() as int
            } else {
                rest
            },
            None => rest,
        }
    }
}

/// The lines of the menu and the number of its items: a notice without a menu, another when
/// no item matches, else an empty line and the lines of the visible items (the item whose id
/// is `current_id` selected).
pub open spec fn menu_lines_spec(
    has_menu: bool,
    items: Seq<MenuEntry>,
    current_id: Seq<char>,
    scroll_offset: int,
    max_visible: int,
    hide_description: bool,
    hide_cursorline: bool,
) -> (Seq<Seq<(Seq<char>, PieceStyle, bool)>>, int) {
    if !has_menu {
        (seq![seq![("  No menu content"@, PieceStyle::Plain, false)]], 0)
    } else if items.len() == 0 {
        (
            seq![
                Seq::empty(),
                seq![
                    ("  "@, PieceStyle::Plain, false),
                    ("grep: pattern not found"@, PieceStyle::Muted, false),
                ],
            ],
            0,
        )
    } else {
        let visible = items.subrange(
            window_start(items.len() as int, scroll_offset),
            window_end(items.len() as int, scroll_offset, max_visible),
        );
        let w = max_key_width_spec(visible);
        (
            seq![Seq::<(Seq<char>, PieceStyle, bool)>::empty()] + visible.map_values(
                |item: MenuEntry|
                    item_pieces_spec(item, item.id@ == current_id, w, hide_description, hide_cursorline),
            ),
            items.len() as int,
        )
    }
}

proof fn lemma_max_key_width_bound(items: Seq<MenuEntry>, bound: int)
    requires
        0 <= bound,
        forall|i: int|
            0 <= i < items.len() && (#[trigger] items[i]).key is Some ==> items[i].key->0@.len()
                <= bound,
    ensures
        0 <= max_key_width_spec(items) <= bound,
    decreases items.len(),
{
    if items.len() > 0 {
        assert forall|i: int|
            0 <= i < items.drop_last().len() && (#[trigger] items.drop_last()[i]).key is Some implies items.drop_last()[i].key->0@.len()
                <= bound by {
            assert(items[i] == items.drop_last()[i]);
        }
        lemma_max_key_width_bound(items.drop_last(), bound);
        assert(items.last() == items[items.len() - 1]);
    }
}

/// `text` padded with spaces on the right to `width` chars.
fn padded_right(text: &str, width: usize) -> (r: String)
    ensures
        r@ == pad_right(text@, width as int),
{
    let mut t = text.to_owned();
    let n = chars_of(text).len();
    let ghost base = t@;
    let mut i = n;
    while i < width
        invariant
            n == text@.len(),
            base == text@,
            n <= i <= width || (n >= width && i == n),
            t@ == base + Seq::new((i - n) as nat, |j: int| ' '),
        decreases width - i,
    {
        proof {
            reveal_strlit(" ");
        }
        t.append(" ");
        assert(t@ =~= base + Seq::new((i + 1 - n) as nat, |j: int| ' '));
        i += 1;
    }
    assert(Seq::new((i - n) as nat, |j: int| ' ') =~= Seq::new(
        (if width > n { width - n } else { 0 }) as nat,
        |j: int| ' ',
    ));
    t
}

impl MenuHelpers {
    /// Whether a line has the selection's background.
    pub fn get_content_bg(is_selected: bool, is_disabled: bool, hide_cursorline: bool) -> (r: bool)
        ensures
            r == content_bg_spec(is_selected, is_disabled, hide_cursorline),
    {
        is_selected && !is_disabled && !hide_cursorline
    }

    /// How the label of `item` is styled, `cursorline` telling whether its line has the
    /// selection's background.
    pub fn get_label_style(item: &MenuEntry, is_selected: bool, cursorline: bool) -> (r: LabelStyle)
        ensures
            r == label_style_spec(*item, is_selected, cursorline),
    {
        if is_selected && !cursorline {
            LabelStyle::SelectedBold
        } else if is_selected && cursorline {
            LabelStyle::Cursorline
        } else if item.is_disabled {
            LabelStyle::Disabled
        } else {
            match item.kind {
                ItemKind::ToggleState => {
                    if item.is_active == Some(true) {
                        LabelStyle::ToggleOn
                    } else {
                        LabelStyle::ToggleOff
                    }
                },
                _ => LabelStyle::Normal,
            }
        }
    }

    /// The pieces of the line of `item` (see `item_pieces_spec`).
    pub fn create_item_spans(
        item: &MenuEntry,
        is_selected: bool,
        max_key_width: usize,
        hide_description: bool,
        hide_cursorline: bool,
    ) -> (r: Vec<Piece>)
        requires
            max_key_width + 2 <= usize::MAX,
        ensures
            pieces_view(r@) == item_pieces_spec(
                *item,
                is_selected,
                max_key_width as int,
                hide_description,
                hide_cursorline,
            ),
    {
        let bg = Self::get_content_bg(is_selected, item.is_disabled, hide_cursorline);
        let ghost want = item_pieces_spec(
            *item,
            is_selected,
            max_key_width as int,
            hide_description,
            hide_cursorline,
        );
        let mut spans: Vec<Piece> = Vec::new();
        spans.push(("  ".to_owned(), PieceStyle::Plain, false));
        let indicator = if is_selected {
            "❯ "
        } else {
            "  "
        };
        spans.push((indicator.to_owned(), PieceStyle::Indicator { selected: is_selected }, bg));
        match &item.key {
            Some(key_text) => {
                let formatted = if hide_description {
                    key_text.clone()
                } else {
                    padded_right(key_text.as_str(), max_key_width + 2)
                };
                spans.push((formatted, PieceStyle::Key, bg));
                spans.push((item.label.clone(), PieceStyle::Label(LabelStyle::Normal), bg));
            },
            None => {
                let style = Self::get_label_style(item, is_selected, bg);
                match item.is_active {
                    Some(active) => {
                        let check = if active {
                            "[✓] "
                        } else {
                            "[ ] "
                        };
                        spans.push((check.to_owned(), PieceStyle::Checkbox { active }, bg));
                    },
                    None => {},
                }
                spans.push((item.label.clone(), PieceStyle::Label(style), bg));
            },
        }
        if item.kind == ItemKind::OpenSubMenu {
            spans.push((" →".to_owned(), PieceStyle::SubmenuArrow, bg));
        }
        assert(pieces_view(spans@) =~= want);
        spans
    }

    /// The widest key among `items`, in chars.
    fn max_key_width(items: &[MenuEntry]) -> (r: usize)
        ensures
            r == max_key_width_spec(items@),
    {
        let mut best: usize = 0;
        let mut i: usize = 0;
        while i < items.len()
            invariant
                i <= items@.len(),
                best == max_key_width_spec(items@.take(i as int)),
            decreases items.len() - i,
        {
            assert(items@.take(i + 1).drop_last() =~= items@.take(i as int));
            match &items[i].key {
                Some(k) => {
                    let n = chars_of(k.as_str()).len();
                    if n > best {
                        best = n;
                    }
                },
                None => {},
            }
            i += 1;
        }
        assert(items@.take(i as int) =~= items@);
        best
    }

    /// The lines of the menu and the number of its items (see `menu_lines_spec`): `has_menu`
    /// tells whether a menu is open, `items` are its items and `current_id` the id of its
    /// current item (empty without one).
    pub fn build_menu_items(
        has_menu: bool,
        items: &[MenuEntry],
        current_id: &str,
        scroll_offset: usize,
        max_visible: usize,
        hide_description: bool,
        hide_cursorline: bool,
    ) -> (r: (Vec<Vec<Piece>>, usize))
        requires
            forall|i: int|
                0 <= i < items@.len() && (#[trigger] items@[i]).key is Some ==> items@[i].key->0@.len()
                    + 2 <= usize::MAX,
        ensures
            (lines_view(r.0@), r.1 as int) == menu_lines_spec(
                has_menu,
                items@,
                current_id@,
                scroll_offset as int,
                max_visible as int,
                hide_description,
                hide_cursorline,
            ),
    {
        if !has_menu {
            let mut lines: Vec<Vec<Piece>> = Vec::new();
            let mut only: Vec<Piece> = Vec::new();
            only.push(("  No menu content".to_owned(), PieceStyle::Plain, false));
            assert(pieces_view(only@) =~= seq![("  No menu content"@, PieceStyle::Plain, false)]);
            lines.push(only);
            assert(lines_view(lines@) =~= seq![seq![("  No menu content"@, PieceStyle::Plain, false)]]);
            return (lines, 0);
        }
        let total = items.len();
        if total == 0 {
            let mut lines: Vec<Vec<Piece>> = Vec::new();
            lines.push(Vec::new());
            let mut notice: Vec<Piece> = Vec::new();
            notice.push(("  ".to_owned(), PieceStyle::Plain, false));
            notice.push(("grep: pattern not found".to_owned(), PieceStyle::Muted, false));
            assert(pieces_view(lines@[0]@) =~= Seq::empty());
            assert(pieces_view(notice@) =~= seq![
                ("  "@, PieceStyle::Plain, false),
                ("grep: pattern not found"@, PieceStyle::Muted, false),
            ]);
            lines.push(notice);
            assert(lines_view(lines@) =~= menu_lines_spec(
                has_menu,
                items@,
                current_id@,
                scroll_offset as int,
                max_visible as int,
                hide_description,
                hide_cursorline,
            ).0);
            return (lines, 0);
        }
        let start = if scroll_offset < total {
            scroll_offset
        } else {
            total
        };
        let end = if max_visible < total - start {
            start + max_visible
        } else {
            total
        };
        let visible = &items[start..end];
        let ghost vis = items@.subrange(start as int, end as int);
        assert(visible@ =~= vis);
        let width = Self::max_key_width(visible);
        proof {
            assert forall|i: int| 0 <= i < vis.len() && (#[trigger] vis[i]).key is Some implies vis[i].key->0@.len()
                <= usize::MAX - 2 by {
                assert(vis[i] == items@[start + i]);
            }
            lemma_max_key_width_bound(vis, usize::MAX - 2);
        }
        let ghost want = menu_lines_spec(
            has_menu,
            items@,
            current_id@,
            scroll_offset as int,
            max_visible as int,
            hide_description,
            hide_cursorline,
        ).0;
        let mut lines: Vec<Vec<Piece>> = Vec::new();
        lines.push(Vec::new());
        let mut k: usize = 0;
        while k < visible.len()
            invariant
                visible@ == vis,
                vis == items@.subrange(start as int, end as int),
                start <= end <= items@.len(),
                k <= vis.len(),
                width == max_key_width_spec(vis),
                width + 2 <= usize::MAX,
                want == seq![Seq::<(Seq<char>, PieceStyle, bool)>::empty()] + vis.map_values(
                    |item: MenuEntry|
                        item_pieces_spec(
                            item,
                            item.id@ == current_id@,
                            width as int,
                            hide_description,
                            hide_cursorline,
                        ),
                ),
                lines@.len() == k + 1,
                forall|j: int| 0 <= j <= k ==> pieces_view((#[trigger] lines@[j])@) == want[j],
            decreases vis.len() - k,
        {
            let item = &visible[k];
            let is_selected = str_equals(item.id.as_str(), current_id);
            let line = Self::create_item_spans(
                item,
                is_selected,
                width,
                hide_description,
                hide_cursorline,
            );
            let ghost before = lines@;
            lines.push(line);
            assert forall|j: int| 0 <= j <= k + 1 implies pieces_view((#[trigger] lines@[j])@) == want[j] by {
                if j <= k {
                    assert(lines@[j] == before[j]);
                }
            }
            k += 1;
        }
        assert(lines_view(lines@) =~= want);
        (lines, total)
    }
}

} // verus!
