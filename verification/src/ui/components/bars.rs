//! The bar of test settings above the typing area and the footer below it: which elements
//! they show, and where each clickable element lies on the screen.

use vstd::prelude::*;
use crate::config::ModeType;
use crate::geometry::Rect;
use crate::ui::components::action_bar::BarSettings;
use crate::ui::actions::TermiClickAction;
use crate::ui::components::{ClickAction, UIElement};
use crate::ui::helpers::utils::TermiSymbols;

verus! {

/// An element as plain values: its text, whether it shows as active, what a click does.
pub open spec fn element_view(e: UIElement) -> (Seq<char>, bool, Option<ClickAction>) {
    (e.content@, e.is_active, e.action)
}

/// The elements as plain values.
pub open spec fn elements_view(es: Seq<UIElement>) -> Seq<(Seq<char>, bool, Option<ClickAction>)> {
    es.map_values(|e: UIElement| element_view(e))
}

/// The entry of a mode value: the value and a space, active when it is the current value.
pub open spec fn value_entry(value: usize, current: usize) -> (Seq<char>, bool, Option<ClickAction>) {
    (
        crate::utils::decimal(value as nat) + seq![' '],
        value == current,
        Some(ClickAction::SetModeValue(value)),
    )
}

/// The values offered: 15, 30, 60 and 120 seconds, or 10, 25, 50 and 100 words.
pub open spec fn offered_values(is_time_mode: bool) -> Seq<usize> {
    if is_time_mode {
        seq![15usize, 30usize, 60usize, 120usize]
    } else {
        seq![10usize, 25usize, 50usize, 100usize]
    }
}

/// The elements of the settings bar: the three toggles, a separator, the two modes, a
/// separator and the four values the mode offers.
pub open spec fn top_bar_spec(s: BarSettings) -> Seq<(Seq<char>, bool, Option<ClickAction>)> {
    let v = offered_values(s.is_time_mode);
    seq![
        ("@ punctuation "@, s.use_punctuation, Some(ClickAction::TogglePunctuation)),
        ("# numbers "@, s.use_numbers, Some(ClickAction::ToggleNumbers)),
        ("@ symbols "@, s.use_symbols, Some(ClickAction::ToggleSymbols)),
        ("│ "@, false, None),
        ("⏱ time "@, s.is_time_mode, Some(ClickAction::SwitchMode(ModeType::Time))),
        ("A words "@, !s.is_time_mode, Some(ClickAction::SwitchMode(ModeType::Words))),
        ("│ "@, false, None),
        value_entry(v[0], s.current_value),
        value_entry(v[1], s.current_value),
        value_entry(v[2], s.current_value),
        value_entry(v[3], s.current_value),
    ]
}

/// What the footer shows.
pub struct FooterInfo {
    /// Whether the about box is open.
    pub about_open: bool,
    /// The name of the theme in use.
    pub theme_name: String,
    /// Whether a theme is being previewed.
    pub previewing_theme: bool,
    /// The program's version.
    pub version: String,
}

/// The elements of the footer: the about toggle, the theme's name between double-line
/// dividers, and the version, each apart by a space.
pub open spec fn footer_spec(info: FooterInfo, left: Seq<char>, right: Seq<char>) -> Seq<
    (Seq<char>, bool, Option<ClickAction>),
> {
    seq![
        (" "@, false, None),
        ("ⓘ about"@, info.about_open, Some(ClickAction::ToggleAbout)),
        (" "@, false, None),
        (left, false, None),
        (" "@, false, None),
        (info.theme_name@, info.previewing_theme, Some(ClickAction::ToggleThemePicker)),
        (" "@, false, None),
        (right, false, None),
        (" "@, false, None),
        (info.version@, false, None),
    ]
}

/// The sum of the elements' widths.
pub open spec fn widths_sum(es: Seq<UIElement>) -> int
    decreases es.len(),
{
    if es.len() == 0 {
        0
    } else {
        widths_sum(es.drop_last()) + es.last().width
    }
}

/// The column a bar of `es` starts at in `area`: centered, at the left edge when too wide.
pub open spec fn bar_start(es: Seq<UIElement>, area: Rect) -> int {
    let total = widths_sum(es);
    area.x + (if area.width >= total { (area.width - total) / 2 } else { 0 })
}

/// The clickable regions of the first `n` elements of a bar starting at column `start` on
/// row `y`: one row tall and as wide as the element, for each element with an action.
pub open spec fn bar_regions_spec(es: Seq<UIElement>, start: int, y: u16, n: nat) -> Seq<
    (Rect, ClickAction),
>
    decreases n,
{
    if n == 0 {
        seq![]
    } else {
        let k = (n - 1) as nat;
        let rest = bar_regions_spec(es, start, y, k);
        match es[k as int].action {
            Some(a) => rest.push(
                (
                    Rect {
                        x: (start + widths_sum(es.take(k as int))) as u16,
                        y,
                        width: es[k as int].width,
                        height: 1,
                    },
                    a,
                ),
            ),
            None => rest,
        }
    }
}

proof fn lemma_widths_sum_prefix(es: Seq<UIElement>, k: int)
    requires
        0 <= k <= es.len(),
    ensures
        0 <= widths_sum(es.take(k)) <= widths_sum(es),
    decreases es.len(),
{
    if k < es.len() {
        assert(es.drop_last().take(k) =~= es.take(k));
        lemma_widths_sum_prefix(es.drop_last(), k);
    } else {
        assert(es.take(k) =~= es);
        if es.len() > 0 {
            lemma_widths_sum_prefix(es.drop_last(), k - 1);
        }
    }
}

/// Law: the clickable regions of a bar follow one another from left to right without
/// overlapping, and all lie on the bar's row within the bar's extent.
pub proof fn lemma_bar_regions_ordered(es: Seq<UIElement>, area: Rect)
    requires
        bar_start(es, area) + widths_sum(es) <= u16::MAX,
    ensures
        ({
            let start = bar_start(es, area);
            let r = bar_regions_spec(es, start, area.y, es.len());
            &&& forall|i: int|
                0 <= i < r.len() ==> (#[trigger] r[i]).0.y == area.y && start <= r[i].0.x && r[i].0.x
                    + r[i].0.width <= start + widths_sum(es)
            &&& forall|i: int, j: int|
                0 <= i < j < r.len() ==> (#[trigger] r[i]).0.x + r[i].0.width <= (#[trigger] r[j]).0.x
        }),
{
    lemma_bar_regions_bounds(es, bar_start(es, area), area.y, es.len());
    assert(es.take(es.len() as int) =~= es);
}

proof fn lemma_bar_regions_bounds(es: Seq<UIElement>, start: int, y: u16, n: nat)
    requires
        n <= es.len(),
        0 <= start,
        start + widths_sum(es) <= u16::MAX,
    ensures
        ({
            let r = bar_regions_spec(es, start, y, n);
            &&& forall|i: int|
                0 <= i < r.len() ==> (#[trigger] r[i]).0.y == y && start <= r[i].0.x && r[i].0.x
                    + r[i].0.width <= start + widths_sum(es.take(n as int))
            &&& forall|i: int, j: int|
                0 <= i < j < r.len() ==> (#[trigger] r[i]).0.x + r[i].0.width <= (#[trigger] r[j]).0.x
        }),
    decreases n,
{
    if n > 0 {
        let k = (n - 1) as nat;
        lemma_bar_regions_bounds(es, start, y, k);
        lemma_widths_sum_prefix(es, k as int);
        lemma_widths_sum_prefix(es, n as int);
        assert(es.take(n as int).drop_last() =~= es.take(k as int));
        let rest = bar_regions_spec(es, start, y, k);
        let r = bar_regions_spec(es, start, y, n);
        let tk = widths_sum(es.take(k as int));
        assert(widths_sum(es.take(n as int)) == tk + es[k as int].width);
        match es[k as int].action {
            Some(a) => {
                assert(r.len() == rest.len() + 1);
                assert(r[rest.len() as int].0.x == start + tk);
                assert forall|i: int, j: int| 0 <= i < j < r.len() implies (#[trigger] r[i]).0.x
                    + r[i].0.width <= (#[trigger] r[j]).0.x by {
                    if j == rest.len() {
                        assert(r[i] == rest[i]);
                    } else {
                        assert(r[i] == rest[i] && r[j] == rest[j]);
                    }
                }
                assert forall|i: int| 0 <= i < r.len() implies (#[trigger] r[i]).0.y == y && start
                    <= r[i].0.x && r[i].0.x + r[i].0.width <= start + widths_sum(
                    es.take(n as int),
                ) by {
                    if i < rest.len() {
                        assert(r[i] == rest[i]);
                    }
                }
            },
            None => {},
        }
    }
}

/// The elements of the settings bar.
pub fn top_bar(s: BarSettings) -> (r: Vec<UIElement>)
    ensures
        elements_view(r@) == top_bar_spec(s),
{
    let is_time = s.is_time_mode;
    let current = s.current_value;
    let values: [usize; 4] = if is_time {
        [15, 30, 60, 120]
    } else {
        [10, 25, 50, 100]
    };
    let ghost want = top_bar_spec(s);
    let mut out: Vec<UIElement> = Vec::new();
    out.push(UIElement::new("@ punctuation ".to_owned(), s.use_punctuation, Some(ClickAction::TogglePunctuation)));
    out.push(UIElement::new("# numbers ".to_owned(), s.use_numbers, Some(ClickAction::ToggleNumbers)));
    out.push(UIElement::new("@ symbols ".to_owned(), s.use_symbols, Some(ClickAction::ToggleSymbols)));
    out.push(UIElement::new("│ ".to_owned(), false, None));
    out.push(UIElement::new("⏱ time ".to_owned(), is_time, Some(ClickAction::SwitchMode(ModeType::Time))));
    out.push(UIElement::new("A words ".to_owned(), !is_time, Some(ClickAction::SwitchMode(ModeType::Words))));
    out.push(UIElement::new("│ ".to_owned(), false, None));
    let mut i: usize = 0;
    while i < 4
        invariant
            i <= 4,
            values@ == offered_values(is_time),
            is_time == s.is_time_mode,
            current == s.current_value,
            want == top_bar_spec(s),
            out@.len() == 7 + i,
            forall|k: int| 0 <= k < 7 + i ==> element_view(#[trigger] out@[k]) == want[k],
        decreases 4 - i,
    {
        let v = values[i];
        let mut text = String::new();
        crate::utils::push_decimal(&mut text, v as u128);
        proof {
            reveal_strlit(" ");
        }
        text.append(" ");
        assert(text@ =~= crate::utils::decimal(v as nat) + seq![' ']);
        let ghost before = out@;
        out.push(UIElement::new(text, v == current, Some(ClickAction::SetModeValue(v))));
        assert forall|k: int| 0 <= k < 8 + i implies element_view(#[trigger] out@[k]) == want[k] by {
            if k < 7 + i {
                assert(out@[k] == before[k]);
            }
        }
        i += 1;
    }
    assert(elements_view(out@) =~= want);
    out
}

/// The double-line dividers drawn around the theme's name in the footer: ratatui's
/// `symbols::line::DOUBLE_VERTICAL_LEFT` ("╣") and `DOUBLE_VERTICAL_RIGHT` ("╠"), as
/// ratatui's source defines them.
#[verifier::external_body]
fn double_vertical_dividers() -> (r: (&'static str, &'static str))
    ensures
        r.0@ == "╣"@,
        r.1@ == "╠"@,
{
    (ratatui::symbols::line::DOUBLE_VERTICAL_LEFT, ratatui::symbols::line::DOUBLE_VERTICAL_RIGHT)
}

/// The footer of the newer screen layout.
pub struct FooterComponent;

/// An element of the footer as plain values: its text, whether it shows as active, what a
/// click does.
pub type FooterElement = (String, bool, Option<TermiClickAction>);

/// The elements as plain values.
pub open spec fn footer_elements_view(es: Seq<FooterElement>) -> Seq<
    (Seq<char>, bool, Option<TermiClickAction>),
> {
    es.map_values(|e: FooterElement| (e.0@, e.1, e.2))
}

/// What that footer shows.
pub struct FooterState {
    /// Whether the about menu is open.
    pub about_open: bool,
    /// The id of the theme in use.
    pub theme_id: String,
    /// Whether a theme is being previewed.
    pub previewing_theme: bool,
    /// Whether the terminal can show themes (the theme's name opens the picker only then).
    pub supports_themes: bool,
    /// Whether the terminal shows Unicode symbols.
    pub supports_unicode: bool,
    pub version: String,
}

/// Its elements: the about toggle, the theme's id and the version, apart by dividers between
/// spaces (double-line dividers with Unicode, bars without).
pub open spec fn footer_component_spec(st: FooterState, sym: TermiSymbols) -> Seq<
    (Seq<char>, bool, Option<TermiClickAction>),
> {
    let divider = if st.supports_unicode { "╣"@ } else { "|"@ };
    seq![
        (sym.info@ + " about"@, st.about_open, Some(TermiClickAction::ToggleAbout)),
        (" "@, false, None),
        (divider, false, None),
        (" "@, false, None),
        (
            st.theme_id@,
            st.previewing_theme,
            if st.supports_themes { Some(TermiClickAction::ToggleThemePicker) } else { None },
        ),
        (" "@, false, None),
        (divider, false, None),
        (" "@, false, None),
        (seq!['v'] + st.version@, false, None),
    ]
}

impl FooterComponent {
    /// The elements of the footer for `state`, drawn with `symbols`.
    pub fn create(state: FooterState, symbols: &TermiSymbols) -> (r: Vec<FooterElement>)
        ensures
            footer_elements_view(r@) == footer_component_spec(state, *symbols),
    {
        let ghost want = footer_component_spec(state, *symbols);
        let (left, _) = double_vertical_dividers();
        let divider = if state.supports_unicode {
            left
        } else {
            "|"
        };
        let theme_action = if state.supports_themes {
            Some(TermiClickAction::ToggleThemePicker)
        } else {
            None
        };
        let mut about = symbols.info.to_owned();
        about.append(" about");
        let mut version = "v".to_owned();
        version.append(state.version.as_str());
        proof {
            reveal_strlit("v");
        }
        let mut out: Vec<FooterElement> = Vec::new();
        out.push((about, state.about_open, Some(TermiClickAction::ToggleAbout)));
        out.push((" ".to_owned(), false, None));
        out.push((divider.to_owned(), false, None));
        out.push((" ".to_owned(), false, None));
        out.push((state.theme_id, state.previewing_theme, theme_action));
        out.push((" ".to_owned(), false, None));
        out.push((divider.to_owned(), false, None));
        out.push((" ".to_owned(), false, None));
        out.push((version, false, None));
        let ghost v = footer_elements_view(out@);
        assert(v[0] == want[0]);
        assert(v[2] == want[2]);
        assert(v[4] == want[4]);
        assert(v[8] == want[8]);
        assert(footer_elements_view(out@) =~= want);
        out
    }
}

/// The elements of the footer.
pub fn footer(info: FooterInfo) -> (r: Vec<UIElement>)
    ensures
        elements_view(r@) == footer_spec(info, "╣"@, "╠"@),
{
    let ghost want = footer_spec(info, "╣"@, "╠"@);
    let (left, right) = double_vertical_dividers();
    let mut out: Vec<UIElement> = Vec::new();
    out.push(UIElement::new(" ".to_owned(), false, None));
    out.push(UIElement::new("ⓘ about".to_owned(), info.about_open, Some(ClickAction::ToggleAbout)));
    out.push(UIElement::new(" ".to_owned(), false, None));
    out.push(UIElement::new(left.to_owned(), false, None));
    out.push(UIElement::new(" ".to_owned(), false, None));
    out.push(UIElement::new(info.theme_name, info.previewing_theme, Some(ClickAction::ToggleThemePicker)));
    out.push(UIElement::new(" ".to_owned(), false, None));
    out.push(UIElement::new(right.to_owned(), false, None));
    out.push(UIElement::new(" ".to_owned(), false, None));
    out.push(UIElement::new(info.version, false, None));
    assert(elements_view(out@) =~= want);
    out
}

/// The clickable regions of a bar of `elements` drawn on the first row of `area`,
/// centered (see `bar_regions_spec`).
pub fn bar_regions(elements: &[UIElement], area: Rect) -> (r: Vec<(Rect, ClickAction)>)
    requires
        bar_start(elements@, area) + widths_sum(elements@) <= u16::MAX,
    ensures
        r@ == bar_regions_spec(elements@, bar_start(elements@, area), area.y, elements@.len()),
{
    let mut total: u16 = 0;
    let mut i: usize = 0;
    while i < elements.len()
        invariant
            i <= elements@.len(),
            bar_start(elements@, area) + widths_sum(elements@) <= u16::MAX,
            total == widths_sum(elements@.take(i as int)),
        decreases elements.len() - i,
    {
        assert(elements@.take(i + 1).drop_last() =~= elements@.take(i as int));
        proof {
            lemma_widths_sum_prefix(elements@, i + 1);
        }
        total = total + elements[i].width;
        i += 1;
    }
    assert(elements@.take(i as int) =~= elements@);
    let start_x = area.x + area.width.saturating_sub(total) / 2;
    let ghost start = bar_start(elements@, area);
    let mut regions: Vec<(Rect, ClickAction)> = Vec::new();
    let mut current_x: u16 = start_x;
    let mut k: usize = 0;
    while k < elements.len()
        invariant
            k <= elements@.len(),
            start == bar_start(elements@, area),
            start + widths_sum(elements@) <= u16::MAX,
            current_x == start + widths_sum(elements@.take(k as int)),
            regions@ == bar_regions_spec(elements@, start, area.y, k as nat),
        decreases elements.len() - k,
    {
        assert(elements@.take(k + 1).drop_last() =~= elements@.take(k as int));
        proof {
            lemma_widths_sum_prefix(elements@, k + 1);
        }
        let width = elements[k].width;
        match elements[k].action {
            Some(action) => {
                regions.push((Rect { x: current_x, y: area.y, width, height: 1 }, action));
            },
            None => {},
        }
        current_x = current_x + width;
        k += 1;
    }
    regions
}

} // verus!
