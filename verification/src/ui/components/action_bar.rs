//! The bar of test settings above the text: the toggles for punctuation, numbers and
//! symbols, the mode, and the values the mode offers.

use vstd::prelude::*;
use crate::config::ModeType;
use crate::tui::components::modal_dialog::ModalContext;
use crate::ui::actions::TermiClickAction;
use crate::ui::helpers::utils::TermiSymbols;
use crate::utils::{decimal, push_decimal};

verus! {

/// The bar.
pub struct ActionBarComponent;

/// What a click on an entry of the bar does.
#[derive(Debug, Clone, Copy, PartialEq, Eq, Structural)]
pub enum BarAction {
    /// One of the screen's click actions.
    Click(TermiClickAction),
    /// Opens the dialog that asks for a value of the user's own.
    OpenModal(ModalContext),
}

/// One entry of the bar: its text, whether it shows as active, and what a click does.
pub struct BarEntry {
    pub text: String,
    pub is_active: bool,
    pub action: Option<BarAction>,
}

/// The settings the bar shows.
#[derive(Debug, Clone, Copy, PartialEq, Eq, Structural)]
pub struct BarSettings {
    pub use_punctuation: bool,
    pub use_numbers: bool,
    pub use_symbols: bool,
    pub is_time_mode: bool,
    /// The duration or word count of the test.
    pub current_value: usize,
}

/// The entries as plain values.
pub open spec fn bar_view(entries: Seq<BarEntry>) -> Seq<(Seq<char>, bool, Option<BarAction>)> {
    entries.map_values(|e: BarEntry| (e.text@, e.is_active, e.action))
}

/// An entry without action that shows `text`.
pub open spec fn plain_entry(text: Seq<char>) -> (Seq<char>, bool, Option<BarAction>) {
    (text, false, None)
}

/// The entries before the mode's values: the three toggles, a divider between spaces, the
/// two modes, and another divider between spaces.
pub open spec fn fixed_entries(s: BarSettings, sym: TermiSymbols) -> Seq<
    (Seq<char>, bool, Option<BarAction>),
> {
    seq![
        (
            sym.punctuation@ + " punctuation "@,
            s.use_punctuation,
            Some(BarAction::Click(TermiClickAction::TogglePunctuation)),
        ),
        (
            sym.numbers@ + " numbers "@,
            s.use_numbers,
            Some(BarAction::Click(TermiClickAction::ToggleNumbers)),
        ),
        (
            sym.symbols@ + " symbols "@,
            s.use_symbols,
            Some(BarAction::Click(TermiClickAction::ToggleSymbols)),
        ),
        plain_entry(seq![' ']),
        plain_entry(sym.divider@),
        plain_entry(seq![' ']),
        ("T time "@, s.is_time_mode, Some(BarAction::Click(TermiClickAction::SwitchMode(ModeType::Time)))),
        ("A words "@, !s.is_time_mode, Some(BarAction::Click(TermiClickAction::SwitchMode(ModeType::Words)))),
        plain_entry(seq![' ']),
        plain_entry(sym.divider@),
        plain_entry(seq![' ']),
    ]
}

/// The entry of one of the mode's values: active when it is the current value.
pub open spec fn preset_entry(p: usize, current: usize) -> (Seq<char>, bool, Option<BarAction>) {
    (
        decimal(p as nat) + seq![' '],
        p == current,
        Some(BarAction::Click(TermiClickAction::SetModeValue(p))),
    )
}

/// The values offered in the current mode.
pub open spec fn presets_of(s: BarSettings, time_presets: Seq<usize>, word_presets: Seq<usize>) -> Seq<usize> {
    if s.is_time_mode {
        time_presets
    } else {
        word_presets
    }
}

/// The last entry: a value of the user's own, active when the current value is none of
/// those offered.
pub open spec fn custom_entry(s: BarSettings, presets: Seq<usize>, sym: TermiSymbols) -> (
    Seq<char>,
    bool,
    Option<BarAction>,
) {
    (
        sym.custom@ + seq![' '],
        !presets.contains(s.current_value),
        Some(
            BarAction::OpenModal(
                if s.is_time_mode {
                    ModalContext::CustomTime
                } else {
                    ModalContext::CustomWordCount
                },
            ),
        ),
    )
}

/// The whole bar.
pub open spec fn action_bar_spec(
    s: BarSettings,
    time_presets: Seq<usize>,
    word_presets: Seq<usize>,
    sym: TermiSymbols,
) -> Seq<(Seq<char>, bool, Option<BarAction>)> {
    let presets = presets_of(s, time_presets, word_presets);
    fixed_entries(s, sym) + presets.map_values(|p: usize| preset_entry(p, s.current_value)).push(
        custom_entry(s, presets, sym),
    )
}

/// Law: on the bar, the entry of a value of the user's own shows active exactly when none
/// of the entries of the offered values does.
pub proof fn lemma_custom_active_iff_no_preset(
    s: BarSettings,
    time_presets: Seq<usize>,
    word_presets: Seq<usize>,
    sym: TermiSymbols,
)
    ensures
        ({
            let bar = action_bar_spec(s, time_presets, word_presets, sym);
            let n = presets_of(s, time_presets, word_presets).len() as int;
            &&& bar.len() == 12 + n
            &&& bar[11 + n].1 <==> !exists|k: int| 0 <= k < n && (#[trigger] bar[11 + k]).1
        }),
{
    let presets = presets_of(s, time_presets, word_presets);
    let bar = action_bar_spec(s, time_presets, word_presets, sym);
    let n = presets.len() as int;
    let vals = presets.map_values(|p: usize| preset_entry(p, s.current_value));
    assert forall|k: int| 0 <= k < n implies (#[trigger] bar[11 + k]).1 == (presets[k] == s.current_value) by {
        assert(bar[11 + k] == vals[k]);
    }
    if presets.contains(s.current_value) {
        let k = choose|k: int| 0 <= k < n && presets[k] == s.current_value;
        assert(bar[11 + k].1);
    }
    if exists|k: int| 0 <= k < n && (#[trigger] bar[11 + k]).1 {
        let k = choose|k: int| 0 <= k < n && (#[trigger] bar[11 + k]).1;
        assert(presets[k] == s.current_value);
    }
}

/// `a` then `b` as one string.
fn joined(a: &str, b: &str) -> (r: String)
    ensures
        r@ == a@ + b@,
{
    let mut s = a.to_owned();
    s.append(b);
    s
}

fn entry(text: String, is_active: bool, action: Option<BarAction>) -> (r: BarEntry)
    ensures
        r.text@ == text@,
        r.is_active == is_active,
        r.action == action,
{
    BarEntry { text, is_active, action }
}

impl ActionBarComponent {
    /// The entries of the bar for `settings`, offering `time_presets` in a timed test and
    /// `word_presets` otherwise, drawn with `symbols`.
    pub fn create(
        settings: BarSettings,
        time_presets: &[usize],
        word_presets: &[usize],
        symbols: &TermiSymbols,
    ) -> (r: Vec<BarEntry>)
        ensures
            bar_view(r@) == action_bar_spec(settings, time_presets@, word_presets@, *symbols),
    {
        let ghost fixed = fixed_entries(settings, *symbols);
        let mut out: Vec<BarEntry> = Vec::new();
        out.push(
            entry(
                joined(symbols.punctuation, " punctuation "),
                settings.use_punctuation,
                Some(BarAction::Click(TermiClickAction::TogglePunctuation)),
            ),
        );
        out.push(
            entry(
                joined(symbols.numbers, " numbers "),
                settings.use_numbers,
                Some(BarAction::Click(TermiClickAction::ToggleNumbers)),
            ),
        );
        out.push(
            entry(
                joined(symbols.symbols, " symbols "),
                settings.use_symbols,
                Some(BarAction::Click(TermiClickAction::ToggleSymbols)),
            ),
        );
        proof {
            reveal_strlit(" ");
        }
        out.push(entry(" ".to_owned(), false, None));
        out.push(entry(symbols.divider.to_owned(), false, None));
        out.push(entry(" ".to_owned(), false, None));
        out.push(
            entry(
                "T time ".to_owned(),
                settings.is_time_mode,
                Some(BarAction::Click(TermiClickAction::SwitchMode(ModeType::Time))),
            ),
        );
        out.push(
            entry(
                "A words ".to_owned(),
                !settings.is_time_mode,
                Some(BarAction::Click(TermiClickAction::SwitchMode(ModeType::Words))),
            ),
        );
        out.push(entry(" ".to_owned(), false, None));
        out.push(entry(symbols.divider.to_owned(), false, None));
        out.push(entry(" ".to_owned(), false, None));
        assert(out@.len() == 11);
        assert(bar_view(out@)[0] == fixed[0]);
        assert(bar_view(out@)[1] == fixed[1]);
        assert(bar_view(out@)[2] == fixed[2]);
        assert(bar_view(out@)[3] == fixed[3]);
        assert(bar_view(out@)[4] == fixed[4]);
        assert(bar_view(out@)[6] == fixed[6]);
        assert(bar_view(out@)[7] == fixed[7]);
        assert(bar_view(out@) =~= fixed);
        let presets = if settings.is_time_mode {
            time_presets
        } else {
            word_presets
        };
        let ghost ps = presets@;
        let current = settings.current_value;
        let mut found = false;
        let mut i: usize = 0;
        while i < presets.len()
            invariant
                ps == presets@,
                ps == presets_of(settings, time_presets@, word_presets@),
                current == settings.current_value,
                i <= ps.len(),
                bar_view(out@) == fixed + ps.take(i as int).map_values(
                    |p: usize| preset_entry(p, current),
                ),
                found == ps.take(i as int).contains(current),
            decreases ps.len() - i,
        {
            let p = presets[i];
            let mut text = String::new();
            push_decimal(&mut text, p as u128);
            proof {
                reveal_strlit(" ");
            }
            text.append(" ");
            assert(text@ =~= decimal(p as nat) + seq![' ']);
            let ghost before = out@;
            out.push(entry(text, p == current, Some(BarAction::Click(TermiClickAction::SetModeValue(p)))));
            proof {
                let step = ps.take(i + 1);
                assert(step =~= ps.take(i as int).push(p));
                assert(bar_view(out@) =~= bar_view(before).push(preset_entry(p, current)));
                assert(step.map_values(|q: usize| preset_entry(q, current)) =~= ps.take(
                    i as int,
                ).map_values(|q: usize| preset_entry(q, current)).push(preset_entry(p, current)));
                if step.contains(current) && !ps.take(i as int).contains(current) {
                    let k = choose|k: int| 0 <= k < step.len() && step[k] == current;
                    assert(k == i);
                }
                if ps.take(i as int).contains(current) {
                    let k = choose|k: int| 0 <= k < i && ps.take(i as int)[k] == current;
                    assert(step[k] == current);
                }
                if p == current {
                    assert(step[i as int] == current);
                }
            }
            found = found || p == current;
            i += 1;
        }
        proof {
            assert(ps.take(i as int) =~= ps);
        }
        let custom_ctx = if settings.is_time_mode {
            ModalContext::CustomTime
        } else {
            ModalContext::CustomWordCount
        };
        let ghost before = out@;
        out.push(entry(joined(symbols.custom, " "), !found, Some(BarAction::OpenModal(custom_ctx))));
        assert(bar_view(out@) =~= bar_view(before).push(custom_entry(settings, ps, *symbols)));
        out
    }
}

} // verus!
