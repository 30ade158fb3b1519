//! The bar under the results: the results views, then as many actions as fit.

use vstd::prelude::*;
use crate::variants::ResultsVariant;

verus! {

/// The number of terminal columns `s` takes, as `unicode_width::UnicodeWidthStr::width`
/// computes it.
pub uninterp spec fn display_width(s: Seq<char>) -> usize;

/// Chars from the space to the tilde: each takes one column.
pub open spec fn is_printable_ascii(s: Seq<char>) -> bool {
    forall|i: int| 0 <= i < s.len() ==> ' ' <= #[trigger] s[i] <= '~'
}

/// Calls `UnicodeWidthStr::width` of unicode-width. Claims: the result is the width named
/// `display_width`; a string of printable ASCII chars takes one column per char (rule 2.7
/// of the crate's documented width rules; no ligature rule applies to such chars).
#[verifier::external_body]
pub(crate) fn str_width(s: &str) -> (r: usize)
    ensures
        r == display_width(s@),
        is_printable_ascii(s@) ==> r == s@.len(),
{
    unicode_width::UnicodeWidthStr::width(s)
}

/// An action or view shown on the bar: " Label [key] ".
pub struct FooterItem {
    pub key: &'static str,
    pub label: &'static str,
    pub is_selected: bool,
}

/// An item, or the single space that separates two items.
pub enum FooterEntry {
    Splitter,
    Item(FooterItem),
}

impl FooterEntry {
    /// `None` for a separator; (label, key, selected) for an item.
    pub open spec fn view_entry(self) -> Option<(Seq<char>, Seq<char>, bool)> {
        match self {
            FooterEntry::Splitter => None,
            FooterEntry::Item(item) => Some((item.label@, item.key@, item.is_selected)),
        }
    }
}

pub struct FooterState {
    pub entries: Vec<FooterEntry>,
}

/// The results views on the bar: (label, key, variant).
pub open spec fn variants_spec() -> Seq<(Seq<char>, Seq<char>, ResultsVariant)> {
    seq![
        ("Minimal"@, "m"@, ResultsVariant::Minimal),
        ("Graph"@, "g"@, ResultsVariant::Graph),
        ("Neofetch"@, "n"@, ResultsVariant::Neofetch),
    ]
}

/// The actions on the bar, in order: (label, key).
pub open spec fn actions_spec() -> Seq<(Seq<char>, Seq<char>)> {
    seq![
        ("New"@, "N"@),
        ("Redo"@, "r"@),
        ("Menu"@, "esc"@),
        ("Quit"@, "^c"@),
        ("Randomize Theme"@, "^t"@),
    ]
}

/// The columns " label [key] " takes.
pub open spec fn item_width_spec(label: Seq<char>, key: Seq<char>) -> int {
    (label.len() + key.len() + 5) as int
}

/// The entries for the views, the current one selected, separated by single spaces.
pub open spec fn variant_entries(current: ResultsVariant) -> Seq<Option<(Seq<char>, Seq<char>, bool)>> {
    let v = variants_spec();
    seq![
        Some((v[0].0, v[0].1, v[0].2 == current)),
        None,
        Some((v[1].0, v[1].1, v[1].2 == current)),
        None,
        Some((v[2].0, v[2].1, v[2].2 == current)),
    ]
}

/// The columns taken by the view entries.
pub open spec fn variants_width() -> int {
    let v = variants_spec();
    item_width_spec(v[0].0, v[0].1) + 1 + item_width_spec(v[1].0, v[1].1) + 1 + item_width_spec(
        v[2].0,
        v[2].1,
    )
}

/// How many of the first `k` actions fit, each after a space, in `width` columns once
/// `used` columns are taken; actions are added in order until one does not fit.
pub open spec fn actions_fitting(k: int, used: int, width: int) -> int
    decreases k,
{
    if k <= 0 {
        0
    } else {
        let prev = actions_fitting(k - 1, used, width);
        if prev < k - 1 {
            prev
        } else {
            let a = actions_spec()[k - 1];
            if used + actions_width(k - 1) + 1 + item_width_spec(a.0, a.1) > width {
                prev
            } else {
                k
            }
        }
    }
}

/// The columns the first `k` actions take, each with its separating space.
pub open spec fn actions_width(k: int) -> int
    decreases k,
{
    if k <= 0 {
        0
    } else {
        let a = actions_spec()[k - 1];
        actions_width(k - 1) + 1 + item_width_spec(a.0, a.1)
    }
}

/// The entries for the first `k` actions, each after a separator.
pub open spec fn action_entries(k: int) -> Seq<Option<(Seq<char>, Seq<char>, bool)>>
    decreases k,
{
    if k <= 0 {
        seq![]
    } else {
        let a = actions_spec()[k - 1];
        action_entries(k - 1) + seq![None, Some((a.0, a.1, false))]
    }
}

/// The bar for `current` in `width` columns: all views, then the actions that fit.
pub open spec fn footer_spec(current: ResultsVariant, width: int) -> Seq<Option<(Seq<char>, Seq<char>, bool)>> {
    variant_entries(current) + action_entries(actions_fitting(5, variants_width(), width))
}

/// " label [key] ".
fn item_content(label: &str, key: &str) -> (r: String)
    ensures
        r@ == " "@ + label@ + " ["@ + key@ + "] "@,
{
    let mut content = " ".to_owned();
    content.append(label);
    content.append(" [");
    content.append(key);
    content.append("] ");
    content
}

/// The columns an item takes on the bar.
fn calculate_item_width(item: &FooterItem) -> (r: usize)
    ensures
        r == display_width(" "@ + item.label@ + " ["@ + item.key@ + "] "@),
        is_printable_ascii(item.label@) && is_printable_ascii(item.key@) ==> r == item_width_spec(
            item.label@,
            item.key@,
        ),
{
    let content = item_content(item.label, item.key);
    proof {
        reveal_strlit(" ");
        reveal_strlit(" [");
        reveal_strlit("] ");
    }
    let r = str_width(content.as_str());
    proof {
        if is_printable_ascii(item.label@) && is_printable_ascii(item.key@) {
            assert(is_printable_ascii(content@));
        }
    }
    r
}

/// The labels and keys on the bar are printable ASCII, so each takes one column per char.
proof fn lemma_literals_printable()
    ensures
        forall|i: int| 0 <= i < 3 ==> is_printable_ascii(#[trigger] variants_spec()[i].0)
            && is_printable_ascii(variants_spec()[i].1),
        forall|i: int| 0 <= i < 5 ==> is_printable_ascii(#[trigger] actions_spec()[i].0)
            && is_printable_ascii(actions_spec()[i].1),
        item_width_spec(variants_spec()[0].0, variants_spec()[0].1) == 13,
        item_width_spec(variants_spec()[1].0, variants_spec()[1].1) == 11,
        variants_width() == 40,
        actions_width(0) == 0,
        actions_width(1) == 10,
        actions_width(2) == 21,
        actions_width(3) == 34,
        actions_width(4) == 46,
        actions_width(5) == 69,
        forall|i: int| 0 <= i < 5 ==> item_width_spec(#[trigger] actions_spec()[i].0, actions_spec()[i].1) <= 22,
{
    reveal_strlit("Minimal");
    reveal_strlit("m");
    reveal_strlit("Graph");
    reveal_strlit("g");
    reveal_strlit("Neofetch");
    reveal_strlit("n");
    reveal_strlit("New");
    reveal_strlit("N");
    reveal_strlit("Redo");
    reveal_strlit("r");
    reveal_strlit("Menu");
    reveal_strlit("esc");
    reveal_strlit("Quit");
    reveal_strlit("^c");
    reveal_strlit("Randomize Theme");
    reveal_strlit("^t");
    let a = actions_spec();
    assert(a[0] == ("New"@, "N"@));
    assert(a[1] == ("Redo"@, "r"@));
    assert(a[2] == ("Menu"@, "esc"@));
    assert(a[3] == ("Quit"@, "^c"@));
    assert(a[4] == ("Randomize Theme"@, "^t"@));
    assert(item_width_spec(a[0].0, a[0].1) == 9);
    assert(actions_width(0) == 0);
    assert(actions_width(1) == 10);
    assert(actions_width(2) == 21);
    assert(actions_width(3) == 34);
    assert(actions_width(4) == 46);
    assert(actions_width(5) == 69);
    assert forall|i: int| 0 <= i < 3 implies is_printable_ascii(#[trigger] variants_spec()[i].0)
        && is_printable_ascii(variants_spec()[i].1) by {}
    assert forall|i: int| 0 <= i < 5 implies is_printable_ascii(#[trigger] actions_spec()[i].0)
        && is_printable_ascii(actions_spec()[i].1) by {}
}

/// The views, each with its label and key, in bar order.
fn variants_table() -> (r: Vec<(&'static str, &'static str, ResultsVariant)>)
    ensures
        r@.len() == 3,
        forall|i: int| 0 <= i < 3 ==> (#[trigger] r@[i]).0@ == variants_spec()[i].0 && r@[i].1@
            == variants_spec()[i].1 && r@[i].2 == variants_spec()[i].2,
{
    vec![
        ("Minimal", "m", ResultsVariant::Minimal),
        ("Graph", "g", ResultsVariant::Graph),
        ("Neofetch", "n", ResultsVariant::Neofetch),
    ]
}

/// The actions, each with its label and key, in bar order.
fn actions_table() -> (r: Vec<(&'static str, &'static str)>)
    ensures
        r@.len() == 5,
        forall|i: int| 0 <= i < 5 ==> (#[trigger] r@[i]).0@ == actions_spec()[i].0 && r@[i].1@
            == actions_spec()[i].1,
{
    vec![("New", "N"), ("Redo", "r"), ("Menu", "esc"), ("Quit", "^c"), ("Randomize Theme", "^t")]
}

pub open spec fn entries_view(entries: Seq<FooterEntry>) -> Seq<Option<(Seq<char>, Seq<char>, bool)>> {
    entries.map_values(|e: FooterEntry| e.view_entry())
}

/// Lays out the bar under the results for `current_variant` in `width` columns.
pub fn calculate_state(current_variant: ResultsVariant, width: u16) -> (r: FooterState)
    ensures
        entries_view(r.entries@) == footer_spec(current_variant, width as int),
{
    proof {
        lemma_literals_printable();
    }
    let variants = variants_table();
    let actions = actions_table();
    let mut entries: Vec<FooterEntry> = Vec::new();
    let mut line_width: usize = 0;
    let mut i: usize = 0;
    while i < variants.len()
        invariant
            variants@.len() == 3,
            forall|j: int| 0 <= j < 3 ==> (#[trigger] variants@[j]).0@ == variants_spec()[j].0
                && variants@[j].1@ == variants_spec()[j].1 && variants@[j].2 == variants_spec()[j].2,
            forall|j: int| 0 <= j < 3 ==> is_printable_ascii(#[trigger] variants_spec()[j].0)
                && is_printable_ascii(variants_spec()[j].1),
            i <= 3,
            entries_view(entries@) == variant_entries(current_variant).take(
                if i == 0 { 0int } else { 2 * i - 1 },
            ),
            item_width_spec(variants_spec()[0].0, variants_spec()[0].1) == 13,
            item_width_spec(variants_spec()[1].0, variants_spec()[1].1) == 11,
            variants_width() == 40,
            line_width == (if i == 0 {
                0
            } else if i == 1 {
                item_width_spec(variants_spec()[0].0, variants_spec()[0].1)
            } else if i == 2 {
                item_width_spec(variants_spec()[0].0, variants_spec()[0].1) + 1 + item_width_spec(
                    variants_spec()[1].0,
                    variants_spec()[1].1,
                )
            } else {
                variants_width()
            }),
        decreases 3 - i,
    {
        let (label, key, variant) = variants[i];
        let item = FooterItem { label, key, is_selected: variant == current_variant };
        let item_width = calculate_item_width(&item);
        let ghost before = entries_view(entries@);
        if line_width > 0 {
            entries.push(FooterEntry::Splitter);
            line_width += 1;
        }
        line_width += item_width;
        entries.push(FooterEntry::Item(item));
        let ghost expected = variant_entries(current_variant);
        assert(expected[2 * i as int] == Some((label@, key@, variant == current_variant)));
        if i > 0 {
            assert(expected[2 * i - 1] == None::<(Seq<char>, Seq<char>, bool)>);
            assert(expected.take(2 * i + 1) =~= expected.take(2 * i - 1) + seq![
                None,
                Some((label@, key@, variant == current_variant)),
            ]);
        } else {
            assert(expected.take(1) =~= seq![Some((label@, key@, variant == current_variant))]);
        }
        assert(entries_view(entries@) =~= variant_entries(current_variant).take(2 * i + 1));
        i += 1;
    }
    proof {
        lemma_literals_printable();
    }
    let mut k: usize = 0;
    while k < actions.len()
        invariant
            actions@.len() == 5,
            forall|j: int| 0 <= j < 5 ==> (#[trigger] actions@[j]).0@ == actions_spec()[j].0
                && actions@[j].1@ == actions_spec()[j].1,
            forall|j: int| 0 <= j < 5 ==> is_printable_ascii(#[trigger] actions_spec()[j].0)
                && is_printable_ascii(actions_spec()[j].1),
            k <= 5,
            actions_fitting(k as int, variants_width(), width as int) == k,
            entries_view(entries@) == variant_entries(current_variant) + action_entries(k as int),
            line_width == variants_width() + actions_width(k as int),
            line_width <= 109,
            actions_width(0) == 0,
            actions_width(1) == 10,
            actions_width(2) == 21,
            actions_width(3) == 34,
            actions_width(4) == 46,
            actions_width(5) == 69,
            variants_width() == 40,
            forall|j: int| 0 <= j < 5 ==> item_width_spec(#[trigger] actions_spec()[j].0, actions_spec()[j].1) <= 22,
        decreases 5 - k,
    {
        let (label, key) = actions[k];
        let item = FooterItem { label, key, is_selected: false };
        let item_width = calculate_item_width(&item);
        assert(item_width == item_width_spec(actions_spec()[k as int].0, actions_spec()[k as int].1));
        if line_width + 1 + item_width > width as usize {
            assert(actions_fitting(5, variants_width(), width as int) == k) by {
                lemma_fitting_stops(k as int, variants_width(), width as int, 5);
            }
            return FooterState { entries };
        }
        let ghost before = entries_view(entries@);
        entries.push(FooterEntry::Splitter);
        line_width += 1;
        line_width += item_width;
        entries.push(FooterEntry::Item(item));
        assert(entries_view(entries@) =~= before + seq![None, Some((label@, key@, false))]);
        k += 1;
    }
    FooterState { entries }
}

/// Once an action does not fit, no later one is added.
proof fn lemma_fitting_stops(k: int, used: int, width: int, j: int)
    requires
        0 <= k < 5,
        k < j <= 5,
        actions_fitting(k, used, width) == k,
        used + actions_width(k) + 1 + item_width_spec(actions_spec()[k].0, actions_spec()[k].1) > width,
    ensures
        actions_fitting(j, used, width) == k,
    decreases j - k,
{
    if j > k + 1 {
        lemma_fitting_stops(k, used, width, j - 1);
    }
}

} // verus!
