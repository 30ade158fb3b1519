//! The command hints below the typing area: lines of key and description pieces, each line
//! centered in the bar.

use vstd::prelude::*;
use crate::text::chars_of;

verus! {

/// A piece of a hint: its text and whether it names a key (highlighted) or describes
/// (muted).
pub type HintPiece = (String, bool);

/// The pieces as plain values.
pub open spec fn hint_view(ps: Seq<HintPiece>) -> Seq<(Seq<char>, bool)> {
    ps.map_values(|p: HintPiece| (p.0@, p.1))
}

/// The width of a group of pieces, in chars.
pub open spec fn group_width(g: Seq<(Seq<char>, bool)>) -> int
    decreases g.len(),
{
    if g.len() == 0 {
        0
    } else {
        group_width(g.drop_last()) + g.last().0.len()
    }
}

/// The width of a line of groups: the groups and three columns between each two.
pub open spec fn line_width(groups: Seq<Seq<(Seq<char>, bool)>>) -> int
    decreases groups.len(),
{
    if groups.len() == 0 {
        0
    } else {
        line_width(groups.drop_last()) + group_width(groups.last()) + (if groups.len() > 1 {
            3int
        } else {
            0int
        })
    }
}

/// The groups' pieces in order, three spaces (muted) between each two groups.
pub open spec fn joined_groups(groups: Seq<Seq<(Seq<char>, bool)>>) -> Seq<(Seq<char>, bool)>
    decreases groups.len(),
{
    if groups.len() == 0 {
        seq![]
    } else if groups.len() == 1 {
        groups[0]
    } else {
        joined_groups(groups.drop_last()) + seq![("   "@, false)] + groups.last()
    }
}

/// A line of the bar in `width` columns: spaces that center it (none when too wide), then
/// its groups.
pub open spec fn command_line_spec(groups: Seq<Seq<(Seq<char>, bool)>>, width: int) -> Seq<
    (Seq<char>, bool),
> {
    let total = line_width(groups);
    let pad = if width >= total { (width - total) / 2 } else { 0 };
    seq![(Seq::new(pad as nat, |i: int| ' '), false)] + joined_groups(groups)
}

/// The hints of the bar: an empty line, restarting and the menu, an empty line, quitting.
pub open spec fn command_groups() -> Seq<Seq<Seq<(Seq<char>, bool)>>> {
    seq![
        seq![seq![(""@, false)]],
        seq![
            seq![("tab"@, true), (" + "@, false), ("enter"@, true), (" - restart test"@, false)],
            seq![("esc"@, true), (" - menu"@, false)],
        ],
        seq![seq![(""@, false)]],
        seq![
            seq![
                ("ctrl"@, true),
                (" + "@, false),
                ("c"@, true),
                (" or "@, false),
                ("ctrl"@, true),
                (" + "@, false),
                ("z"@, true),
                (" - to quit"@, false),
            ],
        ],
    ]
}

/// The groups as plain values.
pub open spec fn groups_view(gs: Seq<Vec<HintPiece>>) -> Seq<Seq<(Seq<char>, bool)>> {
    gs.map_values(|g: Vec<HintPiece>| hint_view(g@))
}

proof fn lemma_line_width_nonneg(groups: Seq<Seq<(Seq<char>, bool)>>)
    ensures
        line_width(groups) >= 0,
    decreases groups.len(),
{
    if groups.len() > 0 {
        lemma_line_width_nonneg(groups.drop_last());
        lemma_group_width_nonneg(groups.last());
    }
}

proof fn lemma_group_width_nonneg(g: Seq<(Seq<char>, bool)>)
    ensures
        group_width(g) >= 0,
    decreases g.len(),
{
    if g.len() > 0 {
        lemma_group_width_nonneg(g.drop_last());
    }
}

/// A line of the bar in `width` columns (see `command_line_spec`).
pub fn command_line(groups: &Vec<Vec<HintPiece>>, width: u16) -> (r: Vec<HintPiece>)
    requires
        line_width(groups_view(groups@)) <= usize::MAX,
    ensures
        hint_view(r@) == command_line_spec(groups_view(groups@), width as int),
{
    let ghost gs = groups_view(groups@);
    let mut total: usize = 0;
    let mut joined: Vec<HintPiece> = Vec::new();
    let mut i: usize = 0;
    while i < groups.len()
        invariant
            gs == groups_view(groups@),
            line_width(gs) <= usize::MAX,
            i <= groups@.len(),
            total == line_width(gs.take(i as int)),
            hint_view(joined@) == joined_groups(gs.take(i as int)),
        decreases groups.len() - i,
    {
        let ghost prefix = gs.take(i as int);
        assert(gs.take(i + 1).drop_last() =~= prefix);
        assert(gs.take(i + 1).last() == gs[i as int]);
        proof {
            lemma_line_width_prefix(gs, i + 1);
        }
        let group = &groups[i];
        let ghost g = gs[i as int];
        assert(g == hint_view(group@));
        proof {
            lemma_group_width_nonneg(g);
            assert(line_width(gs.take(i + 1)) == line_width(prefix) + group_width(g) + (if i + 1
                > 1 {
                3int
            } else {
                0int
            }));
        }
        if i > 0 {
            proof {
                reveal_strlit("   ");
            }
            joined.push(("   ".to_owned(), false));
            total = total + 3;
        }
        let ghost before = hint_view(joined@);
        let mut k: usize = 0;
        let mut gw: usize = 0;
        while k < group.len()
            invariant
                g == hint_view(group@),
                k <= group@.len(),
                gw == group_width(g.take(k as int)),
                total + group_width(g) <= usize::MAX,
                hint_view(joined@) == before + g.take(k as int),
            decreases group.len() - k,
        {
            assert(g.take(k + 1).drop_last() =~= g.take(k as int));
            proof {
                lemma_group_width_prefix(g, k + 1);
            }
            let piece = &group[k];
            let n = chars_of(piece.0.as_str()).len();
            gw = gw + n;
            let text = piece.0.clone();
            assert(g[k as int] == (text@, piece.1));
            let ghost prev = joined@;
            joined.push((text, piece.1));
            assert(hint_view(joined@) =~= hint_view(prev).push((text@, piece.1)));
            assert(g.take(k + 1) =~= g.take(k as int).push(g[k as int]));
            assert(hint_view(joined@) =~= before + g.take(k + 1));
            k += 1;
        }
        assert(g.take(k as int) =~= g);
        total = total + gw;
        proof {
            if i == 0 {
                assert(prefix.len() == 0);
                assert(gs.take(1) =~= seq![g]);
            }
        }
        assert(hint_view(joined@) =~= joined_groups(gs.take(i + 1)));
        i += 1;
    }
    assert(gs.take(i as int) =~= gs);
    let pad = (width as usize).saturating_sub(total) / 2;
    let mut spaces = String::new();
    let mut p: usize = 0;
    while p < pad
        invariant
            p <= pad,
            spaces@ == Seq::new(p as nat, |j: int| ' '),
        decreases pad - p,
    {
        proof {
            reveal_strlit(" ");
        }
        spaces.append(" ");
        assert(spaces@ =~= Seq::new((p + 1) as nat, |j: int| ' '));
        p += 1;
    }
    let mut line: Vec<HintPiece> = Vec::new();
    line.push((spaces, false));
    line.append(&mut joined);
    proof {
        lemma_line_width_nonneg(gs);
    }
    assert(hint_view(line@) =~= command_line_spec(gs, width as int));
    line
}

/// The piece `text` as a key or a description.
fn hint(text: &str, is_key: bool) -> (r: HintPiece)
    ensures
        r.0@ == text@,
        r.1 == is_key,
{
    (text.to_owned(), is_key)
}

/// The lines of the bar in `width` columns: the hints of `command_groups`, each line
/// centered (see `command_line_spec`).
pub fn command_bar(width: u16) -> (r: Vec<Vec<HintPiece>>)
    ensures
        r@.len() == 4,
        forall|j: int|
            0 <= j < 4 ==> hint_view((#[trigger] r@[j])@) == command_line_spec(command_groups()[j], width as int),
{
    proof {
        reveal_strlit("");
        reveal_strlit("tab");
        reveal_strlit(" + ");
        reveal_strlit("enter");
        reveal_strlit(" - restart test");
        reveal_strlit("esc");
        reveal_strlit(" - menu");
        reveal_strlit("ctrl");
        reveal_strlit("c");
        reveal_strlit(" or ");
        reveal_strlit("z");
        reveal_strlit(" - to quit");
    }
    let ghost want = command_groups();
    let empty_line: Vec<Vec<HintPiece>> = vec![vec![hint("", false)]];
    let restart: Vec<HintPiece> = vec![hint("tab", true), hint(" + ", false), hint("enter", true), hint(" - restart test", false)];
    let menu: Vec<HintPiece> = vec![hint("esc", true), hint(" - menu", false)];
    let second: Vec<Vec<HintPiece>> = vec![restart, menu];
    let quit: Vec<HintPiece> = vec![
        hint("ctrl", true),
        hint(" + ", false),
        hint("c", true),
        hint(" or ", false),
        hint("ctrl", true),
        hint(" + ", false),
        hint("z", true),
        hint(" - to quit", false),
    ];
    let fourth: Vec<Vec<HintPiece>> = vec![quit];
    assert(hint_view(empty_line@[0]@) =~= want[0][0]);
    assert(groups_view(empty_line@) =~= want[0]);
    assert(hint_view(second@[0]@) =~= want[1][0]);
    assert(hint_view(second@[1]@) =~= want[1][1]);
    assert(groups_view(second@) =~= want[1]);
    assert(hint_view(fourth@[0]@) =~= want[3][0]);
    assert(groups_view(fourth@) =~= want[3]);
    proof {
        reveal_with_fuel(line_width, 3);
        reveal_with_fuel(group_width, 9);
    }
    assert(line_width(want[0]) == 0);
    assert(line_width(want[1]) == 39);
    assert(line_width(want[3]) == 30);
    let l0 = command_line(&empty_line, width);
    let l1 = command_line(&second, width);
    let l2 = command_line(&empty_line, width);
    let l3 = command_line(&fourth, width);
    vec![l0, l1, l2, l3]
}

proof fn lemma_line_width_prefix(gs: Seq<Seq<(Seq<char>, bool)>>, k: int)
    requires
        0 <= k <= gs.len(),
    ensures
        line_width(gs.take(k)) <= line_width(gs),
    decreases gs.len(),
{
    if k < gs.len() {
        assert(gs.drop_last().take(k) =~= gs.take(k));
        lemma_line_width_prefix(gs.drop_last(), k);
        lemma_group_width_nonneg(gs.last());
    } else {
        assert(gs.take(k) =~= gs);
    }
}

proof fn lemma_group_width_prefix(g: Seq<(Seq<char>, bool)>, k: int)
    requires
        0 <= k <= g.len(),
    ensures
        group_width(g.take(k)) <= group_width(g),
    decreases g.len(),
{
    if k < g.len() {
        assert(g.drop_last().take(k) =~= g.take(k));
        lemma_group_width_prefix(g.drop_last(), k);
    } else {
        assert(g.take(k) =~= g);
    }
}

} // verus!
