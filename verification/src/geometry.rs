//! Rectangles on the terminal grid and text alignment.

use vstd::prelude::*;
use ratatui::layout as rl;

verus! {

/// A rectangular area of the terminal: top-left corner and size, in cells.
#[derive(Debug, Clone, Copy, PartialEq, Eq, Structural)]
pub struct Rect {
    pub x: u16,
    pub y: u16,
    pub width: u16,
    pub height: u16,
}

/// Horizontal alignment of text within an area.
#[derive(Debug, Clone, Copy, PartialEq, Eq, Structural)]
pub enum Alignment {
    Left,
    Center,
    Right,
}

impl Rect {
    /// The rectangle that `new` makes: width and height clamped so that `x + width` and
    /// `y + height` do not exceed `u16::MAX`.
    pub open spec fn new_spec(x: u16, y: u16, width: u16, height: u16) -> Rect {
        Rect {
            x,
            y,
            width: if width > u16::MAX - x { (u16::MAX - x) as u16 } else { width },
            height: if height > u16::MAX - y { (u16::MAX - y) as u16 } else { height },
        }
    }

    /// A rectangle whose right and bottom edges stay within `u16`.
    pub fn new(x: u16, y: u16, width: u16, height: u16) -> (r: Rect)
        ensures
            r == Rect::new_spec(x, y, width, height),
    {
        let max_width = u16::MAX - x;
        let max_height = u16::MAX - y;
        let width = if width > max_width {
            max_width
        } else {
            width
        };
        let height = if height > max_height {
            max_height
        } else {
            height
        };
        Rect { x, y, width, height }
    }

    /// Whether the edges of the rectangle are representable: `x + width` and `y + height`
    /// fit in `u16`.
    pub open spec fn fits(self) -> bool {
        self.x + self.width <= u16::MAX && self.y + self.height <= u16::MAX
    }
}

/// Space kept free inside a block's borders, in cells on each side.
#[derive(Debug, Clone, Copy, PartialEq, Eq, Structural)]
pub struct Padding {
    pub left: u16,
    pub right: u16,
    pub top: u16,
    pub bottom: u16,
}

/// A cell of the terminal.
#[derive(Debug, Clone, Copy, PartialEq, Eq, Structural)]
pub struct Position {
    pub x: u16,
    pub y: u16,
}

/// The axis along which an area is divided.
#[derive(Debug, Clone, Copy, PartialEq, Eq, Structural)]
pub enum Direction {
    Horizontal,
    Vertical,
}

/// How much of the divided axis a part asks for.
#[derive(Debug, Clone, Copy, PartialEq, Eq, Structural)]
pub enum Constraint {
    Min(u16),
    Length(u16),
    Percentage(u16),
}

/// Whether `part` can be a part of `area` divided along `direction` by ratatui's layout
/// solver: it spans `area` across the axis, and along the axis it starts no earlier than
/// `area` and ends no later (the far edge kept within the grid).
pub open spec fn part_of(direction: Direction, area: Rect, part: Rect) -> bool {
    match direction {
        Direction::Horizontal => part.y == area.y && part.height == area.height && area.x <= part.x
            && part.x + part.width <= sat_add16(area.x, area.width),
        Direction::Vertical => part.x == area.x && part.width == area.width && area.y <= part.y
            && part.y + part.height <= sat_add16(area.y, area.height),
    }
}

/// Whether `parts` can be what ratatui's layout solver divides `area` into along
/// `direction`: `n` parts, each a part of `area` (see `part_of`).
pub open spec fn split_parts(direction: Direction, area: Rect, n: int, parts: Seq<Rect>) -> bool {
    &&& parts.len() == n
    &&& forall|i: int| 0 <= i < n ==> part_of(direction, area, #[trigger] parts[i])
}

/// Where `area` ends along `direction`: its start plus its size along the axis.
pub open spec fn axis_end(direction: Direction, area: Rect) -> int {
    match direction {
        Direction::Horizontal => area.x + area.width,
        Direction::Vertical => area.y + area.height,
    }
}

/// Where `area` starts along `direction`.
pub open spec fn axis_start(direction: Direction, area: Rect) -> int {
    match direction {
        Direction::Horizontal => area.x as int,
        Direction::Vertical => area.y as int,
    }
}

/// The length of `area` along `direction` that the layout solver divides: up to its far
/// edge, kept within the grid.
pub open spec fn axis_len(direction: Direction, area: Rect) -> int {
    match direction {
        Direction::Horizontal => sat_add16(area.x, area.width) - area.x,
        Direction::Vertical => sat_add16(area.y, area.height) - area.y,
    }
}

/// What a constraint asks of an axis `len` cells long, in hundredths of a cell (the
/// solver's unit): a length or a minimum in whole cells, a percentage of the axis.
pub open spec fn demand(c: Constraint, len: int) -> int {
    match c {
        Constraint::Length(l) => 100 * l,
        Constraint::Min(m) => 100 * m,
        Constraint::Percentage(p) => p * len,
    }
}

/// The sum of the constraints' demands.
pub open spec fn total_demand(cs: Seq<Constraint>, len: int) -> int
    decreases cs.len(),
{
    if cs.len() == 0 {
        0
    } else {
        total_demand(cs.drop_last(), len) + demand(cs.last(), len)
    }
}

/// The number of `Min` constraints.
pub open spec fn min_count(cs: Seq<Constraint>) -> int
    decreases cs.len(),
{
    if cs.len() == 0 {
        0
    } else {
        min_count(cs.drop_last()) + (if cs.last() is Min { 1int } else { 0int })
    }
}

/// Whether the solver meets every constraint on an axis `len` cells long with nothing to
/// trade off: the demands fit the axis, every minimum is within `i16` (ratatui converts
/// it so), and there is at most one `Min`, or several that are all `Min(0)` and share the
/// room left over evenly in hundredths.
pub open spec fn solvable_exactly(cs: Seq<Constraint>, len: int) -> bool {
    let slack = 100 * len - total_demand(cs, len);
    &&& slack >= 0
    &&& forall|i: int| 0 <= i < cs.len() ==> (#[trigger] cs[i] is Min ==> cs[i]->Min_0 <= 0x7fff)
    &&& min_count(cs) <= 1 || ((forall|i: int| 0 <= i < cs.len() ==> (#[trigger] cs[i] is Min
        ==> cs[i]->Min_0 == 0)) && slack % min_count(cs) == 0)
}

/// The hundredths of the axis that constraint `i` gets when the constraints are solvable
/// exactly: its demand, and for a `Min` also an equal share of the room left over.
pub open spec fn share(cs: Seq<Constraint>, len: int, i: int) -> int {
    if cs[i] is Min {
        demand(cs[i], len) + (100 * len - total_demand(cs, len)) / min_count(cs)
    } else {
        demand(cs[i], len)
    }
}

/// Where part `i` begins, in hundredths of the axis from its start: the shares before it.
pub open spec fn boundary(cs: Seq<Constraint>, len: int, i: int) -> int
    decreases i,
{
    if i <= 0 {
        0
    } else {
        boundary(cs, len, i - 1) + share(cs, len, i - 1)
    }
}

/// Hundredths of a cell rounded to whole cells, halves up (as ratatui rounds).
pub open spec fn round_cells(h: int) -> int {
    (h + 50) / 100
}

/// Part `i` when the constraints are solvable exactly: from the rounded boundary before it
/// to the rounded boundary after it, spanning `area` across the axis.
pub open spec fn exact_part(direction: Direction, cs: Seq<Constraint>, area: Rect, i: int) -> Rect {
    let len = axis_len(direction, area);
    let s = axis_start(direction, area) + round_cells(boundary(cs, len, i));
    let e = axis_start(direction, area) + round_cells(boundary(cs, len, i + 1));
    match direction {
        Direction::Horizontal => Rect { x: s as u16, y: area.y, width: (e - s) as u16, height: area.height },
        Direction::Vertical => Rect { x: area.x, y: s as u16, width: area.width, height: (e - s) as u16 },
    }
}

/// Whether `parts` can be what ratatui's layout solver divides `area` into along
/// `direction` by the constraints `cs`: one part per constraint, each a part of `area`
/// (see `part_of`); the first starting at the area's start and each next one where the one
/// before it ends; and, where the constraints are
/// solvable exactly (see `solvable_exactly`), the parts that `exact_part` gives.
pub open spec fn solved_split(direction: Direction, cs: Seq<Constraint>, area: Rect, parts: Seq<Rect>) -> bool {
    &&& split_parts(direction, area, cs.len() as int, parts)
    &&& cs.len() > 0 ==> axis_start(direction, parts[0]) == axis_start(direction, area)
    &&& forall|i: int| 0 < i < cs.len() ==> #[trigger] axis_start(direction, parts[i]) == axis_end(
        direction,
        parts[i - 1],
    )
    &&& solvable_exactly(cs, axis_len(direction, area)) ==> parts == Seq::new(
        cs.len(),
        |i: int| exact_part(direction, cs, area, i),
    )
}

/// Divides `area` along `direction` with ratatui's `Layout::split` (default margin and
/// spacing, `Flex::Start`). Claims, as the crate's source (`try_split`, `changes_to_rects`
/// and the strengths it gives the constraints) shows:
/// - one part per constraint, each spanning `area` across the divided axis and lying within
///   it along the axis (the solver's required constraints, rounded to cells);
/// - the first part starts at the area's start and each next part where the one before it
///   ends: the spacers before and between the parts are held at zero size by constraints
///   far stronger than any other but the required ones, and moving their room to the last
///   spacer, which leaves every part's size as it is, only lets that spacer grow; both ends
///   of a part are rounded in the same way, so neighbours still meet;
/// - where the constraints are solvable exactly (`solvable_exactly`), the solve has one
///   optimum: every length, percentage and minimum met, the middle spacers empty, the room
///   left over going to the `Min` parts (equally) or else to the last spacer; each boundary
///   lies on a whole hundredth of a cell and is rounded to cells halves up, so the parts are
///   those of `exact_part` (as ratatui's own tests show, e.g. 25% and 25% of 10 cells give 3
///   and 2 cells).
/// Otherwise the constraints conflict and the solver's trade-off, whose ties it breaks by
/// the order of hash maps with seeded hashers, is not claimed.
#[verifier::external_body]
pub(crate) fn split_area(direction: Direction, constraints: &Vec<Constraint>, area: Rect) -> (r: Vec<Rect>)
    ensures
        solved_split(direction, constraints@, area, r@),
{
    let dir = match direction {
        Direction::Horizontal => rl::Direction::Horizontal,
        Direction::Vertical => rl::Direction::Vertical,
    };
    let cs = constraints.iter().map(|c| match *c {
        Constraint::Min(v) => rl::Constraint::Min(v),
        Constraint::Length(v) => rl::Constraint::Length(v),
        Constraint::Percentage(v) => rl::Constraint::Percentage(v),
    });
    let Rect { x, y, width, height } = area;
    let parts = rl::Layout::default().direction(dir).constraints(cs).split(rl::Rect { x, y, width, height });
    parts.iter().map(|p| Rect { x: p.x, y: p.y, width: p.width, height: p.height }).collect()
}

/// 1 for a `Min` constraint, else 0.
pub open spec fn min_one(c: Constraint) -> int {
    if c is Min { 1 } else { 0 }
}

/// For two constraints: their total demand, their count of `Min`s, and the boundaries of
/// their parts as sums of shares.
pub proof fn lemma_two_parts(c0: Constraint, c1: Constraint, len: int)
    ensures
        ({
            let cs = seq![c0, c1];
            &&& total_demand(cs, len) == demand(c0, len) + demand(c1, len)
            &&& min_count(cs) == min_one(c0) + min_one(c1)
            &&& boundary(cs, len, 0) == 0
            &&& boundary(cs, len, 1) == share(cs, len, 0)
            &&& boundary(cs, len, 2) == share(cs, len, 0) + share(cs, len, 1)
        }),
{
    let cs = seq![c0, c1];
    let e = Seq::<Constraint>::empty();
    assert(cs.drop_last() =~= seq![c0]);
    assert(seq![c0].drop_last() =~= e);
    assert(total_demand(e, len) == 0);
    assert(min_count(e) == 0);
    assert(total_demand(seq![c0], len) == demand(c0, len));
    assert(min_count(seq![c0]) == min_one(c0));
    assert(boundary(cs, len, 1) == boundary(cs, len, 0) + share(cs, len, 0));
    assert(boundary(cs, len, 2) == boundary(cs, len, 1) + share(cs, len, 1));
}

/// For three constraints: their total demand, their count of `Min`s, and the boundaries of
/// their parts as sums of shares.
pub proof fn lemma_three_parts(c0: Constraint, c1: Constraint, c2: Constraint, len: int)
    ensures
        ({
            let cs = seq![c0, c1, c2];
            &&& total_demand(cs, len) == demand(c0, len) + demand(c1, len) + demand(c2, len)
            &&& min_count(cs) == min_one(c0) + min_one(c1) + min_one(c2)
            &&& boundary(cs, len, 0) == 0
            &&& boundary(cs, len, 1) == share(cs, len, 0)
            &&& boundary(cs, len, 2) == share(cs, len, 0) + share(cs, len, 1)
            &&& boundary(cs, len, 3) == share(cs, len, 0) + share(cs, len, 1) + share(cs, len, 2)
        }),
{
    let cs = seq![c0, c1, c2];
    let e = Seq::<Constraint>::empty();
    assert(cs.drop_last() =~= seq![c0, c1]);
    assert(seq![c0, c1].drop_last() =~= seq![c0]);
    assert(seq![c0].drop_last() =~= e);
    assert(total_demand(e, len) == 0);
    assert(min_count(e) == 0);
    assert(total_demand(seq![c0], len) == demand(c0, len));
    assert(min_count(seq![c0]) == min_one(c0));
    assert(total_demand(seq![c0, c1], len) == demand(c0, len) + demand(c1, len));
    assert(min_count(seq![c0, c1]) == min_one(c0) + min_one(c1));
    assert(boundary(cs, len, 1) == boundary(cs, len, 0) + share(cs, len, 0));
    assert(boundary(cs, len, 2) == boundary(cs, len, 1) + share(cs, len, 1));
    assert(boundary(cs, len, 3) == boundary(cs, len, 2) + share(cs, len, 2));
}

/// With a single `Min` constraint, its share is its demand and all the room left over.
pub proof fn lemma_one_min_share(cs: Seq<Constraint>, len: int, i: int)
    requires
        min_count(cs) == 1,
        0 <= i < cs.len(),
        cs[i] is Min,
    ensures
        share(cs, len, i) == demand(cs[i], len) + 100 * len - total_demand(cs, len),
{
    let x = 100 * len - total_demand(cs, len);
    assert(x / 1 == x);
}

/// Whole cells written in hundredths round back to themselves.
pub proof fn lemma_round_whole(k: int)
    ensures
        round_cells(100 * k) == k,
{
}

/// `a + b`, or `u16::MAX` when that is larger.
pub open spec fn sat_add16(a: u16, b: u16) -> int {
    if a + b <= u16::MAX {
        a + b
    } else {
        u16::MAX as int
    }
}

/// `a - b`, or 0 when `b` is larger.
pub open spec fn sat_sub16(a: u16, b: u16) -> int {
    if a >= b {
        a - b
    } else {
        0
    }
}

/// The inside of a block bordered on all four sides that fills `area`, with `padding`
/// kept free inside the borders.
pub open spec fn block_inner_spec(area: Rect, padding: Padding) -> Rect {
    let x1 = sat_add16(area.x, 1);
    let x2 = sat_add16(area.x, area.width);
    let y1 = sat_add16(area.y, 1);
    let y2 = sat_add16(area.y, area.height);
    let bx = (if x1 < x2 { x1 } else { x2 }) as u16;
    let by = (if y1 < y2 { y1 } else { y2 }) as u16;
    let bw = sat_sub16(area.width, 2) as u16;
    let bh = sat_sub16(area.height, 2) as u16;
    Rect {
        x: sat_add16(bx, padding.left) as u16,
        y: sat_add16(by, padding.top) as u16,
        width: sat_sub16(bw, (padding.left + padding.right) as u16) as u16,
        height: sat_sub16(bh, (padding.top + padding.bottom) as u16) as u16,
    }
}

/// The inside of a block bordered on all four sides, without padding.
pub open spec fn bordered_inner_spec(area: Rect) -> Rect {
    block_inner_spec(area, Padding { left: 0, right: 0, top: 0, bottom: 0 })
}

/// Calls `Block::inner` of ratatui on a block with borders on all four sides and the given
/// padding. Claims, as its source shows: the inside starts one column right of the area's
/// left edge and one row below its top edge (each addition saturating at `u16::MAX`, and not
/// past the area's right or bottom edge) and is two columns narrower and two rows shorter
/// (not below zero); then the padding moves the corner right by its left and down by its top
/// part (saturating) and shrinks the size by its left and right, and top and bottom, parts
/// (not below zero). Those two sums are taken in `u16`, so they must fit.
#[verifier::external_body]
pub(crate) fn block_inner(area: Rect, padding: Padding) -> (r: Rect)
    requires
        padding.left + padding.right <= u16::MAX,
        padding.top + padding.bottom <= u16::MAX,
    ensures
        r == block_inner_spec(area, padding),
{
    let Padding { left, right, top, bottom } = padding;
    let block = ratatui::widgets::Block::default()
        .borders(ratatui::widgets::Borders::ALL)
        .padding(ratatui::widgets::Padding { left, right, top, bottom });
    let Rect { x, y, width, height } = area;
    let inner = block.inner(rl::Rect { x, y, width, height });
    Rect { x: inner.x, y: inner.y, width: inner.width, height: inner.height }
}

/// The inside of a block bordered on all four sides, without padding.
pub(crate) fn bordered_inner(area: Rect) -> (r: Rect)
    ensures
        r == bordered_inner_spec(area),
{
    block_inner(area, Padding { left: 0, right: 0, top: 0, bottom: 0 })
}

} // verus!
