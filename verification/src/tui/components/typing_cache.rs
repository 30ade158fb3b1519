//! Breaking the target text into lines of the typing area, and finding the cursor in them.

use vstd::prelude::*;

verus! {

/// The UTF-8 length of a char, in bytes.
pub open spec fn char_bytes(c: char) -> int {
    let u = c as u32;
    if u < 0x80 {
        1
    } else if u < 0x800 {
        2
    } else if u < 0x10000 {
        3
    } else {
        4
    }
}

/// The UTF-8 length of a char, in bytes.
pub fn char_len_utf8(c: char) -> (r: u16)
    ensures
        r == char_bytes(c),
{
    let u = c as u32;
    if u < 0x80 {
        1
    } else if u < 0x800 {
        2
    } else if u < 0x10000 {
        3
    } else {
        4
    }
}

/// The UTF-8 length of a char sequence.
pub open spec fn seq_bytes(s: Seq<char>) -> int
    decreases s.len(),
{
    if s.len() == 0 {
        0
    } else {
        seq_bytes(s.drop_last()) + char_bytes(s.last())
    }
}

/// The index of the last space in `s`, if any.
pub open spec fn last_space(s: Seq<char>) -> Option<int>
    decreases s.len(),
{
    if s.len() == 0 {
        None
    } else if s.last() == ' ' {
        Some(s.len() - 1)
    } else {
        last_space(s.drop_last())
    }
}

/// Where a full line is cut: after its last space, or at its end when it has none.
pub open spec fn break_index(s: Seq<char>) -> int {
    match last_space(s) {
        Some(i) => i + 1,
        None => s.len() as int,
    }
}

/// One char of the target text joins the current line. When it would take the line past
/// `max_width` bytes, the line is first cut after its last space (the rest moving on to
/// the next line with the char), or, without a space to cut at, closed as it is.
pub open spec fn place_char(
    st: (Seq<Seq<char>>, Seq<char>),
    c: char,
    max_width: int,
) -> (Seq<Seq<char>>, Seq<char>) {
    let (lines, cur) = st;
    if seq_bytes(cur) + char_bytes(c) > max_width {
        let bi = break_index(cur);
        if bi < cur.len() {
            (lines.push(cur.subrange(0, bi)), cur.subrange(bi, cur.len() as int).push(c))
        } else {
            (lines.push(cur), seq![c])
        }
    } else {
        (lines, cur.push(c))
    }
}

pub open spec fn place_chars(text: Seq<char>, max_width: int) -> (Seq<Seq<char>>, Seq<char>)
    decreases text.len(),
{
    if text.len() == 0 {
        (seq![], seq![])
    } else {
        place_char(place_chars(text.drop_last(), max_width), text.last(), max_width)
    }
}

/// The lines the target text is broken into at `max_width` bytes.
pub open spec fn target_lines_spec(text: Seq<char>, max_width: int) -> Seq<Seq<char>> {
    let (lines, cur) = place_chars(text, max_width);
    if cur.len() != 0 {
        lines.push(cur)
    } else {
        lines
    }
}

/// No space stands in `s` before its last char.
pub open spec fn no_inner_space(s: Seq<char>) -> bool {
    forall|i: int| 0 <= i < s.len() - 1 ==> #[trigger] s[i] != ' '
}

proof fn lemma_seq_bytes_push(s: Seq<char>, c: char)
    ensures
        seq_bytes(s.push(c)) == seq_bytes(s) + char_bytes(c),
{
    assert(s.push(c).drop_last() =~= s);
}

proof fn lemma_seq_bytes_split(s: Seq<char>, k: int)
    requires
        0 <= k <= s.len(),
    ensures
        seq_bytes(s) == seq_bytes(s.subrange(0, k)) + seq_bytes(s.subrange(k, s.len() as int)),
        seq_bytes(s.subrange(0, k)) >= 0,
        seq_bytes(s.subrange(k, s.len() as int)) >= 0,
    decreases s.len(),
{
    if k == s.len() {
        assert(s.subrange(0, k) =~= s);
        assert(s.subrange(k, s.len() as int) =~= Seq::<char>::empty());
        lemma_seq_bytes_nonneg(s);
    } else {
        lemma_seq_bytes_split(s.drop_last(), k);
        assert(s.drop_last().subrange(0, k) =~= s.subrange(0, k));
        assert(s.subrange(k, s.len() as int).drop_last() =~= s.drop_last().subrange(
            k,
            s.len() - 1,
        ));
    }
}

proof fn lemma_seq_bytes_nonneg(s: Seq<char>)
    ensures
        seq_bytes(s) >= 0,
    decreases s.len(),
{
    if s.len() > 0 {
        lemma_seq_bytes_nonneg(s.drop_last());
    }
}

proof fn lemma_last_space(s: Seq<char>)
    ensures
        last_space(s) matches Some(i) ==> 0 <= i < s.len() && s[i] == ' ' && forall|j: int|
            i < j < s.len() ==> #[trigger] s[j] != ' ',
        last_space(s) is None ==> forall|j: int| 0 <= j < s.len() ==> #[trigger] s[j] != ' ',
    decreases s.len(),
{
    if s.len() > 0 && s.last() != ' ' {
        let p = s.drop_last();
        lemma_last_space(p);
        assert forall|j: int| 0 <= j < p.len() implies p[j] == s[j] by {}
        match last_space(s) {
            Some(i) => {
                assert forall|j: int| i < j < s.len() implies #[trigger] s[j] != ' ' by {
                    if j < p.len() {
                        assert(p[j] == s[j]);
                    }
                }
            },
            None => {
                assert forall|j: int| 0 <= j < s.len() implies #[trigger] s[j] != ' ' by {
                    if j < p.len() {
                        assert(p[j] == s[j]);
                    }
                }
            },
        }
    }
}

/// The index just after the last space of `line`, or its length without one.
fn find_break_index(line: &Vec<char>) -> (r: usize)
    ensures
        r == break_index(line@),
{
    let mut i = line.len();
    assert(line@.subrange(0, i as int) =~= line@);
    while i > 0
        invariant
            i <= line@.len(),
            last_space(line@) == last_space(line@.subrange(0, i as int)),
            forall|j: int| i <= j < line@.len() ==> #[trigger] line@[j] != ' ',
        decreases i,
    {
        assert(line@.subrange(0, i as int).drop_last() =~= line@.subrange(0, i - 1));
        if line[i - 1] == ' ' {
            return i;
        }
        i -= 1;
    }
    assert(line@.subrange(0, 0) =~= Seq::<char>::empty());
    line.len()
}

/// The UTF-8 length of `line`, in bytes.
fn line_bytes(line: &Vec<char>) -> (r: u16)
    requires
        seq_bytes(line@) <= u16::MAX,
    ensures
        r == seq_bytes(line@),
{
    let mut total: u16 = 0;
    let mut i: usize = 0;
    while i < line.len()
        invariant
            i <= line@.len(),
            seq_bytes(line@) <= u16::MAX,
            total == seq_bytes(line@.subrange(0, i as int)),
        decreases line.len() - i,
    {
        assert(line@.subrange(0, i + 1) =~= line@.subrange(0, i as int).push(line@[i as int]));
        proof {
            lemma_seq_bytes_push(line@.subrange(0, i as int), line@[i as int]);
            lemma_seq_bytes_split(line@, i + 1);
        }
        total += char_len_utf8(line[i]);
        i += 1;
    }
    assert(line@.subrange(0, i as int) =~= line@);
    total
}

/// Breaks the chars of the target text into lines of at most `max_width` bytes where it
/// can: a line that would grow past the width is cut after its last space.
pub fn build_target_lines(targets: &Vec<char>, max_width: u16) -> (r: Vec<Vec<char>>)
    requires
        max_width <= u16::MAX - 8,
    ensures
        r@.map_values(|l: Vec<char>| l@) == target_lines_spec(targets@, max_width as int),
{
    let ghost text = targets@;
    let ghost mw = max_width as int;
    let mut lines: Vec<Vec<char>> = Vec::new();
    let mut current_line: Vec<char> = Vec::new();
    let mut current_width: u16 = 0;
    let mut i: usize = 0;
    while i < targets.len()
        invariant
            text == targets@,
            mw == max_width as int,
            max_width <= u16::MAX - 8,
            i <= targets@.len(),
            (lines@.map_values(|l: Vec<char>| l@), current_line@) == place_chars(
                text.take(i as int),
                mw,
            ),
            current_width == seq_bytes(current_line@),
            current_width <= max_width || (no_inner_space(current_line@) && current_width
                <= max_width + 4),
        decreases targets.len() - i,
    {
        let c = targets[i];
        let span_width = char_len_utf8(c);
        let ghost old_lines = lines@.map_values(|l: Vec<char>| l@);
        let ghost old_cur = current_line@;
        assert(text.take(i + 1).drop_last() =~= text.take(i as int));
        assert(text.take(i + 1).last() == c);
        proof {
            lemma_seq_bytes_push(old_cur, c);
        }
        if current_width + span_width > max_width {
            let break_index = find_break_index(&current_line);
            proof {
                lemma_last_space(old_cur);
                lemma_seq_bytes_split(old_cur, break_index as int);
            }
            if break_index < current_line.len() {
                let next_line = current_line.split_off(break_index);
                let ghost head = current_line@;
                lines.push(current_line);
                current_line = next_line;
                assert(current_line@ =~= old_cur.subrange(break_index as int, old_cur.len() as int));
                assert(head =~= old_cur.subrange(0, break_index as int));
                assert(no_inner_space(current_line@.push(c))) by {
                    assert forall|j: int| 0 <= j < current_line@.len() implies #[trigger] current_line@[j]
                        != ' ' by {
                        assert(current_line@[j] == old_cur[break_index + j]);
                    }
                }
                current_width = line_bytes(&current_line);
                assert(lines@.map_values(|l: Vec<char>| l@) =~= old_lines.push(head));
            } else {
                let ghost whole = current_line@;
                lines.push(current_line);
                current_line = Vec::new();
                current_width = 0;
                assert(lines@.map_values(|l: Vec<char>| l@) =~= old_lines.push(whole));
            }
            proof {
                lemma_seq_bytes_push(current_line@, c);
            }
            current_line.push(c);
            current_width += span_width;
        } else {
            current_line.push(c);
            current_width += span_width;
        }
        i += 1;
    }
    assert(text.take(i as int) =~= text);
    let ghost old_lines = lines@.map_values(|l: Vec<char>| l@);
    if current_line.len() > 0 {
        let ghost cur = current_line@;
        lines.push(current_line);
        assert(lines@.map_values(|l: Vec<char>| l@) =~= old_lines.push(cur));
    }
    lines
}

/// The lines one after the other.
pub open spec fn concat_lines(lines: Seq<Seq<char>>) -> Seq<char>
    decreases lines.len(),
{
    if lines.len() == 0 {
        seq![]
    } else {
        concat_lines(lines.drop_last()) + lines.last()
    }
}

proof fn lemma_concat_push(lines: Seq<Seq<char>>, l: Seq<char>)
    ensures
        concat_lines(lines.push(l)) == concat_lines(lines) + l,
{
    assert(lines.push(l).drop_last() =~= lines);
}

proof fn lemma_place_chars_keeps_text(text: Seq<char>, max_width: int)
    ensures
        concat_lines(place_chars(text, max_width).0) + place_chars(text, max_width).1 == text,
    decreases text.len(),
{
    if text.len() > 0 {
        let prefix = text.drop_last();
        let c = text.last();
        lemma_place_chars_keeps_text(prefix, max_width);
        let (lines, cur) = place_chars(prefix, max_width);
        if seq_bytes(cur) + char_bytes(c) > max_width {
            let bi = break_index(cur);
            lemma_last_space(cur);
            if bi < cur.len() {
                lemma_concat_push(lines, cur.subrange(0, bi));
                assert(cur =~= cur.subrange(0, bi) + cur.subrange(bi, cur.len() as int));
            } else {
                lemma_concat_push(lines, cur);
            }
        }
        assert(text =~= prefix.push(c));
    }
}

/// Law: breaking the target text into lines loses no char and adds none: the lines, one
/// after the other, are the text.
pub proof fn lemma_target_lines_keep_text(text: Seq<char>, max_width: int)
    ensures
        concat_lines(target_lines_spec(text, max_width)) == text,
{
    lemma_place_chars_keeps_text(text, max_width);
    let (lines, cur) = place_chars(text, max_width);
    if cur.len() != 0 {
        lemma_concat_push(lines, cur);
    } else {
        assert(concat_lines(lines) + cur =~= concat_lines(lines));
    }
}

/// The UTF-8 lengths of the lines, in bytes.
pub open spec fn line_byte_lens(lines: Seq<Seq<char>>) -> Seq<int> {
    lines.map_values(|l: Seq<char>| seq_bytes(l))
}

/// The cursor's line and offset (as a `u16`) for position `pos` in the lines that `text`
/// breaks into at `max_width` bytes; (0, 0) past the end.
pub open spec fn built_cursor(text: Seq<char>, pos: int, max_width: int) -> (usize, u16) {
    let (line, x) = crate::tui::utils::locate_or_zero(
        line_byte_lens(target_lines_spec(text, max_width)),
        pos,
    );
    (line as usize, (x as usize) as u16)
}

proof fn lemma_seq_bytes_concat(a: Seq<char>, b: Seq<char>)
    ensures
        seq_bytes(a + b) == seq_bytes(a) + seq_bytes(b),
{
    lemma_seq_bytes_split(a + b, a.len() as int);
    assert((a + b).subrange(0, a.len() as int) =~= a);
    assert((a + b).subrange(a.len() as int, (a + b).len() as int) =~= b);
}

proof fn lemma_concat_prefix_bytes(lines: Seq<Seq<char>>, k: int)
    requires
        0 <= k <= lines.len(),
    ensures
        0 <= seq_bytes(concat_lines(lines.take(k))) <= seq_bytes(concat_lines(lines)),
    decreases lines.len(),
{
    if k < lines.len() {
        assert(lines.drop_last().take(k) =~= lines.take(k));
        lemma_concat_prefix_bytes(lines.drop_last(), k);
        lemma_seq_bytes_concat(concat_lines(lines.drop_last()), lines.last());
        lemma_seq_bytes_nonneg(lines.last());
    } else {
        assert(lines.take(k) =~= lines);
        if lines.len() > 0 {
            lemma_concat_prefix_bytes(lines.drop_last(), k - 1);
            lemma_seq_bytes_concat(concat_lines(lines.drop_last()), lines.last());
            lemma_seq_bytes_nonneg(lines.last());
        }
    }
}

proof fn lemma_total_len_push(s: Seq<int>, x: int)
    ensures
        crate::tui::utils::total_len(s.push(x)) == crate::tui::utils::total_len(s) + x,
    decreases s.len(),
{
    if s.len() > 0 {
        assert(s.push(x).skip(1) =~= s.skip(1).push(x));
        assert(s.push(x)[0] == s[0]);
        lemma_total_len_push(s.skip(1), x);
    } else {
        assert(s.push(x).skip(1) =~= Seq::<int>::empty());
        assert(s.push(x)[0] == x);
        assert(crate::tui::utils::total_len(Seq::<int>::empty()) == 0);
    }
}

/// The UTF-8 length of `line`, in bytes.
pub fn line_byte_len(line: &Vec<char>) -> (r: usize)
    requires
        seq_bytes(line@) <= usize::MAX,
    ensures
        r == seq_bytes(line@),
{
    let mut total: usize = 0;
    let mut i: usize = 0;
    while i < line.len()
        invariant
            i <= line@.len(),
            seq_bytes(line@) <= usize::MAX,
            total == seq_bytes(line@.subrange(0, i as int)),
        decreases line.len() - i,
    {
        assert(line@.subrange(0, i + 1) =~= line@.subrange(0, i as int).push(line@[i as int]));
        proof {
            lemma_seq_bytes_push(line@.subrange(0, i as int), line@[i as int]);
            lemma_seq_bytes_split(line@, i + 1);
        }
        total += char_len_utf8(line[i]) as usize;
        i += 1;
    }
    assert(line@.subrange(0, i as int) =~= line@);
    total
}

/// The UTF-8 lengths of the lines, in bytes.
fn byte_lengths(lines: &Vec<Vec<char>>) -> (r: Vec<usize>)
    requires
        seq_bytes(concat_lines(lines@.map_values(|l: Vec<char>| l@))) <= usize::MAX,
    ensures
        crate::tui::utils::as_ints(r@) == line_byte_lens(lines@.map_values(|l: Vec<char>| l@)),
        crate::tui::utils::total_len(crate::tui::utils::as_ints(r@)) == seq_bytes(
            concat_lines(lines@.map_values(|l: Vec<char>| l@)),
        ),
{
    let ghost ls = lines@.map_values(|l: Vec<char>| l@);
    let mut lens: Vec<usize> = Vec::new();
    let mut i: usize = 0;
    assert(ls.take(0) =~= Seq::<Seq<char>>::empty());
    assert(crate::tui::utils::as_ints(lens@) =~= line_byte_lens(ls.take(0)));
    while i < lines.len()
        invariant
            ls == lines@.map_values(|l: Vec<char>| l@),
            seq_bytes(concat_lines(ls)) <= usize::MAX,
            i <= ls.len(),
            crate::tui::utils::as_ints(lens@) == line_byte_lens(ls.take(i as int)),
            crate::tui::utils::total_len(crate::tui::utils::as_ints(lens@)) == seq_bytes(
                concat_lines(ls.take(i as int)),
            ),
        decreases lines.len() - i,
    {
        assert(ls.take(i + 1).drop_last() =~= ls.take(i as int));
        assert(ls.take(i + 1).last() == lines@[i as int]@);
        proof {
            lemma_concat_prefix_bytes(ls, i + 1);
            lemma_seq_bytes_concat(concat_lines(ls.take(i as int)), lines@[i as int]@);
            lemma_concat_prefix_bytes(ls.take(i + 1), i as int);
            assert(ls.take(i + 1).take(i as int) =~= ls.take(i as int));
            lemma_seq_bytes_nonneg(lines@[i as int]@);
        }
        let n = line_byte_len(&lines[i]);
        let ghost before = crate::tui::utils::as_ints(lens@);
        lens.push(n);
        proof {
            lemma_total_len_push(before, n as int);
        }
        assert(crate::tui::utils::as_ints(lens@) =~= before.push(n as int));
        assert(crate::tui::utils::as_ints(lens@) =~= line_byte_lens(ls.take(i + 1)));
        i += 1;
    }
    assert(ls.take(i as int) =~= ls);
    lens
}

/// The typing area's lines and cursor, rebuilt only when the text's revision, the width,
/// the line count or the theme's revision changes.
#[derive(Debug, Clone)]
pub struct TypingRenderCache {
    revision: u64,
    width: u16,
    line_count: u8,
    theme_revision: u64,
    lines: Vec<Vec<char>>,
    cursor_line: usize,
    cursor_x: u16,
}

impl TypingRenderCache {
    /// What the cached lines were built for: (text revision, width, line count, theme
    /// revision).
    pub closed spec fn key(self) -> (u64, u16, u8, u64) {
        (self.revision, self.width, self.line_count, self.theme_revision)
    }

    /// The cached lines.
    pub closed spec fn spec_lines(self) -> Seq<Seq<char>> {
        self.lines@.map_values(|l: Vec<char>| l@)
    }

    /// The cached cursor: its line, and its offset in that line.
    pub closed spec fn cursor(self) -> (usize, u16) {
        (self.cursor_line, self.cursor_x)
    }

    /// Marks the cache stale by setting its text revision to the largest value.
    pub fn invalidate(&mut self)
        ensures
            final(self).key() == (u64::MAX, old(self).key().1, old(self).key().2, old(self).key().3),
            final(self).spec_lines() == old(self).spec_lines(),
            final(self).cursor() == old(self).cursor(),
    {
        self.revision = u64::MAX;
    }

    /// Brings the cache up to date for the text `targets` (at revision `revision`) with the
    /// cursor at `current_pos`, `width` bytes per line: when anything it was built for has
    /// changed, the lines and the cursor are rebuilt; otherwise nothing changes.
    pub fn ensure(
        &mut self,
        targets: &Vec<char>,
        current_pos: usize,
        theme_revision: u64,
        width: u16,
        line_count: u8,
        revision: u64,
    )
        requires
            old(self).key() != (revision, width, line_count, theme_revision) ==> width <= u16::MAX
                - 8 && seq_bytes(targets@) <= usize::MAX,
        ensures
            final(self).key() == (revision, width, line_count, theme_revision),
            old(self).key() == (revision, width, line_count, theme_revision) ==> final(self).spec_lines() == old(self).spec_lines() && final(self).cursor() == old(self).cursor(),
            old(self).key() != (revision, width, line_count, theme_revision) ==> final(self).spec_lines() == target_lines_spec(targets@, width as int) && final(self).cursor()
                == built_cursor(targets@, current_pos as int, width as int),
    {
        let unchanged = self.revision == revision && self.width == width && self.line_count
            == line_count && self.theme_revision == theme_revision;
        if unchanged {
            return;
        }
        let lines = build_target_lines(targets, width);
        proof {
            lemma_target_lines_keep_text(targets@, width as int);
        }
        let lens = byte_lengths(&lines);
        let (cursor_line, cursor_x) = resolve_cursor(lens.as_slice(), current_pos);
        self.lines = lines;
        self.cursor_line = cursor_line;
        self.cursor_x = cursor_x;
        self.revision = revision;
        self.width = width;
        self.line_count = line_count;
        self.theme_revision = theme_revision;
    }

    /// The cached lines.
    pub fn lines(&self) -> (r: &[Vec<char>])
        ensures
            r@.map_values(|l: Vec<char>| l@) == self.spec_lines(),
    {
        self.lines.as_slice()
    }

    /// The line the cursor is on.
    pub fn cursor_line(&self) -> (r: usize)
        ensures
            r == self.cursor().0,
    {
        self.cursor_line
    }

    /// The cursor's offset in its line.
    pub fn cursor_x(&self) -> (r: u16)
        ensures
            r == self.cursor().1,
    {
        self.cursor_x
    }
}

impl Default for TypingRenderCache {
    fn default() -> (r: Self)
        ensures
            r.key() == (0u64, 0u16, 0u8, 0u64),
            r.spec_lines() == Seq::<Seq<char>>::empty(),
            r.cursor() == (0usize, 0u16),
    {
        let r = TypingRenderCache {
            revision: 0,
            width: 0,
            line_count: 0,
            theme_revision: 0,
            lines: Vec::new(),
            cursor_line: 0,
            cursor_x: 0,
        };
        assert(r.spec_lines() =~= Seq::<Seq<char>>::empty());
        r
    }
}

/// The line holding position `current_pos` of lines of the given byte lengths and the
/// position's offset in it (as a `u16`); (0, 0) past the last line.
pub fn resolve_cursor(line_lens: &[usize], current_pos: usize) -> (r: (usize, u16))
    requires
        crate::tui::utils::total_len(crate::tui::utils::as_ints(line_lens@)) <= usize::MAX,
    ensures
        ({
            let (line, x) = crate::tui::utils::locate_or_zero(
                crate::tui::utils::as_ints(line_lens@),
                current_pos as int,
            );
            r == (line as usize, (x as usize) as u16)
        }),
{
    let (cursor_line, cursor_x) = crate::tui::utils::locate_position(line_lens, current_pos);
    (cursor_line, cursor_x as u16)
}

} // verus!
