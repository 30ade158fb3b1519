//! Word placement that follows the text's own spacing, symbol sets, and small caches.

use vstd::prelude::*;
use std::collections::HashMap;
use std::collections::hash_map::DefaultHasher;
use std::hash::Hasher;
use vstd::std_specs::hash::DefaultHasherAdditionalSpecFns;
use vstd::utf8::{decode_utf8, encode_utf8, is_char_boundary};
use crate::geometry::Rect;
use crate::text::{
    chars_of, gap_start, is_whitespace_char, span_to_int, word_spans,
    word_spans_of,
};

verus! {

broadcast use {vstd::std_specs::hash::group_hash_axioms, vstd::utf8::group_utf8_lib};

/// What `TermiUtils::hash_text` hashes: the text's UTF-8 bytes, then the terminator `0xff`
/// that `str`'s `Hash` writes after them.
pub open spec fn text_hash_input(text: Seq<char>) -> Seq<Seq<u8>> {
    seq![encode_utf8(text), seq![0xffu8]]
}

/// What `calculate_cache_key` hashes: the text as above, then the width's 8 bytes.
pub open spec fn cache_key_input(text: Seq<char>, width: usize) -> Seq<Seq<u8>> {
    text_hash_input(text).push(vstd::bytes::spec_u64_to_le_bytes(width as u64))
}

pub struct TermiUtils;

impl TermiUtils {
    /// Hashes a text with the default SipHash hasher.
    pub fn hash_text(text: &str) -> (r: u64)
        ensures
            r == DefaultHasher::spec_finish(text_hash_input(text@)),
    {
        let mut hasher = DefaultHasher::new();
        let bytes = text.as_bytes();
        assert(bytes@ == encode_utf8(text@));
        hasher.write(bytes);
        let terminator: Vec<u8> = vec![0xffu8];
        let t = terminator.as_slice();
        assert(t@ =~= seq![0xffu8]);
        hasher.write(t);
        assert(hasher@ =~= text_hash_input(text@));
        hasher.finish()
    }

    pub fn get_symbols(supports_unicode: bool) -> (r: TermiSymbols)
        ensures
            supports_unicode ==> r.is_unicode_set(),
            !supports_unicode ==> r.is_ascii_set(),
    {
        if supports_unicode {
            TermiSymbols::unicode()
        } else {
            TermiSymbols::ascii()
        }
    }

    pub fn has_minimum_size(area: Rect, min_width: u16, min_height: u16) -> (r: bool)
        ensures
            r == (area.width >= min_width && area.height >= min_height),
    {
        area.width >= min_width && area.height >= min_height
    }

    /// Shortens a text longer than `max_width` bytes to its first `max_width - 3` bytes
    /// followed by `...`; with no room for more, to `...` alone.
    pub fn truncate_text(text: &str, max_width: usize) -> (r: String)
        requires
            text.len() > max_width > 3 ==> is_char_boundary(
                encode_utf8(text@),
                max_width - 3,
            ),
        ensures
            text.len() <= max_width ==> r@ == text@,
            text.len() > max_width && max_width <= 3 ==> r@ == "..."@,
            text.len() > max_width > 3 ==> r@ == decode_utf8(
                encode_utf8(text@).subrange(0, max_width - 3),
            ) + "..."@,
    {
        if text.len() <= max_width {
            text.to_owned()
        } else if max_width <= 3 {
            "...".to_owned()
        } else {
            let (head, _) = text.split_at(max_width - 3);
            let mut r = head.to_owned();
            r.append("...");
            r
        }
    }
}

/// The symbols drawn in menus and bars, in a Unicode and in a plain ASCII set.
pub struct TermiSymbols {
    pub punctuation: &'static str,
    pub numbers: &'static str,
    pub symbols: &'static str,
    pub divider: &'static str,
    pub custom: &'static str,
    pub info: &'static str,
    pub cursor: &'static str,
    pub up_arrow: &'static str,
    pub down_arrow: &'static str,
    pub arrow: &'static str,
    pub submenu_arrow: &'static str,
}

impl TermiSymbols {
    pub open spec fn is_unicode_set(self) -> bool {
        &&& self.punctuation@ == "!"@
        &&& self.numbers@ == "#"@
        &&& self.symbols@ == "@"@
        &&& self.divider@ == "│"@
        &&& self.custom@ == "⚙"@
        &&& self.info@ == "ⓘ"@
        &&& self.cursor@ == "█"@
        &&& self.up_arrow@ == "↑"@
        &&& self.down_arrow@ == "↓"@
        &&& self.arrow@ == "❯ "@
        &&& self.submenu_arrow@ == " →"@
    }

    pub open spec fn is_ascii_set(self) -> bool {
        &&& self.punctuation@ == "P"@
        &&& self.numbers@ == "N"@
        &&& self.symbols@ == "S"@
        &&& self.divider@ == "|"@
        &&& self.custom@ == "<c>"@
        &&& self.info@ == "i"@
        &&& self.cursor@ == "_"@
        &&& self.up_arrow@ == "^"@
        &&& self.down_arrow@ == "v"@
        &&& self.arrow@ == "> "@
        &&& self.submenu_arrow@ == " >"@
    }

    pub fn unicode() -> (r: Self)
        ensures
            r.is_unicode_set(),
    {
        Self {
            punctuation: "!",
            numbers: "#",
            symbols: "@",
            divider: "│",
            custom: "⚙",
            info: "ⓘ",
            cursor: "█",
            up_arrow: "↑",
            down_arrow: "↓",
            arrow: "❯ ",
            submenu_arrow: " →",
        }
    }

    pub fn ascii() -> (r: Self)
        ensures
            r.is_ascii_set(),
    {
        Self {
            punctuation: "P",
            numbers: "N",
            symbols: "S",
            divider: "|",
            custom: "<c>",
            info: "i",
            cursor: "_",
            up_arrow: "^",
            down_arrow: "v",
            arrow: "> ",
            submenu_arrow: " >",
        }
    }
}

/// Cache for UI calculations.
pub struct UiCache {
    pub last_word_positions: Option<Vec<WordPosition>>,
    pub last_text_hash: u64,
    pub last_width: usize,
}

impl UiCache {
    pub open spec fn is_empty_cache(self) -> bool {
        self.last_word_positions is None && self.last_text_hash == 0 && self.last_width == 0
    }

    pub fn new() -> (r: Self)
        ensures
            r.is_empty_cache(),
    {
        Self { last_word_positions: None, last_text_hash: 0, last_width: 0 }
    }

    pub fn invalidate(&mut self)
        ensures
            final(self).is_empty_cache(),
    {
        self.last_word_positions = None;
        self.last_text_hash = 0;
        self.last_width = 0;
    }
}

impl Default for UiCache {
    fn default() -> (r: Self)
        ensures
            r.is_empty_cache(),
    {
        Self::new()
    }
}


/// Where a word of the text stands on the typing area.
#[derive(Debug, Clone, Copy)]
pub struct WordPosition {
    /// The word's offset in the text, counted in chars.
    pub start_index: usize,
    /// The line the word is placed on.
    pub line: usize,
    /// The column the word begins at.
    pub col: usize,
}

impl WordPosition {
    pub open spec fn as_tuple(self) -> (int, int, int) {
        (self.start_index as int, self.line as int, self.col as int)
    }
}

/// Placement of a word of length `len` with the cursor at (line, column): it moves to the
/// next line when the line already holds something and the word would pass the width.
pub open spec fn place_word(st: (int, int), len: int, width: int) -> (int, int) {
    let (line, col) = st;
    if col > 0 && col + len > width {
        (line + 1, 0int)
    } else {
        (line, col)
    }
}

/// (line, column) after a placed word: the column advances by the word, and by one space
/// unless the word is the last one or the column has reached the width.
pub open spec fn advance_word(st: (int, int), len: int, width: int, is_last: bool) -> (int, int) {
    let (line, col) = place_word(st, len, width);
    let col2 = col + len;
    if !is_last && col2 < width {
        (line, col2 + 1)
    } else {
        (line, col2)
    }
}

/// (line, column) after placing the words of `sp`, the first `sp.len()` of `count` words.
pub open spec fn state_after(sp: Seq<(int, int)>, width: int, count: int) -> (int, int)
    decreases sp.len(),
{
    if sp.len() == 0 {
        (0, 0)
    } else {
        advance_word(
            state_after(sp.drop_last(), width, count),
            sp.last().1 - sp.last().0,
            width,
            sp.len() == count,
        )
    }
}

/// (offset, line, column) of each word of `sp`, the first `sp.len()` of `count` words.
pub open spec fn placements(sp: Seq<(int, int)>, width: int, count: int) -> Seq<(int, int, int)>
    decreases sp.len(),
{
    if sp.len() == 0 {
        seq![]
    } else {
        let (line, col) = place_word(
            state_after(sp.drop_last(), width, count),
            sp.last().1 - sp.last().0,
            width,
        );
        placements(sp.drop_last(), width, count).push((sp.last().0, line, col))
    }
}

/// The positions of the words of `text` in an area `width` columns wide, each word at its
/// own char offset in the text; none for an empty text or a zero width.
pub open spec fn word_positions_spec(text: Seq<char>, width: int) -> Seq<(int, int, int)> {
    if text.len() == 0 || width == 0 {
        seq![]
    } else {
        placements(word_spans(text), width, word_spans(text).len() as int)
    }
}

/// Whether `word` occurs in `text` at offset `at`.
fn occurs_at(text: &Vec<char>, at: usize, word: &Vec<char>) -> (r: bool)
    ensures
        r == (at + word@.len() <= text@.len() && text@.subrange(at as int, at + word@.len())
            == word@),
{
    if word.len() > text.len() || at > text.len() - word.len() {
        return false;
    }
    let mut j: usize = 0;
    while j < word.len()
        invariant
            at + word@.len() <= text@.len(),
            text@.len() == text.len(),
            j <= word@.len(),
            forall|i: int| 0 <= i < j ==> text@[at + i] == word@[i],
        decreases word.len() - j,
    {
        if text[at + j] != word[j] {
            assert(text@.subrange(at as int, at + word@.len())[j as int] != word@[j as int]);
            return false;
        }
        j += 1;
    }
    assert(text@.subrange(at as int, at + word@.len()) =~= word@);
    true
}

/// The chars of `chars` in `[start, end)`.
fn copy_range(chars: &Vec<char>, start: usize, end: usize) -> (r: Vec<char>)
    requires
        start <= end <= chars@.len(),
    ensures
        r@ == chars@.subrange(start as int, end as int),
{
    let mut r: Vec<char> = Vec::with_capacity(end - start);
    let mut i = start;
    while i < end
        invariant
            start <= i <= end <= chars@.len(),
            r@ == chars@.subrange(start as int, i as int),
        decreases end - i,
    {
        r.push(chars[i]);
        assert(r@ =~= chars@.subrange(start as int, i + 1));
        i += 1;
    }
    r
}

/// Scans `text` from `from` for the first occurrence of `word`; when only white space lies
/// between `from` and the word's own offset `at`, that offset is where the scan stops.
fn find_word(text: &Vec<char>, from: usize, word: &Vec<char>, Ghost(at): Ghost<int>) -> (r: usize)
    requires
        from <= at,
        0 < word@.len(),
        at + word@.len() <= text@.len(),
        word@ == text@.subrange(at, at + word@.len()),
        !is_whitespace_char(text@[at]),
        forall|j: int| from <= j < at ==> is_whitespace_char(#[trigger] text@[j]),
    ensures
        r == at,
{
    let mut char_index = from;
    while char_index < text.len()
        invariant
            from <= char_index <= at,
            0 < word@.len(),
            at + word@.len() <= text@.len(),
            word@ == text@.subrange(at, at + word@.len()),
            !is_whitespace_char(text@[at]),
            forall|j: int| from <= j < at ==> is_whitespace_char(#[trigger] text@[j]),
        decreases text.len() - char_index,
    {
        if occurs_at(text, char_index, word) {
            proof {
                if char_index < at {
                    assert(text@.subrange(char_index as int, char_index + word@.len())[0]
                        == text@[char_index as int]);
                    assert(word@[0] == text@[at]);
                }
            }
            return char_index;
        }
        proof {
            if char_index == at {
                assert(text@.subrange(char_index as int, char_index + word@.len()) =~= word@);
            }
        }
        char_index += 1;
    }
    char_index
}

/// Places the words of `text` line by line in an area `available_width` columns wide,
/// finding each word at its own offset in the text.
pub fn _calculate_positions(text: &str, available_width: usize) -> (r: Vec<WordPosition>)
    ensures
        r@.map_values(|p: WordPosition| p.as_tuple()) == word_positions_spec(
            text@,
            available_width as int,
        ),
{
    let text_chars = chars_of(text);
    if text_chars.len() == 0 || available_width == 0 {
        let r: Vec<WordPosition> = Vec::new();
        assert(r@.map_values(|p: WordPosition| p.as_tuple()) =~= Seq::<(int, int, int)>::empty());
        return r;
    }
    let spans = word_spans_of(&text_chars);
    let ghost sp = spans@.map_values(|p: (usize, usize)| span_to_int(p));
    let ghost w = available_width as int;
    let ghost n = sp.len() as int;
    assert forall|j: int| 0 <= j < n - 1 implies #[trigger] sp[j].1 < sp[j + 1].0 by {
        assert(sp[j].1 < sp[j + 1].0);
    }
    assert forall|j: int| 0 <= j < n implies !is_whitespace_char(text@[#[trigger] sp[j].0]) by {
        assert(sp[j].0 <= sp[j].0 < sp[j].1);
    }
    let mut positions: Vec<WordPosition> = Vec::with_capacity(spans.len());
    let mut char_index: usize = 0;
    let mut line: usize = 0;
    let mut col: usize = 0;
    let mut word_idx: usize = 0;
    while word_idx < spans.len()
        invariant
            text_chars@ == text@,
            available_width > 0,
            w == available_width as int,
            sp == spans@.map_values(|p: (usize, usize)| span_to_int(p)),
            n == sp.len(),
            forall|j: int| 0 <= j < n ==> 0 <= #[trigger] sp[j].0 < sp[j].1 <= text@.len(),
            forall|j: int| 0 <= j < n - 1 ==> #[trigger] sp[j].1 < sp[j + 1].0,
            forall|j: int| 0 <= j < n ==> !is_whitespace_char(text@[#[trigger] sp[j].0]),
            forall|k: int, j: int|
                #![trigger sp[k], text@[j]]
                0 <= k < n && gap_start(sp, k) <= j < sp[k].0 ==> is_whitespace_char(text@[j]),
            word_idx <= spans.len(),
            (line as int, col as int) == state_after(sp.take(word_idx as int), w, n),
            positions@.map_values(|p: WordPosition| p.as_tuple()) == placements(
                sp.take(word_idx as int),
                w,
                n,
            ),
            line <= word_idx,
            col <= char_index,
            char_index <= text@.len(),
            word_idx < spans.len() ==> gap_start(sp, word_idx as int) <= char_index <= sp[word_idx as int].0,
        decreases spans.len() - word_idx,
    {
        let (s, e) = spans[word_idx];
        let word_chars = copy_range(&text_chars, s, e);
        assert(sp[word_idx as int] == (s as int, e as int));
        assert(!is_whitespace_char(text@[s as int]));
        assert forall|j: int| char_index <= j < s implies is_whitespace_char(#[trigger] text@[j]) by {
            assert(sp[word_idx as int].0 == s);
        }
        char_index = find_word(&text_chars, char_index, &word_chars, Ghost(s as int));
        let word_len = e - s;
        let ghost taken = sp.take(word_idx as int);
        assert(sp.take(word_idx + 1).drop_last() =~= taken);
        assert(sp.take(word_idx + 1).last() == (s as int, e as int));
        if col > 0 && col + word_len > available_width {
            line += 1;
            col = 0;
        }
        let ghost pos = WordPosition { start_index: char_index, line: line, col: col };
        positions.push(WordPosition { start_index: char_index, line, col });
        assert(positions@.map_values(|p: WordPosition| p.as_tuple()) =~= placements(
            taken,
            w,
            n,
        ).push(pos.as_tuple()));
        char_index += word_len;
        col += word_len;
        if word_idx < spans.len() - 1 && col < available_width {
            col += 1;
            char_index += 1;
        }
        word_idx += 1;
    }
    assert(sp.take(word_idx as int) =~= sp);
    assert(sp == word_spans(text@));
    positions
}

/// The key under which word positions for `text` at `available_width` are cached.
fn calculate_cache_key(text: &str, available_width: usize) -> (r: u64)
    ensures
        r == DefaultHasher::spec_finish(cache_key_input(text@, available_width)),
{
    let mut hasher = DefaultHasher::new();
    let bytes = text.as_bytes();
    assert(bytes@ == encode_utf8(text@));
    hasher.write(bytes);
    let terminator: Vec<u8> = vec![0xffu8];
    let t = terminator.as_slice();
    assert(t@ =~= seq![0xffu8]);
    hasher.write(t);
    let width_bytes = vstd::bytes::u64_to_le_bytes(available_width as u64);
    hasher.write(width_bytes.as_slice());
    assert(hasher@ =~= cache_key_input(text@, available_width));
    hasher.finish()
}

/// Memoized word positions, keyed by a hash of text and width; emptied once it holds more
/// than 20 entries.
pub struct WordPositionCache {
    entries: HashMap<u64, Vec<WordPosition>>,
}

impl View for WordPositionCache {
    type V = Map<u64, Seq<WordPosition>>;

    closed spec fn view(&self) -> Map<u64, Seq<WordPosition>> {
        self.entries@.map_values(|v: Vec<WordPosition>| v@)
    }
}

impl WordPositionCache {
    pub fn new() -> (r: Self)
        ensures
            r@ == Map::<u64, Seq<WordPosition>>::empty(),
    {
        let r = WordPositionCache { entries: HashMap::new() };
        assert(r@ =~= Map::<u64, Seq<WordPosition>>::empty());
        r
    }

    /// The positions of the words of `text` at `available_width`: the cached entry under
    /// the key of the two when there is one, else freshly computed and then cached.
    pub fn word_positions(&mut self, text: &str, available_width: usize) -> (r: Vec<WordPosition>)
        ensures
            ({
                let key = DefaultHasher::spec_finish(cache_key_input(text@, available_width));
                if old(self)@.contains_key(key) {
                    &&& r@ == old(self)@[key]
                    &&& final(self)@ == old(self)@
                } else {
                    &&& r@.map_values(|p: WordPosition| p.as_tuple()) == word_positions_spec(
                        text@,
                        available_width as int,
                    )
                    &&& final(self)@ == (if old(self)@.len() > 20 {
                        Map::<u64, Seq<WordPosition>>::empty()
                    } else {
                        old(self)@
                    }).insert(key, r@)
                }
            }),
    {
        let cache_key = calculate_cache_key(text, available_width);
        match self.entries.get(&cache_key) {
            Some(cached) => {
                let r = cached.clone();
                assert(r@ =~= cached@);
                return r;
            },
            None => {},
        }
        let positions = _calculate_positions(text, available_width);
        let ghost before = self.entries@;
        assert(self@.len() == before.len()) by {
            assert(before.dom() =~= self@.dom());
        }
        if self.entries.len() > 20 {
            self.entries.clear();
        }
        let copy = positions.clone();
        assert(copy@ =~= positions@);
        self.entries.insert(cache_key, copy);
        assert(self@ =~= (if before.len() > 20 {
            Map::<u64, Seq<WordPosition>>::empty()
        } else {
            before.map_values(|v: Vec<WordPosition>| v@)
        }).insert(cache_key, positions@));
        positions
    }
}

/// Places the words of `text` line by line in an area `available_width` columns wide.
pub fn calculate_word_positions(text: &str, available_width: usize) -> (r: Vec<WordPosition>)
    ensures
        r@.map_values(|p: WordPosition| p.as_tuple()) == word_positions_spec(
            text@,
            available_width as int,
        ),
{
    _calculate_positions(text, available_width)
}

/// The largest part of `parent` of at most `width` by `height` cells, centered in it.
pub open spec fn center_div_spec(width: u16, height: u16, parent: Rect) -> Rect {
    let w = if width < parent.width { width } else { parent.width };
    let h = if height < parent.height { height } else { parent.height };
    let x = parent.x + (parent.width - w) / 2;
    let y = parent.y + (parent.height - h) / 2;
    let max_w = u16::MAX - x;
    let max_h = u16::MAX - y;
    Rect {
        x: x as u16,
        y: y as u16,
        width: (if w > max_w { max_w } else { w as int }) as u16,
        height: (if h > max_h { max_h } else { h as int }) as u16,
    }
}

/// Whether the centered box's corner of `center_div_spec` fits in `u16`.
pub open spec fn center_div_fits(width: u16, height: u16, parent: Rect) -> bool {
    let w = if width < parent.width { width } else { parent.width };
    let h = if height < parent.height { height } else { parent.height };
    parent.x + (parent.width - w) / 2 <= u16::MAX && parent.y + (parent.height - h) / 2
        <= u16::MAX
}

/// Centers a box of at most `width` by `height` cells in `parent`.
pub fn center_div(width: u16, height: u16, parent: Rect) -> (r: Rect)
    requires
        center_div_fits(width, height, parent),
    ensures
        r == center_div_spec(width, height, parent),
{
    let parent_w = parent.width;
    let parent_h = parent.height;
    let width = if width < parent_w { width } else { parent_w };
    let height = if height < parent_h { height } else { parent_h };
    let x = parent.x + (parent_w - width) / 2;
    let y = parent.y + (parent_h - height) / 2;
    Rect::new(x, y, width, height)
}

/// Shape of a placement: one position per word; each word begins a line or ends within the
/// width; lines never decrease from one word to the next.
pub proof fn lemma_placements_shape(sp: Seq<(int, int)>, width: int, count: int)
    requires
        width > 0,
        forall|i: int| 0 <= i < sp.len() ==> sp[i].0 < sp[i].1,
    ensures
        placements(sp, width, count).len() == sp.len(),
        forall|k: int|
            0 <= k < sp.len() ==> #[trigger] placements(sp, width, count)[k].0 == sp[k].0,
        forall|k: int|
            0 <= k < sp.len() ==> #[trigger] placements(sp, width, count)[k].2 == 0 || placements(
                sp,
                width,
                count,
            )[k].2 + (sp[k].1 - sp[k].0) <= width,
        forall|j: int, k: int|
            0 <= j < k < sp.len() ==> #[trigger] placements(sp, width, count)[j].1
                <= #[trigger] placements(sp, width, count)[k].1,
        forall|k: int|
            0 <= k < sp.len() ==> #[trigger] placements(sp, width, count)[k].1 <= state_after(
                sp,
                width,
                count,
            ).0,
        forall|k: int| 0 <= k < sp.len() ==> #[trigger] placements(sp, width, count)[k].2 >= 0,
        state_after(sp, width, count).1 >= 0,
    decreases sp.len(),
{
    if sp.len() > 0 {
        let prefix = sp.drop_last();
        lemma_placements_shape(prefix, width, count);
        let p = placements(sp, width, count);
        let pp = placements(prefix, width, count);
        assert forall|k: int| 0 <= k < prefix.len() implies p[k] == pp[k] && sp[k] == prefix[k] by {}
    }
}

/// Law: every word of `text` gets a position at its own offset in the text; each word
/// begins a line or ends within the width; offsets strictly increase and lines never
/// decrease along the text.
pub proof fn lemma_word_positions_shape(text: Seq<char>, width: int)
    requires
        width > 0,
    ensures
        ({
            let p = word_positions_spec(text, width);
            let sp = word_spans(text);
            &&& p.len() == sp.len()
            &&& forall|k: int| 0 <= k < p.len() ==> #[trigger] p[k].0 == sp[k].0
            &&& forall|k: int|
                0 <= k < p.len() ==> #[trigger] p[k].2 == 0 || p[k].2 + (sp[k].1 - sp[k].0) <= width
            &&& forall|j: int, k: int|
                0 <= j < k < p.len() ==> #[trigger] p[j].0 < #[trigger] p[k].0 && p[j].1 <= p[k].1
        }),
{
    crate::text::lemma_word_spans_ordered(text);
    let sp = word_spans(text);
    lemma_placements_shape(sp, width, sp.len() as int);
    if text.len() == 0 {
        assert(sp =~= Seq::<(int, int)>::empty());
    }
    let p = word_positions_spec(text, width);
    assert forall|j: int, k: int| 0 <= j < k < p.len() implies #[trigger] p[j].0 < #[trigger] p[k].0 by {
        assert(sp[j].1 < sp[k].0);
        assert(sp[j].0 < sp[j].1);
    }
}

/// The middle part of `area` when split horizontally (by ratatui's layout solver) into
/// margins and a part `width_percent` percent wide (see `centered_part`).
pub fn apply_horizontal_centering(area: Rect, width_percent: u16) -> (r: Rect)
    requires
        width_percent <= 100,
    ensures
        r == crate::ui::utils::centered_part(area, width_percent),
{
    crate::ui::utils::apply_horizontal_centering(area, width_percent)
}

} // verus!
