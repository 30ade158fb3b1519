//! How each char of the target text is styled on the typing area.

use vstd::prelude::*;

verus! {

/// A char of the target text with what the test knows of it.
#[derive(Debug, Clone, Copy, PartialEq, Eq, Structural)]
pub struct TokenView {
    pub target: char,
    pub is_wrong: bool,
    pub is_skipped: bool,
    /// Typed past the end of its word.
    pub is_extra: bool,
}

/// The colour of a char.
#[derive(Debug, Clone, Copy, PartialEq, Eq, Structural)]
pub enum TokenColor {
    /// The foreground colour.
    Fg,
    /// Typed right.
    Success,
    /// Typed wrong.
    Error,
}

/// The style of a char: colour, dimmed, underlined in the error colour.
#[derive(Debug, Clone, Copy, PartialEq, Eq, Structural)]
pub struct TokenStyle {
    pub color: TokenColor,
    pub dim: bool,
    pub underlined: bool,
}

/// The word a char belongs to: the spaces up to and including it.
pub open spec fn word_index(tokens: Seq<TokenView>, i: int) -> int
    decreases i + 1,
{
    if i < 0 {
        0
    } else {
        word_index(tokens, i - 1) + (if tokens[i].target == ' ' { 1int } else { 0int })
    }
}

/// Whether word `w` was typed wrong: `wrong_words[w]`, words past its end counting as right.
pub open spec fn word_wrong(wrong_words: Seq<bool>, w: int) -> bool {
    0 <= w < wrong_words.len() && wrong_words[w]
}

/// The style of char `i`: skipped and upcoming chars in the foreground colour, typed ones in
/// the success or error colour; skipped, upcoming and extra chars dimmed; and the chars other
/// than spaces of a word before the current one that was typed wrong underlined.
pub open spec fn token_style_spec(
    tokens: Seq<TokenView>,
    i: int,
    current_pos: int,
    current_word: int,
    wrong_words: Seq<bool>,
) -> TokenStyle {
    let t = tokens[i];
    let w = word_index(tokens, i);
    let past_wrong = w < current_word && word_wrong(wrong_words, w);
    TokenStyle {
        color: if t.is_skipped {
            TokenColor::Fg
        } else if i < current_pos {
            if t.is_wrong {
                TokenColor::Error
            } else {
                TokenColor::Success
            }
        } else {
            TokenColor::Fg
        },
        dim: t.is_skipped || i >= current_pos || t.is_extra,
        underlined: past_wrong && t.target != ' ',
    }
}

/// The style of each char of the target text, the cursor at `current_pos` in word
/// `current_word`, `wrong_words` telling which words were typed wrong.
pub fn target_token_styles(
    tokens: &[TokenView],
    current_pos: usize,
    current_word: usize,
    wrong_words: &[bool],
) -> (r: Vec<TokenStyle>)
    ensures
        r@.len() == tokens@.len(),
        forall|i: int|
            0 <= i < tokens@.len() ==> #[trigger] r@[i] == token_style_spec(
                tokens@,
                i,
                current_pos as int,
                current_word as int,
                wrong_words@,
            ),
        forall|i: int|
            0 <= i < tokens@.len() && word_index(tokens@, i) >= current_word ==> !(#[trigger] r@[i]).underlined,
        forall|i: int| 0 <= i < tokens@.len() && tokens@[i].target == ' ' ==> !(#[trigger] r@[i]).underlined,
        forall|i: int|
            0 <= i < tokens@.len() && i >= current_pos ==> (#[trigger] r@[i]).dim && r@[i].color == TokenColor::Fg,
        forall|i: int|
            0 <= i < tokens@.len() && (#[trigger] r@[i]).color == TokenColor::Error ==> i < current_pos
                && tokens@[i].is_wrong && !tokens@[i].is_skipped,
        forall|i: int|
            0 <= i < tokens@.len() && i < current_pos && !tokens@[i].is_skipped && !tokens@[i].is_wrong
                ==> (#[trigger] r@[i]).color == TokenColor::Success,
        forall|i: int|
            0 <= i < tokens@.len() && (tokens@[i].is_skipped || tokens@[i].is_extra) ==> (#[trigger] r@[i]).dim,
        forall|i: int|
            0 <= i < tokens@.len() && i < current_pos && !tokens@[i].is_skipped && !tokens@[i].is_extra
                ==> !(#[trigger] r@[i]).dim,
        forall|i: int|
            0 <= i < tokens@.len() && word_index(tokens@, i) < current_word && word_wrong(
                wrong_words@,
                word_index(tokens@, i),
            ) && tokens@[i].target != ' ' ==> (#[trigger] r@[i]).underlined,
{
    let mut styles: Vec<TokenStyle> = Vec::new();
    let mut word: usize = 0;
    let mut i: usize = 0;
    while i < tokens.len()
        invariant
            i <= tokens@.len(),
            styles@.len() == i,
            word == word_index(tokens@, i - 1),
            word <= i,
            forall|k: int|
                0 <= k < i ==> #[trigger] styles@[k] == token_style_spec(
                    tokens@,
                    k,
                    current_pos as int,
                    current_word as int,
                    wrong_words@,
                ),
        decreases tokens.len() - i,
    {
        let t = tokens[i];
        if t.target == ' ' {
            word = word + 1;
        }
        let past_wrong = word < current_word && word < wrong_words.len() && wrong_words[word];
        let color = if t.is_skipped {
            TokenColor::Fg
        } else if i < current_pos {
            if t.is_wrong {
                TokenColor::Error
            } else {
                TokenColor::Success
            }
        } else {
            TokenColor::Fg
        };
        let style = TokenStyle {
            color,
            dim: t.is_skipped || i >= current_pos || t.is_extra,
            underlined: past_wrong && t.target != ' ',
        };
        let ghost before = styles@;
        styles.push(style);
        assert forall|k: int| 0 <= k < i + 1 implies #[trigger] styles@[k] == token_style_spec(
            tokens@,
            k,
            current_pos as int,
            current_word as int,
            wrong_words@,
        ) by {
            if k < i {
                assert(styles@[k] == before[k]);
            }
        }
        i += 1;
    }
    styles
}

/// Law: only the words the cursor has left are underlined. A char of the word being typed,
/// or of a word still ahead, is never underlined, whatever was typed; a char of a word the
/// cursor has left is underlined exactly when that word was typed wrong and the char is not
/// a space.
pub proof fn lemma_underline_only_left_words(
    tokens: Seq<TokenView>,
    i: int,
    current_pos: int,
    current_word: int,
    wrong_words: Seq<bool>,
)
    requires
        0 <= i < tokens.len(),
    ensures
        word_index(tokens, i) >= current_word ==> !token_style_spec(
            tokens,
            i,
            current_pos,
            current_word,
            wrong_words,
        ).underlined,
        word_index(tokens, i) < current_word ==> (token_style_spec(
            tokens,
            i,
            current_pos,
            current_word,
            wrong_words,
        ).underlined <==> (0 <= word_index(tokens, i) < wrong_words.len() && wrong_words[word_index(tokens, i)]
            && tokens[i].target != ' ')),
{
}

/// Law: moving the cursor on to later words never takes an underline away: a char
/// underlined with the cursor in word `w1` stays underlined with the cursor in any later
/// word `w2`, and a char not underlined in `w2` was not underlined in `w1`.
pub proof fn lemma_underlines_grow_with_words(
    tokens: Seq<TokenView>,
    i: int,
    pos1: int,
    pos2: int,
    w1: int,
    w2: int,
    wrong_words: Seq<bool>,
)
    requires
        0 <= i < tokens.len(),
        w1 <= w2,
    ensures
        token_style_spec(tokens, i, pos1, w1, wrong_words).underlined ==> token_style_spec(
            tokens,
            i,
            pos2,
            w2,
            wrong_words,
        ).underlined,
{
}

} // verus!
