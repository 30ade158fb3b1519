//! The selectable style variants: cursor shape, picker placement and results view.

use vstd::prelude::*;

verus! {

/// Hands out the error value that the `FromStr` impls below report.
///
/// Trusted: constructs `std::fmt::Error` (a unit struct); nothing is claimed of it.
#[verifier::external_body]
fn parse_error() -> std::fmt::Error {
    std::fmt::Error
}

#[verifier::external_type_specification]
#[verifier::external_body]
pub struct ExFmtError(std::fmt::Error);

/// The lower-case form of a string, as `str::to_lowercase` computes it
/// (Unicode `Lowercase` mapping).
pub uninterp spec fn lowercase_of(s: Seq<char>) -> Seq<char>;

/// Whether every char of `s` is ASCII.
pub open spec fn is_ascii_text(s: Seq<char>) -> bool {
    forall|i: int| 0 <= i < s.len() ==> (#[trigger] s[i]) as u32 <= 0x7f
}

/// An ASCII upper-case letter made lower case; any other char unchanged.
pub open spec fn ascii_lower_char(c: char) -> char {
    if 'A' <= c && c <= 'Z' {
        ((c as u32) + 32) as char
    } else {
        c
    }
}

/// An ASCII lower-case letter made upper case; any other char unchanged.
pub open spec fn ascii_upper_char(c: char) -> char {
    if 'a' <= c && c <= 'z' {
        ((c as u32) - 32) as char
    } else {
        c
    }
}

/// `s` with its ASCII letters made lower case, char by char.
pub open spec fn ascii_lower(s: Seq<char>) -> Seq<char> {
    s.map_values(|c: char| ascii_lower_char(c))
}

/// `s` with its ASCII letters made upper case, char by char.
pub open spec fn ascii_upper(s: Seq<char>) -> Seq<char> {
    s.map_values(|c: char| ascii_upper_char(c))
}

/// Calls `str::to_lowercase`; the result is named by `lowercase_of`. Claims further, as
/// std's documentation gives it (the Unicode lower-case mapping, which on ASCII maps 'A'
/// to 'Z' to 'a' to 'z' and keeps every other char): ASCII text is lower-cased char by
/// char.
#[verifier::external_body]
fn to_lowercase(s: &str) -> (r: String)
    ensures
        r@ == lowercase_of(s@),
        is_ascii_text(s@) ==> r@ == ascii_lower(s@),
{
    s.to_lowercase()
}

/// Equality of a string with a string literal, char by char.
pub fn str_equals(a: &str, b: &str) -> (r: bool)
    ensures
        r == (a@ == b@),
{
    let va = crate::text::chars_of(a);
    let vb = crate::text::chars_of(b);
    if va.len() != vb.len() {
        return false;
    }
    let mut i: usize = 0;
    while i < va.len()
        invariant
            va@ == a@,
            vb@ == b@,
            va.len() == vb.len(),
            i <= va.len(),
            forall|j: int| 0 <= j < i ==> va@[j] == vb@[j],
        decreases va.len() - i,
    {
        if va[i] != vb[i] {
            return false;
        }
        i += 1;
    }
    assert(va@ =~= vb@);
    true
}

// ========== CURSOR VARIANTS ==========

/// Represents different cursor styles available.
#[derive(Debug, Clone, Copy, PartialEq, Eq, Structural)]
pub enum CursorVariant {
    /// A solid block cursor.
    Block,
    /// A vertical beam cursor (default).
    Beam,
    /// An underline cursor.
    Underline,
    /// A blinking vertical beam cursor.
    BlinkingBeam,
    /// A blinking solid block cursor.
    BlinkingBlock,
    /// A blinking underline cursor.
    BlinkingUnderline,
}

impl Default for CursorVariant {
    fn default() -> (r: Self)
        ensures
            r == CursorVariant::Beam,
    {
        CursorVariant::Beam
    }
}

impl CursorVariant {
    /// The identifier of each variant, as used in configuration and on the command line.
    pub open spec fn spec_value(self) -> Seq<char> {
        match self {
            CursorVariant::Beam => "beam"@,
            CursorVariant::Block => "block"@,
            CursorVariant::Underline => "underline"@,
            CursorVariant::BlinkingBeam => "blinking-beam"@,
            CursorVariant::BlinkingBlock => "blinking-block"@,
            CursorVariant::BlinkingUnderline => "blinking-underline"@,
        }
    }

    /// The human readable name of each variant.
    pub open spec fn spec_label(self) -> Seq<char> {
        match self {
            CursorVariant::Beam => "Beam"@,
            CursorVariant::Block => "Block"@,
            CursorVariant::Underline => "Underline"@,
            CursorVariant::BlinkingBeam => "Blinking Beam"@,
            CursorVariant::BlinkingBlock => "Blinking Block"@,
            CursorVariant::BlinkingUnderline => "Blinking Underline"@,
        }
    }

    /// Every variant, in menu order.
    pub open spec fn spec_all() -> Seq<CursorVariant> {
        seq![
            CursorVariant::Beam,
            CursorVariant::Block,
            CursorVariant::Underline,
            CursorVariant::BlinkingBeam,
            CursorVariant::BlinkingBlock,
            CursorVariant::BlinkingUnderline,
        ]
    }

    /// The variant that a lower-cased identifier names, if any.
    pub open spec fn spec_from_lower(lower: Seq<char>) -> Option<CursorVariant> {
        if lower == "beam"@ {
            Some(CursorVariant::Beam)
        } else if lower == "block"@ {
            Some(CursorVariant::Block)
        } else if lower == "underline"@ {
            Some(CursorVariant::Underline)
        } else if lower == "blinking-beam"@ {
            Some(CursorVariant::BlinkingBeam)
        } else if lower == "blinking-block"@ {
            Some(CursorVariant::BlinkingBlock)
        } else if lower == "blinking-underline"@ {
            Some(CursorVariant::BlinkingUnderline)
        } else {
            None
        }
    }

    pub fn all() -> (r: Vec<Self>)
        ensures
            r@ == Self::spec_all(),
    {
        let r = vec![
            CursorVariant::Beam,
            CursorVariant::Block,
            CursorVariant::Underline,
            CursorVariant::BlinkingBeam,
            CursorVariant::BlinkingBlock,
            CursorVariant::BlinkingUnderline,
        ];
        assert(r@ =~= Self::spec_all());
        r
    }

    pub fn name() -> (r: &'static str)
        ensures
            r@ == "cursor"@,
    {
        "cursor"
    }

    pub fn value(&self) -> (r: &'static str)
        ensures
            r@ == self.spec_value(),
    {
        match self {
            CursorVariant::Beam => "beam",
            CursorVariant::Block => "block",
            CursorVariant::Underline => "underline",
            CursorVariant::BlinkingBeam => "blinking-beam",
            CursorVariant::BlinkingBlock => "blinking-block",
            CursorVariant::BlinkingUnderline => "blinking-underline",
        }
    }

    pub fn label(&self) -> (r: &'static str)
        ensures
            r@ == self.spec_label(),
    {
        match self {
            CursorVariant::Beam => "Beam",
            CursorVariant::Block => "Block",
            CursorVariant::Underline => "Underline",
            CursorVariant::BlinkingBeam => "Blinking Beam",
            CursorVariant::BlinkingBlock => "Blinking Block",
            CursorVariant::BlinkingUnderline => "Blinking Underline",
        }
    }

    /// Picks the variant named by an already lower-cased identifier.
    pub fn from_lowercase(lower: &str) -> (r: Result<Self, std::fmt::Error>)
        ensures
            r is Ok <==> Self::spec_from_lower(lower@) is Some,
            r matches Ok(v) ==> Self::spec_from_lower(lower@) == Some(v),
    {
        if str_equals(lower, "beam") {
            Ok(CursorVariant::Beam)
        } else if str_equals(lower, "block") {
            Ok(CursorVariant::Block)
        } else if str_equals(lower, "underline") {
            Ok(CursorVariant::Underline)
        } else if str_equals(lower, "blinking-beam") {
            Ok(CursorVariant::BlinkingBeam)
        } else if str_equals(lower, "blinking-block") {
            Ok(CursorVariant::BlinkingBlock)
        } else if str_equals(lower, "blinking-underline") {
            Ok(CursorVariant::BlinkingUnderline)
        } else {
            Err(parse_error())
        }
    }

    /// Parses an identifier case-insensitively.
    pub fn parse(s: &str) -> (r: Result<Self, std::fmt::Error>)
        ensures
            r is Ok <==> Self::spec_from_lower(lowercase_of(s@)) is Some,
            r matches Ok(v) ==> Self::spec_from_lower(lowercase_of(s@)) == Some(v),
            is_ascii_text(s@) ==> (r is Ok <==> Self::spec_from_lower(ascii_lower(s@)) is Some),
            is_ascii_text(s@) ==> (r matches Ok(v) ==> Self::spec_from_lower(ascii_lower(s@))
                == Some(v)),
    {
        let lower = to_lowercase(s);
        Self::from_lowercase(lower.as_str())
    }
}

impl std::str::FromStr for CursorVariant {
    type Err = std::fmt::Error;

    fn from_str(s: &str) -> (r: Result<Self, Self::Err>)
        ensures
            r is Ok <==> Self::spec_from_lower(lowercase_of(s@)) is Some,
            r matches Ok(v) ==> Self::spec_from_lower(lowercase_of(s@)) == Some(v),
            is_ascii_text(s@) ==> (r is Ok <==> Self::spec_from_lower(ascii_lower(s@)) is Some),
            is_ascii_text(s@) ==> (r matches Ok(v) ==> Self::spec_from_lower(ascii_lower(s@))
                == Some(v)),
    {
        Self::parse(s)
    }
}


// ========== PICKER VARIANTS ==========

/// Represents different picker styles for selecting items.
#[derive(Debug, Clone, Copy, PartialEq, Eq, Structural)]
pub enum PickerVariant {
    /// Floating menu (default).
    Telescope,
    /// Opens from the top, quake terminal style.
    Quake,
    /// Opens from the bottom.
    Ivy,
    /// Telescope style picker without footer and preview folds.
    Minimal,
}

impl Default for PickerVariant {
    fn default() -> (r: Self)
        ensures
            r == PickerVariant::Telescope,
    {
        PickerVariant::Telescope
    }
}

impl PickerVariant {
    pub open spec fn spec_value(self) -> Seq<char> {
        match self {
            PickerVariant::Quake => "quake"@,
            PickerVariant::Telescope => "telescope"@,
            PickerVariant::Ivy => "ivy"@,
            PickerVariant::Minimal => "minimal"@,
        }
    }

    pub open spec fn spec_label(self) -> Seq<char> {
        match self {
            PickerVariant::Quake => "Quake"@,
            PickerVariant::Telescope => "Telescope"@,
            PickerVariant::Ivy => "Ivy"@,
            PickerVariant::Minimal => "Minimal"@,
        }
    }

    pub open spec fn spec_all() -> Seq<PickerVariant> {
        seq![
            PickerVariant::Quake,
            PickerVariant::Telescope,
            PickerVariant::Ivy,
            PickerVariant::Minimal,
        ]
    }

    pub open spec fn spec_from_lower(lower: Seq<char>) -> Option<PickerVariant> {
        if lower == "quake"@ {
            Some(PickerVariant::Quake)
        } else if lower == "telescope"@ {
            Some(PickerVariant::Telescope)
        } else if lower == "ivy"@ {
            Some(PickerVariant::Ivy)
        } else if lower == "minimal"@ {
            Some(PickerVariant::Minimal)
        } else {
            None
        }
    }

    pub fn all() -> (r: Vec<Self>)
        ensures
            r@ == Self::spec_all(),
    {
        let r = vec![
            PickerVariant::Quake,
            PickerVariant::Telescope,
            PickerVariant::Ivy,
            PickerVariant::Minimal,
        ];
        assert(r@ =~= Self::spec_all());
        r
    }

    pub fn name() -> (r: &'static str)
        ensures
            r@ == "picker"@,
    {
        "picker"
    }

    pub fn value(&self) -> (r: &'static str)
        ensures
            r@ == self.spec_value(),
    {
        match self {
            PickerVariant::Quake => "quake",
            PickerVariant::Telescope => "telescope",
            PickerVariant::Ivy => "ivy",
            PickerVariant::Minimal => "minimal",
        }
    }

    pub fn label(&self) -> (r: &'static str)
        ensures
            r@ == self.spec_label(),
    {
        match self {
            PickerVariant::Quake => "Quake",
            PickerVariant::Telescope => "Telescope",
            PickerVariant::Ivy => "Ivy",
            PickerVariant::Minimal => "Minimal",
        }
    }

    /// Picks the variant named by an already lower-cased identifier.
    pub fn from_lowercase(lower: &str) -> (r: Result<Self, std::fmt::Error>)
        ensures
            r is Ok <==> Self::spec_from_lower(lower@) is Some,
            r matches Ok(v) ==> Self::spec_from_lower(lower@) == Some(v),
    {
        if str_equals(lower, "quake") {
            Ok(PickerVariant::Quake)
        } else if str_equals(lower, "telescope") {
            Ok(PickerVariant::Telescope)
        } else if str_equals(lower, "ivy") {
            Ok(PickerVariant::Ivy)
        } else if str_equals(lower, "minimal") {
            Ok(PickerVariant::Minimal)
        } else {
            Err(parse_error())
        }
    }

    /// Parses an identifier case-insensitively.
    pub fn parse(s: &str) -> (r: Result<Self, std::fmt::Error>)
        ensures
            r is Ok <==> Self::spec_from_lower(lowercase_of(s@)) is Some,
            r matches Ok(v) ==> Self::spec_from_lower(lowercase_of(s@)) == Some(v),
            is_ascii_text(s@) ==> (r is Ok <==> Self::spec_from_lower(ascii_lower(s@)) is Some),
            is_ascii_text(s@) ==> (r matches Ok(v) ==> Self::spec_from_lower(ascii_lower(s@))
                == Some(v)),
    {
        let lower = to_lowercase(s);
        Self::from_lowercase(lower.as_str())
    }
}

impl std::str::FromStr for PickerVariant {
    type Err = std::fmt::Error;

    fn from_str(s: &str) -> (r: Result<Self, Self::Err>)
        ensures
            r is Ok <==> Self::spec_from_lower(lowercase_of(s@)) is Some,
            r matches Ok(v) ==> Self::spec_from_lower(lowercase_of(s@)) == Some(v),
            is_ascii_text(s@) ==> (r is Ok <==> Self::spec_from_lower(ascii_lower(s@)) is Some),
            is_ascii_text(s@) ==> (r matches Ok(v) ==> Self::spec_from_lower(ascii_lower(s@))
                == Some(v)),
    {
        Self::parse(s)
    }
}

// ========== RESULTS VARIANTS ==========

/// Represents different styles for displaying results.
#[derive(Debug, Clone, Copy, PartialEq, Eq, Structural)]
pub enum ResultsVariant {
    /// Minimal text display.
    Minimal,
    /// Graphical display style (default).
    Graph,
    /// Neofetch-style display.
    Neofetch,
}

impl Default for ResultsVariant {
    fn default() -> (r: Self)
        ensures
            r == ResultsVariant::Graph,
    {
        ResultsVariant::Graph
    }
}

impl ResultsVariant {
    pub open spec fn spec_value(self) -> Seq<char> {
        match self {
            ResultsVariant::Graph => "graph"@,
            ResultsVariant::Neofetch => "neofetch"@,
            ResultsVariant::Minimal => "minimal"@,
        }
    }

    pub open spec fn spec_label(self) -> Seq<char> {
        match self {
            ResultsVariant::Graph => "Graph"@,
            ResultsVariant::Neofetch => "Neofetch"@,
            ResultsVariant::Minimal => "Minimal"@,
        }
    }

    pub open spec fn spec_all() -> Seq<ResultsVariant> {
        seq![ResultsVariant::Graph, ResultsVariant::Neofetch, ResultsVariant::Minimal]
    }

    pub open spec fn spec_from_lower(lower: Seq<char>) -> Option<ResultsVariant> {
        if lower == "graph"@ {
            Some(ResultsVariant::Graph)
        } else if lower == "neofetch"@ {
            Some(ResultsVariant::Neofetch)
        } else if lower == "minimal"@ {
            Some(ResultsVariant::Minimal)
        } else {
            None
        }
    }

    pub fn all() -> (r: Vec<Self>)
        ensures
            r@ == Self::spec_all(),
    {
        let r = vec![ResultsVariant::Graph, ResultsVariant::Neofetch, ResultsVariant::Minimal];
        assert(r@ =~= Self::spec_all());
        r
    }

    pub fn name() -> (r: &'static str)
        ensures
            r@ == "results"@,
    {
        "results"
    }

    pub fn value(&self) -> (r: &'static str)
        ensures
            r@ == self.spec_value(),
    {
        match self {
            ResultsVariant::Graph => "graph",
            ResultsVariant::Neofetch => "neofetch",
            ResultsVariant::Minimal => "minimal",
        }
    }

    pub fn label(&self) -> (r: &'static str)
        ensures
            r@ == self.spec_label(),
    {
        match self {
            ResultsVariant::Graph => "Graph",
            ResultsVariant::Neofetch => "Neofetch",
            ResultsVariant::Minimal => "Minimal",
        }
    }

    /// Picks the variant named by an already lower-cased identifier.
    pub fn from_lowercase(lower: &str) -> (r: Result<Self, std::fmt::Error>)
        ensures
            r is Ok <==> Self::spec_from_lower(lower@) is Some,
            r matches Ok(v) ==> Self::spec_from_lower(lower@) == Some(v),
    {
        if str_equals(lower, "graph") {
            Ok(ResultsVariant::Graph)
        } else if str_equals(lower, "neofetch") {
            Ok(ResultsVariant::Neofetch)
        } else if str_equals(lower, "minimal") {
            Ok(ResultsVariant::Minimal)
        } else {
            Err(parse_error())
        }
    }

    /// Parses an identifier case-insensitively.
    pub fn parse(s: &str) -> (r: Result<Self, std::fmt::Error>)
        ensures
            r is Ok <==> Self::spec_from_lower(lowercase_of(s@)) is Some,
            r matches Ok(v) ==> Self::spec_from_lower(lowercase_of(s@)) == Some(v),
            is_ascii_text(s@) ==> (r is Ok <==> Self::spec_from_lower(ascii_lower(s@)) is Some),
            is_ascii_text(s@) ==> (r matches Ok(v) ==> Self::spec_from_lower(ascii_lower(s@))
                == Some(v)),
    {
        let lower = to_lowercase(s);
        Self::from_lowercase(lower.as_str())
    }
}

impl std::str::FromStr for ResultsVariant {
    type Err = std::fmt::Error;

    fn from_str(s: &str) -> (r: Result<Self, Self::Err>)
        ensures
            r is Ok <==> Self::spec_from_lower(lowercase_of(s@)) is Some,
            r matches Ok(v) ==> Self::spec_from_lower(lowercase_of(s@)) == Some(v),
            is_ascii_text(s@) ==> (r is Ok <==> Self::spec_from_lower(ascii_lower(s@)) is Some),
            is_ascii_text(s@) ==> (r matches Ok(v) ==> Self::spec_from_lower(ascii_lower(s@))
                == Some(v)),
    {
        Self::parse(s)
    }
}

/// Whether `s` is made of lower-case ASCII letters and hyphens only.
pub open spec fn is_identifier_text(s: Seq<char>) -> bool {
    forall|i: int| 0 <= i < s.len() ==> ('a' <= #[trigger] s[i] && s[i] <= 'z') || s[i] == '-'
}

/// An identifier is ASCII text that lower-casing keeps, and so is its upper-case form,
/// which lower-casing turns back into the identifier.
pub proof fn lemma_identifier_case_round_trip(s: Seq<char>)
    requires
        is_identifier_text(s),
    ensures
        is_ascii_text(s),
        ascii_lower(s) == s,
        is_ascii_text(ascii_upper(s)),
        ascii_lower(ascii_upper(s)) == s,
{
    assert forall|i: int| 0 <= i < s.len() implies (#[trigger] s[i]) as u32 <= 0x7f by {
        assert(('a' <= s[i] && s[i] <= 'z') || s[i] == '-');
    }
    assert(ascii_lower(s) =~= s);
    let u = ascii_upper(s);
    assert forall|i: int| 0 <= i < u.len() implies (#[trigger] u[i]) as u32 <= 0x7f by {
        assert(('a' <= s[i] && s[i] <= 'z') || s[i] == '-');
    }
    assert forall|i: int| 0 <= i < s.len() implies #[trigger] ascii_lower(u)[i] == s[i] by {
        assert(('a' <= s[i] && s[i] <= 'z') || s[i] == '-');
        if 'a' <= s[i] && s[i] <= 'z' {
            assert(u[i] as u32 == s[i] as u32 - 32);
        }
    }
    assert(ascii_lower(u) =~= s);
}

/// Law: the identifier of every cursor variant names that variant again; it is ASCII
/// text, and lower-casing it, or its upper-case form, gives it back, so parsing either
/// (see `CursorVariant::parse`) gives the variant.
pub proof fn lemma_cursor_value_names_variant(v: CursorVariant)
    ensures
        CursorVariant::spec_from_lower(v.spec_value()) == Some(v),
        is_ascii_text(v.spec_value()),
        CursorVariant::spec_from_lower(ascii_lower(v.spec_value())) == Some(v),
        is_ascii_text(ascii_upper(v.spec_value())),
        CursorVariant::spec_from_lower(ascii_lower(ascii_upper(v.spec_value()))) == Some(v),
{
    reveal_strlit("beam");
    reveal_strlit("block");
    reveal_strlit("underline");
    reveal_strlit("blinking-beam");
    reveal_strlit("blinking-block");
    reveal_strlit("blinking-underline");
    assert("beam"@.len() == 4 && "block"@.len() == 5 && "underline"@.len() == 9);
    assert("blinking-beam"@.len() == 13 && "blinking-block"@.len() == 14);
    assert("blinking-underline"@.len() == 18);
    assert(is_identifier_text(v.spec_value()));
    lemma_identifier_case_round_trip(v.spec_value());
}

/// Law: the identifier of every picker variant names that variant again; it is ASCII
/// text, and lower-casing it, or its upper-case form, gives it back, so parsing either
/// (see `PickerVariant::parse`) gives the variant.
pub proof fn lemma_picker_value_names_variant(v: PickerVariant)
    ensures
        PickerVariant::spec_from_lower(v.spec_value()) == Some(v),
        is_ascii_text(v.spec_value()),
        PickerVariant::spec_from_lower(ascii_lower(v.spec_value())) == Some(v),
        is_ascii_text(ascii_upper(v.spec_value())),
        PickerVariant::spec_from_lower(ascii_lower(ascii_upper(v.spec_value()))) == Some(v),
{
    reveal_strlit("quake");
    reveal_strlit("telescope");
    reveal_strlit("ivy");
    reveal_strlit("minimal");
    assert("quake"@.len() == 5 && "telescope"@.len() == 9 && "ivy"@.len() == 3);
    assert("minimal"@.len() == 7);
    assert(is_identifier_text(v.spec_value()));
    lemma_identifier_case_round_trip(v.spec_value());
}

/// Law: the identifier of every results variant names that variant again; it is ASCII
/// text, and lower-casing it, or its upper-case form, gives it back, so parsing either
/// (see `ResultsVariant::parse`) gives the variant.
pub proof fn lemma_results_value_names_variant(v: ResultsVariant)
    ensures
        ResultsVariant::spec_from_lower(v.spec_value()) == Some(v),
        is_ascii_text(v.spec_value()),
        ResultsVariant::spec_from_lower(ascii_lower(v.spec_value())) == Some(v),
        is_ascii_text(ascii_upper(v.spec_value())),
        ResultsVariant::spec_from_lower(ascii_lower(ascii_upper(v.spec_value()))) == Some(v),
{
    reveal_strlit("graph");
    reveal_strlit("neofetch");
    reveal_strlit("minimal");
    assert("graph"@.len() == 5 && "neofetch"@.len() == 8 && "minimal"@.len() == 7);
    assert(is_identifier_text(v.spec_value()));
    lemma_identifier_case_round_trip(v.spec_value());
}

} // verus!
