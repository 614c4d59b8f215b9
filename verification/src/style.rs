//! Styled text: attributes, attribute sets, tokens and spans.
//!
//! Everything here is an immutable value. A line is recoloured by building new
//! tokens whose attribute sets are unions of the old ones with the additions,
//! and two lines are the same line exactly when they are equal as values.

use vstd::prelude::*;

verus! {

/// One visual attribute: a foreground colour, a background colour (`On..`) or
/// a text flag.
#[derive(Clone, Copy, PartialEq, Eq, Structural, Debug)]
pub enum ColorType {
    Black,
    Red,
    Green,
    Yellow,
    Blue,
    Magenta,
    Cyan,
    White,
    BrightBlack,
    BrightRed,
    BrightGreen,
    BrightYellow,
    BrightBlue,
    BrightMagenta,
    BrightCyan,
    BrightWhite,
    OnBlack,
    OnRed,
    OnGreen,
    OnYellow,
    OnBlue,
    OnMagenta,
    OnCyan,
    OnWhite,
    OnBrightBlack,
    OnBrightRed,
    OnBrightGreen,
    OnBrightYellow,
    OnBrightBlue,
    OnBrightMagenta,
    OnBrightCyan,
    OnBrightWhite,
    Bold,
    Italic,
    Underline,
    Reverse,
}

/// How many attributes there are.
pub const ATTRIBUTE_COUNT: u8 = 36;

impl ColorType {
    /// The position of the attribute in the declaration order, from 0.
    pub open spec fn ordinal(self) -> int {
        match self {
            ColorType::Black => 0,
            ColorType::Red => 1,
            ColorType::Green => 2,
            ColorType::Yellow => 3,
            ColorType::Blue => 4,
            ColorType::Magenta => 5,
            ColorType::Cyan => 6,
            ColorType::White => 7,
            ColorType::BrightBlack => 8,
            ColorType::BrightRed => 9,
            ColorType::BrightGreen => 10,
            ColorType::BrightYellow => 11,
            ColorType::BrightBlue => 12,
            ColorType::BrightMagenta => 13,
            ColorType::BrightCyan => 14,
            ColorType::BrightWhite => 15,
            ColorType::OnBlack => 16,
            ColorType::OnRed => 17,
            ColorType::OnGreen => 18,
            ColorType::OnYellow => 19,
            ColorType::OnBlue => 20,
            ColorType::OnMagenta => 21,
            ColorType::OnCyan => 22,
            ColorType::OnWhite => 23,
            ColorType::OnBrightBlack => 24,
            ColorType::OnBrightRed => 25,
            ColorType::OnBrightGreen => 26,
            ColorType::OnBrightYellow => 27,
            ColorType::OnBrightBlue => 28,
            ColorType::OnBrightMagenta => 29,
            ColorType::OnBrightCyan => 30,
            ColorType::OnBrightWhite => 31,
            ColorType::Bold => 32,
            ColorType::Italic => 33,
            ColorType::Underline => 34,
            ColorType::Reverse => 35,
        }
    }

    /// The attribute at a position of the declaration order.
    pub open spec fn at(i: int) -> ColorType {
        if i == 0 {
            ColorType::Black
        } else if i == 1 {
            ColorType::Red
        } else if i == 2 {
            ColorType::Green
        } else if i == 3 {
            ColorType::Yellow
        } else if i == 4 {
            ColorType::Blue
        } else if i == 5 {
            ColorType::Magenta
        } else if i == 6 {
            ColorType::Cyan
        } else if i == 7 {
            ColorType::White
        } else if i == 8 {
            ColorType::BrightBlack
        } else if i == 9 {
            ColorType::BrightRed
        } else if i == 10 {
            ColorType::BrightGreen
        } else if i == 11 {
            ColorType::BrightYellow
        } else if i == 12 {
            ColorType::BrightBlue
        } else if i == 13 {
            ColorType::BrightMagenta
        } else if i == 14 {
            ColorType::BrightCyan
        } else if i == 15 {
            ColorType::BrightWhite
        } else if i == 16 {
            ColorType::OnBlack
        } else if i == 17 {
            ColorType::OnRed
        } else if i == 18 {
            ColorType::OnGreen
        } else if i == 19 {
            ColorType::OnYellow
        } else if i == 20 {
            ColorType::OnBlue
        } else if i == 21 {
            ColorType::OnMagenta
        } else if i == 22 {
            ColorType::OnCyan
        } else if i == 23 {
            ColorType::OnWhite
        } else if i == 24 {
            ColorType::OnBrightBlack
        } else if i == 25 {
            ColorType::OnBrightRed
        } else if i == 26 {
            ColorType::OnBrightGreen
        } else if i == 27 {
            ColorType::OnBrightYellow
        } else if i == 28 {
            ColorType::OnBrightBlue
        } else if i == 29 {
            ColorType::OnBrightMagenta
        } else if i == 30 {
            ColorType::OnBrightCyan
        } else if i == 31 {
            ColorType::OnBrightWhite
        } else if i == 32 {
            ColorType::Bold
        } else if i == 33 {
            ColorType::Italic
        } else if i == 34 {
            ColorType::Underline
        } else {
            ColorType::Reverse
        }
    }

    /// The number that selects the attribute in an SGR control sequence.
    pub open spec fn sgr(self) -> int {
        let i = self.ordinal();
        if i < 8 {
            30 + i
        } else if i < 16 {
            90 + (i - 8)
        } else if i < 24 {
            40 + (i - 16)
        } else if i < 32 {
            100 + (i - 24)
        } else if i == 32 {
            1
        } else if i == 33 {
            3
        } else if i == 34 {
            4
        } else {
            7
        }
    }

    /// Computes [`ColorType::ordinal`].
    pub fn index(self) -> (i: u8)
        ensures
            i == self.ordinal(),
            i < ATTRIBUTE_COUNT,
    {
        match self {
            ColorType::Black => 0,
            ColorType::Red => 1,
            ColorType::Green => 2,
            ColorType::Yellow => 3,
            ColorType::Blue => 4,
            ColorType::Magenta => 5,
            ColorType::Cyan => 6,
            ColorType::White => 7,
            ColorType::BrightBlack => 8,
            ColorType::BrightRed => 9,
            ColorType::BrightGreen => 10,
            ColorType::BrightYellow => 11,
            ColorType::BrightBlue => 12,
            ColorType::BrightMagenta => 13,
            ColorType::BrightCyan => 14,
            ColorType::BrightWhite => 15,
            ColorType::OnBlack => 16,
            ColorType::OnRed => 17,
            ColorType::OnGreen => 18,
            ColorType::OnYellow => 19,
            ColorType::OnBlue => 20,
            ColorType::OnMagenta => 21,
            ColorType::OnCyan => 22,
            ColorType::OnWhite => 23,
            ColorType::OnBrightBlack => 24,
            ColorType::OnBrightRed => 25,
            ColorType::OnBrightGreen => 26,
            ColorType::OnBrightYellow => 27,
            ColorType::OnBrightBlue => 28,
            ColorType::OnBrightMagenta => 29,
            ColorType::OnBrightCyan => 30,
            ColorType::OnBrightWhite => 31,
            ColorType::Bold => 32,
            ColorType::Italic => 33,
            ColorType::Underline => 34,
            ColorType::Reverse => 35,
        }
    }

    /// The attribute with the given ordinal, if there is one.
    pub fn from_index(i: u8) -> (r: Option<ColorType>)
        ensures
            i < ATTRIBUTE_COUNT ==> r == Some(ColorType::at(i as int)),
            i >= ATTRIBUTE_COUNT ==> r is None,
            r matches Some(a) ==> a.ordinal() == i,
    {
        if i >= ATTRIBUTE_COUNT {
            return None;
        }
        let a = if i < 8 {
            if i == 0 {
                ColorType::Black
            } else if i == 1 {
                ColorType::Red
            } else if i == 2 {
                ColorType::Green
            } else if i == 3 {
                ColorType::Yellow
            } else if i == 4 {
                ColorType::Blue
            } else if i == 5 {
                ColorType::Magenta
            } else if i == 6 {
                ColorType::Cyan
            } else {
                ColorType::White
            }
        } else if i < 16 {
            if i == 8 {
                ColorType::BrightBlack
            } else if i == 9 {
                ColorType::BrightRed
            } else if i == 10 {
                ColorType::BrightGreen
            } else if i == 11 {
                ColorType::BrightYellow
            } else if i == 12 {
                ColorType::BrightBlue
            } else if i == 13 {
                ColorType::BrightMagenta
            } else if i == 14 {
                ColorType::BrightCyan
            } else {
                ColorType::BrightWhite
            }
        } else if i < 24 {
            if i == 16 {
                ColorType::OnBlack
            } else if i == 17 {
                ColorType::OnRed
            } else if i == 18 {
                ColorType::OnGreen
            } else if i == 19 {
                ColorType::OnYellow
            } else if i == 20 {
                ColorType::OnBlue
            } else if i == 21 {
                ColorType::OnMagenta
            } else if i == 22 {
                ColorType::OnCyan
            } else {
                ColorType::OnWhite
            }
        } else if i < 32 {
            if i == 24 {
                ColorType::OnBrightBlack
            } else if i == 25 {
                ColorType::OnBrightRed
            } else if i == 26 {
                ColorType::OnBrightGreen
            } else if i == 27 {
                ColorType::OnBrightYellow
            } else if i == 28 {
                ColorType::OnBrightBlue
            } else if i == 29 {
                ColorType::OnBrightMagenta
            } else if i == 30 {
                ColorType::OnBrightCyan
            } else {
                ColorType::OnBrightWhite
            }
        } else if i == 32 {
            ColorType::Bold
        } else if i == 33 {
            ColorType::Italic
        } else if i == 34 {
            ColorType::Underline
        } else {
            ColorType::Reverse
        };
        Some(a)
    }

    /// Computes [`ColorType::sgr`].
    pub fn sgr_code(self) -> (code: u8)
        ensures
            code == self.sgr(),
    {
        let i = self.index();
        if i < 8 {
            30 + i
        } else if i < 16 {
            90 + (i - 8)
        } else if i < 24 {
            40 + (i - 16)
        } else if i < 32 {
            100 + (i - 24)
        } else if i == 32 {
            1
        } else if i == 33 {
            3
        } else if i == 34 {
            4
        } else {
            7
        }
    }
}

/// Distinct attributes have distinct ordinals, all below [`ATTRIBUTE_COUNT`],
/// and [`ColorType::at`] inverts [`ColorType::ordinal`].
pub proof fn lemma_ordinal_injective(a: ColorType, b: ColorType)
    ensures
        0 <= a.ordinal() < ATTRIBUTE_COUNT,
        ColorType::at(a.ordinal()) == a,
        a.ordinal() == b.ordinal() ==> a == b,
{
}

/// The bit that stands for the attribute with ordinal `i`.
pub open spec fn mask_of(i: int) -> u64 {
    1u64 << (i as u64)
}

proof fn lemma_masks(i: u64, j: u64)
    requires
        i < 64,
        j < 64,
    ensures
        ((1u64 << i) & (1u64 << j) != 0) == (i == j),
{
    assert(((1u64 << i) & (1u64 << j) != 0) == (i == j)) by (bit_vector)
        requires
            i < 64,
            j < 64,
    ;
}

proof fn lemma_or_and(x: u64, m: u64, k: u64)
    ensures
        ((x | m) & k != 0) == ((x & k != 0) || (m & k != 0)),
        (0u64 & k) == 0,
{
    assert(((x | m) & k != 0) == ((x & k != 0) || (m & k != 0))) by (bit_vector);
    assert((0u64 & k) == 0) by (bit_vector);
}

/// A set of attributes.
///
/// Attributes compose by union: an attribute, once in the set, is never taken
/// out again by adding others. Two styles are equal values exactly when they
/// were built from the same attributes, in whatever order.
#[derive(Clone, Copy, PartialEq, Eq, Structural, Debug)]
pub struct Style {
    pub bits: u64,
}

impl Style {
    /// Whether the attribute is in the set.
    pub open spec fn has(self, attr: ColorType) -> bool {
        self.bits & mask_of(attr.ordinal()) != 0
    }

    /// Whether the set holds no attribute.
    pub open spec fn is_plain(self) -> bool {
        forall|a: ColorType| !self.has(a)
    }

    /// The empty set.
    pub fn plain() -> (s: Style)
        ensures
            s.is_plain(),
            s.bits == 0,
    {
        let s = Style { bits: 0 };
        proof {
            assert forall|a: ColorType| !s.has(a) by {
                lemma_or_and(0, 0, mask_of(a.ordinal()));
            }
        }
        s
    }

    /// Membership test.
    pub fn contains(&self, attr: ColorType) -> (b: bool)
        ensures
            b == self.has(attr),
    {
        let i = attr.index();
        (self.bits & (1u64 << (i as u64))) != 0
    }

    /// The set with one more attribute.
    pub fn with(self, attr: ColorType) -> (s: Style)
        ensures
            forall|a: ColorType| s.has(a) == (self.has(a) || a == attr),
            s.bits == self.bits | mask_of(attr.ordinal()),
    {
        let i = attr.index();
        let s = Style { bits: self.bits | (1u64 << (i as u64)) };
        proof {
            assert forall|a: ColorType| s.has(a) == (self.has(a) || a == attr) by {
                lemma_ordinal_injective(a, attr);
                lemma_or_and(self.bits, mask_of(attr.ordinal()), mask_of(a.ordinal()));
                lemma_masks(attr.ordinal() as u64, a.ordinal() as u64);
            }
        }
        s
    }

    /// The set of the attributes of either set.
    pub open spec fn join(self, other: Style) -> Style {
        Style { bits: self.bits | other.bits }
    }

    /// The union of two sets.
    pub fn union(self, other: Style) -> (s: Style)
        ensures
            forall|a: ColorType| s.has(a) == (self.has(a) || other.has(a)),
            s == self.join(other),
    {
        let s = Style { bits: self.bits | other.bits };
        proof {
            assert forall|a: ColorType| s.has(a) == (self.has(a) || other.has(a)) by {
                lemma_or_and(self.bits, other.bits, mask_of(a.ordinal()));
            }
        }
        s
    }

    /// The set of the attributes listed, in whatever order and however often.
    pub fn from_attrs(attrs: &Vec<ColorType>) -> (s: Style)
        ensures
            forall|a: ColorType| s.has(a) == attrs@.contains(a),
            s.bits == fold_bits(attrs@),
    {
        let mut s = Style::plain();
        let mut i: usize = 0;
        while i < attrs.len()
            invariant
                i <= attrs.len(),
                forall|a: ColorType| s.has(a) == attrs@.take(i as int).contains(a),
                s.bits == fold_bits(attrs@.take(i as int)),
            decreases attrs.len() - i,
        {
            let ghost before = s;
            s = s.with(attrs[i]);
            proof {
                let prev = attrs@.take(i as int);
                let next = attrs@.take(i as int + 1);
                assert(next =~= prev.push(attrs@[i as int]));
                assert(next.drop_last() =~= prev);
                assert forall|a: ColorType| s.has(a) == next.contains(a) by {
                    if prev.contains(a) {
                        let k = choose|k: int| 0 <= k < prev.len() && prev[k] == a;
                        assert(next[k] == a);
                    }
                    if a == attrs@[i as int] {
                        assert(next[i as int] == a);
                    }
                    if next.contains(a) {
                        let k = choose|k: int| 0 <= k < next.len() && next[k] == a;
                        if k < i {
                            assert(prev[k] == a);
                        }
                    }
                }
            }
            i += 1;
        }
        proof {
            assert(attrs@.take(attrs@.len() as int) =~= attrs@);
        }
        s
    }
}

/// The bits of the style that holds the attributes of `attrs`.
pub open spec fn fold_bits(attrs: Seq<ColorType>) -> u64
    decreases attrs.len(),
{
    if attrs.len() == 0 {
        0
    } else {
        fold_bits(attrs.drop_last()) | mask_of(attrs.last().ordinal())
    }
}

/// The union of two sets holds what either holds, and nothing else.
pub proof fn lemma_join_has(a: Style, b: Style)
    ensures
        forall|attr: ColorType| a.join(b).has(attr) == (a.has(attr) || b.has(attr)),
{
    assert forall|attr: ColorType| a.join(b).has(attr) == (a.has(attr) || b.has(attr)) by {
        lemma_or_and(a.bits, b.bits, mask_of(attr.ordinal()));
    }
}

/// A piece of text with the attributes it is shown in.
#[derive(Clone, Debug)]
pub struct Token {
    pub text: String,
    pub style: Style,
}

/// What a token is: its characters and its attributes.
pub struct TokenView {
    pub text: Seq<char>,
    pub style: Style,
}

impl View for Token {
    type V = TokenView;

    open spec fn view(&self) -> TokenView {
        TokenView { text: self.text@, style: self.style }
    }
}

impl Token {
    /// The token that shows `text` with the attributes listed: the one way in
    /// which text gets a style.
    pub fn new(text: &str, attrs: Vec<ColorType>) -> (t: Token)
        ensures
            t@.text == text@,
            forall|a: ColorType| t@.style.has(a) == attrs@.contains(a),
            t@.style.bits == fold_bits(attrs@),
    {
        Token { text: String::from_str(text), style: Style::from_attrs(&attrs) }
    }

    /// The token that shows `text` in an attribute set that is at hand.
    pub fn styled(text: &str, style: Style) -> (t: Token)
        ensures
            t@ == (TokenView { text: text@, style }),
    {
        Token { text: String::from_str(text), style }
    }

    /// The same text with one more attribute. Nothing that the token had is
    /// lost.
    pub fn add_color(&self, attr: ColorType) -> (t: Token)
        ensures
            t@.text == self@.text,
            forall|a: ColorType| t@.style.has(a) == (self@.style.has(a) || a == attr),
            t@.style.bits == self@.style.bits | mask_of(attr.ordinal()),
    {
        Token { text: self.text.clone(), style: self.style.with(attr) }
    }

    /// Whether two tokens are the same value.
    pub fn same(&self, other: &Token) -> (b: bool)
        ensures
            b == (self@ == other@),
    {
        self.style == other.style && self.text == other.text
    }
}

/// One cell of the screen: a character and the attributes it is shown in.
#[derive(Clone, Copy, PartialEq, Eq, Structural, Debug)]
pub struct Cell {
    pub ch: char,
    pub style: Style,
}

impl Cell {
    /// A space in the given style.
    pub open spec fn blank(style: Style) -> Cell {
        Cell { ch: ' ', style }
    }
}

/// The cells that a text in one style fills, left to right: one for each
/// character.
pub open spec fn text_cells(text: Seq<char>, style: Style) -> Seq<Cell>
    decreases text.len(),
{
    if text.len() == 0 {
        Seq::empty()
    } else {
        text_cells(text.drop_last(), style).push(Cell { ch: text.last(), style })
    }
}

/// [`text_cells`] keeps the length and fills cell `i` with character `i`.
pub proof fn lemma_text_cells(text: Seq<char>, style: Style)
    ensures
        text_cells(text, style).len() == text.len(),
        forall|i: int|
            0 <= i < text.len() ==> (#[trigger] text_cells(text, style)[i]) == (Cell {
                ch: text[i],
                style,
            }),
    decreases text.len(),
{
    if text.len() > 0 {
        lemma_char_round_trip(text.last());
        lemma_text_cells(text.drop_last(), style);
    }
}

/// A character is the character of its own code point.
pub proof fn lemma_char_round_trip(c: char)
    ensures
        c == ((c as u32) as char),
{
}

/// The cells that a token fills, left to right.
pub open spec fn token_cells(t: TokenView) -> Seq<Cell> {
    text_cells(t.text, t.style)
}

/// The cells that a run of tokens fills, left to right.
pub open spec fn tokens_cells(tokens: Seq<TokenView>) -> Seq<Cell>
    decreases tokens.len(),
{
    if tokens.len() == 0 {
        Seq::empty()
    } else {
        tokens_cells(tokens.drop_last()) + token_cells(tokens.last())
    }
}

/// One line of styled text: tokens from left to right. The empty span is a
/// blank line.
#[derive(Clone, Debug)]
pub struct Span {
    pub tokens: Vec<Token>,
}

impl View for Span {
    type V = Seq<TokenView>;

    open spec fn view(&self) -> Seq<TokenView> {
        Seq::new(self.tokens@.len(), |i: int| self.tokens@[i]@)
    }
}

impl Span {
    /// The line made of the given tokens.
    pub fn from_tokens(tokens: Vec<Token>) -> (s: Span)
        ensures
            s@ == Seq::new(tokens@.len(), |i: int| tokens@[i]@),
            s.tokens == tokens,
    {
        Span { tokens }
    }

    /// The blank line.
    pub fn empty() -> (s: Span)
        ensures
            s@ == Seq::<TokenView>::empty(),
    {
        let s = Span { tokens: Vec::new() };
        assert(s@ =~= Seq::<TokenView>::empty());
        s
    }

    /// The line that shows first `self`, then `other`.
    pub fn concat(&self, other: &Span) -> (s: Span)
        ensures
            s@ == self@ + other@,
    {
        let mut tokens: Vec<Token> = Vec::new();
        let mut i: usize = 0;
        while i < self.tokens.len()
            invariant
                i <= self.tokens.len(),
                tokens@.len() == i,
                forall|k: int| 0 <= k < i ==> tokens@[k]@ == self.tokens@[k]@,
            decreases self.tokens.len() - i,
        {
            tokens.push(self.tokens[i].add_none());
            i += 1;
        }
        let mut j: usize = 0;
        while j < other.tokens.len()
            invariant
                j <= other.tokens.len(),
                tokens@.len() == self.tokens.len() + j,
                forall|k: int| 0 <= k < self.tokens.len() ==> tokens@[k]@ == self.tokens@[k]@,
                forall|k: int| 0 <= k < j ==> tokens@[self.tokens.len() + k]@ == other.tokens@[k]@,
            decreases other.tokens.len() - j,
        {
            tokens.push(other.tokens[j].add_none());
            j += 1;
        }
        let s = Span { tokens };
        assert(s@ =~= self@ + other@);
        s
    }

    /// The number of tokens.
    pub fn len(&self) -> (n: usize)
        ensures
            n == self@.len(),
    {
        self.tokens.len()
    }

    /// Whether two lines are the same value.
    pub fn same(&self, other: &Span) -> (b: bool)
        ensures
            b == (self@ == other@),
    {
        if self.tokens.len() != other.tokens.len() {
            assert(self@.len() != other@.len());
            return false;
        }
        let mut i: usize = 0;
        while i < self.tokens.len()
            invariant
                i <= self.tokens.len(),
                self.tokens.len() == other.tokens.len(),
                forall|k: int| 0 <= k < i ==> self.tokens@[k]@ == other.tokens@[k]@,
            decreases self.tokens.len() - i,
        {
            if !self.tokens[i].same(&other.tokens[i]) {
                assert(self@[i as int] != other@[i as int]);
                return false;
            }
            i += 1;
        }
        assert(self@ =~= other@);
        true
    }

    /// The cells of the line, left to right: one for each character of each
    /// token, in the token's style.
    pub fn cells(&self) -> (v: Vec<Cell>)
        ensures
            v@ == tokens_cells(self@),
    {
        let mut v: Vec<Cell> = Vec::new();
        let mut i: usize = 0;
        while i < self.tokens.len()
            invariant
                i <= self.tokens.len(),
                v@ == tokens_cells(self@.take(i as int)),
            decreases self.tokens.len() - i,
        {
            self.tokens[i].append_cells(&mut v);
            proof {
                assert(self@.take(i as int + 1).drop_last() =~= self@.take(i as int));
                assert(self@.take(i as int + 1).last() == self.tokens@[i as int]@);
            }
            i += 1;
        }
        proof {
            assert(self@.take(self@.len() as int) =~= self@);
        }
        v
    }
}

impl Token {
    /// Appends the cells of the token to `out`.
    pub fn append_cells(&self, out: &mut Vec<Cell>)
        ensures
            final(out)@ == old(out)@ + token_cells(self@),
    {
        let ghost start = out@;
        let style = self.style;
        for c in it: self.text.as_str().chars()
            invariant
                it.seq() == self.text@,
                style == self.style,
                out@ == start + text_cells(self.text@.take(it.index()), style),
        {
            out.push(Cell { ch: c, style });
            proof {
                let k = it.index();
                let next = self.text@.take(k + 1);
                lemma_char_round_trip(c);
                assert(next.drop_last() =~= self.text@.take(k));
                assert(next.last() == c);
                assert(start + text_cells(next, style) =~= (start + text_cells(
                    self.text@.take(k),
                    style,
                )).push(Cell { ch: c, style }));
            }
        }
        proof {
            assert(self.text@.take(self.text@.len() as int) =~= self.text@);
        }
    }

    /// A copy of the token.
    pub fn add_none(&self) -> (t: Token)
        ensures
            t@ == self@,
    {
        Token { text: self.text.clone(), style: self.style }
    }
}

} // verus!
