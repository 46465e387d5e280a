//! The styled-text builder: a configuration of foreground, background,
//! underline variant and emphasis attributes, accumulated by chained setter
//! calls and rendered into a single escape-coded string.

use vstd::prelude::*;
use vstd::string::StringExecFns;
use crate::codes::{
    bg_code, contains_seq, ends_with_seq, fg_code, push_bg_code, push_fg_code, push_reset_code,
    reset_code,
};

verus! {

/// A terminal emphasis attribute.
#[derive(Clone, Copy, Debug, PartialEq, Eq, Structural)]
pub enum TextStyle {
    Bold,
    Dim,
    Italic,
    Blink,
    Reverse,
    Hidden,
    Reset,
}

/// An underline variant; `NoUnderline` emits no code at all.
#[derive(Clone, Copy, Debug, PartialEq, Eq, Structural)]
pub enum UnderlineStyle {
    Normal,
    Strikethrough,
    Double,
    Curly,
    Dotted,
    Dashed,
    NoUnderline,
}

/// A background color as an RGB triple.
#[derive(Clone, Copy, Debug, PartialEq, Eq, Structural)]
pub struct BackgroundColor(pub u8, pub u8, pub u8);

/// The single error of the library: a hex color string that is not six
/// hexadecimal digits after an optional leading `#`.
#[derive(Clone, Copy, Debug, PartialEq, Eq, Structural)]
pub enum ColorError {
    InvalidColorFormat,
}

/// The abstract state of a styled text: everything the rendering depends on.
#[verifier::ext_equal]
pub struct StyleState {
    pub text: Seq<char>,
    pub foreground: Option<(u8, u8, u8)>,
    pub background: Option<(u8, u8, u8)>,
    pub underline: UnderlineStyle,
    pub attributes: Seq<TextStyle>,
}

/// The state a fresh builder starts from: the text and no styling at all.
pub open spec fn init_state(text: Seq<char>) -> StyleState {
    StyleState {
        text: text,
        foreground: None,
        background: None,
        underline: UnderlineStyle::NoUnderline,
        attributes: Seq::empty(),
    }
}

/// Overwrite the foreground color.
pub open spec fn set_fg(s: StyleState, r: u8, g: u8, b: u8) -> StyleState {
    StyleState { foreground: Some((r, g, b)), ..s }
}

/// Overwrite the background color.
pub open spec fn set_bg(s: StyleState, r: u8, g: u8, b: u8) -> StyleState {
    StyleState { background: Some((r, g, b)), ..s }
}

/// Overwrite the underline variant.
pub open spec fn set_underline(s: StyleState, u: UnderlineStyle) -> StyleState {
    StyleState { underline: u, ..s }
}

/// Append an attribute unless it is already present; a duplicate neither
/// moves nor repeats the attribute.
pub open spec fn add_attr(s: StyleState, a: TextStyle) -> StyleState {
    if s.attributes.contains(a) {
        s
    } else {
        StyleState { attributes: s.attributes.push(a), ..s }
    }
}

/// The value of a hexadecimal digit character, or 16 for any other
/// character.
pub open spec fn hex_val(c: char) -> int {
    if c == '0' {
        0
    } else if c == '1' {
        1
    } else if c == '2' {
        2
    } else if c == '3' {
        3
    } else if c == '4' {
        4
    } else if c == '5' {
        5
    } else if c == '6' {
        6
    } else if c == '7' {
        7
    } else if c == '8' {
        8
    } else if c == '9' {
        9
    } else if c == 'a' || c == 'A' {
        10
    } else if c == 'b' || c == 'B' {
        11
    } else if c == 'c' || c == 'C' {
        12
    } else if c == 'd' || c == 'D' {
        13
    } else if c == 'e' || c == 'E' {
        14
    } else if c == 'f' || c == 'F' {
        15
    } else {
        16
    }
}

/// The character is a hexadecimal digit, upper or lower case.
pub open spec fn is_hex_digit(c: char) -> bool {
    hex_val(c) < 16
}

/// The input with one optional leading `#` removed.
pub open spec fn strip_hash(s: Seq<char>) -> Seq<char> {
    if s.len() > 0 && s[0] == '#' {
        s.subrange(1, s.len() as int)
    } else {
        s
    }
}

/// A cleaned hex color input: exactly six hexadecimal digits.
pub open spec fn valid_hex6(s: Seq<char>) -> bool {
    s.len() == 6 && (forall|i: int| 0 <= i < 6 ==> is_hex_digit(#[trigger] s[i]))
}

/// The `k`-th two-digit group of a cleaned hex color input, as a byte value.
pub open spec fn hex_byte(s: Seq<char>, k: int) -> int {
    hex_val(s[2 * k]) * 16 + hex_val(s[2 * k + 1])
}

/// The RGB triple a valid six-digit hex color input denotes.
pub open spec fn hex_rgb(s: Seq<char>) -> (u8, u8, u8)
    recommends
        valid_hex6(s),
{
    (hex_byte(s, 0) as u8, hex_byte(s, 1) as u8, hex_byte(s, 2) as u8)
}

/// The escape sequence of one emphasis attribute.
pub open spec fn style_code(a: TextStyle) -> Seq<char> {
    match a {
        TextStyle::Bold => seq!['\u{1b}', '[', '1', 'm'],
        TextStyle::Dim => seq!['\u{1b}', '[', '2', 'm'],
        TextStyle::Italic => seq!['\u{1b}', '[', '3', 'm'],
        TextStyle::Blink => seq!['\u{1b}', '[', '5', 'm'],
        TextStyle::Reverse => seq!['\u{1b}', '[', '7', 'm'],
        TextStyle::Hidden => seq!['\u{1b}', '[', '8', 'm'],
        TextStyle::Reset => seq!['\u{1b}', '[', '0', 'm'],
    }
}

/// The escape sequences of a list of attributes, concatenated in list order.
pub open spec fn styles_codes(attrs: Seq<TextStyle>) -> Seq<char>
    decreases attrs.len(),
{
    if attrs.len() == 0 {
        Seq::empty()
    } else {
        style_code(attrs[0]) + styles_codes(attrs.drop_first())
    }
}

/// The escape sequence of an underline variant; `NoUnderline` contributes
/// nothing at all.
pub open spec fn underline_code(u: UnderlineStyle) -> Seq<char> {
    match u {
        UnderlineStyle::Normal => seq!['\u{1b}', '[', '4', 'm'],
        UnderlineStyle::Strikethrough => seq!['\u{1b}', '[', '9', 'm'],
        UnderlineStyle::Double => seq!['\u{1b}', '[', '2', '1', 'm'],
        UnderlineStyle::Curly => seq!['\u{1b}', '[', '4', ':', '3', 'm'],
        UnderlineStyle::Dotted => seq!['\u{1b}', '[', '4', ':', '4', 'm'],
        UnderlineStyle::Dashed => seq!['\u{1b}', '[', '4', ':', '5', 'm'],
        UnderlineStyle::NoUnderline => Seq::empty(),
    }
}

/// The foreground sequence of a state, or nothing if no foreground is set.
pub open spec fn opt_fg_code(fg: Option<(u8, u8, u8)>) -> Seq<char> {
    match fg {
        Some(c) => fg_code(c.0 as int, c.1 as int, c.2 as int),
        None => Seq::empty(),
    }
}

/// The background sequence of a state, or nothing if no background is set.
pub open spec fn opt_bg_code(bg: Option<(u8, u8, u8)>) -> Seq<char> {
    match bg {
        Some(c) => bg_code(c.0 as int, c.1 as int, c.2 as int),
        None => Seq::empty(),
    }
}

/// The full rendering of a style state: foreground, then background, then
/// the attributes in insertion order, then the underline, then the text,
/// and the unconditional trailing reset.
pub open spec fn rendered(s: StyleState) -> Seq<char> {
    opt_fg_code(s.foreground) + opt_bg_code(s.background) + styles_codes(s.attributes)
        + underline_code(s.underline) + s.text + reset_code()
}

/// Concatenating attribute lists concatenates their code sequences.
proof fn lemma_styles_codes_app(a: Seq<TextStyle>, b: Seq<TextStyle>)
    ensures
        styles_codes(a + b) == styles_codes(a) + styles_codes(b),
    decreases a.len(),
{
    if a.len() == 0 {
        assert(a + b =~= b);
        assert(styles_codes(a) + styles_codes(b) =~= styles_codes(b));
    } else {
        assert((a + b).drop_first() =~= a.drop_first() + b);
        lemma_styles_codes_app(a.drop_first(), b);
        assert(styles_codes(a + b) =~= styles_codes(a) + styles_codes(b));
    }
}

/// Appending one attribute appends its code sequence.
proof fn lemma_styles_codes_snoc(a: Seq<TextStyle>, x: TextStyle)
    ensures
        styles_codes(a.push(x)) == styles_codes(a) + style_code(x),
{
    assert(a.push(x) =~= a + seq![x]);
    lemma_styles_codes_app(a, seq![x]);
    assert(seq![x].drop_first() =~= Seq::<TextStyle>::empty());
    assert(styles_codes(Seq::<TextStyle>::empty()) =~= Seq::<char>::empty());
    assert(seq![x][0] == x);
    assert(styles_codes(seq![x]) =~= style_code(x) + Seq::<char>::empty());
    assert(style_code(x) + Seq::<char>::empty() =~= style_code(x));
}

/// Append the escape sequence of one attribute to `s`.
fn push_style_code(s: &mut String, a: TextStyle)
    ensures
        final(s)@ == old(s)@ + style_code(a),
{
    proof {
        reveal_strlit("\u{1b}[1m");
        reveal_strlit("\u{1b}[2m");
        reveal_strlit("\u{1b}[3m");
        reveal_strlit("\u{1b}[5m");
        reveal_strlit("\u{1b}[7m");
        reveal_strlit("\u{1b}[8m");
        reveal_strlit("\u{1b}[0m");
    }
    match a {
        TextStyle::Bold => s.append("\u{1b}[1m"),
        TextStyle::Dim => s.append("\u{1b}[2m"),
        TextStyle::Italic => s.append("\u{1b}[3m"),
        TextStyle::Blink => s.append("\u{1b}[5m"),
        TextStyle::Reverse => s.append("\u{1b}[7m"),
        TextStyle::Hidden => s.append("\u{1b}[8m"),
        TextStyle::Reset => s.append("\u{1b}[0m"),
    }
    assert(s@ =~= old(s)@ + style_code(a));
}

/// Append the escape sequence of an underline variant to `s`; `NoUnderline`
/// appends nothing.
fn push_underline_code(s: &mut String, u: UnderlineStyle)
    ensures
        final(s)@ == old(s)@ + underline_code(u),
{
    proof {
        reveal_strlit("\u{1b}[4m");
        reveal_strlit("\u{1b}[9m");
        reveal_strlit("\u{1b}[21m");
        reveal_strlit("\u{1b}[4:3m");
        reveal_strlit("\u{1b}[4:4m");
        reveal_strlit("\u{1b}[4:5m");
    }
    match u {
        UnderlineStyle::Normal => s.append("\u{1b}[4m"),
        UnderlineStyle::Strikethrough => s.append("\u{1b}[9m"),
        UnderlineStyle::Double => s.append("\u{1b}[21m"),
        UnderlineStyle::Curly => s.append("\u{1b}[4:3m"),
        UnderlineStyle::Dotted => s.append("\u{1b}[4:4m"),
        UnderlineStyle::Dashed => s.append("\u{1b}[4:5m"),
        UnderlineStyle::NoUnderline => {},
    }
    assert(s@ =~= old(s)@ + underline_code(u));
}

/// A styled text under construction; its view is the `StyleState` it has
/// accumulated.
#[derive(Clone, Debug)]
pub struct StyledText {
    text: String,
    foreground: Option<(u8, u8, u8)>,
    background: Option<BackgroundColor>,
    underline: UnderlineStyle,
    styles: Vec<TextStyle>,
}

impl View for StyledText {
    type V = StyleState;

    closed spec fn view(&self) -> StyleState {
        StyleState {
            text: self.text@,
            foreground: self.foreground,
            background: match self.background {
                Some(bc) => Some((bc.0, bc.1, bc.2)),
                None => None,
            },
            underline: self.underline,
            attributes: self.styles@,
        }
    }
}

fn hex_digit_value(c: char) -> (r: Option<u8>)
    ensures
        match r {
            Some(v) => is_hex_digit(c) && v == hex_val(c),
            None => !is_hex_digit(c),
        },
{
    match c {
        '0' => Some(0),
        '1' => Some(1),
        '2' => Some(2),
        '3' => Some(3),
        '4' => Some(4),
        '5' => Some(5),
        '6' => Some(6),
        '7' => Some(7),
        '8' => Some(8),
        '9' => Some(9),
        'a' | 'A' => Some(10),
        'b' | 'B' => Some(11),
        'c' | 'C' => Some(12),
        'd' | 'D' => Some(13),
        'e' | 'E' => Some(14),
        'f' | 'F' => Some(15),
        _ => None,
    }
}

/// Parse a hex color input: strip one optional leading `#`, then read six
/// hexadecimal digits as three two-digit byte groups. Any other shape is
/// rejected rather than a panic.
fn parse_hex_rgb(hex: &str) -> (r: Option<(u8, u8, u8)>)
    ensures
        match r {
            Some(rgb) => valid_hex6(strip_hash(hex@)) && rgb == hex_rgb(strip_hash(hex@)),
            None => !valid_hex6(strip_hash(hex@)),
        },
{
    let n = hex.unicode_len();
    let off: usize = if n > 0 && hex.get_char(0) == '#' {
        1
    } else {
        0
    };
    let ghost h = strip_hash(hex@);
    proof {
        assert(h =~= hex@.subrange(off as int, n as int));
    }
    if n < off || n - off != 6 {
        proof {
            assert(h.len() != 6);
        }
        return None;
    }
    assert(h.len() == 6);
    let v0 = match hex_digit_value(hex.get_char(off)) {
        Some(v) => v,
        None => {
            proof {
                assert(h[0] == hex@[off + 0]);
                assert(!is_hex_digit(h[0]));
            }
            return None;
        },
    };
    let v1 = match hex_digit_value(hex.get_char(off + 1)) {
        Some(v) => v,
        None => {
            proof {
                assert(h[1] == hex@[off + 1]);
                assert(!is_hex_digit(h[1]));
            }
            return None;
        },
    };
    let v2 = match hex_digit_value(hex.get_char(off + 2)) {
        Some(v) => v,
        None => {
            proof {
                assert(h[2] == hex@[off + 2]);
                assert(!is_hex_digit(h[2]));
            }
            return None;
        },
    };
    let v3 = match hex_digit_value(hex.get_char(off + 3)) {
        Some(v) => v,
        None => {
            proof {
                assert(h[3] == hex@[off + 3]);
                assert(!is_hex_digit(h[3]));
            }
            return None;
        },
    };
    let v4 = match hex_digit_value(hex.get_char(off + 4)) {
        Some(v) => v,
        None => {
            proof {
                assert(h[4] == hex@[off + 4]);
                assert(!is_hex_digit(h[4]));
            }
            return None;
        },
    };
    let v5 = match hex_digit_value(hex.get_char(off + 5)) {
        Some(v) => v,
        None => {
            proof {
                assert(h[5] == hex@[off + 5]);
                assert(!is_hex_digit(h[5]));
            }
            return None;
        },
    };
    proof {
        assert forall|i: int| 0 <= i < 6 implies is_hex_digit(#[trigger] h[i]) by {
            assert(h[0] == hex@[off + 0]);
            assert(h[1] == hex@[off + 1]);
            assert(h[2] == hex@[off + 2]);
            assert(h[3] == hex@[off + 3]);
            assert(h[4] == hex@[off + 4]);
            assert(h[5] == hex@[off + 5]);
        }
        assert(valid_hex6(h));
    }
    Some((v0 * 16 + v1, v2 * 16 + v3, v4 * 16 + v5))
}

/// `v` holds the element `a` somewhere.
fn vec_has_style(v: &Vec<TextStyle>, a: TextStyle) -> (r: bool)
    ensures
        r == v@.contains(a),
{
    let mut i: usize = 0;
    while i < v.len()
        invariant
            i <= v.len(),
            forall|j: int| 0 <= j < i ==> v@[j] != a,
        decreases v.len() - i,
    {
        if v[i] == a {
            return true;
        }
        i += 1;
    }
    false
}

impl StyledText {
    /// Start a styling chain: the text, with nothing applied yet.
    pub fn new(text: &str) -> (r: Self)
        ensures
            r@ == init_state(text@),
    {
        let r = StyledText {
            text: String::from_str(text),
            foreground: None,
            background: None,
            underline: UnderlineStyle::NoUnderline,
            styles: Vec::new(),
        };
        proof {
            assert(r@ =~= init_state(text@));
        }
        r
    }

    /// Set the foreground color, overwriting any earlier choice.
    pub fn color(self, r: u8, g: u8, b: u8) -> (t: Self)
        ensures
            t@ == set_fg(self@, r, g, b),
    {
        let ghost s0 = self@;
        let mut this = self;
        this.foreground = Some((r, g, b));
        proof {
            assert(this@ =~= set_fg(s0, r, g, b));
        }
        this
    }

    /// Set the foreground color from a six-digit hex string with an optional
    /// leading `#`; any other input is rejected with `InvalidColorFormat`.
    pub fn hex_color(self, hex: &str) -> (t: Result<Self, ColorError>)
        ensures
            match t {
                Ok(c) => valid_hex6(strip_hash(hex@)) && c@ == set_fg(
                    self@,
                    hex_rgb(strip_hash(hex@)).0,
                    hex_rgb(strip_hash(hex@)).1,
                    hex_rgb(strip_hash(hex@)).2,
                ),
                Err(e) => !valid_hex6(strip_hash(hex@)) && e == ColorError::InvalidColorFormat,
            },
    {
        match parse_hex_rgb(hex) {
            Some((r, g, b)) => Ok(self.color(r, g, b)),
            None => Err(ColorError::InvalidColorFormat),
        }
    }

    /// Set the background color, overwriting any earlier choice.
    pub fn bg_color(self, r: u8, g: u8, b: u8) -> (t: Self)
        ensures
            t@ == set_bg(self@, r, g, b),
    {
        let ghost s0 = self@;
        let mut this = self;
        this.background = Some(BackgroundColor(r, g, b));
        proof {
            assert(this@ =~= set_bg(s0, r, g, b));
        }
        this
    }

    /// Set the background color from a six-digit hex string with an optional
    /// leading `#`; any other input is rejected with `InvalidColorFormat`.
    pub fn bg_hex_color(self, hex: &str) -> (t: Result<Self, ColorError>)
        ensures
            match t {
                Ok(c) => valid_hex6(strip_hash(hex@)) && c@ == set_bg(
                    self@,
                    hex_rgb(strip_hash(hex@)).0,
                    hex_rgb(strip_hash(hex@)).1,
                    hex_rgb(strip_hash(hex@)).2,
                ),
                Err(e) => !valid_hex6(strip_hash(hex@)) && e == ColorError::InvalidColorFormat,
            },
    {
        match parse_hex_rgb(hex) {
            Some((r, g, b)) => Ok(self.bg_color(r, g, b)),
            None => Err(ColorError::InvalidColorFormat),
        }
    }

    /// Set the underline variant, overwriting any earlier choice.
    pub fn underline(self, style: UnderlineStyle) -> (t: Self)
        ensures
            t@ == set_underline(self@, style),
    {
        let ghost s0 = self@;
        let mut this = self;
        this.underline = style;
        proof {
            assert(this@ =~= set_underline(s0, style));
        }
        this
    }

    /// Add an emphasis attribute; a duplicate is ignored, so the attribute
    /// keeps its original position in the emission order.
    pub fn style(self, style: TextStyle) -> (t: Self)
        ensures
            t@ == add_attr(self@, style),
    {
        let ghost s0 = self@;
        let mut this = self;
        if !vec_has_style(&this.styles, style) {
            this.styles.push(style);
        }
        proof {
            assert(this@ =~= add_attr(s0, style));
        }
        this
    }

    /// Add the bold attribute.
    pub fn bold(self) -> (t: Self)
        ensures
            t@ == add_attr(self@, TextStyle::Bold),
    {
        self.style(TextStyle::Bold)
    }

    /// Add the italic attribute.
    pub fn italic(self) -> (t: Self)
        ensures
            t@ == add_attr(self@, TextStyle::Italic),
    {
        self.style(TextStyle::Italic)
    }

    /// Add the dim attribute.
    pub fn dim(self) -> (t: Self)
        ensures
            t@ == add_attr(self@, TextStyle::Dim),
    {
        self.style(TextStyle::Dim)
    }

    /// Add the blink attribute.
    pub fn blink(self) -> (t: Self)
        ensures
            t@ == add_attr(self@, TextStyle::Blink),
    {
        self.style(TextStyle::Blink)
    }

    /// Add the reverse-video attribute.
    pub fn reverse(self) -> (t: Self)
        ensures
            t@ == add_attr(self@, TextStyle::Reverse),
    {
        self.style(TextStyle::Reverse)
    }

    /// Add the hidden attribute.
    pub fn hidden(self) -> (t: Self)
        ensures
            t@ == add_attr(self@, TextStyle::Hidden),
    {
        self.style(TextStyle::Hidden)
    }

    /// Render the configuration: the escape prefix in its fixed order, the
    /// text verbatim, and the unconditional trailing reset.
    pub fn render(&self) -> (r: String)
        ensures
            r@ == rendered(self@),
    {
        let mut out = String::new();
        match self.foreground {
            Some((r, g, b)) => push_fg_code(&mut out, r, g, b),
            None => {},
        }
        assert(out@ =~= opt_fg_code(self@.foreground));
        match self.background {
            Some(bc) => push_bg_code(&mut out, bc.0, bc.1, bc.2),
            None => {},
        }
        let ghost head = opt_fg_code(self@.foreground) + opt_bg_code(self@.background);
        assert(out@ =~= head);
        let mut i: usize = 0;
        while i < self.styles.len()
            invariant
                i <= self.styles.len(),
                out@ == head + styles_codes(self.styles@.subrange(0, i as int)),
            decreases self.styles.len() - i,
        {
            push_style_code(&mut out, self.styles[i]);
            proof {
                assert(self.styles@.subrange(0, i + 1) =~= self.styles@.subrange(
                    0,
                    i as int,
                ).push(self.styles@[i as int]));
                lemma_styles_codes_snoc(self.styles@.subrange(0, i as int), self.styles@[i as int]);
            }
            i += 1;
        }
        proof {
            assert(self.styles@.subrange(0, self.styles@.len() as int) =~= self.styles@);
        }
        push_underline_code(&mut out, self.underline);
        out.append(self.text.as_str());
        push_reset_code(&mut out);
        proof {
            assert(out@ =~= rendered(self@));
        }
        out
    }
}

/// Adding an attribute that is already present is a no-op: the duplicate is
/// dropped, the state is unchanged, and so is everything rendered from it.
pub proof fn lemma_readd_attribute_noop(s: StyleState, a: TextStyle)
    requires
        s.attributes.contains(a),
    ensures
        add_attr(s, a) == s,
        rendered(add_attr(s, a)) == rendered(s),
{
}

/// For any text and any RGB triple, the rendering of a fresh builder with
/// that foreground color contains the foreground sequence, contains the text
/// verbatim, and ends with the reset sequence.
pub proof fn lemma_color_render_shape(text: Seq<char>, r: u8, g: u8, b: u8)
    ensures
        contains_seq(
            rendered(set_fg(init_state(text), r, g, b)),
            fg_code(r as int, g as int, b as int),
        ),
        contains_seq(rendered(set_fg(init_state(text), r, g, b)), text),
        ends_with_seq(rendered(set_fg(init_state(text), r, g, b)), reset_code()),
{
    let s = set_fg(init_state(text), r, g, b);
    let out = rendered(s);
    let f = fg_code(r as int, g as int, b as int);
    assert(styles_codes(s.attributes) =~= Seq::<char>::empty());
    assert(out =~= f + text + reset_code());
    assert(contains_seq(out, f)) by {
        assert(out.subrange(0, 0 + f.len() as int) =~= f);
    }
    assert(contains_seq(out, text)) by {
        let i = f.len() as int;
        assert(out.subrange(i, i + text.len() as int) =~= text);
    }
    assert(out.subrange(out.len() - reset_code().len(), out.len() as int) =~= reset_code());
}

} // verus!
