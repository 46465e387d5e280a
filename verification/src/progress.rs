//! A progress bar: a fixed-width row of fill and empty glyphs, optionally
//! wrapped in a single foreground color escape pair.

use vstd::prelude::*;
use crate::codes::{fg_code, push_char, push_fg_code, push_reset_code, reset_code};

verus! {

/// `n` repetitions of the character `c`.
pub open spec fn repeat_char(c: char, n: int) -> Seq<char>
    decreases n,
{
    if n <= 0 {
        Seq::empty()
    } else {
        repeat_char(c, n - 1).push(c)
    }
}

/// The glyph row of a bar: `filled` fill glyphs, clamped to the width, then
/// empty glyphs up to the width.
pub open spec fn bar_body(width: int, fill: char, empty: char, filled: int) -> Seq<char> {
    let f = if filled > width {
        width
    } else {
        filled
    };
    repeat_char(fill, f) + repeat_char(empty, width - f)
}

/// The full rendering of a bar: the glyph row, wrapped in one foreground
/// escape and one reset when a color is configured.
pub open spec fn bar_spec(
    width: int,
    fill: char,
    empty: char,
    color: Option<(u8, u8, u8)>,
    filled: int,
) -> Seq<char> {
    match color {
        Some(c) => fg_code(c.0 as int, c.1 as int, c.2 as int) + bar_body(
            width,
            fill,
            empty,
            filled,
        ) + reset_code(),
        None => bar_body(width, fill, empty, filled),
    }
}

/// A progress bar configuration: width in cells, the two glyphs, and an
/// optional color.
pub struct ProgressBar {
    width: usize,
    filled_char: char,
    empty_char: char,
    color: Option<(u8, u8, u8)>,
}

impl ProgressBar {
    /// The configured width in cells.
    pub closed spec fn spec_width(&self) -> int {
        self.width as int
    }

    /// The glyph of a filled cell.
    pub closed spec fn spec_filled_char(&self) -> char {
        self.filled_char
    }

    /// The glyph of an empty cell.
    pub closed spec fn spec_empty_char(&self) -> char {
        self.empty_char
    }

    /// The configured color, if any.
    pub closed spec fn spec_color(&self) -> Option<(u8, u8, u8)> {
        self.color
    }

    /// A bar of `width` cells with the default block glyphs and no color.
    pub fn new(width: usize) -> (r: Self)
        ensures
            r.spec_width() == width as int,
            r.spec_filled_char() == '\u{2588}',
            r.spec_empty_char() == '\u{2591}',
            r.spec_color() is None,
    {
        ProgressBar { width, filled_char: '\u{2588}', empty_char: '\u{2591}', color: None }
    }

    /// Replace the fill and empty glyphs.
    pub fn chars(self, filled: char, empty: char) -> (r: Self)
        ensures
            r.spec_width() == self.spec_width(),
            r.spec_filled_char() == filled,
            r.spec_empty_char() == empty,
            r.spec_color() == self.spec_color(),
    {
        let mut this = self;
        this.filled_char = filled;
        this.empty_char = empty;
        this
    }

    /// Set the color of the whole bar.
    pub fn color(self, r: u8, g: u8, b: u8) -> (t: Self)
        ensures
            t.spec_width() == self.spec_width(),
            t.spec_filled_char() == self.spec_filled_char(),
            t.spec_empty_char() == self.spec_empty_char(),
            t.spec_color() == Some((r, g, b)),
    {
        let mut this = self;
        this.color = Some((r, g, b));
        this
    }

    /// The configured width, for callers that derive a fill count from it.
    pub fn width(&self) -> (w: usize)
        ensures
            w as int == self.spec_width(),
    {
        self.width
    }

    /// Render the bar with `filled` cells filled; a count beyond the width
    /// is clamped to the width, so the row is always exactly `width` glyphs.
    pub fn render(&self, filled: usize) -> (r: String)
        ensures
            r@ == bar_spec(
                self.spec_width(),
                self.spec_filled_char(),
                self.spec_empty_char(),
                self.spec_color(),
                filled as int,
            ),
    {
        let f: usize = if filled > self.width {
            self.width
        } else {
            filled
        };
        let mut out = String::new();
        match self.color {
            Some((cr, cg, cb)) => push_fg_code(&mut out, cr, cg, cb),
            None => {},
        }
        let ghost head = out@;
        let mut i: usize = 0;
        while i < f
            invariant
                i <= f,
                out@ == head + repeat_char(self.spec_filled_char(), i as int),
            decreases f - i,
        {
            push_char(&mut out, self.filled_char);
            assert(out@ =~= head + repeat_char(self.spec_filled_char(), i + 1));
            i += 1;
        }
        let ghost mid = out@;
        let mut j: usize = 0;
        while j < self.width - f
            invariant
                j <= self.spec_width() - f,
                out@ == mid + repeat_char(self.spec_empty_char(), j as int),
            decreases self.spec_width() - f - j,
        {
            push_char(&mut out, self.empty_char);
            assert(out@ =~= mid + repeat_char(self.spec_empty_char(), j + 1));
            j += 1;
        }
        match self.color {
            Some(_) => push_reset_code(&mut out),
            None => {},
        }
        proof {
            assert(out@ =~= bar_spec(
                self.spec_width(),
                self.spec_filled_char(),
                self.spec_empty_char(),
                self.spec_color(),
                filled as int,
            ));
        }
        out
    }
}

} // verus!
