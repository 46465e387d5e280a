//! An extension trait so a styling chain can start directly on a text.

use vstd::prelude::*;
use crate::style::{
    ColorError, StyledText, TextStyle, UnderlineStyle, add_attr, hex_rgb, init_state, set_fg,
    set_underline, strip_hash, valid_hex6,
};

verus! {

/// Extension methods that begin a styling chain on a plain text value.
pub trait StyleExt {
    /// The characters of this text.
    spec fn text_view(&self) -> Seq<char>;

    /// Start a styling chain with nothing applied yet.
    fn styled(&self) -> (r: StyledText)
        ensures
            r@ == init_state(self.text_view()),
    ;

    /// Start a chain with a foreground color already set.
    fn color(&self, r: u8, g: u8, b: u8) -> (t: StyledText)
        ensures
            t@ == set_fg(init_state(self.text_view()), r, g, b),
    ;

    /// Start a chain with a foreground color parsed from a hex string; a
    /// malformed string is rejected with `InvalidColorFormat`.
    fn hex_color(&self, hex: &str) -> (t: Result<StyledText, ColorError>)
        ensures
            match t {
                Ok(c) => valid_hex6(strip_hash(hex@)) && c@ == set_fg(
                    init_state(self.text_view()),
                    hex_rgb(strip_hash(hex@)).0,
                    hex_rgb(strip_hash(hex@)).1,
                    hex_rgb(strip_hash(hex@)).2,
                ),
                Err(e) => !valid_hex6(strip_hash(hex@)) && e == ColorError::InvalidColorFormat,
            },
    ;

    /// Start a chain with the bold attribute.
    fn bold(&self) -> (t: StyledText)
        ensures
            t@ == add_attr(init_state(self.text_view()), TextStyle::Bold),
    ;

    /// Start a chain with the italic attribute.
    fn italic(&self) -> (t: StyledText)
        ensures
            t@ == add_attr(init_state(self.text_view()), TextStyle::Italic),
    ;

    /// Start a chain with an underline variant already set.
    fn underline(&self, style: UnderlineStyle) -> (t: StyledText)
        ensures
            t@ == set_underline(init_state(self.text_view()), style),
    ;
}

impl StyleExt for str {
    open spec fn text_view(&self) -> Seq<char> {
        self@
    }

    fn styled(&self) -> (r: StyledText) {
        StyledText::new(self)
    }

    fn color(&self, r: u8, g: u8, b: u8) -> (t: StyledText) {
        StyledText::new(self).color(r, g, b)
    }

    fn hex_color(&self, hex: &str) -> (t: Result<StyledText, ColorError>) {
        StyledText::new(self).hex_color(hex)
    }

    fn bold(&self) -> (t: StyledText) {
        StyledText::new(self).bold()
    }

    fn italic(&self) -> (t: StyledText) {
        StyledText::new(self).italic()
    }

    fn underline(&self, style: UnderlineStyle) -> (t: StyledText) {
        StyledText::new(self).underline(style)
    }
}

} // verus!
