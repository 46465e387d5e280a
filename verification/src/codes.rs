//! The ANSI escape sequences the library emits, modeled as sequences of
//! characters, together with the executable emitters that are proved to
//! produce exactly those sequences.

use vstd::prelude::*;
use vstd::string::StringExecFns;

verus! {

/// The character a single decimal digit prints as.
pub open spec fn digit_char(d: int) -> char {
    if d == 0 {
        '0'
    } else if d == 1 {
        '1'
    } else if d == 2 {
        '2'
    } else if d == 3 {
        '3'
    } else if d == 4 {
        '4'
    } else if d == 5 {
        '5'
    } else if d == 6 {
        '6'
    } else if d == 7 {
        '7'
    } else if d == 8 {
        '8'
    } else {
        '9'
    }
}

/// Decimal representation, without leading zeros, of a color channel value
/// (one to three digits for values up to 255).
pub open spec fn dec_rep(n: int) -> Seq<char> {
    if n < 10 {
        seq![digit_char(n)]
    } else if n < 100 {
        seq![digit_char(n / 10), digit_char(n % 10)]
    } else {
        seq![digit_char(n / 100), digit_char((n / 10) % 10), digit_char(n % 10)]
    }
}

/// The reset sequence `ESC[0m` that terminates every rendering.
pub open spec fn reset_code() -> Seq<char> {
    seq!['\u{1b}', '[', '0', 'm']
}

/// The truecolor foreground sequence `ESC[38;2;R;G;Bm`.
pub open spec fn fg_code(r: int, g: int, b: int) -> Seq<char> {
    seq!['\u{1b}', '[', '3', '8', ';', '2', ';'] + dec_rep(r) + seq![';'] + dec_rep(g)
        + seq![';'] + dec_rep(b) + seq!['m']
}

/// The truecolor background sequence `ESC[48;2;R;G;Bm`.
pub open spec fn bg_code(r: int, g: int, b: int) -> Seq<char> {
    seq!['\u{1b}', '[', '4', '8', ';', '2', ';'] + dec_rep(r) + seq![';'] + dec_rep(g)
        + seq![';'] + dec_rep(b) + seq!['m']
}

/// `needle` occurs contiguously somewhere inside `hay`.
pub open spec fn contains_seq(hay: Seq<char>, needle: Seq<char>) -> bool {
    exists|i: int|
        0 <= i && i + needle.len() <= hay.len() && #[trigger] hay.subrange(i, i + needle.len())
            == needle
}

/// `hay` ends with `suffix`.
pub open spec fn ends_with_seq(hay: Seq<char>, suffix: Seq<char>) -> bool {
    suffix.len() <= hay.len() && hay.subrange(hay.len() - suffix.len(), hay.len() as int)
        == suffix
}

/// Relies on `String::push`: appends exactly the one character at the end of
/// the string; vstd gives `push` no specification of its own.
#[verifier::external_body]
pub(crate) fn push_char(s: &mut String, c: char)
    ensures
        final(s)@ == old(s)@ + seq![c],
{
    s.push(c)
}

fn digit_to_char(d: u8) -> (c: char)
    requires
        d < 10,
    ensures
        c == digit_char(d as int),
{
    if d == 0 {
        '0'
    } else if d == 1 {
        '1'
    } else if d == 2 {
        '2'
    } else if d == 3 {
        '3'
    } else if d == 4 {
        '4'
    } else if d == 5 {
        '5'
    } else if d == 6 {
        '6'
    } else if d == 7 {
        '7'
    } else if d == 8 {
        '8'
    } else {
        '9'
    }
}

/// Append the decimal form of `v` to `s`.
pub(crate) fn push_u8_dec(s: &mut String, v: u8)
    ensures
        final(s)@ == old(s)@ + dec_rep(v as int),
{
    if v < 10 {
        push_char(s, digit_to_char(v));
    } else if v < 100 {
        push_char(s, digit_to_char(v / 10));
        push_char(s, digit_to_char(v % 10));
    } else {
        push_char(s, digit_to_char(v / 100));
        push_char(s, digit_to_char((v / 10) % 10));
        push_char(s, digit_to_char(v % 10));
    }
    assert(s@ =~= old(s)@ + dec_rep(v as int));
}

/// Append `ESC[38;2;R;G;Bm` to `s`.
pub(crate) fn push_fg_code(s: &mut String, r: u8, g: u8, b: u8)
    ensures
        final(s)@ == old(s)@ + fg_code(r as int, g as int, b as int),
{
    proof {
        reveal_strlit("\u{1b}[38;2;");
        reveal_strlit(";");
        reveal_strlit("m");
    }
    s.append("\u{1b}[38;2;");
    push_u8_dec(s, r);
    s.append(";");
    push_u8_dec(s, g);
    s.append(";");
    push_u8_dec(s, b);
    s.append("m");
    assert(s@ =~= old(s)@ + fg_code(r as int, g as int, b as int));
}

/// Append `ESC[48;2;R;G;Bm` to `s`.
pub(crate) fn push_bg_code(s: &mut String, r: u8, g: u8, b: u8)
    ensures
        final(s)@ == old(s)@ + bg_code(r as int, g as int, b as int),
{
    proof {
        reveal_strlit("\u{1b}[48;2;");
        reveal_strlit(";");
        reveal_strlit("m");
    }
    s.append("\u{1b}[48;2;");
    push_u8_dec(s, r);
    s.append(";");
    push_u8_dec(s, g);
    s.append(";");
    push_u8_dec(s, b);
    s.append("m");
    assert(s@ =~= old(s)@ + bg_code(r as int, g as int, b as int));
}

/// Append the reset sequence `ESC[0m` to `s`.
pub(crate) fn push_reset_code(s: &mut String)
    ensures
        final(s)@ == old(s)@ + reset_code(),
{
    proof {
        reveal_strlit("\u{1b}[0m");
    }
    s.append("\u{1b}[0m");
    assert(s@ =~= old(s)@ + reset_code());
}

} // verus!
