//! Per-character color effects: a linear gradient between two RGB colors and
//! a fixed seven-color rainbow, each emitting one foreground sequence per
//! character and one trailing reset.

use vstd::prelude::*;
use vstd::string::{StrSliceExecFns, StringExecFns};
use vstd::arithmetic::div_mod::{
    lemma_div_is_ordered, lemma_div_pos_is_pos, lemma_fundamental_div_mod,
    lemma_fundamental_div_mod_converse, lemma_mod_division_less_than_divisor,
};
use vstd::arithmetic::mul::{
    lemma_mul_inequality, lemma_mul_is_commutative, lemma_mul_nonnegative,
    lemma_mul_unary_negation, lemma_mul_upper_bound,
};
use crate::codes::{fg_code, push_char, push_fg_code, push_reset_code, reset_code};
use crate::style::StyledText;

verus! {

/// The interpolation denominator for a text of `len` characters: `len - 1`,
/// but at least 1, so a single-character text interpolates at ratio zero.
pub open spec fn grad_denom(len: int) -> int {
    if len - 1 >= 1 {
        len - 1
    } else {
        1
    }
}

/// One linearly interpolated channel: the exact value `s + (e - s) * i / d`
/// with the fractional part truncated (the value always lies between `s`
/// and `e`, both non-negative, so truncation is rounding toward zero).
pub open spec fn chan(s: int, e: int, i: int, d: int) -> int {
    s + ((e - s) * i) / d
}

/// The interpolated color of the character at position `i`.
pub open spec fn grad_color(sc: (u8, u8, u8), ec: (u8, u8, u8), i: int, d: int) -> (
    int,
    int,
    int,
) {
    (
        chan(sc.0 as int, ec.0 as int, i, d),
        chan(sc.1 as int, ec.1 as int, i, d),
        chan(sc.2 as int, ec.2 as int, i, d),
    )
}

/// The escape-coded segment of the character at position `i` of a gradient.
pub open spec fn gradient_piece(t: Seq<char>, sc: (u8, u8, u8), ec: (u8, u8, u8), i: int) -> Seq<
    char,
> {
    fg_code(
        grad_color(sc, ec, i, grad_denom(t.len() as int)).0,
        grad_color(sc, ec, i, grad_denom(t.len() as int)).1,
        grad_color(sc, ec, i, grad_denom(t.len() as int)).2,
    ) + seq![t[i]]
}

/// The first `n` segments of a gradient, concatenated.
pub open spec fn gradient_prefix(
    t: Seq<char>,
    sc: (u8, u8, u8),
    ec: (u8, u8, u8),
    n: int,
) -> Seq<char>
    decreases n,
{
    if n <= 0 {
        Seq::empty()
    } else {
        gradient_prefix(t, sc, ec, n - 1) + gradient_piece(t, sc, ec, n - 1)
    }
}

/// The whole gradient rendering: empty for empty text, otherwise one segment
/// per character and a single trailing reset.
pub open spec fn gradient_spec(t: Seq<char>, sc: (u8, u8, u8), ec: (u8, u8, u8)) -> Seq<char> {
    if t.len() == 0 {
        Seq::empty()
    } else {
        gradient_prefix(t, sc, ec, t.len() as int) + reset_code()
    }
}

/// The fixed seven-color rainbow palette, red to violet.
pub open spec fn palette(j: int) -> (u8, u8, u8) {
    if j == 0 {
        (255, 0, 0)
    } else if j == 1 {
        (255, 165, 0)
    } else if j == 2 {
        (255, 255, 0)
    } else if j == 3 {
        (0, 255, 0)
    } else if j == 4 {
        (0, 0, 255)
    } else if j == 5 {
        (75, 0, 130)
    } else {
        (238, 130, 238)
    }
}

/// The palette slot of the character at `i` of `len`: a seven-way split of
/// the text, clamped to the last slot.
pub open spec fn palette_index(i: int, len: int) -> int {
    let k = (i * 7) / len;
    if k > 6 {
        6
    } else {
        k
    }
}

/// The escape-coded segment of the character at position `i` of a rainbow.
pub open spec fn rainbow_piece(t: Seq<char>, i: int) -> Seq<char> {
    fg_code(
        palette(palette_index(i, t.len() as int)).0 as int,
        palette(palette_index(i, t.len() as int)).1 as int,
        palette(palette_index(i, t.len() as int)).2 as int,
    ) + seq![t[i]]
}

/// The first `n` segments of a rainbow, concatenated.
pub open spec fn rainbow_prefix(t: Seq<char>, n: int) -> Seq<char>
    decreases n,
{
    if n <= 0 {
        Seq::empty()
    } else {
        rainbow_prefix(t, n - 1) + rainbow_piece(t, n - 1)
    }
}

/// The whole rainbow rendering: empty for empty text, otherwise one segment
/// per character and a single trailing reset.
pub open spec fn rainbow_spec(t: Seq<char>) -> Seq<char> {
    if t.len() == 0 {
        Seq::empty()
    } else {
        rainbow_prefix(t, t.len() as int) + reset_code()
    }
}

/// Euclidean division of a negated non-negative numerator: the quotient is
/// the negated ceiling quotient of the numerator itself.
proof fn lemma_neg_div_is_neg_ceil(p: int, d: int)
    requires
        p >= 0,
        d >= 1,
    ensures
        (-p) / d == -((p + d - 1) / d),
{
    let q = (p + d - 1) / d;
    let r = (p + d - 1) % d;
    lemma_fundamental_div_mod(p + d - 1, d);
    lemma_mod_division_less_than_divisor(p + d - 1, d);
    lemma_mul_unary_negation(q, d);
    lemma_mul_is_commutative(q, d);
    lemma_mul_is_commutative(-q, d);
    lemma_fundamental_div_mod_converse(-p, d, -q, d - 1 - r);
}

/// One interpolated channel, computed exactly as `chan` describes.
fn chan_exec(s: u8, e: u8, i: usize, d: usize) -> (r: u8)
    requires
        1 <= d,
        i <= d,
    ensures
        r as int == chan(s as int, e as int, i as int, d as int),
{
    let iw = i as u128;
    let dw = d as u128;
    if e >= s {
        let diff = (e - s) as u128;
        proof {
            lemma_mul_upper_bound(diff as int, 255, iw as int, 0xffff_ffff_ffff_ffff);
        }
        let q = diff * iw / dw;
        proof {
            let diffi = diff as int;
            lemma_mul_nonnegative(diffi, i as int);
            lemma_mul_inequality(i as int, d as int, diffi);
            lemma_mul_is_commutative(i as int, diffi);
            lemma_mul_is_commutative(d as int, diffi);
            lemma_div_is_ordered(diffi * (i as int), diffi * (d as int), d as int);
            lemma_fundamental_div_mod_converse(diffi * (d as int), d as int, diffi, 0);
            lemma_div_pos_is_pos(diffi * (i as int), d as int);
            assert(q <= diff);
        }
        s + (q as u8)
    } else {
        let diff = (s - e) as u128;
        proof {
            lemma_mul_upper_bound(diff as int, 255, iw as int, 0xffff_ffff_ffff_ffff);
        }
        let p = diff * iw;
        let q = (p + dw - 1) / dw;
        proof {
            let diffi = diff as int;
            let pi = p as int;
            lemma_mul_nonnegative(diffi, i as int);
            lemma_mul_inequality(i as int, d as int, diffi);
            lemma_mul_is_commutative(i as int, diffi);
            lemma_mul_is_commutative(d as int, diffi);
            lemma_div_is_ordered(pi + d - 1, diffi * (d as int) + d - 1, d as int);
            lemma_fundamental_div_mod_converse(
                diffi * (d as int) + d - 1,
                d as int,
                diffi,
                d - 1,
            );
            lemma_div_pos_is_pos(pi + d - 1, d as int);
            assert(q <= diff);
            lemma_neg_div_is_neg_ceil(pi, d as int);
            lemma_mul_unary_negation(diffi, i as int);
            assert((e as int - s as int) * (i as int) == -pi);
            assert(chan(s as int, e as int, i as int, d as int) == s as int - q as int);
        }
        s - (q as u8)
    }
}

/// Return the palette color of slot `k`.
fn palette_at(k: usize) -> (c: (u8, u8, u8))
    requires
        k <= 6,
    ensures
        c == palette(k as int),
{
    if k == 0 {
        (255, 0, 0)
    } else if k == 1 {
        (255, 165, 0)
    } else if k == 2 {
        (255, 255, 0)
    } else if k == 3 {
        (0, 255, 0)
    } else if k == 4 {
        (0, 0, 255)
    } else if k == 5 {
        (75, 0, 130)
    } else {
        (238, 130, 238)
    }
}

impl StyledText {
    /// Color each character of `text` by linear interpolation between
    /// `start_color` and `end_color`, position by position, with one trailing
    /// reset; empty text renders as the empty string, and a one-character
    /// text is deliberately colored with `start_color` exactly.
    pub fn gradient(text: &str, start_color: (u8, u8, u8), end_color: (u8, u8, u8)) -> (r:
        String)
        ensures
            r@ == gradient_spec(text@, start_color, end_color),
    {
        let len = text.unicode_len();
        if len == 0 {
            let r = String::new();
            assert(r@ =~= gradient_spec(text@, start_color, end_color));
            return r;
        }
        let d: usize = if len >= 2 {
            len - 1
        } else {
            1
        };
        let mut out = String::new();
        assert(out@ =~= gradient_prefix(text@, start_color, end_color, 0));
        let mut i: usize = 0;
        while i < len
            invariant
                text@.len() == len,
                1 <= d,
                d as int == grad_denom(len as int),
                i <= len,
                out@ == gradient_prefix(text@, start_color, end_color, i as int),
            decreases len - i,
        {
            let ch = text.get_char(i);
            let cr = chan_exec(start_color.0, end_color.0, i, d);
            let cg = chan_exec(start_color.1, end_color.1, i, d);
            let cb = chan_exec(start_color.2, end_color.2, i, d);
            push_fg_code(&mut out, cr, cg, cb);
            push_char(&mut out, ch);
            proof {
                assert(out@ =~= gradient_prefix(text@, start_color, end_color, i + 1));
            }
            i += 1;
        }
        push_reset_code(&mut out);
        assert(out@ =~= gradient_spec(text@, start_color, end_color));
        out
    }

    /// Color each character of `text` with the rainbow palette slot its
    /// position selects, with one trailing reset; empty text short-circuits
    /// to the empty string before any division by the length.
    pub fn polychrome(text: &str) -> (r: String)
        ensures
            r@ == rainbow_spec(text@),
    {
        let len = text.unicode_len();
        if len == 0 {
            let r = String::new();
            assert(r@ =~= rainbow_spec(text@));
            return r;
        }
        let mut out = String::new();
        assert(out@ =~= rainbow_prefix(text@, 0));
        let mut i: usize = 0;
        while i < len
            invariant
                text@.len() == len,
                1 <= len,
                i <= len,
                out@ == rainbow_prefix(text@, i as int),
            decreases len - i,
        {
            let ch = text.get_char(i);
            let ki = (i as u128) * 7 / (len as u128);
            let k: usize = if ki > 6 {
                6
            } else {
                ki as usize
            };
            proof {
                assert(k as int == palette_index(i as int, len as int));
            }
            let c = palette_at(k);
            push_fg_code(&mut out, c.0, c.1, c.2);
            push_char(&mut out, ch);
            proof {
                assert(out@ =~= rainbow_prefix(text@, i + 1));
            }
            i += 1;
        }
        push_reset_code(&mut out);
        assert(out@ =~= rainbow_spec(text@));
        out
    }
}

/// Every character of a nonempty text selects a palette slot between 0
/// and 6: the clamped seven-way split never leaves the palette.
pub proof fn lemma_palette_index_in_range(i: int, len: int)
    requires
        0 <= i < len,
    ensures
        0 <= palette_index(i, len) <= 6,
{
    lemma_mul_nonnegative(i, 7);
    lemma_div_pos_is_pos(i * 7, len);
}

/// A single-character text is colored with the start color exactly: the
/// interpolation ratio of the only character is zero.
pub proof fn lemma_gradient_single_uses_start(t: Seq<char>, sc: (u8, u8, u8), ec: (u8, u8, u8))
    requires
        t.len() == 1,
    ensures
        gradient_spec(t, sc, ec) == fg_code(sc.0 as int, sc.1 as int, sc.2 as int) + seq![t[0]]
            + reset_code(),
{
    assert(grad_denom(1) == 1);
    assert(chan(sc.0 as int, ec.0 as int, 0, 1) == sc.0 as int);
    assert(chan(sc.1 as int, ec.1 as int, 0, 1) == sc.1 as int);
    assert(chan(sc.2 as int, ec.2 as int, 0, 1) == sc.2 as int);
    assert(gradient_prefix(t, sc, ec, 0) =~= Seq::<char>::empty());
    assert(gradient_prefix(t, sc, ec, 1) =~= Seq::<char>::empty() + gradient_piece(t, sc, ec, 0));
    assert(Seq::<char>::empty() + gradient_piece(t, sc, ec, 0) =~= gradient_piece(t, sc, ec, 0));
    assert(gradient_spec(t, sc, ec) =~= fg_code(sc.0 as int, sc.1 as int, sc.2 as int)
        + seq![t[0]] + reset_code());
}

} // verus!
