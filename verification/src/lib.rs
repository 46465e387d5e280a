//! Terminal text styling: a fluent builder for ANSI-escape-coded strings,
//! per-character color effects (gradient, rainbow), a progress-bar renderer,
//! and the decision rule for environment-based color support.

pub mod codes;
pub mod colors;
pub mod effects;
pub mod ext;
pub mod progress;
pub mod style;
pub mod support;

pub use codes::{bg_code, contains_seq, dec_rep, ends_with_seq, fg_code, reset_code};
pub use effects::{
    chan, grad_color, grad_denom, gradient_piece, gradient_prefix, gradient_spec,
    lemma_gradient_single_uses_start, lemma_palette_index_in_range, palette, palette_index,
    rainbow_piece, rainbow_prefix, rainbow_spec,
};
pub use ext::StyleExt;
pub use progress::{bar_body, bar_spec, repeat_char, ProgressBar};
pub use style::{
    add_attr, hex_rgb, init_state, lemma_color_render_shape, lemma_readd_attribute_noop,
    rendered, set_bg, set_fg, set_underline, strip_hash, style_code, styles_codes,
    underline_code, valid_hex6, BackgroundColor, ColorError, StyleState, StyledText, TextStyle,
    UnderlineStyle,
};
pub use support::{lemma_no_color_wins, supports_color_from, supports_color_spec};
