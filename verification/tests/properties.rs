use polychrome::colors;
use polychrome::{
    supports_color_from, ColorError, ProgressBar, StyleExt, StyledText, TextStyle,
    UnderlineStyle,
};

#[test]
fn render_is_prefix_text_reset() {
    let output = "hello".color(12, 34, 56).render();
    assert_eq!(output, "\x1b[38;2;12;34;56mhello\x1b[0m");
    assert!(output.ends_with("\x1b[0m"));
}

#[test]
fn render_channel_formatting_boundaries() {
    // One-, two- and three-digit channel values, no leading zeros.
    let output = "x".color(0, 10, 100).render();
    assert_eq!(output, "\x1b[38;2;0;10;100mx\x1b[0m");
}

#[test]
fn render_empty_text_still_resets() {
    assert_eq!(StyledText::new("").render(), "\x1b[0m");
}

#[test]
fn render_full_prefix_order() {
    // Foreground, background, attributes in call order, underline, text, reset.
    let output = "T"
        .styled()
        .underline(UnderlineStyle::Curly)
        .bold()
        .dim()
        .bg_color(1, 2, 3)
        .color(4, 5, 6)
        .render();
    assert_eq!(output, "\x1b[38;2;4;5;6m\x1b[48;2;1;2;3m\x1b[1m\x1b[2m\x1b[4:3mT\x1b[0m");
}

#[test]
fn attribute_codes_full_mapping() {
    let output = "a"
        .styled()
        .style(TextStyle::Bold)
        .style(TextStyle::Dim)
        .style(TextStyle::Italic)
        .style(TextStyle::Blink)
        .style(TextStyle::Reverse)
        .style(TextStyle::Hidden)
        .style(TextStyle::Reset)
        .render();
    assert_eq!(output, "\x1b[1m\x1b[2m\x1b[3m\x1b[5m\x1b[7m\x1b[8m\x1b[0ma\x1b[0m");
}

#[test]
fn underline_codes_full_mapping() {
    assert_eq!("u".underline(UnderlineStyle::Normal).render(), "\x1b[4mu\x1b[0m");
    assert_eq!("u".underline(UnderlineStyle::Strikethrough).render(), "\x1b[9mu\x1b[0m");
    assert_eq!("u".underline(UnderlineStyle::Double).render(), "\x1b[21mu\x1b[0m");
    assert_eq!("u".underline(UnderlineStyle::Curly).render(), "\x1b[4:3mu\x1b[0m");
    assert_eq!("u".underline(UnderlineStyle::Dotted).render(), "\x1b[4:4mu\x1b[0m");
    assert_eq!("u".underline(UnderlineStyle::Dashed).render(), "\x1b[4:5mu\x1b[0m");
    assert_eq!("u".underline(UnderlineStyle::NoUnderline).render(), "u\x1b[0m");
}

#[test]
fn readding_attribute_is_a_no_op() {
    let once = "text".styled().bold().italic().render();
    let twice = "text".styled().bold().italic().bold().render();
    assert_eq!(once, twice);
    // The duplicate also keeps its original position.
    assert_eq!(twice, "\x1b[1m\x1b[3mtext\x1b[0m");
}

#[test]
fn hex_color_matches_rgb_color() {
    let from_hex = "same".hex_color("#FF0000").unwrap().render();
    let from_rgb = "same".color(255, 0, 0).render();
    assert_eq!(from_hex, from_rgb);
}

#[test]
fn hex_color_accepts_lower_case_and_no_hash() {
    let output = "t".hex_color("ff8000").unwrap().render();
    assert_eq!(output, "\x1b[38;2;255;128;0mt\x1b[0m");
}

#[test]
fn hex_color_rejects_malformed_input() {
    assert_eq!("t".hex_color("GG0000").unwrap_err(), ColorError::InvalidColorFormat);
    assert_eq!("t".hex_color("#FF").unwrap_err(), ColorError::InvalidColorFormat);
    assert_eq!("t".hex_color("").unwrap_err(), ColorError::InvalidColorFormat);
    assert_eq!("t".hex_color("#FF00001").unwrap_err(), ColorError::InvalidColorFormat);
    // Only a single leading `#` is stripped.
    assert_eq!("t".hex_color("##FF0000").unwrap_err(), ColorError::InvalidColorFormat);
    assert_eq!(
        StyledText::new("t").bg_hex_color("nothex").unwrap_err(),
        ColorError::InvalidColorFormat
    );
}

#[test]
fn gradient_of_empty_text_is_empty() {
    assert_eq!(StyledText::gradient("", (0, 0, 0), (255, 255, 255)), "");
}

#[test]
fn gradient_of_single_char_uses_start_color() {
    let output = StyledText::gradient("A", (0, 0, 0), (255, 255, 255));
    assert_eq!(output, "\x1b[38;2;0;0;0mA\x1b[0m");
    assert_eq!(output.matches("\x1b[38;2;").count(), 1);
}

#[test]
fn gradient_endpoints_are_exact() {
    let output = StyledText::gradient("ab", (0, 0, 0), (255, 255, 255));
    assert_eq!(output, "\x1b[38;2;0;0;0ma\x1b[38;2;255;255;255mb\x1b[0m");
}

#[test]
fn gradient_truncates_midpoints() {
    // Ratio 1/2 of 255 truncates to 127, rising or falling.
    let rising = StyledText::gradient("abc", (0, 0, 0), (255, 255, 255));
    assert_eq!(
        rising,
        "\x1b[38;2;0;0;0ma\x1b[38;2;127;127;127mb\x1b[38;2;255;255;255mc\x1b[0m"
    );
    let falling = StyledText::gradient("abc", (255, 255, 255), (0, 0, 0));
    assert_eq!(
        falling,
        "\x1b[38;2;255;255;255ma\x1b[38;2;127;127;127mb\x1b[38;2;0;0;0mc\x1b[0m"
    );
}

#[test]
fn rainbow_of_empty_text_is_empty() {
    assert_eq!(StyledText::polychrome(""), "");
}

#[test]
fn rainbow_small_text_exact() {
    // Three characters pick palette slots 0, 2 and 4: red, yellow, blue.
    let output = StyledText::polychrome("Hi!");
    assert_eq!(
        output,
        "\x1b[38;2;255;0;0mH\x1b[38;2;255;255;0mi\x1b[38;2;0;0;255m!\x1b[0m"
    );
}

#[test]
fn rainbow_stays_inside_the_palette() {
    let palette_codes = [
        "\x1b[38;2;255;0;0m",
        "\x1b[38;2;255;165;0m",
        "\x1b[38;2;255;255;0m",
        "\x1b[38;2;0;255;0m",
        "\x1b[38;2;0;0;255m",
        "\x1b[38;2;75;0;130m",
        "\x1b[38;2;238;130;238m",
    ];
    let text = "The quick brown fox jumps over the lazy dog";
    let output = StyledText::polychrome(text);
    let mut seen: usize = 0;
    for part in output.split("\x1b[").skip(1) {
        if part.starts_with("38;2;") {
            let code = format!("\x1b[{}", &part[..part.find('m').unwrap() + 1]);
            assert!(palette_codes.contains(&code.as_str()));
            seen += 1;
        }
    }
    assert_eq!(seen, text.chars().count());
}

/// The number of filled cells a float progress value selects, as the
/// terminal-facing wrapper computes it: clamp to [0, 1], scale, truncate.
fn filled_cells(width: usize, progress: f64) -> usize {
    let progress = progress.clamp(0.0, 1.0);
    (width as f64 * progress) as usize
}

#[test]
fn progress_bar_halfway_has_five_of_each() {
    let bar = ProgressBar::new(10);
    let output = bar.render(filled_cells(10, 0.5));
    assert_eq!(output.chars().filter(|&c| c == '█').count(), 5);
    assert_eq!(output.chars().filter(|&c| c == '░').count(), 5);
}

#[test]
fn progress_bar_exact_rows() {
    let bar = ProgressBar::new(4);
    assert_eq!(bar.render(0), "░░░░");
    assert_eq!(bar.render(2), "██░░");
    assert_eq!(bar.render(4), "████");
    // A count beyond the width is clamped.
    assert_eq!(bar.render(9), "████");
}

#[test]
fn progress_bar_custom_chars_and_color() {
    let bar = ProgressBar::new(4).chars('#', '-').color(colors::RED.0, colors::RED.1, colors::RED.2);
    assert_eq!(bar.render(1), "\x1b[38;2;255;0;0m#---\x1b[0m");
}

#[test]
fn color_support_no_color_always_wins() {
    assert!(!supports_color_from(true, true, Some(String::from("xterm"))));
    assert!(!supports_color_from(true, false, Some(String::from("xterm"))));
    assert!(!supports_color_from(true, true, None));
}

#[test]
fn color_support_force_color_wins_next() {
    assert!(supports_color_from(false, true, None));
    assert!(supports_color_from(false, true, Some(String::from("dumb"))));
}

#[test]
fn color_support_falls_back_to_term() {
    assert!(supports_color_from(false, false, Some(String::from("xterm-256color"))));
    assert!(!supports_color_from(false, false, Some(String::from("dumb"))));
    assert!(!supports_color_from(false, false, Some(String::from(""))));
    assert!(!supports_color_from(false, false, None));
}
