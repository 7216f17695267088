//! Output formatting with ANSI color codes.

use vstd::prelude::*;
use crate::color::{
    ColorMode, gray_ramp_code, grayscale_to_bg, grayscale_to_fg, grayscale_value, palette_bg_seq,
    palette_code, palette_fg_seq, reset_color, reset_seq, rgb_to_256_bg, rgb_to_256_fg,
    rgb_to_grayscale, rgb_to_truecolor_bg, rgb_to_truecolor_fg, truecolor_bg_seq, truecolor_fg_seq,
};
use crate::converter::ColoredChar;
use crate::text::push_char;

verus! {

/// The escape sequence that selects `rgb` as foreground color in `mode`.
pub open spec fn fg_seq(rgb: (u8, u8, u8), mode: ColorMode) -> Seq<char> {
    match mode {
        ColorMode::Truecolor => truecolor_fg_seq(rgb.0, rgb.1, rgb.2),
        ColorMode::Color256 => palette_fg_seq(palette_code(rgb.0, rgb.1, rgb.2)),
        ColorMode::Grayscale => palette_fg_seq(
            gray_ramp_code(grayscale_value(rgb.0, rgb.1, rgb.2) as u8),
        ),
        ColorMode::NoColor => Seq::empty(),
    }
}

/// The escape sequence that selects `rgb` as background color in `mode`.
pub open spec fn bg_seq(rgb: (u8, u8, u8), mode: ColorMode) -> Seq<char> {
    match mode {
        ColorMode::Truecolor => truecolor_bg_seq(rgb.0, rgb.1, rgb.2),
        ColorMode::Color256 => palette_bg_seq(palette_code(rgb.0, rgb.1, rgb.2)),
        ColorMode::Grayscale => palette_bg_seq(
            gray_ramp_code(grayscale_value(rgb.0, rgb.1, rgb.2) as u8),
        ),
        ColorMode::NoColor => Seq::empty(),
    }
}

/// Text written so far, with the foreground and background colors in effect.
pub type FormatState = (Seq<char>, Option<(u8, u8, u8)>, Option<(u8, u8, u8)>);

/// The escape sequences that switch to the colors of `c`: a reset, then the
/// background, then the foreground.
pub open spec fn color_switch(c: ColoredChar, mode: ColorMode) -> Seq<char> {
    reset_seq() + match c.bg {
        Some(bg) => bg_seq(bg, mode),
        None => Seq::empty(),
    } + match c.color {
        Some(fg) => fg_seq(fg, mode),
        None => Seq::empty(),
    }
}

/// Writes one cell: a line break resets any color in effect; another character
/// is preceded by a color switch when its colors differ from those in effect.
pub open spec fn format_step(st: FormatState, c: ColoredChar, mode: ColorMode) -> FormatState {
    if c.char == '\n' {
        if st.1 is Some || st.2 is Some {
            (st.0.push('\n') + reset_seq(), None, None)
        } else {
            (st.0.push('\n'), st.1, st.2)
        }
    } else if c.color != st.1 || c.bg != st.2 {
        ((st.0 + color_switch(c, mode)).push(c.char), c.color, c.bg)
    } else {
        (st.0.push(c.char), st.1, st.2)
    }
}

/// The state after writing all of `chars`, starting with no color in effect.
pub open spec fn format_run(chars: Seq<ColoredChar>, mode: ColorMode) -> FormatState
    decreases chars.len(),
{
    if chars.len() == 0 {
        (Seq::empty(), None, None)
    } else {
        format_step(format_run(chars.drop_last(), mode), chars.last(), mode)
    }
}

/// The complete output for `chars`: every cell, then a final reset.
pub open spec fn formatted(chars: Seq<ColoredChar>, mode: ColorMode) -> Seq<char> {
    format_run(chars, mode).0 + reset_seq()
}

/// The characters of the cells, without any color.
pub open spec fn plain_text(chars: Seq<ColoredChar>) -> Seq<char> {
    chars.map_values(|c: ColoredChar| c.char)
}

/// Cells without foreground or background color are written as their bare
/// characters, followed by the final reset.
pub proof fn lemma_uncolored_output(chars: Seq<ColoredChar>, mode: ColorMode)
    requires
        forall|i: int| 0 <= i < chars.len() ==> (#[trigger] chars[i]).color is None && chars[i].bg is None,
    ensures
        format_run(chars, mode) == (plain_text(chars), None::<(u8, u8, u8)>, None::<(u8, u8, u8)>),
        formatted(chars, mode) == plain_text(chars) + reset_seq(),
    decreases chars.len(),
{
    if chars.len() > 0 {
        let init = chars.drop_last();
        assert forall|i: int| 0 <= i < init.len() implies (#[trigger] init[i]).color is None
            && init[i].bg is None by {
            assert(init[i] == chars[i]);
        }
        lemma_uncolored_output(init, mode);
        assert(plain_text(chars) =~= plain_text(init).push(chars.last().char));
    } else {
        assert(plain_text(chars) =~= Seq::<char>::empty());
    }
}

/// Every output ends with the reset sequence, so no color leaks past it.
pub proof fn lemma_output_ends_with_reset(chars: Seq<ColoredChar>, mode: ColorMode)
    ensures
        formatted(chars, mode).len() >= reset_seq().len(),
        formatted(chars, mode).subrange(
            formatted(chars, mode).len() - reset_seq().len(),
            formatted(chars, mode).len() as int,
        ) == reset_seq(),
{
    let f = formatted(chars, mode);
    let body = format_run(chars, mode).0;
    assert(f.subrange(body.len() as int, f.len() as int) =~= reset_seq());
}

/// After a run of cells, the colors in effect are those of the last cell, or
/// none at all after a line break (or before any cell).
proof fn lemma_colors_in_effect(chars: Seq<ColoredChar>, mode: ColorMode)
    ensures
        (chars.len() == 0 || chars.last().char == '\n') ==> format_run(chars, mode).1 is None
            && format_run(chars, mode).2 is None,
        (chars.len() > 0 && chars.last().char != '\n') ==> format_run(chars, mode).1
            == chars.last().color && format_run(chars, mode).2 == chars.last().bg,
{
}

/// A cell whose colors differ from those of the cell before it in its row
/// (or a colored cell that starts a row) is written right after the escapes
/// of its own colors: a reset, its background (if any), then its foreground
/// (if any); its colors are then in effect.
pub proof fn lemma_color_switch_on_change(chars: Seq<ColoredChar>, c: ColoredChar, mode: ColorMode)
    requires
        c.char != '\n',
        (chars.len() == 0 || chars.last().char == '\n') ==> (c.color is Some || c.bg is Some),
        (chars.len() > 0 && chars.last().char != '\n') ==> (chars.last().color != c.color
            || chars.last().bg != c.bg),
    ensures
        format_run(chars.push(c), mode).0 == format_run(chars, mode).0 + reset_seq() + match c.bg {
            Some(bg) => bg_seq(bg, mode),
            None => Seq::<char>::empty(),
        } + match c.color {
            Some(fg) => fg_seq(fg, mode),
            None => Seq::<char>::empty(),
        } + seq![c.char],
        format_run(chars.push(c), mode).1 == c.color,
        format_run(chars.push(c), mode).2 == c.bg,
{
    lemma_colors_in_effect(chars, mode);
    assert(chars.push(c).drop_last() =~= chars);
    assert(chars.push(c).last() == c);
}

/// A line break after a colored cell is followed by a reset, so no color runs
/// into the next row; after any line break no color is in effect.
pub proof fn lemma_reset_at_line_end(chars: Seq<ColoredChar>, c: ColoredChar, mode: ColorMode)
    requires
        c.char == '\n',
    ensures
        (chars.len() > 0 && chars.last().char != '\n' && (chars.last().color is Some
            || chars.last().bg is Some)) ==> format_run(chars.push(c), mode).0 == format_run(
            chars,
            mode,
        ).0 + seq!['\n'] + reset_seq(),
        format_run(chars.push(c), mode).1 is None,
        format_run(chars.push(c), mode).2 is None,
{
    lemma_colors_in_effect(chars, mode);
    assert(chars.push(c).drop_last() =~= chars);
    assert(chars.push(c).last() == c);
    assert(format_run(chars, mode).0.push('\n') =~= format_run(chars, mode).0 + seq!['\n']);
}

/// A cell with the same colors as the cell before it in its row is written
/// as its bare character: colors switch only on change.
pub proof fn lemma_no_switch_without_change(chars: Seq<ColoredChar>, c: ColoredChar, mode: ColorMode)
    requires
        c.char != '\n',
        chars.len() > 0,
        chars.last().char != '\n',
        chars.last().color == c.color,
        chars.last().bg == c.bg,
    ensures
        format_run(chars.push(c), mode).0 == format_run(chars, mode).0.push(c.char),
{
    lemma_colors_in_effect(chars, mode);
    assert(chars.push(c).drop_last() =~= chars);
    assert(chars.push(c).last() == c);
}

/// The escapes that select a color: the 24-bit components in truecolor; the
/// palette entry of the color in 256-color mode; in grayscale mode the ramp
/// entry `232 + gray * 23 / 255` of the perceived brightness
/// `gray = floor(0.299 r + 0.587 g + 0.114 b)`, the same entry for foreground
/// and background; nothing without color.
pub proof fn lemma_escape_colors(rgb: (u8, u8, u8))
    ensures
        fg_seq(rgb, ColorMode::Truecolor) == truecolor_fg_seq(rgb.0, rgb.1, rgb.2),
        bg_seq(rgb, ColorMode::Truecolor) == truecolor_bg_seq(rgb.0, rgb.1, rgb.2),
        fg_seq(rgb, ColorMode::Color256) == palette_fg_seq(palette_code(rgb.0, rgb.1, rgb.2)),
        bg_seq(rgb, ColorMode::Color256) == palette_bg_seq(palette_code(rgb.0, rgb.1, rgb.2)),
        ({
            let gray = (299 * rgb.0 + 587 * rgb.1 + 114 * rgb.2) / 1000;
            let entry = 232 + gray * 23 / 255;
            &&& 232 <= entry <= 255
            &&& fg_seq(rgb, ColorMode::Grayscale) == palette_fg_seq(entry)
            &&& bg_seq(rgb, ColorMode::Grayscale) == palette_bg_seq(entry)
        }),
        fg_seq(rgb, ColorMode::NoColor).len() == 0,
        bg_seq(rgb, ColorMode::NoColor).len() == 0,
{
    let gray = (299 * rgb.0 + 587 * rgb.1 + 114 * rgb.2) / 1000;
    assert(0 <= gray <= 255);
    assert(gray * 23 / 255 <= 23) by (nonlinear_arith)
        requires
            0 <= gray <= 255,
    ;
    assert(0 <= gray * 23 / 255) by (nonlinear_arith)
        requires
            0 <= gray,
    ;
}

fn same_rgb(a: Option<(u8, u8, u8)>, b: Option<(u8, u8, u8)>) -> (r: bool)
    ensures
        r == (a == b),
{
    match (a, b) {
        (Some(x), Some(y)) => x.0 == y.0 && x.1 == y.1 && x.2 == y.2,
        (None, None) => true,
        _ => false,
    }
}

/// Format a sequence of colored characters into a string with ANSI escape codes.
pub fn format_colored(chars: &[ColoredChar], color_mode: ColorMode) -> (output: String)
    ensures
        output@ == formatted(chars@, color_mode),
{
    let mut output = String::new();
    let mut last_color: Option<(u8, u8, u8)> = None;
    let mut last_bg: Option<(u8, u8, u8)> = None;
    let n = chars.len();
    let mut i: usize = 0;
    while i < n
        invariant
            n == chars@.len(),
            i <= n,
            (output@, last_color, last_bg) == format_run(chars@.take(i as int), color_mode),
        decreases n - i,
    {
        let c = chars[i];
        proof {
            assert(chars@.take(i + 1).drop_last() =~= chars@.take(i as int));
            assert(chars@.take(i + 1).last() == c);
        }
        if c.char == '\n' {
            push_char(&mut output, '\n');
            if last_color.is_some() || last_bg.is_some() {
                output.append(reset_color());
                last_color = None;
                last_bg = None;
            }
        } else {
            let color_changed = !same_rgb(c.color, last_color);
            let bg_changed = !same_rgb(c.bg, last_bg);
            if color_changed || bg_changed {
                output.append(reset_color());
                match c.bg {
                    Some(bg) => {
                        output.append(bg_ansi(bg, color_mode).as_str());
                        last_bg = Some(bg);
                    },
                    None => {
                        last_bg = None;
                    },
                }
                match c.color {
                    Some(fg) => {
                        output.append(fg_ansi(fg, color_mode).as_str());
                        last_color = Some(fg);
                    },
                    None => {
                        last_color = None;
                    },
                }
                proof {
                    assert(output@ =~= format_run(chars@.take(i as int), color_mode).0
                        + color_switch(c, color_mode));
                }
            }
            push_char(&mut output, c.char);
        }
        i = i + 1;
    }
    assert(chars@.take(n as int) =~= chars@);
    output.append(reset_color());
    output
}

/// Get foreground ANSI code for a color based on mode.
pub fn fg_ansi(rgb: (u8, u8, u8), mode: ColorMode) -> (s: String)
    ensures
        s@ == fg_seq(rgb, mode),
{
    let (r, g, b) = rgb;
    match mode {
        ColorMode::Truecolor => rgb_to_truecolor_fg(r, g, b),
        ColorMode::Color256 => rgb_to_256_fg(r, g, b),
        ColorMode::Grayscale => grayscale_to_fg(rgb_to_grayscale(r, g, b)),
        ColorMode::NoColor => String::new(),
    }
}

/// Get background ANSI code for a color based on mode.
pub fn bg_ansi(rgb: (u8, u8, u8), mode: ColorMode) -> (s: String)
    ensures
        s@ == bg_seq(rgb, mode),
{
    let (r, g, b) = rgb;
    match mode {
        ColorMode::Truecolor => rgb_to_truecolor_bg(r, g, b),
        ColorMode::Color256 => rgb_to_256_bg(r, g, b),
        ColorMode::Grayscale => grayscale_to_bg(rgb_to_grayscale(r, g, b)),
        ColorMode::NoColor => String::new(),
    }
}

} // verus!
