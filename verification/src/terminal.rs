//! Terminal-related decisions: output sizes and color support.
//!
//! A character cell is taken to be twice as tall as it is wide, so an image
//! of `w` x `h` pixels is shown on about `w` x `h / 2` cells.

use vstd::prelude::*;
use crate::image::{RgbaImage, auto_dimensions, calculate_dimensions, ceil_div, min, minus_margin};

verus! {

/// `v` limited to the `usize` range.
pub open spec fn saturate_usize(v: int) -> int {
    min(v, usize::MAX as int)
}

/// Rows for `w` columns of an `img_w` x `img_h` image: `w / (2 * img_w / img_h)`
/// rounded up and limited to `usize`, computed exactly (a floating-point
/// quotient may round up to one more); an image without width gives the
/// maximum, or 0 when nothing is to be shown.
pub open spec fn rows_for_width(w: int, img_w: int, img_h: int) -> int {
    if img_w == 0 {
        if img_h > 0 && w > 0 {
            usize::MAX as int
        } else {
            0
        }
    } else {
        saturate_usize(ceil_div(w * img_h, 2 * img_w))
    }
}

/// Columns for `h` rows of an `img_w` x `img_h` image: `h * (2 * img_w / img_h)`
/// rounded up and limited to `usize`, computed exactly (a floating-point
/// product may round up to one more); an image without height gives the
/// maximum, or 0 when nothing is to be shown.
pub open spec fn columns_for_height(h: int, img_w: int, img_h: int) -> int {
    if img_h == 0 {
        if img_w > 0 && h > 0 {
            usize::MAX as int
        } else {
            0
        }
    } else {
        saturate_usize(ceil_div(2 * h * img_w, img_h))
    }
}

/// The output size for a still image: the requested width and height, the
/// missing one derived from the image's aspect ratio, or a size that fits the
/// terminal when neither is given.
pub open spec fn still_image_size(
    width: Option<usize>,
    height: Option<usize>,
    img_w: int,
    img_h: int,
    cols: int,
    rows: int,
) -> (int, int) {
    match (width, height) {
        (Some(w), Some(h)) => (w as int, h as int),
        (Some(w), None) => (w as int, rows_for_width(w as int, img_w, img_h)),
        (None, Some(h)) => (columns_for_height(h as int, img_w, img_h), h as int),
        (None, None) => auto_dimensions(img_w, img_h, cols, rows),
    }
}

fn ceil_div_saturated(num: u128, den: u128) -> (r: usize)
    requires
        den > 0,
        num + den <= u128::MAX,
    ensures
        r == saturate_usize(ceil_div(num as int, den as int)),
{
    let q: u128 = (num + den - 1) / den;
    if q > usize::MAX as u128 {
        usize::MAX
    } else {
        q as usize
    }
}

/// The output size of a still image (see `still_image_size`).
pub fn output_dimensions(
    width: Option<usize>,
    height: Option<usize>,
    img: &RgbaImage,
    term_cols: usize,
    term_rows: usize,
) -> (d: (usize, usize))
    ensures
        d.0 == still_image_size(
            width,
            height,
            img@.width as int,
            img@.height as int,
            term_cols as int,
            term_rows as int,
        ).0,
        d.1 == still_image_size(
            width,
            height,
            img@.width as int,
            img@.height as int,
            term_cols as int,
            term_rows as int,
        ).1,
{
    let (img_w, img_h) = img.dimensions();
    match (width, height) {
        (Some(w), Some(h)) => (w, h),
        (Some(w), None) => {
            if img_w == 0 {
                (w, if img_h > 0 && w > 0 {
                    usize::MAX
                } else {
                    0
                })
            } else {
                assert((w as u128) * (img_h as u128) <= 0xffff_ffff_ffff_ffff_ffff_ffff) by (
                nonlinear_arith)
                    requires
                        w <= 0xffff_ffff_ffff_ffff,
                        img_h <= 0xffff_ffff,
                ;
                (w, ceil_div_saturated((w as u128) * (img_h as u128), 2 * (img_w as u128)))
            }
        },
        (None, Some(h)) => {
            if img_h == 0 {
                (if img_w > 0 && h > 0 {
                    usize::MAX
                } else {
                    0
                }, h)
            } else {
                assert(2 * ((h as u128) * (img_w as u128)) <= 0x1_ffff_ffff_ffff_ffff_ffff_ffff) by (
                nonlinear_arith)
                    requires
                        h <= 0xffff_ffff_ffff_ffff,
                        img_w <= 0xffff_ffff,
                ;
                assert(2 * h * img_w == 2 * (h * img_w)) by (nonlinear_arith);
                (ceil_div_saturated(2 * ((h as u128) * (img_w as u128)), img_h as u128), h)
            }
        },
        (None, None) => calculate_dimensions(img, term_cols, term_rows),
    }
}

/// The output size for an animation: the requested width and height, the
/// missing one derived for a square canvas, or the terminal less a two-cell
/// margin when neither is given.
pub open spec fn animation_size(width: Option<usize>, height: Option<usize>, cols: int, rows: int) -> (
    int,
    int,
) {
    match (width, height) {
        (Some(w), Some(h)) => (w as int, h as int),
        (Some(w), None) => (w as int, ceil_div(w as int, 2)),
        (None, Some(h)) => (saturate_usize(2 * h), h as int),
        (None, None) => (minus_margin(cols), minus_margin(rows)),
    }
}

/// The output size of an animation (see `animation_size`).
pub fn animation_dimensions(
    width: Option<usize>,
    height: Option<usize>,
    term_cols: usize,
    term_rows: usize,
) -> (d: (usize, usize))
    ensures
        d.0 == animation_size(width, height, term_cols as int, term_rows as int).0,
        d.1 == animation_size(width, height, term_cols as int, term_rows as int).1,
{
    match (width, height) {
        (Some(w), Some(h)) => (w, h),
        (Some(w), None) => (w, w / 2 + w % 2),
        (None, Some(h)) => (if h > usize::MAX / 2 {
            usize::MAX
        } else {
            2 * h
        }, h),
        (None, None) => (if term_cols >= 2 {
            term_cols - 2
        } else {
            0
        }, if term_rows >= 2 {
            term_rows - 2
        } else {
            0
        }),
    }
}

/// Whether `s` occurs in `text`.
pub open spec fn contains_text(text: Seq<char>, s: Seq<char>) -> bool {
    exists|i: int| 0 <= i <= text.len() - s.len() && #[trigger] text.subrange(i, i + s.len()) == s
}

/// Whether `s` occurs in `text`.
pub fn contains(text: &str, s: &str) -> (r: bool)
    ensures
        r == contains_text(text@, s@),
{
    let t = crate::text::chars_of(text);
    let p = crate::text::chars_of(s);
    if p.len() > t.len() {
        return false;
    }
    let last: usize = t.len() - p.len();
    let mut i: usize = 0;
    while i <= last
        invariant
            t@ == text@,
            p@ == s@,
            last == t.len() - p.len(),
            i <= last + 1,
            forall|k: int| 0 <= k < i ==> #[trigger] text@.subrange(k, k + s@.len()) != s@,
        decreases last + 1 - i,
    {
        let mut j: usize = 0;
        let mut same = true;
        while j < p.len()
            invariant
                t@ == text@,
                p@ == s@,
                last == t.len() - p.len(),
                i <= last,
                j <= p.len(),
                same == (forall|m: int| 0 <= m < j ==> t@[i + m] == p@[m]),
            decreases p.len() - j,
        {
            if t[i + j] != p[j] {
                same = false;
            }
            j = j + 1;
        }
        if same {
            assert(text@.subrange(i as int, i + s@.len()) =~= s@);
            return true;
        }
        proof {
            let m = choose|m: int| 0 <= m < p.len() && t@[i + m] != p@[m];
            assert(text@.subrange(i as int, i + s@.len())[m] != s@[m]);
        }
        i = i + 1;
    }
    false
}

/// Whether the `COLORTERM`, `TERM_PROGRAM`, `WT_SESSION` and `KITTY_WINDOW_ID`
/// settings show a terminal with 24-bit color.
pub open spec fn truecolor_terminal(
    colorterm: Option<Seq<char>>,
    term_program: Option<Seq<char>>,
    wt_session: bool,
    kitty_window: bool,
) -> bool {
    (colorterm matches Some(v) && (contains_text(v, "truecolor"@) || contains_text(v, "24bit"@))) || (
    term_program matches Some(p) && (p == "iTerm.app"@ || p == "vscode"@ || p == "WezTerm"@))
        || wt_session || kitty_window
}

/// Check if the terminal supports 24-bit truecolor, from the values of
/// `COLORTERM` and `TERM_PROGRAM` and whether `WT_SESSION` (Windows Terminal)
/// and `KITTY_WINDOW_ID` (Kitty) are set.
///
/// This is a best-effort check.
pub fn truecolor_from_env(
    colorterm: Option<&str>,
    term_program: Option<&str>,
    wt_session: bool,
    kitty_window: bool,
) -> (r: bool)
    ensures
        r == truecolor_terminal(
            match colorterm {
                Some(v) => Some(v@),
                None => None,
            },
            match term_program {
                Some(p) => Some(p@),
                None => None,
            },
            wt_session,
            kitty_window,
        ),
{
    let by_colorterm = match colorterm {
        Some(v) => contains(v, "truecolor") || contains(v, "24bit"),
        None => false,
    };
    let by_program = match term_program {
        Some(p) => crate::text::str_eq(p, "iTerm.app") || crate::text::str_eq(p, "vscode")
            || crate::text::str_eq(p, "WezTerm"),
        None => false,
    };
    by_colorterm || by_program || wt_session || kitty_window
}

/// Whether a `TERM` value names a 256-color terminal.
pub open spec fn color256_terminal(term: Option<Seq<char>>) -> bool {
    term matches Some(t) && (contains_text(t, "256color"@) || contains_text(t, "xterm-256color"@)
        || contains_text(t, "screen-256color"@))
}

/// Check if the terminal supports the 256-color palette, from the value of `TERM`.
pub fn color256_from_env(term: Option<&str>) -> (r: bool)
    ensures
        r == color256_terminal(
            match term {
                Some(t) => Some(t@),
                None => None,
            },
        ),
{
    match term {
        Some(t) => contains(t, "256color") || contains(t, "xterm-256color") || contains(
            t,
            "screen-256color",
        ),
        None => false,
    }
}

} // verus!
