//! Main conversion logic from pixels to characters.

use vstd::prelude::*;
use crate::charset::{AnyCharset, Charset, brightness_glyph};
use crate::color::{ColorMode, grayscale_value, rgb_to_grayscale};
use crate::image::{ImageView, RgbaImage, get_pixel_rgba};
use crate::output::{formatted, lemma_uncolored_output, plain_text};
use crate::color::reset_seq;

verus! {

/// Represents a colored character for output.
#[derive(Debug, Clone, Copy, PartialEq, Eq)]
pub struct ColoredChar {
    pub char: char,
    pub color: Option<(u8, u8, u8)>,
    pub bg: Option<(u8, u8, u8)>,
}

/// The uncolored line break that ends each row.
pub open spec fn newline_cell() -> ColoredChar {
    ColoredChar { char: '\n', color: None, bg: None }
}

/// Configuration for the converter.
#[derive(Debug)]
pub struct ConverterConfig {
    pub charset: AnyCharset,
    pub color_mode: ColorMode,
    pub contrast: i32,
    pub brightness: i32,
    pub invert: bool,
    pub background: Option<(u8, u8, u8)>,
}

impl ConverterConfig {
    /// A configuration with the given charset, grayscale colors and no adjustments.
    pub fn new(charset: AnyCharset) -> (c: Self)
        ensures
            c.charset == charset,
            c.color_mode == ColorMode::Grayscale,
            c.contrast == 0,
            c.brightness == 0,
            !c.invert,
            c.background is None,
    {
        ConverterConfig {
            charset,
            color_mode: ColorMode::Grayscale,
            contrast: 0,
            brightness: 0,
            invert: false,
            background: None,
        }
    }
}

/// Represents an adjusted pixel with brightness and color.
#[derive(Debug, Clone, Copy)]
pub struct AdjustedPixel {
    pub brightness: u8,
    pub color: (u8, u8, u8),
}

/// `v` limited to `lo..=hi`.
pub open spec fn clamp(v: int, lo: int, hi: int) -> int {
    if v < lo {
        lo
    } else if v > hi {
        hi
    } else {
        v
    }
}

/// Channel `c` seen with opacity `a` over channel `base`: `base * (1 - a/255) + c * a/255`,
/// rounded down.
pub open spec fn blend(base: u8, c: u8, a: u8) -> int {
    (base * (255 - a) + c * a) / 255
}

/// The visible color of pixel `p`: a translucent pixel is blended over the
/// background color, or over white when there is none.
pub open spec fn visible_rgb(background: Option<(u8, u8, u8)>, p: (u8, u8, u8, u8)) -> (u8, u8, u8) {
    if p.3 < 255 {
        let base = match background {
            Some(bg) => bg,
            None => (255u8, 255u8, 255u8),
        };
        (blend(base.0, p.0, p.3) as u8, blend(base.1, p.1, p.3) as u8, blend(base.2, p.2, p.3) as u8)
    } else {
        (p.0, p.1, p.2)
    }
}

/// Brightness `b` with contrast `c` (percent, 0 = unchanged) applied around 128:
/// `(b - 128) * (1 + c / 50) + 128`, rounded down and limited to 0-255.
pub open spec fn contrasted(b: int, c: i32) -> int {
    if c == 0 {
        b
    } else {
        clamp((6400 + (b - 128) * (50 + c)) / 50, 0, 255)
    }
}

/// Brightness `b` shifted by twice `adj`, limited to 0-255.
pub open spec fn brightened(b: int, adj: i32) -> int {
    if adj == 0 {
        b
    } else {
        clamp(b + 2 * adj, 0, 255)
    }
}

/// The grayscale level of pixel `p` after contrast, before the brightness shift.
pub open spec fn contrasted_level(config: &ConverterConfig, p: (u8, u8, u8, u8)) -> int {
    let rgb = visible_rgb(config.background, p);
    contrasted(grayscale_value(rgb.0, rgb.1, rgb.2), config.contrast)
}

/// The brightness that selects the character of pixel `p`.
pub open spec fn adjusted_brightness(config: &ConverterConfig, p: (u8, u8, u8, u8)) -> int {
    let v = brightened(contrasted_level(config, p), config.brightness);
    if config.invert {
        255 - v
    } else {
        v
    }
}

/// The brightness shift of `config` fits the 32-bit arithmetic it is computed in, for pixel `p`.
pub open spec fn brightness_shift_fits(config: &ConverterConfig, p: (u8, u8, u8, u8)) -> bool {
    config.brightness != 0 ==> (i32::MIN <= 2 * config.brightness && contrasted_level(config, p) + 2
        * config.brightness <= i32::MAX)
}

/// Inverting swaps dark and light: with everything else equal, the inverted
/// brightness is 255 minus the plain one.
pub proof fn lemma_invert_mirrors(a: &ConverterConfig, b: &ConverterConfig, p: (u8, u8, u8, u8))
    requires
        a.invert,
        !b.invert,
        a.background == b.background,
        a.contrast == b.contrast,
        a.brightness == b.brightness,
    ensures
        adjusted_brightness(a, p) == 255 - adjusted_brightness(b, p),
        0 <= adjusted_brightness(b, p) <= 255,
{
    let rgb = visible_rgb(b.background, p);
    crate::color::lemma_grayscale_between_components(rgb.0, rgb.1, rgb.2);
}

/// Without adjustments, an opaque pixel's brightness is its grayscale value.
pub proof fn lemma_neutral_adjustment(config: &ConverterConfig, p: (u8, u8, u8, u8))
    requires
        config.contrast == 0,
        config.brightness == 0,
        !config.invert,
        p.3 == 255,
    ensures
        adjusted_brightness(config, p) == grayscale_value(p.0, p.1, p.2),
{
}

/// With color off and no background, the formatted picture is exactly the
/// characters of each row followed by a line break, then the final reset.
pub proof fn lemma_plain_picture(config: &ConverterConfig, img: ImageView)
    requires
        config.color_mode == ColorMode::NoColor,
        config.background is None,
    ensures
        formatted(converted(config, img), ColorMode::NoColor) == plain_text(converted(config, img))
            + reset_seq(),
        forall|i: int|
            0 <= i < converted(config, img).len() ==> (#[trigger] converted(config, img)[i]).color is None,
{
    lemma_uncolored_output(converted(config, img), ColorMode::NoColor);
}

fn blend_channel(base: u8, c: u8, a: u8) -> (v: u8)
    ensures
        v == blend(base, c, a),
{
    assert(base * (255 - a) + c * a <= 255 * 255) by (nonlinear_arith)
        requires
            base <= 255,
            c <= 255,
            a <= 255,
    ;
    assert(0 <= base * (255 - a) + c * a) by (nonlinear_arith)
        requires
            a <= 255,
    ;
    let t: u32 = (base as u32) * (255 - a as u32) + (c as u32) * (a as u32);
    (t / 255) as u8
}

fn contrast_level(b: u8, c: i32) -> (v: u8)
    ensures
        v == contrasted(b as int, c),
{
    if c == 0 {
        return b;
    }
    let d: i64 = b as i64 - 128;
    let f: i64 = 50 + c as i64;
    assert(-0x1_0000_0000_0000 <= d * f <= 0x1_0000_0000_0000) by (nonlinear_arith)
        requires
            -128 <= d <= 127,
            -0x1_0000_0000 <= f <= 0x1_0000_0000,
    ;
    let num: i64 = 6400 + d * f;
    if num < 0 {
        0
    } else {
        let q: i64 = num / 50;
        if q > 255 {
            255
        } else {
            q as u8
        }
    }
}

/// Apply contrast, brightness, and inversion to a pixel.
pub fn adjust_pixel(config: &ConverterConfig, pixel: (u8, u8, u8, u8)) -> (a: AdjustedPixel)
    requires
        brightness_shift_fits(config, pixel),
    ensures
        a.color == visible_rgb(config.background, pixel),
        a.brightness == adjusted_brightness(config, pixel),
{
    let (r, g, b, a) = pixel;
    let (r, g, b) = if a < 255 {
        let (br, bgc, bb) = match config.background {
            Some(bg) => bg,
            None => (255u8, 255u8, 255u8),
        };
        (blend_channel(br, r, a), blend_channel(bgc, g, a), blend_channel(bb, b, a))
    } else {
        (r, g, b)
    };
    let gray = rgb_to_grayscale(r, g, b);
    let mut brightness: u8 = contrast_level(gray, config.contrast);
    if config.brightness != 0 {
        let adjustment: i32 = config.brightness * 2;
        let shifted: i32 = brightness as i32 + adjustment;
        brightness = if shifted < 0 {
            0
        } else if shifted > 255 {
            255
        } else {
            shifted as u8
        };
    }
    if config.invert {
        brightness = 255 - brightness;
    }
    AdjustedPixel { brightness, color: (r, g, b) }
}

/// The character cell produced for the pixel at `(x, y)`.
pub open spec fn cell_at(config: &ConverterConfig, img: ImageView, x: int, y: int) -> ColoredChar {
    let p = img.pixel(x, y);
    ColoredChar {
        char: brightness_glyph(config.charset.glyphs(), adjusted_brightness(config, p) as u8),
        color: if config.color_mode == ColorMode::NoColor {
            None
        } else {
            Some(visible_rgb(config.background, p))
        },
        bg: config.background,
    }
}

/// The cells of `img`: each row's cells left to right, followed by a line break.
pub open spec fn converted(config: &ConverterConfig, img: ImageView) -> Seq<ColoredChar> {
    let w = img.width as int;
    Seq::new(
        (img.height * (w + 1)) as nat,
        |i: int|
            if i % (w + 1) == w {
                newline_cell()
            } else {
                cell_at(config, img, i % (w + 1), i / (w + 1))
            },
    )
}

/// The brightness shift fits for every pixel of `img`.
pub open spec fn shift_fits_everywhere(config: &ConverterConfig, img: ImageView) -> bool {
    forall|x: int, y: int|
        0 <= x < img.width && 0 <= y < img.height ==> #[trigger] brightness_shift_fits(
            config,
            img.pixel(x, y),
        )
}

/// The brightness shift of `config` fits 32-bit arithmetic for every pixel.
pub open spec fn brightness_in_range(config: &ConverterConfig) -> bool {
    config.brightness != 0 ==> (i32::MIN <= 2 * config.brightness && 255 + 2 * config.brightness
        <= i32::MAX)
}

/// Within that range the shift fits for every pixel of any image.
pub proof fn lemma_shift_fits(config: &ConverterConfig, img: ImageView)
    requires
        brightness_in_range(config),
    ensures
        shift_fits_everywhere(config, img),
{
    assert forall|x: int, y: int|
        0 <= x < img.width && 0 <= y < img.height implies #[trigger] brightness_shift_fits(
        config,
        img.pixel(x, y),
    ) by {
        let l = contrasted_level(config, img.pixel(x, y));
        assert(l <= 255);
    }
}

proof fn lemma_cell_position(x: int, y: int, w: int)
    requires
        0 <= x <= w,
        0 <= y,
    ensures
        (y * (w + 1) + x) % (w + 1) == x,
        (y * (w + 1) + x) / (w + 1) == y,
{
    vstd::arithmetic::div_mod::lemma_fundamental_div_mod_converse(y * (w + 1) + x, w + 1, y, x);
}

/// With color on, the cell of each pixel carries the color the pixel shows:
/// its own color when opaque, the background (white when there is none) when
/// fully transparent, and in between each channel
/// `(base * (255 - alpha) + channel * alpha) / 255`; its background is the
/// configured one.
pub proof fn lemma_cell_shows_visible_color(config: &ConverterConfig, img: ImageView, x: int, y: int)
    requires
        config.color_mode != ColorMode::NoColor,
        0 <= x < img.width,
        0 <= y < img.height,
    ensures
        ({
            let p = img.pixel(x, y);
            let base = match config.background {
                Some(b) => b,
                None => (255u8, 255u8, 255u8),
            };
            let cell = converted(config, img)[y * (img.width + 1) + x];
            let shown = cell.color.unwrap();
            &&& cell.color is Some
            &&& cell.bg == config.background
            &&& p.3 == 255 ==> cell.color == Some((p.0, p.1, p.2))
            &&& p.3 == 0 ==> cell.color == Some(base)
            &&& p.3 < 255 ==> shown.0 == (base.0 * (255 - p.3) + p.0 * p.3) / 255
                && shown.1 == (base.1 * (255 - p.3) + p.1 * p.3) / 255
                && shown.2 == (base.2 * (255 - p.3) + p.2 * p.3) / 255
        }),
{
    let w = img.width as int;
    lemma_cell_position(x, y, w);
    assert(0 <= y * (w + 1) + x < img.height * (w + 1)) by (nonlinear_arith)
        requires
            0 <= x < w,
            0 <= y < img.height,
    ;
    let p = img.pixel(x, y);
    let base = match config.background {
        Some(b) => b,
        None => (255u8, 255u8, 255u8),
    };
    lemma_blend_range(base.0, p.0, p.3);
    lemma_blend_range(base.1, p.1, p.3);
    lemma_blend_range(base.2, p.2, p.3);
}

proof fn lemma_blend_range(base: u8, c: u8, a: u8)
    ensures
        0 <= blend(base, c, a) <= 255,
        a == 0 ==> blend(base, c, a) == base,
{
    assert(0 <= base * (255 - a) + c * a <= 255 * 255) by (nonlinear_arith)
        requires
            base <= 255,
            c <= 255,
            a <= 255,
    ;
    assert(a == 0 ==> base * (255 - a) + c * a == base * 255) by (nonlinear_arith);
}

/// The cells form the image's rows: `width` cells per row, each row closed by
/// an uncolored line break, `height * (width + 1)` cells in all. The cell of a
/// pixel holds the charset character of its brightness, and no color when
/// color is off.
pub proof fn lemma_grid_layout(config: &ConverterConfig, img: ImageView, x: int, y: int)
    requires
        0 <= y < img.height,
        0 <= x <= img.width,
    ensures
        converted(config, img).len() == img.height * (img.width + 1),
        0 <= y * (img.width + 1) + x < converted(config, img).len(),
        x == img.width ==> converted(config, img)[y * (img.width + 1) + x] == (ColoredChar {
            char: '\n',
            color: None,
            bg: None,
        }),
        x < img.width ==> converted(config, img)[y * (img.width + 1) + x].char == brightness_glyph(
            config.charset.glyphs(),
            adjusted_brightness(config, img.pixel(x, y)) as u8,
        ),
        (x < img.width && config.color_mode == ColorMode::NoColor) ==> converted(config, img)[y
            * (img.width + 1) + x].color is None,
{
    let w = img.width as int;
    lemma_cell_position(x, y, w);
    assert(0 <= y * (w + 1) + x < img.height * (w + 1)) by (nonlinear_arith)
        requires
            0 <= x <= w,
            0 <= y < img.height,
    ;
}

/// Brightness `s` (with no contrast or inversion) shifts an opaque pixel's
/// perceived brightness `g` by `2 * s`, limited to 0-255: it never darkens for
/// `s > 0` and never lightens for `s < 0`.
pub proof fn lemma_brightness_shifts_level(config: &ConverterConfig, p: (u8, u8, u8, u8))
    requires
        config.contrast == 0,
        !config.invert,
        p.3 == 255,
    ensures
        ({
            let g = (299 * p.0 + 587 * p.1 + 114 * p.2) / 1000;
            let v = g + 2 * config.brightness;
            let level = adjusted_brightness(config, p);
            &&& level == (if v < 0 {
                0
            } else if v > 255 {
                255
            } else {
                v
            })
            &&& config.brightness > 0 ==> level >= g
            &&& config.brightness < 0 ==> level <= g
        }),
{
    let g = (299 * p.0 + 587 * p.1 + 114 * p.2) / 1000;
    assert(0 <= g <= 255);
}

/// Contrast `c` (nonzero) maps an opaque pixel of perceived brightness
/// `g = floor(0.299 r + 0.587 g + 0.114 b)` to `(g - 128) * (1 + c / 50) + 128`,
/// rounded down and limited to 0-255 (without brightness shift or inversion).
/// A positive contrast moves every level away from 128 (never closer); a
/// contrast between -50 and 0 moves it toward 128 (never past it).
pub proof fn lemma_contrast_scales_around_middle(config: &ConverterConfig, p: (u8, u8, u8, u8))
    requires
        config.contrast != 0,
        config.brightness == 0,
        !config.invert,
        p.3 == 255,
    ensures
        ({
            let g = (299 * p.0 + 587 * p.1 + 114 * p.2) / 1000;
            let v = (6400 + (g - 128) * (50 + config.contrast)) / 50;
            let level = adjusted_brightness(config, p);
            &&& level == (if v < 0 {
                0
            } else if v > 255 {
                255
            } else {
                v
            })
            &&& config.contrast > 0 && g >= 128 ==> g <= level
            &&& config.contrast > 0 && g <= 128 ==> level <= g
            &&& -50 <= config.contrast < 0 && g >= 128 ==> 128 <= level <= g
            &&& -50 <= config.contrast < 0 && g <= 128 ==> g <= level <= 128
        }),
{
    let g = (299 * p.0 + 587 * p.1 + 114 * p.2) / 1000;
    let c = config.contrast as int;
    assert(0 <= g <= 255);
    if c > 0 && g >= 128 {
        assert((g - 128) * (50 + c) >= (g - 128) * 50) by (nonlinear_arith)
            requires
                g >= 128,
                c > 0,
        ;
    }
    if c > 0 && g <= 128 {
        assert((g - 128) * (50 + c) <= (g - 128) * 50) by (nonlinear_arith)
            requires
                g <= 128,
                c > 0,
        ;
    }
    if -50 <= c < 0 && g >= 128 {
        assert(0 <= (g - 128) * (50 + c) <= (g - 128) * 50) by (nonlinear_arith)
            requires
                g >= 128,
                -50 <= c < 0,
        ;
    }
    if -50 <= c < 0 && g <= 128 {
        assert((g - 128) * 50 <= (g - 128) * (50 + c) <= 0) by (nonlinear_arith)
            requires
                g <= 128,
                -50 <= c < 0,
        ;
    }
}

/// Convert an image to a grid of colored characters.
pub fn convert(config: &ConverterConfig, img: &RgbaImage) -> (result: Vec<ColoredChar>)
    requires
        img@.width * img@.height + img@.height <= u32::MAX,
        shift_fits_everywhere(config, img@),
    ensures
        result@ == converted(config, img@),
{
    let (width, height) = img.dimensions();
    let ghost w = width as int;
    let ghost total = converted(config, img@);
    let mut result: Vec<ColoredChar> = Vec::new();
    let mut y: u32 = 0;
    while y < height
        invariant
            width == img@.width,
            height == img@.height,
            w == width,
            total == converted(config, img@),
            shift_fits_everywhere(config, img@),
            y <= height,
            result@.len() == y * (w + 1),
            forall|j: int| 0 <= j < result@.len() ==> result@[j] == total[j],
        decreases height - y,
    {
        let mut x: u32 = 0;
        while x < width
            invariant
                width == img@.width,
                height == img@.height,
                w == width,
                total == converted(config, img@),
                shift_fits_everywhere(config, img@),
                y < height,
                x <= width,
                result@.len() == y * (w + 1) + x,
                forall|j: int| 0 <= j < result@.len() ==> result@[j] == total[j],
            decreases width - x,
        {
            let pixel = get_pixel_rgba(img, x, y);
            assert(brightness_shift_fits(config, img@.pixel(x as int, y as int)));
            let adjusted = adjust_pixel(config, pixel);
            let c = config.charset.map_brightness(adjusted.brightness);
            let color = if config.color_mode == ColorMode::NoColor {
                None
            } else {
                Some(adjusted.color)
            };
            let bg = config.background;
            proof {
                lemma_cell_position(x as int, y as int, w);
                assert(y * (w + 1) + x < height * (w + 1)) by (nonlinear_arith)
                    requires
                        y < height,
                        x < w + 1,
                ;
            }
            result.push(ColoredChar { char: c, color, bg });
            x = x + 1;
        }
        proof {
            lemma_cell_position(w, y as int, w);
            assert(y * (w + 1) + w < height * (w + 1)) by (nonlinear_arith)
                requires
                    y < height,
                    w >= 0,
            ;
        }
        result.push(ColoredChar { char: '\n', color: None, bg: None });
        proof {
            assert((y + 1) * (w + 1) == y * (w + 1) + w + 1) by (nonlinear_arith);
        }
        y = y + 1;
    }
    assert(result@ =~= total);
    result
}

} // verus!
