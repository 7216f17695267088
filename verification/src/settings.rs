//! Turning command-line arguments into conversion settings.

use vstd::prelude::*;
use crate::charset::{AnyCharset, Charset, CharsetError, from_custom, from_str, named_charset};
use crate::cli::{Args, background_from_text, background_splits_char};
use crate::color::{ColorMode, named_color_mode};
use crate::converter::{ConverterConfig, brightness_in_range, convert, converted, lemma_shift_fits};
use crate::image::{
    ImageView, ResizeMode, RgbaImage, lemma_resized_cells, named_resize_mode, resize_fits,
    resize_fits_exec, resize_for_terminal, resized_view,
};
use crate::output::{format_colored, formatted};
use crate::text::lowercase;

verus! {

/// Everything a conversion needs besides the image and its size.
#[derive(Debug)]
pub struct Settings {
    pub resize_mode: ResizeMode,
    pub config: ConverterConfig,
}

/// The characters the arguments select, or the message of the error.
pub open spec fn selected_glyphs(args: &Args) -> Result<Seq<char>, Seq<char>> {
    match args.custom_charset {
        Some(custom) => if custom@.len() == 0 {
            Err("Custom charset cannot be empty"@)
        } else {
            Ok(custom@)
        },
        None => match named_charset(lowercase(args.charset@)) {
            Some(c) => Ok(c.glyphs()),
            None => Err("Unknown charset: "@ + args.charset@),
        },
    }
}

/// The color mode the arguments select (none when color is off), or the message of the error.
pub open spec fn selected_color_mode(args: &Args) -> Result<ColorMode, Seq<char>> {
    if !args.color {
        Ok(ColorMode::NoColor)
    } else {
        match named_color_mode(lowercase(args.color_mode@)) {
            Some(m) => Ok(m),
            None => Err("Invalid color mode: "@ + "Unknown color mode: "@ + args.color_mode@),
        }
    }
}

/// The background the arguments select, or the message of the error.
pub open spec fn selected_background(args: &Args) -> Result<Option<(u8, u8, u8)>, Seq<char>> {
    match args.background {
        None => Ok(None),
        Some(s) => match background_from_text(s@) {
            Ok(v) => Ok(v),
            Err(m) => Err("Invalid background color: "@ + m),
        },
    }
}

/// The settings the arguments select, checked in order: resize mode, charset,
/// color mode, background.
pub open spec fn selected_settings(args: &Args) -> Result<
    (ResizeMode, Seq<char>, ColorMode, Option<(u8, u8, u8)>),
    Seq<char>,
> {
    match named_resize_mode(lowercase(args.resize@)) {
        None => Err("Invalid resize mode: "@ + "Unknown resize mode: "@ + args.resize@),
        Some(mode) => match selected_glyphs(args) {
            Err(m) => Err(m),
            Ok(glyphs) => match selected_color_mode(args) {
                Err(m) => Err(m),
                Ok(color_mode) => match selected_background(args) {
                    Err(m) => Err(m),
                    Ok(bg) => Ok((mode, glyphs, color_mode, bg)),
                },
            },
        },
    }
}

fn prefixed(prefix: &str, message: String) -> (s: String)
    ensures
        s@ == prefix@ + message@,
{
    let mut s = String::from_str(prefix);
    s.append(message.as_str());
    s
}

/// Reads the conversion settings from the arguments.
pub fn conversion_settings(args: &Args) -> (r: Result<Settings, String>)
    requires
        args.background matches Some(s) ==> !background_splits_char(s@),
    ensures
        match selected_settings(args) {
            Ok(t) => r matches Ok(st) && st.resize_mode == t.0 && st.config.charset.glyphs() == t.1
                && st.config.color_mode == t.2 && st.config.background == t.3
                && st.config.contrast == args.contrast && st.config.brightness == args.brightness
                && st.config.invert == args.invert,
            Err(m) => r matches Err(e) && e@ == m,
        },
{
    let resize_mode = match ResizeMode::from_str(args.resize.as_str()) {
        Ok(m) => m,
        Err(e) => {
            return Err(prefixed("Invalid resize mode: ", e));
        },
    };
    let charset: Result<AnyCharset, CharsetError> = match &args.custom_charset {
        Some(custom) => from_custom(custom.as_str()),
        None => from_str(args.charset.as_str()),
    };
    let charset = match charset {
        Ok(c) => c,
        Err(e) => {
            return Err(e.message());
        },
    };
    let color_mode = if !args.color {
        ColorMode::NoColor
    } else {
        match ColorMode::from_str(args.color_mode.as_str()) {
            Ok(m) => m,
            Err(e) => {
                return Err(prefixed("Invalid color mode: ", e));
            },
        }
    };
    let background = match args.parse_background() {
        Ok(b) => b,
        Err(e) => {
            return Err(prefixed("Invalid background color: ", e));
        },
    };
    Ok(
        Settings {
            resize_mode,
            config: ConverterConfig {
                charset,
                color_mode,
                contrast: args.contrast,
                brightness: args.brightness,
                invert: args.invert,
                background,
            },
        },
    )
}

/// The message for contrast or brightness outside -100..=100, if any (contrast checked first).
pub open spec fn adjustment_error(contrast: i32, brightness: i32) -> Option<Seq<char>> {
    if contrast < -100 || contrast > 100 {
        Some("Contrast must be between -100 and 100"@)
    } else if brightness < -100 || brightness > 100 {
        Some("Brightness must be between -100 and 100"@)
    } else {
        None
    }
}

/// Validates the contrast and brightness ranges of the arguments.
pub fn validate_adjustments(args: &Args) -> (r: Result<(), String>)
    ensures
        match adjustment_error(args.contrast, args.brightness) {
            Some(m) => r matches Err(e) && e@ == m,
            None => r is Ok,
        },
{
    if args.contrast < -100 || args.contrast > 100 {
        return Err(String::from_str("Contrast must be between -100 and 100"));
    }
    if args.brightness < -100 || args.brightness > 100 {
        return Err(String::from_str("Brightness must be between -100 and 100"));
    }
    Ok(())
}

/// The text a still image becomes: resized to `tw` x `th`, converted and
/// formatted with the settings.
pub open spec fn still_image_text(
    img: ImageView,
    tw: usize,
    th: usize,
    settings: &Settings,
    preserve_aspect_ratio: bool,
) -> Seq<char> {
    formatted(
        converted(
            &settings.config,
            resized_view(img, tw, th, settings.resize_mode, preserve_aspect_ratio),
        ),
        settings.config.color_mode,
    )
}

/// Rendering a still image fits the machine: the resize fits (see
/// `resize_fits`) and the brightness shift fits 32-bit arithmetic.
pub open spec fn still_render_fits(
    img: ImageView,
    tw: usize,
    th: usize,
    settings: &Settings,
    preserve_aspect_ratio: bool,
) -> bool {
    &&& resize_fits(img.width as int, img.height as int, tw, th, settings.resize_mode, preserve_aspect_ratio)
    &&& brightness_in_range(&settings.config)
}

/// Resizes, converts and formats a still image: the text a conversion prints.
///
/// `None` exactly when the rendering does not fit the machine.
pub fn render_image(
    img: &RgbaImage,
    width: usize,
    height: usize,
    settings: &Settings,
    preserve_aspect_ratio: bool,
) -> (r: Option<String>)
    ensures
        r is Some <==> still_render_fits(img@, width, height, settings, preserve_aspect_ratio),
        r matches Some(s) ==> s@ == still_image_text(img@, width, height, settings, preserve_aspect_ratio),
{
    let (w, h) = img.dimensions();
    if !resize_fits_exec(w, h, width, height, settings.resize_mode, preserve_aspect_ratio) {
        return None;
    }
    let b: i64 = settings.config.brightness as i64;
    if b != 0 && (2 * b < i32::MIN as i64 || 255 + 2 * b > i32::MAX as i64) {
        return None;
    }
    let resized = resize_for_terminal(img, width, height, settings.resize_mode, preserve_aspect_ratio);
    proof {
        lemma_resized_cells(img@, width, height, settings.resize_mode, preserve_aspect_ratio);
        lemma_shift_fits(&settings.config, resized@);
    }
    let chars = convert(&settings.config, &resized);
    let text = format_colored(chars.as_slice(), settings.config.color_mode);
    Some(text)
}

} // verus!
