use ascii_shadow::charset::{AnyCharset, Charset, StandardCharset};
use ascii_shadow::cli::Args;
use ascii_shadow::color::ColorMode;
use ascii_shadow::converter::ConverterConfig;
use ascii_shadow::gif::{
    decode_gif_frames, frame_delay_ms, frame_display_ms, playback_done, render_gif_frames,
    AnimationConfig, AsciiFrame, GifFrame, LoopCount,
};
use ascii_shadow::image::{
    calculate_dimensions, crop_to_center, decode_image, decode_image_file, get_pixel_rgba, resize_for_terminal,
    to_grayscale, ResizeMode, RgbaImage,
};
use ascii_shadow::settings::{conversion_settings, render_image, validate_adjustments, Settings};
use ascii_shadow::terminal::{
    animation_dimensions, color256_from_env, contains, output_dimensions, truecolor_from_env,
};
use std::borrow::Cow;

fn numbered(w: u32, h: u32) -> RgbaImage {
    let mut data = Vec::new();
    for y in 0..h {
        for x in 0..w {
            data.extend_from_slice(&[x as u8, y as u8, 0, 255]);
        }
    }
    RgbaImage::from_raw(w, h, data).unwrap()
}

#[test]
fn image_from_raw_checks_length() {
    assert!(RgbaImage::from_raw(2, 2, vec![0; 16]).is_some());
    assert!(RgbaImage::from_raw(2, 2, vec![0; 15]).is_none());
    let img = numbered(3, 2);
    assert_eq!(img.dimensions(), (3, 2));
    assert_eq!(get_pixel_rgba(&img, 2, 1), (2, 1, 0, 255));
    assert_eq!(img.clone().into_raw(), img.as_raw().clone());
}

#[test]
fn crop_keeps_the_center() {
    let img = numbered(5, 3);
    let c = crop_to_center(&img, 3, 1);
    assert_eq!(c.dimensions(), (3, 1));
    assert_eq!(get_pixel_rgba(&c, 0, 0), (1, 1, 0, 255));
    assert_eq!(get_pixel_rgba(&c, 2, 0), (3, 1, 0, 255));
    // a target larger than the image keeps it whole
    let whole = crop_to_center(&img, 10, 10);
    assert_eq!(whole.as_raw(), img.as_raw());
    // only one side too large
    let narrow = crop_to_center(&img, 2, 10);
    assert_eq!(narrow.dimensions(), (2, 3));
    assert_eq!(get_pixel_rgba(&narrow, 0, 2), (1, 2, 0, 255));
}

#[test]
fn resize_modes_choose_sizes() {
    let img = numbered(4, 2);
    let fit = resize_for_terminal(&img, 2, 2, ResizeMode::Fit, true);
    assert_eq!(fit.dimensions(), (2, 1));
    let fit_tall = resize_for_terminal(&numbered(2, 4), 2, 2, ResizeMode::Fit, true);
    assert_eq!(fit_tall.dimensions(), (1, 2));
    // covering the target keeps the 4x2 size (the resampler copies the
    // pixels), then the center 2x2 window is kept
    let fill = resize_for_terminal(&img, 2, 2, ResizeMode::Fill, true);
    assert_eq!(fill.dimensions(), (2, 2));
    assert_eq!(get_pixel_rgba(&fill, 0, 0), (1, 0, 0, 255));
    assert_eq!(get_pixel_rgba(&fill, 1, 1), (2, 1, 0, 255));
    let stretch = resize_for_terminal(&img, 3, 3, ResizeMode::Stretch, true);
    assert_eq!(stretch.dimensions(), (3, 3));
    assert_eq!(stretch.as_raw().len(), 36);
    let unkept = resize_for_terminal(&img, 5, 1, ResizeMode::Fit, false);
    assert_eq!(unkept.dimensions(), (5, 1));
    let crop = resize_for_terminal(&img, 2, 2, ResizeMode::Crop, false);
    assert_eq!(crop.dimensions(), (2, 2));
    assert_eq!(get_pixel_rgba(&crop, 0, 0), (1, 0, 0, 255));
    let unkept_fill = resize_for_terminal(&img, 3, 3, ResizeMode::Fill, false);
    assert_eq!(unkept_fill.dimensions(), (3, 3));
}

#[test]
fn fill_and_crop_give_the_target_size() {
    let wide = RgbaImage::filled(100, 50, (9, 9, 9, 255));
    let fill = resize_for_terminal(&wide, 40, 40, ResizeMode::Fill, true);
    assert_eq!(fill.dimensions(), (40, 40));
    let tall = RgbaImage::filled(30, 90, (9, 9, 9, 255));
    let fill_tall = resize_for_terminal(&tall, 40, 20, ResizeMode::Fill, true);
    assert_eq!(fill_tall.dimensions(), (40, 20));
    // 80x40 already covers 40x40 at scale 1: the center window is kept
    let img = numbered(80, 40);
    let crop = resize_for_terminal(&img, 40, 40, ResizeMode::Crop, true);
    assert_eq!(crop.dimensions(), (40, 40));
    assert_eq!(get_pixel_rgba(&crop, 0, 0), (20, 0, 0, 255));
    assert_eq!(get_pixel_rgba(&crop, 39, 39), (59, 39, 0, 255));
}

#[test]
fn resize_of_uniform_image_is_uniform() {
    let img = RgbaImage::filled(8, 8, (40, 80, 120, 255));
    let small = resize_for_terminal(&img, 3, 3, ResizeMode::Stretch, false);
    for y in 0..3 {
        for x in 0..3 {
            assert_eq!(get_pixel_rgba(&small, x, y), (40, 80, 120, 255));
        }
    }
}

#[test]
fn automatic_dimensions() {
    let img = RgbaImage::new_rgb8(100, 50);
    // width 78, rows 78 * 50 / 200 rounded up = 20
    assert_eq!(calculate_dimensions(&img, 80, 40), (78, 20));
    // the terminal limits the height
    assert_eq!(calculate_dimensions(&RgbaImage::new_rgb8(10, 100), 80, 10), (10, 8));
    // tiny terminals still give one cell
    assert_eq!(calculate_dimensions(&img, 1, 0), (1, 1));
    assert_eq!(calculate_dimensions(&RgbaImage::new_rgb8(0, 0), 80, 24), (1, 1));
}

#[test]
fn requested_dimensions() {
    let img = RgbaImage::new_rgb8(100, 50);
    assert_eq!(output_dimensions(Some(10), Some(3), &img, 80, 24), (10, 3));
    assert_eq!(output_dimensions(Some(40), None, &img, 80, 24), (40, 10));
    assert_eq!(output_dimensions(Some(41), None, &img, 80, 24), (41, 11));
    assert_eq!(output_dimensions(None, Some(10), &img, 80, 24), (40, 10));
    assert_eq!(output_dimensions(None, None, &img, 80, 24), (78, 20));
    assert_eq!(animation_dimensions(Some(7), None, 80, 24), (7, 4));
    assert_eq!(animation_dimensions(None, Some(7), 80, 24), (14, 7));
    assert_eq!(animation_dimensions(None, None, 80, 24), (78, 22));
    assert_eq!(animation_dimensions(None, None, 1, 2), (0, 0));
}

#[test]
fn grayscale_image_has_one_level_per_pixel() {
    let img = RgbaImage::filled(2, 1, (255, 0, 0, 255));
    let g = to_grayscale(&img);
    assert_eq!(g.dimensions(), (2, 1));
    assert_eq!(g.as_raw(), &vec![54, 54]);
}

#[test]
fn decode_png_bytes() {
    let src = image::RgbaImage::from_raw(2, 1, vec![1, 2, 3, 255, 9, 8, 7, 128]).unwrap();
    let mut bytes = std::io::Cursor::new(Vec::new());
    src.write_to(&mut bytes, image::ImageFormat::Png).unwrap();
    let img = decode_image(bytes.get_ref()).unwrap();
    assert_eq!(img.dimensions(), (2, 1));
    assert_eq!(img.as_raw(), &vec![1, 2, 3, 255, 9, 8, 7, 128]);
    // a file is read in the format its extension names
    let file = decode_image_file("dir/pic.PNG", bytes.get_ref()).unwrap();
    assert_eq!(file.as_raw(), img.as_raw());
    assert!(decode_image_file("pic.jpg", bytes.get_ref()).is_err());
    assert!(decode_image_file("pic", bytes.get_ref()).is_err());
}

#[test]
fn decode_garbage_fails() {
    match decode_image(b"not an image") {
        Err(e) => assert!(e.message().starts_with("Failed to decode image: ")),
        Ok(_) => panic!("garbage decoded"),
    }
}

fn two_frame_gif() -> Vec<u8> {
    let mut out = Vec::new();
    {
        let mut enc = gif::Encoder::new(&mut out, 2, 2, &[]).unwrap();
        let first = gif::Frame {
            width: 2,
            height: 2,
            delay: 0,
            buffer: Cow::Owned(vec![0, 0, 0, 0]),
            palette: Some(vec![255, 0, 0, 255, 255, 255]),
            ..gif::Frame::default()
        };
        enc.write_frame(&first).unwrap();
        let second = gif::Frame {
            width: 1,
            height: 1,
            left: 1,
            top: 1,
            delay: 7,
            buffer: Cow::Owned(vec![1]),
            palette: Some(vec![255, 0, 0, 255, 255, 255]),
            ..gif::Frame::default()
        };
        enc.write_frame(&second).unwrap();
    }
    out
}

fn plain_config() -> ConverterConfig {
    ConverterConfig {
        color_mode: ColorMode::NoColor,
        ..ConverterConfig::new(AnyCharset::Standard(StandardCharset))
    }
}

#[test]
fn decode_gif_composites_frames() {
    let bytes = two_frame_gif();
    let config = plain_config();
    let d = decode_gif_frames(&bytes, 2, 2, ResizeMode::Stretch, &config, ColorMode::NoColor)
        .ok()
        .unwrap();
    assert_eq!((d.width, d.height), (2, 2));
    assert_eq!(d.frames.len(), 2);
    // red has brightness 76, which selects '-'
    assert_eq!(d.frames[0].output, "--\n--\n\x1b[0m");
    assert_eq!(d.frames[0].delay_ms, 100);
    assert_eq!(d.frames[1].output, "--\n-@\n\x1b[0m");
    assert_eq!(d.frames[1].delay_ms, 70);
    assert_eq!(d.native_loops, LoopCount::Finite(0));
}

#[test]
fn decode_gif_loop_count() {
    let mut out = Vec::new();
    {
        let mut enc = gif::Encoder::new(&mut out, 1, 1, &[0, 0, 0, 255, 255, 255]).unwrap();
        enc.set_repeat(gif::Repeat::Infinite).unwrap();
        let frame = gif::Frame { width: 1, height: 1, buffer: Cow::Owned(vec![1]), ..gif::Frame::default() };
        enc.write_frame(&frame).unwrap();
        enc.write_frame(&frame).unwrap();
    }
    let config = plain_config();
    let d = decode_gif_frames(&out, 1, 1, ResizeMode::Fit, &config, ColorMode::NoColor).ok().unwrap();
    assert_eq!(d.native_loops, LoopCount::Infinite);
    assert_eq!(d.frames.len(), 2);
    match decode_gif_frames(&out, usize::MAX, usize::MAX, ResizeMode::Stretch, &config, ColorMode::NoColor) {
        Err(e) => assert_eq!(e.message(), "Output size is too large"),
        Ok(_) => panic!("an output of u32::MAX x u32::MAX cells was rendered"),
    }
}

#[test]
fn decode_gif_errors() {
    let config = plain_config();
    match decode_gif_frames(b"GIF89", 2, 2, ResizeMode::Fit, &config, ColorMode::NoColor) {
        Err(e) => assert_eq!(e.message(), "Failed to decode GIF. Is it a valid GIF file?"),
        Ok(_) => panic!("truncated header decoded"),
    }
    let mut empty = Vec::new();
    {
        let _enc = gif::Encoder::new(&mut empty, 2, 2, &[0, 0, 0, 255, 255, 255]).unwrap();
    }
    // the decoder already refuses a stream that ends before its first frame
    assert!(decode_gif_frames(&empty, 2, 2, ResizeMode::Fit, &config, ColorMode::NoColor).is_err());
}

#[test]
fn partial_frames_outside_the_canvas_are_dropped() {
    let config = plain_config();
    let frames = vec![
        GifFrame { delay: 0, left: 0, top: 0, width: 1, height: 1, buffer: vec![255, 255, 255, 255] },
        GifFrame { delay: 3, left: 0, top: 5, width: 1, height: 1, buffer: vec![255, 255, 255, 255] },
    ];
    let out = render_gif_frames(1, 1, &frames, 1, 1, ResizeMode::Fit, &config, ColorMode::NoColor);
    assert_eq!(out.len(), 2);
    assert_eq!(out[0].output, "@\n\x1b[0m");
    assert_eq!(out[1].output, "@\n\x1b[0m");
    assert_eq!(out[1].delay_ms, 30);
}

#[test]
fn frame_timing() {
    assert_eq!(frame_delay_ms(0), 100);
    assert_eq!(frame_delay_ms(4), 40);
    let frame = AsciiFrame { output: String::new(), delay_ms: 70 };
    let native = AnimationConfig { loops: 0, fps: None, clear_screen: true };
    assert_eq!(frame_display_ms(&native, &frame), 70);
    let forced = AnimationConfig { loops: 2, fps: Some(30), clear_screen: false };
    assert_eq!(frame_display_ms(&forced, &frame), 33);
    assert!(!playback_done(&native, 1000));
    assert!(!playback_done(&forced, 0));
    assert!(playback_done(&forced, 1));
}

#[test]
fn terminal_color_support() {
    assert!(truecolor_from_env(Some("truecolor"), None, false, false));
    assert!(truecolor_from_env(Some("x-24bit"), None, false, false));
    assert!(truecolor_from_env(None, Some("vscode"), false, false));
    assert!(!truecolor_from_env(None, Some("VSCode"), false, false));
    assert!(truecolor_from_env(None, None, true, false));
    assert!(truecolor_from_env(None, None, false, true));
    assert!(!truecolor_from_env(Some("yes"), Some("xterm"), false, false));
    assert!(color256_from_env(Some("xterm-256color")));
    assert!(color256_from_env(Some("tmux-256color")));
    assert!(!color256_from_env(Some("xterm")));
    assert!(!color256_from_env(None));
    assert!(contains("abc", ""));
    assert!(contains("abc", "bc"));
    assert!(!contains("ab", "abc"));
}

#[test]
fn settings_from_arguments() {
    let args = Args {
        charset: "Blocks".to_string(),
        color_mode: "256".to_string(),
        background: Some("#010203".to_string()),
        contrast: 5,
        brightness: -3,
        invert: true,
        resize: "Crop".to_string(),
        ..Default::default()
    };
    let s = conversion_settings(&args).unwrap();
    assert_eq!(s.resize_mode, ResizeMode::Crop);
    assert_eq!(s.config.charset.len(), 5);
    assert_eq!(s.config.color_mode, ColorMode::Color256);
    assert_eq!(s.config.background, Some((1, 2, 3)));
    assert_eq!((s.config.contrast, s.config.brightness, s.config.invert), (5, -3, true));
    let off = Args { color: false, color_mode: "bogus".to_string(), ..Default::default() };
    assert_eq!(conversion_settings(&off).unwrap().config.color_mode, ColorMode::NoColor);
    let custom = Args { custom_charset: Some(".#".to_string()), ..Default::default() };
    assert_eq!(conversion_settings(&custom).unwrap().config.charset.characters(), &['.', '#']);
}

#[test]
fn settings_errors_in_order() {
    let err = |a: Args| conversion_settings(&a).err().unwrap();
    assert_eq!(
        err(Args { resize: "zoom".to_string(), charset: "bad".to_string(), ..Default::default() }),
        "Invalid resize mode: Unknown resize mode: zoom"
    );
    assert_eq!(err(Args { charset: "bad".to_string(), ..Default::default() }), "Unknown charset: bad");
    assert_eq!(
        err(Args { custom_charset: Some(String::new()), ..Default::default() }),
        "Custom charset cannot be empty"
    );
    assert_eq!(
        err(Args { color_mode: "cmyk".to_string(), ..Default::default() }),
        "Invalid color mode: Unknown color mode: cmyk"
    );
    assert_eq!(
        err(Args { background: Some("12".to_string()), ..Default::default() }),
        "Invalid background color: Background color must be 6 hex digits"
    );
    assert!(validate_adjustments(&Args::default()).is_ok());
    assert_eq!(
        validate_adjustments(&Args { contrast: 101, brightness: 500, ..Default::default() })
            .unwrap_err(),
        "Contrast must be between -100 and 100"
    );
    assert_eq!(
        validate_adjustments(&Args { brightness: -101, ..Default::default() }).unwrap_err(),
        "Brightness must be between -100 and 100"
    );
}

#[test]
fn still_image_rendering() {
    let white = RgbaImage::filled(4, 2, (255, 255, 255, 255));
    let plain = Settings { resize_mode: ResizeMode::Stretch, config: plain_config() };
    assert_eq!(render_image(&white, 3, 2, &plain, true).unwrap(), "@@@\n@@@\n\x1b[0m");
    let colored = Settings {
        resize_mode: ResizeMode::Stretch,
        config: ConverterConfig { color_mode: ColorMode::Truecolor, ..plain_config() },
    };
    assert_eq!(
        render_image(&white, 1, 1, &colored, false).unwrap(),
        "\x1b[0m\x1b[38;2;255;255;255m@\n\x1b[0m\x1b[0m"
    );
    let unbounded = Settings {
        resize_mode: ResizeMode::Stretch,
        config: ConverterConfig { brightness: i32::MAX, ..plain_config() },
    };
    assert!(render_image(&white, 3, 2, &unbounded, true).is_none());
    assert!(render_image(&white, usize::MAX, usize::MAX, &plain, false).is_none());
}
