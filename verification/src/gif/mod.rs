//! GIF decoding and animation handling.

use vstd::prelude::*;
use crate::cli::InputSource;
use crate::color::ColorMode;
use crate::converter::{
    ConverterConfig, brightness_in_range, convert, converted, lemma_shift_fits,
};
use crate::image::{
    ImageView, RgbaImage, ResizeMode, lemma_resized_cells, resize_fits, resize_fits_exec,
    resize_for_terminal, resized_view,
};
use crate::output::{format_colored, formatted};
use crate::gif::stream::{
    frame_fields, gif_frame_read, gif_header, gif_repeat_count, gif_height, gif_next_frame, gif_repeat, gif_width,
    open_gif,
};
use crate::text::{all_ascii, ascii_lowered, ends_with, eq_ignore_ascii_case, has_suffix, lowercase, same_ignoring_ascii_case, to_lowercase};

pub mod stream;

verus! {

/// Represents a single ASCII frame with its display duration.
#[derive(Debug, Clone)]
pub struct AsciiFrame {
    /// The pre-formatted ASCII output string
    pub output: String,
    /// Frame delay in milliseconds (from GIF, can be overridden by --fps)
    pub delay_ms: u64,
}

/// Configuration for GIF animation playback.
#[derive(Debug, Clone)]
pub struct AnimationConfig {
    /// Number of times to loop (0 = infinite)
    pub loops: u32,
    /// Override FPS (None = use GIF native delays)
    pub fps: Option<u32>,
    /// Whether to clear screen between frames
    pub clear_screen: bool,
}

/// How many times a GIF asks to be played.
#[derive(Debug, Clone, Copy, PartialEq, Eq, Structural)]
pub enum LoopCount {
    /// A finite number of repetitions
    Finite(u16),
    /// Loop forever
    Infinite,
}

/// The loop count that `gif_repeat_count` reports.
pub open spec fn loop_count_of(count: Option<u16>) -> LoopCount {
    match count {
        Some(n) => LoopCount::Finite(n),
        None => LoopCount::Infinite,
    }
}

/// Result of GIF decoding with pre-converted ASCII frames.
pub struct DecodedGif {
    /// All frames as pre-converted ASCII
    pub frames: Vec<AsciiFrame>,
    /// Native loop count from GIF
    pub native_loops: LoopCount,
    /// Canvas dimensions
    pub width: u16,
    pub height: u16,
}

/// The extension of a path, as std's `Path::extension` finds it.
pub uninterp spec fn path_extension(path: Seq<char>) -> Option<Seq<char>>;

/// The extension of the file that `path` names.
///
/// Trusted: calls `Path::extension` (the part of the file name after its last
/// `.`, if any). Its result is named, not stated.
#[verifier::external_body]
fn extension_of(path: &str) -> (r: Option<String>)
    ensures
        match r {
            Some(e) => path_extension(path@) == Some(e@),
            None => path_extension(path@) is None,
        },
{
    match std::path::Path::new(path).extension() {
        Some(e) => Some(e.to_string_lossy().into_owned()),
        None => None,
    }
}

/// Whether an input source names a GIF: a file with a `gif` extension in any
/// ASCII case, or a URL whose lower-cased form ends with `.gif`.
pub open spec fn names_gif(source: InputSource) -> bool {
    match source {
        InputSource::File(path) => match path_extension(path@) {
            Some(e) => same_ignoring_ascii_case(e, "gif"@),
            None => false,
        },
        InputSource::Url(url) => has_suffix(lowercase(url@), ".gif"@),
    }
}

/// Detect if an input source is a GIF.
pub fn is_gif(source: &InputSource) -> (r: bool)
    ensures
        r == names_gif(*source),
        source matches InputSource::Url(u) ==> (all_ascii(u@) ==> lowercase(u@) == ascii_lowered(u@)),
{
    match source {
        InputSource::File(path) => match extension_of(path.as_str()) {
            Some(e) => eq_ignore_ascii_case(e.as_str(), "gif"),
            None => false,
        },
        InputSource::Url(url) => {
            let lower = to_lowercase(url.as_str());
            ends_with(lower.as_str(), ".gif")
        },
    }
}

/// A decoded GIF frame: its placement on the canvas, its delay in
/// centiseconds, and its RGBA pixels row by row.
#[derive(Debug, Clone)]
pub struct GifFrame {
    pub delay: u16,
    pub left: u16,
    pub top: u16,
    pub width: u16,
    pub height: u16,
    pub buffer: Vec<u8>,
}

/// The frame's buffer holds four bytes per pixel.
pub open spec fn frame_well_formed(f: GifFrame) -> bool {
    f.buffer@.len() == 4 * (f.width * f.height)
}

/// The display time of a frame delay given in centiseconds; 100 ms when the
/// GIF gives none.
pub open spec fn frame_delay(delay_cs: u16) -> int {
    if delay_cs == 0 {
        100
    } else {
        10 * delay_cs
    }
}

/// Frame delay in milliseconds for a delay in centiseconds (0 means 100 ms).
pub fn frame_delay_ms(delay_cs: u16) -> (ms: u64)
    ensures
        ms == frame_delay(delay_cs),
{
    if delay_cs == 0 {
        100
    } else {
        (delay_cs as u64) * 10
    }
}

/// `s` with the bytes from `start` on replaced by `piece`.
pub open spec fn splice(s: Seq<u8>, start: int, piece: Seq<u8>) -> Seq<u8> {
    s.subrange(0, start) + piece + s.subrange(start + piece.len(), s.len() as int)
}

/// The canvas after copying the first `rows` rows of frame `f` onto it: each
/// row goes to its place on the canvas when it fits in the buffer, and is
/// dropped otherwise.
pub open spec fn paste_rows(screen: Seq<u8>, f: GifFrame, canvas_w: int, rows: int) -> Seq<u8>
    decreases rows,
{
    if rows <= 0 {
        screen
    } else {
        let s = paste_rows(screen, f, canvas_w, rows - 1);
        let y = rows - 1;
        let fs = 4 * f.width;
        let start = (f.top + y) * (4 * canvas_w) + 4 * f.left;
        if start + fs <= s.len() {
            splice(s, start, f.buffer@.subrange(y * fs, y * fs + fs))
        } else {
            s
        }
    }
}

/// The canvas of a `w` x `h` GIF after its first `k` frames, starting from
/// transparent black.
pub open spec fn canvas_after(w: u16, h: u16, frames: Seq<GifFrame>, k: int) -> Seq<u8>
    decreases k,
{
    if k <= 0 {
        Seq::new(4 * (w * h) as nat, |i: int| 0u8)
    } else {
        paste_rows(canvas_after(w, h, frames, k - 1), frames[k - 1], w as int, frames[k - 1].height as int)
    }
}

proof fn lemma_paste_rows_len(screen: Seq<u8>, f: GifFrame, canvas_w: int, rows: int)
    requires
        frame_well_formed(f),
        rows <= f.height,
        canvas_w >= 0,
    ensures
        paste_rows(screen, f, canvas_w, rows).len() == screen.len(),
    decreases rows,
{
    if rows > 0 {
        lemma_paste_rows_len(screen, f, canvas_w, rows - 1);
        let y = rows - 1;
        let fs = 4 * f.width;
        assert(y * fs + fs <= f.buffer@.len()) by (nonlinear_arith)
            requires
                y + 1 <= f.height,
                fs == 4 * f.width,
                f.buffer@.len() == 4 * (f.width * f.height),
                0 <= y,
        ;
        assert(0 <= y * fs) by (nonlinear_arith)
            requires
                0 <= y,
                fs >= 0,
        ;
        assert(0 <= (f.top + y) * (4 * canvas_w)) by (nonlinear_arith)
            requires
                0 <= y,
                canvas_w >= 0,
                f.top >= 0,
        ;
    }
}

proof fn lemma_canvas_after_len(w: u16, h: u16, frames: Seq<GifFrame>, k: int)
    requires
        k <= frames.len(),
        forall|i: int| 0 <= i < frames.len() ==> frame_well_formed(#[trigger] frames[i]),
    ensures
        canvas_after(w, h, frames, k).len() == 4 * (w * h),
    decreases k,
{
    if k > 0 {
        lemma_canvas_after_len(w, h, frames, k - 1);
        lemma_paste_rows_len(
            canvas_after(w, h, frames, k - 1),
            frames[k - 1],
            w as int,
            frames[k - 1].height as int,
        );
    }
}

/// Copies frame `f` onto the canvas, row by row (partial frame updates).
fn paste_frame(screen: &mut Vec<u8>, f: &GifFrame, canvas_w: u16)
    requires
        frame_well_formed(*f),
    ensures
        final(screen)@ == paste_rows(old(screen)@, *f, canvas_w as int, f.height as int),
{
    let stride: u64 = canvas_w as u64 * 4;
    let fs: u64 = f.width as u64 * 4;
    let n: u64 = screen.len() as u64;
    let blen = f.buffer.len();
    let mut y: u64 = 0;
    while y < f.height as u64
        invariant
            stride == 4 * canvas_w,
            fs == 4 * f.width,
            n == screen@.len(),
            n == old(screen)@.len(),
            n <= usize::MAX,
            blen == f.buffer@.len(),
            frame_well_formed(*f),
            y <= f.height,
            screen@ == paste_rows(old(screen)@, *f, canvas_w as int, y as int),
        decreases f.height - y,
    {
        proof {
            lemma_paste_rows_len(old(screen)@, *f, canvas_w as int, y as int);
            assert((f.top + y) * stride <= 0x1_0000_0000_0000) by (nonlinear_arith)
                requires
                    f.top + y <= 0x2_0000,
                    stride <= 0x4_0000,
                    0 <= f.top + y,
                    0 <= stride,
            ;
        }
        let start: u64 = (f.top as u64 + y) * stride + f.left as u64 * 4;
        if start + fs <= n {
            proof {
                assert(y * fs + fs <= blen) by (nonlinear_arith)
                    requires
                        y + 1 <= f.height,
                        fs == 4 * f.width,
                        blen == 4 * (f.width * f.height),
                        0 <= y,
                ;
                assert(0 <= y * fs) by (nonlinear_arith)
                    requires
                        0 <= y,
                        fs >= 0,
                ;
            }
            let src: u64 = y * fs;
            let ghost before = screen@;
            let ghost piece = f.buffer@.subrange(src as int, (src + fs) as int);
            assert(before.subrange(0, start as int) + piece.subrange(0, 0) + before.subrange(
                start as int,
                n as int,
            ) =~= before);
            let mut i: u64 = 0;
            while i < fs
                invariant
                    n == screen@.len(),
                    n <= usize::MAX,
                    blen == f.buffer@.len(),
                    start + fs <= n,
                    src + fs <= blen,
                    i <= fs,
                    piece == f.buffer@.subrange(src as int, (src + fs) as int),
                    piece.len() == fs,
                    before.len() == n,
                    screen@ =~= before.subrange(0, start as int) + piece.subrange(0, i as int)
                        + before.subrange((start + i) as int, n as int),
                decreases fs - i,
            {
                let b = f.buffer[(src + i) as usize];
                let ghost prev = screen@;
                screen.set((start + i) as usize, b);
                proof {
                    assert(screen@ == prev.update((start + i) as int, b));
                    assert(b == piece[i as int]);
                    let target = before.subrange(0, start as int) + piece.subrange(0, (i + 1) as int)
                        + before.subrange((start + i + 1) as int, n as int);
                    assert forall|j: int| 0 <= j < n implies #[trigger] screen@[j] == target[j] by {
                        if j < start {
                            assert(prev[j] == before[j]);
                        } else if j < start + i {
                            assert(prev[j] == piece[j - start]);
                        } else if j == start + i {
                        } else {
                            assert(prev[j] == before[j]);
                        }
                    }
                    assert(screen@ =~= target);
                }
                i = i + 1;
            }
            proof {
                assert(piece.subrange(0, fs as int) =~= piece);
                assert(screen@ == splice(before, start as int, piece));
            }
        }
        y = y + 1;
    }
}

/// The text of frame `k` of a `w` x `h` GIF: its canvas after frames `0..=k`,
/// resized without keeping the aspect ratio, converted, and formatted.
pub open spec fn frame_text(
    w: u16,
    h: u16,
    frames: Seq<GifFrame>,
    k: int,
    tw: usize,
    th: usize,
    mode: ResizeMode,
    config: &ConverterConfig,
    color_mode: ColorMode,
) -> Seq<char> {
    let canvas = ImageView { width: w as nat, height: h as nat, data: canvas_after(w, h, frames, k + 1) };
    formatted(converted(config, resized_view(canvas, tw, th, mode, false)), color_mode)
}

/// `out` holds the converted frames of a `w` x `h` GIF with the given frames.
pub open spec fn frames_rendered(
    out: Seq<AsciiFrame>,
    w: u16,
    h: u16,
    frames: Seq<GifFrame>,
    tw: usize,
    th: usize,
    mode: ResizeMode,
    config: &ConverterConfig,
    color_mode: ColorMode,
) -> bool {
    &&& out.len() == frames.len()
    &&& forall|k: int|
        0 <= k < frames.len() ==> (#[trigger] out[k]).output@ == frame_text(
            w,
            h,
            frames,
            k,
            tw,
            th,
            mode,
            config,
            color_mode,
        ) && out[k].delay_ms == frame_delay(frames[k].delay)
}

/// Composites, resizes, converts and formats each frame of a `width` x `height` GIF.
pub fn render_gif_frames(
    width: u16,
    height: u16,
    frames: &Vec<GifFrame>,
    target_width: usize,
    target_height: usize,
    resize_mode: ResizeMode,
    config: &ConverterConfig,
    color_mode: ColorMode,
) -> (out: Vec<AsciiFrame>)
    requires
        4 * (width * height) <= usize::MAX,
        forall|i: int| 0 <= i < frames@.len() ==> frame_well_formed(#[trigger] frames@[i]),
        resize_fits(width as int, height as int, target_width, target_height, resize_mode, false),
        brightness_in_range(config),
    ensures
        frames_rendered(
            out@,
            width,
            height,
            frames@,
            target_width,
            target_height,
            resize_mode,
            config,
            color_mode,
        ),
{
    proof {
        assert(width * height <= 0xffff * 0xffff) by (nonlinear_arith)
            requires
                width <= 0xffff,
                height <= 0xffff,
        ;
    }
    let pixels: usize = width as usize * height as usize;
    let mut screen: Vec<u8> = Vec::new();
    let mut i: usize = 0;
    while i < 4 * pixels
        invariant
            pixels == width * height,
            4 * (width * height) <= usize::MAX,
            i <= 4 * pixels,
            screen@.len() == i,
            forall|j: int| 0 <= j < i ==> screen@[j] == 0u8,
        decreases 4 * pixels - i,
    {
        screen.push(0);
        i = i + 1;
    }
    proof {
        assert(screen@ =~= canvas_after(width, height, frames@, 0));
    }
    let mut out: Vec<AsciiFrame> = Vec::new();
    let mut k: usize = 0;
    while k < frames.len()
        invariant
            forall|i: int| 0 <= i < frames@.len() ==> frame_well_formed(#[trigger] frames@[i]),
            resize_fits(width as int, height as int, target_width, target_height, resize_mode, false),
            brightness_in_range(config),
            k <= frames@.len(),
            screen@ == canvas_after(width, height, frames@, k as int),
            out@.len() == k,
            forall|j: int|
                0 <= j < k ==> (#[trigger] out@[j]).output@ == frame_text(
                    width,
                    height,
                    frames@,
                    j,
                    target_width,
                    target_height,
                    resize_mode,
                    config,
                    color_mode,
                ) && out@[j].delay_ms == frame_delay(frames@[j].delay),
        decreases frames@.len() - k,
    {
        let f = &frames[k];
        assert(frame_well_formed(frames@[k as int]));
        paste_frame(&mut screen, f, width);
        proof {
            lemma_canvas_after_len(width, height, frames@, (k + 1) as int);
        }
        let img = match RgbaImage::from_raw(width as u32, height as u32, screen.clone()) {
            Some(img) => img,
            None => {
                assert(false);
                RgbaImage::new_rgb8(0, 0)
            },
        };
        assert(img@ =~= ImageView {
            width: width as nat,
            height: height as nat,
            data: canvas_after(width, height, frames@, (k + 1) as int),
        });
        let resized = resize_for_terminal(&img, target_width, target_height, resize_mode, false);
        proof {
            lemma_resized_cells(img@, target_width, target_height, resize_mode, false);
            lemma_shift_fits(config, resized@);
        }
        let chars = convert(config, &resized);
        let output = format_colored(chars.as_slice(), color_mode);
        let delay_ms = frame_delay_ms(f.delay);
        out.push(AsciiFrame { output, delay_ms });
        k = k + 1;
    }
    out
}

#[verifier::external_type_specification]
#[verifier::external_body]
pub struct ExGifDecodingError(gif::DecodingError);

/// The message of a GIF decoding error.
///
/// Trusted: calls `ToString::to_string` (its `Display`); nothing is claimed of the text.
#[verifier::external_body]
fn gif_error_text(e: &gif::DecodingError) -> String {
    e.to_string()
}

/// Errors of GIF decoding.
#[derive(Debug)]
pub enum GifError {
    /// The GIF header could not be read; holds the decoder's message.
    Header(String),
    /// A frame could not be read; holds the decoder's message.
    Frame(String),
    /// The GIF holds no frame.
    NoFrames,
    /// The canvas is too large to be held in memory.
    CanvasTooLarge,
    /// The frames, resized to the target, are too large to be held in memory.
    OutputTooLarge,
}

impl GifError {
    /// The human-readable message of this error.
    pub fn message(&self) -> (m: String)
        ensures
            m@ == match self {
                GifError::Header(_) => "Failed to decode GIF. Is it a valid GIF file?"@,
                GifError::Frame(d) => "Failed to read GIF frame: "@ + d@,
                GifError::NoFrames => "GIF contains no frames"@,
                GifError::CanvasTooLarge => "GIF canvas is too large"@,
                GifError::OutputTooLarge => "Output size is too large"@,
            },
    {
        match self {
            GifError::Header(_) => String::from_str("Failed to decode GIF. Is it a valid GIF file?"),
            GifError::Frame(d) => {
                let mut m = String::from_str("Failed to read GIF frame: ");
                m.append(d.as_str());
                m
            },
            GifError::NoFrames => String::from_str("GIF contains no frames"),
            GifError::CanvasTooLarge => String::from_str("GIF canvas is too large"),
            GifError::OutputTooLarge => String::from_str("Output size is too large"),
        }
    }
}

/// Of the reads from number `k` on, with `budget` reads in all at most: the
/// number of reads that gave a frame before the GIF ended or the budget ran
/// out, or `None` when a read fails first.
pub open spec fn frames_read_from(bytes: Seq<u8>, k: nat, budget: nat) -> Option<nat>
    decreases budget - k,
{
    if k >= budget {
        Some(k)
    } else {
        match gif_frame_read(bytes, k) {
            None => None,
            Some(None) => Some(k),
            Some(Some(_)) => frames_read_from(bytes, k + 1, budget),
        }
    }
}

/// How many frames a GIF of `n` bytes gives before its end (at most `n`, as
/// each frame takes a 10-byte descriptor), or `None` when a frame read fails.
pub open spec fn gif_frame_count(bytes: Seq<u8>) -> Option<nat> {
    frames_read_from(bytes, 0, bytes.len())
}

/// `frames` are the first frames that the GIF `bytes` gives, in order.
pub open spec fn first_frames(bytes: Seq<u8>, frames: Seq<GifFrame>) -> bool {
    forall|i: int|
        0 <= i < frames.len() ==> gif_frame_read(bytes, i as nat) == Some(
            Some(frame_fields(#[trigger] frames[i])),
        )
}

/// `d` holds the converted first `n` frames of the GIF `bytes`, on its canvas.
pub open spec fn renders_gif(
    d: &DecodedGif,
    bytes: Seq<u8>,
    n: nat,
    tw: usize,
    th: usize,
    mode: ResizeMode,
    config: &ConverterConfig,
    color_mode: ColorMode,
) -> bool {
    exists|frames: Seq<GifFrame>|
        frames.len() == n && first_frames(bytes, frames) && #[trigger] frames_rendered(
            d.frames@,
            d.width,
            d.height,
            frames,
            tw,
            th,
            mode,
            config,
            color_mode,
        )
}

/// What decoding the GIF `bytes` gives: the header error, a canvas too large
/// for memory, a frame error, no frames, resized frames too large for memory,
/// or the converted frames on the header's canvas.
pub open spec fn gif_decoded(
    r: Result<DecodedGif, GifError>,
    bytes: Seq<u8>,
    tw: usize,
    th: usize,
    mode: ResizeMode,
    config: &ConverterConfig,
    color_mode: ColorMode,
) -> bool {
    match gif_header(bytes) {
        None => r matches Err(GifError::Header(_)),
        Some(hd) => if 4 * (hd.0 * hd.1) > usize::MAX {
            r matches Err(GifError::CanvasTooLarge)
        } else {
            match gif_frame_count(bytes) {
                None => r matches Err(GifError::Frame(_)),
                Some(n) => if n == 0 {
                    r matches Err(GifError::NoFrames)
                } else if !resize_fits(hd.0 as int, hd.1 as int, tw, th, mode, false) {
                    r matches Err(GifError::OutputTooLarge)
                } else {
                    &&& r matches Ok(d)
                    &&& r->Ok_0.width == hd.0
                    &&& r->Ok_0.height == hd.1
                    &&& r->Ok_0.native_loops == loop_count_of(gif_repeat_count(bytes))
                    &&& r->Ok_0.frames@.len() == n
                    &&& renders_gif(&r->Ok_0, bytes, n, tw, th, mode, config, color_mode)
                },
            }
        },
    }
}

/// Decode all frames from a GIF and convert them to ASCII.
///
/// Every frame is drawn onto the canvas (frames may update part of it),
/// resized to the target without keeping the aspect ratio, converted and
/// formatted. A GIF stream of `n` bytes holds fewer than `n` frames (each
/// frame takes a 10-byte descriptor), so reading stops after `n` frames.
pub fn decode_gif_frames(
    bytes: &[u8],
    target_width: usize,
    target_height: usize,
    resize_mode: ResizeMode,
    config: &ConverterConfig,
    color_mode: ColorMode,
) -> (r: Result<DecodedGif, GifError>)
    requires
        brightness_in_range(config),
    ensures
        gif_decoded(r, bytes@, target_width, target_height, resize_mode, config, color_mode),
{
    let mut decoder = match open_gif(bytes) {
        Ok(d) => d,
        Err(e) => {
            return Err(GifError::Header(gif_error_text(&e)));
        },
    };
    let width = gif_width(&decoder);
    let height = gif_height(&decoder);
    let native_loops = match gif_repeat(&decoder) {
        Some(n) => LoopCount::Finite(n),
        None => LoopCount::Infinite,
    };
    assert((width as u64) * (height as u64) <= 0xffff * 0xffff) by (nonlinear_arith)
        requires
            width <= 0xffff,
            height <= 0xffff,
    ;
    if 4 * ((width as u64) * (height as u64)) > usize::MAX as u64 {
        return Err(GifError::CanvasTooLarge);
    }
    let mut frames: Vec<GifFrame> = Vec::new();
    let budget = bytes.len();
    loop
        invariant_except_break
            decoder.reads() == frames@.len(),
        invariant
            decoder.source() == bytes@,
            gif_header(bytes@) == Some((width, height)),
            4 * (width * height) <= usize::MAX,
            frames@.len() <= budget,
            budget == bytes@.len(),
            forall|i: int| 0 <= i < frames@.len() ==> frame_well_formed(#[trigger] frames@[i]),
            first_frames(bytes@, frames@),
            gif_frame_count(bytes@) == frames_read_from(bytes@, frames@.len(), budget as nat),
        ensures
            gif_frame_count(bytes@) == Some(frames@.len()),
            forall|i: int| 0 <= i < frames@.len() ==> frame_well_formed(#[trigger] frames@[i]),
            first_frames(bytes@, frames@),
        decreases budget - frames@.len(),
    {
        if frames.len() >= budget {
            break;
        }
        let ghost k = frames@.len();
        let ghost prev = frames@;
        match gif_next_frame(&mut decoder) {
            Ok(Some(f)) => {
                frames.push(f);
                proof {
                    assert forall|i: int| 0 <= i < frames@.len() implies gif_frame_read(
                        bytes@,
                        i as nat,
                    ) == Some(Some(frame_fields(#[trigger] frames@[i]))) by {
                        if i < k {
                            assert(frames@[i] == prev[i]);
                        }
                    }
                }
            },
            Ok(None) => {
                break;
            },
            Err(e) => {
                assert(frames_read_from(bytes@, k, budget as nat) is None);
                return Err(GifError::Frame(gif_error_text(&e)));
            },
        }
    }
    if frames.len() == 0 {
        return Err(GifError::NoFrames);
    }
    if !resize_fits_exec(width as u32, height as u32, target_width, target_height, resize_mode, false) {
        return Err(GifError::OutputTooLarge);
    }
    let ascii = render_gif_frames(
        width,
        height,
        &frames,
        target_width,
        target_height,
        resize_mode,
        config,
        color_mode,
    );
    let decoded = DecodedGif { frames: ascii, native_loops, width, height };
    assert(frames_rendered(
        decoded.frames@,
        decoded.width,
        decoded.height,
        frames@,
        target_width,
        target_height,
        resize_mode,
        config,
        color_mode,
    ));
    let r = Ok(decoded);
    assert(renders_gif(
        &r->Ok_0,
        bytes@,
        frames@.len(),
        target_width,
        target_height,
        resize_mode,
        config,
        color_mode,
    ));
    r
}

/// How long frame `delay_ms` stays on screen: `1000 / fps` milliseconds when
/// a frame rate is forced, else the frame's own delay.
pub open spec fn display_time(config: AnimationConfig, delay_ms: u64) -> int {
    match config.fps {
        Some(fps) => 1000int / (fps as int),
        None => delay_ms as int,
    }
}

/// How long a frame stays on screen during playback.
pub fn frame_display_ms(config: &AnimationConfig, frame: &AsciiFrame) -> (ms: u64)
    requires
        config.fps != Some(0u32),
    ensures
        ms == display_time(*config, frame.delay_ms),
{
    match config.fps {
        Some(fps) => 1000 / (fps as u64),
        None => frame.delay_ms,
    }
}

/// Whether playback stops after loop number `current_loop` (counted from 0):
/// never when `loops` is 0, else after loop `loops - 1`.
pub fn playback_done(config: &AnimationConfig, current_loop: u32) -> (done: bool)
    ensures
        done == (config.loops > 0 && current_loop >= config.loops - 1),
{
    config.loops > 0 && current_loop >= config.loops - 1
}

} // verus!
