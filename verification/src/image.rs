//! Images as plain RGBA pixel buffers, and their sizing, cropping and resizing.

use vstd::prelude::*;
use crate::text::{
    all_ascii, ascii_lowered, lemma_lowers_to_word, lowercase, same_ignoring_ascii_case, str_eq,
    to_lowercase,
};

verus! {

/// An 8-bit RGBA image stored row by row, four bytes per pixel.
#[derive(Debug)]
pub struct RgbaImage {
    width: u32,
    height: u32,
    data: Vec<u8>,
}

/// The abstract value of an image: its size and its RGBA bytes, row by row.
pub struct ImageView {
    pub width: nat,
    pub height: nat,
    pub data: Seq<u8>,
}

impl ImageView {
    /// The RGBA channels of the pixel at `(x, y)`.
    pub open spec fn pixel(self, x: int, y: int) -> (u8, u8, u8, u8) {
        rgba_at(self.data, self.width as int, x, y)
    }

    /// The buffer holds exactly four bytes per pixel.
    pub open spec fn well_formed(self) -> bool {
        self.data.len() == 4 * (self.width * self.height)
    }
}

impl View for RgbaImage {
    type V = ImageView;

    closed spec fn view(&self) -> ImageView {
        ImageView { width: self.width as nat, height: self.height as nat, data: self.data@ }
    }
}

/// The four channels of the pixel at `(x, y)` of a row-major RGBA buffer of width `w`.
pub open spec fn rgba_at(data: Seq<u8>, w: int, x: int, y: int) -> (u8, u8, u8, u8) {
    let i = 4 * (y * w + x);
    (data[i], data[i + 1], data[i + 2], data[i + 3])
}

impl RgbaImage {
    #[verifier::type_invariant]
    spec fn buffer_matches(&self) -> bool {
        self.data@.len() == 4 * (self.width * self.height)
    }

    /// Wraps a raw RGBA buffer; `None` unless it holds exactly four bytes per pixel.
    pub fn from_raw(width: u32, height: u32, data: Vec<u8>) -> (r: Option<Self>)
        ensures
            r is Some <==> data@.len() == 4 * (width * height),
            r matches Some(img) ==> img@.width == width && img@.height == height
                && img@.data == data@,
    {
        assert((width as u128) * (height as u128) <= 0xffff_ffff_ffff_ffff) by (nonlinear_arith)
            requires
                width <= 0xffff_ffff,
                height <= 0xffff_ffff,
        ;
        if (data.len() as u128) == 4 * ((width as u128) * (height as u128)) {
            Some(RgbaImage { width, height, data })
        } else {
            None
        }
    }

    /// An image of the given size filled with one RGBA color.
    pub fn filled(width: u32, height: u32, rgba: (u8, u8, u8, u8)) -> (img: Self)
        requires
            4 * (width * height) <= usize::MAX,
        ensures
            img@.width == width,
            img@.height == height,
            forall|x: int, y: int|
                0 <= x < width && 0 <= y < height ==> #[trigger] img@.pixel(x, y) == rgba,
    {
        let n: usize = (width as usize) * (height as usize);
        let mut data: Vec<u8> = Vec::new();
        let mut i: usize = 0;
        while i < n
            invariant
                n == width * height,
                4 * (width * height) <= usize::MAX,
                i <= n,
                data@.len() == 4 * i,
                forall|j: int|
                    0 <= j < i ==> rgba_at(data@, 1, j, 0) == rgba,
            decreases n - i,
        {
            let ghost prev = data@;
            data.push(rgba.0);
            data.push(rgba.1);
            data.push(rgba.2);
            data.push(rgba.3);
            proof {
                assert forall|j: int| 0 <= j < i + 1 implies rgba_at(data@, 1, j, 0) == rgba by {
                    if j < i {
                        assert(rgba_at(data@, 1, j, 0) == rgba_at(prev, 1, j, 0));
                    }
                }
            }
            i = i + 1;
        }
        let img = RgbaImage { width, height, data };
        assert forall|x: int, y: int|
            0 <= x < width && 0 <= y < height implies #[trigger] img@.pixel(x, y) == rgba by {
            lemma_pixel_offset(x, y, width as int, height as int);
            assert(rgba_at(data@, 1, y * width + x, 0) == rgba);
            assert(rgba_at(data@, width as int, x, y) == rgba_at(data@, 1, y * width + x, 0));
        }
        img
    }

    /// An opaque black image of the given size.
    pub fn new_rgb8(width: u32, height: u32) -> (img: Self)
        requires
            4 * (width * height) <= usize::MAX,
        ensures
            img@.width == width,
            img@.height == height,
            forall|x: int, y: int|
                0 <= x < width && 0 <= y < height ==> #[trigger] img@.pixel(x, y) == (
                    0u8,
                    0u8,
                    0u8,
                    255u8,
                ),
    {
        RgbaImage::filled(width, height, (0, 0, 0, 255))
    }

    /// The width in pixels.
    pub fn width(&self) -> (w: u32)
        ensures
            w == self@.width,
    {
        self.width
    }

    /// The height in pixels.
    pub fn height(&self) -> (h: u32)
        ensures
            h == self@.height,
    {
        self.height
    }

    /// The width and height in pixels.
    pub fn dimensions(&self) -> (d: (u32, u32))
        ensures
            d.0 == self@.width,
            d.1 == self@.height,
    {
        (self.width, self.height)
    }

    /// The raw RGBA bytes, row by row.
    pub fn as_raw(&self) -> (d: &Vec<u8>)
        ensures
            d@ == self@.data,
    {
        &self.data
    }

    /// The raw RGBA bytes, row by row.
    pub fn into_raw(self) -> (d: Vec<u8>)
        ensures
            d@ == self@.data,
    {
        self.data
    }
}

impl Clone for RgbaImage {
    fn clone(&self) -> (r: Self)
        ensures
            r@.width == self@.width,
            r@.height == self@.height,
            r@.data == self@.data,
    {
        proof {
            use_type_invariant(self);
        }
        let data = self.data.clone();
        assert(data@ =~= self.data@);
        RgbaImage { width: self.width, height: self.height, data }
    }
}

/// Offset arithmetic of the pixel at `(x, y)` in a `w`-wide image.
pub proof fn lemma_pixel_offset(x: int, y: int, w: int, h: int)
    requires
        0 <= x < w,
        0 <= y < h,
    ensures
        0 <= y * w + x < w * h,
        4 * (y * w + x) + 3 < 4 * (w * h),
{
    assert(y * w + x < w * h) by (nonlinear_arith)
        requires
            0 <= x < w,
            0 <= y < h,
    ;
    assert(0 <= y * w) by (nonlinear_arith)
        requires
            0 <= y,
            0 <= w,
    ;
}

/// Get pixel data as RGBA.
pub fn get_pixel_rgba(img: &RgbaImage, x: u32, y: u32) -> (p: (u8, u8, u8, u8))
    requires
        x < img@.width,
        y < img@.height,
    ensures
        p == img@.pixel(x as int, y as int),
{
    proof {
        use_type_invariant(img);
        lemma_pixel_offset(x as int, y as int, img.width as int, img.height as int);
    }
    let len = img.data.len();
    assert(len == 4 * (img.width * img.height));
    let i: usize = 4 * ((y as usize) * (img.width as usize) + (x as usize));
    (img.data[i], img.data[i + 1], img.data[i + 2], img.data[i + 3])
}


/// Resize mode options.
#[derive(Debug, Clone, Copy, PartialEq, Eq, Structural)]
pub enum ResizeMode {
    /// Fit within the given dimensions while preserving aspect ratio
    Fit,
    /// Fill the given dimensions, potentially cropping
    Fill,
    /// Stretch to exactly fit the dimensions
    Stretch,
    /// Crop to the center of the image
    Crop,
}

/// The resize mode an already lower-cased name selects, if any.
pub open spec fn named_resize_mode(lower: Seq<char>) -> Option<ResizeMode> {
    if lower == "fit"@ {
        Some(ResizeMode::Fit)
    } else if lower == "fill"@ {
        Some(ResizeMode::Fill)
    } else if lower == "stretch"@ {
        Some(ResizeMode::Stretch)
    } else if lower == "crop"@ {
        Some(ResizeMode::Crop)
    } else {
        None
    }
}

/// Every resize mode name selects its mode, in any ASCII case: `fit`,
/// `fill`, `stretch` and `crop`.
pub proof fn lemma_resize_mode_names(s: Seq<char>)
    ensures
        same_ignoring_ascii_case(s, "fit"@) ==> all_ascii(s) && named_resize_mode(ascii_lowered(s)) == Some(ResizeMode::Fit),
        same_ignoring_ascii_case(s, "fill"@) ==> all_ascii(s) && named_resize_mode(ascii_lowered(s)) == Some(ResizeMode::Fill),
        same_ignoring_ascii_case(s, "stretch"@) ==> all_ascii(s) && named_resize_mode(ascii_lowered(s)) == Some(ResizeMode::Stretch),
        same_ignoring_ascii_case(s, "crop"@) ==> all_ascii(s) && named_resize_mode(ascii_lowered(s)) == Some(ResizeMode::Crop),
{
    reveal_strlit("fit");
    reveal_strlit("fill");
    reveal_strlit("stretch");
    reveal_strlit("crop");
    if same_ignoring_ascii_case(s, "crop"@) {
        assert(ascii_lowered("crop"@) =~= "crop"@);
        lemma_lowers_to_word(s, "crop"@);
        assert("crop"@.len() != "fit"@.len());
        assert("crop"@[0] != "fill"@[0]);
        assert("crop"@.len() != "stretch"@.len());
    }
    if same_ignoring_ascii_case(s, "fill"@) {
        assert(ascii_lowered("fill"@) =~= "fill"@);
        lemma_lowers_to_word(s, "fill"@);
        assert("fill"@.len() != "fit"@.len());
        assert("fill"@.len() != "stretch"@.len());
        assert("fill"@[0] != "crop"@[0]);
    }
    if same_ignoring_ascii_case(s, "fit"@) {
        assert(ascii_lowered("fit"@) =~= "fit"@);
        lemma_lowers_to_word(s, "fit"@);
        assert("fit"@.len() != "fill"@.len());
        assert("fit"@.len() != "stretch"@.len());
        assert("fit"@.len() != "crop"@.len());
    }
    if same_ignoring_ascii_case(s, "stretch"@) {
        assert(ascii_lowered("stretch"@) =~= "stretch"@);
        lemma_lowers_to_word(s, "stretch"@);
        assert("stretch"@.len() != "fit"@.len());
        assert("stretch"@.len() != "fill"@.len());
        assert("stretch"@.len() != "crop"@.len());
    }
}

/// The resize mode a lower-case name selects, if any.
pub fn resize_mode_named(lower: &str) -> (r: Option<ResizeMode>)
    ensures
        r == named_resize_mode(lower@),
{
    if str_eq(lower, "fit") {
        Some(ResizeMode::Fit)
    } else if str_eq(lower, "fill") {
        Some(ResizeMode::Fill)
    } else if str_eq(lower, "stretch") {
        Some(ResizeMode::Stretch)
    } else if str_eq(lower, "crop") {
        Some(ResizeMode::Crop)
    } else {
        None
    }
}

impl ResizeMode {
    /// Parses a resize mode name, ignoring case.
    pub fn from_str(s: &str) -> (r: Result<Self, String>)
        ensures
            all_ascii(s@) ==> lowercase(s@) == ascii_lowered(s@),
            match named_resize_mode(lowercase(s@)) {
                Some(m) => r == Ok::<ResizeMode, String>(m),
                None => r matches Err(e) && e@ == "Unknown resize mode: "@ + s@,
            },
    {
        let lower = to_lowercase(s);
        match resize_mode_named(lower.as_str()) {
            Some(m) => Ok(m),
            None => {
                let mut e = String::from_str("Unknown resize mode: ");
                e.append(s);
                Err(e)
            },
        }
    }
}

impl std::str::FromStr for ResizeMode {
    type Err = String;

    fn from_str(s: &str) -> (r: Result<Self, Self::Err>)
        ensures
            all_ascii(s@) ==> lowercase(s@) == ascii_lowered(s@),
            match named_resize_mode(lowercase(s@)) {
                Some(m) => r == Ok::<ResizeMode, String>(m),
                None => r matches Err(e) && e@ == "Unknown resize mode: "@ + s@,
            },
    {
        ResizeMode::from_str(s)
    }
}

/// The smaller of two integers.
pub open spec fn min(a: int, b: int) -> int {
    if a <= b {
        a
    } else {
        b
    }
}

/// The larger of two integers.
pub open spec fn max(a: int, b: int) -> int {
    if a >= b {
        a
    } else {
        b
    }
}

/// `n - 2`, or 0 when `n < 2` (a two-cell margin).
pub open spec fn minus_margin(n: int) -> int {
    if n >= 2 {
        n - 2
    } else {
        0
    }
}

/// `a / b` rounded up.
pub open spec fn ceil_div(a: int, b: int) -> int {
    (a + b - 1) / b
}

/// Rows needed to show `cols` columns of an `img_w` x `img_h` image, where a
/// character cell is twice as tall as it is wide: `cols * img_h / (2 * img_w)`
/// rounded up, computed exactly (a floating-point quotient may round up to one
/// more), and 0 for an image without width.
pub open spec fn rows_for_columns(cols: int, img_w: int, img_h: int) -> int {
    if img_w == 0 {
        0
    } else {
        ceil_div(cols * img_h, 2 * img_w)
    }
}

/// The output size chosen for an image from the terminal size.
pub open spec fn auto_dimensions(img_w: int, img_h: int, term_cols: int, term_rows: int) -> (
    int,
    int,
) {
    let width = min(minus_margin(term_cols), img_w);
    let height = min(rows_for_columns(width, img_w, img_h), minus_margin(term_rows));
    (max(width, 1), max(height, 1))
}

proof fn lemma_rows_for_columns_bound(cols: int, img_w: int, img_h: int)
    requires
        0 <= cols <= img_w,
        0 <= img_h,
    ensures
        0 <= rows_for_columns(cols, img_w, img_h) <= img_h,
{
    if img_w > 0 {
        assert(0 <= cols * img_h <= img_w * img_h) by (nonlinear_arith)
            requires
                0 <= cols <= img_w,
                0 <= img_h,
        ;
        assert(cols * img_h + 2 * img_w - 1 < (2 * img_w) * (img_h + 1)) by (nonlinear_arith)
            requires
                cols * img_h <= img_w * img_h,
                img_w > 0,
                img_h >= 0,
        ;
        assert((cols * img_h + 2 * img_w - 1) / (2 * img_w) < img_h + 1) by (nonlinear_arith)
            requires
                cols * img_h + 2 * img_w - 1 < (2 * img_w) * (img_h + 1),
                0 <= cols * img_h + 2 * img_w - 1,
                img_w > 0,
        ;
    }
}

/// Calculate output dimensions based on image and terminal size.
///
/// Takes into account the character aspect ratio (cells are twice as tall as wide),
/// leaves a two-cell margin, and never returns a zero dimension.
pub fn calculate_dimensions(img: &RgbaImage, term_cols: usize, term_rows: usize) -> (d: (
    usize,
    usize,
))
    ensures
        d.0 == auto_dimensions(
            img@.width as int,
            img@.height as int,
            term_cols as int,
            term_rows as int,
        ).0,
        d.1 == auto_dimensions(
            img@.width as int,
            img@.height as int,
            term_cols as int,
            term_rows as int,
        ).1,
{
    let (img_w, img_h) = img.dimensions();
    let cols: usize = if term_cols >= 2 {
        term_cols - 2
    } else {
        0
    };
    let width: usize = if cols <= img_w as usize {
        cols
    } else {
        img_w as usize
    };
    proof {
        lemma_rows_for_columns_bound(width as int, img_w as int, img_h as int);
    }
    let rows_needed: usize = if img_w == 0 {
        0
    } else {
        assert((width as u128) * (img_h as u128) <= 0xffff_ffff_ffff_ffff) by (nonlinear_arith)
            requires
                width <= 0xffff_ffff,
                img_h <= 0xffff_ffff,
        ;
        let num: u128 = (width as u128) * (img_h as u128);
        let den: u128 = 2 * (img_w as u128);
        ((num + den - 1) / den) as usize
    };
    let rows: usize = if term_rows >= 2 {
        term_rows - 2
    } else {
        0
    };
    let height: usize = if rows_needed <= rows {
        rows_needed
    } else {
        rows
    };
    let width = if width >= 1 {
        width
    } else {
        1
    };
    let height = if height >= 1 {
        height
    } else {
        1
    };
    (width, height)
}

/// Whether the aspect ratio `w / h` exceeds `tw / th`, compared exactly
/// (a floating-point comparison of the two quotients may round the other
/// way when they are nearly equal). A side of 0 makes `x / 0` infinite for
/// `x > 0`, and `0 / 0` is never greater nor smaller.
pub open spec fn aspect_exceeds(w: int, h: int, tw: int, th: int) -> bool {
    if (w == 0 && h == 0) || (tw == 0 && th == 0) {
        false
    } else if h == 0 {
        th != 0
    } else if th == 0 {
        false
    } else {
        w * th > tw * h
    }
}

/// `n * (w / h)` rounded down and limited to `u32`, computed exactly (a
/// floating-point product may come out one lower); an infinite ratio gives
/// the maximum and `0 / 0` gives 0.
pub open spec fn scale_by_aspect(n: int, w: int, h: int) -> int {
    if h == 0 {
        if w > 0 && n > 0 {
            u32::MAX as int
        } else {
            0
        }
    } else {
        min(n * w / h, u32::MAX as int)
    }
}

/// `n / (w / h)` rounded down and limited to `u32`, computed exactly (a
/// floating-point quotient may come out one lower); an infinite ratio gives
/// the maximum and `0 / 0` gives 0.
pub open spec fn scale_by_inverse_aspect(n: int, w: int, h: int) -> int {
    if w == 0 {
        if h > 0 && n > 0 {
            u32::MAX as int
        } else {
            0
        }
    } else {
        min(n * h / w, u32::MAX as int)
    }
}

/// The size an image of `w` x `h` is resampled to before any cropping:
/// `Fit` keeping the ratio scales it to fit inside the target; `Fill` keeping
/// the ratio, and `Crop` always, scale it to cover the target; otherwise it is
/// stretched to the target.
pub open spec fn resampled_size(
    w: int,
    h: int,
    tw: usize,
    th: usize,
    mode: ResizeMode,
    preserve_aspect_ratio: bool,
) -> (int, int) {
    let wider = aspect_exceeds(w, h, tw as int, th as int);
    if mode == ResizeMode::Fit && preserve_aspect_ratio {
        if wider {
            ((tw as u32) as int, scale_by_inverse_aspect(tw as int, w, h))
        } else {
            (scale_by_aspect(th as int, w, h), (th as u32) as int)
        }
    } else if (mode == ResizeMode::Fill && preserve_aspect_ratio) || mode == ResizeMode::Crop {
        if wider {
            (scale_by_aspect(th as int, w, h), (th as u32) as int)
        } else {
            ((tw as u32) as int, scale_by_inverse_aspect(tw as int, w, h))
        }
    } else {
        ((tw as u32) as int, (th as u32) as int)
    }
}

fn aspect_exceeds_exec(w: u32, h: u32, tw: usize, th: usize) -> (r: bool)
    ensures
        r == aspect_exceeds(w as int, h as int, tw as int, th as int),
{
    if (w == 0 && h == 0) || (tw == 0 && th == 0) {
        false
    } else if h == 0 {
        th != 0
    } else if th == 0 {
        false
    } else {
        assert((w as u128) * (th as u128) <= 0xffff_ffff_ffff_ffff_ffff_ffff) by (nonlinear_arith)
            requires
                w <= 0xffff_ffff,
                th <= 0xffff_ffff_ffff_ffff,
        ;
        assert((tw as u128) * (h as u128) <= 0xffff_ffff_ffff_ffff_ffff_ffff) by (nonlinear_arith)
            requires
                h <= 0xffff_ffff,
                tw <= 0xffff_ffff_ffff_ffff,
        ;
        (w as u128) * (th as u128) > (tw as u128) * (h as u128)
    }
}

fn scale_exec(n: usize, num: u32, den: u32) -> (r: u32)
    ensures
        r == scale_by_aspect(n as int, num as int, den as int),
{
    if den == 0 {
        if num > 0 && n > 0 {
            u32::MAX
        } else {
            0
        }
    } else {
        assert((n as u128) * (num as u128) <= 0xffff_ffff_ffff_ffff_ffff_ffff) by (nonlinear_arith)
            requires
                num <= 0xffff_ffff,
                n <= 0xffff_ffff_ffff_ffff,
        ;
        let q: u128 = (n as u128) * (num as u128) / (den as u128);
        if q > u32::MAX as u128 {
            u32::MAX
        } else {
            q as u32
        }
    }
}

pub(crate) fn resampled_size_exec(
    w: u32,
    h: u32,
    tw: usize,
    th: usize,
    mode: ResizeMode,
    preserve_aspect_ratio: bool,
) -> (r: (u32, u32))
    ensures
        r.0 == resampled_size(w as int, h as int, tw, th, mode, preserve_aspect_ratio).0,
        r.1 == resampled_size(w as int, h as int, tw, th, mode, preserve_aspect_ratio).1,
{
    let wider = aspect_exceeds_exec(w, h, tw, th);
    match (mode, preserve_aspect_ratio) {
        (ResizeMode::Fit, true) => {
            if wider {
                (tw as u32, scale_exec(tw, h, w))
            } else {
                (scale_exec(th, w, h), th as u32)
            }
        },
        (ResizeMode::Fill, true) | (ResizeMode::Crop, _) => {
            if wider {
                (scale_exec(th, w, h), th as u32)
            } else {
                (tw as u32, scale_exec(tw, h, w))
            }
        },
        _ => (tw as u32, th as u32),
    }
}

/// What resampling an image with the Lanczos3 filter gives, as
/// `image::imageops::resize` computes it on an RGBA buffer.
pub uninterp spec fn lanczos3_resized(w: u32, h: u32, data: Seq<u8>, nw: u32, nh: u32) -> Seq<u8>;

/// The resampled buffer fits in memory: the output, and the floating-point
/// intermediate of `w` x `nh` pixels that the resampler builds.
pub open spec fn resample_fits(w: int, nw: int, nh: int) -> bool {
    4 * (nw * nh) <= isize::MAX && 16 * (w * nh) <= isize::MAX
}

/// Resamples an RGBA buffer of `w` x `h` pixels to `nw` x `nh`.
///
/// Trusted: calls `image::imageops::resize` with `FilterType::Lanczos3`. Its
/// result is named, not stated; the claim is that it is an RGBA buffer of
/// `nw` x `nh` pixels (the source builds it with `ImageBuffer::new(nw, nh)`),
/// and that the call does not panic when the buffers fit in memory.
#[verifier::external_body]
fn resize_lanczos3(w: u32, h: u32, data: &Vec<u8>, nw: u32, nh: u32) -> (r: Vec<u8>)
    requires
        data@.len() == 4 * (w * h),
        resample_fits(w as int, nw as int, nh as int),
    ensures
        r@ == lanczos3_resized(w, h, data@, nw, nh),
        r@.len() == 4 * (nw * nh),
{
    let src = image::RgbaImage::from_raw(w, h, data.clone()).unwrap();
    image::imageops::resize(&src, nw, nh, image::imageops::FilterType::Lanczos3).into_raw()
}

/// The `cw` x `ch` region of `v` whose top-left pixel is `(x, y)`.
pub open spec fn crop_view(v: ImageView, x: int, y: int, cw: nat, ch: nat) -> ImageView {
    ImageView {
        width: cw,
        height: ch,
        data: Seq::new(
            4 * (cw * ch),
            |k: int| v.data[4 * ((y + (k / 4) / (cw as int)) * v.width + (x + (k / 4) % (cw as int)))
                + k % 4],
        ),
    }
}

/// Pixel `(i, j)` of a region is pixel `(x + i, y + j)` of the image.
pub proof fn lemma_crop_view_pixel(v: ImageView, x: int, y: int, cw: nat, ch: nat, i: int, j: int)
    requires
        0 <= i < cw,
        0 <= j < ch,
    ensures
        crop_view(v, x, y, cw, ch).pixel(i, j) == v.pixel(x + i, y + j),
{
    let p = j * cw + i;
    lemma_pixel_offset(i, j, cw as int, ch as int);
    assert forall|c: int| 0 <= c < 4 implies (#[trigger] (4 * p + c)) / 4 == p && (4 * p + c) % 4
        == c by {
        vstd::arithmetic::div_mod::lemma_fundamental_div_mod_converse(4 * p + c, 4, p, c);
    }
    vstd::arithmetic::div_mod::lemma_fundamental_div_mod_converse(p, cw as int, j, i);
    assert(4 * p + 3 < 4 * (cw * ch));
}

/// Two well-formed images of the same size with the same pixels are equal.
pub proof fn lemma_view_from_pixels(a: ImageView, b: ImageView)
    requires
        a.well_formed(),
        b.well_formed(),
        a.width == b.width,
        a.height == b.height,
        forall|x: int, y: int|
            0 <= x < a.width && 0 <= y < a.height ==> #[trigger] a.pixel(x, y) == b.pixel(x, y),
    ensures
        a == b,
{
    let w = a.width as int;
    let h = a.height as int;
    assert forall|k: int| 0 <= k < a.data.len() implies a.data[k] == b.data[k] by {
        let p = k / 4;
        let c = k % 4;
        vstd::arithmetic::div_mod::lemma_fundamental_div_mod(k, 4);
        assert(w > 0) by {
            if w == 0 {
                assert(w * h == 0) by (nonlinear_arith)
                    requires
                        w == 0,
                ;
            }
        }
        let x = p % w;
        let y = p / w;
        vstd::arithmetic::div_mod::lemma_fundamental_div_mod(p, w);
        assert(0 <= p < w * h);
        assert(y < h) by {
            if y >= h {
                assert(w * y >= w * h) by (nonlinear_arith)
                    requires
                        y >= h,
                        w > 0,
                ;
            }
        }
        assert(0 <= x < w);
        assert(0 <= y);
        assert(a.pixel(x, y) == b.pixel(x, y));
        assert(y * w + x == p) by (nonlinear_arith)
            requires
                p == w * y + x,
        ;
    }
    assert(a.data =~= b.data);
}

/// The region `crop_imm` keeps: `(x, y, width, height)` clamped to the image.
pub open spec fn crop_region(w: int, h: int, x: int, y: int, cw: int, ch: int) -> (
    int,
    int,
    int,
    int,
) {
    let x0 = min(x, w);
    let y0 = min(y, h);
    (x0, y0, min(cw, w - x0), min(ch, h - y0))
}

/// The image cropped to `(x, y, width, height)`, clamped to its bounds.
fn crop_imm(img: &RgbaImage, x: u32, y: u32, width: u32, height: u32) -> (out: RgbaImage)
    ensures
        ({
            let r = crop_region(
                img@.width as int,
                img@.height as int,
                x as int,
                y as int,
                width as int,
                height as int,
            );
            out@ == crop_view(img@, r.0, r.1, r.2 as nat, r.3 as nat)
        }),
{
    proof {
        use_type_invariant(img);
    }
    let (iw, ih) = img.dimensions();
    let x0: u32 = if x <= iw {
        x
    } else {
        iw
    };
    let y0: u32 = if y <= ih {
        y
    } else {
        ih
    };
    let cw: u32 = if width <= iw - x0 {
        width
    } else {
        iw - x0
    };
    let ch: u32 = if height <= ih - y0 {
        height
    } else {
        ih - y0
    };
    let len = img.data.len();
    let mut data: Vec<u8> = Vec::new();
    let mut j: u32 = 0;
    while j < ch
        invariant
            iw == img@.width,
            ih == img@.height,
            len == img.data@.len(),
            len == 4 * (iw * ih),
            x0 + cw <= iw,
            y0 + ch <= ih,
            j <= ch,
            data@.len() == 4 * (j * cw),
            forall|jj: int, ii: int|
                0 <= jj < j && 0 <= ii < cw ==> #[trigger] rgba_at(data@, cw as int, ii, jj)
                    == img@.pixel(x0 + ii, y0 + jj),
        decreases ch - j,
    {
        let mut i: u32 = 0;
        while i < cw
            invariant
                iw == img@.width,
                ih == img@.height,
                len == img.data@.len(),
                len == 4 * (iw * ih),
                x0 + cw <= iw,
                y0 + ch <= ih,
                j < ch,
                i <= cw,
                data@.len() == 4 * (j * cw + i),
                forall|jj: int, ii: int|
                    0 <= jj < j && 0 <= ii < cw ==> #[trigger] rgba_at(data@, cw as int, ii, jj)
                        == img@.pixel(x0 + ii, y0 + jj),
                forall|ii: int|
                    0 <= ii < i ==> #[trigger] rgba_at(data@, cw as int, ii, j as int) == img@.pixel(
                        x0 + ii,
                        y0 + j,
                    ),
            decreases cw - i,
        {
            proof {
                lemma_pixel_offset((x0 + i) as int, (y0 + j) as int, iw as int, ih as int);
            }
            let src: usize = 4 * (((y0 + j) as usize) * (iw as usize) + ((x0 + i) as usize));
            let ghost prev = data@;
            data.push(img.data[src]);
            data.push(img.data[src + 1]);
            data.push(img.data[src + 2]);
            data.push(img.data[src + 3]);
            proof {
                assert(0 <= j * cw) by (nonlinear_arith)
                    requires
                        0 <= j,
                        0 <= cw,
                ;
                assert forall|jj: int, ii: int|
                    0 <= jj < j && 0 <= ii < cw implies #[trigger] rgba_at(
                    data@,
                    cw as int,
                    ii,
                    jj,
                ) == img@.pixel(x0 + ii, y0 + jj) by {
                    lemma_pixel_offset(ii, jj, cw as int, j as int);
                    assert(cw * j == j * cw) by (nonlinear_arith);
                    assert(rgba_at(data@, cw as int, ii, jj) == rgba_at(prev, cw as int, ii, jj));
                }
                assert forall|ii: int| 0 <= ii < i + 1 implies #[trigger] rgba_at(
                    data@,
                    cw as int,
                    ii,
                    j as int,
                ) == img@.pixel(x0 + ii, y0 + j) by {
                    assert(j * cw + ii < j * cw + i + 1);
                    if ii < i {
                        assert(rgba_at(data@, cw as int, ii, j as int) == rgba_at(
                            prev,
                            cw as int,
                            ii,
                            j as int,
                        ));
                    }
                }
            }
            i = i + 1;
        }
        proof {
            assert((j + 1) * cw == j * cw + cw) by (nonlinear_arith);
        }
        j = j + 1;
    }
    assert(ch * cw == cw * ch) by (nonlinear_arith);
    let out = RgbaImage { width: cw, height: ch, data };
    proof {
        let cv = crop_view(img@, x0 as int, y0 as int, cw as nat, ch as nat);
        assert forall|i: int, j: int| 0 <= i < cw && 0 <= j < ch implies #[trigger] out@.pixel(i, j)
            == cv.pixel(i, j) by {
            lemma_crop_view_pixel(img@, x0 as int, y0 as int, cw as nat, ch as nat, i, j);
        }
        lemma_view_from_pixels(out@, cv);
    }
    out
}

/// Where `crop_to_center` starts and how much it keeps, for an image of
/// `w` x `h` and a target of `tw` x `th`.
pub open spec fn center_region(w: int, h: int, tw: int, th: int) -> (int, int, int, int) {
    let x = if w > tw {
        (w - tw) / 2
    } else {
        0
    };
    let y = if h > th {
        (h - th) / 2
    } else {
        0
    };
    crop_region(w, h, x, y, min(tw, w), min(th, h))
}

/// `v` cropped to the center of a `tw` x `th` target: unchanged when it
/// already fits, else the centered region of at most the target's size.
pub open spec fn center_cropped(v: ImageView, tw: int, th: int) -> ImageView {
    if v.width <= tw && v.height <= th {
        v
    } else {
        let r = center_region(v.width as int, v.height as int, tw, th);
        crop_view(v, r.0, r.1, r.2 as nat, r.3 as nat)
    }
}

/// Cropping to the center never exceeds the target; an image at least as large
/// as the target becomes exactly the target's size, and keeps the pixels
/// centered in it (offset by half the excess, rounded down).
pub proof fn lemma_center_crop_centered(v: ImageView, tw: int, th: int, i: int, j: int)
    requires
        0 <= tw,
        0 <= th,
    ensures
        center_cropped(v, tw, th).width <= v.width,
        center_cropped(v, tw, th).height <= v.height,
        center_cropped(v, tw, th).width <= tw,
        center_cropped(v, tw, th).height <= th,
        (tw <= v.width && th <= v.height) ==> center_cropped(v, tw, th).width == tw
            && center_cropped(v, tw, th).height == th,
        (tw <= v.width && th <= v.height && 0 <= i < tw && 0 <= j < th) ==> center_cropped(
            v,
            tw,
            th,
        ).pixel(i, j) == v.pixel(i + (v.width - tw) / 2, j + (v.height - th) / 2),
{
    if !(v.width <= tw && v.height <= th) {
        let r = center_region(v.width as int, v.height as int, tw, th);
        if 0 <= i < r.2 && 0 <= j < r.3 {
            lemma_crop_view_pixel(v, r.0, r.1, r.2 as nat, r.3 as nat, i, j);
        }
    }
}

/// Crop image to center of given dimensions.
pub fn crop_to_center(img: &RgbaImage, width: usize, height: usize) -> (out: RgbaImage)
    ensures
        out@ == center_cropped(img@, (width as u32) as int, (height as u32) as int),
{
    let (w, h) = img.dimensions();
    let target_w = width as u32;
    let target_h = height as u32;
    if w <= target_w && h <= target_h {
        let c = img.clone();
        proof {
            assert(c@ =~= img@);
        }
        return c;
    }
    let x: u32 = if w > target_w {
        (w - target_w) / 2
    } else {
        0
    };
    let y: u32 = if h > target_h {
        (h - target_h) / 2
    } else {
        0
    };
    let cw: u32 = if target_w <= w {
        target_w
    } else {
        w
    };
    let ch: u32 = if target_h <= h {
        target_h
    } else {
        h
    };
    crop_imm(img, x, y, cw, ch)
}

/// The image `v` as `resize_for_terminal` returns it: resampled, then, for
/// `Fill` and `Crop`, cut to the center window of the target's size.
pub open spec fn resized_view(
    v: ImageView,
    tw: usize,
    th: usize,
    mode: ResizeMode,
    preserve_aspect_ratio: bool,
) -> ImageView {
    let size = resampled_size(v.width as int, v.height as int, tw, th, mode, preserve_aspect_ratio);
    let r = ImageView {
        width: size.0 as nat,
        height: size.1 as nat,
        data: lanczos3_resized(v.width as u32, v.height as u32, v.data, size.0 as u32, size.1 as u32),
    };
    if mode == ResizeMode::Crop || mode == ResizeMode::Fill {
        center_cropped(r, (tw as u32) as int, (th as u32) as int)
    } else {
        r
    }
}

/// `Fit` with the aspect ratio kept never exceeds the target size.
pub proof fn lemma_fit_within_target(w: int, h: int, tw: usize, th: usize)
    requires
        0 <= w,
        0 <= h,
        tw <= u32::MAX,
        th <= u32::MAX,
    ensures
        resampled_size(w, h, tw, th, ResizeMode::Fit, true).0 <= tw,
        resampled_size(w, h, tw, th, ResizeMode::Fit, true).1 <= th,
{
    let wider = aspect_exceeds(w, h, tw as int, th as int);
    assert((tw as u32) as int == tw);
    assert((th as u32) as int == th);
    if wider {
        if h > 0 && w > 0 {
            assert(tw * h < w * th);
            assert(tw * h / w < th) by (nonlinear_arith)
                requires
                    tw * h < w * th,
                    w > 0,
                    tw * h >= 0,
            ;
        } else if h > 0 {
            assert(w * th > tw * h);
            assert(w * th == 0);
        }
    } else {
        if h > 0 && !((w == 0 && h == 0) || (tw == 0 && th == 0)) && th != 0 {
            assert(w * th <= tw * h);
            assert(th * w / h <= tw) by (nonlinear_arith)
                requires
                    w * th <= tw * h,
                    h > 0,
                    th * w >= 0,
            ;
        } else if h > 0 {
            if th == 0 {
                assert(th * w == 0) by (nonlinear_arith)
                    requires
                        th == 0,
                ;
            } else {
                assert(w == 0 || (tw == 0 && th == 0));
                assert(th * w == 0) by (nonlinear_arith)
                    requires
                        w == 0 || th == 0,
                ;
            }
        }
    }
}

/// Whether `mode` scales the image to cover the target: `Fill` keeping the
/// aspect ratio, and `Crop`.
pub open spec fn covers_target(mode: ResizeMode, preserve_aspect_ratio: bool) -> bool {
    (mode == ResizeMode::Fill && preserve_aspect_ratio) || mode == ResizeMode::Crop
}

/// `Fill` with the aspect ratio kept, and `Crop`, resample to a size that
/// covers the target (one side equal to it), for non-empty images and targets
/// whose resized side fits `u32`.
pub proof fn lemma_fill_covers_target(
    w: int,
    h: int,
    tw: usize,
    th: usize,
    mode: ResizeMode,
    preserve_aspect_ratio: bool,
)
    requires
        covers_target(mode, preserve_aspect_ratio),
        0 < w,
        0 < h,
        0 < tw <= u32::MAX,
        0 < th <= u32::MAX,
        th * w / h <= u32::MAX,
        tw * h / w <= u32::MAX,
    ensures
        resampled_size(w, h, tw, th, mode, preserve_aspect_ratio).0 >= tw,
        resampled_size(w, h, tw, th, mode, preserve_aspect_ratio).1 >= th,
        resampled_size(w, h, tw, th, mode, preserve_aspect_ratio).0 == tw
            || resampled_size(w, h, tw, th, mode, preserve_aspect_ratio).1 == th,
{
    assert((tw as u32) as int == tw);
    assert((th as u32) as int == th);
    if aspect_exceeds(w, h, tw as int, th as int) {
        assert(th * w / h >= tw) by (nonlinear_arith)
            requires
                w * th > tw * h,
                h > 0,
        ;
    } else {
        assert(tw * h / w >= th) by (nonlinear_arith)
            requires
                w * th <= tw * h,
                w > 0,
        ;
    }
}

/// `Fill` with the aspect ratio kept, and `Crop`, give exactly the target
/// size: the center window of the covering resample, offset by half the
/// excess (rounded down) on each side.
pub proof fn lemma_fill_gives_target(
    v: ImageView,
    tw: usize,
    th: usize,
    mode: ResizeMode,
    preserve_aspect_ratio: bool,
    i: int,
    j: int,
)
    requires
        covers_target(mode, preserve_aspect_ratio),
        0 < v.width,
        0 < v.height,
        0 < tw <= u32::MAX,
        0 < th <= u32::MAX,
        th * (v.width as int) / (v.height as int) <= u32::MAX,
        tw * (v.height as int) / (v.width as int) <= u32::MAX,
    ensures
        resized_view(v, tw, th, mode, preserve_aspect_ratio).width == tw,
        resized_view(v, tw, th, mode, preserve_aspect_ratio).height == th,
        ({
            let size = resampled_size(v.width as int, v.height as int, tw, th, mode, preserve_aspect_ratio);
            let r = ImageView {
                width: size.0 as nat,
                height: size.1 as nat,
                data: lanczos3_resized(v.width as u32, v.height as u32, v.data, size.0 as u32, size.1 as u32),
            };
            (0 <= i < tw && 0 <= j < th) ==> resized_view(v, tw, th, mode, preserve_aspect_ratio).pixel(i, j)
                == r.pixel(i + (size.0 - tw) / 2, j + (size.1 - th) / 2)
        }),
{
    lemma_fill_covers_target(v.width as int, v.height as int, tw, th, mode, preserve_aspect_ratio);
    assert((tw as u32) as int == tw);
    assert((th as u32) as int == th);
    let size = resampled_size(v.width as int, v.height as int, tw, th, mode, preserve_aspect_ratio);
    let r = ImageView {
        width: size.0 as nat,
        height: size.1 as nat,
        data: lanczos3_resized(v.width as u32, v.height as u32, v.data, size.0 as u32, size.1 as u32),
    };
    lemma_center_crop_centered(r, tw as int, th as int, i, j);
}

/// `Stretch`, and `Fit` or `Fill` without keeping the aspect ratio, resample
/// to exactly the target size.
pub proof fn lemma_stretch_is_exact(
    w: int,
    h: int,
    tw: usize,
    th: usize,
    mode: ResizeMode,
    preserve_aspect_ratio: bool,
)
    requires
        mode == ResizeMode::Stretch || (mode != ResizeMode::Crop && !preserve_aspect_ratio),
        tw <= u32::MAX,
        th <= u32::MAX,
    ensures
        resampled_size(w, h, tw, th, mode, preserve_aspect_ratio) == (tw as int, th as int),
{
    assert((tw as u32) as int == tw);
    assert((th as u32) as int == th);
}

/// The automatic size is at least one cell each way and leaves the two-cell
/// margin whenever the terminal has room for it; its width never exceeds the
/// image width (unless the image has none).
pub proof fn lemma_auto_dimensions_bounds(img_w: int, img_h: int, cols: int, rows: int)
    requires
        0 <= img_w,
        0 <= img_h,
        0 <= cols,
        0 <= rows,
    ensures
        auto_dimensions(img_w, img_h, cols, rows).0 >= 1,
        auto_dimensions(img_w, img_h, cols, rows).1 >= 1,
        auto_dimensions(img_w, img_h, cols, rows).0 <= max(minus_margin(cols), 1),
        auto_dimensions(img_w, img_h, cols, rows).1 <= max(minus_margin(rows), 1),
        auto_dimensions(img_w, img_h, cols, rows).0 <= max(img_w, 1),
{
    let width = min(minus_margin(cols), img_w);
    lemma_rows_for_columns_bound(width, img_w, img_h);
}

/// Resize image to target dimensions.
///
/// `Fit` keeps the image's aspect ratio when asked to, fitting inside the
/// target; `Fill` (keeping the ratio when asked to) and `Crop` (always keeping
/// it) cover the target, then keep its center window of the target's size;
/// `Stretch` uses the target size as is.
pub fn resize_for_terminal(
    img: &RgbaImage,
    target_width: usize,
    target_height: usize,
    resize_mode: ResizeMode,
    preserve_aspect_ratio: bool,
) -> (out: RgbaImage)
    requires
        ({
            let size = resampled_size(
                img@.width as int,
                img@.height as int,
                target_width,
                target_height,
                resize_mode,
                preserve_aspect_ratio,
            );
            resample_fits(img@.width as int, size.0, size.1)
        }),
    ensures
        out@ == resized_view(img@, target_width, target_height, resize_mode, preserve_aspect_ratio),
{
    proof {
        use_type_invariant(img);
    }
    let (orig_w, orig_h) = img.dimensions();
    let (final_w, final_h) = resampled_size_exec(
        orig_w,
        orig_h,
        target_width,
        target_height,
        resize_mode,
        preserve_aspect_ratio,
    );
    let data = resize_lanczos3(orig_w, orig_h, &img.data, final_w, final_h);
    let resized = RgbaImage { width: final_w, height: final_h, data };
    assert(resized@ =~= ImageView {
        width: final_w as nat,
        height: final_h as nat,
        data: lanczos3_resized(orig_w, orig_h, img@.data, final_w, final_h),
    });
    match resize_mode {
        ResizeMode::Crop | ResizeMode::Fill => crop_to_center(&resized, target_width, target_height),
        _ => resized,
    }
}


/// Resizing a `w` x `h` image to the target fits the machine: the resampled
/// buffers fit in memory, and the result's cells (one more per row for the
/// line breaks) fit 32 bits.
pub open spec fn resize_fits(
    w: int,
    h: int,
    tw: usize,
    th: usize,
    mode: ResizeMode,
    preserve_aspect_ratio: bool,
) -> bool {
    let size = resampled_size(w, h, tw, th, mode, preserve_aspect_ratio);
    &&& resample_fits(w, size.0, size.1)
    &&& size.0 * size.1 + size.1 <= u32::MAX
}

/// Whether resizing a `w` x `h` image to the target fits the machine.
pub(crate) fn resize_fits_exec(
    w: u32,
    h: u32,
    tw: usize,
    th: usize,
    mode: ResizeMode,
    preserve_aspect_ratio: bool,
) -> (b: bool)
    ensures
        b == resize_fits(w as int, h as int, tw, th, mode, preserve_aspect_ratio),
{
    let (nw, nh) = resampled_size_exec(w, h, tw, th, mode, preserve_aspect_ratio);
    let limit: u128 = isize::MAX as u128;
    assert((nw as u128) * (nh as u128) <= 0xffff_ffff_ffff_ffff) by (nonlinear_arith)
        requires
            nw <= 0xffff_ffff,
            nh <= 0xffff_ffff,
    ;
    assert((w as u128) * (nh as u128) <= 0xffff_ffff_ffff_ffff) by (nonlinear_arith)
        requires
            w <= 0xffff_ffff,
            nh <= 0xffff_ffff,
    ;
    let pixels: u128 = (nw as u128) * (nh as u128);
    let spans: u128 = (w as u128) * (nh as u128);
    !(4 * pixels > limit || 16 * spans > limit || pixels + (nh as u128) > u32::MAX as u128)
}

/// When the resize fits, the cells of the resized image fit 32 bits.
pub proof fn lemma_resized_cells(
    v: ImageView,
    tw: usize,
    th: usize,
    mode: ResizeMode,
    preserve_aspect_ratio: bool,
)
    requires
        resize_fits(v.width as int, v.height as int, tw, th, mode, preserve_aspect_ratio),
    ensures
        ({
            let r = resized_view(v, tw, th, mode, preserve_aspect_ratio);
            r.width * r.height + r.height <= u32::MAX
        }),
{
    let size = resampled_size(v.width as int, v.height as int, tw, th, mode, preserve_aspect_ratio);
    let r = resized_view(v, tw, th, mode, preserve_aspect_ratio);
    assert(0 <= r.width <= size.0 && 0 <= r.height <= size.1);
    assert(r.width * r.height <= size.0 * size.1) by (nonlinear_arith)
        requires
            0 <= r.width <= size.0,
            0 <= r.height <= size.1,
    ;
}

/// An 8-bit grayscale image stored row by row, one byte per pixel.
#[derive(Debug)]
pub struct GrayImage {
    width: u32,
    height: u32,
    data: Vec<u8>,
}

impl View for GrayImage {
    type V = ImageView;

    /// The size and the gray levels (one byte per pixel), row by row.
    closed spec fn view(&self) -> ImageView {
        ImageView { width: self.width as nat, height: self.height as nat, data: self.data@ }
    }
}

impl GrayImage {
    #[verifier::type_invariant]
    spec fn buffer_matches(&self) -> bool {
        self.data@.len() == self.width * self.height
    }

    /// The width and height in pixels.
    pub fn dimensions(&self) -> (d: (u32, u32))
        ensures
            d.0 == self@.width,
            d.1 == self@.height,
    {
        (self.width, self.height)
    }

    /// The gray levels, row by row.
    pub fn as_raw(&self) -> (d: &Vec<u8>)
        ensures
            d@ == self@.data,
    {
        &self.data
    }
}

/// The gray levels `image` computes for an RGBA buffer of `w` x `h` pixels
/// when converting it to an 8-bit luma image.
pub uninterp spec fn luma8_of(w: u32, h: u32, data: Seq<u8>) -> Seq<u8>;

/// Converts an RGBA buffer to 8-bit gray levels.
///
/// Trusted: calls `image::DynamicImage::to_luma8` on the buffer. Its result is
/// named, not stated; the claim is one gray level per pixel, which the source
/// shows (`ImageBuffer::from_vec` with the same width and height).
#[verifier::external_body]
fn luma8(w: u32, h: u32, data: &Vec<u8>) -> (r: Vec<u8>)
    requires
        data@.len() == 4 * (w * h),
    ensures
        r@ == luma8_of(w, h, data@),
        r@.len() == w * h,
{
    let src = image::RgbaImage::from_raw(w, h, data.clone()).unwrap();
    image::DynamicImage::ImageRgba8(src).to_luma8().into_raw()
}

/// Convert image to grayscale.
pub fn to_grayscale(img: &RgbaImage) -> (g: GrayImage)
    ensures
        g@.width == img@.width,
        g@.height == img@.height,
        g@.data == luma8_of(
            img@.width as u32,
            img@.height as u32,
            img@.data,
        ),
{
    proof {
        use_type_invariant(img);
    }
    let data = luma8(img.width, img.height, &img.data);
    GrayImage { width: img.width, height: img.height, data }
}

#[verifier::external_type_specification]
#[verifier::external_body]
pub struct ExImageError(image::ImageError);

/// What `image` decodes an encoded image (PNG, JPEG, GIF, ...) to, as RGBA
/// width, height and bytes; `None` when it cannot decode it.
pub uninterp spec fn decoded_rgba8(bytes: Seq<u8>) -> Option<(u32, u32, Seq<u8>)>;

/// Decodes an encoded image, guessing its format from its content.
///
/// Trusted: calls `image::load_from_memory` and converts the result with
/// `to_rgba8`. The result is named, not stated; the claim is that a decoded
/// image comes with a buffer of four bytes per pixel, as `to_rgba8` builds it.
#[verifier::external_body]
fn load_rgba8(bytes: &[u8]) -> (r: Result<(u32, u32, Vec<u8>), image::ImageError>)
    ensures
        r is Ok <==> decoded_rgba8(bytes@) is Some,
        r matches Ok(d) ==> decoded_rgba8(bytes@) == Some((d.0, d.1, d.2@)) && d.2@.len() == 4 * (
        d.0 * d.1),
{
    let img = image::load_from_memory(bytes)?.to_rgba8();
    Ok((img.width(), img.height(), img.into_raw()))
}

/// What `image` decodes an encoded image to when its format is the one that
/// the extension of `path` names, as RGBA width, height and bytes; `None` when
/// the extension names no supported format or the bytes do not decode in it.
pub uninterp spec fn decoded_rgba8_as(path: Seq<char>, bytes: Seq<u8>) -> Option<(u32, u32, Seq<u8>)>;

/// Decodes an encoded image in the format that the extension of `path` names.
///
/// Trusted: calls `image::ImageFormat::from_path` and
/// `image::load_from_memory_with_format` (which decodes with the same reader
/// and limits as `image::open` does for a file), then converts with
/// `to_rgba8`. The result is named, not stated; the claim is that a decoded
/// image comes with a buffer of four bytes per pixel.
#[verifier::external_body]
fn load_rgba8_as(path: &str, bytes: &[u8]) -> (r: Result<(u32, u32, Vec<u8>), image::ImageError>)
    ensures
        r is Ok <==> decoded_rgba8_as(path@, bytes@) is Some,
        r matches Ok(d) ==> decoded_rgba8_as(path@, bytes@) == Some((d.0, d.1, d.2@)) && d.2@.len()
            == 4 * (d.0 * d.1),
{
    let format = image::ImageFormat::from_path(path)?;
    let img = image::load_from_memory_with_format(bytes, format)?.to_rgba8();
    Ok((img.width(), img.height(), img.into_raw()))
}

/// The message of an `image` error.
///
/// Trusted: calls `ToString::to_string` (its `Display`); nothing is claimed of the text.
#[verifier::external_body]
fn image_error_text(e: &image::ImageError) -> (s: String) {
    e.to_string()
}

/// Errors of image decoding.
#[derive(Debug)]
pub enum ImageLoadError {
    /// The bytes are not an image in a supported format; holds the decoder's message.
    Decode(String),
}

impl ImageLoadError {
    /// The human-readable message of this error.
    pub fn message(&self) -> (m: String)
        ensures
            m@ == match self {
                ImageLoadError::Decode(d) => "Failed to decode image: "@ + d@,
            },
    {
        match self {
            ImageLoadError::Decode(d) => {
                let mut m = String::from_str("Failed to decode image: ");
                m.append(d.as_str());
                m
            },
        }
    }
}

/// Decodes an image held in memory (its format guessed from its content).
pub fn decode_image(bytes: &[u8]) -> (r: Result<RgbaImage, ImageLoadError>)
    ensures
        r is Ok <==> decoded_rgba8(bytes@) is Some,
        r matches Ok(img) ==> decoded_rgba8(bytes@) == Some(
            (img@.width as u32, img@.height as u32, img@.data),
        ),
{
    match load_rgba8(bytes) {
        Ok((width, height, data)) => Ok(RgbaImage { width, height, data }),
        Err(e) => Err(ImageLoadError::Decode(image_error_text(&e))),
    }
}

/// Decodes the bytes of the image file `path`, in the format its extension
/// names, as opening the file with `image::open` does.
pub fn decode_image_file(path: &str, bytes: &[u8]) -> (r: Result<RgbaImage, ImageLoadError>)
    ensures
        r is Ok <==> decoded_rgba8_as(path@, bytes@) is Some,
        r matches Ok(img) ==> decoded_rgba8_as(path@, bytes@) == Some(
            (img@.width as u32, img@.height as u32, img@.data),
        ),
{
    match load_rgba8_as(path, bytes) {
        Ok((width, height, data)) => Ok(RgbaImage { width, height, data }),
        Err(e) => Err(ImageLoadError::Decode(image_error_text(&e))),
    }
}

} // verus!
