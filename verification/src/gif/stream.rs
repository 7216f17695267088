//! Reading the frames of a GIF held in memory, one at a time.

use vstd::prelude::*;
use crate::gif::{GifFrame, frame_well_formed};

verus! {

/// The canvas width and height that a GIF's header gives, or `None` when
/// `gif::DecodeOptions::read_info` (with RGBA output) refuses the bytes.
pub uninterp spec fn gif_header(bytes: Seq<u8>) -> Option<(u16, u16)>;

/// What read number `k` (counted from 0) of `gif::Decoder::read_next_frame`
/// gives on a GIF opened from `bytes` with RGBA output: `None` when the read
/// fails, `Some(None)` at the end of the GIF, else the frame's delay, left,
/// top, width, height and RGBA pixels.
pub uninterp spec fn gif_frame_read(bytes: Seq<u8>, k: nat) -> Option<
    Option<(u16, u16, u16, u16, u16, Seq<u8>)>,
>;

/// The fields of a decoded frame, in the order `gif_frame_read` gives them.
pub open spec fn frame_fields(f: GifFrame) -> (u16, u16, u16, u16, u16, Seq<u8>) {
    (f.delay, f.left, f.top, f.width, f.height, f.buffer@)
}

/// A `gif::Decoder` over an in-memory copy of the file.
///
/// Held opaquely: Verus refuses a declaration of `gif::Decoder<R>` (its bound
/// `R: std::io::Read` names a trait it does not know, and a declaration with a
/// concrete reader does not match the type's generics).
#[verifier::external_body]
struct GifDecoder {
    decoder: gif::Decoder<std::io::Cursor<Vec<u8>>>,
}

/// A GIF decoder, with the bytes it decodes and the number of frame reads
/// made so far. Only `open_gif` makes one, and only `gif_next_frame` reads.
pub struct GifStream {
    decoder: GifDecoder,
    bytes: Ghost<Seq<u8>>,
    reads: Ghost<nat>,
}

impl GifStream {
    /// The bytes of the GIF being decoded.
    pub closed spec fn source(&self) -> Seq<u8> {
        self.bytes@
    }

    /// How many frame reads were made.
    pub closed spec fn reads(&self) -> nat {
        self.reads@
    }
}

/// Starts decoding a GIF held in memory, with frames delivered as RGBA.
///
/// Trusted: calls `gif::DecodeOptions::read_info` (after `set_color_output`
/// with `ColorOutput::RGBA`). It succeeds exactly when the header can be read
/// (`gif_header` names that outcome, a function of the bytes); nothing is
/// claimed of the error.
#[verifier::external_body]
pub(crate) fn open_gif(bytes: &[u8]) -> (r: Result<GifStream, gif::DecodingError>)
    ensures
        r is Ok <==> gif_header(bytes@) is Some,
        r matches Ok(d) ==> d.source() == bytes@ && d.reads() == 0,
{
    let mut options = gif::DecodeOptions::new();
    options.set_color_output(gif::ColorOutput::RGBA);
    let decoder = options.read_info(std::io::Cursor::new(bytes.to_vec()))?;
    Ok(GifStream { decoder: GifDecoder { decoder }, bytes: Ghost(bytes@), reads: Ghost(0) })
}

/// The canvas width of the GIF.
///
/// Trusted: calls `gif::Decoder::width`, the width that the header gives.
#[verifier::external_body]
pub(crate) fn gif_width(d: &GifStream) -> (w: u16)
    requires
        gif_header(d.source()) is Some,
    ensures
        w == gif_header(d.source()).unwrap().0,
{
    d.decoder.decoder.width()
}

/// The canvas height of the GIF.
///
/// Trusted: calls `gif::Decoder::height`, the height that the header gives.
#[verifier::external_body]
pub(crate) fn gif_height(d: &GifStream) -> (h: u16)
    requires
        gif_header(d.source()) is Some,
    ensures
        h == gif_header(d.source()).unwrap().1,
{
    d.decoder.decoder.height()
}

/// The loop count that a GIF's header gives, or `None` when it asks to loop
/// forever (`gif::Repeat::Infinite`), as `gif::Decoder::repeat` reports it once
/// the header is read.
pub uninterp spec fn gif_repeat_count(bytes: Seq<u8>) -> Option<u16>;

/// The loop count the GIF asks for: `Some(n)` for `n` repetitions, `None` for
/// endless looping.
///
/// Trusted: calls `gif::Decoder::repeat` and tells its two variants apart. The
/// source sets the value only while the header is read, so it is a function of
/// the bytes, named by `gif_repeat_count`.
#[verifier::external_body]
pub(crate) fn gif_repeat(d: &GifStream) -> (r: Option<u16>)
    requires
        gif_header(d.source()) is Some,
    ensures
        r == gif_repeat_count(d.source()),
{
    match d.decoder.decoder.repeat() {
        gif::Repeat::Finite(n) => Some(n),
        gif::Repeat::Infinite => None,
    }
}

/// Decodes the next frame, or `None` at the end of the GIF.
///
/// Trusted: calls `gif::Decoder::read_next_frame` and copies the frame's
/// delay, placement, size and pixels. What the read gives is named by
/// `gif_frame_read` (a function of the bytes and of the number of reads made
/// before, which this call advances by one); the source shows that with RGBA
/// output the pixel buffer holds `width * height * 4` bytes.
#[verifier::external_body]
pub(crate) fn gif_next_frame(d: &mut GifStream) -> (r: Result<Option<GifFrame>, gif::DecodingError>)
    ensures
        final(d).source() == old(d).source(),
        final(d).reads() == old(d).reads() + 1,
        match gif_frame_read(old(d).source(), old(d).reads()) {
            None => r is Err,
            Some(None) => r matches Ok(None),
            Some(Some(t)) => r matches Ok(Some(f)) && frame_fields(f) == t,
        },
        r matches Ok(Some(f)) ==> frame_well_formed(f),
{
    match d.decoder.decoder.read_next_frame()? {
        Some(f) => Ok(
            Some(
                GifFrame {
                    delay: f.delay,
                    left: f.left,
                    top: f.top,
                    width: f.width,
                    height: f.height,
                    buffer: f.buffer.to_vec(),
                },
            ),
        ),
        None => Ok(None),
    }
}

} // verus!
