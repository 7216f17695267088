# ascii_shadow

Converts images and animated GIFs to ASCII art for the terminal, with
truecolor, 256-color or grayscale escape codes, several charsets (including
Braille patterns), contrast, brightness, inversion and background blending.

The library under `src/` is verified with Verus: every public function states
its result in its contract, over mathematical models of the data (images are
`ImageView`s: a size and a sequence of RGBA bytes).

- `charset`: the charsets and the brightness-to-character mapping.
- `color`: grayscale, the 256-color palette and ANSI escape sequences.
- `image`: RGBA images, automatic sizing, resize modes, center cropping and decoding.
- `converter`: pixel adjustments and the image-to-cells conversion.
- `output`: cells to text with color escapes.
- `gif`: GIF decoding, frame compositing, conversion and playback timing.
- `cli`, `settings`: command-line values and the conversion settings they select.
- `terminal`: output sizes and color support read from the environment.
- `text`: small string helpers.

Resampling (Lanczos3), image decoding and GIF decoding are done by the `image`
and `gif` crates, behind trusted wrappers whose contracts name their results.

`app/` is the `ascii-shadow` program: argument parsing with clap, file and
HTTP input, terminal control and the animation loop.
