//! The frame renderer: from the escape brightness of every pixel to a filled
//! canvas.

use vstd::prelude::*;
use crate::brightness::{apply_contrast, contrasted};
use crate::canvas::{addressable, lemma_sample_of_position, sample_index, Canvas};
use crate::color::{ColorMode, Rgb};
use crate::escape::{FractalType, Orbit, Phase};

verus! {

/// What the renderer reads of a configuration.
pub struct Config {
    /// Number of pixel columns.
    pub width: u32,
    /// Number of pixel rows.
    pub height: u32,
    /// The fractal family whose orbits are classified.
    pub fractal_type: FractalType,
    /// Factor the brightness is multiplied by before it is clamped.
    pub contrast: u8,
    /// Grayscale or colour output.
    pub mode: ColorMode,
}

/// Position of pixel `(x, y)` in a row-major grid of the given width.
pub open spec fn row_major(x: int, y: int, width: int) -> int {
    y * width + x
}

impl Config {
    /// A configuration describes an image with at least one pixel.
    pub open spec fn valid(&self) -> bool {
        self.width > 0 && self.height > 0
    }

    /// Number of pixels of the image.
    pub open spec fn pixel_count(&self) -> int {
        self.width * self.height
    }

    /// The colour of a pixel whose escape brightness is `raw`: contrast
    /// first, then the colour derivation.
    pub open spec fn spec_pixel(&self, raw: u8) -> Rgb {
        self.mode.spec_shade(contrasted(raw as int, self.contrast as int) as u8)
    }

    /// Whether the configuration describes an image with at least one pixel.
    pub fn is_valid(&self) -> (out: bool)
        ensures
            out == self.valid(),
    {
        self.width > 0 && self.height > 0
    }

    /// Starts the classification of one point of the configured family.
    pub fn start_orbit(&self) -> (out: Orbit)
        ensures
            out.kind() == self.fractal_type,
            out.phase() == Phase::initial(),
    {
        Orbit::start(self.fractal_type)
    }

    /// The colour of a pixel, from its escape brightness alone: pixels do
    /// not depend on each other.
    pub fn pixel(&self, raw: u8) -> (out: Rgb)
        ensures
            out == self.spec_pixel(raw),
    {
        self.mode.shade(apply_contrast(raw, self.contrast))
    }
}

/// The canvas has the configured dimensions and every pixel carries the
/// colour derived from its entry of the row-major brightness grid `raw`.
pub open spec fn rendered(canvas: Canvas, config: Config, raw: Seq<u8>) -> bool {
    &&& canvas.width() == config.width
    &&& canvas.height() == config.height
    &&& forall|x: int, y: int| #![trigger canvas.at(x, y)]
        canvas.in_bounds(x, y) ==> canvas.at(x, y) == config.spec_pixel(
            raw[row_major(x, y, config.width as int)],
        )
}

/// A pixel of a grid lies inside the row-major sequence.
pub proof fn lemma_row_major_in_range(x: int, y: int, width: int, height: int)
    requires
        0 <= x < width,
        0 <= y < height,
    ensures
        0 <= row_major(x, y, width) < width * height,
{
    assert(y * width + x < width * height) by (nonlinear_arith)
        requires
            0 <= x < width,
            0 <= y < height,
    ;
    assert(0 <= y * width) by (nonlinear_arith)
        requires
            0 <= y,
            0 <= width,
    ;
}

/// Writes one pixel: in colour mode the palette's colour for the brightness
/// read as a hue, otherwise the gray of that brightness. No other pixel
/// changes.
pub fn draw_pixel(a: &mut Canvas, x: u32, y: u32, z_bright: u8, mode: &ColorMode)
    requires
        old(a).in_bounds(x as int, y as int),
    ensures
        final(a).width() == old(a).width(),
        final(a).height() == old(a).height(),
        final(a).at(x as int, y as int) == mode.spec_shade(z_bright),
        forall|i: int, j: int| (i, j) != (x as int, y as int) ==> final(a).at(i, j) == old(a).at(i, j),
{
    let color = mode.shade(z_bright);
    a.put(x, y, color);
}

/// Fills the canvas row by row from the escape brightness of every pixel,
/// `raw`, given in row-major order.
pub fn fill(a: Canvas, config: &Config, raw: &Vec<u8>) -> (out: Canvas)
    requires
        a.width() == config.width,
        a.height() == config.height,
        raw.len() == config.pixel_count(),
    ensures
        rendered(out, *config, raw@),
{
    let mut a = a;
    let width = config.width;
    let height = config.height;
    let mut y: u32 = 0;
    while y < height
        invariant
            y <= height,
            width == config.width,
            height == config.height,
            a.width() == width,
            a.height() == height,
            raw.len() == width * height,
            forall|i: int, j: int| #![trigger a.at(i, j)]
                0 <= i < width && 0 <= j < y ==> a.at(i, j) == config.spec_pixel(
                    raw@[row_major(i, j, width as int)],
                ),
        decreases height - y,
    {
        let mut x: u32 = 0;
        while x < width
            invariant
                x <= width,
                y < height,
                width == config.width,
                height == config.height,
                a.width() == width,
                a.height() == height,
                raw.len() == width * height,
                forall|i: int, j: int| #![trigger a.at(i, j)]
                    0 <= i < width && 0 <= j < y ==> a.at(i, j) == config.spec_pixel(
                        raw@[row_major(i, j, width as int)],
                    ),
                forall|i: int| #![trigger a.at(i, y as int)]
                    0 <= i < x ==> a.at(i, y as int) == config.spec_pixel(
                        raw@[row_major(i, y as int, width as int)],
                    ),
            decreases width - x,
        {
            proof {
                lemma_row_major_in_range(x as int, y as int, width as int, height as int);
                assert(0 <= y * width) by (nonlinear_arith)
                    requires
                        0 <= y,
                        0 <= width,
                ;
            }
            let index: u64 = (y as u64) * (width as u64) + (x as u64);
            let z_bright = apply_contrast(raw[index as usize], config.contrast);
            draw_pixel(&mut a, x, y, z_bright, &config.mode);
            x += 1;
        }
        y += 1;
    }
    a
}

/// Renders a frame: a fresh canvas of the configured dimensions, filled from
/// the brightness grid. `None` when the grid does not hold exactly one
/// brightness per pixel or a canvas of that size cannot be made on this
/// machine.
pub fn render(config: &Config, raw: &Vec<u8>) -> (out: Option<Canvas>)
    ensures
        out is Some <==> raw.len() == config.pixel_count() && addressable(
            config.width,
            config.height,
        ),
        out matches Some(canvas) ==> rendered(canvas, *config, raw@),
{
    assert(config.width * config.height <= 0xffff_ffff * 0xffff_ffff) by (nonlinear_arith)
        requires
            config.width <= 0xffff_ffff,
            config.height <= 0xffff_ffff,
    ;
    let count: u64 = (config.width as u64) * (config.height as u64);
    if raw.len() as u64 != count {
        return None;
    }
    match Canvas::new(config.width, config.height) {
        Some(blank) => Some(fill(blank, config, raw)),
        None => None,
    }
}

/// Rendering is a function of its inputs: two canvases rendered from the
/// same configuration and the same brightness grid have the same dimensions
/// and the same colour at every pixel.
pub proof fn lemma_render_deterministic(first: Canvas, second: Canvas, config: Config, raw: Seq<u8>)
    requires
        rendered(first, config, raw),
        rendered(second, config, raw),
    ensures
        first.width() == second.width(),
        first.height() == second.height(),
        forall|x: int, y: int| first.in_bounds(x, y) ==> first.at(x, y) == second.at(x, y),
{
    assert forall|x: int, y: int| first.in_bounds(x, y) implies first.at(x, y) == second.at(x, y) by {
        assert(second.in_bounds(x, y));
    }
}

/// Rendering the same configuration and brightness grid twice gives
/// byte-identical pixel grids.
pub proof fn lemma_render_byte_identical(
    first: Canvas,
    second: Canvas,
    config: Config,
    raw: Seq<u8>,
    first_bytes: Seq<u8>,
    second_bytes: Seq<u8>,
)
    requires
        rendered(first, config, raw),
        rendered(second, config, raw),
        first.holds_bytes(first_bytes),
        second.holds_bytes(second_bytes),
    ensures
        first_bytes == second_bytes,
{
    let width = config.width as int;
    let height = config.height as int;
    assert forall|k: int| 0 <= k < first_bytes.len() implies first_bytes[k] == second_bytes[k] by {
        let (x, y, c) = lemma_sample_of_position(k, width, height);
        assert(first.in_bounds(x, y) && second.in_bounds(x, y));
        assert(first.at(x, y) == second.at(x, y));
        assert(first_bytes[sample_index(x, y, c, width)] == first.at(x, y).channel(c));
        assert(second_bytes[sample_index(x, y, c, width)] == second.at(x, y).channel(c));
    }
    assert(first_bytes =~= second_bytes);
}

} // verus!
