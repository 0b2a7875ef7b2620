//! The pixel canvas: a width x height grid of RGB triples kept in an
//! `image::RgbImage`.

use vstd::prelude::*;
use crate::color::Rgb;

verus! {

/// A grid of RGB pixels backed by an `image::RgbImage`.
#[verifier::external_body]
pub struct Canvas {
    image: image::RgbImage,
}

/// The channel triple stored at every in-bounds coordinate `(x, y)` of the
/// canvas.
pub uninterp spec fn canvas_pixels(canvas: Canvas) -> Map<(int, int), (u8, u8, u8)>;

/// The width and height the canvas was made with.
pub uninterp spec fn canvas_dimensions(canvas: Canvas) -> (u32, u32);

/// Whether a buffer of three bytes for each pixel of a `width` x `height`
/// grid can be made on this machine: one row of it must be countable in
/// `usize`, and the whole must not be longer than `isize::MAX` bytes.
pub open spec fn addressable(width: u32, height: u32) -> bool {
    &&& 3 * width <= usize::MAX
    &&& 3 * width * height <= isize::MAX
}

/// `image::ImageBuffer::new`: a buffer of the given dimensions whose every
/// channel is zero. The call computes the buffer's length as `3 * width` and
/// that times `height`, and panics when either product overflows `usize`;
/// the vector it then allocates panics when it is longer than `isize::MAX`
/// bytes. The precondition rules out all three. Like every allocation, the
/// call ends the process when the machine has no memory left for the buffer.
#[verifier::external_body]
fn blank_image(width: u32, height: u32) -> (out: Canvas)
    requires
        3 * width <= usize::MAX,
        3 * width * height <= isize::MAX,
    ensures
        canvas_dimensions(out) == (width, height),
        forall|x: int, y: int|
            0 <= x < width && 0 <= y < height ==> #[trigger] canvas_pixels(out)[(x, y)] == (
                0u8,
                0u8,
                0u8,
            ),
{
    Canvas { image: image::RgbImage::new(width, height) }
}

/// `image::ImageBuffer::dimensions`: the width and height held by the buffer.
#[verifier::external_body]
fn image_dimensions(canvas: &Canvas) -> (out: (u32, u32))
    ensures
        out == canvas_dimensions(*canvas),
{
    canvas.image.dimensions()
}

/// `image::ImageBuffer::get_pixel`: the channels stored at `(x, y)`. The call
/// panics outside the bounds, which the precondition rules out.
#[verifier::external_body]
fn image_get_pixel(canvas: &Canvas, x: u32, y: u32) -> (out: Rgb)
    requires
        x < canvas_dimensions(*canvas).0,
        y < canvas_dimensions(*canvas).1,
    ensures
        out.channels() == canvas_pixels(*canvas)[(x as int, y as int)],
{
    let p = canvas.image.get_pixel(x, y);
    Rgb { red: p.0[0], green: p.0[1], blue: p.0[2] }
}

/// `image::ImageBuffer::put_pixel`: overwrites the channels at `(x, y)` and
/// leaves the dimensions and every other pixel as they were. The call panics
/// outside the bounds, which the precondition rules out.
#[verifier::external_body]
fn image_put_pixel(canvas: &mut Canvas, x: u32, y: u32, color: Rgb)
    requires
        x < canvas_dimensions(*old(canvas)).0,
        y < canvas_dimensions(*old(canvas)).1,
    ensures
        canvas_dimensions(*final(canvas)) == canvas_dimensions(*old(canvas)),
        canvas_pixels(*final(canvas)) == canvas_pixels(*old(canvas)).insert(
            (x as int, y as int),
            color.channels(),
        ),
{
    canvas.image.put_pixel(x, y, image::Rgb([color.red, color.green, color.blue]));
}

/// Position of channel `c` of pixel `(x, y)` in the row-major bytes of a
/// grid of the given width: three bytes for each pixel, red first.
pub open spec fn sample_index(x: int, y: int, c: int, width: int) -> int {
    3 * (y * width + x) + c
}

/// In row-major order, a pixel of an earlier row, or an earlier pixel of the
/// same row, comes first.
pub proof fn lemma_row_major_order(x1: int, y1: int, x2: int, y2: int, width: int)
    requires
        0 <= x1 < width,
        0 <= x2 <= width,
        0 <= y1,
        y1 < y2 || (y1 == y2 && x1 < x2),
    ensures
        0 <= y1 * width + x1 < y2 * width + x2,
{
    assert(0 <= y1 * width) by (nonlinear_arith)
        requires
            0 <= y1,
            0 <= width,
    ;
    if y1 < y2 {
        assert((y1 + 1) * width <= y2 * width) by (nonlinear_arith)
            requires
                y1 + 1 <= y2,
                0 <= width,
        ;
        assert((y1 + 1) * width == y1 * width + width) by (nonlinear_arith);
    }
}

/// Every position of the row-major bytes of a grid is that of a channel of
/// a pixel of the grid; the lemma returns the pixel and the channel.
pub proof fn lemma_sample_of_position(k: int, width: int, height: int) -> (sample: (int, int, int))
    requires
        0 <= k < 3 * width * height,
        0 <= width,
        0 <= height,
    ensures
        0 <= sample.0 < width,
        0 <= sample.1 < height,
        0 <= sample.2 < 3,
        sample_index(sample.0, sample.1, sample.2, width) == k,
{
    assert(width > 0) by (nonlinear_arith)
        requires
            0 <= k < 3 * width * height,
            0 <= width,
    ;
    let p = k / 3;
    let c = k % 3;
    let x = p % width;
    let y = p / width;
    vstd::arithmetic::div_mod::lemma_fundamental_div_mod(p, width);
    vstd::arithmetic::div_mod::lemma_mod_bound(p, width);
    assert(p < height * width) by (nonlinear_arith)
        requires
            3 * p <= k,
            k < 3 * width * height,
    ;
    vstd::arithmetic::div_mod::lemma_multiply_divide_lt(p, width, height);
    vstd::arithmetic::div_mod::lemma_div_pos_is_pos(p, width);
    assert(width * y == y * width) by (nonlinear_arith);
    (x, y, c)
}

impl Canvas {
    /// Number of pixel columns.
    pub open spec fn width(&self) -> int {
        canvas_dimensions(*self).0 as int
    }

    /// Number of pixel rows.
    pub open spec fn height(&self) -> int {
        canvas_dimensions(*self).1 as int
    }

    /// Whether `(x, y)` names a pixel of the canvas.
    pub open spec fn in_bounds(&self, x: int, y: int) -> bool {
        0 <= x < self.width() && 0 <= y < self.height()
    }

    /// The colour at `(x, y)`; meaningful for in-bounds coordinates.
    pub open spec fn at(&self, x: int, y: int) -> Rgb {
        Rgb::of_channels(canvas_pixels(*self)[(x, y)])
    }

    /// Whether `bytes` is the canvas written out row by row, three bytes for
    /// each pixel.
    pub open spec fn holds_bytes(&self, bytes: Seq<u8>) -> bool {
        &&& bytes.len() == 3 * self.width() * self.height()
        &&& forall|x: int, y: int, c: int| #![trigger sample_index(x, y, c, self.width())]
            self.in_bounds(x, y) && 0 <= c < 3 ==> bytes[sample_index(x, y, c, self.width())]
                == self.at(x, y).channel(c)
    }

    /// A black canvas of the given dimensions, or `None` when a buffer of
    /// its `3 * width * height` bytes cannot be made on this machine.
    pub fn new(width: u32, height: u32) -> (out: Option<Canvas>)
        ensures
            out is Some <==> addressable(width, height),
            out matches Some(c) ==> {
                &&& c.width() == width
                &&& c.height() == height
                &&& forall|x: int, y: int| c.in_bounds(x, y) ==> #[trigger] c.at(x, y) == Rgb::spec_gray(0)
            },
    {
        let row: u128 = 3 * (width as u128);
        assert(0 <= row * height <= 3 * 0xffff_ffff * 0xffff_ffff) by (nonlinear_arith)
            requires
                0 <= row <= 3 * 0xffff_ffff,
                0 <= height <= 0xffff_ffff,
        ;
        let bytes: u128 = row * (height as u128);
        if row <= usize::MAX as u128 && bytes <= isize::MAX as u128 {
            let c = blank_image(width, height);
            Some(c)
        } else {
            None
        }
    }

    /// The width and height of the canvas.
    pub fn dimensions(&self) -> (out: (u32, u32))
        ensures
            out.0 == self.width(),
            out.1 == self.height(),
    {
        image_dimensions(self)
    }

    /// The colour at `(x, y)`, or `None` outside the canvas.
    pub fn pixel(&self, x: u32, y: u32) -> (out: Option<Rgb>)
        ensures
            out == if self.in_bounds(x as int, y as int) {
                Some(self.at(x as int, y as int))
            } else {
                None
            },
    {
        let (width, height) = image_dimensions(self);
        if x < width && y < height {
            Some(image_get_pixel(self, x, y))
        } else {
            None
        }
    }

    /// The canvas as bytes, row by row from the top, each pixel as its red,
    /// green and blue channel: the form in which the finished grid is handed
    /// on.
    pub fn to_bytes(&self) -> (out: Vec<u8>)
        ensures
            self.holds_bytes(out@),
    {
        let (width, height) = image_dimensions(self);
        let mut out: Vec<u8> = Vec::new();
        let mut y: u32 = 0;
        while y < height
            invariant
                y <= height,
                width == self.width(),
                height == self.height(),
                out@.len() == 3 * (y * width),
                forall|i: int, j: int, c: int| #![trigger sample_index(i, j, c, width as int)]
                    0 <= i < width && 0 <= j < y && 0 <= c < 3 ==> out@[sample_index(
                        i,
                        j,
                        c,
                        width as int,
                    )] == self.at(i, j).channel(c),
            decreases height - y,
        {
            let mut x: u32 = 0;
            while x < width
                invariant
                    x <= width,
                    y < height,
                    width == self.width(),
                    height == self.height(),
                    out@.len() == 3 * (y * width + x),
                    forall|i: int, j: int, c: int| #![trigger sample_index(i, j, c, width as int)]
                        0 <= i < width && 0 <= c < 3 && (0 <= j < y || (j == y && i < x))
                            ==> out@[sample_index(i, j, c, width as int)] == self.at(i, j).channel(c),
                decreases width - x,
            {
                let color = image_get_pixel(self, x, y);
                let ghost before = out@;
                out.push(color.red);
                out.push(color.green);
                out.push(color.blue);
                proof {
                    assert forall|i: int, j: int, c: int| #![trigger sample_index(i, j, c, width as int)]
                        0 <= i < width && 0 <= c < 3 && (0 <= j < y || (j == y && i < x + 1))
                        implies out@[sample_index(i, j, c, width as int)] == self.at(i, j).channel(c) by {
                        if j == y && i == x {
                            assert(sample_index(i, j, c, width as int) == before.len() + c);
                        } else {
                            lemma_row_major_order(i, j, x as int, y as int, width as int);
                            assert(sample_index(i, j, c, width as int) < before.len());
                            assert(out@[sample_index(i, j, c, width as int)] == before[sample_index(
                                i,
                                j,
                                c,
                                width as int,
                            )]);
                        }
                    }
                }
                x += 1;
            }
            proof {
                assert((y + 1) * width == y * width + width) by (nonlinear_arith);
            }
            y += 1;
        }
        proof {
            assert(3 * (height * width) == 3 * width * height) by (nonlinear_arith);
        }
        out
    }

    /// Overwrites the colour at `(x, y)`; every other pixel keeps its colour.
    pub fn put(&mut self, x: u32, y: u32, color: Rgb)
        requires
            old(self).in_bounds(x as int, y as int),
        ensures
            final(self).width() == old(self).width(),
            final(self).height() == old(self).height(),
            final(self).at(x as int, y as int) == color,
            forall|i: int, j: int| (i, j) != (x as int, y as int) ==> final(self).at(i, j) == old(self).at(i, j),
    {
        image_put_pixel(self, x, y, color);
    }
}

} // verus!
