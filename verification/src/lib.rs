//! Voronoi diagrams on a pixel canvas.
//!
//! A set of focus points, each with a color, partitions a canvas: every pixel
//! takes the color of the focus nearest to it, and a small black dot marks each
//! focus. The finished canvas serializes to a binary PPM image.
//!
//! Colors hold their channels as IEEE 754 binary64 bit patterns, and distances
//! are held as exact squares, so that every rule of the library is a statement
//! about integers.

use vstd::prelude::*;

pub mod binary64;
pub mod canvas;
pub mod color;
pub mod focus;
pub mod image;
pub mod metric;
pub mod ppm;

pub use crate::canvas::Canvas;
pub use crate::color::Color;
pub use crate::focus::Focus;
pub use crate::image::VoronoiImage;
pub use crate::metric::{distance, Distance, Point};

verus! {

/// The width of the diagram that [`run`] draws.
pub const WIDTH: usize = 800;

/// The height of the diagram that [`run`] draws.
pub const HEIGHT: usize = 600;

/// Draws a `usize` from `rand::random`, which samples the thread-local
/// generator uniformly over the whole range of the type. Nothing is claimed
/// of the value drawn. The call fails only where the operating system has no
/// entropy to seed the generator with on its first use in a thread.
#[verifier::external_body]
fn random_usize() -> usize {
    rand::random::<usize>()
}

/// The point of a canvas of `width` by `height` pixels that two raw draws
/// name: each draw is reduced modulo the extent of its axis.
pub fn wrap_point(raw_row: usize, raw_col: usize, width: usize, height: usize) -> (p: Point)
    requires
        width > 0,
        height > 0,
    ensures
        p == (raw_row % height, raw_col % width),
        p.0 < height,
        p.1 < width,
{
    (raw_row % height, raw_col % width)
}

/// A random point of a canvas of `width` by `height` pixels.
pub fn random_point(width: usize, height: usize) -> (p: Point)
    requires
        width > 0,
        height > 0,
    ensures
        p.0 < height,
        p.1 < width,
{
    let row = random_usize();
    let col = random_usize();
    wrap_point(row, col, width, height)
}

/// A focus of the given color at a random point of a canvas of `width` by
/// `height` pixels.
pub fn random_focus(width: usize, height: usize, color: Color) -> (f: Focus)
    requires
        width > 0,
        height > 0,
    ensures
        f.color == color,
        f.point.0 < height,
        f.point.1 < width,
{
    let (r, c) = random_point(width, height);
    Focus::new(r, c, color)
}

/// Whether `canvas` is the diagram of `foci` at the size that [`run`] draws.
pub open spec fn is_diagram(canvas: Canvas, foci: Seq<Focus>) -> bool {
    &&& canvas.wf()
    &&& canvas.width() == WIDTH
    &&& canvas.height() == HEIGHT
    &&& forall|x: int, y: int|
        0 <= x < WIDTH && 0 <= y < HEIGHT ==> #[trigger] canvas.cell(x, y) == image::pixel_color(
            foci,
            (y as usize, x as usize),
        )
}

/// The diagram of the given foci, 800 pixels wide and 600 high.
pub fn render(focii: &[Focus]) -> (canvas: Canvas)
    ensures
        is_diagram(canvas, focii@),
{
    VoronoiImage::new(WIDTH, HEIGHT).with_focii(focii).build_canvas()
}

/// A diagram 800 pixels wide and 600 high with one focus for each of the
/// given colors, in their order, each at a random point of the canvas.
pub fn run(colors: &[Color]) -> (canvas: Canvas)
    ensures
        exists|foci: Seq<Focus>|
            {
                &&& is_diagram(canvas, foci)
                &&& foci.len() == colors@.len()
                &&& forall|i: int|
                    0 <= i < foci.len() ==> {
                        &&& (#[trigger] foci[i]).color == colors@[i]
                        &&& foci[i].point.0 < HEIGHT
                        &&& foci[i].point.1 < WIDTH
                    }
            },
{
    let num_focii = colors.len();
    let mut focii: Vec<Focus> = Vec::with_capacity(num_focii);
    let mut i: usize = 0;
    while i < num_focii
        invariant
            num_focii == colors@.len(),
            i <= num_focii,
            focii@.len() == i,
            forall|k: int|
                0 <= k < i ==> {
                    &&& (#[trigger] focii@[k]).color == colors@[k]
                    &&& focii@[k].point.0 < HEIGHT
                    &&& focii@[k].point.1 < WIDTH
                },
        decreases num_focii - i,
    {
        focii.push(random_focus(WIDTH, HEIGHT, colors[i]));
        i = i + 1;
    }
    let canvas = render(focii.as_slice());
    assert(is_diagram(canvas, focii@));
    canvas
}

} // verus!
