//! The pixel canvas and its traversals.

use vstd::prelude::*;
use vstd::arithmetic::div_mod::{
    lemma_div_multiples_vanish, lemma_fundamental_div_mod, lemma_fundamental_div_mod_converse,
};
use crate::color::consts::black;
use crate::color::Color;
use crate::ppm::{encoding, header, header_bytes, pixel_bytes, pixel_data, pixel_data_len};

verus! {

/// A rectangle of pixels, stored row by row in one buffer.
///
/// The pixel in column `x` of row `y` sits at index `y * width + x`. The height
/// is not stored: it is the length of the buffer divided by the width.
pub struct Canvas {
    width: usize,
    pixels: Vec<Color>,
}

/// The row and the column of the pixel at index `k` of a row-major buffer
/// whose rows are `width` pixels long.
pub open spec fn coordinates(width: nat, k: nat) -> (nat, nat) {
    (k / width, k % width)
}

/// Row-major order on a canvas of `width` by `height` pixels starts at row 0,
/// column 0, and ends at the last column of the last row. Each step moves one
/// column to the right, or from the last column of a row to the first of the
/// next, so that `width` steps move down one row. The first `width * height`
/// steps, and no others, reach a row of the canvas.
pub proof fn row_major_order(width: nat, height: nat)
    requires
        width >= 1,
        height >= 1,
    ensures
        coordinates(width, 0) == (0nat, 0nat),
        width * height >= 1,
        coordinates(width, (width * height - 1) as nat) == ((height - 1) as nat, (width - 1) as nat),
        forall|k: nat|
            coordinates(width, k + 1) == if (#[trigger] coordinates(width, k)).1 + 1 < width {
                (coordinates(width, k).0, coordinates(width, k).1 + 1)
            } else {
                (coordinates(width, k).0 + 1, 0nat)
            },
        forall|k: nat|
            coordinates(width, k + width) == (
                (#[trigger] coordinates(width, k)).0 + 1,
                coordinates(width, k).1,
            ),
        forall|k: nat| k < width * height <==> (#[trigger] coordinates(width, k)).0 < height,
        forall|k: nat| (#[trigger] coordinates(width, k)).1 < width,
{
    let w = width as int;
    let h = height as int;
    assert(w * h >= 1 && w * h - 1 == (h - 1) * w + (w - 1)) by (nonlinear_arith)
        requires
            w >= 1,
            h >= 1,
    ;
    lemma_fundamental_div_mod_converse(w * h - 1, w, h - 1, w - 1);
    assert forall|k: nat|
        coordinates(width, k + 1) == if (#[trigger] coordinates(width, k)).1 + 1 < width {
            (coordinates(width, k).0, coordinates(width, k).1 + 1)
        } else {
            (coordinates(width, k).0 + 1, 0nat)
        } by {
        let q = (k as int) / w;
        let r = (k as int) % w;
        lemma_fundamental_div_mod(k as int, w);
        if r + 1 < w {
            lemma_fundamental_div_mod_converse((k + 1) as int, w, q, r + 1);
        } else {
            assert(k + 1 == (q + 1) * w + 0) by (nonlinear_arith)
                requires
                    k == w * q + r,
                    r + 1 == w,
            ;
            lemma_fundamental_div_mod_converse((k + 1) as int, w, q + 1, 0);
        }
    }
    assert forall|k: nat|
        coordinates(width, k + width) == (
            (#[trigger] coordinates(width, k)).0 + 1,
            coordinates(width, k).1,
        ) by {
        let q = (k as int) / w;
        let r = (k as int) % w;
        lemma_fundamental_div_mod(k as int, w);
        assert(k + w == (q + 1) * w + r) by (nonlinear_arith)
            requires
                k == w * q + r,
        ;
        lemma_fundamental_div_mod_converse(k + w, w, q + 1, r);
    }
    assert forall|k: nat| k < width * height <==> (#[trigger] coordinates(width, k)).0 < height by {
        let q = (k as int) / w;
        let r = (k as int) % w;
        lemma_fundamental_div_mod(k as int, w);
        assert((q < h) <==> (w * q + r < w * h)) by (nonlinear_arith)
            requires
                0 <= r < w,
                0 <= q,
                h >= 1,
        ;
    }
}

impl Canvas {
    /// The pixels, row by row.
    pub closed spec fn cells(&self) -> Seq<Color> {
        self.pixels@
    }

    /// The number of columns.
    pub closed spec fn spec_width(&self) -> usize {
        self.width
    }

    /// The number of rows.
    pub closed spec fn spec_height(&self) -> usize {
        self.pixels.len() / self.width
    }

    /// The shape of a canvas: at least one column, and whole rows only.
    pub open spec fn wf(&self) -> bool {
        &&& self.spec_width() >= 1
        &&& self.cells().len() == self.spec_width() * self.spec_height()
    }

    /// The pixel in column `x` of row `y`.
    pub open spec fn cell(&self, x: int, y: int) -> Color {
        self.cells()[y * self.spec_width() + x]
    }

    /// A canvas of `width` by `height` pixels, all black.
    pub fn new(width: usize, height: usize) -> (canvas: Canvas)
        requires
            width >= 1,
            width * height <= usize::MAX,
        ensures
            canvas.wf(),
            canvas.width() == width,
            canvas.height() == height,
            canvas.cells() == Seq::new((width * height) as nat, |i: int| black()),
    {
        let pixels = vec![black(); width * height];
        proof {
            lemma_div_multiples_vanish(height as int, width as int);
            assert(width * height == height * width) by (nonlinear_arith);
        }
        Canvas { width, pixels }
    }

    /// The number of columns.
    #[verifier::when_used_as_spec(spec_width)]
    pub fn width(&self) -> (w: usize)
        ensures
            w == self.spec_width(),
    {
        self.width
    }

    /// The number of rows.
    #[verifier::when_used_as_spec(spec_height)]
    pub fn height(&self) -> (h: usize)
        requires
            self.wf(),
        ensures
            h == self.spec_height(),
    {
        self.pixels.len() / self.width
    }

    /// The index in the buffer of the pixel in column `x` of row `y`.
    fn index(&self, x: usize, y: usize) -> (i: usize)
        requires
            self.wf(),
            x < self.width(),
            y < self.height(),
        ensures
            i == y * self.width() + x,
            i < self.cells().len(),
    {
        assert(y * self.width + x < self.width * self.spec_height()) by (nonlinear_arith)
            requires
                x < self.width,
                y < self.spec_height(),
        ;
        y * self.width + x
    }

    /// The color of the pixel in column `x` of row `y`.
    pub fn pixel_at(&self, x: usize, y: usize) -> (c: Color)
        requires
            self.wf(),
            x < self.width(),
            y < self.height(),
        ensures
            c == self.cell(x as int, y as int),
    {
        self.pixels[self.index(x, y)]
    }

    /// This canvas with the pixel in column `x` of row `y` set to `c`.
    pub fn write_pixel(self, x: usize, y: usize, c: Color) -> (canvas: Canvas)
        requires
            self.wf(),
            x < self.width(),
            y < self.height(),
        ensures
            canvas.wf(),
            canvas.width() == self.width(),
            canvas.height() == self.height(),
            canvas.cells() == self.cells().update(y * self.width() + x, c),
    {
        let i = self.index(x, y);
        let mut canvas = self;
        canvas.pixels[i] = c;
        canvas
    }

    /// The canvas as a binary PPM image: the header and then three bytes for
    /// every pixel, row by row.
    pub fn to_ppm(&self) -> (bytes: Vec<u8>)
        requires
            self.wf(),
        ensures
            bytes@ == encoding(self.width() as nat, self.height() as nat, self.cells()),
            bytes@.len() == header(self.width() as nat, self.height() as nat).len() + 3
                * self.cells().len(),
    {
        let mut result = header_bytes(self.width(), self.height());
        let ghost head = result@;
        let mut pixels = self.pixels();
        loop
            invariant
                result@ + pixel_data(pixels.remaining()) == head + pixel_data(self.cells()),
            ensures
                result@ == head + pixel_data(self.cells()),
            decreases pixels.remaining().len(),
        {
            let ghost before = result@;
            let ghost rest = pixels.remaining();
            match pixels.next() {
                Some(pixel) => {
                    let (r, g, b) = pixel.to_byte_triple();
                    result.push(r);
                    result.push(g);
                    result.push(b);
                    assert(result@ == before + pixel_bytes(rest[0]));
                    assert(result@ + pixel_data(rest.skip(1)) == before + pixel_data(rest));
                },
                None => {
                    assert(pixel_data(rest) == Seq::<u8>::empty());
                    assert(result@ + pixel_data(rest) == result@);
                    break ;
                },
            }
        }
        proof {
            pixel_data_len(self.cells());
        }
        result
    }

    /// A traversal of the pixels in row-major order.
    pub fn pixels(&self) -> (it: Pixels<'_>)
        ensures
            it.remaining() == self.cells(),
    {
        Pixels { pixels: self.pixels.as_slice(), pos: 0 }
    }

    /// A traversal of the pixels in row-major order that lends each pixel
    /// out for writing. The canvas keeps its width and holds at the end
    /// what the traversal leaves in `cells`, whose length no step of the
    /// traversal changes.
    pub fn pixels_mut(&mut self) -> (it: PixelsMut<'_>)
        ensures
            it.wf(),
            it.pos == 0,
            it.cells@ == old(self).cells(),
            final(self).cells() == final(it.cells)@,
            final(self).width() == old(self).width(),
    {
        PixelsMut { cells: self.pixels.as_mut_slice(), pos: 0 }
    }

    /// A traversal of the pixels in row-major order that lends each pixel
    /// out for writing, together with its row and its column. The canvas
    /// keeps its width and holds at the end what the traversal leaves in
    /// `cells`, whose length no step of the traversal changes.
    pub fn enumerate_pixels_mut(&mut self) -> (it: EnumeratePixelsMut<'_>)
        requires
            old(self).wf(),
        ensures
            it.wf(),
            it.width == old(self).width(),
            it.row == 0,
            it.col == 0,
            it.cells@ == old(self).cells(),
            final(self).cells() == final(it.cells)@,
            final(self).width() == old(self).width(),
    {
        let width = self.width();
        EnumeratePixelsMut::new(self.pixels.as_mut_slice(), width)
    }

    /// A canvas of the same width keeps its shape when its pixels are
    /// replaced one for one.
    pub proof fn shape_is_kept(&self, before: &Canvas)
        requires
            before.wf(),
            self.width() == before.width(),
            self.cells().len() == before.cells().len(),
        ensures
            self.wf(),
            self.height() == before.height(),
    {
    }
}

/// A read-only traversal of the pixels of a canvas, in row-major order.
pub struct Pixels<'a> {
    pixels: &'a [Color],
    pos: usize,
}

impl<'a> Pixels<'a> {
    #[verifier::type_invariant]
    spec fn in_bounds(self) -> bool {
        self.pos <= self.pixels@.len()
    }

    /// The pixels not yet visited, in the order in which they will come.
    pub closed spec fn remaining(&self) -> Seq<Color> {
        self.pixels@.skip(self.pos as int)
    }

    /// The next pixel, or `None` once every pixel has been visited.
    pub fn next(&mut self) -> (r: Option<&'a Color>)
        ensures
            match r {
                Some(c) => {
                    &&& old(self).remaining().len() > 0
                    &&& *c == old(self).remaining()[0]
                    &&& final(self).remaining() == old(self).remaining().skip(1)
                },
                None => {
                    &&& old(self).remaining().len() == 0
                    &&& final(self).remaining() == old(self).remaining()
                },
            },
    {
        proof {
            use_type_invariant(&*self);
        }
        if self.pos < self.pixels.len() {
            let c = &self.pixels[self.pos];
            self.pos = self.pos + 1;
            Some(c)
        } else {
            None
        }
    }
}

/// A traversal of the pixels of a canvas, in row-major order, that lends each
/// pixel out for writing.
///
/// `cells` is the whole buffer and `pos` the index of the pixel that comes
/// next.
pub struct PixelsMut<'a> {
    pub cells: &'a mut [Color],
    pub pos: usize,
}

impl<'a> PixelsMut<'a> {
    /// The position lies within the buffer, or just behind it.
    pub open spec fn wf(&self) -> bool {
        self.pos <= self.cells@.len()
    }

    /// The next pixel, or `None` once every pixel has been visited. Writing
    /// to the pixel lent out changes that pixel of the buffer and no other.
    pub fn next(&mut self) -> (r: Option<&mut Color>)
        requires
            old(self).wf(),
        ensures
            final(self).wf(),
            final(final(self).cells)@ == final(old(self).cells)@,
            match r {
                Some(cell) => {
                    &&& old(self).pos < old(self).cells@.len()
                    &&& *cell == old(self).cells@[old(self).pos as int]
                    &&& final(self).pos == old(self).pos + 1
                    &&& final(self).cells@ == old(self).cells@.update(
                        old(self).pos as int,
                        *final(cell),
                    )
                },
                None => {
                    &&& old(self).pos == old(self).cells@.len()
                    &&& final(self).pos == old(self).pos
                    &&& final(self).cells@ == old(self).cells@
                },
            },
    {
        if self.pos < self.cells.len() {
            let i: usize = self.pos;
            self.pos = self.pos + 1;
            Some(&mut self.cells[i])
        } else {
            None
        }
    }
}

/// A traversal of the pixels of a canvas, in row-major order, that lends each
/// pixel out for writing together with its row and its column.
///
/// `cells` is the whole buffer, `width` the length of a row, and `row` and
/// `col` name the pixel that comes next. After the last pixel of a row `col`
/// equals `width`, and wraps only when the next pixel is asked for.
pub struct EnumeratePixelsMut<'a> {
    pub cells: &'a mut [Color],
    pub width: usize,
    pub row: usize,
    pub col: usize,
}

impl<'a> EnumeratePixelsMut<'a> {
    /// The index in the buffer of the pixel that comes next.
    pub open spec fn position(&self) -> nat {
        (self.row * self.width + self.col) as nat
    }

    /// Rows have at least one pixel, the column lies within the row or just
    /// behind it, and the position lies within the buffer or just behind
    /// it.
    pub open spec fn wf(&self) -> bool {
        &&& self.width >= 1
        &&& self.col <= self.width
        &&& self.position() <= self.cells@.len()
    }

    fn new(cells: &'a mut [Color], width: usize) -> (it: Self)
        requires
            width >= 1,
        ensures
            it.wf(),
            it.width == width,
            it.row == 0,
            it.col == 0,
            it.cells@ == old(cells)@,
            final(it.cells)@ == final(cells)@,
    {
        assert(0 * width == 0) by (nonlinear_arith);
        Self { cells, width, row: 0, col: 0 }
    }

    /// The next pixel with its row and its column, or `None` once every
    /// pixel has been visited. Writing to the pixel lent out changes that
    /// pixel of the buffer and no other.
    pub fn next(&mut self) -> (r: Option<(usize, usize, &mut Color)>)
        requires
            old(self).wf(),
        ensures
            final(self).wf(),
            final(self).width == old(self).width,
            final(final(self).cells)@ == final(old(self).cells)@,
            match r {
                Some((row, col, cell)) => {
                    &&& old(self).position() < old(self).cells@.len()
                    &&& (row as nat, col as nat) == coordinates(
                        old(self).width as nat,
                        old(self).position(),
                    )
                    &&& *cell == old(self).cells@[old(self).position() as int]
                    &&& final(self).position() == old(self).position() + 1
                    &&& final(self).cells@ == old(self).cells@.update(
                        old(self).position() as int,
                        *final(cell),
                    )
                },
                None => {
                    &&& old(self).position() == old(self).cells@.len()
                    &&& final(self).row == old(self).row
                    &&& final(self).col == old(self).col
                    &&& final(self).cells@ == old(self).cells@
                },
            },
    {
        let ghost position = self.position() as int;
        let len: usize = self.cells.len();
        assert(0 <= self.row * self.width) by (nonlinear_arith);
        let i: usize = self.row * self.width + self.col;
        if i >= len {
            return None;
        }
        if self.col >= self.width {
            assert((self.row + 1) * self.width == self.row * self.width + self.width
                && self.row + 1 <= (self.row + 1) * self.width) by (nonlinear_arith)
                requires
                    self.width >= 1,
            ;
            self.col = 0;
            self.row = self.row + 1;
        }
        let r: usize = self.row;
        let c: usize = self.col;
        proof {
            lemma_fundamental_div_mod_converse(position, self.width as int, r as int, c as int);
        }
        self.col = self.col + 1;
        Some((r, c, &mut self.cells[i]))
    }
}

} // verus!
