//! Building the diagram: every pixel takes the color of its nearest focus.

use vstd::prelude::*;
use vstd::arithmetic::div_mod::lemma_fundamental_div_mod_converse;
use crate::canvas::{coordinates, Canvas};
use crate::color::consts::black;
use crate::color::Color;
use crate::focus::{is_nearest, nearest_index, nearest_index_is, Focus};
use crate::metric::{distance, squared_distance, Distance, Point};

verus! {

/// The radius, in grid units, of the black dot that marks a focus.
pub const DOT_RADIUS: u64 = 4;

/// The color of the pixel at `p` in the diagram of `foci`: black where there
/// is no focus at all or the nearest one is within the dot radius, and the
/// color of the nearest focus everywhere else.
pub open spec fn pixel_color(foci: Seq<Focus>, p: Point) -> Color {
    if foci.len() == 0 {
        black()
    } else {
        let nearest = foci[nearest_index(foci, p)];
        if squared_distance(nearest.point, p) <= DOT_RADIUS * DOT_RADIUS {
            black()
        } else {
            nearest.color
        }
    }
}

/// A diagram to be drawn: the size of the canvas and the foci.
pub struct VoronoiImage {
    width: usize,
    height: usize,
    focii: Vec<Focus>,
}

impl VoronoiImage {
    /// The width of the canvas to be built.
    pub closed spec fn width(&self) -> usize {
        self.width
    }

    /// The height of the canvas to be built.
    pub closed spec fn height(&self) -> usize {
        self.height
    }

    /// The foci, in the order in which they were added.
    pub closed spec fn foci(&self) -> Seq<Focus> {
        self.focii@
    }

    /// A diagram of the given size with no focus yet.
    pub fn new(width: usize, height: usize) -> (image: VoronoiImage)
        ensures
            image.width() == width,
            image.height() == height,
            image.foci() == Seq::<Focus>::empty(),
    {
        VoronoiImage { width, height, focii: Vec::new() }
    }

    /// This diagram with `focii` added behind the foci it already has.
    pub fn with_focii(self, focii: &[Focus]) -> (image: VoronoiImage)
        ensures
            image.width() == self.width(),
            image.height() == self.height(),
            image.foci() == self.foci() + focii@,
    {
        let mut image = self;
        image.focii.extend_from_slice(focii);
        image
    }

    /// The focus nearest to the pixel at `row` and `col`, with its distance
    /// from that pixel. Of several foci at the same distance the one added
    /// first is returned. There is none only where there is no focus at all.
    pub fn nearest_focus(&self, row: usize, col: usize) -> (r: Option<(Distance, &Focus)>)
        ensures
            match r {
                Some((d, f)) => {
                    &&& is_nearest(self.foci(), (row, col), nearest_index(self.foci(), (row, col)))
                    &&& *f == self.foci()[nearest_index(self.foci(), (row, col))]
                    &&& d.squared() == squared_distance(f.point, (row, col))
                },
                None => self.foci().len() == 0,
            },
    {
        let ghost p: Point = (row, col);
        let ghost mut best: int = 0;
        let mut output: Option<(Distance, &Focus)> = None;
        let mut i: usize = 0;
        while i < self.focii.len()
            invariant
                i <= self.focii@.len(),
                p == (row, col),
                match output {
                    Some((d, f)) => {
                        &&& i > 0
                        &&& is_nearest(self.focii@.take(i as int), p, best)
                        &&& *f == self.focii@[best]
                        &&& d.squared() == squared_distance(f.point, p)
                    },
                    None => i == 0,
                },
            decreases self.focii@.len() - i,
        {
            let f = &self.focii[i];
            let curr_distance = distance(&f.point, &(row, col));
            let ghost seen = self.focii@.take(i as int);
            let ghost next = self.focii@.take(i + 1);
            match output {
                Some((d, _)) => {
                    if curr_distance.is_shorter_than(&d) {
                        output = Some((curr_distance, f));
                        proof {
                            assert forall|j: int| 0 <= j < next.len() implies squared_distance(
                                next[i as int].point,
                                p,
                            ) <= squared_distance(#[trigger] next[j].point, p) by {
                                if j < i {
                                    assert(squared_distance(seen[best].point, p)
                                        <= squared_distance(seen[j].point, p));
                                }
                            }
                            assert forall|j: int| 0 <= j < i implies squared_distance(
                                next[i as int].point,
                                p,
                            ) < squared_distance(#[trigger] next[j].point, p) by {
                                assert(squared_distance(seen[best].point, p) <= squared_distance(
                                    seen[j].point,
                                    p,
                                ));
                            }
                            best = i as int;
                        }
                    } else {
                        proof {
                            assert forall|j: int| 0 <= j < next.len() implies squared_distance(
                                next[best].point,
                                p,
                            ) <= squared_distance(#[trigger] next[j].point, p) by {
                                if j < i {
                                    assert(squared_distance(seen[best].point, p)
                                        <= squared_distance(seen[j].point, p));
                                }
                            }
                            assert forall|j: int| 0 <= j < best implies squared_distance(
                                next[best].point,
                                p,
                            ) < squared_distance(#[trigger] next[j].point, p) by {
                                assert(squared_distance(seen[best].point, p) < squared_distance(
                                    seen[j].point,
                                    p,
                                ));
                            }
                        }
                    }
                },
                None => {
                    output = Some((curr_distance, f));
                    proof {
                        best = 0;
                    }
                },
            }
            i = i + 1;
        }
        proof {
            assert(self.focii@.take(i as int) == self.focii@);
            if output is Some {
                nearest_index_is(self.focii@, p, best);
            }
        }
        output
    }

    /// The diagram, drawn on a canvas of this diagram's size: every pixel
    /// holds the color that [`pixel_color`] gives for its row and column.
    pub fn build_canvas(&self) -> (canvas: Canvas)
        requires
            self.width() >= 1,
            self.width() * self.height() <= usize::MAX,
        ensures
            canvas.wf(),
            canvas.width() == self.width(),
            canvas.height() == self.height(),
            forall|x: int, y: int|
                0 <= x < self.width() && 0 <= y < self.height() ==> #[trigger] canvas.cell(x, y)
                    == pixel_color(self.foci(), (y as usize, x as usize)),
    {
        let mut canvas = Canvas::new(self.width, self.height);
        let ghost blank = canvas;
        let ghost width = self.width as nat;
        let ghost size = (self.width * self.height) as nat;
        let mut cells = canvas.enumerate_pixels_mut();
        loop
            invariant
                width == self.width,
                cells.wf(),
                cells.width == self.width,
                cells.cells@.len() == size,
                after_borrow(canvas).cells() == final(cells.cells)@,
                after_borrow(canvas).width() == self.width,
                forall|k: int|
                    0 <= k < cells.position() ==> #[trigger] cells.cells@[k] == pixel_color(
                        self.foci(),
                        (
                            coordinates(width, k as nat).0 as usize,
                            coordinates(width, k as nat).1 as usize,
                        ),
                    ),
                forall|k: int| cells.position() <= k < size ==> #[trigger] cells.cells@[k] == black(),
            ensures
                cells.position() == size,
            decreases size - cells.position(),
        {
            match cells.next() {
                Some((r, c, p)) => {
                    let color = match self.nearest_focus(r, c) {
                        Some((d, f)) => {
                            if d.is_within(DOT_RADIUS) {
                                black()
                            } else {
                                f.color
                            }
                        },
                        None => *p,
                    };
                    *p = color;
                },
                None => {
                    break ;
                },
            }
        }
        proof {
            canvas.shape_is_kept(&blank);
            assert forall|x: int, y: int| 0 <= x < self.width() && 0 <= y < self.height() implies
                #[trigger] canvas.cell(x, y) == pixel_color(self.foci(), (y as usize, x as usize)) by {
                let k = y * width + x;
                assert(0 <= k < size) by (nonlinear_arith)
                    requires
                        k == y * width + x,
                        0 <= x < width,
                        0 <= y < self.height,
                        size == width * self.height,
                ;
                lemma_fundamental_div_mod_converse(k, width as int, y, x);
            }
        }
        canvas
    }
}

} // verus!
