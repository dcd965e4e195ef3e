//! Focus points and the search for the one nearest to a pixel.

use vstd::prelude::*;
use crate::color::Color;
use crate::metric::{squared_distance, Point};

verus! {

/// A focus of the diagram: a grid point and the color of its cell.
#[derive(Clone, Copy, Debug)]
pub struct Focus {
    pub point: Point,
    pub color: Color,
}

impl Focus {
    /// A focus at the given row and column.
    #[verifier::allow_in_spec]
    pub fn new(row: usize, col: usize, color: Color) -> Focus
        returns
            (Focus { point: (row, col), color }),
    {
        Focus { point: (row, col), color }
    }
}

/// Whether `foci[i]` is the focus nearest to `p`: no focus is closer, and every
/// focus before it in the collection is strictly farther away.
pub open spec fn is_nearest(foci: Seq<Focus>, p: Point, i: int) -> bool {
    &&& 0 <= i < foci.len()
    &&& forall|j: int|
        0 <= j < foci.len() ==> squared_distance(foci[i].point, p) <= squared_distance(
            #[trigger] foci[j].point,
            p,
        )
    &&& forall|j: int|
        0 <= j < i ==> squared_distance(foci[i].point, p) < squared_distance(
            #[trigger] foci[j].point,
            p,
        )
}

/// The index of the focus nearest to `p`, for a collection that is not empty.
pub open spec fn nearest_index(foci: Seq<Focus>, p: Point) -> int {
    choose|i: int| is_nearest(foci, p, i)
}

/// At most one focus is the nearest.
pub proof fn nearest_is_unique(foci: Seq<Focus>, p: Point, i: int, j: int)
    requires
        is_nearest(foci, p, i),
        is_nearest(foci, p, j),
    ensures
        i == j,
{
    if i < j {
        assert(squared_distance(foci[j].point, p) < squared_distance(foci[i].point, p));
        assert(squared_distance(foci[i].point, p) <= squared_distance(foci[j].point, p));
    } else if j < i {
        assert(squared_distance(foci[i].point, p) < squared_distance(foci[j].point, p));
        assert(squared_distance(foci[j].point, p) <= squared_distance(foci[i].point, p));
    }
}

/// The focus that passes the test of [`is_nearest`] is the one that
/// [`nearest_index`] names.
pub proof fn nearest_index_is(foci: Seq<Focus>, p: Point, i: int)
    requires
        is_nearest(foci, p, i),
    ensures
        nearest_index(foci, p) == i,
{
    nearest_is_unique(foci, p, i, nearest_index(foci, p));
}

/// Of two foci at the same distance from `p`, the one added later is never
/// chosen.
pub proof fn tie_goes_to_first(foci: Seq<Focus>, p: Point, i: int, j: int)
    requires
        0 <= i < j < foci.len(),
        squared_distance(foci[i].point, p) == squared_distance(foci[j].point, p),
    ensures
        !is_nearest(foci, p, j),
        nearest_index(foci, p) != j,
{
    assert(!is_nearest(foci, p, j)) by {
        if is_nearest(foci, p, j) {
            assert(squared_distance(foci[j].point, p) < squared_distance(foci[i].point, p));
        }
    }
    if nearest_index(foci, p) == j {
        nearest_exists(foci, p);
    }
}

/// A collection that is not empty has a nearest focus.
pub proof fn nearest_exists(foci: Seq<Focus>, p: Point)
    requires
        foci.len() > 0,
    ensures
        is_nearest(foci, p, nearest_index(foci, p)),
    decreases foci.len(),
{
    if foci.len() == 1 {
        assert(is_nearest(foci, p, 0));
    } else {
        let front = foci.drop_last();
        nearest_exists(front, p);
        let best = nearest_index(front, p);
        let last = foci.len() - 1;
        assert forall|j: int| 0 <= j < last implies foci[j] == front[j] by {}
        if squared_distance(foci[last].point, p) < squared_distance(foci[best].point, p) {
            assert forall|j: int| 0 <= j < foci.len() implies squared_distance(
                foci[last].point,
                p,
            ) <= squared_distance(#[trigger] foci[j].point, p) by {
                if j < last {
                    assert(squared_distance(front[best].point, p) <= squared_distance(
                        front[j].point,
                        p,
                    ));
                }
            }
            assert forall|j: int| 0 <= j < last implies squared_distance(foci[last].point, p)
                < squared_distance(#[trigger] foci[j].point, p) by {
                assert(squared_distance(front[best].point, p) <= squared_distance(
                    front[j].point,
                    p,
                ));
            }
            assert(is_nearest(foci, p, last));
        } else {
            assert forall|j: int| 0 <= j < foci.len() implies squared_distance(
                foci[best].point,
                p,
            ) <= squared_distance(#[trigger] foci[j].point, p) by {
                if j < last {
                    assert(squared_distance(front[best].point, p) <= squared_distance(
                        front[j].point,
                        p,
                    ));
                }
            }
            assert forall|j: int| 0 <= j < best implies squared_distance(foci[best].point, p)
                < squared_distance(#[trigger] foci[j].point, p) by {
                assert(squared_distance(front[best].point, p) < squared_distance(
                    front[j].point,
                    p,
                ));
            }
            assert(is_nearest(foci, p, best));
        }
    }
}

} // verus!
