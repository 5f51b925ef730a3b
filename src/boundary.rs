use vstd::prelude::*;
use crate::grid::{RectGrid, cell_index, lemma_cell_index_injective};

verus! {

/// Cell `(i, j)` lies on an edge of a `width` by `height` grid.
pub open spec fn on_boundary(width: int, height: int, i: int, j: int) -> bool {
    i == 0 || j == 0 || i == width - 1 || j == height - 1
}

/// The cell that boundary lane `k` fixes. Lanes run along the top row, the
/// bottom row, the left column, then the right column; a lane at or past
/// `2 * width + 2 * height` fixes none.
pub open spec fn spec_boundary_cell(width: int, height: int, k: int) -> Option<(int, int)> {
    if k < width {
        Some((k, 0))
    } else if k < 2 * width {
        Some((k - width, height - 1))
    } else if k < 2 * width + height {
        Some((0, k - 2 * width))
    } else if k < 2 * width + 2 * height {
        Some((width - 1, k - 2 * width - height))
    } else {
        None
    }
}

/// The cell whose value edge cell `(i, j)` takes so that no heat crosses the
/// edge: one step inward along each axis on which the cell is at an edge.
/// A corner so takes its diagonal neighbour, and every source is an
/// interior cell, which the boundary kernel never writes.
pub open spec fn spec_mirror_source(width: int, height: int, i: int, j: int) -> (int, int) {
    (
        if i == 0 {
            1
        } else if i == width - 1 {
            width - 2
        } else {
            i
        },
        if j == 0 {
            1
        } else if j == height - 1 {
            height - 2
        } else {
            j
        },
    )
}

/// Lanes below `k` have fixed cell `(i, j)`.
pub open spec fn covered(width: int, height: int, k: int, i: int, j: int) -> bool {
    ||| (j == 0 && i < k)
    ||| (j == height - 1 && i + width < k)
    ||| (i == 0 && j + 2 * width < k)
    ||| (i == width - 1 && j + 2 * width + height < k)
}

/// `after` is `before` with its edges fixed: each edge cell holds the value
/// that its mirror source held, each interior cell keeps its value.
pub open spec fn boundary_fixed<T>(before: RectGrid<T>, after: RectGrid<T>) -> bool {
    &&& after.wf()
    &&& after.spec_width() == before.spec_width()
    &&& after.spec_height() == before.spec_height()
    &&& forall|i: int, j: int|
        0 <= i < before.spec_width() && 0 <= j < before.spec_height() ==> #[trigger] after.at(i, j)
            == if on_boundary(before.spec_width() as int, before.spec_height() as int, i, j) {
            let (si, sj) = spec_mirror_source(
                before.spec_width() as int,
                before.spec_height() as int,
                i,
                j,
            );
            before.at(si, sj)
        } else {
            before.at(i, j)
        }
}

/// The cell that boundary lane `k` fixes, as the boundary kernel maps its
/// lanes.
pub fn boundary_cell(width: usize, height: usize, k: usize) -> (r: Option<(usize, usize)>)
    requires
        1 <= width,
        1 <= height,
        2 * width + 2 * height <= usize::MAX,
    ensures
        match spec_boundary_cell(width as int, height as int, k as int) {
            Some((i, j)) => r == Some((i as usize, j as usize)),
            None => r is None,
        },
{
    if k < width {
        Some((k, 0))
    } else if k < 2 * width {
        Some((k - width, height - 1))
    } else if k < 2 * width + height {
        Some((0, k - 2 * width))
    } else if k < 2 * width + 2 * height {
        Some((width - 1, k - 2 * width - height))
    } else {
        None
    }
}

/// Every lane below `2 * width + 2 * height` fixes an edge cell, and the
/// cell it copies from is an interior cell: one dispatch of the boundary
/// kernel never reads a cell that it writes.
pub proof fn lemma_boundary_lanes_read_interior(width: int, height: int, k: int)
    requires
        3 <= width,
        3 <= height,
        0 <= k < 2 * width + 2 * height,
    ensures
        spec_boundary_cell(width, height, k) matches Some((i, j)) && 0 <= i < width && 0 <= j
            < height && on_boundary(width, height, i, j) && ({
            let (si, sj) = spec_mirror_source(width, height, i, j);
            0 < si < width - 1 && 0 < sj < height - 1
        }),
{
}

/// The cell whose value edge cell `(i, j)` takes.
pub fn mirror_source(width: usize, height: usize, i: usize, j: usize) -> (r: (usize, usize))
    requires
        3 <= width,
        3 <= height,
        i < width,
        j < height,
    ensures
        r == ({
            let (si, sj) = spec_mirror_source(width as int, height as int, i as int, j as int);
            (si as usize, sj as usize)
        }),
        0 < r.0 < width - 1,
        0 < r.1 < height - 1,
{
    let si = if i == 0 {
        1
    } else if i == width - 1 {
        width - 2
    } else {
        i
    };
    let sj = if j == 0 {
        1
    } else if j == height - 1 {
        height - 2
    } else {
        j
    };
    (si, sj)
}

/// Sets every edge cell of `field` to the value of its mirror source, lane
/// by lane as the boundary kernel does, so that no heat crosses the edge.
/// Interior cells keep their values.
pub fn fix_boundary<T: Copy>(field: &mut RectGrid<T>)
    requires
        old(field).wf(),
        3 <= old(field).spec_width(),
        3 <= old(field).spec_height(),
        2 * old(field).spec_width() + 2 * old(field).spec_height() <= usize::MAX,
    ensures
        boundary_fixed(*old(field), *final(field)),
{
    let ghost before = *field;
    let width = field.width();
    let height = field.height();
    let lanes = 2 * width + 2 * height;
    let mut k: usize = 0;
    while k < lanes
        invariant
            k <= lanes,
            lanes == 2 * width + 2 * height,
            3 <= width,
            3 <= height,
            field.wf(),
            field.spec_width() == width,
            field.spec_height() == height,
            before.wf(),
            before.spec_width() == width,
            before.spec_height() == height,
            forall|i: int, j: int|
                0 <= i < width && 0 <= j < height ==> #[trigger] field.at(i, j) == if covered(
                    width as int,
                    height as int,
                    k as int,
                    i,
                    j,
                ) {
                    let (si, sj) = spec_mirror_source(width as int, height as int, i, j);
                    before.at(si, sj)
                } else {
                    before.at(i, j)
                },
        decreases lanes - k,
    {
        proof {
            lemma_boundary_lanes_read_interior(width as int, height as int, k as int);
        }
        if let Some((i, j)) = boundary_cell(width, height, k) {
            let (si, sj) = mirror_source(width, height, i, j);
            let v = field.get(si, sj);
            assert(v == before.at(si as int, sj as int)) by {
                assert(!covered(width as int, height as int, k as int, si as int, sj as int));
            }
            let ghost mid = *field;
            field.setelement(i, j, v);
            proof {
                assert forall|a: int, b: int| 0 <= a < width && 0 <= b < height implies #[trigger] field.at(
                    a,
                    b,
                ) == if covered(width as int, height as int, k + 1, a, b) {
                    let (sa, sb) = spec_mirror_source(width as int, height as int, a, b);
                    before.at(sa, sb)
                } else {
                    before.at(a, b)
                } by {
                    crate::grid::lemma_cell_in_bounds(width as int, height as int, a, b);
                    crate::grid::lemma_cell_in_bounds(width as int, height as int, i as int, j as int);
                    mid.lemma_array_len();
                    field.lemma_array_len();
                    if a == i && b == j {
                    } else {
                        if cell_index(width as int, a, b) == cell_index(width as int, i as int, j as int) {
                            lemma_cell_index_injective(width as int, a, b, i as int, j as int);
                        }
                        assert(field.at(a, b) == mid.at(a, b));
                    }
                }
            }
        }
        k = k + 1;
    }
}

/// A field whose samples all hold one value keeps every sample through the
/// boundary fix: mirrored edges of a uniform field change nothing.
pub proof fn lemma_fix_boundary_keeps_uniform<T>(before: RectGrid<T>, after: RectGrid<T>, v: T)
    requires
        before.wf(),
        3 <= before.spec_width(),
        3 <= before.spec_height(),
        forall|k: int| 0 <= k < before.cells().len() ==> before.cells()[k] == v,
        boundary_fixed(before, after),
    ensures
        after.cells() == before.cells(),
{
    let w = before.spec_width() as int;
    let h = before.spec_height() as int;
    before.lemma_array_len();
    after.lemma_array_len();
    assert forall|k: int| 0 <= k < after.cells().len() implies after.cells()[k] == before.cells()[k] by {
        let i = k % w;
        let j = k / w;
        assert(cell_index(w, i, j) == k) by (nonlinear_arith)
            requires
                i == k % w,
                j == k / w,
                w > 0,
        ;
        assert(0 <= j < h) by (nonlinear_arith)
            requires
                j == k / w,
                0 <= k < w * h,
                w > 0,
        ;
        assert(0 <= i < w) by (nonlinear_arith)
            requires
                i == k % w,
                w > 0,
        ;
        assert(after.at(i, j) == after.cells()[k]);
        let (si, sj) = spec_mirror_source(w, h, i, j);
        crate::grid::lemma_cell_in_bounds(w, h, si, sj);
    }
    assert(after.cells() =~= before.cells());
}

} // verus!
