use vstd::prelude::*;

verus! {

/// Why a flat buffer could not become a field of a given shape.
#[derive(Debug, Clone, Copy, PartialEq, Eq, Structural)]
pub enum GridError {
    /// The buffer holds `actual` samples where the shape asks for `expected`.
    SizeMismatch { expected: usize, actual: usize },
}

/// A field of samples over `[0,1]x[0,1]`, sampled at `width * height` points
/// and stored row-major: sample `(i, j)` sits at `i + j * width`. Point `i`
/// stands at `x = i / (width - 1)`, so both edges of the domain are sampled.
pub struct RectGrid<T> {
    array: Vec<T>,
    width: usize,
    height: usize,
}

/// Position of sample `(i, j)` in a row-major buffer of rows of `width`.
pub open spec fn cell_index(width: int, i: int, j: int) -> int {
    i + j * width
}

/// Row-major cells of `rows - 1` full rows and `i` cells more stay below
/// `rows * width`.
pub(crate) proof fn lemma_cell_in_bounds(width: int, height: int, i: int, j: int)
    requires
        0 <= i < width,
        0 <= j < height,
    ensures
        0 <= cell_index(width, i, j) < width * height,
        cell_index(width, i, j) < height * width,
{
    assert(j * width + width <= height * width) by (nonlinear_arith)
        requires
            j < height,
            0 <= j,
            0 < width,
    ;
    assert(0 <= j * width) by (nonlinear_arith)
        requires
            0 <= j,
            0 < width,
    ;
    assert(height * width == width * height) by (nonlinear_arith);
}

/// Distinct sample positions never share a cell.
pub(crate) proof fn lemma_cell_index_injective(width: int, i1: int, j1: int, i2: int, j2: int)
    requires
        0 <= i1 < width,
        0 <= i2 < width,
        0 <= j1,
        0 <= j2,
        cell_index(width, i1, j1) == cell_index(width, i2, j2),
    ensures
        i1 == i2,
        j1 == j2,
{
    if j1 < j2 {
        assert(j1 * width + width <= j2 * width) by (nonlinear_arith)
            requires
                j1 < j2,
                0 < width,
        ;
    } else if j2 < j1 {
        assert(j2 * width + width <= j1 * width) by (nonlinear_arith)
            requires
                j2 < j1,
                0 < width,
        ;
    }
}

impl<T> RectGrid<T> {
    /// Number of samples along `x`.
    pub closed spec fn spec_width(&self) -> nat {
        self.width as nat
    }

    /// Number of samples along `y`.
    pub closed spec fn spec_height(&self) -> nat {
        self.height as nat
    }

    /// The samples, row-major.
    pub closed spec fn cells(&self) -> Seq<T> {
        self.array@
    }

    /// The buffer holds exactly one sample per grid point.
    pub closed spec fn wf(&self) -> bool {
        self.array.len() == self.width * self.height
    }

    /// Sample `(i, j)` of the model.
    pub open spec fn at(&self, i: int, j: int) -> T {
        self.cells()[cell_index(self.spec_width() as int, i, j)]
    }

    /// A well-formed field holds `width * height` samples.
    pub proof fn lemma_array_len(&self)
        requires
            self.wf(),
        ensures
            self.cells().len() == self.spec_width() * self.spec_height(),
    {
    }

    /// Builds a field of the given shape from row-major samples.
    pub fn from_cells(width: usize, height: usize, cells: Vec<T>) -> (r: Result<Self, GridError>)
        ensures
            match r {
                Ok(g) => {
                    &&& cells.len() == width * height
                    &&& g.wf()
                    &&& g.spec_width() == width
                    &&& g.spec_height() == height
                    &&& g.cells() == cells@
                },
                Err(e) => {
                    &&& cells.len() != width * height
                    &&& e == (GridError::SizeMismatch {
                        expected: if width * height <= usize::MAX {
                            (width * height) as usize
                        } else {
                            usize::MAX
                        },
                        actual: cells.len(),
                    })
                },
            },
    {
        let expected: usize = match width.checked_mul(height) {
            Some(n) => n,
            None => usize::MAX,
        };
        if width.checked_mul(height).is_some() && cells.len() == expected {
            Ok(RectGrid { array: cells, width, height })
        } else {
            Err(GridError::SizeMismatch { expected, actual: cells.len() })
        }
    }

    /// Number of samples along `x`.
    pub fn width(&self) -> (r: usize)
        ensures
            r == self.spec_width(),
    {
        self.width
    }

    /// Number of samples along `y`.
    pub fn height(&self) -> (r: usize)
        ensures
            r == self.spec_height(),
    {
        self.height
    }

    /// The samples, row-major; always `width * height` of them.
    pub fn getarray(&self) -> (r: &Vec<T>)
        requires
            self.wf(),
        ensures
            r@ == self.cells(),
            r@.len() == self.spec_width() * self.spec_height(),
    {
        &self.array
    }

    /// Sample `(i, j)`, borrowed.
    pub fn get_ref(&self, i: usize, j: usize) -> (r: &T)
        requires
            self.wf(),
            i < self.spec_width(),
            j < self.spec_height(),
        ensures
            *r == self.at(i as int, j as int),
    {
        proof {
            lemma_cell_in_bounds(self.width as int, self.height as int, i as int, j as int);
        }
        &self.array[i + j * self.width]
    }

    /// Replaces sample `(i, j)` with `v`; kept to the library, since a field
    /// is otherwise replaced whole.
    pub(crate) fn setelement(&mut self, i: usize, j: usize, v: T)
        requires
            old(self).wf(),
            i < old(self).spec_width(),
            j < old(self).spec_height(),
        ensures
            final(self).wf(),
            final(self).spec_width() == old(self).spec_width(),
            final(self).spec_height() == old(self).spec_height(),
            final(self).cells() == old(self).cells().update(
                cell_index(old(self).spec_width() as int, i as int, j as int),
                v,
            ),
    {
        proof {
            lemma_cell_in_bounds(self.width as int, self.height as int, i as int, j as int);
        }
        let k = i + j * self.width;
        self.array.set(k, v);
    }

    /// Gives up the field's samples, row-major.
    pub fn into_cells(self) -> (r: Vec<T>)
        requires
            self.wf(),
        ensures
            r@ == self.cells(),
            r@.len() == self.spec_width() * self.spec_height(),
    {
        self.array
    }

    /// A field of the same shape holding `newdata`; fails with
    /// `SizeMismatch` unless `newdata` has one sample per grid point.
    pub fn newbytemplate(&self, newdata: Vec<T>) -> (r: Result<Self, GridError>)
        requires
            self.wf(),
        ensures
            match r {
                Ok(g) => {
                    &&& newdata.len() == self.cells().len()
                    &&& g.wf()
                    &&& g.spec_width() == self.spec_width()
                    &&& g.spec_height() == self.spec_height()
                    &&& g.cells() == newdata@
                },
                Err(e) => {
                    &&& newdata.len() != self.cells().len()
                    &&& e == (GridError::SizeMismatch {
                        expected: self.cells().len() as usize,
                        actual: newdata.len(),
                    })
                },
            },
    {
        Self::from_cells(self.width, self.height, newdata)
    }
}

impl<T: Copy> RectGrid<T> {
    /// A field of the given shape with every sample equal to `fill`.
    pub fn new(width: usize, height: usize, fill: T) -> (r: Self)
        requires
            width * height <= usize::MAX,
        ensures
            r.wf(),
            r.spec_width() == width,
            r.spec_height() == height,
            forall|k: int| 0 <= k < r.cells().len() ==> r.cells()[k] == fill,
    {
        let n: usize = width * height;
        let mut array: Vec<T> = Vec::new();
        let mut k: usize = 0;
        while k < n
            invariant
                k <= n,
                array.len() == k,
                forall|m: int| 0 <= m < k ==> array@[m] == fill,
            decreases n - k,
        {
            array.push(fill);
            k = k + 1;
        }
        RectGrid { array, width, height }
    }

    /// The field as RGBA bytes, four per sample in row-major order: the
    /// colour that `color` gives the sample, then an opaque alpha of 255.
    pub fn outasheatmap<F: Fn(T) -> (u8, u8, u8)>(&self, color: F) -> (r: Vec<u8>)
        requires
            self.wf(),
            4 * self.cells().len() <= usize::MAX,
            forall|v: T| color.requires((v,)),
        ensures
            r@.len() == 4 * self.cells().len(),
            forall|k: int|
                0 <= k < self.cells().len() ==> #[trigger] r@[4 * k + 3] == 255u8 && color.ensures(
                    (self.cells()[k],),
                    (r@[4 * k], r@[4 * k + 1], r@[4 * k + 2]),
                ),
    {
        let n = self.array.len();
        let mut result: Vec<u8> = Vec::new();
        let mut k: usize = 0;
        while k < n
            invariant
                k <= n,
                n == self.cells().len(),
                4 * n <= usize::MAX,
                result@.len() == 4 * k,
                forall|v: T| color.requires((v,)),
                forall|m: int|
                    0 <= m < k ==> #[trigger] result@[4 * m + 3] == 255u8 && color.ensures(
                        (self.cells()[m],),
                        (result@[4 * m], result@[4 * m + 1], result@[4 * m + 2]),
                    ),
            decreases n - k,
        {
            let (red, green, blue) = color(self.array[k]);
            result.push(red);
            result.push(green);
            result.push(blue);
            result.push(255u8);
            k = k + 1;
        }
        result
    }

    /// Sample `(i, j)`.
    pub fn get(&self, i: usize, j: usize) -> (r: T)
        requires
            self.wf(),
            i < self.spec_width(),
            j < self.spec_height(),
        ensures
            r == self.at(i as int, j as int),
    {
        proof {
            lemma_cell_in_bounds(self.width as int, self.height as int, i as int, j as int);
        }
        self.array[i + j * self.width]
    }

}

/// The row-major samples `f(i, j)` of a `width` by `height` field.
fn tabulate<T, F: Fn(usize, usize) -> T>(width: usize, height: usize, f: &F) -> (r: Vec<T>)
    requires
        width * height <= usize::MAX,
        forall|i: usize, j: usize| i < width && j < height ==> f.requires((i, j)),
    ensures
        r.len() == width * height,
        forall|a: usize, b: usize|
            a < width && b < height ==> f.ensures((a, b), r@[cell_index(width as int, a as int, b as int)]),
{
    let mut array: Vec<T> = Vec::new();
    let mut j: usize = 0;
    while j < height
        invariant
            j <= height,
            width * height <= usize::MAX,
            array.len() == j * width,
            forall|i: usize, j: usize| i < width && j < height ==> f.requires((i, j)),
            forall|a: usize, b: usize|
                a < width && b < j ==> f.ensures((a, b), array@[cell_index(width as int, a as int, b as int)]),
        decreases height - j,
    {
        proof {
            assert(j * width + width <= height * width) by (nonlinear_arith)
                requires
                    j < height,
            ;
        }
        let mut i: usize = 0;
        while i < width
            invariant
                i <= width,
                j < height,
                j * width + width <= width * height,
                width * height <= usize::MAX,
                array.len() == j * width + i,
                forall|i: usize, j: usize| i < width && j < height ==> f.requires((i, j)),
                forall|a: usize, b: usize|
                    a < width && b < j ==> f.ensures((a, b), array@[cell_index(width as int, a as int, b as int)]),
                forall|a: usize|
                    a < i ==> f.ensures((a, j), array@[cell_index(width as int, a as int, j as int)]),
            decreases width - i,
        {
            proof {
                assert forall|a: usize, b: usize| a < width && b < j implies cell_index(
                    width as int,
                    a as int,
                    b as int,
                ) < j * width by {
                    lemma_cell_in_bounds(width as int, j as int, a as int, b as int);
                }
            }
            let v = f(i, j);
            array.push(v);
            i = i + 1;
        }
        proof {
            assert((j + 1) * width == j * width + width) by (nonlinear_arith);
            assert forall|a: usize, b: usize| a < width && b < j + 1 implies f.ensures(
                (a, b),
                array@[cell_index(width as int, a as int, b as int)],
            ) by {
                if b == j {
                    assert(f.ensures((a, j), array@[cell_index(width as int, a as int, j as int)]));
                }
            }
        }
        j = j + 1;
    }
    proof {
        assert(height * width == width * height) by (nonlinear_arith);
    }
    array
}

impl<T> RectGrid<T> {
    /// Replaces every sample `(i, j)` with `f(i, j)`; the shape stays.
    pub fn setbyfunc<F: Fn(usize, usize) -> T>(&mut self, f: F)
        requires
            old(self).wf(),
            forall|i: usize, j: usize|
                i < old(self).spec_width() && j < old(self).spec_height() ==> f.requires((i, j)),
        ensures
            final(self).wf(),
            final(self).spec_width() == old(self).spec_width(),
            final(self).spec_height() == old(self).spec_height(),
            forall|i: usize, j: usize|
                i < final(self).spec_width() && j < final(self).spec_height() ==> f.ensures(
                    (i, j),
                    final(self).at(i as int, j as int),
                ),
    {
        self.array = tabulate(self.width, self.height, &f);
    }

    /// A field of the given shape whose sample `(i, j)` is `f(i, j)`.
    pub fn newbyfunc<F: Fn(usize, usize) -> T>(width: usize, height: usize, f: F) -> (r: Self)
        requires
            width * height <= usize::MAX,
            forall|i: usize, j: usize| i < width && j < height ==> f.requires((i, j)),
        ensures
            r.wf(),
            r.spec_width() == width,
            r.spec_height() == height,
            forall|i: usize, j: usize|
                i < width && j < height ==> f.ensures((i, j), r.at(i as int, j as int)),
    {
        RectGrid { array: tabulate(width, height, &f), width, height }
    }
}

} // verus!
