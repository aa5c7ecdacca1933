//! The grid store: a dense, fixed-size 2-D buffer of tile values.
//!
//! A grid is addressed by `(x, y)` cell coordinates. The one coordinate
//! convention, applied uniformly to construction, `get`, `set` and the debug
//! dump, is row-major: the cell `(x, y)` lives at linear offset
//! `y * width + x`. Out-of-bounds access fails with `IndexOutOfBounds`
//! rather than wrapping, clamping or corrupting the buffer.

use vstd::prelude::*;

verus! {

/// Why a grid access failed.
#[derive(Debug, Copy, Clone, PartialEq, Eq, Structural)]
pub enum GridError {
    /// The coordinate lies outside the grid's declared dimensions.
    IndexOutOfBounds,
}

/// A dense 2-D buffer of cell values, addressed by coordinate.
#[derive(Debug, Clone)]
pub struct Grid<T> {
    width: usize,
    height: usize,
    cells: Vec<T>,
}

impl<T> Grid<T> {
    /// The declared width, as a spec value.
    pub closed spec fn spec_width(&self) -> int {
        self.width as int
    }

    /// The declared height, as a spec value.
    pub closed spec fn spec_height(&self) -> int {
        self.height as int
    }

    /// The cell values in row-major order, as a spec value.
    pub closed spec fn spec_cells(&self) -> Seq<T> {
        self.cells@
    }

    /// The structural invariant: the buffer holds exactly `width * height`
    /// cells.
    pub open spec fn wf(&self) -> bool {
        self.spec_cells().len() == self.spec_width() * self.spec_height()
    }

    /// Whether `(x, y)` lies inside the declared dimensions.
    pub open spec fn in_bounds(&self, x: int, y: int) -> bool {
        0 <= x < self.spec_width() && 0 <= y < self.spec_height()
    }

    /// The linear offset of `(x, y)`: the row-major convention.
    pub open spec fn spec_idx(&self, x: int, y: int) -> int {
        y * self.spec_width() + x
    }

    /// The value stored at `(x, y)`.
    pub open spec fn spec_cell(&self, x: int, y: int) -> T {
        self.spec_cells()[self.spec_idx(x, y)]
    }

    /// The declared width.
    pub fn width(&self) -> (r: usize)
        ensures
            r == self.spec_width(),
    {
        self.width
    }

    /// The declared height.
    pub fn height(&self) -> (r: usize)
        ensures
            r == self.spec_height(),
    {
        self.height
    }
}

/// The linear offset `y * width + x` lies inside a `width * height` buffer
/// whenever `(x, y)` is in bounds.
pub proof fn lemma_idx_in_range(width: int, height: int, x: int, y: int)
    by (nonlinear_arith)
    requires
        0 <= x < width,
        0 <= y < height,
    ensures
        0 <= y * width + x < width * height,
{
}

impl<T: Copy> Grid<T> {
    /// A grid of the given dimensions with every cell set to `fill`.
    pub fn new(width: usize, height: usize, fill: T) -> (g: Grid<T>)
        requires
            width * height <= usize::MAX,
        ensures
            g.wf(),
            g.spec_width() == width,
            g.spec_height() == height,
            g.spec_cells() == Seq::new((width * height) as nat, |i: int| fill),
    {
        let total: usize = width * height;
        let mut cells: Vec<T> = Vec::new();
        let mut i: usize = 0;
        while i < total
            invariant
                i <= total,
                cells@.len() == i,
                forall|j: int| 0 <= j < i ==> cells@[j] == fill,
            decreases total - i,
        {
            cells.push(fill);
            i += 1;
        }
        proof {
            assert(cells@ =~= Seq::new((width * height) as nat, |i: int| fill));
        }
        Grid { width, height, cells }
    }

    /// Read the value at `(x, y)`, or fail with `IndexOutOfBounds` when the
    /// coordinate lies outside the grid.
    pub fn get(&self, x: usize, y: usize) -> (r: Result<T, GridError>)
        requires
            self.wf(),
        ensures
            self.in_bounds(x as int, y as int) ==> r == Ok::<T, GridError>(
                self.spec_cell(x as int, y as int),
            ),
            !self.in_bounds(x as int, y as int) ==> r == Err::<T, GridError>(
                GridError::IndexOutOfBounds,
            ),
    {
        if x < self.width && y < self.height {
            proof {
                lemma_idx_in_range(self.spec_width(), self.spec_height(), x as int, y as int);
                assert(self.cells.len() == self.cells@.len() && self.cells.len() <= usize::MAX);
            }
            Ok(self.cells[y * self.width + x])
        } else {
            Err(GridError::IndexOutOfBounds)
        }
    }

    /// Overwrite the value at `(x, y)`, or fail with `IndexOutOfBounds` when
    /// the coordinate lies outside the grid; a failed access leaves the grid
    /// untouched.
    pub fn set(&mut self, x: usize, y: usize, value: T) -> (r: Result<(), GridError>)
        requires
            old(self).wf(),
        ensures
            final(self).wf(),
            final(self).spec_width() == old(self).spec_width(),
            final(self).spec_height() == old(self).spec_height(),
            old(self).in_bounds(x as int, y as int) ==> r == Ok::<(), GridError>(())
                && final(self).spec_cells() == old(self).spec_cells().update(
                old(self).spec_idx(x as int, y as int),
                value,
            ),
            !old(self).in_bounds(x as int, y as int) ==> r == Err::<(), GridError>(
                GridError::IndexOutOfBounds,
            ) && *final(self) == *old(self),
    {
        if x < self.width && y < self.height {
            proof {
                lemma_idx_in_range(self.spec_width(), self.spec_height(), x as int, y as int);
                assert(self.cells.len() == self.cells@.len() && self.cells.len() <= usize::MAX);
            }
            self.cells.set(y * self.width + x, value);
            Ok(())
        } else {
            Err(GridError::IndexOutOfBounds)
        }
    }
}

/// The value at the row-major offset of `(x, y)`: a named form that
/// quantified contracts can hang on.
pub open spec fn gen_at<T>(cells: Seq<T>, width: int, x: int, y: int) -> T {
    cells[y * width + x]
}

impl<T> Grid<T> {
    /// A grid whose every cell holds the generator's output for its own
    /// coordinate.
    pub fn from_fn<F: Fn(usize, usize) -> T>(width: usize, height: usize, f: F) -> (g: Grid<T>)
        requires
            width * height <= usize::MAX,
            forall|x: usize, y: usize| x < width && y < height ==> call_requires(f, (x, y)),
        ensures
            g.wf(),
            g.spec_width() == width,
            g.spec_height() == height,
            forall|x: int, y: int|
                0 <= x < width && 0 <= y < height ==> call_ensures(
                    f,
                    (x as usize, y as usize),
                    #[trigger] g.spec_cell(x, y),
                ),
    {
        let mut cells: Vec<T> = Vec::new();
        let mut y: usize = 0;
        while y < height
            invariant
                y <= height,
                width * height <= usize::MAX,
                cells@.len() == y * width,
                forall|x2: usize, y2: usize|
                    x2 < width && y2 < height ==> call_requires(f, (x2, y2)),
                forall|x2: int, y2: int|
                    0 <= x2 < width && 0 <= y2 < y ==> call_ensures(
                        f,
                        (x2 as usize, y2 as usize),
                        #[trigger] gen_at(cells@, width as int, x2, y2),
                    ),
            decreases height - y,
        {
            proof {
                lemma_row_fits(width as int, height as int, y as int);
            }
            let mut x: usize = 0;
            while x < width
                invariant
                    x <= width,
                    y < height,
                    width * height <= usize::MAX,
                    cells@.len() == y * width + x,
                    forall|x2: usize, y2: usize|
                        x2 < width && y2 < height ==> call_requires(f, (x2, y2)),
                    forall|x2: int, y2: int|
                        0 <= x2 < width && 0 <= y2 < y ==> call_ensures(
                            f,
                            (x2 as usize, y2 as usize),
                            #[trigger] gen_at(cells@, width as int, x2, y2),
                        ),
                    forall|x2: int|
                        0 <= x2 < x ==> call_ensures(
                            f,
                            (x2 as usize, y),
                            #[trigger] gen_at(cells@, width as int, x2, y as int),
                        ),
                decreases width - x,
            {
                let value = f(x, y);
                let ghost prev = cells@;
                cells.push(value);
                proof {
                    assert((width as int) * (y as int) == (y as int) * (width as int))
                        by (nonlinear_arith);
                    assert forall|x2: int, y2: int| 0 <= x2 < width && 0 <= y2 < y implies #[trigger] gen_at(
                        cells@,
                        width as int,
                        x2,
                        y2,
                    ) == gen_at(prev, width as int, x2, y2) by {
                        lemma_idx_in_range(width as int, y as int, x2, y2);
                    }
                    assert forall|x2: int| 0 <= x2 < x implies #[trigger] gen_at(
                        cells@,
                        width as int,
                        x2,
                        y as int,
                    ) == gen_at(prev, width as int, x2, y as int) by {}
                    assert(gen_at(cells@, width as int, x as int, y as int) == value);
                }
                x += 1;
            }
            y += 1;
            proof {
                assert((y as int) * width == (y - 1) * width + width) by (nonlinear_arith);
                assert forall|x2: int, y2: int| 0 <= x2 < width && 0 <= y2 < y implies call_ensures(
                    f,
                    (x2 as usize, y2 as usize),
                    #[trigger] gen_at(cells@, width as int, x2, y2),
                ) by {}
            }
        }
        proof {
            assert((height as int) * (width as int) == (width as int) * (height as int))
                by (nonlinear_arith);
        }
        let g = Grid { width, height, cells };
        proof {
            assert forall|x: int, y: int| 0 <= x < width && 0 <= y < height implies call_ensures(
                f,
                (x as usize, y as usize),
                #[trigger] g.spec_cell(x, y),
            ) by {
                assert(g.spec_cell(x, y) == gen_at(g.spec_cells(), width as int, x, y));
            }
        }
        g
    }
}

/// A full row of cells still fits the buffer bound when the row index is in
/// range.
proof fn lemma_row_fits(width: int, height: int, y: int)
    by (nonlinear_arith)
    requires
        0 <= y < height,
        0 <= width,
        width * height <= usize::MAX,
    ensures
        y * width + width <= usize::MAX,
{
}

/// One row of the textual dump: the display character of each cell of row
/// `y`, left to right.
pub open spec fn spec_dump_row(cells: Seq<usize>, width: int, y: int, chars: Seq<char>) -> Seq<
    char,
> {
    Seq::new(width as nat, |x: int| chars[cells[y * width + x] as int])
}

/// The textual dump from row `y` down: rows separated by a newline, with no
/// trailing newline after the last row.
pub open spec fn spec_dump_from(
    cells: Seq<usize>,
    width: int,
    height: int,
    y: int,
    chars: Seq<char>,
) -> Seq<char>
    decreases height - y,
{
    if y < height {
        spec_dump_row(cells, width, y, chars) + (if y + 1 < height {
            seq!['\n']
        } else {
            Seq::empty()
        }) + spec_dump_from(cells, width, height, y + 1, chars)
    } else {
        Seq::empty()
    }
}

/// The whole textual dump, top row first.
pub open spec fn spec_dump(cells: Seq<usize>, width: int, height: int, chars: Seq<char>) -> Seq<
    char,
> {
    spec_dump_from(cells, width, height, 0, chars)
}

impl Grid<usize> {
    /// A row-by-row textual rendering of the grid, for diagnostics: each
    /// cell value indexes `chars` for its display character, and rows are
    /// separated by newlines.
    pub fn debug_dump(&self, chars: &Vec<char>) -> (r: Vec<char>)
        requires
            self.wf(),
            forall|i: int|
                0 <= i < self.spec_cells().len() ==> (self.spec_cells()[i] as int) < chars@.len(),
        ensures
            r@ == spec_dump(self.spec_cells(), self.spec_width(), self.spec_height(), chars@),
    {
        let ghost cseq = self.spec_cells();
        let ghost w = self.spec_width();
        let ghost h = self.spec_height();
        let mut out: Vec<char> = Vec::new();
        proof {
            assert(out@ + spec_dump_from(cseq, w, h, 0, chars@) =~= spec_dump_from(
                cseq,
                w,
                h,
                0,
                chars@,
            ));
        }
        let mut y: usize = 0;
        while y < self.height
            invariant
                y <= self.spec_height(),
                cseq == self.spec_cells(),
                w == self.spec_width(),
                h == self.spec_height(),
                self.wf(),
                forall|i: int| 0 <= i < cseq.len() ==> (cseq[i] as int) < chars@.len(),
                out@ + spec_dump_from(cseq, w, h, y as int, chars@) == spec_dump_from(
                    cseq,
                    w,
                    h,
                    0,
                    chars@,
                ),
            decreases self.spec_height() - y,
        {
            let ghost out0 = out@;
            let mut x: usize = 0;
            while x < self.width
                invariant
                    x <= self.spec_width(),
                    y < self.spec_height(),
                    cseq == self.spec_cells(),
                    w == self.spec_width(),
                    h == self.spec_height(),
                    self.wf(),
                    forall|i: int| 0 <= i < cseq.len() ==> (cseq[i] as int) < chars@.len(),
                    out@ == out0 + spec_dump_row(cseq, w, y as int, chars@).subrange(0, x as int),
                decreases self.spec_width() - x,
            {
                proof {
                    lemma_idx_in_range(w, h, x as int, y as int);
                    assert(self.cells.len() == self.cells@.len() && self.cells.len()
                        <= usize::MAX);
                }
                let cell = self.cells[y * self.width + x];
                let c = chars[cell];
                out.push(c);
                x += 1;
                proof {
                    assert(out@ =~= out0 + spec_dump_row(cseq, w, y as int, chars@).subrange(
                        0,
                        x as int,
                    ));
                }
            }
            proof {
                assert(spec_dump_row(cseq, w, y as int, chars@).subrange(0, w) =~= spec_dump_row(
                    cseq,
                    w,
                    y as int,
                    chars@,
                ));
            }
            if y + 1 < self.height {
                out.push('\n');
                proof {
                    assert(out@ =~= out0 + (spec_dump_row(cseq, w, y as int, chars@)
                        + seq!['\n']));
                }
            }
            y += 1;
            proof {
                assert(out@ + spec_dump_from(cseq, w, h, y as int, chars@) =~= spec_dump_from(
                    cseq,
                    w,
                    h,
                    0,
                    chars@,
                ));
            }
        }
        proof {
            assert(out@ =~= spec_dump(cseq, w, h, chars@));
        }
        out
    }
}

/// Writing a cell and reading it back yields the written value, and leaves
/// every other cell as it was: `pre` and `post` are any two grids related as
/// `set`'s contract relates the grid before and after a successful write.
pub proof fn lemma_set_then_get<T>(pre: Grid<T>, post: Grid<T>, x: int, y: int, value: T)
    requires
        pre.wf(),
        pre.in_bounds(x, y),
        post.spec_width() == pre.spec_width(),
        post.spec_height() == pre.spec_height(),
        post.spec_cells() == pre.spec_cells().update(pre.spec_idx(x, y), value),
    ensures
        post.wf(),
        post.spec_cell(x, y) == value,
        forall|x2: int, y2: int|
            pre.in_bounds(x2, y2) && (x2 != x || y2 != y) ==> post.spec_cell(x2, y2)
                == pre.spec_cell(x2, y2),
{
    lemma_idx_in_range(pre.spec_width(), pre.spec_height(), x, y);
    assert forall|x2: int, y2: int|
        pre.in_bounds(x2, y2) && (x2 != x || y2 != y) implies post.spec_cell(x2, y2)
        == pre.spec_cell(x2, y2) by {
        lemma_idx_in_range(pre.spec_width(), pre.spec_height(), x2, y2);
        assert(pre.spec_idx(x2, y2) != pre.spec_idx(x, y)) by (nonlinear_arith)
            requires
                0 <= x < pre.spec_width(),
                0 <= y < pre.spec_height(),
                0 <= x2 < pre.spec_width(),
                0 <= y2 < pre.spec_height(),
                x2 != x || y2 != y,
                pre.spec_idx(x, y) == y * pre.spec_width() + x,
                pre.spec_idx(x2, y2) == y2 * pre.spec_width() + x2,
        ;
    }
}

} // verus!
