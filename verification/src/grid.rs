//! A dense rectangular array of fixed shape, stored row by row in one buffer.

use crate::error::FieldError;
use crate::scalar::Numeric;
use vstd::prelude::*;

verus! {

/// The cell `(r, c)` of a grid with `cols` columns lies inside a buffer of
/// `rows * cols` cells.
proof fn lemma_offset_in_range(rows: int, cols: int, r: int, c: int)
    requires
        0 <= r < rows,
        0 <= c < cols,
    ensures
        0 <= r * cols + c < rows * cols,
{
    assert(r * cols + c < rows * cols) by (nonlinear_arith)
        requires
            0 <= r < rows,
            0 <= c < cols,
    ;
    assert(0 <= r * cols) by (nonlinear_arith)
        requires
            0 <= r,
            0 <= cols,
    ;
}

/// Two cells that share a place in the buffer are the same cell.
proof fn lemma_offset_injective(cols: int, r1: int, c1: int, r2: int, c2: int)
    requires
        0 <= c1 < cols,
        0 <= c2 < cols,
        r1 * cols + c1 == r2 * cols + c2,
    ensures
        r1 == r2,
        c1 == c2,
{
    assert(r1 == r2) by (nonlinear_arith)
        requires
            0 <= c1 < cols,
            0 <= c2 < cols,
            r1 * cols + c1 == r2 * cols + c2,
    ;
}

/// A `rows` by `cols` array of `T`.
pub struct Grid<T> {
    rows: usize,
    cols: usize,
    cells: Vec<T>,
}

impl<T> View for Grid<T> {
    type V = Seq<Seq<T>>;

    /// The rows of the grid, top to bottom, each a sequence of its cells from
    /// left to right.
    closed spec fn view(&self) -> Seq<Seq<T>> {
        Seq::new(
            self.rows as nat,
            |r: int| Seq::new(self.cols as nat, |c: int| self.cells@[r * self.cols + c]),
        )
    }
}

impl<T> Grid<T> {
    #[verifier::type_invariant]
    spec fn buffer_matches_shape(self) -> bool {
        self.cells@.len() == self.rows * self.cols
    }

    /// The number of rows.
    pub closed spec fn spec_rows(&self) -> usize {
        self.rows
    }

    /// The number of columns.
    pub closed spec fn spec_cols(&self) -> usize {
        self.cols
    }

    /// Whether `(row, col)` names a cell of the grid.
    pub open spec fn contains(&self, row: int, col: int) -> bool {
        0 <= row < self.rows() && 0 <= col < self.cols()
    }

    /// Whether two grids have the same number of rows and of columns.
    pub open spec fn same_shape<U>(&self, other: &Grid<U>) -> bool {
        self.rows() == other.rows() && self.cols() == other.cols()
    }

    /// The view has one entry per row, and every row one entry per column.
    pub proof fn lemma_view_shape(&self)
        ensures
            self@.len() == self.rows(),
            forall|r: int| 0 <= r < self.rows() ==> (#[trigger] self@[r]).len() == self.cols(),
    {
    }

    /// The number of rows.
    #[verifier::when_used_as_spec(spec_rows)]
    pub fn rows(&self) -> (n: usize)
        ensures
            n == self.rows(),
            n == self@.len(),
    {
        self.rows
    }

    /// The number of columns.
    #[verifier::when_used_as_spec(spec_cols)]
    pub fn cols(&self) -> (n: usize)
        ensures
            n == self.cols(),
            forall|r: int| 0 <= r < self.rows() ==> (#[trigger] self@[r]).len() == n,
    {
        self.cols
    }
}

impl<T: Copy> Grid<T> {
    /// The grid of the given shape whose cells are `cells`, read row by row.
    /// Fails with `ShapeMismatch` exactly if `cells` does not hold
    /// `rows * cols` values.
    pub fn from_vec(rows: usize, cols: usize, cells: Vec<T>) -> (r: Result<Self, FieldError>)
        ensures
            cells@.len() == rows * cols ==> r is Ok,
            cells@.len() != rows * cols ==> r == Err::<Self, FieldError>(FieldError::ShapeMismatch),
            r matches Ok(g) ==> {
                &&& g.rows() == rows
                &&& g.cols() == cols
                &&& forall|i: int, j: int|
                    g.contains(i, j) ==> #[trigger] g@[i][j] == cells@[i * cols + j]
            },
    {
        assert(cells.len() == cells@.len());
        match rows.checked_mul(cols) {
            Some(n) => {
                if n == cells.len() {
                    Ok(Grid { rows, cols, cells })
                } else {
                    Err(FieldError::ShapeMismatch)
                }
            },
            None => Err(FieldError::ShapeMismatch),
        }
    }

    /// The grid without cells: no rows and no columns.
    pub fn empty() -> (g: Self)
        ensures
            g.rows() == 0,
            g.cols() == 0,
    {
        Grid { rows: 0, cols: 0, cells: Vec::new() }
    }

    /// The grid of the given shape with `value` in every cell, or `None` if
    /// the number of cells does not fit in `usize`.
    pub fn filled(rows: usize, cols: usize, value: T) -> (r: Option<Self>)
        ensures
            r is Some <==> rows * cols <= usize::MAX,
            r matches Some(g) ==> {
                &&& g.rows() == rows
                &&& g.cols() == cols
                &&& forall|i: int, j: int| g.contains(i, j) ==> #[trigger] g@[i][j] == value
            },
    {
        match rows.checked_mul(cols) {
            Some(n) => {
                let mut cells: Vec<T> = Vec::new();
                let mut k: usize = 0;
                while k < n
                    invariant
                        k <= n,
                        cells@.len() == k,
                        forall|i: int| 0 <= i < k ==> cells@[i] == value,
                    decreases n - k,
                {
                    cells.push(value);
                    k += 1;
                }
                let g = Grid { rows, cols, cells };
                proof {
                    assert forall|i: int, j: int| g.contains(i, j) implies #[trigger] g@[i][j]
                        == value by {
                        lemma_offset_in_range(rows as int, cols as int, i, j);
                    }
                }
                Some(g)
            },
            None => None,
        }
    }

    /// The grid of the shape of `self` with `value` in every cell.
    pub fn filled_alike(&self, value: T) -> (g: Self)
        ensures
            g.same_shape(self),
            forall|i: int, j: int| g.contains(i, j) ==> #[trigger] g@[i][j] == value,
    {
        proof {
            use_type_invariant(self);
            assert(self.cells.len() == self.rows * self.cols);
        }
        Self::filled(self.rows, self.cols, value).unwrap()
    }

    /// The place of the cell `(row, col)` in the buffer.
    fn offset(&self, row: usize, col: usize) -> (k: usize)
        requires
            self.contains(row as int, col as int),
        ensures
            k == row * self.cols + col,
            k < self.cells@.len(),
            self.cells@[k as int] == self@[row as int][col as int],
    {
        proof {
            use_type_invariant(self);
            assert(self.cells.len() == self.rows * self.cols);
            lemma_offset_in_range(self.rows as int, self.cols as int, row as int, col as int);
            assert(0 <= row * self.cols) by (nonlinear_arith)
                requires
                    0 <= row,
                    0 <= self.cols,
            ;
        }
        row * self.cols + col
    }

    /// The value in the cell `(row, col)`, or `None` if the grid has no such
    /// cell.
    pub fn get(&self, row: usize, col: usize) -> (r: Option<T>)
        ensures
            r == (if self.contains(row as int, col as int) {
                Some(self@[row as int][col as int])
            } else {
                None
            }),
    {
        if row < self.rows && col < self.cols {
            let k: usize = self.offset(row, col);
            Some(self.cells[k])
        } else {
            None
        }
    }

    /// A copy of the buffer.
    fn copy_cells(&self) -> (cells: Vec<T>)
        ensures
            cells@ == self.cells@,
    {
        let n: usize = self.cells.len();
        let mut cells: Vec<T> = Vec::new();
        let mut k: usize = 0;
        while k < n
            invariant
                n == self.cells@.len(),
                k <= n,
                cells@.len() == k,
                forall|i: int| 0 <= i < k ==> cells@[i] == self.cells@[i],
            decreases n - k,
        {
            cells.push(self.cells[k]);
            k += 1;
        }
        assert(cells@ =~= self.cells@);
        cells
    }

    /// The cells of the grid, read row by row.
    pub fn to_vec(&self) -> (cells: Vec<T>)
        ensures
            cells@.len() == self.rows() * self.cols(),
            forall|i: int, j: int|
                self.contains(i, j) ==> #[trigger] self@[i][j] == cells@[i * self.cols() + j],
    {
        proof {
            use_type_invariant(self);
            assert forall|i: int, j: int| self.contains(i, j) implies #[trigger] self@[i][j]
                == self.cells@[i * self.cols() + j] by {
                lemma_offset_in_range(self.rows as int, self.cols as int, i, j);
            }
        }
        self.copy_cells()
    }

    /// Puts `value` into the cell `(row, col)`. Fails with `OutOfBounds`, and
    /// changes nothing, exactly if the grid has no such cell.
    pub fn set(&mut self, row: usize, col: usize, value: T) -> (r: Result<(), FieldError>)
        ensures
            final(self).same_shape(old(self)),
            old(self).contains(row as int, col as int) ==> r is Ok && forall|i: int, j: int|
                old(self).contains(i, j) ==> #[trigger] final(self)@[i][j] == (if i == row && j
                    == col {
                    value
                } else {
                    old(self)@[i][j]
                }),
            !old(self).contains(row as int, col as int) ==> r == Err::<(), FieldError>(
                FieldError::OutOfBounds,
            ) && *final(self) == *old(self),
    {
        proof {
            use_type_invariant(&*self);
        }
        if row < self.rows && col < self.cols {
            let k: usize = self.offset(row, col);
            self.cells[k] = value;
            proof {
                let cols = self.cols as int;
                assert forall|i: int, j: int| old(self).contains(i, j) implies #[trigger] self@[i][j]
                    == (if i == row && j == col {
                    value
                } else {
                    old(self)@[i][j]
                }) by {
                    lemma_offset_in_range(self.rows as int, cols, i, j);
                    if i * cols + j == k {
                        lemma_offset_injective(cols, i, j, row as int, col as int);
                    }
                }
            }
            Ok(())
        } else {
            Err(FieldError::OutOfBounds)
        }
    }
}

impl<T: Copy> Clone for Grid<T> {
    /// A grid of the same shape with the same value in every cell.
    fn clone(&self) -> (g: Self)
        ensures
            g.same_shape(self),
            g@ == self@,
    {
        proof {
            use_type_invariant(self);
        }
        Grid { rows: self.rows, cols: self.cols, cells: self.copy_cells() }
    }
}

impl<T: Numeric> Grid<T> {
    /// Whether a window of the shape of `stencil`, with its first cell at
    /// `(top, left)`, lies inside the grid.
    pub open spec fn window_fits(&self, top: int, left: int, stencil: &Grid<T>) -> bool {
        top + stencil.rows() <= self.rows() && left + stencil.cols() <= self.cols()
    }

    /// Whether the cell `(row, col)` lies in that window.
    pub open spec fn in_window(top: int, left: int, stencil: &Grid<T>, row: int, col: int) -> bool {
        top <= row < top + stencil.rows() && left <= col < left + stencil.cols()
    }

    /// The grid of the same shape in which every cell is the cell of `self`
    /// times `factor`.
    pub fn scaled(&self, factor: T) -> (g: Self)
        ensures
            g.same_shape(self),
            forall|i: int, j: int|
                self.contains(i, j) ==> #[trigger] g@[i][j] == self@[i][j].product(factor),
    {
        proof {
            use_type_invariant(self);
        }
        let n: usize = self.cells.len();
        let mut cells: Vec<T> = Vec::new();
        let mut k: usize = 0;
        while k < n
            invariant
                n == self.cells@.len(),
                k <= n,
                cells@.len() == k,
                forall|i: int| 0 <= i < k ==> cells@[i] == self.cells@[i].product(factor),
            decreases n - k,
        {
            cells.push(self.cells[k].times(factor));
            k += 1;
        }
        let g = Grid { rows: self.rows, cols: self.cols, cells };
        proof {
            assert forall|i: int, j: int| self.contains(i, j) implies #[trigger] g@[i][j]
                == self@[i][j].product(factor) by {
                lemma_offset_in_range(self.rows as int, self.cols as int, i, j);
            }
        }
        g
    }

    /// Adds `stencil`, cell by cell, onto the window of its shape whose first
    /// cell is `(top, left)`. Fails with `OutOfBounds`, and changes nothing,
    /// exactly if that window does not lie inside the grid.
    pub fn add_window(&mut self, top: usize, left: usize, stencil: &Grid<T>) -> (r: Result<
        (),
        FieldError,
    >)
        ensures
            final(self).same_shape(old(self)),
            old(self).window_fits(top as int, left as int, stencil) ==> r is Ok && forall|
                i: int,
                j: int,
            |
                old(self).contains(i, j) ==> #[trigger] final(self)@[i][j] == (if Self::in_window(
                    top as int,
                    left as int,
                    stencil,
                    i,
                    j,
                ) {
                    old(self)@[i][j].sum(stencil@[i - top][j - left])
                } else {
                    old(self)@[i][j]
                }),
            !old(self).window_fits(top as int, left as int, stencil) ==> r == Err::<(), FieldError>(
                FieldError::OutOfBounds,
            ) && *final(self) == *old(self),
    {
        let height: usize = stencil.rows();
        let width: usize = stencil.cols();
        if top > self.rows || height > self.rows - top || left > self.cols || width > self.cols
            - left {
            return Err(FieldError::OutOfBounds);
        }
        let mut a: usize = 0;
        while a < height
            invariant
                height == stencil.rows(),
                width == stencil.cols(),
                old(self).window_fits(top as int, left as int, stencil),
                self.same_shape(old(self)),
                a <= height,
                forall|i: int, j: int|
                    old(self).contains(i, j) ==> #[trigger] self@[i][j] == (if top <= i < top + a
                        && left <= j < left + width {
                        old(self)@[i][j].sum(stencil@[i - top][j - left])
                    } else {
                        old(self)@[i][j]
                    }),
            decreases height - a,
        {
            let mut b: usize = 0;
            while b < width
                invariant
                    height == stencil.rows(),
                    width == stencil.cols(),
                    old(self).window_fits(top as int, left as int, stencil),
                    self.same_shape(old(self)),
                    a < height,
                    b <= width,
                    forall|i: int, j: int|
                        old(self).contains(i, j) ==> #[trigger] self@[i][j] == (if (top <= i < top
                            + a && left <= j < left + width) || (i == top + a && left <= j < left
                            + b) {
                            old(self)@[i][j].sum(stencil@[i - top][j - left])
                        } else {
                            old(self)@[i][j]
                        }),
                decreases width - b,
            {
                let row: usize = top + a;
                let col: usize = left + b;
                let amount = stencil.get(a, b).unwrap();
                let current = self.get(row, col).unwrap();
                let _ = self.set(row, col, current.plus(amount));
                b += 1;
            }
            a += 1;
        }
        Ok(())
    }
}

} // verus!
