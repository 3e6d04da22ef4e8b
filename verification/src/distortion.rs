//! The displacement field and its three operations.

use crate::error::FieldError;
use crate::grid::Grid;
use crate::image::{has_pixel, Image};
use crate::kernel::{stencil, stencil_weight, window_origin, window_within, WINDOW};
use crate::scalar::{Numeric, Scalar};
use vstd::prelude::*;

verus! {

/// What a field holds: its shape, and for every cell the displacement along
/// the rows, the displacement along the columns, and the kernel mass deposited
/// so far. Each array is given by its rows.
pub struct FieldView<T> {
    pub rows: nat,
    pub cols: nat,
    pub dx: Seq<Seq<T>>,
    pub dy: Seq<Seq<T>>,
    pub weight: Seq<Seq<T>>,
}

/// Whether `cells` has `rows` rows of `cols` cells each.
pub open spec fn rectangular<T>(cells: Seq<Seq<T>>, rows: nat, cols: nat) -> bool {
    &&& cells.len() == rows
    &&& forall|i: int| 0 <= i < rows ==> (#[trigger] cells[i]).len() == cols
}

/// The blend of the four pixels around a point that lies `fx` of the way from
/// row `x0` to row `x0 + 1` and `fy` of the way from column `y0` to column
/// `y0 + 1`: each pixel weighs in by its nearness along both axes.
pub open spec fn blend<W: Numeric>(fx: W, fy: W, p00: i32, p01: i32, p10: i32, p11: i32) -> W {
    let gx = W::unit().difference(fx);
    let gy = W::unit().difference(fy);
    gx.product(gy).product(W::of_int(p00)).sum(gx.product(fy).product(W::of_int(p01))).sum(
        fx.product(gy).product(W::of_int(p10)),
    ).sum(fx.product(fy).product(W::of_int(p11)))
}

/// Splits a coordinate into its floor, as an integer, and the fraction above
/// it. `None` if the floor stands for no integer or the fraction cannot be
/// widened.
pub open spec fn split<T: Scalar>(t: T) -> Option<(int, T::Wide)> {
    match (t.floored().as_int(), t.difference(t.floored()).widened()) {
        (Some(i), Some(f)) => Some((i as int, f)),
        _ => None,
    }
}

/// The sample of a raster at the sub-pixel coordinate `target`.
///
/// Both coordinates are split; if either split fails the sample is
/// `NumericConversionFailure`. Otherwise all four neighbours `(x0, y0)`,
/// `(x0, y0 + 1)`, `(x0 + 1, y0)` and `(x0 + 1, y0 + 1)` must be pixels of the
/// raster, or the sample is `OutOfBounds`: nothing is clamped or wrapped.
pub open spec fn sampled<T: Scalar>(pixels: Seq<Seq<i32>>, target: (T, T)) -> Result<
    T::Wide,
    FieldError,
> {
    match (split(target.0), split(target.1)) {
        (Some((x0, fx)), Some((y0, fy))) => {
            if has_pixel(pixels, x0, y0) && has_pixel(pixels, x0, y0 + 1) && has_pixel(
                pixels,
                x0 + 1,
                y0,
            ) && has_pixel(pixels, x0 + 1, y0 + 1) {
                Ok(
                    blend(
                        fx,
                        fy,
                        pixels[x0][y0],
                        pixels[x0][y0 + 1],
                        pixels[x0 + 1][y0],
                        pixels[x0 + 1][y0 + 1],
                    ),
                )
            } else {
                Err(FieldError::OutOfBounds)
            }
        },
        _ => Err(FieldError::NumericConversionFailure),
    }
}

/// The cell that an observation at `original` is anchored to: both
/// coordinates rounded to the nearest integer. `None` if either rounds to no
/// integer.
pub open spec fn anchor<T: Scalar>(original: (T, T)) -> Option<(int, int)> {
    match (original.0.rounded().as_int(), original.1.rounded().as_int()) {
        (Some(x0), Some(y0)) => Some((x0 as int, y0 as int)),
        _ => None,
    }
}

/// Whether the cell `(i, j)` lies in the window around `center`.
pub open spec fn in_reach(center: (int, int), i: int, j: int) -> bool {
    &&& center.0 - WINDOW <= i <= center.0 + WINDOW
    &&& center.1 - WINDOW <= j <= center.1 + WINDOW
}

/// The kernel mass that an observation of strength `strength` anchored at
/// `center` deposits in the cell `(i, j)` of the window.
pub open spec fn mass<T: Scalar>(center: (int, int), i: int, j: int, strength: T) -> T {
    stencil_weight::<T>(i - center.0 + WINDOW, j - center.1 + WINDOW).product(strength)
}

/// Blends four pixels.
pub fn bilinear<W: Numeric>(fx: W, fy: W, p00: i32, p01: i32, p10: i32, p11: i32) -> (r: W)
    ensures
        r == blend(fx, fy, p00, p01, p10, p11),
{
    let t00 = W::one().minus(fx).times(W::one().minus(fy)).times(W::from_int(p00));
    let t01 = W::one().minus(fx).times(fy).times(W::from_int(p01));
    let t10 = fx.times(W::one().minus(fy)).times(W::from_int(p10));
    let t11 = fx.times(fy).times(W::from_int(p11));
    t00.plus(t01).plus(t10).plus(t11)
}

/// The grid index that the coordinate `at` is, if an axis of `length` cells
/// has it and its successor.
fn lower_neighbour(length: usize, at: i64) -> (r: Option<usize>)
    ensures
        r == (if 0 <= at && at + 1 < length {
            Some(at as usize)
        } else {
            None
        }),
{
    if at < 0 || length < 2 {
        return None;
    }
    if at as u64 > (length - 2) as u64 {
        None
    } else {
        Some(at as usize)
    }
}

/// Samples `image` at the sub-pixel coordinate `target` by bilinear
/// interpolation between the four pixels around it.
pub fn sample<T: Scalar>(image: &Image, target: (T, T)) -> (r: Result<T::Wide, FieldError>)
    ensures
        r == sampled(image@, target),
{
    let x0 = match target.0.floor().to_int() {
        Some(i) => i,
        None => { return Err(FieldError::NumericConversionFailure); },
    };
    let fx = match target.0.minus(target.0.floor()).widen() {
        Some(f) => f,
        None => { return Err(FieldError::NumericConversionFailure); },
    };
    let y0 = match target.1.floor().to_int() {
        Some(i) => i,
        None => { return Err(FieldError::NumericConversionFailure); },
    };
    let fy = match target.1.minus(target.1.floor()).widen() {
        Some(f) => f,
        None => { return Err(FieldError::NumericConversionFailure); },
    };
    let (x, y) = match (lower_neighbour(image.rows(), x0), lower_neighbour(image.cols(), y0)) {
        (Some(x), Some(y)) => (x, y),
        _ => { return Err(FieldError::OutOfBounds); },
    };
    match (image.get(x, y), image.get(x, y + 1), image.get(x + 1, y), image.get(x + 1, y + 1)) {
        (Some(p00), Some(p01), Some(p10), Some(p11)) => Ok(bilinear(fx, fy, p00, p01, p10, p11)),
        _ => Err(FieldError::OutOfBounds),
    }
}

impl<T: Scalar> FieldView<T> {
    /// Whether all three arrays have the shape of the field.
    pub open spec fn well_formed(self) -> bool {
        &&& rectangular(self.dx, self.rows, self.cols)
        &&& rectangular(self.dy, self.rows, self.cols)
        &&& rectangular(self.weight, self.rows, self.cols)
    }

    /// Whether `xy` names a cell of the field.
    pub open spec fn contains(self, xy: (usize, usize)) -> bool {
        xy.0 < self.rows && xy.1 < self.cols
    }

    /// The coordinate that the cell `xy` is displaced to: its own row and
    /// column, each as a number of the field's type, plus the displacement
    /// stored for that very cell. A cell that the field lacks is
    /// `OutOfBounds`; a row or column that the type has no number for is a
    /// `NumericConversionFailure`.
    pub open spec fn target(self, xy: (usize, usize)) -> Result<(T, T), FieldError> {
        if !self.contains(xy) {
            Err(FieldError::OutOfBounds)
        } else {
            match (T::of_index(xy.0), T::of_index(xy.1)) {
                (Some(x), Some(y)) => Ok(
                    (
                        x.sum(self.dx[xy.0 as int][xy.1 as int]),
                        y.sum(self.dy[xy.0 as int][xy.1 as int]),
                    ),
                ),
                _ => Err(FieldError::NumericConversionFailure),
            }
        }
    }

    /// The sample of a raster at the coordinate that the cell `xy` is
    /// displaced to.
    pub open spec fn applied(self, pixels: Seq<Seq<i32>>, xy: (usize, usize)) -> Result<
        T::Wide,
        FieldError,
    > {
        match self.target(xy) {
            Ok(target) => sampled(pixels, target),
            Err(e) => Err(e),
        }
    }

    /// Whether an observation at `original` is taken in, and if not, why: a
    /// coordinate that rounds to no integer is a `NumericConversionFailure`,
    /// a window that does not lie inside the field is `OutOfBounds`.
    pub open spec fn admits(self, original: (T, T)) -> Result<(), FieldError> {
        match anchor(original) {
            None => Err(FieldError::NumericConversionFailure),
            Some(center) => if window_within(self.rows as int, self.cols as int, center) {
                Ok(())
            } else {
                Err(FieldError::OutOfBounds)
            },
        }
    }

    /// What the field holds once the observation "the point at `original`
    /// belongs at `expected`", of strength `strength`, has been taken in
    /// around `center`: inside the window every cell of `weight` has gained
    /// the kernel mass, and every cell of `dx` and `dy` that mass times the
    /// observed displacement along its axis. Outside the window nothing
    /// differs.
    pub open spec fn refined(
        self,
        center: (int, int),
        original: (T, T),
        expected: (T, T),
        strength: T,
    ) -> FieldView<T> {
        let delta_x = expected.0.difference(original.0);
        let delta_y = expected.1.difference(original.1);
        FieldView {
            rows: self.rows,
            cols: self.cols,
            dx: Seq::new(
                self.rows,
                |i: int|
                    Seq::new(
                        self.cols,
                        |j: int|
                            if in_reach(center, i, j) {
                                self.dx[i][j].sum(mass(center, i, j, strength).product(delta_x))
                            } else {
                                self.dx[i][j]
                            },
                    ),
            ),
            dy: Seq::new(
                self.rows,
                |i: int|
                    Seq::new(
                        self.cols,
                        |j: int|
                            if in_reach(center, i, j) {
                                self.dy[i][j].sum(mass(center, i, j, strength).product(delta_y))
                            } else {
                                self.dy[i][j]
                            },
                    ),
            ),
            weight: Seq::new(
                self.rows,
                |i: int|
                    Seq::new(
                        self.cols,
                        |j: int|
                            if in_reach(center, i, j) {
                                self.weight[i][j].sum(mass(center, i, j, strength))
                            } else {
                                self.weight[i][j]
                            },
                    ),
            ),
        }
    }

    /// A cell that the field does not have has neither a target nor a sample:
    /// both reads are refused as out of bounds, whatever the raster.
    pub proof fn lemma_outside_is_rejected(self, pixels: Seq<Seq<i32>>, xy: (usize, usize))
        requires
            !self.contains(xy),
        ensures
            self.target(xy) == Err::<(T, T), FieldError>(FieldError::OutOfBounds),
            self.applied(pixels, xy) == Err::<T::Wide, FieldError>(FieldError::OutOfBounds),
    {
    }

    /// An observation whose window does not lie inside the field is refused
    /// as out of bounds.
    pub proof fn lemma_partial_window_is_refused(self, original: (T, T))
        requires
            anchor(original) matches Some(center) && !window_within(
                self.rows as int,
                self.cols as int,
                center,
            ),
        ensures
            self.admits(original) == Err::<(), FieldError>(FieldError::OutOfBounds),
    {
    }

    /// Taking in an observation keeps the shape: the field has afterwards
    /// the rows and columns that it had, and all three arrays have that
    /// shape.
    pub proof fn lemma_refined_keeps_shape(
        self,
        center: (int, int),
        original: (T, T),
        expected: (T, T),
        strength: T,
    )
        ensures
            self.refined(center, original, expected, strength).well_formed(),
            self.refined(center, original, expected, strength).rows == self.rows,
            self.refined(center, original, expected, strength).cols == self.cols,
    {
    }

    /// Taking in an observation is local: a cell outside the window around
    /// the anchor holds afterwards what it held before.
    pub proof fn lemma_refined_is_local(
        self,
        center: (int, int),
        original: (T, T),
        expected: (T, T),
        strength: T,
        i: int,
        j: int,
    )
        requires
            0 <= i < self.rows,
            0 <= j < self.cols,
            !in_reach(center, i, j),
        ensures
            self.refined(center, original, expected, strength).dx[i][j] == self.dx[i][j],
            self.refined(center, original, expected, strength).dy[i][j] == self.dy[i][j],
            self.refined(center, original, expected, strength).weight[i][j] == self.weight[i][j],
    {
    }
}

/// A dense displacement field: for every cell of a grid, how far the point
/// that nominally sits there lies from it along the rows and along the
/// columns, and how much kernel mass observations have deposited there.
///
/// The three arrays have one shape, which never changes.
pub struct FieldDistortion<T: Scalar> {
    dist_x: Grid<T>,
    dist_y: Grid<T>,
    accum: Grid<T>,
}

impl<T: Scalar> View for FieldDistortion<T> {
    type V = FieldView<T>;

    closed spec fn view(&self) -> FieldView<T> {
        FieldView {
            rows: self.dist_x.rows() as nat,
            cols: self.dist_x.cols() as nat,
            dx: self.dist_x@,
            dy: self.dist_y@,
            weight: self.accum@,
        }
    }
}

impl<T: Scalar> FieldDistortion<T> {
    #[verifier::type_invariant]
    spec fn arrays_agree(self) -> bool {
        self.dist_x.same_shape(&self.dist_y) && self.dist_x.same_shape(&self.accum)
    }

    /// The field with the displacements `distx` along the rows and `disty`
    /// along the columns, and the weight one in every cell. Fails with
    /// `ShapeMismatch` exactly if the two arrays differ in shape.
    pub fn new(distx: Grid<T>, disty: Grid<T>) -> (r: Result<Self, FieldError>)
        ensures
            distx.same_shape(&disty) ==> r is Ok,
            !distx.same_shape(&disty) ==> r == Err::<Self, FieldError>(FieldError::ShapeMismatch),
            r matches Ok(field) ==> {
                &&& field@.rows == distx.rows()
                &&& field@.cols == distx.cols()
                &&& field@.well_formed()
                &&& field@.dx == distx@
                &&& field@.dy == disty@
                &&& forall|i: int, j: int|
                    0 <= i < distx.rows() && 0 <= j < distx.cols() ==> #[trigger] field@.weight[i][j]
                        == T::unit()
            },
    {
        if distx.rows() != disty.rows() || distx.cols() != disty.cols() {
            return Err(FieldError::ShapeMismatch);
        }
        let accum = distx.filled_alike(T::one());
        proof {
            distx.lemma_view_shape();
            disty.lemma_view_shape();
            accum.lemma_view_shape();
        }
        Ok(FieldDistortion { dist_x: distx, dist_y: disty, accum })
    }

    /// As [`FieldDistortion::new`], from arrays that the caller keeps.
    pub fn new_r(distx: &Grid<T>, disty: &Grid<T>) -> (r: Result<Self, FieldError>)
        ensures
            distx.same_shape(disty) ==> r is Ok,
            !distx.same_shape(disty) ==> r == Err::<Self, FieldError>(FieldError::ShapeMismatch),
            r matches Ok(field) ==> {
                &&& field@.rows == distx.rows()
                &&& field@.cols == distx.cols()
                &&& field@.well_formed()
                &&& field@.dx == distx@
                &&& field@.dy == disty@
                &&& forall|i: int, j: int|
                    0 <= i < distx.rows() && 0 <= j < distx.cols() ==> #[trigger] field@.weight[i][j]
                        == T::unit()
            },
    {
        Self::new(distx.clone(), disty.clone())
    }

    /// The number of rows of the field.
    pub fn rows(&self) -> (n: usize)
        ensures
            n == self@.rows,
    {
        self.dist_x.rows()
    }

    /// The number of columns of the field.
    pub fn cols(&self) -> (n: usize)
        ensures
            n == self@.cols,
    {
        self.dist_x.cols()
    }

    /// The shape that the three arrays of the field share.
    pub fn shape(&self) -> (s: (usize, usize))
        ensures
            s.0 == self@.rows,
            s.1 == self@.cols,
            self@.well_formed(),
    {
        proof {
            use_type_invariant(self);
            self.dist_x.lemma_view_shape();
            self.dist_y.lemma_view_shape();
            self.accum.lemma_view_shape();
        }
        (self.dist_x.rows(), self.dist_x.cols())
    }

    /// The coordinate that the cell `xy` is displaced to. Fails with
    /// `OutOfBounds` exactly if the field has no cell `xy`, and else with
    /// `NumericConversionFailure` exactly if the field's type has no number
    /// for the row or for the column.
    pub fn get(&self, xy: (usize, usize)) -> (r: Result<(T, T), FieldError>)
        ensures
            r == self@.target(xy),
            !self@.contains(xy) ==> r == Err::<(T, T), FieldError>(FieldError::OutOfBounds),
    {
        proof {
            use_type_invariant(self);
        }
        let (dx, dy) = match (self.dist_x.get(xy.0, xy.1), self.dist_y.get(xy.0, xy.1)) {
            (Some(dx), Some(dy)) => (dx, dy),
            _ => { return Err(FieldError::OutOfBounds); },
        };
        match (T::from_index(xy.0), T::from_index(xy.1)) {
            (Some(x), Some(y)) => Ok((x.plus(dx), y.plus(dy))),
            _ => Err(FieldError::NumericConversionFailure),
        }
    }

    /// The sample of `mat` at the coordinate that the cell `xy` is displaced
    /// to, by bilinear interpolation between the four pixels around it. Fails
    /// as [`FieldDistortion::get`] does, and else as [`sample`] does.
    pub fn apply(&self, mat: &Image, xy: (usize, usize)) -> (r: Result<T::Wide, FieldError>)
        ensures
            r == self@.applied(mat@, xy),
            !self@.contains(xy) ==> r == Err::<T::Wide, FieldError>(FieldError::OutOfBounds),
    {
        match self.get(xy) {
            Ok(target) => sample(mat, target),
            Err(e) => Err(e),
        }
    }

    /// The displacements along the rows.
    pub fn dx(&self) -> (g: &Grid<T>)
        ensures
            g@ == self@.dx,
            g.rows() == self@.rows,
            g.cols() == self@.cols,
    {
        &self.dist_x
    }

    /// The displacements along the columns.
    pub fn dy(&self) -> (g: &Grid<T>)
        ensures
            g@ == self@.dy,
            g.rows() == self@.rows,
            g.cols() == self@.cols,
    {
        proof {
            use_type_invariant(self);
        }
        &self.dist_y
    }

    /// The kernel mass deposited so far.
    pub fn weight(&self) -> (g: &Grid<T>)
        ensures
            g@ == self@.weight,
            g.rows() == self@.rows,
            g.cols() == self@.cols,
    {
        proof {
            use_type_invariant(self);
        }
        &self.accum
    }

    /// Takes in one observation: the point that nominally sits at `original`
    /// was found at `expected`. The correction is spread over the window
    /// around the cell nearest to `original`, weighted by the Gaussian
    /// stencil and by `weight`; it is added to what the cells hold, and
    /// nothing is normalised.
    ///
    /// Fails with `NumericConversionFailure` exactly if a coordinate of
    /// `original` rounds to no integer, and else with `OutOfBounds` exactly if
    /// the window does not lie inside the field. A refused observation leaves
    /// the field as it was.
    pub fn update(&mut self, original: (T, T), expected: (T, T), weight: T) -> (r: Result<
        (),
        FieldError,
    >)
        ensures
            r == old(self)@.admits(original),
            final(self)@.rows == old(self)@.rows,
            final(self)@.cols == old(self)@.cols,
            final(self)@.well_formed(),
            r is Err ==> *final(self) == *old(self),
            anchor(original) matches Some(center) && !window_within(
                old(self)@.rows as int,
                old(self)@.cols as int,
                center,
            ) ==> r == Err::<(), FieldError>(FieldError::OutOfBounds) && *final(self) == *old(self),
            r is Ok ==> final(self)@ == old(self)@.refined(
                anchor(original)->Some_0,
                original,
                expected,
                weight,
            ),
    {
        proof {
            use_type_invariant(&*self);
            self.dist_x.lemma_view_shape();
            self.dist_y.lemma_view_shape();
            self.accum.lemma_view_shape();
        }
        let x0 = match original.0.round().to_int() {
            Some(i) => i,
            None => { return Err(FieldError::NumericConversionFailure); },
        };
        let y0 = match original.1.round().to_int() {
            Some(i) => i,
            None => { return Err(FieldError::NumericConversionFailure); },
        };
        let rows: usize = self.dist_x.rows();
        let cols: usize = self.dist_x.cols();
        let (top, left) = match window_origin(rows, cols, (x0, y0)) {
            Ok(origin) => origin,
            Err(e) => { return Err(e); },
        };
        let delta_x = expected.0.minus(original.0);
        let delta_y = expected.1.minus(original.1);
        let by_weight = stencil::<T>().scaled(weight);
        let by_delta_x = by_weight.scaled(delta_x);
        let by_delta_y = by_weight.scaled(delta_y);

        let mut taken = FieldDistortion {
            dist_x: Grid::empty(),
            dist_y: Grid::empty(),
            accum: Grid::empty(),
        };
        std::mem::swap(self, &mut taken);
        let FieldDistortion { dist_x: mut dist_x, dist_y: mut dist_y, accum: mut accum } = taken;
        let _ = accum.add_window(top, left, &by_weight);
        let _ = dist_x.add_window(top, left, &by_delta_x);
        let _ = dist_y.add_window(top, left, &by_delta_y);
        *self = FieldDistortion { dist_x, dist_y, accum };
        proof {
            let center = (x0 as int, y0 as int);
            let wanted = old(self)@.refined(center, original, expected, weight);
            self.dist_x.lemma_view_shape();
            self.dist_y.lemma_view_shape();
            self.accum.lemma_view_shape();
            assert forall|i: int| 0 <= i < rows implies {
                &&& self@.dx[i] =~= wanted.dx[i]
                &&& self@.dy[i] =~= wanted.dy[i]
                &&& self@.weight[i] =~= wanted.weight[i]
            } by {}
            assert(self@.dx =~= wanted.dx);
            assert(self@.dy =~= wanted.dy);
            assert(self@.weight =~= wanted.weight);
        }
        Ok(())
    }

    /// Reading is a function of what the field holds and of what is asked:
    /// two fields that hold the same give the same target and the same
    /// sample, and so does one field that is asked again.
    pub proof fn lemma_reads_are_repeatable(
        &self,
        other: &Self,
        pixels: Seq<Seq<i32>>,
        xy: (usize, usize),
    )
        requires
            self@ == other@,
        ensures
            self@.target(xy) == other@.target(xy),
            self@.applied(pixels, xy) == other@.applied(pixels, xy),
    {
    }
}

} // verus!
