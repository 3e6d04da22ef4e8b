//! The stencil by which one observation is spread over its neighbourhood: an
//! isotropic Gaussian that is not normalised, on a square window of fixed
//! radius.

use crate::error::FieldError;
use crate::grid::Grid;
use crate::scalar::Scalar;
use vstd::prelude::*;

verus! {

/// The radius of the window, in cells.
pub const WINDOW: usize = 4;

/// The number of cells along one side of the window.
pub const SIDE: usize = 9;

/// The squared distance from the centre of the window of the cell `(i, j)`,
/// counted from the window's first row and column.
pub open spec fn squared_distance(i: int, j: int) -> int {
    (i - WINDOW) * (i - WINDOW) + (j - WINDOW) * (j - WINDOW)
}

/// The weight of the stencil at `(i, j)`: `exp(-d)`, where `d` is the squared
/// distance of that cell from the centre.
pub open spec fn stencil_weight<T: Scalar>(i: int, j: int) -> T {
    T::of_int((-squared_distance(i, j)) as i32).exponential()
}

/// Whether the window around `center` lies inside an array of `rows` rows and
/// `cols` columns: no cell of it has a negative coordinate or one that the
/// array lacks.
pub open spec fn window_within(rows: int, cols: int, center: (int, int)) -> bool {
    &&& 0 <= center.0 - WINDOW
    &&& center.0 + WINDOW < rows
    &&& 0 <= center.1 - WINDOW
    &&& center.1 + WINDOW < cols
}

/// The first coordinate of the window around `center` along an axis of
/// `length` cells, or `None` if the window does not lie inside the axis.
fn axis_origin(length: usize, center: i64) -> (r: Option<usize>)
    ensures
        r == (if 0 <= center - WINDOW && center + WINDOW < length {
            Some((center - WINDOW) as usize)
        } else {
            None
        }),
{
    if center < WINDOW as i64 || length < SIDE {
        return None;
    }
    let first: u64 = (center - WINDOW as i64) as u64;
    if first > (length - SIDE) as u64 {
        None
    } else {
        Some(first as usize)
    }
}

/// The first cell of the window around `center`, or `OutOfBounds` if that
/// window does not lie inside an array of `rows` rows and `cols` columns.
pub fn window_origin(rows: usize, cols: usize, center: (i64, i64)) -> (r: Result<
    (usize, usize),
    FieldError,
>)
    ensures
        r == (if window_within(rows as int, cols as int, (center.0 as int, center.1 as int)) {
            Ok::<(usize, usize), FieldError>(
                ((center.0 - WINDOW) as usize, (center.1 - WINDOW) as usize),
            )
        } else {
            Err::<(usize, usize), FieldError>(FieldError::OutOfBounds)
        }),
{
    match (axis_origin(rows, center.0), axis_origin(cols, center.1)) {
        (Some(top), Some(left)) => Ok((top, left)),
        _ => Err(FieldError::OutOfBounds),
    }
}

/// The squared distance of `(i, j)` from the centre of the window.
pub fn distance_squared(i: usize, j: usize) -> (d: i32)
    requires
        i < SIDE,
        j < SIDE,
    ensures
        d == squared_distance(i as int, j as int),
        0 <= d <= 32,
{
    let di: i32 = i as i32 - WINDOW as i32;
    let dj: i32 = j as i32 - WINDOW as i32;
    assert(0 <= di * di <= 16) by (nonlinear_arith)
        requires
            -4 <= di <= 4,
    ;
    assert(0 <= dj * dj <= 16) by (nonlinear_arith)
        requires
            -4 <= dj <= 4,
    ;
    di * di + dj * dj
}

/// The stencil: a `SIDE` by `SIDE` grid whose cell `(i, j)` holds
/// `exp(-d)` for the squared distance `d` of that cell from the centre.
pub fn stencil<T: Scalar>() -> (g: Grid<T>)
    ensures
        g.rows() == SIDE,
        g.cols() == SIDE,
        forall|i: int, j: int| g.contains(i, j) ==> #[trigger] g@[i][j] == stencil_weight::<T>(i, j),
{
    let mut cells: Vec<T> = Vec::new();
    let mut i: usize = 0;
    while i < SIDE
        invariant
            i <= SIDE,
            cells@.len() == i * SIDE,
            forall|a: int, b: int|
                0 <= a < i && 0 <= b < SIDE ==> #[trigger] cells@[a * SIDE + b] == stencil_weight::<
                    T,
                >(a, b),
        decreases SIDE - i,
    {
        let mut j: usize = 0;
        while j < SIDE
            invariant
                i < SIDE,
                j <= SIDE,
                cells@.len() == i * SIDE + j,
                forall|a: int, b: int|
                    (0 <= a < i && 0 <= b < SIDE) || (a == i && 0 <= b < j) ==> #[trigger] cells@[a
                        * SIDE + b] == stencil_weight::<T>(a, b),
            decreases SIDE - j,
        {
            let d: i32 = distance_squared(i, j);
            cells.push(T::from_int(-d).exp());
            j += 1;
        }
        i += 1;
    }
    Grid::from_vec(SIDE, SIDE, cells).unwrap()
}

} // verus!
