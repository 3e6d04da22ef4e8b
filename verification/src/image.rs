//! The raster that a field samples: integer pixels in an `ndarray` array.
//!
//! The array is `ndarray`'s, and Verus does not look inside it. What this file
//! says of its contents, and of the two calls into it, is taken from that
//! crate's source and documentation and is not proved; the two public
//! functions are proved from it.

use crate::error::FieldError;
use vstd::prelude::*;

verus! {

/// A two-dimensional array of integer pixels, held in an
/// `ndarray::Array2<i32>`. The pixels are known to Verus only as
/// [`image_rows`].
#[verifier::external_body]
pub struct Image {
    inner: ndarray::Array2<i32>,
}

/// The pixels of an image: its rows from first to last, each the sequence of
/// that row's pixels from first to last column. Axis 0 of the array counts
/// the rows and axis 1 the columns.
pub uninterp spec fn image_rows(image: &Image) -> Seq<Seq<i32>>;

impl View for Image {
    type V = Seq<Seq<i32>>;

    open spec fn view(&self) -> Seq<Seq<i32>> {
        image_rows(self)
    }
}

/// Whether `(row, col)` names a pixel of a raster given by its rows.
pub open spec fn has_pixel(rows: Seq<Seq<i32>>, row: int, col: int) -> bool {
    0 <= row < rows.len() && 0 <= col < rows[row].len()
}

/// The rows of the raster with `cols` columns whose pixels, read row by row,
/// are `pixels`.
pub open spec fn row_major(pixels: Seq<i32>, rows: nat, cols: nat) -> Seq<Seq<i32>> {
    Seq::new(rows, |r: int| Seq::new(cols, |c: int| pixels[r * cols + c]))
}

/// An axis length, with 1 in place of 0.
pub open spec fn nonzero(length: usize) -> int {
    if length == 0 {
        1
    } else {
        length as int
    }
}

/// Whether an array of the shape `(rows, cols)` can be made of `count`
/// values: the count is that of the shape's cells, and the product of the
/// axis lengths that are not zero does not exceed `isize::MAX`.
pub open spec fn shape_admits(rows: usize, cols: usize, count: nat) -> bool {
    count == rows * cols && nonzero(rows) * nonzero(cols) <= isize::MAX
}

/// Calls `ndarray::Array2::from_shape_vec` with the shape `(rows, cols)`.
///
/// Claimed of it: it succeeds exactly if `pixels` holds as many values as the
/// shape has cells and the product of the axis lengths that are not zero does
/// not exceed `isize::MAX`; the array then holds `pixels` in row-major order,
/// which is the order that a shape without strides stands for.
#[verifier::external_body]
fn array_from_shape_vec(rows: usize, cols: usize, pixels: Vec<i32>) -> (r: Option<Image>)
    ensures
        r.is_some() == shape_admits(rows, cols, pixels@.len()),
        r matches Some(image) ==> image_rows(&image) == row_major(pixels@, rows as nat, cols as nat),
{
    match ndarray::Array2::from_shape_vec((rows, cols), pixels) {
        Ok(inner) => Some(Image { inner }),
        Err(_) => None,
    }
}

/// Calls `get` of the array with the index `(row, col)`.
///
/// Claimed of it: it returns the pixel in that row and column, and `None`
/// exactly if the row or the column is not below the length of its axis.
#[verifier::external_body]
fn array_get(image: &Image, row: usize, col: usize) -> (r: Option<i32>)
    ensures
        r == (if has_pixel(image_rows(image), row as int, col as int) {
            Some(image_rows(image)[row as int][col as int])
        } else {
            None
        }),
{
    image.inner.get((row, col)).copied()
}

/// Calls `nrows` of the array.
///
/// Claimed of it: it returns the length of axis 0, which is the number of
/// rows.
#[verifier::external_body]
fn array_nrows(image: &Image) -> (n: usize)
    ensures
        n == image_rows(image).len(),
{
    image.inner.nrows()
}

/// Calls `ncols` of the array.
///
/// Claimed of it: it returns the length of axis 1, which is the number of
/// pixels in every row.
#[verifier::external_body]
fn array_ncols(image: &Image) -> (n: usize)
    ensures
        forall|r: int| 0 <= r < image_rows(image).len() ==> (#[trigger] image_rows(image)[r]).len() == n,
{
    image.inner.ncols()
}

impl Image {
    /// The number of rows.
    pub fn rows(&self) -> (n: usize)
        ensures
            n == self@.len(),
    {
        array_nrows(self)
    }

    /// The number of columns: the length of every row.
    pub fn cols(&self) -> (n: usize)
        ensures
            forall|r: int| 0 <= r < self@.len() ==> (#[trigger] self@[r]).len() == n,
    {
        array_ncols(self)
    }

    /// The image of the given shape whose pixels, read row by row, are
    /// `pixels`. Fails with `ShapeMismatch` exactly if the shape does not
    /// admit that many pixels.
    pub fn from_shape_vec(rows: usize, cols: usize, pixels: Vec<i32>) -> (r: Result<
        Image,
        FieldError,
    >)
        ensures
            shape_admits(rows, cols, pixels@.len()) ==> r is Ok,
            !shape_admits(rows, cols, pixels@.len()) ==> r is Err && r->Err_0
                == FieldError::ShapeMismatch,
            r matches Ok(image) ==> image@ == row_major(pixels@, rows as nat, cols as nat),
    {
        match array_from_shape_vec(rows, cols, pixels) {
            Some(image) => Ok(image),
            None => Err(FieldError::ShapeMismatch),
        }
    }

    /// The pixel in the given row and column, or `None` if the image has no
    /// such pixel.
    pub fn get(&self, row: usize, col: usize) -> (r: Option<i32>)
        ensures
            r == (if has_pixel(self@, row as int, col as int) {
                Some(self@[row as int][col as int])
            } else {
                None
            }),
    {
        array_get(self, row, col)
    }
}

} // verus!
