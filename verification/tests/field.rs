use approx::AbsDiffEq;
use distortion::distortion::{bilinear, sample, FieldDistortion};
use distortion::error::FieldError;
use distortion::grid::Grid;
use distortion::image::Image;
use distortion::kernel::stencil;
use distortion::scalar::{Numeric, Scalar};
use num_traits::{Float, NumCast};

/// A floating-point cell value.
#[derive(Clone, Copy, Debug, PartialEq)]
struct Real<F>(F);

impl<F: Float> Numeric for Real<F> {
    fn unit() -> Self {
        Self::one()
    }

    fn of_int(v: i32) -> Self {
        Self::from_int(v)
    }

    fn sum(self, rhs: Self) -> Self {
        self.plus(rhs)
    }

    fn difference(self, rhs: Self) -> Self {
        self.minus(rhs)
    }

    fn product(self, rhs: Self) -> Self {
        self.times(rhs)
    }

    fn one() -> Self {
        Real(F::one())
    }

    fn from_int(v: i32) -> Self {
        Real(<F as NumCast>::from(v).expect("every small integer has a nearest float"))
    }

    fn plus(self, rhs: Self) -> Self {
        Real(self.0 + rhs.0)
    }

    fn minus(self, rhs: Self) -> Self {
        Real(self.0 - rhs.0)
    }

    fn times(self, rhs: Self) -> Self {
        Real(self.0 * rhs.0)
    }
}

impl<F: Float> Scalar for Real<F> {
    type Wide = Real<f64>;

    fn of_index(i: usize) -> Option<Self> {
        Self::from_index(i)
    }

    fn floored(self) -> Self {
        self.floor()
    }

    fn rounded(self) -> Self {
        self.round()
    }

    fn exponential(self) -> Self {
        self.exp()
    }

    fn as_int(self) -> Option<i64> {
        self.to_int()
    }

    fn widened(self) -> Option<Real<f64>> {
        self.widen()
    }

    fn from_index(i: usize) -> Option<Self> {
        <F as NumCast>::from(i).map(Real)
    }

    fn floor(self) -> Self {
        Real(self.0.floor())
    }

    fn round(self) -> Self {
        Real(self.0.round())
    }

    fn exp(self) -> Self {
        Real(self.0.exp())
    }

    fn to_int(self) -> Option<i64> {
        self.0.to_i64()
    }

    fn widen(self) -> Option<Real<f64>> {
        self.0.to_f64().map(Real)
    }
}

fn grid<F: Float>(rows: usize, cols: usize, values: &[F]) -> Grid<Real<F>> {
    Grid::from_vec(rows, cols, values.iter().map(|v| Real(*v)).collect()).unwrap()
}

fn flat(rows: usize, cols: usize) -> FieldDistortion<Real<f32>> {
    let dx = Grid::filled(rows, cols, Real(0f32)).unwrap();
    let dy = Grid::filled(rows, cols, Real(0f32)).unwrap();
    FieldDistortion::new(dx, dy).unwrap()
}

fn observed() -> FieldDistortion<Real<f32>> {
    let mut dist = flat(20, 20);
    dist.update((Real(10.), Real(12.)), (Real(11.1), Real(12.2)), Real(1.0)).unwrap();
    dist
}

fn tenths() -> Grid<Real<f64>> {
    grid(3, 3, &[0.1, 0.2, 0.3, 0.4, 0.5, 0.6, 0.7, 0.8, 0.9])
}

fn digits() -> Image {
    Image::from_shape_vec(3, 3, vec![1, 2, 3, 4, 5, 6, 7, 8, 9]).unwrap()
}

fn plain<F: Float>(cells: Vec<Real<F>>) -> Vec<F> {
    cells.into_iter().map(|v| v.0).collect()
}

fn bits(dist: &FieldDistortion<Real<f32>>) -> Vec<u32> {
    let mut all = dist.dx().to_vec();
    all.extend(dist.dy().to_vec());
    all.extend(dist.weight().to_vec());
    all.into_iter().map(|v| v.0.to_bits()).collect()
}

#[test]
fn test_get() {
    let x = tenths();

    let img = digits();

    let dist = FieldDistortion::new_r(&x, &x).unwrap();
    let g = dist.apply(&img, (1, 1)).unwrap();
    assert_eq!(g, Real(7.0));
}

#[test]
fn test_update() {
    let dx = Grid::filled(20, 20, Real(0f32)).unwrap();
    let dy = Grid::filled(20, 20, Real(0f32)).unwrap();
    let mut dist = FieldDistortion::new(dx, dy).unwrap();

    dist.update((Real(10.), Real(12.)), (Real(11.1), Real(12.2)), Real(1.0)).unwrap();

    assert_eq!(dist.get((10, 12)), Ok((Real(11.1), Real(12.2))));

    let xy = dist.get((11, 13)).expect("did not get value");
    assert!((xy.0).0.abs_diff_eq(&11.148, 1e-3f32));
    assert!((xy.1).0.abs_diff_eq(&13.027, 1e-3f32));
}

#[test]
fn get_adds_the_displacement_of_the_cell() {
    let x = tenths();
    let dist = FieldDistortion::new_r(&x, &x).unwrap();
    assert_eq!(dist.get((1, 1)), Ok((Real(1.5), Real(1.5))));
    assert_eq!(dist.get((0, 0)), Ok((Real(0.1), Real(0.1))));
    assert_eq!(dist.get((2, 0)), Ok((Real(2.0 + 0.7), Real(0.0 + 0.7))));
    assert_eq!(dist.get((0, 2)), Ok((Real(0.0 + 0.3), Real(2.0 + 0.3))));
}

#[test]
fn get_reads_rows_from_dx_and_columns_from_dy() {
    let dx = grid(2, 2, &[0.25f64, 0.5, 0.75, 1.0]);
    let dy = grid(2, 2, &[-0.25f64, -0.5, -0.75, -1.0]);
    let dist = FieldDistortion::new(dx, dy).unwrap();
    assert_eq!(dist.get((1, 0)), Ok((Real(1.75), Real(-0.75))));
    assert_eq!(dist.get((0, 1)), Ok((Real(0.5), Real(0.5))));
}

#[test]
fn out_of_bounds_is_rejected() {
    let x = grid(1, 1, &[1.0f32]);
    let img = Image::from_shape_vec(1, 1, vec![2]).unwrap();
    let dist = FieldDistortion::new_r(&x, &x).unwrap();
    assert_eq!(dist.apply(&img, (1, 1)), Err(FieldError::OutOfBounds));
    assert_eq!(dist.get((1, 1)), Err(FieldError::OutOfBounds));
    assert_eq!(dist.get((0, 1)), Err(FieldError::OutOfBounds));
    assert_eq!(dist.get((1, 0)), Err(FieldError::OutOfBounds));
    assert_eq!(dist.get((usize::MAX, usize::MAX)), Err(FieldError::OutOfBounds));
    assert_eq!(dist.get((0, 0)), Ok((Real(1.0), Real(1.0))));
}

#[test]
fn new_rejects_arrays_of_different_shape() {
    let a = Grid::filled(3, 4, Real(0f32)).unwrap();
    let b = Grid::filled(4, 3, Real(0f32)).unwrap();
    assert!(matches!(FieldDistortion::new_r(&a, &b), Err(FieldError::ShapeMismatch)));
    assert!(matches!(FieldDistortion::new(a, b), Err(FieldError::ShapeMismatch)));
    let a = Grid::filled(3, 4, Real(0f32)).unwrap();
    let b = Grid::filled(3, 5, Real(0f32)).unwrap();
    assert!(matches!(FieldDistortion::new(a, b), Err(FieldError::ShapeMismatch)));
}

#[test]
fn new_keeps_the_arrays_and_weighs_every_cell_one() {
    let dx = grid(2, 3, &[1f32, 2., 3., 4., 5., 6.]);
    let dy = grid(2, 3, &[-1f32, -2., -3., -4., -5., -6.]);
    let dist = FieldDistortion::new_r(&dx, &dy).unwrap();
    assert_eq!(dist.dx().to_vec(), dx.to_vec());
    assert_eq!(dist.dy().to_vec(), dy.to_vec());
    assert_eq!(plain(dist.weight().to_vec()), vec![1f32; 6]);
}

#[test]
fn the_three_arrays_share_one_shape() {
    let mut dist = flat(20, 30);
    assert_eq!(dist.shape(), (20, 30));
    assert_eq!((dist.rows(), dist.cols()), (20, 30));
    for round in 0..3 {
        let at = 5.0 + round as f32;
        dist.update((Real(at), Real(at + 10.)), (Real(at + 0.5), Real(at + 9.5)), Real(0.5)).unwrap();
        assert!(dist.update((Real(1.), Real(1.)), (Real(2.), Real(2.)), Real(1.)).is_err());
        assert_eq!(dist.shape(), (20, 30));
        assert_eq!((dist.dx().rows(), dist.dx().cols()), (20, 30));
        assert_eq!((dist.dy().rows(), dist.dy().cols()), (20, 30));
        assert_eq!((dist.weight().rows(), dist.weight().cols()), (20, 30));
        assert_eq!(dist.dx().to_vec().len(), 600);
        assert_eq!(dist.dy().to_vec().len(), 600);
        assert_eq!(dist.weight().to_vec().len(), 600);
    }
}

#[test]
fn update_deposits_the_whole_delta_at_the_anchor() {
    let dist = observed();
    assert_eq!(dist.dx().get(10, 12), Some(Real(11.1f32 - 10.)));
    assert_eq!(dist.dy().get(10, 12), Some(Real(12.2f32 - 12.)));
    assert_eq!(dist.weight().get(10, 12), Some(Real(2.0)));
}

#[test]
fn update_decays_with_distance() {
    let dist = observed();
    let gain = (-2f32).exp() * 1.0;
    assert_eq!(dist.weight().get(11, 13), Some(Real(1.0 + gain)));
    assert_eq!(dist.dx().get(11, 13), Some(Real(0.0 + gain * (11.1f32 - 10.))));
    assert_eq!(dist.dy().get(11, 13), Some(Real(0.0 + gain * (12.2f32 - 12.))));

    let centre = dist.get((10, 12)).unwrap();
    let beside = dist.get((11, 13)).unwrap();
    assert!(((beside.0).0 - 11.).abs() < ((centre.0).0 - 10.).abs());
    assert!(((beside.1).0 - 13.).abs() < ((centre.1).0 - 12.).abs());
    assert!(((beside.0).0 - 11.).abs_diff_eq(&(1.1 * (-2f32).exp()), 1e-6));
    assert!(((beside.1).0 - 13.).abs_diff_eq(&(0.2 * (-2f32).exp()), 1e-6));
}

#[test]
fn update_is_the_same_in_all_four_directions() {
    let dist = observed();
    let right = dist.dx().get(10, 13).unwrap();
    assert_eq!(right, Real((-1f32).exp() * 1.0 * (11.1f32 - 10.)));
    assert_eq!(dist.dx().get(10, 11), Some(right));
    assert_eq!(dist.dx().get(9, 12), Some(right));
    assert_eq!(dist.dx().get(11, 12), Some(right));
    let far = dist.dx().get(10, 16).unwrap();
    assert_eq!(far, Real((-16f32).exp() * 1.0 * (11.1f32 - 10.)));
    assert_eq!(dist.dx().get(6, 12), Some(far));
}

#[test]
fn update_reaches_the_window_and_no_further() {
    let dist = observed();
    let corner = Real((-32f32).exp() * 1.0 * (11.1f32 - 10.));
    assert!(corner.0 > 0.0);
    assert_eq!(dist.dx().get(6, 8), Some(corner));
    assert_eq!(dist.dx().get(14, 16), Some(corner));
    assert_eq!(dist.dx().get(6, 16), Some(corner));
    assert_eq!(dist.dx().get(14, 8), Some(corner));
    for (row, col) in [(5, 8), (6, 7), (15, 16), (14, 17), (5, 12), (10, 17), (0, 0), (19, 19)] {
        assert_eq!(dist.dx().get(row, col), Some(Real(0.0)));
        assert_eq!(dist.dy().get(row, col), Some(Real(0.0)));
        assert_eq!(dist.weight().get(row, col), Some(Real(1.0)));
    }
    let touched = plain(dist.dx().to_vec()).into_iter().filter(|v| *v != 0.0).count();
    assert_eq!(touched, 81);
}

#[test]
fn update_scales_with_the_weight() {
    let mut dist = flat(20, 20);
    dist.update((Real(10.), Real(12.)), (Real(10.5), Real(11.5)), Real(0.25)).unwrap();
    assert_eq!(dist.weight().get(10, 12), Some(Real(1.25)));
    assert_eq!(dist.dx().get(10, 12), Some(Real(0.125)));
    assert_eq!(dist.dy().get(10, 12), Some(Real(-0.125)));
    assert_eq!(dist.get((10, 12)), Ok((Real(10.125), Real(11.875))));
}

#[test]
fn updates_add_up_and_are_never_averaged() {
    let mut dist = flat(20, 20);
    dist.update((Real(10.), Real(10.)), (Real(10.5), Real(10.25)), Real(1.0)).unwrap();
    dist.update((Real(10.), Real(10.)), (Real(10.5), Real(10.25)), Real(1.0)).unwrap();
    assert_eq!(dist.weight().get(10, 10), Some(Real(3.0)));
    assert_eq!(dist.get((10, 10)), Ok((Real(11.0), Real(10.5))));
    dist.update((Real(11.), Real(10.)), (Real(10.), Real(10.)), Real(2.0)).unwrap();
    let gain = (-1f32).exp() * 2.0;
    assert_eq!(dist.weight().get(10, 10), Some(Real(3.0 + gain)));
    assert_eq!(dist.dx().get(10, 10), Some(Real(1.0 + gain * -1.0)));
    assert_eq!(dist.dy().get(10, 10), Some(Real(0.5 + gain * 0.0)));
}

#[test]
fn update_anchors_at_the_nearest_cell() {
    let mut dist = flat(20, 20);
    dist.update((Real(9.6), Real(12.4)), (Real(10.6), Real(12.4)), Real(1.0)).unwrap();
    assert_eq!(dist.weight().get(10, 12), Some(Real(2.0)));
    assert_eq!(dist.dx().get(10, 12), Some(Real(10.6f32 - 9.6)));
    assert_eq!(dist.dy().get(10, 12), Some(Real(0.0)));

    let mut dist = flat(20, 20);
    dist.update((Real(9.5), Real(11.5)), (Real(9.5), Real(11.5)), Real(1.0)).unwrap();
    assert_eq!(dist.weight().get(10, 12), Some(Real(2.0)));
}

#[test]
fn update_at_the_edge_of_what_fits() {
    let mut dist = flat(9, 9);
    assert_eq!(dist.update((Real(4.), Real(4.)), (Real(5.), Real(5.)), Real(1.)), Ok(()));
    assert_eq!(dist.weight().get(4, 4), Some(Real(2.0)));
    assert_eq!(dist.weight().get(0, 0), Some(Real(1.0 + (-32f32).exp())));
    assert_eq!(dist.dx().get(8, 8), Some(Real((-32f32).exp() * 1.0 * 1.0)));

    let mut dist = flat(20, 20);
    assert_eq!(dist.update((Real(15.), Real(4.)), (Real(15.), Real(5.)), Real(1.)), Ok(()));
    assert_eq!(dist.dy().get(19, 0), Some(Real((-32f32).exp() * 1.0 * 1.0)));
}

#[test]
fn rejected_update_changes_nothing() {
    let mut dist = observed();
    let before = bits(&dist);
    let outside: [(f32, f32); 10] = [
        (3., 10.),
        (10., 3.),
        (16., 10.),
        (10., 16.),
        (0., 0.),
        (19., 19.),
        (-1., 10.),
        (10., -5.),
        (20., 10.),
        (1e6, 1e6),
    ];
    for (row, col) in outside {
        let r = dist.update((Real(row), Real(col)), (Real(row + 1.), Real(col + 1.)), Real(1.0));
        assert_eq!(r, Err(FieldError::OutOfBounds));
        assert_eq!(bits(&dist), before);
    }
    assert_eq!(dist.shape(), (20, 20));
}

#[test]
fn update_without_a_nearest_cell_changes_nothing() {
    let mut dist = observed();
    let before = bits(&dist);
    let nowhere: [(f32, f32); 5] = [
        (f32::NAN, 10.),
        (10., f32::NAN),
        (f32::INFINITY, 10.),
        (10., f32::NEG_INFINITY),
        (1e30, 10.),
    ];
    for (row, col) in nowhere {
        let r = dist.update((Real(row), Real(col)), (Real(11.), Real(11.)), Real(1.0));
        assert_eq!(r, Err(FieldError::NumericConversionFailure));
        assert_eq!(bits(&dist), before);
    }
}

#[test]
fn update_in_a_field_too_small_for_a_window() {
    let mut dist = flat(8, 20);
    let before = bits(&dist);
    assert_eq!(
        dist.update((Real(4.), Real(10.)), (Real(5.), Real(10.)), Real(1.)),
        Err(FieldError::OutOfBounds)
    );
    assert_eq!(bits(&dist), before);
    let mut dist = flat(1, 1);
    assert_eq!(
        dist.update((Real(0.), Real(0.)), (Real(0.), Real(0.)), Real(1.)),
        Err(FieldError::OutOfBounds)
    );
}

#[test]
fn reads_are_repeatable() {
    let x = tenths();
    let img = digits();
    let dist = FieldDistortion::new_r(&x, &x).unwrap();
    let first = dist.get((1, 1));
    let sample = dist.apply(&img, (1, 1));
    for _ in 0..5 {
        assert_eq!(dist.get((1, 1)), first);
        assert_eq!(dist.apply(&img, (1, 1)), sample);
        assert_eq!(dist.apply(&img, (2, 2)), Err(FieldError::OutOfBounds));
    }
    assert_eq!(dist.dx().to_vec(), x.to_vec());
    assert_eq!(dist.dy().to_vec(), x.to_vec());
    assert_eq!(plain(dist.weight().to_vec()), vec![1f64; 9]);

    let observed = observed();
    let before = bits(&observed);
    let first = observed.get((11, 13));
    assert_eq!(observed.get((11, 13)), first);
    assert_eq!(bits(&observed), before);
}

#[test]
fn apply_blends_the_four_neighbours() {
    let dx = grid(2, 2, &[0.25f64, 0., 0., 0.]);
    let dy = grid(2, 2, &[0.75f64, 0., 0., 0.]);
    let dist = FieldDistortion::new(dx, dy).unwrap();
    let img = Image::from_shape_vec(2, 2, vec![1, 2, 3, 4]).unwrap();
    assert_eq!(dist.apply(&img, (0, 0)), Ok(Real(2.25)));

    let img = Image::from_shape_vec(2, 2, vec![100, -100, 0, 8]).unwrap();
    assert_eq!(
        dist.apply(&img, (0, 0)),
        Ok(Real(0.75 * 0.25 * 100. + 0.75 * 0.75 * -100. + 0.25 * 0.25 * 0. + 0.25 * 0.75 * 8.))
    );
}

#[test]
fn apply_on_a_whole_coordinate_still_needs_all_four_neighbours() {
    let zero = Grid::filled(3, 3, Real(0f64)).unwrap();
    let dist = FieldDistortion::new_r(&zero, &zero).unwrap();
    let img = digits();
    assert_eq!(dist.apply(&img, (0, 0)), Ok(Real(1.0)));
    assert_eq!(dist.apply(&img, (1, 1)), Ok(Real(5.0)));
    assert_eq!(dist.apply(&img, (2, 1)), Err(FieldError::OutOfBounds));
    assert_eq!(dist.apply(&img, (1, 2)), Err(FieldError::OutOfBounds));
    assert_eq!(dist.apply(&img, (2, 2)), Err(FieldError::OutOfBounds));
}

#[test]
fn apply_takes_an_image_of_another_shape() {
    let x = tenths();
    let dist = FieldDistortion::new_r(&x, &x).unwrap();
    let wide = Image::from_shape_vec(2, 5, vec![0, 10, 20, 30, 40, 50, 60, 70, 80, 90]).unwrap();
    assert_eq!(dist.apply(&wide, (0, 2)), Ok(Real(0.7 * 0.7 * 20. + 0.7 * 0.3 * 30. + 0.3 * 0.7 * 70. + 0.3 * 0.3 * 80.)));
    assert_eq!(dist.apply(&wide, (1, 1)), Err(FieldError::OutOfBounds));
    let small = Image::from_shape_vec(1, 1, vec![2]).unwrap();
    assert_eq!(dist.apply(&small, (0, 0)), Err(FieldError::OutOfBounds));
    let none = Image::from_shape_vec(0, 0, vec![]).unwrap();
    assert_eq!(dist.apply(&none, (0, 0)), Err(FieldError::OutOfBounds));
}

#[test]
fn apply_before_the_origin_is_out_of_bounds() {
    let dx = grid(2, 2, &[-0.5f64, 0., 0., 0.]);
    let dy = grid(2, 2, &[0f64, -1.5, 0., 0.]);
    let dist = FieldDistortion::new(dx, dy).unwrap();
    let img = digits();
    assert_eq!(dist.get((0, 0)), Ok((Real(-0.5), Real(0.))));
    assert_eq!(dist.apply(&img, (0, 0)), Err(FieldError::OutOfBounds));
    assert_eq!(dist.apply(&img, (0, 1)), Err(FieldError::OutOfBounds));
    assert_eq!(dist.apply(&img, (1, 1)), Ok(Real(5.0)));
}

#[test]
fn apply_without_a_floor_is_a_conversion_failure() {
    let dx = grid(2, 2, &[f64::NAN, f64::INFINITY, 0., 1e300]);
    let dy = grid(2, 2, &[0f64, 0., f64::NAN, 0.]);
    let dist = FieldDistortion::new(dx, dy).unwrap();
    let img = digits();
    assert_eq!(dist.apply(&img, (0, 0)), Err(FieldError::NumericConversionFailure));
    assert_eq!(dist.apply(&img, (0, 1)), Err(FieldError::NumericConversionFailure));
    assert_eq!(dist.apply(&img, (1, 0)), Err(FieldError::NumericConversionFailure));
    assert_eq!(dist.apply(&img, (1, 1)), Err(FieldError::NumericConversionFailure));
    assert_eq!(dist.apply(&img, (2, 0)), Err(FieldError::OutOfBounds));
}

#[test]
fn sample_reads_the_image_at_a_coordinate() {
    let img = digits();
    assert_eq!(sample(&img, (Real(1.5f32), Real(1.5f32))), Ok(Real(7.0)));
    assert_eq!(sample(&img, (Real(0f32), Real(1f32))), Ok(Real(2.0)));
    assert_eq!(sample(&img, (Real(1f32), Real(0.5f32))), Ok(Real(4.5)));
    assert_eq!(sample(&img, (Real(0.5f32), Real(1f32))), Ok(Real(3.5)));
    assert_eq!(sample(&img, (Real(1.5f32), Real(2f32))), Err(FieldError::OutOfBounds));
    assert_eq!(sample(&img, (Real(-0.5f32), Real(1f32))), Err(FieldError::OutOfBounds));
    assert_eq!(sample(&img, (Real(f32::NAN), Real(1f32))), Err(FieldError::NumericConversionFailure));
    assert_eq!(sample(&img, (Real(f32::NAN), Real(-1f32))), Err(FieldError::NumericConversionFailure));
}

#[test]
fn bilinear_weighs_each_pixel_by_its_nearness() {
    assert_eq!(bilinear(Real(0.5f64), Real(0.5), 5, 6, 8, 9), Real(7.0));
    assert_eq!(bilinear(Real(0f64), Real(0.), 5, 6, 8, 9), Real(5.0));
    assert_eq!(bilinear(Real(0f64), Real(1.), 5, 6, 8, 9), Real(6.0));
    assert_eq!(bilinear(Real(1f64), Real(0.), 5, 6, 8, 9), Real(8.0));
    assert_eq!(bilinear(Real(1f64), Real(1.), 5, 6, 8, 9), Real(9.0));
    assert_eq!(bilinear(Real(0.25f64), Real(0.75), 1, 2, 3, 4), Real(2.25));
}

#[test]
fn stencil_is_the_gaussian_of_the_squared_distance() {
    let k = stencil::<Real<f32>>();
    assert_eq!((k.rows(), k.cols()), (9, 9));
    for i in 0..9usize {
        for j in 0..9usize {
            let di = i as i32 - 4;
            let dj = j as i32 - 4;
            let expected = f32::exp(-(di.pow(2) + dj.pow(2)) as f32);
            assert_eq!(k.get(i, j), Some(Real(expected)));
        }
    }
    assert_eq!(k.get(4, 4), Some(Real(1.0)));
    assert_eq!(k.get(9, 0), None);
}

#[test]
fn scaled_multiplies_every_cell() {
    let g = grid(2, 2, &[1f32, 2., 3., 4.]).scaled(Real(0.5));
    assert_eq!((g.rows(), g.cols()), (2, 2));
    assert_eq!(plain(g.to_vec()), vec![0.5, 1., 1.5, 2.]);
}

#[test]
fn add_window_adds_a_stencil_in_place() {
    let mut g = Grid::filled(3, 4, Real(1f32)).unwrap();
    let s = grid(2, 2, &[10f32, 20., 30., 40.]);
    assert_eq!(g.add_window(1, 2, &s), Ok(()));
    assert_eq!(plain(g.to_vec()), vec![1., 1., 1., 1., 1., 1., 11., 21., 1., 1., 31., 41.]);
    assert_eq!(g.add_window(0, 0, &s), Ok(()));
    assert_eq!(plain(g.to_vec()), vec![11., 21., 1., 1., 31., 41., 11., 21., 1., 1., 31., 41.]);
}

#[test]
fn add_window_that_does_not_fit_changes_nothing() {
    let mut g = Grid::filled(3, 4, Real(1f32)).unwrap();
    let s = grid(2, 2, &[10f32, 20., 30., 40.]);
    assert_eq!(g.add_window(2, 0, &s), Err(FieldError::OutOfBounds));
    assert_eq!(g.add_window(0, 3, &s), Err(FieldError::OutOfBounds));
    assert_eq!(g.add_window(usize::MAX, 0, &s), Err(FieldError::OutOfBounds));
    assert_eq!(g.add_window(0, usize::MAX, &s), Err(FieldError::OutOfBounds));
    assert_eq!(plain(g.to_vec()), vec![1f32; 12]);
}
