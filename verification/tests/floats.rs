use dense_tensor::error::TensorError;
use dense_tensor::scalar::Scalar;
use dense_tensor::tensors::Tensor;
use rand::Rng;

/// Double-precision elements, as an application would supply them.
#[derive(Clone, Copy, Debug, PartialEq)]
struct Real(f64);

impl Scalar for Real {
    fn zero() -> Real {
        Real(0.0)
    }

    fn from_index(i: usize) -> Real {
        Real(i as f64)
    }

    fn plus(self, rhs: Real) -> Real {
        Real(self.0 + rhs.0)
    }

    fn minus(self, rhs: Real) -> Real {
        Real(self.0 - rhs.0)
    }

    fn times(self, rhs: Real) -> Real {
        Real(self.0 * rhs.0)
    }

    fn over(self, rhs: Real) -> Real {
        Real(self.0 / rhs.0)
    }

    fn text(self) -> String {
        ((self.0 * 1000.0).round() / 1000.0).to_string()
    }
}

fn reals(values: &[f64]) -> Vec<Real> {
    values.iter().map(|v| Real(*v)).collect()
}

fn tensor(values: &[f64], dim: &[usize]) -> Tensor<Real> {
    Tensor::new(&reals(values), dim).unwrap()
}

fn close(a: &Tensor<Real>, b: &Tensor<Real>) -> bool {
    a.dim() == b.dim()
        && a.elems().len() == b.elems().len()
        && a.elems().iter().zip(b.elems().iter()).all(|(x, y)| {
            (x.0 - y.0).abs() <= 1e-9 * x.0.abs().max(y.0.abs())
        })
}

#[test]
fn new_keeps_elements_and_shape() {
    let t = tensor(&[1.0, 2.0, 3.0, 4.0, 5.0, 6.0], &[2, 3]);
    assert_eq!(t.dim(), &vec![2, 3]);
    assert_eq!(t.elems(), &reals(&[1.0, 2.0, 3.0, 4.0, 5.0, 6.0]));
    assert_eq!(t.n_elems(), 6);
}

#[test]
fn new_copies_its_arguments() {
    let mut values = reals(&[1.0, 2.0]);
    let t = Tensor::new(&values, &[2]).unwrap();
    values[0] = Real(9.0);
    assert_eq!(t.elems(), &reals(&[1.0, 2.0]));
}

#[test]
fn new_refuses_too_few_elements() {
    let r = Tensor::new(&reals(&[1.0, 2.0, 3.0]), &[2, 2]);
    assert_eq!(r, Err(TensorError::ShapeMismatch));
}

#[test]
fn new_refuses_too_many_elements() {
    let r = Tensor::new(&reals(&[1.0, 2.0, 3.0, 4.0, 5.0]), &[2, 2]);
    assert_eq!(r, Err(TensorError::ShapeMismatch));
}

#[test]
fn reshape_and_back_keeps_everything() {
    let mut t = tensor(&[1.0, 2.0, 3.0, 4.0, 5.0, 6.0], &[2, 3]);
    assert_eq!(t.reshape(&[3, 2]), Ok(()));
    assert_eq!(t.dim(), &vec![3, 2]);
    assert_eq!(t.elems(), &reals(&[1.0, 2.0, 3.0, 4.0, 5.0, 6.0]));
    assert_eq!(t.reshape(&[6]), Ok(()));
    assert_eq!(t.reshape(&[2, 3]), Ok(()));
    assert_eq!(t, tensor(&[1.0, 2.0, 3.0, 4.0, 5.0, 6.0], &[2, 3]));
}

#[test]
fn reshape_to_another_size_fails_and_changes_nothing() {
    let mut t = tensor(&[1.0, 2.0, 3.0, 4.0, 5.0, 6.0], &[2, 3]);
    assert_eq!(t.reshape(&[4, 2]), Err(TensorError::ShapeMismatch));
    assert_eq!(t.reshape(&[5]), Err(TensorError::ShapeMismatch));
    assert_eq!(t.reshape(&[]), Err(TensorError::ShapeMismatch));
    assert_eq!(t, tensor(&[1.0, 2.0, 3.0, 4.0, 5.0, 6.0], &[2, 3]));
}

#[test]
fn transpose_of_a_square_matrix() {
    let t = tensor(&[1.0, 2.0, 3.0, 4.0], &[2, 2]);
    assert_eq!(t.T(), Ok(tensor(&[1.0, 3.0, 2.0, 4.0], &[2, 2])));
}

#[test]
fn transpose_of_a_wide_matrix() {
    let t = tensor(&[1.0, 2.0, 3.0, 4.0, 5.0, 6.0], &[2, 3]);
    assert_eq!(t.T(), Ok(tensor(&[1.0, 4.0, 2.0, 5.0, 3.0, 6.0], &[3, 2])));
}

#[test]
fn transpose_leaves_its_operand_alone() {
    let t = tensor(&[1.0, 2.0, 3.0, 4.0, 5.0, 6.0], &[2, 3]);
    let _ = t.T().unwrap();
    assert_eq!(t, tensor(&[1.0, 2.0, 3.0, 4.0, 5.0, 6.0], &[2, 3]));
}

#[test]
fn transpose_twice_is_the_identity() {
    let t = tensor(&[1.0, 2.0, 3.0, 4.0, 5.0, 6.0, 7.0, 8.0], &[2, 4]);
    assert_eq!(t.T().unwrap().T(), Ok(tensor(&[1.0, 2.0, 3.0, 4.0, 5.0, 6.0, 7.0, 8.0], &[2, 4])));
}

#[test]
fn transpose_refuses_other_ranks() {
    assert_eq!(tensor(&[1.0, 2.0], &[2]).T(), Err(TensorError::UnsupportedRank));
    assert_eq!(tensor(&[1.0, 2.0], &[1, 2, 1]).T(), Err(TensorError::UnsupportedRank));
    assert_eq!(tensor(&[1.0], &[]).T(), Err(TensorError::UnsupportedRank));
}

#[test]
fn linspace_from_zero_to_ten() {
    let t = Tensor::linspace(Real(0.0), Real(10.0), 11).unwrap();
    assert_eq!(t.dim(), &vec![1, 11]);
    assert_eq!(
        t.elems(),
        &reals(&[0.0, 1.0, 2.0, 3.0, 4.0, 5.0, 6.0, 7.0, 8.0, 9.0, 10.0])
    );
}

#[test]
fn linspace_with_a_fractional_step() {
    let t = Tensor::linspace(Real(1.0), Real(2.0), 5).unwrap();
    assert_eq!(t.elems(), &reals(&[1.0, 1.25, 1.5, 1.75, 2.0]));
}

#[test]
fn linspace_downwards() {
    let t = Tensor::linspace(Real(3.0), Real(-3.0), 4).unwrap();
    assert_eq!(t.elems(), &reals(&[3.0, 1.0, -1.0, -3.0]));
}

#[test]
fn linspace_needs_two_points() {
    assert_eq!(Tensor::linspace(Real(0.0), Real(1.0), 0), Err(TensorError::InvalidArgument));
    assert_eq!(Tensor::linspace(Real(0.0), Real(1.0), 1), Err(TensorError::InvalidArgument));
    let two = Tensor::linspace(Real(0.0), Real(1.0), 2).unwrap();
    assert_eq!(two.elems(), &reals(&[0.0, 1.0]));
}

#[test]
fn rand_spreads_the_draws_over_the_interval() {
    let t = Tensor::rand(Real(2.0), Real(6.0), &reals(&[0.0, 0.5, 0.25, 0.75]));
    assert_eq!(t.dim(), &vec![1, 4]);
    assert_eq!(t.elems(), &reals(&[2.0, 4.0, 3.0, 5.0]));
}

#[test]
fn rand_stays_inside_the_interval() {
    let draws = reals(&[0.0, 0.1, 0.37, 0.5, 0.999999, 0.75]);
    let t = Tensor::rand(Real(-3.0), Real(5.0), &draws);
    assert_eq!(t.n_elems(), 6);
    for x in t.elems() {
        assert!(-3.0 <= x.0 && x.0 < 5.0);
    }
}

#[test]
fn rand_with_drawn_numbers_stays_inside_the_interval() {
    let mut rng = rand::thread_rng();
    let mut draws = Vec::new();
    for _ in 0..1000 {
        let r: f64 = rng.gen();
        draws.push(Real(r));
    }
    let t = Tensor::rand(Real(-2.0), Real(3.0), &draws);
    assert_eq!(t.dim(), &vec![1, 1000]);
    for (x, r) in t.elems().iter().zip(draws.iter()) {
        assert_eq!(x.0, -2.0 + r.0 * 5.0);
        assert!(-2.0 <= x.0 && x.0 < 3.0);
    }
}

#[test]
fn rand_without_draws_is_empty() {
    let t = Tensor::rand(Real(0.0), Real(1.0), &[]);
    assert_eq!(t.dim(), &vec![1, 0]);
    assert_eq!(t.n_elems(), 0);
}

#[test]
fn add_is_elementwise() {
    let a = tensor(&[1.0, 2.0, 3.0, 4.0], &[2, 2]);
    let b = tensor(&[0.5, 0.25, -3.0, 10.0], &[2, 2]);
    let c = a.add(&b).unwrap();
    assert_eq!(c.dim(), &vec![2, 2]);
    for i in 0..4 {
        assert_eq!(c.elems()[i].0, a.elems()[i].0 + b.elems()[i].0);
    }
    assert_eq!(c, tensor(&[1.5, 2.25, 0.0, 14.0], &[2, 2]));
}

#[test]
fn sub_is_elementwise() {
    let a = tensor(&[1.0, 2.0, 3.0, 4.0], &[4]);
    let b = tensor(&[0.5, 0.25, -3.0, 10.0], &[4]);
    assert_eq!(a.sub(&b), Ok(tensor(&[0.5, 1.75, 6.0, -6.0], &[4])));
}

#[test]
fn add_and_sub_refuse_other_shapes() {
    let a = tensor(&[1.0, 2.0, 3.0, 4.0], &[2, 2]);
    let b = tensor(&[1.0, 2.0, 3.0, 4.0], &[4]);
    let c = tensor(&[1.0, 2.0, 3.0, 4.0], &[1, 4]);
    let d = tensor(&[1.0, 2.0], &[2]);
    assert_eq!(a.add(&b), Err(TensorError::ShapeMismatch));
    assert_eq!(a.sub(&b), Err(TensorError::ShapeMismatch));
    assert_eq!(b.add(&c), Err(TensorError::ShapeMismatch));
    assert_eq!(b.sub(&d), Err(TensorError::ShapeMismatch));
}

#[test]
fn operands_are_not_changed() {
    let a = tensor(&[1.0, 2.0, 3.0, 4.0], &[2, 2]);
    let b = tensor(&[5.0, 6.0, 7.0, 8.0], &[2, 2]);
    let _ = a.add(&b).unwrap();
    let _ = a.sub(&b).unwrap();
    let _ = a.mul(&b).unwrap();
    let _ = a.mul_scalar(Real(3.0));
    assert_eq!(a, tensor(&[1.0, 2.0, 3.0, 4.0], &[2, 2]));
    assert_eq!(b, tensor(&[5.0, 6.0, 7.0, 8.0], &[2, 2]));
}

#[test]
fn scalar_arithmetic_keeps_the_shape() {
    let a = tensor(&[1.0, 2.0, 3.0, 4.0, 5.0, 6.0], &[3, 2]);
    assert_eq!(a.add_scalar(Real(0.5)), tensor(&[1.5, 2.5, 3.5, 4.5, 5.5, 6.5], &[3, 2]));
    assert_eq!(a.sub_scalar(Real(1.0)), tensor(&[0.0, 1.0, 2.0, 3.0, 4.0, 5.0], &[3, 2]));
    assert_eq!(a.mul_scalar(Real(-2.0)), tensor(&[-2.0, -4.0, -6.0, -8.0, -10.0, -12.0], &[3, 2]));
}

#[test]
fn multiplying_by_the_identity_gives_the_matrix() {
    let a = tensor(&[1.0, 2.0, 3.0, 4.0], &[2, 2]);
    let one = tensor(&[1.0, 0.0, 0.0, 1.0], &[2, 2]);
    assert_eq!(a.mul(&one), Ok(tensor(&[1.0, 2.0, 3.0, 4.0], &[2, 2])));
    assert_eq!(one.mul(&a), Ok(tensor(&[1.0, 2.0, 3.0, 4.0], &[2, 2])));
}

#[test]
fn product_of_two_square_matrices() {
    let a = tensor(&[1.0, 2.0, 3.0, 4.0], &[2, 2]);
    let b = tensor(&[5.0, 6.0, 7.0, 8.0], &[2, 2]);
    assert_eq!(a.mul(&b), Ok(tensor(&[19.0, 22.0, 43.0, 50.0], &[2, 2])));
}

#[test]
fn product_of_matrices_that_are_not_square() {
    let a = tensor(&[1.0, 2.0, 3.0, 4.0, 5.0, 6.0], &[2, 3]);
    let b = tensor(
        &[1.0, 0.0, 2.0, -1.0, 0.0, 1.0, 3.0, 2.0, 4.0, 0.0, 0.5, 1.0],
        &[3, 4],
    );
    assert_eq!(
        a.mul(&b),
        Ok(tensor(&[13.0, 2.0, 9.5, 6.0, 28.0, 5.0, 26.0, 12.0], &[2, 4]))
    );
}

#[test]
fn product_of_a_row_and_a_column() {
    let row = tensor(&[1.0, 2.0, 3.0], &[1, 3]);
    let col = tensor(&[4.0, 5.0, 6.0], &[3, 1]);
    assert_eq!(row.mul(&col), Ok(tensor(&[32.0], &[1, 1])));
    assert_eq!(
        col.mul(&row),
        Ok(tensor(&[4.0, 8.0, 12.0, 5.0, 10.0, 15.0, 6.0, 12.0, 18.0], &[3, 3]))
    );
}

#[test]
fn product_adds_up_in_increasing_order() {
    // In double precision (1e16 + 1) - 1e16 is 0, and (1e16 - 1e16) + 1 is 1.
    let a = tensor(&[1e16, 1.0, -1e16], &[1, 3]);
    let b = tensor(&[1.0, 1.0, 1.0], &[3, 1]);
    assert_eq!(a.mul(&b), Ok(tensor(&[0.0], &[1, 1])));
    let c = tensor(&[1e16, -1e16, 1.0], &[1, 3]);
    assert_eq!(c.mul(&b), Ok(tensor(&[1.0], &[1, 1])));
}

#[test]
fn product_over_an_empty_inner_dimension_is_zero() {
    let a = tensor(&[], &[2, 0]);
    let b = tensor(&[], &[0, 3]);
    assert_eq!(a.mul(&b), Ok(tensor(&[0.0, 0.0, 0.0, 0.0, 0.0, 0.0], &[2, 3])));
}

#[test]
fn product_refuses_inner_dimensions_that_differ() {
    let a = tensor(&[1.0, 2.0, 3.0, 4.0, 5.0, 6.0], &[2, 3]);
    let b = tensor(&[1.0, 2.0, 3.0, 4.0, 5.0, 6.0], &[2, 3]);
    assert_eq!(a.mul(&b), Err(TensorError::ShapeMismatch));
}

#[test]
fn product_refuses_other_ranks() {
    let m = tensor(&[1.0, 2.0, 3.0, 4.0], &[2, 2]);
    let v = tensor(&[1.0, 2.0], &[2]);
    let cube = tensor(&[1.0, 2.0, 3.0, 4.0], &[2, 2, 1]);
    assert_eq!(m.mul(&v), Err(TensorError::UnsupportedRank));
    assert_eq!(v.mul(&m), Err(TensorError::UnsupportedRank));
    assert_eq!(cube.mul(&m), Err(TensorError::UnsupportedRank));
    assert_eq!(m.mul(&cube), Err(TensorError::UnsupportedRank));
}

#[test]
fn product_is_associative_within_tolerance() {
    let a = tensor(&[0.1, 0.2, 0.3, 0.4, 0.5, 0.6], &[2, 3]);
    let b = tensor(
        &[1.1, 1.2, 1.3, 1.4, 1.5, 1.6, 1.7, 1.8, 1.9, 2.0, 2.1, 2.2],
        &[3, 4],
    );
    let c = tensor(&[0.7, 0.3, 0.9, 0.1, 0.2, 0.8, 0.6, 0.4], &[4, 2]);
    let left = a.mul(&b).unwrap().mul(&c).unwrap();
    let right = a.mul(&b.mul(&c).unwrap()).unwrap();
    assert_eq!(left.dim(), &vec![2, 2]);
    assert!(close(&left, &right));
}

#[test]
fn product_distributes_over_sums_within_tolerance() {
    let a = tensor(&[0.1, 0.2, 0.3, 0.4, 0.5, 0.6], &[2, 3]);
    let b = tensor(&[1.1, 1.2, 1.3, 1.4, 1.5, 1.6], &[3, 2]);
    let c = tensor(&[0.7, 0.3, 0.9, 0.1, 0.2, 0.8], &[3, 2]);
    let left = a.mul(&b.add(&c).unwrap()).unwrap();
    let right = a.mul(&b).unwrap().add(&a.mul(&c).unwrap()).unwrap();
    assert!(close(&left, &right));
    let d = tensor(&[2.0, 0.5, 1.5, 0.25], &[2, 2]);
    let e = tensor(&[0.3, 0.6, 0.9, 1.2], &[2, 2]);
    let left = d.add(&e).unwrap().mul(&a).unwrap();
    let right = d.mul(&a).unwrap().add(&e.mul(&a).unwrap()).unwrap();
    assert!(close(&left, &right));
}

#[test]
fn render_rounds_to_three_places() {
    let t = tensor(&[1.0, 2.5, 0.12345, -4.0006], &[2, 2]);
    assert_eq!(t.render(), Ok(String::from(" [1, 2.5]\n [0.123, -4.001]\n")));
}

#[test]
fn render_refuses_other_ranks() {
    assert_eq!(tensor(&[1.0, 2.0], &[2]).render(), Err(TensorError::UnsupportedRank));
    assert_eq!(tensor(&[1.0, 2.0], &[2, 1, 1]).render(), Err(TensorError::UnsupportedRank));
}
