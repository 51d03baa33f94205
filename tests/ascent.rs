use mypca::{
    deflate, dot, extract_components, find_direction, gradient, norm, normalize, project,
    projected_variance, sample_variance, Matrix, PcaError, Real, Stop, TOO_MANY_COMPONENTS,
};

#[derive(Clone, Copy, Debug, PartialEq)]
struct F(f64);

impl Real for F {
    fn spec_zero() -> Self {
        F(0.0)
    }
    fn spec_from_count(n: usize) -> Self {
        F(n as f64)
    }
    fn spec_plus(self, o: Self) -> Self {
        F(self.0 + o.0)
    }
    fn spec_minus(self, o: Self) -> Self {
        F(self.0 - o.0)
    }
    fn spec_times(self, o: Self) -> Self {
        F(self.0 * o.0)
    }
    fn spec_over(self, o: Self) -> Self {
        F(self.0 / o.0)
    }
    fn spec_root(self) -> Self {
        F(self.0.sqrt())
    }
    fn spec_below(self, o: Self) -> bool {
        self.0 < o.0
    }
    fn zero() -> Self {
        Self::spec_zero()
    }
    fn from_count(n: usize) -> Self {
        Self::spec_from_count(n)
    }
    fn plus(self, o: Self) -> Self {
        self.spec_plus(o)
    }
    fn minus(self, o: Self) -> Self {
        self.spec_minus(o)
    }
    fn times(self, o: Self) -> Self {
        self.spec_times(o)
    }
    fn over(self, o: Self) -> Self {
        self.spec_over(o)
    }
    fn root(self) -> Self {
        self.spec_root()
    }
    fn below(self, o: Self) -> bool {
        self.spec_below(o)
    }
}

fn fv(xs: &[f64]) -> Vec<F> {
    xs.iter().map(|&x| F(x)).collect()
}

fn raw(xs: &[F]) -> Vec<f64> {
    xs.iter().map(|x| x.0).collect()
}

fn matrix(nrows: usize, ncols: usize, xs: &[f64]) -> Matrix<F> {
    Matrix::from_row_major(nrows, ncols, fv(xs)).unwrap()
}

/// A small deterministic source of standard normal draws.
struct Gauss {
    state: u64,
}

impl Gauss {
    fn uniform(&mut self) -> f64 {
        self.state ^= self.state << 13;
        self.state ^= self.state >> 7;
        self.state ^= self.state << 17;
        ((self.state >> 11) as f64 + 0.5) / (1u64 << 53) as f64
    }
    fn normal(&mut self) -> f64 {
        let a = self.uniform();
        let b = self.uniform();
        (-2.0 * a.ln()).sqrt() * (2.0 * std::f64::consts::PI * b).cos()
    }
}

fn close(a: f64, b: f64, tol: f64) -> bool {
    (a - b).abs() <= tol
}

#[test]
fn matrix_from_row_major_reads_rows() {
    let m = matrix(2, 3, &[1.0, 2.0, 3.0, 4.0, 5.0, 6.0]);
    assert_eq!(m.nrows(), 2);
    assert_eq!(m.ncols(), 3);
    assert_eq!(m.get(0, 2), F(3.0));
    assert_eq!(m.get(1, 0), F(4.0));
}

#[test]
fn matrix_from_row_major_rejects_wrong_length() {
    assert!(Matrix::from_row_major(2, 3, fv(&[1.0, 2.0, 3.0])).is_none());
    assert!(Matrix::from_row_major(usize::MAX, 2, fv(&[1.0])).is_none());
    assert!(Matrix::from_row_major(0, 5, Vec::<F>::new()).is_some());
}

#[test]
fn matrix_from_columns_places_columns() {
    let m = Matrix::from_columns(2, &vec![fv(&[1.0, 2.0]), fv(&[3.0, 4.0]), fv(&[5.0, 6.0])]);
    assert_eq!(m.nrows(), 2);
    assert_eq!(m.ncols(), 3);
    assert_eq!(m.get(0, 1), F(3.0));
    assert_eq!(m.get(1, 2), F(6.0));
}

#[test]
fn matrix_set_changes_one_entry() {
    let mut m = matrix(2, 2, &[1.0, 2.0, 3.0, 4.0]);
    m.set(1, 0, F(9.0));
    assert_eq!(m.get(1, 0), F(9.0));
    assert_eq!(m.get(0, 0), F(1.0));
    assert_eq!(m.get(0, 1), F(2.0));
    assert_eq!(m.get(1, 1), F(4.0));
    let copy = m.duplicate();
    m.set(0, 0, F(7.0));
    assert_eq!(copy.get(0, 0), F(1.0));
}

#[test]
fn dot_and_norm_values() {
    assert_eq!(dot(&fv(&[1.0, 2.0, 3.0]), &fv(&[4.0, 5.0, 6.0])), F(32.0));
    assert_eq!(norm(&fv(&[3.0, 4.0])), F(5.0));
    assert_eq!(norm(&Vec::<F>::new()), F(0.0));
}

#[test]
fn normalize_gives_unit_norm() {
    for v in [vec![3.0, 4.0], vec![-1.0, 0.5, 2.0], vec![1e-3, -7.0, 2.5, 0.25]] {
        let u = normalize(&fv(&v)).unwrap();
        assert_eq!(u.len(), v.len());
        assert!(close(norm(&u).0, 1.0, 1e-9));
    }
    assert_eq!(raw(&normalize(&fv(&[3.0, 4.0])).unwrap()), vec![0.6, 0.8]);
}

#[test]
fn normalize_refuses_zero_vector() {
    assert!(normalize(&fv(&[0.0, 0.0])).is_none());
}

#[test]
fn project_takes_inner_product_with_each_column() {
    let m = matrix(2, 3, &[1.0, 2.0, 3.0, 4.0, 5.0, 6.0]);
    assert_eq!(raw(&project(&m, &fv(&[1.0, 0.0]))), vec![1.0, 2.0, 3.0]);
    assert_eq!(raw(&project(&m, &fv(&[1.0, 1.0]))), vec![5.0, 7.0, 9.0]);
}

#[test]
fn sample_variance_uses_bessel_correction() {
    let v = sample_variance(&fv(&[1.0, 2.0, 3.0, 4.0])).0;
    assert!(close(v, 5.0 / 3.0, 1e-12));
    assert_eq!(sample_variance(&fv(&[2.0, 2.0, 2.0])), F(0.0));
}

#[test]
fn projected_variance_of_axis() {
    let m = matrix(2, 3, &[1.0, 2.0, 3.0, 0.0, 0.0, 0.0]);
    assert!(close(projected_variance(&m, &fv(&[1.0, 0.0])).0, 1.0, 1e-12));
    assert!(close(projected_variance(&m, &fv(&[0.0, 1.0])).0, 0.0, 1e-12));
}

#[test]
fn gradient_is_forward_difference() {
    // Covariance diag(2, 0): the objective is 2 * d0^2 along the first axis.
    let m = matrix(2, 2, &[1.0, -1.0, 0.0, 0.0]);
    let eps = 1e-6;
    let g = raw(&gradient(&m, &fv(&[1.0, 0.0]), F(eps)));
    assert_eq!(g.len(), 2);
    assert!(close(g[0], 4.0 + 2.0 * eps, 1e-5));
    assert!(close(g[1], 0.0, 1e-9));
}

#[test]
fn find_direction_without_steps_normalizes_start() {
    let m = matrix(2, 2, &[1.0, -1.0, 0.0, 0.0]);
    let d = find_direction(&m, &fv(&[3.0, 4.0]), F(1e-6), F(1e-8), 0);
    assert_eq!(d.steps, 0);
    assert_eq!(d.stop, Stop::Exhausted);
    assert_eq!(raw(&d.vector), vec![0.6, 0.8]);
}

#[test]
fn find_direction_zero_start_is_degenerate() {
    let m = matrix(2, 2, &[1.0, -1.0, 0.0, 0.0]);
    let d = find_direction(&m, &fv(&[0.0, 0.0]), F(1e-6), F(1e-8), 10);
    assert_eq!(d.steps, 0);
    assert_eq!(d.stop, Stop::Degenerate);
    assert_eq!(raw(&d.vector), vec![0.0, 0.0]);
}

fn dominant_axis_matrix(n: usize) -> Matrix<F> {
    let mut g = Gauss { state: 0x2545_f491_4f6c_dd1d };
    let mut data = Vec::new();
    for _ in 0..n {
        data.push(g.normal() + 1e-3 * g.normal());
    }
    for _ in 0..n {
        data.push(1e-3 * g.normal() + 1e-3 * g.normal());
    }
    matrix(2, n, &data)
}

#[test]
fn find_direction_reaches_dominant_axis() {
    let m = dominant_axis_matrix(200);
    let d = find_direction(&m, &fv(&[0.3, -0.9]), F(1e-6), F(1e-10), 1000);
    let v = raw(&d.vector);
    assert!(close(norm(&d.vector).0, 1.0, 1e-9));
    assert!(v[0].abs() > 0.9999, "direction {:?}", v);
    assert!(d.steps <= 1000);
}

#[test]
fn find_direction_is_deterministic_for_a_fixed_start() {
    let m = dominant_axis_matrix(50);
    let start = fv(&[-0.2, 0.7]);
    let a = find_direction(&m, &start, F(1e-6), F(1e-8), 300);
    let b = find_direction(&m, &start, F(1e-6), F(1e-8), 300);
    assert_eq!(raw(&a.vector), raw(&b.vector));
    assert_eq!(a.steps, b.steps);
    assert_eq!(a.stop, b.stop);
}

#[test]
fn find_direction_keeps_unit_norm_at_every_cap() {
    let m = matrix(3, 4, &[1.0, 2.0, 0.5, -1.0, 0.0, 1.0, 3.0, 2.0, -2.0, 0.5, 1.0, 0.0]);
    for cap in 0..20 {
        let d = find_direction(&m, &fv(&[0.1, 0.2, 0.3]), F(1e-7), F(0.0), cap);
        assert!(close(norm(&d.vector).0, 1.0, 1e-9));
        assert_eq!(d.steps, cap);
        assert_eq!(d.stop, Stop::Exhausted);
    }
}

#[test]
fn deflation_reduces_projected_variance() {
    let m = matrix(3, 5, &[
        2.0, -1.0, 0.5, 3.0, -2.0, 1.0, 0.0, 1.5, -0.5, 2.0, 0.3, 0.2, -0.1, 0.9, -1.2,
    ]);
    let d = find_direction(&m, &fv(&[0.5, 0.5, 0.5]), F(1e-7), F(1e-10), 1000);
    let before = projected_variance(&m, &d.vector).0;
    let mut w = m.duplicate();
    deflate(&mut w, &d.vector);
    let after = projected_variance(&w, &d.vector).0;
    assert_eq!(w.nrows(), 3);
    assert_eq!(w.ncols(), 5);
    assert!(after < before);
    assert!(after < 1e-9, "after {}", after);
}

#[test]
fn deflate_removes_rank_one_part() {
    let mut m = matrix(2, 2, &[1.0, 2.0, 3.0, 4.0]);
    deflate(&mut m, &fv(&[1.0, 0.0]));
    assert_eq!(m.get(0, 0), F(0.0));
    assert_eq!(m.get(0, 1), F(0.0));
    assert_eq!(m.get(1, 0), F(3.0));
    assert_eq!(m.get(1, 1), F(4.0));
}

fn starts(k: usize, f: usize) -> Vec<Vec<F>> {
    (0..k).map(|r| (0..f).map(|i| F(((r * 7 + i * 3) % 5) as f64 - 1.7)).collect()).collect()
}

#[test]
fn extract_components_shape() {
    let m = matrix(3, 4, &[1.0, 2.0, 0.5, -1.0, 0.0, 1.0, 3.0, 2.0, -2.0, 0.5, 1.0, 0.0]);
    for k in 0..=3 {
        let c = extract_components(&m, k, F(1e-6), F(1e-8), 200, &starts(k, 3)).unwrap();
        assert_eq!(c.nrows(), 4);
        assert_eq!(c.ncols(), k);
    }
    assert_eq!(m.get(0, 0), F(1.0));
}

#[test]
fn extract_components_rejects_too_many() {
    let m = matrix(2, 3, &[1.0, 2.0, 3.0, 4.0, 5.0, 6.0]);
    let r = extract_components(&m, 3, F(1e-6), F(1e-8), 100, &Vec::new());
    assert_eq!(r.err(), Some(PcaError::InvalidConfiguration { k: 3, features: 2 }));
    let e = PcaError::InvalidConfiguration { k: 3, features: 2 };
    assert_eq!(e.message(), TOO_MANY_COMPONENTS);
    assert!(e.message().contains("greater than number of features"));
}

#[test]
fn extract_components_first_column_is_projection_onto_found_direction() {
    let m = matrix(2, 3, &[1.0, 2.0, 3.0, 0.5, 0.0, -0.5]);
    let start = fv(&[0.4, 0.6]);
    let c = extract_components(&m, 1, F(1e-6), F(1e-9), 500, &vec![start.clone()]).unwrap();
    let d = find_direction(&m, &start, F(1e-6), F(1e-9), 500);
    let p = project(&m, &d.vector);
    for j in 0..3 {
        assert_eq!(c.get(j, 0), p[j]);
    }
}

#[test]
fn extract_components_recovers_dominant_signal() {
    let mut g = Gauss { state: 0x9e37_79b9_7f4a_7c15 };
    let n = 100;
    let u: Vec<f64> = (0..n).map(|_| g.normal()).collect();
    let mut data = Vec::new();
    for &x in &u {
        data.push(3.0 * x + 0.05 * g.normal());
    }
    for _ in 0..2 * n {
        data.push(0.05 * g.normal());
    }
    let m = matrix(3, n, &data);
    let c = extract_components(&m, 1, F(1e-6), F(1e-8), 1000, &vec![fv(&[0.2, -0.5, 0.8])])
        .unwrap();
    assert_eq!(c.nrows(), n);
    assert_eq!(c.ncols(), 1);
    let comp: Vec<f64> = (0..n).map(|j| c.get(j, 0).0).collect();
    let mean = |v: &[f64]| v.iter().sum::<f64>() / v.len() as f64;
    let (mu, mc) = (mean(&u), mean(&comp));
    let cov: f64 = u.iter().zip(&comp).map(|(a, b)| (a - mu) * (b - mc)).sum();
    let su: f64 = u.iter().map(|a| (a - mu).powi(2)).sum::<f64>().sqrt();
    let sc: f64 = comp.iter().map(|b| (b - mc).powi(2)).sum::<f64>().sqrt();
    assert!((cov / (su * sc)).abs() > 0.95);
}
