use vstd::prelude::*;
use crate::matrix::Matrix;
use crate::scalar::Real;
use crate::vector::{add_spec, copy_of, difference, norm, norm_spec, normalize, normalize_spec, sub_spec, sum};

verus! {

/// What [`PcaError::InvalidConfiguration`] says.
pub const TOO_MANY_COMPONENTS: &'static str =
    "Desired number of principal components(k) greater than number of features present in data matrix";

/// The one way a request for components can be refused.
#[derive(Clone, Copy, Debug, PartialEq, Eq, Structural)]
pub enum PcaError {
    /// More components were asked for than the matrix has features (rows).
    InvalidConfiguration { k: usize, features: usize },
}

impl PcaError {
    /// A sentence that describes the error.
    pub fn message(&self) -> (r: String)
        ensures
            r@ == TOO_MANY_COMPONENTS@,
    {
        match self {
            PcaError::InvalidConfiguration { .. } => String::from_str(TOO_MANY_COMPONENTS),
        }
    }
}

/// Why the direction finder stopped.
#[derive(Clone, Copy, Debug, PartialEq, Eq, Structural)]
pub enum Stop {
    /// A step moved the direction by less than the tolerance.
    Converged,
    /// The iteration cap was reached.
    Exhausted,
    /// A vector came up whose norm is not positive, so it could not be
    /// scaled to unit length; the last unit direction is kept.
    Degenerate,
}

/// What the direction finder returns: the direction, the number of ascent
/// steps taken, and why it stopped.
pub struct Direction<T> {
    pub vector: Vec<T>,
    pub steps: usize,
    pub stop: Stop,
}

/// `d` times column `j` of `a` (a sequence of rows), over the first `k` rows,
/// summed from the first row on.
pub open spec fn column_dot<T: Real>(a: Seq<Seq<T>>, d: Seq<T>, j: int, k: int) -> T
    decreases k,
{
    if k <= 0 {
        T::spec_zero()
    } else {
        column_dot(a, d, j, k - 1).spec_plus(d[k - 1].spec_times(a[k - 1][j]))
    }
}

/// The projection of the `n` columns of `a` onto `d`.
pub open spec fn project_spec<T: Real>(a: Seq<Seq<T>>, n: nat, d: Seq<T>) -> Seq<T> {
    Seq::new(n, |j: int| column_dot(a, d, j, a.len() as int))
}

/// The sum of the first `k` entries of `xs`, from the first on.
pub open spec fn total_spec<T: Real>(xs: Seq<T>, k: int) -> T
    decreases k,
{
    if k <= 0 {
        T::spec_zero()
    } else {
        total_spec(xs, k - 1).spec_plus(xs[k - 1])
    }
}

/// The sum of the squared deviations from `mean` of the first `k` entries of
/// `xs`, from the first on.
pub open spec fn squares_spec<T: Real>(xs: Seq<T>, mean: T, k: int) -> T
    decreases k,
{
    if k <= 0 {
        T::spec_zero()
    } else {
        squares_spec(xs, mean, k - 1).spec_plus(
            xs[k - 1].spec_minus(mean).spec_times(xs[k - 1].spec_minus(mean)),
        )
    }
}

/// The sample variance: the squared deviations from the mean summed, over
/// `n - 1` (over `0` for an empty sequence).
pub open spec fn variance_spec<T: Real>(xs: Seq<T>) -> T {
    let n = xs.len();
    let mean = total_spec(xs, n as int).spec_over(T::spec_from_count(n as usize));
    let denominator: usize = if n == 0 { 0 } else { (n - 1) as usize };
    squares_spec(xs, mean, n as int).spec_over(T::spec_from_count(denominator))
}

/// The objective: the sample variance of the projection of `a` onto `d`.
pub open spec fn objective_spec<T: Real>(a: Seq<Seq<T>>, n: nat, d: Seq<T>) -> T {
    variance_spec(project_spec(a, n, d))
}

/// The forward-difference gradient: coordinate `i` is the objective at `d`
/// with `eps` added to coordinate `i` alone, less the objective at `d`, over
/// `eps`.
pub open spec fn gradient_spec<T: Real>(a: Seq<Seq<T>>, n: nat, d: Seq<T>, eps: T) -> Seq<T> {
    Seq::new(
        d.len(),
        |i: int|
            objective_spec(a, n, d.update(i, d[i].spec_plus(eps))).spec_minus(
                objective_spec(a, n, d),
            ).spec_over(eps),
    )
}

/// At most `fuel` ascent steps from the unit direction `x`, `steps` having
/// been taken already: the final direction, the number of steps, and why the
/// ascent stopped.
pub open spec fn ascent_spec<T: Real>(
    a: Seq<Seq<T>>,
    n: nat,
    x: Seq<T>,
    eps: T,
    tol: T,
    fuel: nat,
    steps: nat,
) -> (Seq<T>, nat, Stop)
    decreases fuel,
{
    if fuel == 0 {
        (x, steps, Stop::Exhausted)
    } else {
        match normalize_spec(add_spec(x, gradient_spec(a, n, x, eps))) {
            None => (x, steps + 1, Stop::Degenerate),
            Some(next) => if norm_spec(sub_spec(next, x)).spec_below(tol) {
                (next, steps + 1, Stop::Converged)
            } else {
                ascent_spec(a, n, next, eps, tol, (fuel - 1) as nat, steps + 1)
            },
        }
    }
}

/// What the direction finder returns from `start`: `start` itself after no
/// step where it cannot be normalized, else the ascent from its
/// normalization.
pub open spec fn direction_spec<T: Real>(
    a: Seq<Seq<T>>,
    n: nat,
    start: Seq<T>,
    eps: T,
    tol: T,
    max_iter: nat,
) -> (Seq<T>, nat, Stop) {
    match normalize_spec(start) {
        None => (start, 0, Stop::Degenerate),
        Some(x0) => ascent_spec(a, n, x0, eps, tol, max_iter, 0),
    }
}

/// `a` with its component along `d` removed: entry `(i, j)` less `d[i]`
/// times entry `j` of the projection of `a` onto `d`.
pub open spec fn deflate_spec<T: Real>(a: Seq<Seq<T>>, n: nat, d: Seq<T>) -> Seq<Seq<T>> {
    Seq::new(
        a.len(),
        |i: int| Seq::new(n, |j: int| a[i][j].spec_minus(d[i].spec_times(project_spec(a, n, d)[j]))),
    )
}

/// The working matrix at the start of round `r` of the extraction: `a`
/// deflated, round after round, along the direction found in that round.
pub open spec fn working_spec<T: Real>(
    a: Seq<Seq<T>>,
    n: nat,
    starts: Seq<Vec<T>>,
    eps: T,
    tol: T,
    max_iter: nat,
    r: nat,
) -> Seq<Seq<T>>
    decreases r,
{
    if r == 0 {
        a
    } else {
        let w = working_spec(a, n, starts, eps, tol, max_iter, (r - 1) as nat);
        deflate_spec(w, n, direction_spec(w, n, starts[r - 1]@, eps, tol, max_iter).0)
    }
}

/// The component recorded in round `r`: the projection of that round's
/// working matrix onto the direction found from `starts[r]`.
pub open spec fn component_spec<T: Real>(
    a: Seq<Seq<T>>,
    n: nat,
    starts: Seq<Vec<T>>,
    eps: T,
    tol: T,
    max_iter: nat,
    r: nat,
) -> Seq<T> {
    let w = working_spec(a, n, starts, eps, tol, max_iter, r);
    project_spec(w, n, direction_spec(w, n, starts[r as int]@, eps, tol, max_iter).0)
}

/// The ascent keeps the length of the direction, takes at most `fuel` more
/// steps, all of them when it runs out, and at least one when it converges.
pub proof fn lemma_ascent_shape<T: Real>(
    a: Seq<Seq<T>>,
    n: nat,
    x: Seq<T>,
    eps: T,
    tol: T,
    fuel: nat,
    steps: nat,
)
    ensures
        ascent_spec(a, n, x, eps, tol, fuel, steps).0.len() == x.len(),
        steps <= ascent_spec(a, n, x, eps, tol, fuel, steps).1 <= steps + fuel,
        ascent_spec(a, n, x, eps, tol, fuel, steps).2 == Stop::Exhausted ==> ascent_spec(
            a,
            n,
            x,
            eps,
            tol,
            fuel,
            steps,
        ).1 == steps + fuel,
        ascent_spec(a, n, x, eps, tol, fuel, steps).2 == Stop::Converged ==> ascent_spec(
            a,
            n,
            x,
            eps,
            tol,
            fuel,
            steps,
        ).1 >= steps + 1,
    decreases fuel,
{
    if fuel > 0 {
        if let Some(next) = normalize_spec(add_spec(x, gradient_spec(a, n, x, eps))) {
            lemma_ascent_shape(a, n, next, eps, tol, (fuel - 1) as nat, steps + 1);
        }
    }
}

/// Two runs of the direction finder on the same matrix, start, step, tolerance
/// and cap return the same direction, after the same number of steps, for the
/// same reason.
pub proof fn lemma_fixed_start_same_direction<T: Real>(
    m: Matrix<T>,
    start: Seq<T>,
    eps: T,
    tol: T,
    max_iter: nat,
    first: Direction<T>,
    second: Direction<T>,
)
    requires
        (first.vector@, first.steps as nat, first.stop) == direction_spec(
            m.grid(),
            m.cols(),
            start,
            eps,
            tol,
            max_iter,
        ),
        (second.vector@, second.steps as nat, second.stop) == direction_spec(
            m.grid(),
            m.cols(),
            start,
            eps,
            tol,
            max_iter,
        ),
    ensures
        first.vector@ == second.vector@,
        first.steps == second.steps,
        first.stop == second.stop,
{
}

/// Two extractions from the same matrix with the same starting directions,
/// step, tolerance and cap give the same components.
pub proof fn lemma_fixed_starts_same_components<T: Real>(
    m: Matrix<T>,
    starts: Seq<Vec<T>>,
    eps: T,
    tol: T,
    max_iter: nat,
    k: nat,
    first: Matrix<T>,
    second: Matrix<T>,
)
    requires
        first.rows() == m.cols() && first.cols() == k,
        second.rows() == m.cols() && second.cols() == k,
        forall|i: int, j: int|
            0 <= i < m.cols() && 0 <= j < k ==> #[trigger] first.entry(i, j) == component_spec(
                m.grid(),
                m.cols(),
                starts,
                eps,
                tol,
                max_iter,
                j as nat,
            )[i],
        forall|i: int, j: int|
            0 <= i < m.cols() && 0 <= j < k ==> #[trigger] second.entry(i, j) == component_spec(
                m.grid(),
                m.cols(),
                starts,
                eps,
                tol,
                max_iter,
                j as nat,
            )[i],
    ensures
        first.grid() == second.grid(),
{
    assert(first.grid() =~~= second.grid());
}

/// The projection of every column of `m` onto `d`: entry `j` is the inner
/// product of `d` with column `j`, summed from the first row on.
pub fn project<T: Real>(m: &Matrix<T>, d: &Vec<T>) -> (r: Vec<T>)
    requires
        m.wf(),
        d@.len() == m.rows(),
    ensures
        r@ == project_spec(m.grid(), m.cols(), d@),
{
    let nrows = m.nrows();
    let ncols = m.ncols();
    let ghost g = m.grid();
    let mut out: Vec<T> = Vec::new();
    let mut j: usize = 0;
    while j < ncols
        invariant
            m.wf(),
            g == m.grid(),
            nrows == m.rows(),
            ncols == m.cols(),
            d@.len() == nrows,
            j <= ncols,
            out@ =~= project_spec(g, m.cols(), d@).subrange(0, j as int),
        decreases ncols - j,
    {
        let mut acc: T = T::zero();
        let mut i: usize = 0;
        while i < nrows
            invariant
                m.wf(),
                g == m.grid(),
                nrows == m.rows(),
                ncols == m.cols(),
                d@.len() == nrows,
                j < ncols,
                i <= nrows,
                acc == column_dot(g, d@, j as int, i as int),
            decreases nrows - i,
        {
            let x = m.get(i, j);
            assert(x == g[i as int][j as int]);
            acc = acc.plus(d[i].times(x));
            i = i + 1;
        }
        out.push(acc);
        j = j + 1;
    }
    proof {
        assert(out@ =~= project_spec(g, m.cols(), d@));
    }
    out
}

/// The sample variance of `xs`: the sum of squared deviations from the mean,
/// divided by `n - 1` (Bessel's correction).
pub fn sample_variance<T: Real>(xs: &Vec<T>) -> (r: T)
    ensures
        r == variance_spec(xs@),
{
    let n = xs.len();
    let mut total: T = T::zero();
    let mut i: usize = 0;
    while i < n
        invariant
            n == xs@.len(),
            i <= n,
            total == total_spec(xs@, i as int),
        decreases n - i,
    {
        total = total.plus(xs[i]);
        i = i + 1;
    }
    let mean = total.over(T::from_count(n));
    let mut squares: T = T::zero();
    let mut i: usize = 0;
    while i < n
        invariant
            n == xs@.len(),
            i <= n,
            squares == squares_spec(xs@, mean, i as int),
        decreases n - i,
    {
        let dev = xs[i].minus(mean);
        squares = squares.plus(dev.times(dev));
        i = i + 1;
    }
    let denominator: usize = if n == 0 { 0 } else { n - 1 };
    squares.over(T::from_count(denominator))
}

/// The objective that the ascent maximizes: the sample variance of the
/// projection of `m` onto `d`.
pub fn projected_variance<T: Real>(m: &Matrix<T>, d: &Vec<T>) -> (r: T)
    requires
        m.wf(),
        d@.len() == m.rows(),
    ensures
        r == objective_spec(m.grid(), m.cols(), d@),
{
    sample_variance(&project(m, d))
}

/// The forward-difference gradient of the objective at `d`: coordinate `i`
/// is the objective at `d` with `eps` added to coordinate `i` alone (not
/// scaled back to unit length), less the objective at `d`, over `eps`.
pub fn gradient<T: Real>(m: &Matrix<T>, d: &Vec<T>, eps: T) -> (r: Vec<T>)
    requires
        m.wf(),
        d@.len() == m.rows(),
    ensures
        r@ == gradient_spec(m.grid(), m.cols(), d@, eps),
{
    let base = projected_variance(m, d);
    let mut probe: Vec<T> = copy_of(d);
    let mut grad: Vec<T> = Vec::new();
    let mut i: usize = 0;
    while i < d.len()
        invariant
            m.wf(),
            d@.len() == m.rows(),
            probe@ == d@,
            base == objective_spec(m.grid(), m.cols(), d@),
            i <= d@.len(),
            grad@ =~= gradient_spec(m.grid(), m.cols(), d@, eps).subrange(0, i as int),
        decreases d@.len() - i,
    {
        let original = probe[i];
        probe.set(i, original.plus(eps));
        let moved = projected_variance(m, &probe);
        grad.push(moved.minus(base).over(eps));
        probe.set(i, original);
        proof {
            assert(probe@ =~= d@);
        }
        i = i + 1;
    }
    proof {
        assert(grad@ =~= gradient_spec(m.grid(), m.cols(), d@, eps));
    }
    grad
}

/// Ascends the objective on the unit sphere from `start`: each step adds the
/// gradient to the direction and scales the sum back to unit length. It
/// stops once a step moves the direction by less than `tol`, after
/// `max_iter` steps, or when a vector cannot be scaled to unit length; a
/// start that cannot be scaled is returned as it is, after no step.
pub fn find_direction<T: Real>(m: &Matrix<T>, start: &Vec<T>, eps: T, tol: T, max_iter: usize) -> (r:
    Direction<T>)
    requires
        m.wf(),
        start@.len() == m.rows(),
    ensures
        (r.vector@, r.steps as nat, r.stop) == direction_spec(
            m.grid(),
            m.cols(),
            start@,
            eps,
            tol,
            max_iter as nat,
        ),
        r.vector@.len() == m.rows(),
        r.steps <= max_iter,
        r.stop == Stop::Exhausted ==> r.steps == max_iter,
        r.stop == Stop::Converged ==> r.steps >= 1,
{
    let ghost g = m.grid();
    let ghost c = m.cols();
    let mut current: Vec<T> = match normalize(start) {
        Some(unit) => unit,
        None => {
            return Direction { vector: copy_of(start), steps: 0, stop: Stop::Degenerate };
        },
    };
    proof {
        lemma_ascent_shape(g, c, current@, eps, tol, max_iter as nat, 0);
    }
    let ghost outcome = direction_spec(g, c, start@, eps, tol, max_iter as nat);
    let mut steps: usize = 0;
    while steps < max_iter
        invariant
            m.wf(),
            g == m.grid(),
            c == m.cols(),
            current@.len() == m.rows(),
            steps <= max_iter,
            outcome == ascent_spec(g, c, current@, eps, tol, (max_iter - steps) as nat, steps as nat),
            outcome == direction_spec(g, c, start@, eps, tol, max_iter as nat),
        decreases max_iter - steps,
    {
        let grad = gradient(m, &current, eps);
        let stepped = sum(&current, &grad);
        let ghost fuel = (max_iter - steps) as nat;
        let ghost taken = steps as nat;
        proof {
            assert(outcome == ascent_spec(g, c, current@, eps, tol, fuel, taken));
            assert(stepped@ == add_spec(current@, gradient_spec(g, c, current@, eps)));
        }
        steps = steps + 1;
        match normalize(&stepped) {
            Some(next) => {
                let change = norm(&difference(&next, &current));
                proof {
                    assert(normalize_spec(stepped@) == Some(next@));
                }
                if change.below(tol) {
                    return Direction { vector: next, steps, stop: Stop::Converged };
                }
                current = next;
            },
            None => {
                return Direction { vector: current, steps, stop: Stop::Degenerate };
            },
        }
    }
    Direction { vector: current, steps, stop: Stop::Exhausted }
}

/// Removes from `m` its component along `d`: with `o` the projection of `m`
/// onto `d`, row `i` loses `d[i] * o` entry by entry.
pub fn deflate<T: Real>(m: &mut Matrix<T>, d: &Vec<T>)
    requires
        old(m).wf(),
        d@.len() == old(m).rows(),
    ensures
        final(m).wf(),
        final(m).rows() == old(m).rows(),
        final(m).cols() == old(m).cols(),
        final(m).grid() == deflate_spec(old(m).grid(), old(m).cols(), d@),
{
    let ghost g = m.grid();
    let ghost c = m.cols();
    let o = project(m, d);
    let nrows = m.nrows();
    let ncols = m.ncols();
    let mut i: usize = 0;
    while i < nrows
        invariant
            m.wf(),
            m.rows() == nrows,
            m.cols() == ncols,
            c == ncols,
            g.len() == nrows,
            d@.len() == nrows,
            o@ == project_spec(g, c, d@),
            i <= nrows,
            forall|a: int, b: int|
                0 <= a < nrows && 0 <= b < ncols ==> #[trigger] m.entry(a, b) == if a < i {
                    g[a][b].spec_minus(d@[a].spec_times(o@[b]))
                } else {
                    g[a][b]
                },
        decreases nrows - i,
    {
        let mut j: usize = 0;
        while j < ncols
            invariant
                m.wf(),
                m.rows() == nrows,
                m.cols() == ncols,
                c == ncols,
                g.len() == nrows,
                d@.len() == nrows,
                o@ == project_spec(g, c, d@),
                i < nrows,
                j <= ncols,
                forall|a: int, b: int|
                    0 <= a < nrows && 0 <= b < ncols ==> #[trigger] m.entry(a, b) == if a < i || (a
                        == i && b < j) {
                        g[a][b].spec_minus(d@[a].spec_times(o@[b]))
                    } else {
                        g[a][b]
                    },
            decreases ncols - j,
        {
            let x = m.get(i, j);
            m.set(i, j, x.minus(d[i].times(o[j])));
            j = j + 1;
        }
        i = i + 1;
    }
    proof {
        assert(m.grid() =~~= deflate_spec(g, c, d@));
    }
}

/// Extracts `k` principal components of `m` (features in rows, observations
/// in columns). Round `r` normalizes `starts[r]` and ascends from it on the
/// working matrix, records the projection of the working matrix onto the
/// direction found as column `r` of the result, then deflates the working
/// matrix along that direction. `m` itself is left as it is. A start that
/// cannot be normalized is used as it is, without ascent.
///
/// Fails with `InvalidConfiguration` exactly when `k` exceeds the number of
/// features; otherwise the result has one row per observation and `k`
/// columns, column `r` being the component of round `r`.
pub fn extract_components<T: Real>(
    m: &Matrix<T>,
    k: usize,
    eps: T,
    tol: T,
    max_iter: usize,
    starts: &Vec<Vec<T>>,
) -> (r: Result<Matrix<T>, PcaError>)
    requires
        m.wf(),
        k <= m.rows() ==> k <= starts@.len(),
        forall|i: int| 0 <= i < starts@.len() ==> #[trigger] starts@[i]@.len() == m.rows(),
    ensures
        r.is_err() <==> k > m.rows(),
        r matches Err(e) ==> e == (PcaError::InvalidConfiguration { k, features: m.rows() as usize }),
        r matches Ok(c) ==> {
            &&& c.wf()
            &&& c.rows() == m.cols()
            &&& c.cols() == k
            &&& forall|i: int, j: int|
                0 <= i < m.cols() && 0 <= j < k ==> #[trigger] c.entry(i, j) == component_spec(
                    m.grid(),
                    m.cols(),
                    starts@,
                    eps,
                    tol,
                    max_iter as nat,
                    j as nat,
                )[i]
        },
{
    let nfeat = m.nrows();
    let nobs = m.ncols();
    if k > nfeat {
        return Err(PcaError::InvalidConfiguration { k, features: nfeat });
    }
    let ghost g = m.grid();
    let ghost n = m.cols();
    let mut work = m.duplicate();
    proof {
        assert(work.grid() =~~= g);
    }
    let mut columns: Vec<Vec<T>> = Vec::new();
    let mut r: usize = 0;
    while r < k
        invariant
            work.wf(),
            work.rows() == nfeat,
            work.cols() == nobs,
            nfeat == m.rows(),
            nobs == m.cols(),
            n == nobs,
            k <= nfeat,
            k <= starts@.len(),
            forall|i: int| 0 <= i < starts@.len() ==> #[trigger] starts@[i]@.len() == nfeat,
            r <= k,
            work.grid() == working_spec(g, n, starts@, eps, tol, max_iter as nat, r as nat),
            columns@.len() == r,
            forall|j: int|
                0 <= j < r ==> (#[trigger] columns@[j])@ == component_spec(
                    g,
                    n,
                    starts@,
                    eps,
                    tol,
                    max_iter as nat,
                    j as nat,
                ),
            forall|j: int| 0 <= j < columns@.len() ==> #[trigger] columns@[j]@.len() == nobs,
        decreases k - r,
    {
        let found = find_direction(&work, &starts[r], eps, tol, max_iter);
        let component = project(&work, &found.vector);
        deflate(&mut work, &found.vector);
        columns.push(component);
        r = r + 1;
    }
    proof {
        assert(nobs as int * k as int <= nobs as int * nfeat as int) by (nonlinear_arith)
            requires k <= nfeat;
        m.lemma_size_fits();
        assert(nobs as int * nfeat as int == nfeat as int * nobs as int) by (nonlinear_arith);
    }
    Ok(Matrix::from_columns(nobs, &columns))
}

} // verus!
