use vstd::prelude::*;

verus! {

/// A dense matrix stored row by row.
pub struct Matrix<T> {
    nrows: usize,
    ncols: usize,
    data: Vec<T>,
}

/// The position of entry `(i, j)` in the row-major storage of a matrix with
/// `ncols` columns, and the bound it keeps.
proof fn lemma_index_in_bounds(nrows: int, ncols: int, i: int, j: int)
    requires
        0 <= i < nrows,
        0 <= j < ncols,
    ensures
        0 <= i * ncols + j < nrows * ncols,
{
    assert(0 <= i * ncols) by (nonlinear_arith)
        requires 0 <= i, 0 <= ncols;
    assert(i * ncols + j < nrows * ncols) by (nonlinear_arith)
        requires 0 <= i < nrows, 0 <= j < ncols;
}

/// Distinct entries of a row-major matrix sit at distinct positions.
proof fn lemma_distinct_positions(ncols: int, a: int, b: int, i: int, j: int)
    requires
        0 <= b < ncols,
        0 <= j < ncols,
        a != i || b != j,
    ensures
        a * ncols + b != i * ncols + j,
{
    if a == i {
    } else if a < i {
        assert(a * ncols + ncols <= i * ncols) by (nonlinear_arith)
            requires a < i, 0 <= ncols;
    } else {
        assert(i * ncols + ncols <= a * ncols) by (nonlinear_arith)
            requires i < a, 0 <= ncols;
    }
}

impl<T: Copy> Matrix<T> {
    /// The storage holds exactly one entry per row and column.
    pub closed spec fn wf(&self) -> bool {
        &&& self.data@.len() == self.nrows as int * self.ncols as int
        &&& self.data@.len() <= usize::MAX
    }

    pub closed spec fn rows(&self) -> nat {
        self.nrows as nat
    }

    pub closed spec fn cols(&self) -> nat {
        self.ncols as nat
    }

    /// The entry in row `i` and column `j`.
    pub closed spec fn entry(&self, i: int, j: int) -> T {
        self.data@[i * self.ncols as int + j]
    }

    /// The matrix as a sequence of rows, each of `cols()` entries.
    pub open spec fn grid(&self) -> Seq<Seq<T>> {
        Seq::new(self.rows(), |i: int| Seq::new(self.cols(), |j: int| self.entry(i, j)))
    }

    /// A well-formed matrix has at most `usize::MAX` entries.
    pub proof fn lemma_size_fits(&self)
        requires
            self.wf(),
        ensures
            self.rows() * self.cols() <= usize::MAX,
    {
    }

    /// Builds a matrix from its entries listed row by row; `None` when the
    /// number of entries is not `nrows * ncols`.
    pub fn from_row_major(nrows: usize, ncols: usize, data: Vec<T>) -> (r: Option<Matrix<T>>)
        ensures
            r.is_some() <==> data@.len() == nrows as int * ncols as int,
            r matches Some(m) ==> {
                &&& m.wf()
                &&& m.rows() == nrows
                &&& m.cols() == ncols
                &&& forall|i: int, j: int|
                    0 <= i < nrows && 0 <= j < ncols ==> #[trigger] m.entry(i, j) == data@[i * ncols
                        + j]
            },
    {
        let len = data.len();
        match nrows.checked_mul(ncols) {
            Some(p) => {
                if p == len {
                    Some(Matrix { nrows, ncols, data })
                } else {
                    None
                }
            },
            None => None,
        }
    }

    /// Builds the matrix whose column `j` is `columns[j]`, each of `nrows`
    /// entries.
    pub fn from_columns(nrows: usize, columns: &Vec<Vec<T>>) -> (r: Matrix<T>)
        requires
            forall|j: int| 0 <= j < columns@.len() ==> #[trigger] columns@[j]@.len() == nrows,
            nrows as int * columns@.len() <= usize::MAX,
        ensures
            r.wf(),
            r.rows() == nrows,
            r.cols() == columns@.len(),
            forall|i: int, j: int|
                0 <= i < nrows && 0 <= j < columns@.len() ==> #[trigger] r.entry(i, j)
                    == columns@[j]@[i],
    {
        let ncols = columns.len();
        let mut data: Vec<T> = Vec::new();
        let mut i: usize = 0;
        while i < nrows
            invariant
                i <= nrows,
                ncols == columns@.len(),
                forall|j: int| 0 <= j < columns@.len() ==> #[trigger] columns@[j]@.len() == nrows,
                nrows as int * ncols <= usize::MAX,
                data@.len() == i as int * ncols as int,
                forall|a: int, b: int|
                    0 <= a < i && 0 <= b < ncols ==> data@[#[trigger] (a * ncols + b)]
                        == columns@[b]@[a],
            decreases nrows - i,
        {
            let mut j: usize = 0;
            while j < ncols
                invariant
                    i < nrows,
                    j <= ncols,
                    ncols == columns@.len(),
                    forall|j: int| 0 <= j < columns@.len() ==> #[trigger] columns@[j]@.len() == nrows,
                    data@.len() == i as int * ncols as int + j,
                    forall|a: int, b: int|
                        0 <= a < i && 0 <= b < ncols ==> data@[#[trigger] (a * ncols + b)]
                            == columns@[b]@[a],
                    forall|b: int| 0 <= b < j ==> data@[i * ncols + b] == columns@[b]@[i as int],
                decreases ncols - j,
            {
                let x: T = columns[j][i];
                let ghost before = data@;
                data.push(x);
                proof {
                    assert forall|a: int, b: int|
                        0 <= a < i && 0 <= b < ncols implies data@[#[trigger] (a * ncols + b)]
                            == columns@[b]@[a] by {
                        lemma_index_in_bounds(i as int, ncols as int, a, b);
                        assert(data@[a * ncols + b] == before[a * ncols + b]);
                    }
                }
                j = j + 1;
            }
            proof {
                assert forall|a: int, b: int|
                    0 <= a < i + 1 && 0 <= b < ncols implies data@[#[trigger] (a * ncols + b)]
                        == columns@[b]@[a] by {
                    if a == i {
                        assert(data@[i * ncols + b] == columns@[b]@[i as int]);
                    }
                }
                assert((i + 1) as int * ncols as int == i as int * ncols as int + ncols)
                    by (nonlinear_arith);
            }
            i = i + 1;
        }
        Matrix { nrows, ncols, data }
    }

    /// An independent copy of the matrix.
    pub fn duplicate(&self) -> (r: Matrix<T>)
        requires
            self.wf(),
        ensures
            r.wf(),
            r.rows() == self.rows(),
            r.cols() == self.cols(),
            forall|i: int, j: int| #[trigger] r.entry(i, j) == self.entry(i, j),
    {
        let mut data: Vec<T> = Vec::new();
        let mut p: usize = 0;
        while p < self.data.len()
            invariant
                p <= self.data@.len(),
                data@ == self.data@.subrange(0, p as int),
            decreases self.data@.len() - p,
        {
            data.push(self.data[p]);
            p = p + 1;
            proof {
                assert(data@ =~= self.data@.subrange(0, p as int));
            }
        }
        proof {
            assert(data@ =~= self.data@);
        }
        Matrix { nrows: self.nrows, ncols: self.ncols, data }
    }

    /// The number of rows.
    pub fn nrows(&self) -> (r: usize)
        ensures
            r == self.rows(),
    {
        self.nrows
    }

    /// The number of columns.
    pub fn ncols(&self) -> (r: usize)
        ensures
            r == self.cols(),
    {
        self.ncols
    }

    /// The entry in row `i` and column `j`.
    pub fn get(&self, i: usize, j: usize) -> (r: T)
        requires
            self.wf(),
            i < self.rows(),
            j < self.cols(),
        ensures
            r == self.entry(i as int, j as int),
    {
        proof {
            lemma_index_in_bounds(self.nrows as int, self.ncols as int, i as int, j as int);
        }
        self.data[i * self.ncols + j]
    }

    /// Overwrites the entry in row `i` and column `j`, leaving the others.
    pub fn set(&mut self, i: usize, j: usize, v: T)
        requires
            old(self).wf(),
            i < old(self).rows(),
            j < old(self).cols(),
        ensures
            final(self).wf(),
            final(self).rows() == old(self).rows(),
            final(self).cols() == old(self).cols(),
            final(self).entry(i as int, j as int) == v,
            forall|a: int, b: int|
                0 <= a < old(self).rows() && 0 <= b < old(self).cols() && (a != i || b != j)
                    ==> #[trigger] final(self).entry(a, b) == old(self).entry(a, b),
    {
        proof {
            lemma_index_in_bounds(self.nrows as int, self.ncols as int, i as int, j as int);
        }
        let ghost before = self.data@;
        let ghost nc = self.ncols as int;
        self.data.set(i * self.ncols + j, v);
        proof {
            assert forall|a: int, b: int|
                0 <= a < self.nrows && 0 <= b < self.ncols && (a != i || b != j)
                    implies self.data@[#[trigger] (a * nc + b)] == before[a * nc + b] by {
                lemma_index_in_bounds(self.nrows as int, nc, a, b);
                lemma_distinct_positions(nc, a, b, i as int, j as int);
            }
        }
    }
}

} // verus!
