use vstd::prelude::*;
use crate::scalar::Real;

verus! {

/// The inner product of the first `k` coordinates of `u` and `v`, summed
/// from the first coordinate on: `((0 + u0 v0) + u1 v1) + ...`.
pub open spec fn dot_spec<T: Real>(u: Seq<T>, v: Seq<T>, k: int) -> T
    decreases k,
{
    if k <= 0 {
        T::spec_zero()
    } else {
        dot_spec(u, v, k - 1).spec_plus(u[k - 1].spec_times(v[k - 1]))
    }
}

/// The Euclidean norm of `v`: the root of `v · v`.
pub open spec fn norm_spec<T: Real>(v: Seq<T>) -> T {
    dot_spec(v, v, v.len() as int).spec_root()
}

/// Each coordinate of `v` divided by `s`.
pub open spec fn scale_spec<T: Real>(v: Seq<T>, s: T) -> Seq<T> {
    Seq::new(v.len(), |i: int| v[i].spec_over(s))
}

/// The coordinate-wise sum `u + v`, as long as `u`.
pub open spec fn add_spec<T: Real>(u: Seq<T>, v: Seq<T>) -> Seq<T> {
    Seq::new(u.len(), |i: int| u[i].spec_plus(v[i]))
}

/// The coordinate-wise difference `u - v`, as long as `u`.
pub open spec fn sub_spec<T: Real>(u: Seq<T>, v: Seq<T>) -> Seq<T> {
    Seq::new(u.len(), |i: int| u[i].spec_minus(v[i]))
}

/// `v` divided by its norm where that norm is positive, else nothing.
pub open spec fn normalize_spec<T: Real>(v: Seq<T>) -> Option<Seq<T>> {
    if T::spec_zero().spec_below(norm_spec(v)) {
        Some(scale_spec(v, norm_spec(v)))
    } else {
        None
    }
}

/// The inner product of two vectors of equal length, summed from the first
/// coordinate to the last.
pub fn dot<T: Real>(u: &Vec<T>, v: &Vec<T>) -> (r: T)
    requires
        u@.len() == v@.len(),
    ensures
        r == dot_spec(u@, v@, u@.len() as int),
{
    let mut acc: T = T::zero();
    let mut i: usize = 0;
    while i < u.len()
        invariant
            i <= u@.len(),
            u@.len() == v@.len(),
            acc == dot_spec(u@, v@, i as int),
        decreases u@.len() - i,
    {
        acc = acc.plus(u[i].times(v[i]));
        i = i + 1;
    }
    acc
}

/// A copy of `v`, entry for entry.
pub fn copy_of<T: Real>(v: &Vec<T>) -> (r: Vec<T>)
    ensures
        r@ == v@,
{
    let mut out: Vec<T> = Vec::new();
    let mut i: usize = 0;
    while i < v.len()
        invariant
            i <= v@.len(),
            out@ == v@.subrange(0, i as int),
        decreases v@.len() - i,
    {
        out.push(v[i]);
        i = i + 1;
        proof {
            assert(out@ =~= v@.subrange(0, i as int));
        }
    }
    proof {
        assert(out@ =~= v@);
    }
    out
}

/// The Euclidean norm, the square root of `v · v`.
pub fn norm<T: Real>(v: &Vec<T>) -> (r: T)
    ensures
        r == norm_spec(v@),
{
    dot(v, v).root()
}

/// `v` divided coordinate by coordinate by `s`.
pub fn divide_by<T: Real>(v: &Vec<T>, s: T) -> (r: Vec<T>)
    ensures
        r@ == scale_spec(v@, s),
{
    let mut out: Vec<T> = Vec::new();
    let mut i: usize = 0;
    while i < v.len()
        invariant
            i <= v@.len(),
            out@ =~= scale_spec(v@, s).subrange(0, i as int),
        decreases v@.len() - i,
    {
        out.push(v[i].over(s));
        i = i + 1;
    }
    proof {
        assert(out@ =~= scale_spec(v@, s));
    }
    out
}

/// The coordinate-wise sum `u + v`.
pub fn sum<T: Real>(u: &Vec<T>, v: &Vec<T>) -> (r: Vec<T>)
    requires
        u@.len() == v@.len(),
    ensures
        r@ == add_spec(u@, v@),
{
    let mut out: Vec<T> = Vec::new();
    let mut i: usize = 0;
    while i < u.len()
        invariant
            i <= u@.len(),
            u@.len() == v@.len(),
            out@ =~= add_spec(u@, v@).subrange(0, i as int),
        decreases u@.len() - i,
    {
        out.push(u[i].plus(v[i]));
        i = i + 1;
    }
    proof {
        assert(out@ =~= add_spec(u@, v@));
    }
    out
}

/// The coordinate-wise difference `u - v`.
pub fn difference<T: Real>(u: &Vec<T>, v: &Vec<T>) -> (r: Vec<T>)
    requires
        u@.len() == v@.len(),
    ensures
        r@ == sub_spec(u@, v@),
{
    let mut out: Vec<T> = Vec::new();
    let mut i: usize = 0;
    while i < u.len()
        invariant
            i <= u@.len(),
            u@.len() == v@.len(),
            out@ =~= sub_spec(u@, v@).subrange(0, i as int),
        decreases u@.len() - i,
    {
        out.push(u[i].minus(v[i]));
        i = i + 1;
    }
    proof {
        assert(out@ =~= sub_spec(u@, v@));
    }
    out
}

/// `v` scaled to unit norm, or `None` where its norm is not positive (the
/// zero vector, or a norm that is not a number), which no scaling can mend.
pub fn normalize<T: Real>(v: &Vec<T>) -> (r: Option<Vec<T>>)
    ensures
        r is Some <==> normalize_spec(v@) is Some,
        r matches Some(w) ==> normalize_spec(v@) == Some(w@),
{
    let n = norm(v);
    if T::zero().below(n) {
        Some(divide_by(v, n))
    } else {
        None
    }
}

} // verus!
