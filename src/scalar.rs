use vstd::prelude::*;

verus! {

/// The arithmetic that the ascent needs from its number type.
///
/// Each operation is tied to a spec function of the same name, which the
/// implementing type leaves abstract: the library's contracts then say which
/// operations are applied, to what and in which order, without assuming any
/// law of arithmetic. All an implementation promises is that each operation
/// is a function of its arguments.
pub trait Real: Copy + Sized {
    spec fn spec_zero() -> Self;

    spec fn spec_from_count(n: usize) -> Self;

    spec fn spec_plus(self, o: Self) -> Self;

    spec fn spec_minus(self, o: Self) -> Self;

    spec fn spec_times(self, o: Self) -> Self;

    spec fn spec_over(self, o: Self) -> Self;

    spec fn spec_root(self) -> Self;

    spec fn spec_below(self, o: Self) -> bool;

    /// The additive identity.
    fn zero() -> (r: Self)
        ensures
            r == Self::spec_zero(),
    ;

    /// The count `n` as a number of this type.
    fn from_count(n: usize) -> (r: Self)
        ensures
            r == Self::spec_from_count(n),
    ;

    /// `self + o`.
    fn plus(self, o: Self) -> (r: Self)
        ensures
            r == self.spec_plus(o),
    ;

    /// `self - o`.
    fn minus(self, o: Self) -> (r: Self)
        ensures
            r == self.spec_minus(o),
    ;

    /// `self * o`.
    fn times(self, o: Self) -> (r: Self)
        ensures
            r == self.spec_times(o),
    ;

    /// `self / o`.
    fn over(self, o: Self) -> (r: Self)
        ensures
            r == self.spec_over(o),
    ;

    /// The non-negative square root of `self`.
    fn root(self) -> (r: Self)
        ensures
            r == self.spec_root(),
    ;

    /// `self < o`.
    fn below(self, o: Self) -> (r: bool)
        ensures
            r == self.spec_below(o),
    ;
}

} // verus!
