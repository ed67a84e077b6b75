//! The dimensional protocol: every fixed-size geometric value exposes
//! its scalar components as a sequence of mathematical integers, and
//! construction, component access, equality, approximate equality and
//! rendering are specified once over that view, for every dimension.

use vstd::prelude::*;

use crate::num::dec_str;
use crate::num::is_isqrt;

verus! {

/// Default tolerance of the approximate-equality relation on integer
/// scalars: components must match exactly.
pub const APPROX_EPSILON: i64 = 0;

/// Largest component magnitude admitted by the distance operation;
/// keeps every intermediate square and their sum within 128 bits and
/// the resulting distance within a signed 64-bit scalar.
pub const COORD_BOUND: i64 = 0x2000_0000_0000_0000;

/// The shared contract of every fixed-dimension geometric value: its
/// scalar components, read as a sequence of mathematical integers,
/// determine the value completely.
pub trait Dimensional: Sized {
    /// The components of the value, in axis order.
    spec fn coords(&self) -> Seq<int>;

    /// Two values with the same components are the same value.
    proof fn coords_determine(a: &Self, b: &Self)
        requires
            a.coords() == b.coords(),
        ensures
            a == b,
    ;

    /// Reads the component on axis `i`.
    fn component(&self, i: usize) -> (r: i64)
        requires
            i < self.coords().len(),
        ensures
            r as int == self.coords()[i as int],
    ;

    /// Approximate equality under the tolerance `eps`.
    fn approx_eq_eps(&self, other: &Self, eps: i64) -> (r: bool)
        ensures
            r == approx(self.coords(), other.coords(), eps as int),
    ;

    /// Approximate equality under the default tolerance.
    fn approx_eq(&self, other: &Self) -> (r: bool)
        ensures
            r == approx(self.coords(), other.coords(), APPROX_EPSILON as int),
    ;
}

/// Component-wise sum of a component sequence and an offset sequence.
pub open spec fn translated(c: Seq<int>, o: Seq<int>) -> Seq<int> {
    Seq::new(c.len(), |i: int| c[i] + o[i])
}

/// All components are zero.
pub open spec fn is_zero(c: Seq<int>) -> bool {
    forall|i: int| 0 <= i < c.len() ==> #[trigger] c[i] == 0
}

/// Every component sum stays within the signed 64-bit scalar range.
pub open spec fn can_translate(c: Seq<int>, o: Seq<int>) -> bool {
    &&& o.len() == c.len()
    &&& forall|i: int| 0 <= i < c.len() ==> i64::MIN <= #[trigger] c[i] + o[i] <= i64::MAX
}

/// All components stay within the magnitude bound of the distance
/// operation.
pub open spec fn in_range(c: Seq<int>) -> bool {
    forall|i: int| 0 <= i < c.len() ==> -(COORD_BOUND as int) <= #[trigger] c[i] <= COORD_BOUND as int
}

/// Sum of the squared component differences of two sequences of equal
/// length: the squared Euclidean distance.
pub open spec fn sum_sq(a: Seq<int>, b: Seq<int>) -> int
    decreases a.len(),
{
    if a.len() == 0 {
        0
    } else {
        sum_sq(a.drop_last(), b.drop_last()) + (a.last() - b.last()) * (a.last() - b.last())
    }
}

/// Component sequences are approximately equal under tolerance `eps`
/// when every component pair differs by at most `eps`.
pub open spec fn approx(a: Seq<int>, b: Seq<int>, eps: int) -> bool {
    &&& a.len() == b.len()
    &&& forall|i: int| 0 <= i < a.len() ==> -eps <= #[trigger] a[i] - b[i] <= eps
}

/// Canonical rendering of the components between the brackets:
/// decimal scalars separated by `", "`.
pub open spec fn rendered_items(c: Seq<int>) -> Seq<char>
    decreases c.len(),
{
    if c.len() == 0 {
        Seq::empty()
    } else if c.len() == 1 {
        dec_str(c[0])
    } else {
        rendered_items(c.drop_last()) + seq![',', ' '] + dec_str(c.last())
    }
}

/// Canonical rendering of a component sequence: the scalars in decimal,
/// separated by `", "`, enclosed in square brackets.
pub open spec fn rendered(c: Seq<int>) -> Seq<char> {
    seq!['['] + rendered_items(c) + seq![']']
}

/// Unrolling of `rendered` for two-component sequences.
pub proof fn lemma_rendered_two(c: Seq<int>)
    requires
        c.len() == 2,
    ensures
        rendered(c) == seq!['['] + dec_str(c[0]) + seq![',', ' '] + dec_str(c[1]) + seq![']'],
{
    reveal_with_fuel(rendered_items, 3);
    assert(c.drop_last().len() == 1);
    assert(c.drop_last()[0] == c[0]);
    assert(rendered(c) =~= seq!['['] + dec_str(c[0]) + seq![',', ' '] + dec_str(c[1]) + seq![
        ']',
    ]);
}

/// Unrolling of `rendered` for three-component sequences.
pub proof fn lemma_rendered_three(c: Seq<int>)
    requires
        c.len() == 3,
    ensures
        rendered(c) == seq!['['] + dec_str(c[0]) + seq![',', ' '] + dec_str(c[1]) + seq![',', ' ']
            + dec_str(c[2]) + seq![']'],
{
    reveal_with_fuel(rendered_items, 4);
    assert(c.drop_last().len() == 2);
    assert(c.drop_last()[0] == c[0]);
    assert(c.drop_last()[1] == c[1]);
    assert(c.drop_last().drop_last().len() == 1);
    assert(c.drop_last().drop_last()[0] == c[0]);
    assert(rendered(c) =~= seq!['['] + dec_str(c[0]) + seq![',', ' '] + dec_str(c[1]) + seq![
        ',',
        ' ',
    ] + dec_str(c[2]) + seq![']']);
}

/// The square of the difference of two bounded components is
/// nonnegative and stays below two to the 124th power.
pub proof fn lemma_diff_sq_bound(x: int, y: int)
    requires
        -(COORD_BOUND as int) <= x <= COORD_BOUND as int,
        -(COORD_BOUND as int) <= y <= COORD_BOUND as int,
    ensures
        0 <= (x - y) * (x - y) <= 0x1000_0000_0000_0000_0000_0000_0000_0000,
{
    assert(0 <= (x - y) * (x - y) <= 0x1000_0000_0000_0000_0000_0000_0000_0000)
        by (nonlinear_arith)
        requires
            -0x4000_0000_0000_0000 <= x - y <= 0x4000_0000_0000_0000,
    ;
}

/// Unrolling of `sum_sq` for two-component sequences.
pub proof fn lemma_sum_sq_two(a: Seq<int>, b: Seq<int>)
    requires
        a.len() == 2,
        b.len() == 2,
    ensures
        sum_sq(a, b) == (a[0] - b[0]) * (a[0] - b[0]) + (a[1] - b[1]) * (a[1] - b[1]),
{
    reveal_with_fuel(sum_sq, 4);
    assert(a.drop_last().len() == 1);
    assert(a.drop_last()[0] == a[0]);
    assert(b.drop_last()[0] == b[0]);
    assert(a.drop_last().drop_last().len() == 0);
}

/// Unrolling of `sum_sq` for three-component sequences.
pub proof fn lemma_sum_sq_three(a: Seq<int>, b: Seq<int>)
    requires
        a.len() == 3,
        b.len() == 3,
    ensures
        sum_sq(a, b) == (a[0] - b[0]) * (a[0] - b[0]) + (a[1] - b[1]) * (a[1] - b[1]) + (a[2]
            - b[2]) * (a[2] - b[2]),
{
    reveal_with_fuel(sum_sq, 5);
    assert(a.drop_last().len() == 2);
    assert(a.drop_last()[0] == a[0]);
    assert(a.drop_last()[1] == a[1]);
    assert(b.drop_last()[0] == b[0]);
    assert(b.drop_last()[1] == b[1]);
    lemma_sum_sq_two(a.drop_last(), b.drop_last());
}

/// Translation identity: translating by an all-zero offset leaves the
/// components unchanged.
pub proof fn lemma_translated_zero(c: Seq<int>, z: Seq<int>)
    requires
        z.len() == c.len(),
        is_zero(z),
    ensures
        translated(c, z) == c,
{
    assert(translated(c, z) =~= c);
}

/// Translation composition: translating by `a` and then by `b` equals
/// translating once by the component-wise sum of `a` and `b`.
pub proof fn lemma_translated_compose(c: Seq<int>, a: Seq<int>, b: Seq<int>)
    requires
        a.len() == c.len(),
        b.len() == c.len(),
    ensures
        translated(translated(c, a), b) == translated(c, translated(a, b)),
{
    assert(translated(translated(c, a), b) =~= translated(c, translated(a, b)));
}

/// The squared Euclidean distance is symmetric in its arguments.
pub proof fn lemma_sum_sq_symmetric(a: Seq<int>, b: Seq<int>)
    requires
        a.len() == b.len(),
    ensures
        sum_sq(a, b) == sum_sq(b, a),
    decreases a.len(),
{
    if a.len() > 0 {
        lemma_sum_sq_symmetric(a.drop_last(), b.drop_last());
        assert((a.last() - b.last()) * (a.last() - b.last()) == (b.last() - a.last()) * (b.last()
            - a.last())) by (nonlinear_arith);
    }
}

/// The squared Euclidean distance from a sequence to itself is zero.
pub proof fn lemma_sum_sq_self(a: Seq<int>)
    ensures
        sum_sq(a, a) == 0,
    decreases a.len(),
{
    if a.len() > 0 {
        lemma_sum_sq_self(a.drop_last());
    }
}

/// Distance symmetry: any floor square roots of the two symmetric
/// squared distances coincide.
pub proof fn lemma_distance_symmetry(a: Seq<int>, b: Seq<int>, r1: int, r2: int)
    requires
        a.len() == b.len(),
        is_isqrt(sum_sq(a, b), r1),
        is_isqrt(sum_sq(b, a), r2),
    ensures
        r1 == r2,
{
    lemma_sum_sq_symmetric(a, b);
    crate::num::lemma_isqrt_unique(sum_sq(a, b), r1, r2);
}

/// Distance identity: the distance from a sequence to itself is zero.
pub proof fn lemma_distance_identity(a: Seq<int>, r: int)
    requires
        is_isqrt(sum_sq(a, a), r),
    ensures
        r == 0,
{
    lemma_sum_sq_self(a);
    crate::num::lemma_isqrt_zero(sum_sq(a, a), r);
}

/// A nonnegative tolerance makes approximate equality reflexive; in
/// particular, equal values are approximately equal.
pub proof fn lemma_approx_reflexive(a: Seq<int>, eps: int)
    requires
        eps >= 0,
    ensures
        approx(a, a, eps),
{
}

/// Components that all differ by strictly less than the tolerance are
/// approximately equal.
pub proof fn lemma_approx_within(a: Seq<int>, b: Seq<int>, eps: int)
    requires
        a.len() == b.len(),
        forall|i: int| 0 <= i < a.len() ==> -eps < #[trigger] a[i] - b[i] < eps,
    ensures
        approx(a, b, eps),
{
}

/// One component pair that differs by more than the tolerance refutes
/// approximate equality.
pub proof fn lemma_approx_beyond(a: Seq<int>, b: Seq<int>, eps: int, i: int)
    requires
        a.len() == b.len(),
        0 <= i < a.len(),
        a[i] - b[i] > eps || a[i] - b[i] < -eps,
    ensures
        !approx(a, b, eps),
{
}

} // verus!
