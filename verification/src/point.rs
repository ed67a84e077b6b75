//! The point variants: `Point2` and `Point3`, each wrapping the
//! displacement vector of its dimension, with rigid translation,
//! Euclidean distance and a canonical text rendering. Both variants
//! satisfy one shared capability, `Point`, whose contracts are stated
//! over the component view of the dimensional protocol, so the two
//! dimensions cannot drift apart in semantics.

use vstd::prelude::*;
use vstd::string::StringExecFns;

use crate::dim::APPROX_EPSILON;
use crate::dim::Dimensional;
use crate::dim::approx;
use crate::dim::can_translate;
use crate::dim::in_range;
use crate::dim::is_zero;
use crate::dim::lemma_distance_identity;
use crate::dim::lemma_distance_symmetry;
use crate::dim::lemma_rendered_three;
use crate::dim::lemma_rendered_two;
use crate::dim::lemma_translated_compose;
use crate::dim::lemma_translated_zero;
use crate::dim::rendered;
use crate::dim::sum_sq;
use crate::dim::translated;
use crate::num::dec_of_i64;
use crate::num::is_isqrt;
use crate::vector::Vec2;
use crate::vector::Vec3;

verus! {

/// A located position in fixed-dimension space: it can be translated
/// by a displacement vector of its own dimension and measured against
/// another point of its own type.
pub trait Point<V: Dimensional>: Dimensional {
    /// Returns the point moved by `offset`; the receiver is unchanged.
    fn translate(&self, offset: &V) -> (r: Self)
        requires
            can_translate(self.coords(), offset.coords()),
        ensures
            r.coords() == translated(self.coords(), offset.coords()),
    ;

    /// Euclidean distance to `other`, rounded down to the nearest
    /// integer scalar.
    fn distance(&self, other: &Self) -> (r: i64)
        requires
            other.coords().len() == self.coords().len(),
            in_range(self.coords()),
            in_range(other.coords()),
        ensures
            is_isqrt(sum_sq(self.coords(), other.coords()), r as int),
    ;
}

/// A two-dimensional point.
#[derive(Clone, Copy, Debug, PartialEq, Eq, Structural)]
pub struct Point2(pub Vec2);

/// A three-dimensional point.
#[derive(Clone, Copy, Debug, PartialEq, Eq, Structural)]
pub struct Point3(pub Vec3);

impl Point2 {
    /// Builds the point from its two components, in axis order.
    pub fn new(x: i64, y: i64) -> (r: Point2)
        ensures
            r.coords() == seq![x as int, y as int],
    {
        Point2(Vec2::new(x, y))
    }

    /// The component on the first axis.
    pub fn x(&self) -> (r: i64)
        ensures
            r as int == self.coords()[0],
    {
        self.0.x
    }

    /// The component on the second axis.
    pub fn y(&self) -> (r: i64)
        ensures
            r as int == self.coords()[1],
    {
        self.0.y
    }

    /// Canonical rendering: `[x, y]`, components in decimal.
    pub fn to_str(&self) -> (s: String)
        ensures
            s@ == rendered(self.coords()),
    {
        let mut s = String::from_str("[");
        let sx = dec_of_i64(self.0.x);
        s.append(sx.as_str());
        s.append(", ");
        let sy = dec_of_i64(self.0.y);
        s.append(sy.as_str());
        s.append("]");
        proof {
            reveal_strlit("[");
            reveal_strlit(", ");
            reveal_strlit("]");
            lemma_rendered_two(self.coords());
            assert(s@ =~= rendered(self.coords()));
        }
        s
    }
}

impl Dimensional for Point2 {
    open spec fn coords(&self) -> Seq<int> {
        self.0.coords()
    }

    proof fn coords_determine(a: &Point2, b: &Point2) {
        Vec2::coords_determine(&a.0, &b.0);
    }

    fn component(&self, i: usize) -> (r: i64) {
        self.0.component(i)
    }

    fn approx_eq_eps(&self, other: &Point2, eps: i64) -> (r: bool) {
        self.0.approx_eq_eps(&other.0, eps)
    }

    fn approx_eq(&self, other: &Point2) -> (r: bool) {
        self.0.approx_eq(&other.0)
    }
}

impl Point<Vec2> for Point2 {
    fn translate(&self, offset: &Vec2) -> (r: Point2) {
        Point2(self.0.add_v(offset))
    }

    fn distance(&self, other: &Point2) -> (r: i64) {
        self.0.distance(&other.0)
    }
}

impl Point3 {
    /// Builds the point from its three components, in axis order.
    pub fn new(x: i64, y: i64, z: i64) -> (r: Point3)
        ensures
            r.coords() == seq![x as int, y as int, z as int],
    {
        Point3(Vec3::new(x, y, z))
    }

    /// The component on the first axis.
    pub fn x(&self) -> (r: i64)
        ensures
            r as int == self.coords()[0],
    {
        self.0.x
    }

    /// The component on the second axis.
    pub fn y(&self) -> (r: i64)
        ensures
            r as int == self.coords()[1],
    {
        self.0.y
    }

    /// The component on the third axis.
    pub fn z(&self) -> (r: i64)
        ensures
            r as int == self.coords()[2],
    {
        self.0.z
    }

    /// Canonical rendering: `[x, y, z]`, components in decimal.
    pub fn to_str(&self) -> (s: String)
        ensures
            s@ == rendered(self.coords()),
    {
        let mut s = String::from_str("[");
        let sx = dec_of_i64(self.0.x);
        s.append(sx.as_str());
        s.append(", ");
        let sy = dec_of_i64(self.0.y);
        s.append(sy.as_str());
        s.append(", ");
        let sz = dec_of_i64(self.0.z);
        s.append(sz.as_str());
        s.append("]");
        proof {
            reveal_strlit("[");
            reveal_strlit(", ");
            reveal_strlit("]");
            lemma_rendered_three(self.coords());
            assert(s@ =~= rendered(self.coords()));
        }
        s
    }
}

impl Dimensional for Point3 {
    open spec fn coords(&self) -> Seq<int> {
        self.0.coords()
    }

    proof fn coords_determine(a: &Point3, b: &Point3) {
        Vec3::coords_determine(&a.0, &b.0);
    }

    fn component(&self, i: usize) -> (r: i64) {
        self.0.component(i)
    }

    fn approx_eq_eps(&self, other: &Point3, eps: i64) -> (r: bool) {
        self.0.approx_eq_eps(&other.0, eps)
    }

    fn approx_eq(&self, other: &Point3) -> (r: bool) {
        self.0.approx_eq(&other.0)
    }
}

impl Point<Vec3> for Point3 {
    fn translate(&self, offset: &Vec3) -> (r: Point3) {
        Point3(self.0.add_v(offset))
    }

    fn distance(&self, other: &Point3) -> (r: i64) {
        self.0.distance(&other.0)
    }
}

/// Translation identity: a point translated by an all-zero offset is
/// the point itself. `q` stands for the result of the translation, as
/// `translate` describes it.
pub proof fn lemma_point_translate_identity<P: Dimensional, V: Dimensional>(p: &P, z: &V, q: &P)
    requires
        z.coords().len() == p.coords().len(),
        is_zero(z.coords()),
        q.coords() == translated(p.coords(), z.coords()),
    ensures
        q == p,
{
    lemma_translated_zero(p.coords(), z.coords());
    P::coords_determine(q, p);
}

/// Translation composition: translating by `a` and then by `b` gives
/// the same point as translating once by their vector sum `ab`. The
/// points `q1`, `q2` and `q` stand for the results of the three
/// translations, as `translate` describes them.
pub proof fn lemma_point_translate_compose<P: Dimensional, V: Dimensional>(
    p: &P,
    a: &V,
    b: &V,
    ab: &V,
    q1: &P,
    q2: &P,
    q: &P,
)
    requires
        a.coords().len() == p.coords().len(),
        b.coords().len() == p.coords().len(),
        ab.coords() == translated(a.coords(), b.coords()),
        q1.coords() == translated(p.coords(), a.coords()),
        q2.coords() == translated(q1.coords(), b.coords()),
        q.coords() == translated(p.coords(), ab.coords()),
    ensures
        q2 == q,
{
    lemma_translated_compose(p.coords(), a.coords(), b.coords());
    P::coords_determine(q2, q);
}

/// Distance symmetry: the distance from `p` to `q` equals the distance
/// from `q` to `p`. `d1` and `d2` stand for the two results, as
/// `distance` describes them.
pub proof fn lemma_point_distance_symmetry<P: Dimensional>(p: &P, q: &P, d1: int, d2: int)
    requires
        q.coords().len() == p.coords().len(),
        is_isqrt(sum_sq(p.coords(), q.coords()), d1),
        is_isqrt(sum_sq(q.coords(), p.coords()), d2),
    ensures
        d1 == d2,
{
    lemma_distance_symmetry(p.coords(), q.coords(), d1, d2);
}

/// Distance identity: the distance from a point to itself is zero.
/// `d` stands for the result, as `distance` describes it.
pub proof fn lemma_point_distance_identity<P: Dimensional>(p: &P, d: int)
    requires
        is_isqrt(sum_sq(p.coords(), p.coords()), d),
    ensures
        d == 0,
{
    lemma_distance_identity(p.coords(), d);
}

/// Equality derives from the components: two points of one type are
/// equal exactly when all corresponding components are equal.
pub proof fn lemma_point_eq_components<P: Dimensional>(p: &P, q: &P)
    ensures
        (p == q) <==> p.coords() =~= q.coords(),
{
    if p.coords() =~= q.coords() {
        P::coords_determine(p, q);
    }
}

/// Equality is reflexive: every point equals itself.
pub proof fn lemma_point_eq_reflexive<P: Dimensional>(p: &P)
    ensures
        p == p,
{
}

/// Equal points are approximately equal under every nonnegative
/// tolerance, the default one included.
pub proof fn lemma_point_eq_approx<P: Dimensional>(p: &P, q: &P, eps: int)
    requires
        p == q,
        eps >= 0,
    ensures
        approx(p.coords(), q.coords(), eps),
        approx(p.coords(), q.coords(), APPROX_EPSILON as int),
{
}

} // verus!
