//! The vector layer: fixed-dimension displacement vectors over signed
//! 64-bit scalars, with component-wise addition, Euclidean distance
//! (as a floor square root) and approximate equality. The point types
//! wrap these vectors and delegate their arithmetic to them.

use vstd::prelude::*;

use crate::dim::APPROX_EPSILON;
use crate::dim::Dimensional;
use crate::dim::approx;
use crate::dim::can_translate;
use crate::dim::in_range;
use crate::dim::lemma_diff_sq_bound;
use crate::dim::lemma_sum_sq_three;
use crate::dim::lemma_sum_sq_two;
use crate::dim::sum_sq;
use crate::dim::translated;
use crate::num::is_isqrt;
use crate::num::isqrt_u128;
use crate::num::lemma_isqrt_fits_i64;

verus! {

/// A two-dimensional displacement vector.
#[derive(Clone, Copy, Debug, PartialEq, Eq, Structural)]
pub struct Vec2 {
    pub x: i64,
    pub y: i64,
}

/// A three-dimensional displacement vector.
#[derive(Clone, Copy, Debug, PartialEq, Eq, Structural)]
pub struct Vec3 {
    pub x: i64,
    pub y: i64,
    pub z: i64,
}

impl Vec2 {
    /// Builds the vector from its two components, in axis order.
    pub fn new(x: i64, y: i64) -> (r: Vec2)
        ensures
            r.coords() == seq![x as int, y as int],
    {
        Vec2 { x, y }
    }

    /// Component-wise vector addition.
    pub fn add_v(&self, other: &Vec2) -> (r: Vec2)
        requires
            can_translate(self.coords(), other.coords()),
        ensures
            r.coords() == translated(self.coords(), other.coords()),
    {
        proof {
            assert(self.coords()[0] + other.coords()[0] == self.x as int + other.x as int);
            assert(self.coords()[1] + other.coords()[1] == self.y as int + other.y as int);
        }
        let r = Vec2 { x: self.x + other.x, y: self.y + other.y };
        proof {
            assert(r.coords() =~= translated(self.coords(), other.coords()));
        }
        r
    }

    /// Euclidean distance between two vectors, rounded down to the
    /// nearest integer.
    pub fn distance(&self, other: &Vec2) -> (r: i64)
        requires
            in_range(self.coords()),
            in_range(other.coords()),
        ensures
            is_isqrt(sum_sq(self.coords(), other.coords()), r as int),
    {
        let ghost a = self.coords();
        let ghost b = other.coords();
        let dx: i128 = self.x as i128 - other.x as i128;
        let dy: i128 = self.y as i128 - other.y as i128;
        proof {
            assert(a[0] == self.x as int && a[1] == self.y as int);
            assert(b[0] == other.x as int && b[1] == other.y as int);
            lemma_diff_sq_bound(a[0], b[0]);
            lemma_diff_sq_bound(a[1], b[1]);
        }
        let sx: i128 = dx * dx;
        let sy: i128 = dy * dy;
        let s: u128 = (sx + sy) as u128;
        proof {
            lemma_sum_sq_two(a, b);
            assert(s == sum_sq(a, b));
        }
        let rt: u64 = isqrt_u128(s);
        proof {
            lemma_isqrt_fits_i64(s as int, rt as int);
        }
        rt as i64
    }
}

impl Dimensional for Vec2 {
    open spec fn coords(&self) -> Seq<int> {
        seq![self.x as int, self.y as int]
    }

    proof fn coords_determine(a: &Vec2, b: &Vec2) {
        assert(a.coords()[0] == b.coords()[0]);
        assert(a.coords()[1] == b.coords()[1]);
    }

    fn component(&self, i: usize) -> (r: i64) {
        if i == 0 {
            self.x
        } else {
            self.y
        }
    }

    fn approx_eq_eps(&self, other: &Vec2, eps: i64) -> (r: bool) {
        approx2(self.x, self.y, other.x, other.y, eps)
    }

    fn approx_eq(&self, other: &Vec2) -> (r: bool) {
        approx2(self.x, self.y, other.x, other.y, APPROX_EPSILON)
    }
}

impl Vec3 {
    /// Builds the vector from its three components, in axis order.
    pub fn new(x: i64, y: i64, z: i64) -> (r: Vec3)
        ensures
            r.coords() == seq![x as int, y as int, z as int],
    {
        Vec3 { x, y, z }
    }

    /// Component-wise vector addition.
    pub fn add_v(&self, other: &Vec3) -> (r: Vec3)
        requires
            can_translate(self.coords(), other.coords()),
        ensures
            r.coords() == translated(self.coords(), other.coords()),
    {
        proof {
            assert(self.coords()[0] + other.coords()[0] == self.x as int + other.x as int);
            assert(self.coords()[1] + other.coords()[1] == self.y as int + other.y as int);
            assert(self.coords()[2] + other.coords()[2] == self.z as int + other.z as int);
        }
        let r = Vec3 { x: self.x + other.x, y: self.y + other.y, z: self.z + other.z };
        proof {
            assert(r.coords() =~= translated(self.coords(), other.coords()));
        }
        r
    }

    /// Euclidean distance between two vectors, rounded down to the
    /// nearest integer.
    pub fn distance(&self, other: &Vec3) -> (r: i64)
        requires
            in_range(self.coords()),
            in_range(other.coords()),
        ensures
            is_isqrt(sum_sq(self.coords(), other.coords()), r as int),
    {
        let ghost a = self.coords();
        let ghost b = other.coords();
        let dx: i128 = self.x as i128 - other.x as i128;
        let dy: i128 = self.y as i128 - other.y as i128;
        let dz: i128 = self.z as i128 - other.z as i128;
        proof {
            assert(a[0] == self.x as int && a[1] == self.y as int && a[2] == self.z as int);
            assert(b[0] == other.x as int && b[1] == other.y as int && b[2] == other.z as int);
            lemma_diff_sq_bound(a[0], b[0]);
            lemma_diff_sq_bound(a[1], b[1]);
            lemma_diff_sq_bound(a[2], b[2]);
        }
        let sx: i128 = dx * dx;
        let sy: i128 = dy * dy;
        let sz: i128 = dz * dz;
        let s: u128 = (sx + sy + sz) as u128;
        proof {
            lemma_sum_sq_three(a, b);
            assert(s == sum_sq(a, b));
        }
        let rt: u64 = isqrt_u128(s);
        proof {
            lemma_isqrt_fits_i64(s as int, rt as int);
        }
        rt as i64
    }
}

impl Dimensional for Vec3 {
    open spec fn coords(&self) -> Seq<int> {
        seq![self.x as int, self.y as int, self.z as int]
    }

    proof fn coords_determine(a: &Vec3, b: &Vec3) {
        assert(a.coords()[0] == b.coords()[0]);
        assert(a.coords()[1] == b.coords()[1]);
        assert(a.coords()[2] == b.coords()[2]);
    }

    fn component(&self, i: usize) -> (r: i64) {
        if i == 0 {
            self.x
        } else if i == 1 {
            self.y
        } else {
            self.z
        }
    }

    fn approx_eq_eps(&self, other: &Vec3, eps: i64) -> (r: bool) {
        let first_two = approx2(self.x, self.y, other.x, other.y, eps);
        let last = within(self.z, other.z, eps);
        let r = first_two && last;
        proof {
            lemma_approx_join3(self.coords(), other.coords(), eps as int, first_two, last);
        }
        r
    }

    fn approx_eq(&self, other: &Vec3) -> (r: bool) {
        self.approx_eq_eps(other, APPROX_EPSILON)
    }
}

/// Whether two scalars differ by at most `eps`.
fn within(a: i64, b: i64, eps: i64) -> (r: bool)
    ensures
        r == (-(eps as int) <= a - b <= eps as int),
{
    let d: i128 = a as i128 - b as i128;
    let e: i128 = eps as i128;
    -e <= d && d <= e
}

/// Whether two component pairs are approximately equal under `eps`.
fn approx2(ax: i64, ay: i64, bx: i64, by: i64, eps: i64) -> (r: bool)
    ensures
        r == approx(seq![ax as int, ay as int], seq![bx as int, by as int], eps as int),
{
    let rx = within(ax, bx, eps);
    let ry = within(ay, by, eps);
    let r = rx && ry;
    proof {
        let a = seq![ax as int, ay as int];
        let b = seq![bx as int, by as int];
        if r {
            assert forall|i: int| 0 <= i < a.len() implies -(eps as int) <= #[trigger] a[i]
                - b[i] <= eps as int by {
                if i == 0 {
                } else {
                }
            }
        } else {
            if !rx {
                assert(!(-(eps as int) <= a[0] - b[0] <= eps as int));
            } else {
                assert(!(-(eps as int) <= a[1] - b[1] <= eps as int));
            }
        }
    }
    r
}

/// Splits three-component approximate equality into the first two
/// components and the last.
proof fn lemma_approx_join3(a: Seq<int>, b: Seq<int>, eps: int, first_two: bool, last: bool)
    requires
        a.len() == 3,
        b.len() == 3,
        first_two == approx(seq![a[0], a[1]], seq![b[0], b[1]], eps),
        last == (-eps <= a[2] - b[2] <= eps),
    ensures
        (first_two && last) == approx(a, b, eps),
{
    let a2 = seq![a[0], a[1]];
    let b2 = seq![b[0], b[1]];
    if first_two && last {
        assert forall|i: int| 0 <= i < a.len() implies -eps <= #[trigger] a[i] - b[i] <= eps by {
            if i < 2 {
                assert(a2[i] == a[i] && b2[i] == b[i]);
                assert(-eps <= a2[i] - b2[i] <= eps);
            }
        }
    } else if !first_two {
        if approx(a, b, eps) {
            assert forall|i: int| 0 <= i < a2.len() implies -eps <= #[trigger] a2[i] - b2[i]
                <= eps by {
                assert(a2[i] == a[i] && b2[i] == b[i]);
                assert(-eps <= a[i] - b[i] <= eps);
            }
        }
    } else {
        if approx(a, b, eps) {
            assert(!(-eps <= a[2] - b[2] <= eps) ==> !approx(a, b, eps));
        }
    }
}

} // verus!
