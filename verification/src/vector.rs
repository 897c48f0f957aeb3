//! A 2D direction vector with normalization and reflection math.
//!
//! A direction is an exact pair of integers; the unit vector it stands for is
//! the pair divided by its Euclidean length. Normalizing reduces the pair to
//! lowest terms, the canonical representative of its direction, so no rounding
//! ever happens: reflection and the bounce angles are exact. The zero pair is
//! the one non-direction value; it stays zero under every operation here, and
//! the terminal ball state uses it.

use vstd::prelude::*;
use crate::gcd::{
    gcd, gcd_u64, lemma_exact_quotient, lemma_gcd_divides, lemma_gcd_pos,
    lemma_gcd_quotients_coprime, lemma_gcd_scale, lemma_quotient_le, mag,
};

verus! {

/// The largest component magnitude a direction may carry.
///
/// Reflections whose lowest-terms result would exceed this ratio limit leave
/// the direction unchanged; within it, every result is exact.
pub const DIR_LIMIT: i64 = 65536;

/// A 2D vector: an exact integer direction.
#[derive(Clone, Copy, Debug, PartialEq, Eq, Structural)]
pub struct Vector {
    pub x: i64,
    pub y: i64,
}

/// Both members of the pair are zero.
pub open spec fn pair_is_zero(x: int, y: int) -> bool {
    x == 0 && y == 0
}

/// The pair is in lowest terms: its components have no common factor.
pub open spec fn pair_is_coprime(x: int, y: int) -> bool {
    gcd(mag(x), mag(y)) == 1
}

/// The pair divided through by the gcd of its magnitudes: the canonical
/// lowest-terms representative of its direction. The zero pair stays zero.
pub open spec fn reduced(x: int, y: int) -> (int, int) {
    if pair_is_zero(x, y) {
        (0, 0)
    } else {
        let g = gcd(mag(x), mag(y)) as int;
        (x / g, y / g)
    }
}

/// The inner product of two pairs.
pub open spec fn dot_of(ax: int, ay: int, bx: int, by: int) -> int {
    ax * bx + ay * by
}

/// The squared Euclidean length of a pair.
pub open spec fn norm_sq_of(x: int, y: int) -> int {
    dot_of(x, y, x, y)
}

/// The first component of the specular reflection of `v` about the direction
/// `(nx, ny)`, scaled by `norm_sq_of(nx, ny)` so that it stays an integer:
/// the reflection itself is `v - 2 (v . n / n . n) n`.
pub open spec fn reflect_x(vx: int, vy: int, nx: int, ny: int) -> int {
    norm_sq_of(nx, ny) * vx - 2 * dot_of(vx, vy, nx, ny) * nx
}

/// The second component of the scaled specular reflection; see [`reflect_x`].
pub open spec fn reflect_y(vx: int, vy: int, nx: int, ny: int) -> int {
    norm_sq_of(nx, ny) * vy - 2 * dot_of(vx, vy, nx, ny) * ny
}

/// The direction a reflection leaves: the specular reflection of `v` about
/// `n`, in lowest terms.
pub open spec fn reflect_dir(vx: int, vy: int, nx: int, ny: int) -> (int, int) {
    reduced(reflect_x(vx, vy, nx, ny), reflect_y(vx, vy, nx, ny))
}

/// The velocity a bounce leaves: the exact lowest-terms reflection about
/// `(nx, ny)` where that is representable, the old velocity where not.
pub open spec fn bounced(v: Vector, nx: int, ny: int) -> Vector {
    let (rx, ry) = reflect_dir(v.x as int, v.y as int, nx, ny);
    if -DIR_LIMIT <= rx <= DIR_LIMIT && -DIR_LIMIT <= ry <= DIR_LIMIT {
        Vector { x: rx as i64, y: ry as i64 }
    } else {
        v
    }
}

impl Vector {
    /// Both components are zero: the explicitly allowed degenerate value.
    pub open spec fn is_zero(self) -> bool {
        pair_is_zero(self.x as int, self.y as int)
    }

    /// The vector is a unit direction: nonzero and in lowest terms, so it is
    /// the canonical name of a vector of Euclidean length exactly one.
    pub open spec fn is_unit(self) -> bool {
        !self.is_zero() && pair_is_coprime(self.x as int, self.y as int)
    }

    /// Both components lie within the representation limit.
    pub open spec fn bounded(self) -> bool {
        -DIR_LIMIT <= self.x <= DIR_LIMIT && -DIR_LIMIT <= self.y <= DIR_LIMIT
    }

    /// Create a new vector, normalized: the result is the lowest-terms
    /// direction of `(x, y)`, and the zero pair stays zero.
    pub fn new(x: i64, y: i64) -> (v: Vector)
        requires
            -DIR_LIMIT <= x <= DIR_LIMIT,
            -DIR_LIMIT <= y <= DIR_LIMIT,
        ensures
            (v.x as int, v.y as int) == reduced(x as int, y as int),
            v.bounded(),
            !pair_is_zero(x as int, y as int) ==> v.is_unit(),
            pair_is_zero(x as int, y as int) ==> v.is_zero(),
    {
        let mut v = Vector { x, y };
        v.normalise();
        v
    }

    /// Get the x component.
    pub fn x(&self) -> (r: i64)
        ensures
            r == self.x,
    {
        self.x
    }

    /// Get the y component.
    pub fn y(&self) -> (r: i64)
        ensures
            r == self.y,
    {
        self.y
    }

    /// Perform the inner product with another vector.
    pub fn dot(&self, other: &Vector) -> (r: i64)
        requires
            self.bounded(),
            other.bounded(),
        ensures
            r == dot_of(self.x as int, self.y as int, other.x as int, other.y as int),
    {
        proof {
            lemma_product_bound(self.x as int, other.x as int, DIR_LIMIT as int);
            lemma_product_bound(self.y as int, other.y as int, DIR_LIMIT as int);
        }
        self.x * other.x + self.y * other.y
    }

    /// Negate the vector, negating each of the components.
    pub fn negate(&mut self)
        requires
            old(self).x > i64::MIN,
            old(self).y > i64::MIN,
        ensures
            final(self).x == -old(self).x,
            final(self).y == -old(self).y,
    {
        self.x = -self.x;
        self.y = -self.y;
    }

    /// The squared Euclidean length of the stored pair. A unit direction in
    /// lowest terms reports the squared length of its integer name, not of
    /// the length-one vector it stands for.
    pub fn magnitude_squared(&self) -> (r: u64)
        requires
            self.bounded(),
        ensures
            r == norm_sq_of(self.x as int, self.y as int),
    {
        proof {
            lemma_product_bound(self.x as int, self.x as int, DIR_LIMIT as int);
            lemma_product_bound(self.y as int, self.y as int, DIR_LIMIT as int);
            lemma_square_nonneg(self.x as int);
            lemma_square_nonneg(self.y as int);
        }
        (self.x * self.x + self.y * self.y) as u64
    }

    /// Normalise the vector: reduce the pair to lowest terms, preserving its
    /// direction exactly. The zero pair stays zero.
    pub fn normalise(&mut self)
        requires
            old(self).x > i64::MIN,
            old(self).y > i64::MIN,
        ensures
            (final(self).x as int, final(self).y as int) == reduced(
                old(self).x as int,
                old(self).y as int,
            ),
            mag(final(self).x as int) <= mag(old(self).x as int),
            mag(final(self).y as int) <= mag(old(self).y as int),
            !old(self).is_zero() ==> final(self).is_unit(),
            old(self).is_zero() ==> *final(self) == *old(self),
    {
        if self.x == 0 && self.y == 0 {
            return ;
        }
        let ax = abs_to_u64(self.x);
        let ay = abs_to_u64(self.y);
        let g = gcd_u64(ax, ay);
        proof {
            lemma_gcd_pos(ax as nat, ay as nat);
            lemma_reduced_props(self.x as int, self.y as int);
        }
        let qx = ax / g;
        let qy = ay / g;
        proof {
            lemma_quotient_le(ax as nat, g as nat);
            lemma_quotient_le(ay as nat, g as nat);
        }
        self.x = if self.x < 0 {
            -(qx as i64)
        } else {
            qx as i64
        };
        self.y = if self.y < 0 {
            -(qy as i64)
        } else {
            qy as i64
        };
    }

    /// Component-wise sum with another vector. The result is not normalized,
    /// exactly as written.
    pub fn add(&self, other: &Vector) -> (r: Vector)
        requires
            self.bounded(),
            other.bounded(),
        ensures
            r.x == self.x + other.x,
            r.y == self.y + other.y,
    {
        Vector { x: self.x + other.x, y: self.y + other.y }
    }

    /// Add another vector onto this one, component-wise; not normalized.
    pub fn add_assign(&mut self, other: &Vector)
        requires
            old(self).bounded(),
            other.bounded(),
        ensures
            final(self).x == old(self).x + other.x,
            final(self).y == old(self).y + other.y,
    {
        *self = self.add(other);
    }

    /// Component-wise difference with another vector; not normalized.
    pub fn sub(&self, other: &Vector) -> (r: Vector)
        requires
            self.bounded(),
            other.bounded(),
        ensures
            r.x == self.x - other.x,
            r.y == self.y - other.y,
    {
        Vector { x: self.x - other.x, y: self.y - other.y }
    }

    /// Subtract another vector from this one, component-wise; not normalized.
    pub fn sub_assign(&mut self, other: &Vector)
        requires
            old(self).bounded(),
            other.bounded(),
        ensures
            final(self).x == old(self).x - other.x,
            final(self).y == old(self).y - other.y,
    {
        *self = self.sub(other);
    }

    /// Scale by an integer factor; the factor may stand on either side of a
    /// multiplication, so one method serves both. The result is not
    /// normalized.
    pub fn mul(&self, scalar: i64) -> (r: Vector)
        requires
            self.bounded(),
            -DIR_LIMIT <= scalar <= DIR_LIMIT,
        ensures
            r.x == scalar * self.x,
            r.y == scalar * self.y,
    {
        proof {
            lemma_product_bound(self.x as int, scalar as int, DIR_LIMIT as int);
            lemma_product_bound(self.y as int, scalar as int, DIR_LIMIT as int);
        }
        Vector { x: scalar * self.x, y: scalar * self.y }
    }
}

impl Vector {
    /// Replace this vector by its specular reflection about `normal`, in
    /// lowest terms. The reflection is exact; in the rare case that its
    /// lowest-terms direction cannot be represented within [`DIR_LIMIT`],
    /// the vector is left unchanged. The zero vector stays zero.
    pub fn reflect(&mut self, normal: &Vector)
        requires
            old(self).bounded(),
            normal.bounded(),
            normal.is_unit(),
        ensures
            *final(self) == bounced(*old(self), normal.x as int, normal.y as int),
            final(self).bounded(),
            old(self).is_zero() ==> final(self).is_zero(),
            old(self).is_unit() ==> final(self).is_unit(),
    {
        let ghost ovx = self.x as int;
        let ghost ovy = self.y as int;
        let ghost nx = normal.x as int;
        let ghost ny = normal.y as int;
        proof {
            lemma_product_bound(nx, nx, DIR_LIMIT as int);
            lemma_product_bound(ny, ny, DIR_LIMIT as int);
            lemma_product_bound(ovx, nx, DIR_LIMIT as int);
            lemma_product_bound(ovy, ny, DIR_LIMIT as int);
        }
        let s = normal.x * normal.x + normal.y * normal.y;
        let d = self.x * normal.x + self.y * normal.y;
        proof {
            lemma_product_bound_asym(s as int, ovx, 2 * DIR_LIMIT * DIR_LIMIT, DIR_LIMIT as int);
            lemma_product_bound_asym(s as int, ovy, 2 * DIR_LIMIT * DIR_LIMIT, DIR_LIMIT as int);
            lemma_product_bound_asym(
                2 * d as int,
                nx,
                4 * DIR_LIMIT * DIR_LIMIT,
                DIR_LIMIT as int,
            );
            lemma_product_bound_asym(
                2 * d as int,
                ny,
                4 * DIR_LIMIT * DIR_LIMIT,
                DIR_LIMIT as int,
            );
        }
        let wx = s * self.x - 2 * d * normal.x;
        let wy = s * self.y - 2 * d * normal.y;
        let mut w = Vector { x: wx, y: wy };
        w.normalise();
        proof {
            assert(wx == reflect_x(ovx, ovy, nx, ny));
            assert(wy == reflect_y(ovx, ovy, nx, ny));
            if !(ovx == 0 && ovy == 0) {
                lemma_norm_sq_pos(nx, ny);
                lemma_reflect_nonzero(ovx, ovy, nx, ny);
                lemma_reduced_props(wx as int, wy as int);
            }
        }
        if -DIR_LIMIT <= w.x && w.x <= DIR_LIMIT && -DIR_LIMIT <= w.y && w.y <= DIR_LIMIT {
            *self = w;
        }
    }
}

/// Law: reflecting a direction twice about the same non-degenerate normal
/// restores it exactly; specular reflection is an involution.
pub proof fn lemma_reflect_involution(v: Vector, n: Vector)
    requires
        v.is_unit(),
        n.is_unit(),
    ensures
        ({
            let (wx, wy) = reflect_dir(v.x as int, v.y as int, n.x as int, n.y as int);
            reflect_dir(wx, wy, n.x as int, n.y as int) == (v.x as int, v.y as int)
        }),
{
    let vx = v.x as int;
    let vy = v.y as int;
    let nx = n.x as int;
    let ny = n.y as int;
    let s = norm_sq_of(nx, ny);
    lemma_norm_sq_pos(nx, ny);
    let wx = reflect_x(vx, vy, nx, ny);
    let wy = reflect_y(vx, vy, nx, ny);
    lemma_reflect_nonzero(vx, vy, nx, ny);
    lemma_reduced_props(wx, wy);
    let g = gcd(mag(wx), mag(wy)) as int;
    let (ux, uy) = reduced(wx, wy);
    let rx = reflect_x(ux, uy, nx, ny);
    let ry = reflect_y(ux, uy, nx, ny);
    lemma_reflect_linear(g, ux, uy, nx, ny);
    assert(reflect_x(g * ux, g * uy, nx, ny) == g * rx);
    assert(reflect_y(g * ux, g * uy, nx, ny) == g * ry);
    lemma_reflect_reflect(vx, vy, nx, ny);
    assert(g * rx == s * s * vx);
    assert(g * ry == s * s * vy);
    assert(s * s > 0) by (nonlinear_arith)
        requires
            s > 0,
    {
    }
    assert(!(rx == 0 && ry == 0)) by (nonlinear_arith)
        requires
            g > 0,
            s * s > 0,
            g * rx == s * s * vx,
            g * ry == s * s * vy,
            !(vx == 0 && vy == 0),
    {
    }
    lemma_reduced_scale(g, rx, ry);
    assert(reduced(g * rx, g * ry) == reduced(s * s * vx, s * s * vy));
    lemma_reduced_scale(s * s, vx, vy);
    lemma_reduced_of_coprime(vx, vy);
}

/// Law: bouncing a unit direction twice off the same non-degenerate normal
/// restores it, whenever the intermediate direction is representable — the
/// executable form of the reflection involution.
pub proof fn lemma_bounce_involution(v: Vector, n: Vector)
    requires
        v.is_unit(),
        v.bounded(),
        n.is_unit(),
        ({
            let (wx, wy) = reflect_dir(v.x as int, v.y as int, n.x as int, n.y as int);
            -DIR_LIMIT <= wx <= DIR_LIMIT && -DIR_LIMIT <= wy <= DIR_LIMIT
        }),
    ensures
        bounced(bounced(v, n.x as int, n.y as int), n.x as int, n.y as int) == v,
{
    lemma_reflect_involution(v, n);
}

/// Scaling both members of a nonzero pair by a positive factor leaves its
/// lowest-terms reduction unchanged.
pub proof fn lemma_reduced_scale(k: int, x: int, y: int)
    requires
        k > 0,
        !pair_is_zero(x, y),
    ensures
        reduced(k * x, k * y) == reduced(x, y),
{
    lemma_mag_scale(k, x);
    lemma_mag_scale(k, y);
    assert(!pair_is_zero(k * x, k * y)) by (nonlinear_arith)
        requires
            k > 0,
            !(x == 0 && y == 0),
    {
    }
    let g = gcd(mag(x), mag(y)) as int;
    lemma_gcd_pos(mag(x), mag(y));
    lemma_gcd_scale(k as nat, mag(x), mag(y));
    assert(gcd(mag(k * x), mag(k * y)) == (k * g) as nat);
    lemma_reduced_props(x, y);
    let (cx, cy) = reduced(x, y);
    assert(k * x == (k * g) * cx && k * y == (k * g) * cy && k * g > 0) by (nonlinear_arith)
        requires
            x == g * cx,
            y == g * cy,
            k > 0,
            g > 0,
    {
    }
    lemma_exact_quotient(k * x, k * g, cx);
    lemma_exact_quotient(k * y, k * g, cy);
}

/// A positive scale factor passes through the magnitude.
proof fn lemma_mag_scale(k: int, x: int)
    requires
        k > 0,
    ensures
        mag(k * x) == k * mag(x),
{
    if x >= 0 {
        assert(k * x >= 0 && k * (mag(x) as int) == k * x) by (nonlinear_arith)
            requires
                k > 0,
                x >= 0,
                mag(x) == x,
        {
        }
    } else {
        assert(k * x < 0 && k * (mag(x) as int) == -(k * x)) by (nonlinear_arith)
            requires
                k > 0,
                x < 0,
                mag(x) == -x,
        {
        }
    }
}

/// The squared length of a nonzero pair is positive.
proof fn lemma_norm_sq_pos(nx: int, ny: int)
    requires
        !pair_is_zero(nx, ny),
    ensures
        norm_sq_of(nx, ny) > 0,
{
    assert(nx * nx + ny * ny > 0) by (nonlinear_arith)
        requires
            !(nx == 0 && ny == 0),
    {
    }
}

/// Reflecting a nonzero pair about a nonzero normal cannot yield zero.
proof fn lemma_reflect_nonzero(vx: int, vy: int, nx: int, ny: int)
    requires
        !pair_is_zero(vx, vy),
        !pair_is_zero(nx, ny),
    ensures
        !pair_is_zero(reflect_x(vx, vy, nx, ny), reflect_y(vx, vy, nx, ny)),
{
    lemma_norm_sq_pos(nx, ny);
    assert(!((nx * nx + ny * ny) * vx - 2 * (vx * nx + vy * ny) * nx == 0 && (nx * nx + ny * ny)
        * vy - 2 * (vx * nx + vy * ny) * ny == 0)) by (nonlinear_arith)
        requires
            !(vx == 0 && vy == 0),
            nx * nx + ny * ny > 0,
    {
    }
}

/// The scaled reflection is linear in the reflected pair.
proof fn lemma_reflect_linear(k: int, vx: int, vy: int, nx: int, ny: int)
    ensures
        reflect_x(k * vx, k * vy, nx, ny) == k * reflect_x(vx, vy, nx, ny),
        reflect_y(k * vx, k * vy, nx, ny) == k * reflect_y(vx, vy, nx, ny),
{
    let s = nx * nx + ny * ny;
    let d = vx * nx + vy * ny;
    let dk = (k * vx) * nx + (k * vy) * ny;
    assert(dk == k * d) by (nonlinear_arith)
        requires
            dk == (k * vx) * nx + (k * vy) * ny,
            d == vx * nx + vy * ny,
    {
    }
    assert(s * (k * vx) - 2 * dk * nx == k * (s * vx - 2 * d * nx)) by (nonlinear_arith)
        requires
            dk == k * d,
    {
    }
    assert(s * (k * vy) - 2 * dk * ny == k * (s * vy - 2 * d * ny)) by (nonlinear_arith)
        requires
            dk == k * d,
    {
    }
}

/// Reflecting the scaled reflection once more yields the original pair,
/// scaled by the square of the normal's squared length.
proof fn lemma_reflect_reflect(vx: int, vy: int, nx: int, ny: int)
    ensures
        ({
            let s = norm_sq_of(nx, ny);
            let wx = reflect_x(vx, vy, nx, ny);
            let wy = reflect_y(vx, vy, nx, ny);
            reflect_x(wx, wy, nx, ny) == s * s * vx && reflect_y(wx, wy, nx, ny) == s * s * vy
        }),
{
    let s = nx * nx + ny * ny;
    let d = vx * nx + vy * ny;
    let wx = s * vx - 2 * d * nx;
    let wy = s * vy - 2 * d * ny;
    let dw = wx * nx + wy * ny;
    assert(dw == -(s * d)) by (nonlinear_arith)
        requires
            dw == wx * nx + wy * ny,
            wx == s * vx - 2 * d * nx,
            wy == s * vy - 2 * d * ny,
            s == nx * nx + ny * ny,
            d == vx * nx + vy * ny,
    {
    }
    assert(s * wx - 2 * dw * nx == s * s * vx) by (nonlinear_arith)
        requires
            wx == s * vx - 2 * d * nx,
            dw == -(s * d),
    {
    }
    assert(s * wy - 2 * dw * ny == s * s * vy) by (nonlinear_arith)
        requires
            wy == s * vy - 2 * d * ny,
            dw == -(s * d),
    {
    }
}

/// The product of two factors within asymmetric bounds stays within the
/// product of the bounds.
proof fn lemma_product_bound_asym(x: int, y: int, bx: int, by: int)
    by (nonlinear_arith)
    requires
        -bx <= x <= bx,
        -by <= y <= by,
        bx >= 0,
        by >= 0,
    ensures
        -(bx * by) <= x * y <= bx * by,
{
}

/// The magnitude of an `i64` above the minimum, as a `u64`.
fn abs_to_u64(x: i64) -> (r: u64)
    requires
        x > i64::MIN,
    ensures
        r == mag(x as int),
{
    if x < 0 {
        (-x) as u64
    } else {
        x as u64
    }
}

/// The product of two factors bounded by `b` is bounded by `b * b`.
proof fn lemma_product_bound(x: int, y: int, b: int)
    by (nonlinear_arith)
    requires
        -b <= x <= b,
        -b <= y <= b,
        b >= 0,
    ensures
        -(b * b) <= x * y <= b * b,
{
}

/// A square is never negative.
proof fn lemma_square_nonneg(x: int)
    by (nonlinear_arith)
    ensures
        x * x >= 0,
{
}

/// What reducing a nonzero pair yields: the original is the reduction scaled
/// by the (positive) gcd of its magnitudes, the reduction is in lowest terms,
/// and no component grew.
pub proof fn lemma_reduced_props(x: int, y: int)
    requires
        !pair_is_zero(x, y),
    ensures
        ({
            let gn = gcd(mag(x), mag(y));
            let (cx, cy) = reduced(x, y);
            &&& gn > 0
            &&& x == gn * cx
            &&& y == gn * cy
            &&& cx == if x >= 0 {
                (mag(x) / gn) as int
            } else {
                -((mag(x) / gn) as int)
            }
            &&& cy == if y >= 0 {
                (mag(y) / gn) as int
            } else {
                -((mag(y) / gn) as int)
            }
            &&& pair_is_coprime(cx, cy)
            &&& mag(cx) <= mag(x)
            &&& mag(cy) <= mag(y)
            &&& !pair_is_zero(cx, cy)
        }),
{
    let gn = gcd(mag(x), mag(y));
    let g = gn as int;
    lemma_gcd_pos(mag(x), mag(y));
    lemma_gcd_divides(mag(x), mag(y));
    let qx = choose|q: nat| mag(x) == #[trigger] (gn * q);
    let qy = choose|q: nat| mag(y) == #[trigger] (gn * q);
    lemma_exact_quotient(mag(x) as int, g, qx as int);
    lemma_exact_quotient(mag(y) as int, g, qy as int);
    if x >= 0 {
        lemma_exact_quotient(x, g, qx as int);
    } else {
        assert(x == g * (-(qx as int))) by (nonlinear_arith)
            requires
                -x == gn * qx,
                g == gn,
        {
        }
        lemma_exact_quotient(x, g, -(qx as int));
    }
    if y >= 0 {
        lemma_exact_quotient(y, g, qy as int);
    } else {
        assert(y == g * (-(qy as int))) by (nonlinear_arith)
            requires
                -y == gn * qy,
                g == gn,
        {
        }
        lemma_exact_quotient(y, g, -(qy as int));
    }
    let (cx, cy) = reduced(x, y);
    assert(mag(cx) == qx);
    assert(mag(cy) == qy);
    lemma_gcd_quotients_coprime(mag(x), mag(y), qx, qy);
    assert(qx <= mag(x) && qy <= mag(y)) by (nonlinear_arith)
        requires
            g >= 1,
            mag(x) == gn * qx,
            mag(y) == gn * qy,
            gn == g,
    {
    }
}

/// A pair already in lowest terms is its own reduction.
pub proof fn lemma_reduced_of_coprime(x: int, y: int)
    requires
        pair_is_coprime(x, y),
    ensures
        reduced(x, y) == (x, y),
{
    assert(!pair_is_zero(x, y));
    lemma_exact_quotient(x, 1, x);
    lemma_exact_quotient(y, 1, y);
}

} // verus!
