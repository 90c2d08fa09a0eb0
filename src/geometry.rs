use vstd::prelude::*;

verus! {

/// The largest magnitude of a coordinate, in nanometres (a little over four
/// metres): room for a mesh within `MESH_LIMIT` and for the rays cast at it.
pub const COORD_LIMIT: i64 = 4294967296;

/// The largest magnitude of a mesh coordinate, in nanometres (a little over
/// one metre).
pub const MESH_LIMIT: i64 = 1073741824;

/// Tolerance of the intersection test, in nanometres: a hit closer to the
/// ray's origin than this is not counted.
pub const HIT_EPSILON: i64 = 1;

/// Cutoff of the determinant, in square nanometres (1e-6 mm²): a triangle
/// whose determinant is smaller in magnitude counts as parallel to the ray.
pub const PARALLEL_EPSILON: i64 = 1000000;

/// A point in space; coordinates in nanometres.
#[derive(Clone, Copy, Debug, PartialEq, Eq, Structural)]
pub struct Point3 {
    pub x: i64,
    pub y: i64,
    pub z: i64,
}

pub open spec fn coord_ok(c: int) -> bool {
    -COORD_LIMIT <= c <= COORD_LIMIT
}

impl Point3 {
    pub open spec fn wf(&self) -> bool {
        coord_ok(self.x as int) && coord_ok(self.y as int) && coord_ok(self.z as int)
    }

    pub fn new(x: i64, y: i64, z: i64) -> (r: Point3)
        ensures
            r == (Point3 { x, y, z }),
    {
        Point3 { x, y, z }
    }
}

pub open spec fn min_i(a: i64, b: i64) -> i64 {
    if a <= b { a } else { b }
}

pub open spec fn max_i(a: i64, b: i64) -> i64 {
    if a >= b { a } else { b }
}

/// An axis-aligned bounding box.
#[derive(Clone, Copy, Debug, PartialEq, Eq, Structural)]
pub struct Aabb {
    pub min: Point3,
    pub max: Point3,
}

impl Aabb {
    /// The smallest box holding both boxes.
    pub open spec fn union_spec(self, o: Aabb) -> Aabb {
        Aabb {
            min: Point3 {
                x: min_i(self.min.x, o.min.x),
                y: min_i(self.min.y, o.min.y),
                z: min_i(self.min.z, o.min.z),
            },
            max: Point3 {
                x: max_i(self.max.x, o.max.x),
                y: max_i(self.max.y, o.max.y),
                z: max_i(self.max.z, o.max.z),
            },
        }
    }

    pub open spec fn wf(self) -> bool {
        self.min.wf() && self.max.wf() && self.min.x <= self.max.x && self.min.y <= self.max.y
            && self.min.z <= self.max.z
    }

    pub fn union(&self, o: &Aabb) -> (r: Aabb)
        ensures
            r == self.union_spec(*o),
    {
        Aabb {
            min: Point3 {
                x: if self.min.x <= o.min.x { self.min.x } else { o.min.x },
                y: if self.min.y <= o.min.y { self.min.y } else { o.min.y },
                z: if self.min.z <= o.min.z { self.min.z } else { o.min.z },
            },
            max: Point3 {
                x: if self.max.x >= o.max.x { self.max.x } else { o.max.x },
                y: if self.max.y >= o.max.y { self.max.y } else { o.max.y },
                z: if self.max.z >= o.max.z { self.max.z } else { o.max.z },
            },
        }
    }
}

/// A ray pointing straight up (+z) from its origin: the only direction in
/// which a mesh is sliced.
#[derive(Clone, Copy, Debug, PartialEq, Eq, Structural)]
pub struct Ray {
    pub origin: Point3,
}

/// A triangle of the mesh, with the slot that a bounding volume hierarchy
/// uses to tag its leaf.
#[derive(Clone, Copy, Debug)]
pub struct Triangle {
    pub v0: Point3,
    pub v1: Point3,
    pub v2: Point3,
    pub node_index: usize,
}

/// The hit of an upward ray from `o` on the triangle `(v0, v1, v2)`, in exact
/// integer arithmetic. `det` is the Möller–Trumbore determinant `e1 · (d × e2)`
/// for `d = +z`; `u` and `v` are the barycentric numerators `s · h` and
/// `d · (s × e1)`; `t` is the numerator of the distance from `o` to the hit.
/// All are scaled by `det`.
pub open spec fn mt_det(v0: Point3, v1: Point3, v2: Point3) -> int {
    (v1.y - v0.y) * (v2.x - v0.x) - (v1.x - v0.x) * (v2.y - v0.y)
}

pub open spec fn mt_u(v0: Point3, v2: Point3, o: Point3) -> int {
    (o.y - v0.y) * (v2.x - v0.x) - (o.x - v0.x) * (v2.y - v0.y)
}

pub open spec fn mt_v(v0: Point3, v1: Point3, o: Point3) -> int {
    (o.x - v0.x) * (v1.y - v0.y) - (o.y - v0.y) * (v1.x - v0.x)
}

/// `x` with the sign flipped where the determinant is negative: brings the
/// scaled quantities to a positive denominator.
pub open spec fn norm(det: int, x: int) -> int {
    if det < 0 { -x } else { x }
}

pub open spec fn mt_t(v0: Point3, v1: Point3, v2: Point3, o: Point3) -> int {
    let d = norm(mt_det(v0, v1, v2), mt_det(v0, v1, v2));
    let u = norm(mt_det(v0, v1, v2), mt_u(v0, v2, o));
    let v = norm(mt_det(v0, v1, v2), mt_v(v0, v1, o));
    d * (v0.z - o.z) + u * (v1.z - v0.z) + v * (v2.z - v0.z)
}

/// Whether the upward ray from `o` meets the triangle: the determinant is at
/// least `PARALLEL_EPSILON` in magnitude (else the triangle counts as parallel
/// to the ray), the foot of the ray lies inside the triangle (edges included),
/// and the hit lies strictly more than `HIT_EPSILON` above the origin.
pub open spec fn ray_hits(v0: Point3, v1: Point3, v2: Point3, o: Point3) -> bool {
    let d = norm(mt_det(v0, v1, v2), mt_det(v0, v1, v2));
    let u = norm(mt_det(v0, v1, v2), mt_u(v0, v2, o));
    let v = norm(mt_det(v0, v1, v2), mt_v(v0, v1, o));
    &&& d >= PARALLEL_EPSILON
    &&& 0 <= u <= d
    &&& 0 <= v
    &&& u + v <= d
    &&& mt_t(v0, v1, v2, o) > d * HIT_EPSILON
}

/// The distance from `o` to the hit, rounded up to the nanometre.
pub open spec fn hit_distance(v0: Point3, v1: Point3, v2: Point3, o: Point3) -> int {
    let d = norm(mt_det(v0, v1, v2), mt_det(v0, v1, v2));
    (mt_t(v0, v1, v2, o) + d - 1) / d
}


proof fn lemma_scaled_range(w: int, a: int, lo: int, hi: int)
    requires
        0 <= w,
        lo <= a <= hi,
    ensures
        w * lo <= w * a <= w * hi,
{
    assert(w * lo <= w * a <= w * hi) by (nonlinear_arith)
        requires
            0 <= w,
            lo <= a <= hi,
    ;
}

proof fn lemma_product_bound(a: int, b: int, ba: int, bb: int)
    requires
        -ba <= a <= ba,
        -bb <= b <= bb,
    ensures
        -(ba * bb) <= a * b <= ba * bb,
{
    assert(-(ba * bb) <= a * b <= ba * bb) by (nonlinear_arith)
        requires
            -ba <= a <= ba,
            -bb <= b <= bb,
    ;
}

/// The interpolated height of a point inside a triangle lies within the
/// vertices' heights: the scaled distance lies between `d * lo` and `d * hi`.
proof fn lemma_interp_range(d: int, u: int, v: int, a: int, b: int, c: int, lo: int, hi: int)
    requires
        0 <= u,
        0 <= v,
        u + v <= d,
        lo <= a <= hi,
        lo <= b <= hi,
        lo <= c <= hi,
    ensures
        d * lo <= d * a + u * (b - a) + v * (c - a) <= d * hi,
{
    assert(d * a + u * (b - a) + v * (c - a) == (d - u - v) * a + u * b + v * c) by (nonlinear_arith);
    lemma_scaled_range(d - u - v, a, lo, hi);
    lemma_scaled_range(u, b, lo, hi);
    lemma_scaled_range(v, c, lo, hi);
    assert((d - u - v) * lo + u * lo + v * lo == d * lo) by (nonlinear_arith);
    assert((d - u - v) * hi + u * hi + v * hi == d * hi) by (nonlinear_arith);
}

impl Triangle {
    pub open spec fn wf(&self) -> bool {
        self.v0.wf() && self.v1.wf() && self.v2.wf()
    }

    pub open spec fn aabb_spec(&self) -> Aabb {
        Aabb {
            min: Point3 {
                x: min_i(min_i(self.v0.x, self.v1.x), self.v2.x),
                y: min_i(min_i(self.v0.y, self.v1.y), self.v2.y),
                z: min_i(min_i(self.v0.z, self.v1.z), self.v2.z),
            },
            max: Point3 {
                x: max_i(max_i(self.v0.x, self.v1.x), self.v2.x),
                y: max_i(max_i(self.v0.y, self.v1.y), self.v2.y),
                z: max_i(max_i(self.v0.z, self.v1.z), self.v2.z),
            },
        }
    }

    pub fn new(v0: Point3, v1: Point3, v2: Point3) -> (r: Triangle)
        ensures
            r.v0 == v0 && r.v1 == v1 && r.v2 == v2 && r.node_index == 0,
    {
        Triangle { v0, v1, v2, node_index: 0 }
    }

    /// Componentwise minimum and maximum of the three vertices.
    pub fn aabb(&self) -> (r: Aabb)
        ensures
            r == self.aabb_spec(),
            self.wf() ==> r.wf(),
    {
        let a = Aabb { min: self.v0, max: self.v0 };
        let b = Aabb { min: self.v1, max: self.v1 };
        let c = Aabb { min: self.v2, max: self.v2 };
        a.union(&b).union(&c)
    }

    pub fn set_bh_node_index(&mut self, index: usize)
        ensures
            final(self).node_index == index,
            final(self).v0 == old(self).v0,
            final(self).v1 == old(self).v1,
            final(self).v2 == old(self).v2,
    {
        self.node_index = index;
    }

    pub fn bh_node_index(&self) -> (r: usize)
        ensures
            r == self.node_index,
    {
        self.node_index
    }

    /// Möller–Trumbore intersection with an upward ray: the distance from the
    /// ray's origin to the hit, rounded up to the nanometre, or `None` when
    /// the determinant is below `PARALLEL_EPSILON` in magnitude (the triangle
    /// counts as parallel to the ray), the ray passes outside the triangle, or
    /// the hit is not strictly more than `HIT_EPSILON` above the origin.
    pub fn intersect(&self, ray: &Ray) -> (r: Option<i64>)
        requires
            self.wf(),
            ray.origin.wf(),
        ensures
            r.is_some() == ray_hits(self.v0, self.v1, self.v2, ray.origin),
            r matches Some(t) ==> t == hit_distance(self.v0, self.v1, self.v2, ray.origin),
            r matches Some(t) ==> t > HIT_EPSILON,
            r matches Some(t) ==> self.aabb_spec().min.z <= ray.origin.z + t
                <= self.aabb_spec().max.z,
    {
        let o = ray.origin;
        let e1x = self.v1.x as i128 - self.v0.x as i128;
        let e1y = self.v1.y as i128 - self.v0.y as i128;
        let e1z = self.v1.z as i128 - self.v0.z as i128;
        let e2x = self.v2.x as i128 - self.v0.x as i128;
        let e2y = self.v2.y as i128 - self.v0.y as i128;
        let e2z = self.v2.z as i128 - self.v0.z as i128;
        let sx = o.x as i128 - self.v0.x as i128;
        let sy = o.y as i128 - self.v0.y as i128;
        let sz = self.v0.z as i128 - o.z as i128;
        let b: i128 = 8589934592;
        let bb = self.aabb();
        let lo = bb.min.z as i128 - o.z as i128;
        let hi = bb.max.z as i128 - o.z as i128;
        proof {
            lemma_product_bound(e1y as int, e2x as int, b as int, b as int);
            lemma_product_bound(e1x as int, e2y as int, b as int, b as int);
            lemma_product_bound(sy as int, e2x as int, b as int, b as int);
            lemma_product_bound(sx as int, e2y as int, b as int, b as int);
            lemma_product_bound(sx as int, e1y as int, b as int, b as int);
            lemma_product_bound(sy as int, e1x as int, b as int, b as int);
        }
        let det = e1y * e2x - e1x * e2y;
        let d: i128 = if det < 0 { -det } else { det };
        if d < PARALLEL_EPSILON as i128 {
            return None;
        }
        let u0 = sy * e2x - sx * e2y;
        let w0 = sx * e1y - sy * e1x;
        let u: i128 = if det < 0 { -u0 } else { u0 };
        let v: i128 = if det < 0 { -w0 } else { w0 };
        assert(det == mt_det(self.v0, self.v1, self.v2));
        assert(u0 == mt_u(self.v0, self.v2, o));
        assert(w0 == mt_v(self.v0, self.v1, o));
        if u < 0 || u > d || v < 0 || u + v > d {
            return None;
        }
        proof {
            lemma_interp_range(
                d as int,
                u as int,
                v as int,
                sz as int,
                (self.v1.z - o.z) as int,
                (self.v2.z - o.z) as int,
                lo as int,
                hi as int,
            );
            lemma_product_bound(d as int, sz as int, 2 * b * b, b as int);
            lemma_product_bound(u as int, e1z as int, 2 * b * b, b as int);
            lemma_product_bound(v as int, e2z as int, 2 * b * b, b as int);
            lemma_scaled_range(d as int, lo as int, -b, b as int);
            lemma_scaled_range(d as int, hi as int, -b, b as int);
        }
        let tn = d * sz + u * e1z + v * e2z;
        assert(tn == mt_t(self.v0, self.v1, self.v2, o));
        if tn <= d * (HIT_EPSILON as i128) {
            return None;
        }
        let t = (tn + d - 1) / d;
        assert(t > HIT_EPSILON && lo <= t <= hi) by (nonlinear_arith)
            requires
                d > 0,
                tn > d * 1,
                d * lo <= tn <= d * hi,
                t == (tn as int + d as int - 1) / (d as int),
        ;
        Some(t as i64)
    }
}

} // verus!
