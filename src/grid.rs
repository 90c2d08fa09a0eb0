use vstd::prelude::*;
use crate::geometry::{Aabb, Point3, Ray, Triangle, MESH_LIMIT};
use crate::spans::all_wf;

verus! {

/// How far below the mesh the column rays start, in nanometres (1 mm).
pub const RAY_DROP: i64 = 1000000;

/// Nanometres in a micrometre, the unit of layer labels.
pub const NM_PER_UM: i64 = 1000;

/// `a / b` rounded up, for `a >= 0` and `b > 0`.
pub open spec fn ceil_div(a: int, b: int) -> int {
    (a + b - 1) / b
}

/// `a / b` rounded to the nearest integer, halves away from zero, for `b > 0`.
pub open spec fn round_div(a: int, b: int) -> int {
    if a >= 0 {
        (a + b / 2) / b
    } else {
        -((-a + b / 2) / b)
    }
}

/// The bounding box of all triangles: the union of their boxes, in order.
pub open spec fn bounds_of(tris: Seq<Triangle>) -> Aabb
    recommends
        tris.len() > 0,
    decreases tris.len(),
{
    if tris.len() <= 1 {
        tris[0].aabb_spec()
    } else {
        bounds_of(tris.drop_last()).union_spec(tris.last().aabb_spec())
    }
}

/// Each triangle's box lies within the bounds of the mesh.
pub proof fn lemma_bounds_hold(tris: Seq<Triangle>, i: int)
    requires
        0 <= i < tris.len(),
    ensures
        bounds_of(tris).min.x <= tris[i].aabb_spec().min.x,
        bounds_of(tris).min.y <= tris[i].aabb_spec().min.y,
        bounds_of(tris).min.z <= tris[i].aabb_spec().min.z,
        tris[i].aabb_spec().max.x <= bounds_of(tris).max.x,
        tris[i].aabb_spec().max.y <= bounds_of(tris).max.y,
        tris[i].aabb_spec().max.z <= bounds_of(tris).max.z,
    decreases tris.len(),
{
    if tris.len() > 1 && i < tris.len() - 1 {
        lemma_bounds_hold(tris.drop_last(), i);
    }
}

pub open spec fn mesh_ok(c: i64) -> bool {
    -MESH_LIMIT <= c <= MESH_LIMIT
}

/// A box that a mesh may occupy: well formed, within `MESH_LIMIT`.
pub open spec fn box_in_range(b: Aabb) -> bool {
    b.wf() && mesh_ok(b.min.x) && mesh_ok(b.min.y) && mesh_ok(b.min.z) && mesh_ok(b.max.x)
        && mesh_ok(b.max.y) && mesh_ok(b.max.z)
}

/// The bounds of the mesh: `None` for a mesh without triangles.
pub fn mesh_bounds(tris: &Vec<Triangle>) -> (r: Option<Aabb>)
    requires
        all_wf(tris@),
    ensures
        tris@.len() == 0 <==> r.is_none(),
        r matches Some(b) ==> b == bounds_of(tris@) && b.wf(),
{
    if tris.len() == 0 {
        return None;
    }
    let mut acc = tris[0].aabb();
    let mut i: usize = 1;
    while i < tris.len()
        invariant
            1 <= i <= tris.len(),
            all_wf(tris@),
            acc == bounds_of(tris@.take(i as int)),
            acc.wf(),
        decreases tris.len() - i,
    {
        assert(tris@.take(i as int + 1).drop_last() == tris@.take(i as int));
        let b = tris[i].aabb();
        acc = acc.union(&b);
        i += 1;
    }
    assert(tris@.take(tris.len() as int) == tris@);
    Some(acc)
}

/// The raster grid and layer schedule of a slicing run.
#[derive(Clone, Copy, Debug)]
pub struct RasterGrid {
    pub bounds: Aabb,
    pub pixel_size_nm: i64,
    pub layer_height_nm: i64,
    pub width_px: u32,
    pub height_px: u32,
    pub num_layers: u32,
}

impl RasterGrid {
    pub open spec fn wf(&self) -> bool {
        &&& box_in_range(self.bounds)
        &&& 1 <= self.pixel_size_nm <= MESH_LIMIT
        &&& 1 <= self.layer_height_nm <= MESH_LIMIT
        &&& self.width_px == ceil_div(
            self.bounds.max.x - self.bounds.min.x,
            self.pixel_size_nm as int,
        )
        &&& self.height_px == ceil_div(
            self.bounds.max.y - self.bounds.min.y,
            self.pixel_size_nm as int,
        )
        &&& self.num_layers == ceil_div(
            self.bounds.max.z - self.bounds.min.z,
            self.layer_height_nm as int,
        )
    }

    /// Height of layer `i`: the bottom of the mesh plus `i` layers.
    pub open spec fn layer_z_spec(&self, i: int) -> int {
        self.bounds.min.z + i * self.layer_height_nm
    }

    /// Centre of the footprint of pixel `(x, y)`, rounded down to the nanometre.
    pub open spec fn center_spec(&self, x: int, y: int) -> (int, int) {
        (
            self.bounds.min.x + x * self.pixel_size_nm + self.pixel_size_nm / 2,
            self.bounds.min.y + y * self.pixel_size_nm + self.pixel_size_nm / 2,
        )
    }

    /// The grid over the given bounds: as many pixels and layers as it takes
    /// to cover the bounds' extent, each rounded up.
    pub fn new(bounds: &Aabb, pixel_size_nm: i64, layer_height_nm: i64) -> (r: RasterGrid)
        requires
            box_in_range(*bounds),
            1 <= pixel_size_nm <= MESH_LIMIT,
            1 <= layer_height_nm <= MESH_LIMIT,
        ensures
            r.wf(),
            r.bounds == *bounds,
            r.pixel_size_nm == pixel_size_nm,
            r.layer_height_nm == layer_height_nm,
            r.width_px * pixel_size_nm >= bounds.max.x - bounds.min.x,
            r.height_px * pixel_size_nm >= bounds.max.y - bounds.min.y,
            r.num_layers * layer_height_nm >= bounds.max.z - bounds.min.z,
            bounds.max.x > bounds.min.x ==> r.width_px >= 1,
            bounds.max.y > bounds.min.y ==> r.height_px >= 1,
    {
        let w = ceil_steps(bounds.max.x - bounds.min.x, pixel_size_nm);
        let h = ceil_steps(bounds.max.y - bounds.min.y, pixel_size_nm);
        let n = ceil_steps(bounds.max.z - bounds.min.z, layer_height_nm);
        RasterGrid {
            bounds: *bounds,
            pixel_size_nm,
            layer_height_nm,
            width_px: w,
            height_px: h,
            num_layers: n,
        }
    }

    /// Height of layer `i`.
    pub fn layer_z(&self, i: u32) -> (r: i64)
        requires
            self.wf(),
            i < self.num_layers,
        ensures
            r == self.layer_z_spec(i as int),
            self.bounds.min.z <= r < self.bounds.max.z + self.layer_height_nm,
    {
        proof {
            lemma_within_steps(
                i as int,
                self.layer_height_nm as int,
                self.bounds.max.z - self.bounds.min.z,
            );
        }
        self.bounds.min.z + (i as i64) * self.layer_height_nm
    }

    /// The upward ray through the centre of pixel `(x, y)`, starting
    /// `RAY_DROP` below the mesh.
    pub fn column_ray(&self, x: u32, y: u32) -> (r: Ray)
        requires
            self.wf(),
            x < self.width_px,
            y < self.height_px,
        ensures
            r.origin.wf(),
            r.origin.x == self.center_spec(x as int, y as int).0,
            r.origin.y == self.center_spec(x as int, y as int).1,
            r.origin.z == self.bounds.min.z - RAY_DROP,
    {
        proof {
            lemma_within_steps(
                x as int,
                self.pixel_size_nm as int,
                self.bounds.max.x - self.bounds.min.x,
            );
            lemma_within_steps(
                y as int,
                self.pixel_size_nm as int,
                self.bounds.max.y - self.bounds.min.y,
            );
        }
        let half = self.pixel_size_nm / 2;
        let px = self.bounds.min.x + (x as i64) * self.pixel_size_nm + half;
        let py = self.bounds.min.y + (y as i64) * self.pixel_size_nm + half;
        Ray { origin: Point3 { x: px, y: py, z: self.bounds.min.z - RAY_DROP } }
    }
}

/// A step index below the rounded-up count stays within one step past the extent.
proof fn lemma_within_steps(i: int, step: int, extent: int)
    requires
        0 <= i < ceil_div(extent, step),
        0 <= extent,
        1 <= step,
    ensures
        0 <= i * step < extent + step,
{
    assert(0 <= i * step < extent + step) by (nonlinear_arith)
        requires
            0 <= i < (extent + step - 1) / step,
            0 <= extent,
            1 <= step,
    ;
}

/// The rounded-up count of steps covers the extent, and is at least one for
/// a positive extent.
pub(crate) proof fn lemma_ceil_div(a: int, b: int)
    requires
        0 <= a,
        1 <= b,
    ensures
        ceil_div(a, b) * b >= a,
        0 <= ceil_div(a, b) <= a,
        a > 0 ==> ceil_div(a, b) >= 1,
{
    assert(ceil_div(a, b) * b >= a) by (nonlinear_arith)
        requires
            0 <= a,
            1 <= b,
            ceil_div(a, b) == (a + b - 1) / b,
    ;
    assert(0 <= ceil_div(a, b) <= a) by (nonlinear_arith)
        requires
            0 <= a,
            1 <= b,
            ceil_div(a, b) == (a + b - 1) / b,
    ;
}

/// The number of steps of length `step` that cover `extent`.
fn ceil_steps(extent: i64, step: i64) -> (r: u32)
    requires
        0 <= extent <= 2 * MESH_LIMIT,
        1 <= step <= MESH_LIMIT,
    ensures
        r == ceil_div(extent as int, step as int),
        r * step >= extent,
        extent > 0 ==> r >= 1,
{
    proof {
        lemma_ceil_div(extent as int, step as int);
    }
    ((extent + step - 1) / step) as u32
}

} // verus!
