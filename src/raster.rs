use vstd::prelude::*;

verus! {

/// Tolerance of the slab test, in nanometres (1e-4 mm): a layer that touches
/// a span within this distance is inside it.
pub const SLAB_EPSILON: i64 = 100;

/// Grey value of a pixel inside the solid.
pub const WHITE: u8 = 255;

/// Grey value of a pixel outside the solid.
pub const BLACK: u8 = 0;

/// Whether height `z` lies in the span widened by `SLAB_EPSILON` at both ends.
pub open spec fn in_slab(span: (i64, i64), z: int) -> bool {
    (span.0 as int) - (SLAB_EPSILON as int) <= z && z <= (span.1 as int) + (SLAB_EPSILON as int)
}

/// Whether height `z` lies in one of the spans, each widened by `SLAB_EPSILON`.
pub open spec fn covers_spec(spans: Seq<(i64, i64)>, z: int) -> bool {
    exists|k: int| 0 <= k < spans.len() && #[trigger] in_slab(spans[k], z)
}

pub open spec fn pixel_value(inside: bool) -> u8 {
    if inside {
        WHITE
    } else {
        BLACK
    }
}

/// The slab membership test of one column at height `z`.
pub fn covers(spans: &Vec<(i64, i64)>, z: i64) -> (r: bool)
    ensures
        r == covers_spec(spans@, z as int),
{
    let zz = z as i128;
    let mut k: usize = 0;
    while k < spans.len()
        invariant
            k <= spans.len(),
            zz == z,
            forall|j: int| 0 <= j < k ==> !#[trigger] in_slab(spans@[j], z as int),
        decreases spans.len() - k,
    {
        let enter = spans[k].0 as i128;
        let exit = spans[k].1 as i128;
        let eps = SLAB_EPSILON as i128;
        if enter - eps <= zz && zz <= exit + eps {
            assert(in_slab(spans@[k as int], z as int));
            return true;
        }
        k += 1;
    }
    false
}

/// The span lists of all pixel columns, row-major: the list of column
/// `(x, y)` is `cells[y * width + x]`.
pub struct SpanGrid {
    pub width: u32,
    pub height: u32,
    pub cells: Vec<Vec<(i64, i64)>>,
}

impl SpanGrid {
    pub open spec fn wf(&self) -> bool {
        self.cells@.len() == self.width * self.height
    }

    pub open spec fn cell(&self, x: int, y: int) -> Seq<(i64, i64)> {
        self.cells@[y * self.width + x]@
    }

    /// A grid of `width` by `height` columns, or `None` where the number of
    /// span lists is not `width * height`.
    pub fn new(width: u32, height: u32, cells: Vec<Vec<(i64, i64)>>) -> (r: Option<SpanGrid>)
        ensures
            r.is_some() == (cells@.len() == width * height),
            r matches Some(g) ==> g.wf() && g.width == width && g.height == height && g.cells@
                == cells@,
    {
        proof {
            lemma_row_index(0, 0, width as int + 1, height as int + 1);
            assert((width as int) * (height as int) <= 0xffff_ffff * 0xffff_ffff) by (nonlinear_arith)
                requires
                    width <= 0xffff_ffff,
                    height <= 0xffff_ffff,
            ;
        }
        if (width as u64) * (height as u64) == cells.len() as u64 {
            Some(SpanGrid { width, height, cells })
        } else {
            None
        }
    }
}

proof fn lemma_row_index(r: int, x: int, w: int, h: int)
    requires
        0 <= r < h,
        0 <= x < w,
    ensures
        0 <= r * w + x < h * w,
        r * w <= r * w + x < (r + 1) * w,
{
    assert(0 <= r * w + x < h * w) by (nonlinear_arith)
        requires
            0 <= r < h,
            0 <= x < w,
    ;
    assert((r + 1) * w == r * w + w) by (nonlinear_arith);
}

/// Whether the bitmap `img` of a `w` by `h` grid shows the columns' membership
/// at height `z`, with image row `h - 1 - y` showing grid row `y`.
pub open spec fn is_layer_bitmap(img: Seq<u8>, g: SpanGrid, z: int) -> bool {
    &&& img.len() == g.width * g.height
    &&& forall|x: int, y: int|
        0 <= x < g.width && 0 <= y < g.height ==> #[trigger] img[(g.height - 1 - y) * g.width + x]
            == pixel_value(covers_spec(g.cell(x, y), z))
}

/// The binary bitmap of the layer at height `z`.
pub fn render_layer(g: &SpanGrid, z: i64) -> (r: Vec<u8>)
    requires
        g.wf(),
    ensures
        is_layer_bitmap(r@, *g, z as int),
        forall|i: int| 0 <= i < r@.len() ==> #[trigger] r@[i] == WHITE || r@[i] == BLACK,
{
    let n = g.cells.len();
    let w = g.width as usize;
    let h = g.height as usize;
    let mut img: Vec<u8> = Vec::new();
    let mut row: usize = 0;
    while row < h
        invariant
            g.wf(),
            n == g.cells@.len(),
            w == g.width,
            h == g.height,
            row <= h,
            img@.len() == row * w,
            forall|rr: int, x: int|
                0 <= rr < row && 0 <= x < w ==> #[trigger] img@[rr * w + x] == pixel_value(
                    covers_spec(g.cell(x, h - 1 - rr), z as int),
                ),
            forall|i: int| 0 <= i < img@.len() ==> #[trigger] img@[i] == WHITE || img@[i] == BLACK,
        decreases h - row,
    {
        let y = h - 1 - row;
        let mut x: usize = 0;
        while x < w
            invariant
                g.wf(),
                n == g.cells@.len(),
                w == g.width,
                h == g.height,
                row < h,
                y == h - 1 - row,
                x <= w,
                img@.len() == row * w + x,
                forall|rr: int, xx: int|
                    0 <= rr < row && 0 <= xx < w ==> #[trigger] img@[rr * w + xx] == pixel_value(
                        covers_spec(g.cell(xx, h - 1 - rr), z as int),
                    ),
                forall|xx: int|
                    0 <= xx < x ==> #[trigger] img@[row * w + xx] == pixel_value(
                        covers_spec(g.cell(xx, y as int), z as int),
                    ),
                forall|i: int|
                    0 <= i < img@.len() ==> #[trigger] img@[i] == WHITE || img@[i] == BLACK,
            decreases w - x,
        {
            proof {
                lemma_row_index(y as int, x as int, w as int, h as int);
                lemma_row_index(row as int, x as int, w as int, h as int);
                assert(g.cells@.len() == h * w) by (nonlinear_arith)
                    requires
                        g.cells@.len() == w * h,
                ;
            }
            assert((y as int) * (w as int) + (x as int) < g.cells@.len());
            let yw: usize = y * w;
            let idx: usize = yw + x;
            let inside = covers(&g.cells[idx], z);
            img.push(if inside { WHITE } else { BLACK });
            proof {
                assert forall|rr: int, xx: int|
                    0 <= rr < row && 0 <= xx < w implies #[trigger] img@[rr * w + xx]
                    == pixel_value(covers_spec(g.cell(xx, h - 1 - rr), z as int)) by {
                    lemma_row_index(rr, xx, w as int, row as int);
                }
            }
            x += 1;
        }
        proof {
            assert((row + 1) * w == row * w + w) by (nonlinear_arith);
            assert forall|rr: int, xx: int|
                0 <= rr < row + 1 && 0 <= xx < w implies #[trigger] img@[rr * w + xx]
                == pixel_value(covers_spec(g.cell(xx, h - 1 - rr), z as int)) by {
                if rr < row {
                } else {
                    assert(rr == row);
                }
            }
        }
        row += 1;
    }
    proof {
        assert(img@.len() == g.width * g.height) by (nonlinear_arith)
            requires
                img@.len() == h * w,
                w == g.width,
                h == g.height,
        ;
        assert forall|x: int, y: int|
            0 <= x < g.width && 0 <= y < g.height implies #[trigger] img@[(g.height - 1 - y)
            * g.width + x] == pixel_value(covers_spec(g.cell(x, y), z as int)) by {
            let rr = h - 1 - y;
            assert(h - 1 - rr == y);
        }
    }
    img
}

} // verus!
