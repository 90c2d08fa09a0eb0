use vstd::prelude::*;
use vstd::arithmetic::div_mod::{lemma_div_pos_is_pos, lemma_fundamental_div_mod};
use vstd::relations::{sorted_by, total_ordering};
use vstd::seq_lib::lemma_sorted_unique;
use crate::grid::{lemma_ceil_div, RasterGrid};
use crate::raster::{is_layer_bitmap, SpanGrid};
use crate::spans::{is_column_spans, is_sorted, lemma_pairs_ordered, spans_ordered};

verus! {

/// The spans of a column are entered before they are left, sorted, and do
/// not overlap.
pub proof fn lemma_column_spans_ordered(r: Seq<(i64, i64)>, xs: Seq<i64>)
    requires
        is_column_spans(r, xs),
    ensures
        spans_ordered(r),
{
    let h = choose|h: Seq<i64>|
        is_sorted(h) && h.to_multiset() == xs.to_multiset() && r == crate::spans::pairs(h);
    lemma_pairs_ordered(h);
}

proof fn lemma_leq_total()
    ensures
        total_ordering(|a: i64, b: i64| a <= b),
{
}

/// The spans of a column are determined by its crossings: two runs on the
/// same crossings give the same spans, whatever order the crossings came in.
pub proof fn lemma_column_spans_deterministic(r1: Seq<(i64, i64)>, r2: Seq<(i64, i64)>, xs: Seq<i64>)
    requires
        is_column_spans(r1, xs),
        is_column_spans(r2, xs),
    ensures
        r1 == r2,
{
    let leq = |a: i64, b: i64| a <= b;
    let h1 = choose|h: Seq<i64>|
        is_sorted(h) && h.to_multiset() == xs.to_multiset() && r1 == crate::spans::pairs(h);
    let h2 = choose|h: Seq<i64>|
        is_sorted(h) && h.to_multiset() == xs.to_multiset() && r2 == crate::spans::pairs(h);
    lemma_leq_total();
    assert(sorted_by(h1, leq));
    assert(sorted_by(h2, leq));
    lemma_sorted_unique(h1, h2, leq);
    assert(h1 == h2);
}

/// A layer's bitmap is determined by the span grid and the layer's height:
/// rerunning a layer gives the same bytes.
pub proof fn lemma_layer_bitmap_deterministic(a: Seq<u8>, b: Seq<u8>, g: SpanGrid, z: int)
    requires
        is_layer_bitmap(a, g, z),
        is_layer_bitmap(b, g, z),
    ensures
        a == b,
{
    assert forall|i: int| 0 <= i < a.len() implies a[i] == b[i] by {
        let w = g.width as int;
        let h = g.height as int;
        let row = i / w;
        let x = i % w;
        assert(w > 0) by (nonlinear_arith)
            requires
                0 <= i < w * h,
                w >= 0,
                h >= 0,
        ;
        lemma_fundamental_div_mod(i, w);
        lemma_div_pos_is_pos(i, w);
        assert(0 <= x < w);
        assert(row < h) by (nonlinear_arith)
            requires
                w * row <= i,
                i < w * h,
                w > 0,
        ;
        assert(i == row * w + x) by (nonlinear_arith)
            requires
                i == w * row + x,
        ;
        let y = h - 1 - row;
        assert(a[(h - 1 - y) * w + x] == b[(h - 1 - y) * w + x]);
    }
    assert(a =~= b);
}

/// The raster covers the mesh's footprint and the layers its height: the
/// grid's width and height in pixels times the pixel size, and its number of
/// layers times the layer height, reach the bounds' extent.
pub proof fn lemma_grid_covers_bounds(g: RasterGrid)
    requires
        g.wf(),
    ensures
        g.width_px * g.pixel_size_nm >= g.bounds.max.x - g.bounds.min.x,
        g.height_px * g.pixel_size_nm >= g.bounds.max.y - g.bounds.min.y,
        g.num_layers * g.layer_height_nm >= g.bounds.max.z - g.bounds.min.z,
{
    lemma_ceil_div(g.bounds.max.x - g.bounds.min.x, g.pixel_size_nm as int);
    lemma_ceil_div(g.bounds.max.y - g.bounds.min.y, g.pixel_size_nm as int);
    lemma_ceil_div(g.bounds.max.z - g.bounds.min.z, g.layer_height_nm as int);
}

} // verus!
