use vstd::prelude::*;
use crate::grid::{round_div, RasterGrid, NM_PER_UM};
use crate::raster::{is_layer_bitmap, render_layer, SpanGrid, BLACK, WHITE};

verus! {

/// Progress is reported after every this many finished layers.
pub const PROGRESS_EVERY: u32 = 5;

/// The pixel size used where none is given: 33.3333 µm, in nanometres.
pub const DEFAULT_PIXEL_SIZE_NM: i64 = 33333;

/// The layer height used where none is given: 20 µm, in nanometres.
pub const DEFAULT_LAYER_HEIGHT_NM: i64 = 20000;

/// The options of a slicing run. Lengths are in nanometres.
pub struct SlicerConfig {
    pub input_path: String,
    pub output_dir: String,
    pub pixel_size_nm: i64,
    pub layer_height_nm: i64,
    pub zero_slice_position: bool,
    pub delete_below_zero: bool,
    pub delete_output_dir: bool,
    pub open_output_dir: bool,
}

/// The label of layer `i` in micrometres: its height rounded to the
/// micrometre, or, with `zero_slice_position`, its height above the bottom
/// layer.
pub open spec fn layer_label_spec(g: RasterGrid, i: int, zero_slice_position: bool) -> int {
    if zero_slice_position {
        round_div(i * g.layer_height_nm, NM_PER_UM as int)
    } else {
        round_div(g.layer_z_spec(i), NM_PER_UM as int)
    }
}

/// Whether layer `i` is written: all are, but those below zero where
/// `delete_below_zero` is set.
pub open spec fn layer_emitted(g: RasterGrid, i: int, delete_below_zero: bool) -> bool {
    !(delete_below_zero && g.layer_z_spec(i) < 0)
}

/// A rasterised layer: its label in micrometres and its bitmap, row-major,
/// one byte per pixel.
pub struct Layer {
    pub index: u32,
    pub label_um: i64,
    pub width: u32,
    pub height: u32,
    pub pixels: Vec<u8>,
}

/// `a / 1000` rounded to the nearest integer, halves away from zero.
fn round_to_um(a: i64) -> (r: i64)
    requires
        -0x1_0000_0000_0000 <= a <= 0x1_0000_0000_0000,
    ensures
        r == round_div(a as int, NM_PER_UM as int),
{
    if a >= 0 {
        (a + NM_PER_UM / 2) / NM_PER_UM
    } else {
        -((-a + NM_PER_UM / 2) / NM_PER_UM)
    }
}

/// The label of layer `i`, in micrometres.
pub fn layer_label(g: &RasterGrid, i: u32, zero_slice_position: bool) -> (r: i64)
    requires
        g.wf(),
        i < g.num_layers,
    ensures
        r == layer_label_spec(*g, i as int, zero_slice_position),
{
    let z = g.layer_z(i);
    if zero_slice_position {
        round_to_um(z - g.bounds.min.z)
    } else {
        round_to_um(z)
    }
}

/// Whether layer `i` is written under the option `delete_below_zero`.
pub fn is_layer_emitted(g: &RasterGrid, i: u32, delete_below_zero: bool) -> (r: bool)
    requires
        g.wf(),
        i < g.num_layers,
    ensures
        r == layer_emitted(*g, i as int, delete_below_zero),
{
    !(delete_below_zero && g.layer_z(i) < 0)
}

/// The layer `i` of the run: `None` where it is not written, else its label
/// and its bitmap at the layer's height.
pub fn layer_image(g: &RasterGrid, spans: &SpanGrid, cfg: &SlicerConfig, i: u32) -> (r: Option<
    Layer,
>)
    requires
        g.wf(),
        spans.wf(),
        spans.width == g.width_px,
        spans.height == g.height_px,
        i < g.num_layers,
    ensures
        r.is_some() == layer_emitted(*g, i as int, cfg.delete_below_zero),
        r matches Some(l) ==> {
            &&& l.index == i
            &&& l.label_um == layer_label_spec(*g, i as int, cfg.zero_slice_position)
            &&& l.width == g.width_px
            &&& l.height == g.height_px
            &&& is_layer_bitmap(l.pixels@, *spans, g.layer_z_spec(i as int))
            &&& forall|k: int|
                0 <= k < l.pixels@.len() ==> #[trigger] l.pixels@[k] == WHITE || l.pixels@[k]
                    == BLACK
        },
{
    if !is_layer_emitted(g, i, cfg.delete_below_zero) {
        return None;
    }
    let z = g.layer_z(i);
    let pixels = render_layer(spans, z);
    let label_um = layer_label(g, i, cfg.zero_slice_position);
    Some(Layer { index: i, label_um, width: spans.width, height: spans.height, pixels })
}

/// The indices of the layers that are written, in ascending order.
pub fn emitted_layers(g: &RasterGrid, delete_below_zero: bool) -> (r: Vec<u32>)
    requires
        g.wf(),
    ensures
        forall|k: int| 0 <= k < r@.len() ==> #[trigger] r@[k] < g.num_layers,
        forall|k: int, j: int| 0 <= k < j < r@.len() ==> r@[k] < r@[j],
        forall|i: int|
            0 <= i < g.num_layers ==> (layer_emitted(*g, i, delete_below_zero) <==> r@.contains(
                i as u32,
            )),
{
    let mut out: Vec<u32> = Vec::new();
    let mut i: u32 = 0;
    while i < g.num_layers
        invariant
            g.wf(),
            i <= g.num_layers,
            forall|k: int| 0 <= k < out@.len() ==> #[trigger] out@[k] < i,
            forall|k: int, j: int| 0 <= k < j < out@.len() ==> out@[k] < out@[j],
            forall|m: int|
                0 <= m < i ==> (layer_emitted(*g, m, delete_below_zero) <==> out@.contains(
                    m as u32,
                )),
        decreases g.num_layers - i,
    {
        let ghost before = out@;
        if is_layer_emitted(g, i, delete_below_zero) {
            out.push(i);
            assert(out@[out@.len() - 1] == i);
        }
        assert forall|m: int| 0 <= m < i + 1 implies (layer_emitted(*g, m, delete_below_zero)
            <==> out@.contains(m as u32)) by {
            if m < i {
                if out@.contains(m as u32) && !before.contains(m as u32) {
                    let k = choose|k: int| 0 <= k < out@.len() && out@[k] == m as u32;
                    assert(k == before.len());
                }
                if before.contains(m as u32) {
                    let k = choose|k: int| 0 <= k < before.len() && before[k] == m as u32;
                    assert(out@[k] == m as u32);
                }
            } else {
                if out@.contains(m as u32) && !before.contains(m as u32) {
                } else if out@.contains(m as u32) {
                    let k = choose|k: int| 0 <= k < before.len() && before[k] == m as u32;
                    assert(before[k] < i);
                }
            }
        }
        i += 1;
    }
    out
}

/// Whether finishing the `completed`-th of `total` layers is reported: every
/// `PROGRESS_EVERY` layers, and at the last one.
pub fn should_report_progress(completed: u32, total: u32) -> (r: bool)
    ensures
        r == (completed % PROGRESS_EVERY == 0 || completed == total),
{
    completed % PROGRESS_EVERY == 0 || completed == total
}

} // verus!
