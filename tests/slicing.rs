use rs_licer::{
    column_crossings, column_spans, covers, emitted_layers, layer_image, mesh_bounds,
    pair_spans, render_layer, Aabb, Layer, Point3, RasterGrid, Ray, SlicerConfig, SpanGrid,
    Triangle,
};

const MM: i64 = 1_000_000;

fn p(x: i64, y: i64, z: i64) -> Point3 {
    Point3::new(x, y, z)
}

/// A quad `c0 c1 c2 c3` as a fan of four triangles around an inner point,
/// placed so that no fan edge passes through a pixel centre of a 1 mm grid.
fn fan_quad(out: &mut Vec<Triangle>, c0: Point3, c1: Point3, c2: Point3, c3: Point3) {
    let inner = Point3::new(
        c0.x + (c1.x - c0.x) * 51 / 100 + (c3.x - c0.x) * 43 / 100,
        c0.y + (c1.y - c0.y) * 51 / 100 + (c3.y - c0.y) * 43 / 100,
        c0.z + (c1.z - c0.z) * 51 / 100 + (c3.z - c0.z) * 43 / 100,
    );
    out.push(Triangle::new(c0, c1, inner));
    out.push(Triangle::new(c1, c2, inner));
    out.push(Triangle::new(c2, c3, inner));
    out.push(Triangle::new(c3, c0, inner));
}

fn add_box(out: &mut Vec<Triangle>, lo: Point3, hi: Point3) {
    let (a, b) = (lo, hi);
    // bottom and top
    fan_quad(out, p(a.x, a.y, a.z), p(b.x, a.y, a.z), p(b.x, b.y, a.z), p(a.x, b.y, a.z));
    fan_quad(out, p(a.x, a.y, b.z), p(b.x, a.y, b.z), p(b.x, b.y, b.z), p(a.x, b.y, b.z));
    // sides
    fan_quad(out, p(a.x, a.y, a.z), p(b.x, a.y, a.z), p(b.x, a.y, b.z), p(a.x, a.y, b.z));
    fan_quad(out, p(a.x, b.y, a.z), p(b.x, b.y, a.z), p(b.x, b.y, b.z), p(a.x, b.y, b.z));
    fan_quad(out, p(a.x, a.y, a.z), p(a.x, b.y, a.z), p(a.x, b.y, b.z), p(a.x, a.y, b.z));
    fan_quad(out, p(b.x, a.y, a.z), p(b.x, b.y, a.z), p(b.x, b.y, b.z), p(b.x, a.y, b.z));
}

fn cube(lo: i64, hi: i64) -> Vec<Triangle> {
    let mut t = Vec::new();
    add_box(&mut t, p(lo, lo, lo), p(hi, hi, hi));
    t
}

fn all_indices(tris: &Vec<Triangle>) -> Vec<usize> {
    (0..tris.len()).collect()
}

fn config(zero_slice_position: bool, delete_below_zero: bool) -> SlicerConfig {
    SlicerConfig {
        input_path: "mesh.stl".to_string(),
        output_dir: "out".to_string(),
        pixel_size_nm: MM,
        layer_height_nm: MM,
        zero_slice_position,
        delete_below_zero,
        delete_output_dir: true,
        open_output_dir: false,
    }
}

fn trace(tris: &Vec<Triangle>, pixel: i64, layer: i64) -> (RasterGrid, SpanGrid) {
    let bounds = mesh_bounds(tris).expect("mesh has triangles");
    let grid = RasterGrid::new(&bounds, pixel, layer);
    let cands = all_indices(tris);
    let mut cells = Vec::new();
    for y in 0..grid.height_px {
        for x in 0..grid.width_px {
            let ray = grid.column_ray(x, y);
            cells.push(column_spans(tris, &cands, &ray));
        }
    }
    let spans = SpanGrid::new(grid.width_px, grid.height_px, cells).expect("one list per column");
    (grid, spans)
}

fn run(tris: &Vec<Triangle>, cfg: &SlicerConfig) -> (RasterGrid, Vec<Layer>) {
    let (grid, spans) = trace(tris, cfg.pixel_size_nm, cfg.layer_height_nm);
    let mut layers = Vec::new();
    for i in 0..grid.num_layers {
        if let Some(l) = layer_image(&grid, &spans, cfg, i) {
            layers.push(l);
        }
    }
    (grid, layers)
}

fn labels(layers: &[Layer]) -> Vec<i64> {
    layers.iter().map(|l| l.label_um).collect()
}

#[test]
fn unit_cube_axis_aligned() {
    let tris = cube(0, 10 * MM);
    let (grid, layers) = run(&tris, &config(false, false));
    assert_eq!(grid.width_px, 10);
    assert_eq!(grid.height_px, 10);
    assert_eq!(grid.num_layers, 10);
    assert_eq!(labels(&layers), vec![0, 1000, 2000, 3000, 4000, 5000, 6000, 7000, 8000, 9000]);
    for l in &layers {
        assert_eq!(l.width, 10);
        assert_eq!(l.height, 10);
        assert_eq!(l.pixels.len(), 100);
        assert!(l.pixels.iter().all(|&v| v == 255));
    }
}

#[test]
fn offset_cube_labels() {
    let tris = cube(-5 * MM, 5 * MM);
    let (_, layers) = run(&tris, &config(false, false));
    assert_eq!(
        labels(&layers),
        vec![-5000, -4000, -3000, -2000, -1000, 0, 1000, 2000, 3000, 4000]
    );
    let (_, layers) = run(&tris, &config(false, true));
    assert_eq!(labels(&layers), vec![0, 1000, 2000, 3000, 4000]);
    let (_, layers) = run(&tris, &config(true, false));
    assert_eq!(labels(&layers), vec![0, 1000, 2000, 3000, 4000, 5000, 6000, 7000, 8000, 9000]);
    // The label counts layers from the bottom one, so the layers kept above
    // zero carry the labels of their index.
    let (_, layers) = run(&tris, &config(true, true));
    assert_eq!(labels(&layers), vec![5000, 6000, 7000, 8000, 9000]);
    for l in &layers {
        assert!(l.pixels.iter().all(|&v| v == 255));
    }
}

#[test]
fn hollow_box_spans() {
    let mut tris = Vec::new();
    add_box(&mut tris, p(0, 0, 0), p(10 * MM, 10 * MM, 10 * MM));
    add_box(&mut tris, p(3 * MM, 3 * MM, 3 * MM), p(7 * MM, 7 * MM, 7 * MM));
    let (grid, spans) = trace(&tris, MM, MM);
    // column (5, 5) runs through the void, column (1, 1) through the wall
    let hollow = &spans.cells[(5 * grid.width_px + 5) as usize];
    assert_eq!(*hollow, vec![(0, 3 * MM), (7 * MM, 10 * MM)]);
    let wall = &spans.cells[(grid.width_px + 1) as usize];
    assert_eq!(*wall, vec![(0, 10 * MM)]);
    assert!(!covers(hollow, 5 * MM));
    assert!(covers(wall, 5 * MM));
    assert!(covers(hollow, 2 * MM));
    assert!(covers(hollow, 8 * MM));
}

#[test]
fn flat_top_layer_is_solid() {
    let mut tris = Vec::new();
    add_box(&mut tris, p(0, 0, 0), p(4 * MM, 4 * MM, 5 * MM));
    let (_, spans) = trace(&tris, MM, MM);
    let top = render_layer(&spans, 5 * MM);
    assert_eq!(top.len(), 16);
    assert!(top.iter().all(|&v| v == 255));
    // within the slab tolerance above the top face, and beyond it
    assert!(render_layer(&spans, 5 * MM + 100).iter().all(|&v| v == 255));
    assert!(render_layer(&spans, 5 * MM + 101).iter().all(|&v| v == 0));
}

#[test]
fn thin_needle_no_antialiasing() {
    let mut tris = Vec::new();
    add_box(&mut tris, p(450_000, 0, 0), p(550_000, MM, 10 * MM));
    let cands = all_indices(&tris);
    let through = Ray { origin: p(500_000, 500_000, -MM) };
    let beside = Ray { origin: p(600_000, 500_000, -MM) };
    assert_eq!(column_spans(&tris, &cands, &through), vec![(0, 10 * MM)]);
    assert!(column_spans(&tris, &cands, &beside).is_empty());
}

#[test]
fn mesh_below_zero_emits_nothing() {
    let tris = cube(-20 * MM, -10 * MM);
    let (grid, layers) = run(&tris, &config(false, true));
    assert_eq!(grid.num_layers, 10);
    assert!(layers.is_empty());
    assert!(emitted_layers(&grid, true).is_empty());
    assert_eq!(emitted_layers(&grid, false).len(), 10);
}

#[test]
fn crossings_are_even_on_closed_cube() {
    let tris = cube(0, 10 * MM);
    let bounds = mesh_bounds(&tris).unwrap();
    let grid = RasterGrid::new(&bounds, 700_000, MM);
    let cands = all_indices(&tris);
    for y in 0..grid.height_px {
        for x in 0..grid.width_px {
            let xs = column_crossings(&tris, &cands, &grid.column_ray(x, y));
            assert_eq!(xs.len() % 2, 0);
        }
    }
}

#[test]
fn spans_are_ordered() {
    let mut tris = Vec::new();
    add_box(&mut tris, p(0, 0, 0), p(10 * MM, 10 * MM, 10 * MM));
    add_box(&mut tris, p(3 * MM, 3 * MM, 3 * MM), p(7 * MM, 7 * MM, 7 * MM));
    let (_, spans) = trace(&tris, MM, MM);
    for cell in &spans.cells {
        for (k, &(enter, exit)) in cell.iter().enumerate() {
            assert!(enter <= exit);
            if k + 1 < cell.len() {
                assert!(exit <= cell[k + 1].0);
            }
        }
    }
}

#[test]
fn grid_covers_footprint() {
    let bounds = Aabb { min: p(0, 0, 0), max: p(10 * MM, 7 * MM, 3 * MM) };
    let grid = RasterGrid::new(&bounds, 3 * MM, 2 * MM);
    assert_eq!(grid.width_px, 4);
    assert_eq!(grid.height_px, 3);
    assert_eq!(grid.num_layers, 2);
    assert!(grid.width_px as i64 * 3 * MM >= 10 * MM);
    let exact = RasterGrid::new(&bounds, MM, MM);
    assert_eq!((exact.width_px, exact.height_px, exact.num_layers), (10, 7, 3));
    let flat = Aabb { min: p(0, 0, 0), max: p(10 * MM, 10 * MM, 0) };
    assert_eq!(RasterGrid::new(&flat, MM, MM).num_layers, 0);
}

#[test]
fn pixel_centres_and_ray_origin() {
    let bounds = Aabb { min: p(-MM, 2 * MM, 5 * MM), max: p(MM, 4 * MM, 6 * MM) };
    let grid = RasterGrid::new(&bounds, MM, MM);
    let r = grid.column_ray(1, 0);
    assert_eq!(r.origin, p(500_000, 2_500_000, 4 * MM));
    assert_eq!(grid.layer_z(0), 5 * MM);
}

#[test]
fn pixels_are_binary_and_rerun_is_identical() {
    let mut tris = Vec::new();
    add_box(&mut tris, p(0, 0, 0), p(10 * MM, 10 * MM, 10 * MM));
    add_box(&mut tris, p(3 * MM, 3 * MM, 3 * MM), p(7 * MM, 7 * MM, 7 * MM));
    let (_, a) = run(&tris, &config(false, false));
    let (_, b) = run(&tris, &config(false, false));
    assert_eq!(a.len(), b.len());
    for (la, lb) in a.iter().zip(b.iter()) {
        assert!(la.pixels.iter().all(|&v| v == 0 || v == 255));
        assert_eq!(la.pixels, lb.pixels);
        assert_eq!(la.label_um, lb.label_um);
    }
    // the hollow shows in the middle layer, black at the void
    let mid = &a[5];
    assert_eq!(mid.pixels[(10 - 1 - 5) * 10 + 5], 0);
    assert_eq!(mid.pixels[(10 - 1 - 1) * 10 + 1], 255);
}

#[test]
fn image_rows_are_flipped() {
    // an L-shaped footprint: two pixels along the bottom row, one above the
    // left one
    let mut tris = Vec::new();
    add_box(&mut tris, p(0, 0, 0), p(2 * MM, MM, MM));
    add_box(&mut tris, p(0, MM, 0), p(MM, 2 * MM, MM));
    let (_, spans) = trace(&tris, MM, MM);
    let img = render_layer(&spans, 500_000);
    // grid row 0 (lowest y) is the last image row
    assert_eq!(img, vec![255, 0, 255, 255]);
}

#[test]
fn intersect_distances() {
    let t = Triangle::new(p(0, 0, 5 * MM), p(4 * MM, 0, 5 * MM), p(0, 4 * MM, 9 * MM));
    let hit = Ray { origin: p(MM, MM, 0) };
    assert_eq!(t.intersect(&hit), Some(6 * MM));
    let miss = Ray { origin: p(3 * MM, 3 * MM, 0) };
    assert_eq!(t.intersect(&miss), None);
    let above = Ray { origin: p(MM, MM, 10 * MM) };
    assert_eq!(t.intersect(&above), None);
    let vertical = Triangle::new(p(0, 0, 0), p(MM, 0, 0), p(0, 0, MM));
    assert_eq!(vertical.intersect(&Ray { origin: p(0, 0, -MM) }), None);
    // a hit one nanometre above the origin is too close; two is counted
    let flat = Triangle::new(p(0, 0, 0), p(4 * MM, 0, 0), p(0, 4 * MM, 0));
    assert_eq!(flat.intersect(&Ray { origin: p(MM, MM, -1) }), None);
    assert_eq!(flat.intersect(&Ray { origin: p(MM, MM, -2) }), Some(2));
    // a sliver whose determinant is below the parallel cutoff is skipped
    let sliver = Triangle::new(p(0, 0, 0), p(999, 0, 0), p(0, 999, 0));
    assert!(sliver.intersect(&Ray { origin: p(100, 100, -MM) }).is_none());
    let small = Triangle::new(p(0, 0, 0), p(1000, 0, 0), p(0, 1000, 0));
    assert_eq!(small.intersect(&Ray { origin: p(100, 100, -MM) }), Some(MM));
    // a distance that is not a whole nanometre is rounded up
    let slope = Triangle::new(p(0, 0, 0), p(3 * MM, 0, 1), p(0, 3 * MM, 0));
    assert_eq!(slope.intersect(&Ray { origin: p(MM, 0, -MM) }), Some(MM + 1));
    let bb = t.aabb();
    assert_eq!(bb.min, p(0, 0, 5 * MM));
    assert_eq!(bb.max, p(4 * MM, 4 * MM, 9 * MM));
}

#[test]
fn pairing_drops_unpaired_crossing() {
    assert_eq!(pair_spans(&vec![1, 2, 3, 4, 5]), vec![(1, 2), (3, 4)]);
    assert!(pair_spans(&vec![]).is_empty());
    // crossings come sorted before pairing
    let mut tris = Vec::new();
    add_box(&mut tris, p(3 * MM, 0, 3 * MM), p(7 * MM, MM, 7 * MM));
    add_box(&mut tris, p(0, 0, 0), p(10 * MM, MM, MM));
    let ray = Ray { origin: p(5 * MM, 500_000, -MM) };
    let cands = all_indices(&tris);
    let raw = column_crossings(&tris, &cands, &ray);
    assert_eq!(raw, vec![3 * MM, 7 * MM, 0, MM]);
    assert_eq!(column_spans(&tris, &cands, &ray), vec![(0, MM), (3 * MM, 7 * MM)]);
}
