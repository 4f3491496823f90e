use flatscene::{
    AttrDataBlock, FrameValue, AttrError, AttrId, CameraAttrs, EntryStatus, FlatScene, GraphError, Lens,
    MarkerAttrs, Node, NodeGraph, NodeKind, RotateOrder, Scalar, ShimFlatScene, TransformAttrs,
};

#[derive(Clone, Copy, Debug, PartialEq)]
struct F(f64);

impl Scalar for F {
    fn spec_zero() -> Self {
        Self::zero()
    }
    fn spec_one() -> Self {
        Self::one()
    }
    fn spec_add(self, o: Self) -> Self {
        self.add(&o)
    }
    fn spec_sub(self, o: Self) -> Self {
        self.sub(&o)
    }
    fn spec_mul(self, o: Self) -> Self {
        self.mul(&o)
    }
    fn spec_div(self, o: Self) -> Self {
        self.div(&o)
    }
    fn spec_neg(self) -> Self {
        self.neg()
    }
    fn spec_sqrt(self) -> Self {
        self.sqrt()
    }
    fn spec_sin_degrees(self) -> Self {
        self.sin_cos_degrees().0
    }
    fn spec_cos_degrees(self) -> Self {
        self.sin_cos_degrees().1
    }
    fn spec_is_positive(self) -> bool {
        self.is_positive()
    }
    fn zero() -> Self {
        F(0.0)
    }
    fn one() -> Self {
        F(1.0)
    }
    fn add(&self, o: &Self) -> Self {
        F(self.0 + o.0)
    }
    fn sub(&self, o: &Self) -> Self {
        F(self.0 - o.0)
    }
    fn mul(&self, o: &Self) -> Self {
        F(self.0 * o.0)
    }
    fn div(&self, o: &Self) -> Self {
        F(self.0 / o.0)
    }
    fn neg(&self) -> Self {
        F(-self.0)
    }
    fn sqrt(&self) -> Self {
        F(self.0.sqrt())
    }
    fn sin_cos_degrees(&self) -> (Self, Self) {
        let (s, c) = self.0.to_radians().sin_cos();
        (F(s), F(c))
    }
    fn is_positive(&self) -> bool {
        self.0 > 0.0
    }
}

const SENTINEL: f64 = f64::MAX;

fn frames(ns: &[i32]) -> Vec<FrameValue> {
    ns.iter().map(|n| FrameValue::from_frame(*n)).collect()
}
const EPS: f64 = 1e-12;

fn st(db: &mut AttrDataBlock<F>, v: f64) -> AttrId {
    db.add_static(F(v))
}

fn xform(db: &mut AttrDataBlock<F>, t: [f64; 3], r: [f64; 3]) -> TransformAttrs {
    TransformAttrs {
        tx: st(db, t[0]),
        ty: st(db, t[1]),
        tz: st(db, t[2]),
        rx: st(db, r[0]),
        ry: st(db, r[1]),
        rz: st(db, r[2]),
        sx: st(db, 1.0),
        sy: st(db, 1.0),
        sz: st(db, 1.0),
        rotate_order: RotateOrder::XYZ,
    }
}

fn camera_attrs(db: &mut AttrDataBlock<F>) -> CameraAttrs {
    CameraAttrs {
        focal_length: st(db, 35.0),
        film_back_width: st(db, 36.0),
        film_back_height: st(db, 24.0),
        lens: Lens::Undistorted,
    }
}

fn marker(db: &mut AttrDataBlock<F>, x: f64, y: f64, w: f64, bundle: usize, camera: usize) -> NodeKind<F> {
    NodeKind::Marker(MarkerAttrs { x: st(db, x), y: st(db, y), weight: F(w), bundle, camera })
}

fn node(parent: Option<usize>, kind: NodeKind<F>) -> Node<F> {
    Node { parent, kind }
}

fn scene(nodes: Vec<Node<F>>) -> FlatScene<F> {
    FlatScene::new(NodeGraph::new(nodes).unwrap(), F(SENTINEL))
}

/// Camera at the origin looking down -Z, one bundle at `b`, one marker
/// observing it at `(ox, oy)` with weight `w`.
fn simple(b: [f64; 3], ox: f64, oy: f64, w: f64) -> (FlatScene<F>, AttrDataBlock<F>) {
    let mut db = AttrDataBlock::new();
    let cam_t = xform(&mut db, [0.0; 3], [0.0; 3]);
    let cam = camera_attrs(&mut db);
    let bt = xform(&mut db, b, [0.0; 3]);
    let m = marker(&mut db, ox, oy, w, 1, 0);
    let nodes = vec![node(None, NodeKind::Camera(cam_t, cam)), node(None, NodeKind::Bundle(bt)), node(None, m)];
    (scene(nodes), db)
}

fn vals(s: &[F]) -> Vec<f64> {
    s.iter().map(|v| v.0).collect()
}

#[test]
fn static_camera_on_axis_bundle_has_zero_deviation_each_frame() {
    let (mut s, db) = simple([0.0, 0.0, -10.0], 0.0, 0.0, 1.0);
    s.evaluate(&db, &frames(&[1, 2, 3]));
    assert_eq!(vals(s.deviations()), vec![0.0, 0.0, 0.0]);
    assert_eq!(s.marker_status(), &[EntryStatus::Valid; 3]);
    assert_eq!(vals(s.markers()), vec![0.0, 0.0, 1.0, 0.0, 0.0, 1.0, 0.0, 0.0, 1.0]);
    assert_eq!(vals(s.points()), vec![0.0, 0.0, -10.0, 0.0, 0.0, -10.0, 0.0, 0.0, -10.0]);
}

#[test]
fn observed_equal_to_projection_gives_zero_deviation() {
    let x = 35.0 * 1.0 / 10.0 / 36.0;
    let y = 35.0 * 2.0 / 10.0 / 24.0;
    let (mut s, db) = simple([1.0, 2.0, -10.0], x, y, 1.0);
    s.evaluate(&db, &frames(&[7]));
    assert_eq!(s.marker_status(), &[EntryStatus::Valid]);
    assert!((s.markers()[0].0 - x).abs() < EPS);
    assert!((s.markers()[1].0 - y).abs() < EPS);
    assert!(s.deviations()[0].0.abs() < EPS);
}

#[test]
fn deviation_is_weighted_distance() {
    let (mut s, db) = simple([0.0, 0.0, -10.0], 0.3, 0.4, 2.0);
    s.evaluate(&db, &frames(&[1]));
    assert!((s.deviations()[0].0 - 1.0).abs() < EPS);
    assert_eq!(s.markers()[2].0, 2.0);
}

#[test]
fn bundle_behind_camera_is_flagged_with_sentinel() {
    let (mut s, db) = simple([1.0, 0.0, 10.0], 0.0, 0.0, 1.0);
    s.evaluate(&db, &frames(&[1, 2]));
    assert_eq!(s.marker_status(), &[EntryStatus::BehindCamera; 2]);
    // the projection is still written: 35 * 1 / -10 / 36
    assert!((s.markers()[0].0 - (-35.0 / 360.0)).abs() < EPS);
    assert_eq!(s.markers()[2].0, 1.0);
    assert_eq!(vals(s.deviations()), vec![SENTINEL, SENTINEL]);
    assert_eq!(s.point_status(), &[EntryStatus::Valid; 2]);
}

#[test]
fn parented_camera_matches_camera_at_origin() {
    let (mut a, dba) = simple([0.0, 0.0, -10.0], 0.01, -0.02, 1.0);
    a.evaluate(&dba, &frames(&[1, 2, 3]));

    let mut db = AttrDataBlock::new();
    let parent_t = xform(&mut db, [5.0, 0.0, 0.0], [0.0; 3]);
    let cam_t = xform(&mut db, [0.0; 3], [0.0; 3]);
    let cam = camera_attrs(&mut db);
    let bt = xform(&mut db, [5.0, 0.0, -10.0], [0.0; 3]);
    let m = marker(&mut db, 0.01, -0.02, 1.0, 2, 1);
    let nodes = vec![
        node(None, NodeKind::Transform(parent_t)),
        node(Some(0), NodeKind::Camera(cam_t, cam)),
        node(None, NodeKind::Bundle(bt)),
        node(None, m),
    ];
    let mut b = scene(nodes);
    b.evaluate(&db, &frames(&[1, 2, 3]));
    assert_eq!(vals(a.markers()), vals(b.markers()));
    assert_eq!(vals(a.deviations()), vals(b.deviations()));
    assert_eq!(b.marker_status(), &[EntryStatus::Valid; 3]);
}

#[test]
fn rotated_camera_looks_along_rotated_axis() {
    let mut db = AttrDataBlock::new();
    let cam_t = xform(&mut db, [0.0; 3], [0.0, 90.0, 0.0]);
    let cam = camera_attrs(&mut db);
    let bt = xform(&mut db, [-10.0, 0.0, 0.0], [0.0; 3]);
    let m = marker(&mut db, 0.0, 0.0, 1.0, 1, 0);
    let mut s = scene(vec![node(None, NodeKind::Camera(cam_t, cam)), node(None, NodeKind::Bundle(bt)), node(None, m)]);
    s.evaluate(&db, &frames(&[1]));
    assert_eq!(s.marker_status(), &[EntryStatus::Valid]);
    assert!(s.deviations()[0].0.abs() < EPS);
}

#[test]
fn radial_lens_scales_the_projection() {
    let mut db = AttrDataBlock::new();
    let cam_t = xform(&mut db, [0.0; 3], [0.0; 3]);
    let cam = CameraAttrs {
        focal_length: st(&mut db, 36.0),
        film_back_width: st(&mut db, 36.0),
        film_back_height: st(&mut db, 36.0),
        lens: Lens::Radial { k1: st(&mut db, 0.5), k2: st(&mut db, 0.25) },
    };
    let bt = xform(&mut db, [2.0, 0.0, -10.0], [0.0; 3]);
    let m = marker(&mut db, 0.0, 0.0, 1.0, 1, 0);
    let mut s = scene(vec![node(None, NodeKind::Camera(cam_t, cam)), node(None, NodeKind::Bundle(bt)), node(None, m)]);
    s.evaluate(&db, &frames(&[1]));
    // x = 0.2, r^2 = 0.04, factor = 1 + 0.5 * 0.04 + 0.25 * 0.0016 = 1.0204
    assert!((s.markers()[0].0 - 0.2 * 1.0204).abs() < EPS);
    assert!(s.markers()[1].0.abs() < EPS);
}

#[test]
fn buffer_lengths_follow_frames_markers_and_bundles() {
    let mut db = AttrDataBlock::new();
    let cam_t = xform(&mut db, [0.0; 3], [0.0; 3]);
    let cam = camera_attrs(&mut db);
    let b1 = xform(&mut db, [0.0, 0.0, -10.0], [0.0; 3]);
    let b2 = xform(&mut db, [1.0, 0.0, -10.0], [0.0; 3]);
    let m1 = marker(&mut db, 0.0, 0.0, 1.0, 1, 0);
    let m2 = marker(&mut db, 0.0, 0.0, 1.0, 2, 0);
    let nodes = vec![
        node(None, NodeKind::Camera(cam_t, cam)),
        node(None, NodeKind::Bundle(b1)),
        node(None, NodeKind::Bundle(b2)),
        node(None, m1),
        node(None, m2),
    ];
    let mut s = ShimFlatScene::new(scene(nodes));
    assert_eq!(s.num_markers(), 0);
    s.evaluate(&db, &frames(&[4, 5, 5]));
    assert_eq!(s.markers().len(), 3 * 2 * 3);
    assert_eq!(s.deviations().len(), 3 * 2);
    assert_eq!(s.points().len(), 3 * 2 * 3);
    assert_eq!(s.num_markers(), 6);
    assert_eq!(s.num_deviations(), 6);
    assert_eq!(s.num_points(), 6);
    assert_eq!(s.get_inner().marker_status().len(), 6);
    // frame-major: frame 4 marker 1, frame 4 marker 2, frame 5 marker 1, ...
    let d = vals(s.deviations());
    assert_eq!(d[0], 0.0);
    assert!(d[1] > 0.0);
    assert_eq!(d[2], d[4]);
    assert_eq!(d[3], d[5]);
    s.evaluate(&db, &frames(&[]));
    assert_eq!(s.num_markers(), 0);
    assert_eq!(s.num_points(), 0);
}

#[test]
fn evaluating_twice_is_bit_identical() {
    let (mut s, db) = simple([0.3, -0.7, -12.5], 0.01, 0.02, 0.9);
    s.evaluate(&db, &frames(&[1, 2, 2, 9]));
    let m: Vec<u64> = s.markers().iter().map(|v| v.0.to_bits()).collect();
    let p: Vec<u64> = s.points().iter().map(|v| v.0.to_bits()).collect();
    let d: Vec<u64> = s.deviations().iter().map(|v| v.0.to_bits()).collect();
    s.evaluate(&db, &frames(&[1, 2, 2, 9]));
    assert_eq!(m, s.markers().iter().map(|v| v.0.to_bits()).collect::<Vec<u64>>());
    assert_eq!(p, s.points().iter().map(|v| v.0.to_bits()).collect::<Vec<u64>>());
    assert_eq!(d, s.deviations().iter().map(|v| v.0.to_bits()).collect::<Vec<u64>>());
}

#[test]
fn missing_value_at_one_frame_only_affects_that_frame() {
    let mut db = AttrDataBlock::new();
    let cam_t = xform(&mut db, [0.0; 3], [0.0; 3]);
    let cam = camera_attrs(&mut db);
    let mut bt = xform(&mut db, [0.0, 0.0, 0.0], [0.0; 3]);
    let tz = db.add_animated();
    db.set_value(tz, FrameValue::from_frame(1), F(-10.0));
    db.set_value(tz, FrameValue::from_frame(3), F(-20.0));
    bt.tz = tz;
    let m = marker(&mut db, 0.0, 0.0, 1.0, 1, 0);
    let mut s = scene(vec![node(None, NodeKind::Camera(cam_t, cam)), node(None, NodeKind::Bundle(bt)), node(None, m)]);
    s.evaluate(&db, &frames(&[1, 2, 3]));
    assert_eq!(
        s.marker_status(),
        &[EntryStatus::Valid, EntryStatus::MissingAttribute, EntryStatus::Valid]
    );
    assert_eq!(vals(s.deviations()), vec![0.0, SENTINEL, 0.0]);
    assert_eq!(&vals(s.markers())[3..6], &[SENTINEL, SENTINEL, SENTINEL]);
    assert_eq!(
        s.point_status(),
        &[EntryStatus::Valid, EntryStatus::MissingAttribute, EntryStatus::Valid]
    );
    assert_eq!(
        vals(s.points()),
        vec![0.0, 0.0, -10.0, SENTINEL, SENTINEL, SENTINEL, 0.0, 0.0, -20.0]
    );
}

#[test]
fn missing_camera_attribute_marks_marker_only() {
    let mut db = AttrDataBlock::new();
    let cam_t = xform(&mut db, [0.0; 3], [0.0; 3]);
    let mut cam = camera_attrs(&mut db);
    cam.focal_length = 9999;
    let bt = xform(&mut db, [0.0, 0.0, -10.0], [0.0; 3]);
    let m = marker(&mut db, 0.0, 0.0, 1.0, 1, 0);
    let mut s = scene(vec![node(None, NodeKind::Camera(cam_t, cam)), node(None, NodeKind::Bundle(bt)), node(None, m)]);
    s.evaluate(&db, &frames(&[1]));
    assert_eq!(s.marker_status(), &[EntryStatus::MissingAttribute]);
    assert_eq!(s.point_status(), &[EntryStatus::Valid]);
}

#[test]
fn attribute_lookup_errors_and_overrides() {
    let mut db: AttrDataBlock<F> = AttrDataBlock::new();
    let a = db.add_static(F(2.0));
    let b = db.add_animated();
    assert_eq!(db.get(a, FrameValue::from_frame(100)), Ok(F(2.0)));
    assert_eq!(db.get(b, FrameValue::from_frame(1)), Err(AttrError::NoValueAtFrame));
    assert_eq!(db.get(7, FrameValue::from_frame(1)), Err(AttrError::NoSuchAttribute));
    db.set_value(b, FrameValue::from_frame(1), F(3.0));
    db.set_value(b, FrameValue::from_frame(1), F(4.0));
    assert_eq!(db.get(b, FrameValue::from_frame(1)), Ok(F(4.0)));
    db.set_value(a, FrameValue::from_frame(5), F(6.0));
    assert_eq!(db.get(a, FrameValue::from_frame(0)), Ok(F(6.0)));
}

fn bare() -> TransformAttrs {
    TransformAttrs { tx: 0, ty: 0, tz: 0, rx: 0, ry: 0, rz: 0, sx: 0, sy: 0, sz: 0, rotate_order: RotateOrder::ZYX }
}

fn mk(x: usize, bundle: usize, camera: usize) -> NodeKind<F> {
    NodeKind::Marker(MarkerAttrs { x, y: x, weight: F(1.0), bundle, camera })
}

#[test]
fn graph_rejects_invalid_parent() {
    let r = NodeGraph::<F>::new(vec![node(Some(5), NodeKind::Transform(bare()))]);
    assert_eq!(r.err(), Some(GraphError::InvalidParent { node: 0 }));
    let cam = CameraAttrs { focal_length: 0, film_back_width: 0, film_back_height: 0, lens: Lens::Undistorted };
    let r = NodeGraph::new(vec![
        node(None, NodeKind::Bundle(bare())),
        node(None, NodeKind::Camera(bare(), cam)),
        node(None, mk(0, 0, 1)),
        node(Some(2), NodeKind::Transform(bare())),
    ]);
    assert_eq!(r.err(), Some(GraphError::InvalidParent { node: 3 }));
}

#[test]
fn graph_rejects_dangling_associations() {
    let cam = CameraAttrs { focal_length: 0, film_back_width: 0, film_back_height: 0, lens: Lens::Undistorted };
    let r = NodeGraph::new(vec![node(None, NodeKind::Camera(bare(), cam)), node(None, mk(0, 0, 0))]);
    assert_eq!(r.err(), Some(GraphError::DanglingBundle { marker: 1 }));
    let r = NodeGraph::new(vec![node(None, NodeKind::Bundle(bare())), node(None, mk(0, 0, 0))]);
    assert_eq!(r.err(), Some(GraphError::DanglingCamera { marker: 1 }));
    let r = NodeGraph::new(vec![
        node(None, NodeKind::Bundle(bare())),
        node(None, NodeKind::Camera(bare(), cam)),
        node(None, mk(0, 0, 1)),
    ]);
    assert!(r.is_ok());
}

#[test]
fn graph_rejects_parent_cycle() {
    let r = NodeGraph::new(vec![
        node(None, NodeKind::Transform(bare())),
        node(Some(2), NodeKind::Transform(bare())),
        node(Some(1), NodeKind::Bundle(bare())),
    ]);
    assert_eq!(r.err(), Some(GraphError::ParentCycle { node: 1 }));
    let r = NodeGraph::<F>::new(vec![node(Some(0), NodeKind::Transform(bare()))]);
    assert_eq!(r.err(), Some(GraphError::ParentCycle { node: 0 }));
    let r = NodeGraph::<F>::new(vec![node(Some(1), NodeKind::Transform(bare())), node(None, NodeKind::Transform(bare()))]);
    assert_eq!(r.map(|g| g.len()).ok(), Some(2));
}

#[test]
fn graph_reports_parents_and_associations() {
    let cam = CameraAttrs { focal_length: 0, film_back_width: 0, film_back_height: 0, lens: Lens::Undistorted };
    let g = NodeGraph::new(vec![
        node(None, NodeKind::Transform(bare())),
        node(None, mk(0, 3, 2)),
        node(Some(0), NodeKind::Camera(bare(), cam)),
        node(Some(0), NodeKind::Bundle(bare())),
        node(None, NodeKind::Bundle(bare())),
    ])
    .unwrap();
    assert_eq!(g.parent(2), Some(0));
    assert_eq!(g.parent(1), None);
    assert_eq!(g.marker_association(1), Some((3, 2)));
    assert_eq!(g.marker_association(3), None);
    let s = FlatScene::new(g, F(SENTINEL));
    assert_eq!(s.bundle_node_list(), &[3, 4]);
    assert_eq!(s.marker_node_list(), &[1]);
    assert_eq!(s.sentinel_value(), F(SENTINEL));
    assert_eq!(s.graph().len(), 5);
}

#[test]
fn depth_zero_is_not_valid() {
    let (mut s, db) = simple([0.0, 0.0, 0.0], 0.0, 0.0, 1.0);
    s.evaluate(&db, &frames(&[1]));
    assert_eq!(s.marker_status(), &[EntryStatus::BehindCamera]);
    assert_eq!(s.deviations()[0].0, SENTINEL);
}

#[test]
fn concatenated_frame_lists_give_concatenated_buffers() {
    let (mut s, db) = simple([0.5, -0.25, -8.0], 0.01, 0.0, 1.5);
    s.evaluate(&db, &frames(&[1, 2]));
    let mut m = vals(s.markers());
    let mut d = vals(s.deviations());
    s.evaluate(&db, &frames(&[3]));
    m.extend(vals(s.markers()));
    d.extend(vals(s.deviations()));
    s.evaluate(&db, &frames(&[1, 2, 3]));
    assert_eq!(vals(s.markers()), m);
    assert_eq!(vals(s.deviations()), d);
}

#[test]
fn sub_frame_values_are_looked_up_exactly() {
    let mut db: AttrDataBlock<F> = AttrDataBlock::new();
    let a = db.add_animated();
    let half = FrameValue::from_ticks(1500);
    db.set_value(a, half, F(3.5));
    assert_eq!(db.get(a, half), Ok(F(3.5)));
    assert_eq!(db.get(a, FrameValue::from_frame(1)), Err(AttrError::NoValueAtFrame));
    assert_eq!(FrameValue::from_frame(2).ticks, 2000);
}
