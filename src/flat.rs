use vstd::prelude::*;
use vstd::arithmetic::div_mod::lemma_fundamental_div_mod_converse;
use crate::attr::{AttrDataBlock, FrameValue};
use crate::graph::{local_error, Lens, MarkerAttrs, Node, NodeGraph, NodeIndex, NodeKind};
use crate::project::{deviation, deviation_spec, project, project_spec, Intrinsics, Projection};
use crate::scalar::Scalar;
use crate::world::{
    cache_ok, camera_id_vec, camera_of, intrinsics_spec, marker_available, marker_id_vec, resolve,
    value_at, world_available, world_spec, Slot,
};

verus! {

/// How an entry of the output buffers came out.
#[derive(Clone, Copy, Debug, PartialEq, Eq, Structural)]
pub enum EntryStatus {
    /// Every value was there and the bundle lies in front of the camera.
    Valid,
    /// Every value was there but the bundle lies behind the camera.
    BehindCamera,
    /// An attribute that the entry needs has no value at its frame.
    MissingAttribute,
}

/// The bundle nodes among nodes `0 .. k`, in node order.
pub open spec fn bundles_upto<R>(nodes: Seq<Node<R>>, k: int) -> Seq<NodeIndex>
    decreases k,
{
    if k <= 0 {
        Seq::empty()
    } else if nodes[k - 1].kind is Bundle {
        bundles_upto(nodes, k - 1).push((k - 1) as NodeIndex)
    } else {
        bundles_upto(nodes, k - 1)
    }
}

/// The marker nodes among nodes `0 .. k`, in node order.
pub open spec fn markers_upto<R>(nodes: Seq<Node<R>>, k: int) -> Seq<NodeIndex>
    decreases k,
{
    if k <= 0 {
        Seq::empty()
    } else if nodes[k - 1].kind is Marker {
        markers_upto(nodes, k - 1).push((k - 1) as NodeIndex)
    } else {
        markers_upto(nodes, k - 1)
    }
}

pub open spec fn marker_of<R>(k: NodeKind<R>) -> MarkerAttrs<R> {
    match k {
        NodeKind::Marker(m) => m,
        _ => arbitrary(),
    }
}

/// The projection of marker `m`'s bundle through its camera at frame `f`.
pub open spec fn marker_projection<R: Scalar>(
    nodes: Seq<Node<R>>,
    block: AttrDataBlock<R>,
    m: MarkerAttrs<R>,
    f: FrameValue,
) -> Projection<R> {
    project_spec(
        world_spec(nodes, block, m.camera as int, f),
        intrinsics_spec(block, camera_of(nodes[m.camera as int].kind), f),
        world_spec(nodes, block, m.bundle as int, f).translation,
    )
}

/// The marker entry of `m` at frame `f`: status, projected `x`, `y`,
/// weight `w` and deviation `dev`. Where a value is missing, all four
/// numbers are the sentinel. Otherwise `x`, `y` are the projection of the
/// bundle (also behind the camera), `w` is the marker's weight, and the
/// entry is valid exactly when the bundle lies in front of the camera;
/// its deviation is then the weighted distance to the observed position,
/// else the sentinel.
pub open spec fn marker_entry_is<R: Scalar>(
    nodes: Seq<Node<R>>,
    block: AttrDataBlock<R>,
    f: FrameValue,
    m: MarkerAttrs<R>,
    sentinel: R,
    status: EntryStatus,
    x: R,
    y: R,
    w: R,
    dev: R,
) -> bool {
    let proj = marker_projection(nodes, block, m, f);
    &&& (status == EntryStatus::MissingAttribute) == !marker_available(nodes, block, m, f)
    &&& status == EntryStatus::MissingAttribute ==> x == sentinel && y == sentinel && w == sentinel
        && dev == sentinel
    &&& status != EntryStatus::MissingAttribute ==> x == proj.x && y == proj.y && w == m.weight && (
    status == EntryStatus::Valid <==> proj.in_front)
    &&& status == EntryStatus::Valid ==> dev == deviation_spec(
        x,
        y,
        value_at(block, m.x, f),
        value_at(block, m.y, f),
        m.weight,
    )
    &&& status == EntryStatus::BehindCamera ==> dev == sentinel
}

/// The point entry of bundle node `b` at frame `f`: valid with the
/// bundle's world position when its world transform is available, else
/// missing with the sentinel.
pub open spec fn point_entry_is<R: Scalar>(
    nodes: Seq<Node<R>>,
    block: AttrDataBlock<R>,
    f: FrameValue,
    b: NodeIndex,
    sentinel: R,
    status: EntryStatus,
    x: R,
    y: R,
    z: R,
) -> bool {
    let t = world_spec(nodes, block, b as int, f).translation;
    &&& status != EntryStatus::BehindCamera
    &&& (status == EntryStatus::Valid) == world_available(nodes, block, b as int, f)
    &&& status == EntryStatus::MissingAttribute ==> x == sentinel && y == sentinel && z == sentinel
    &&& status == EntryStatus::Valid ==> x == t.x && y == t.y && z == t.z
}

proof fn lemma_bundles_upto<R>(nodes: Seq<Node<R>>, k: int)
    requires
        0 <= k <= nodes.len(),
        nodes.len() <= usize::MAX,
    ensures
        forall|q: int|
            0 <= q < bundles_upto(nodes, k).len() ==> #[trigger] bundles_upto(nodes, k)[q] < k
                && nodes[bundles_upto(nodes, k)[q] as int].kind is Bundle,
    decreases k,
{
    if k > 0 {
        lemma_bundles_upto(nodes, k - 1);
        let prev = bundles_upto(nodes, k - 1);
        assert forall|q: int| 0 <= q < bundles_upto(nodes, k).len() implies #[trigger] bundles_upto(nodes, k)[q] < k
            && nodes[bundles_upto(nodes, k)[q] as int].kind is Bundle by {
            if q < prev.len() {
                assert(prev[q] < k - 1);
            }
        }
    }
}

proof fn lemma_markers_upto<R>(nodes: Seq<Node<R>>, k: int)
    requires
        0 <= k <= nodes.len(),
        nodes.len() <= usize::MAX,
    ensures
        forall|q: int|
            0 <= q < markers_upto(nodes, k).len() ==> #[trigger] markers_upto(nodes, k)[q] < k
                && nodes[markers_upto(nodes, k)[q] as int].kind is Marker,
    decreases k,
{
    if k > 0 {
        lemma_markers_upto(nodes, k - 1);
        let prev = markers_upto(nodes, k - 1);
        assert forall|q: int| 0 <= q < markers_upto(nodes, k).len() implies #[trigger] markers_upto(nodes, k)[q] < k
            && nodes[markers_upto(nodes, k)[q] as int].kind is Marker by {
            if q < prev.len() {
                assert(prev[q] < k - 1);
            }
        }
    }
}

/// A scene flattened for evaluation: a node graph, its bundles and
/// markers in node order, and the output buffers of the last evaluation.
///
/// Entries are frame-major: for each frame, every marker (or bundle) in
/// node order. `markers` holds projected x, projected y and weight per
/// marker entry, `points` world x, y, z per bundle entry, `deviations`
/// one value per marker entry. An entry whose status is not `Valid`
/// holds the scene's sentinel where its value cannot be trusted.
pub struct FlatScene<R> {
    graph: NodeGraph<R>,
    bundle_nodes: Vec<NodeIndex>,
    marker_nodes: Vec<NodeIndex>,
    sentinel: R,
    markers: Vec<R>,
    points: Vec<R>,
    deviations: Vec<R>,
    marker_status: Vec<EntryStatus>,
    point_status: Vec<EntryStatus>,
}

impl<R> FlatScene<R> {
    #[verifier::type_invariant]
    spec fn inv(&self) -> bool {
        &&& self.graph.wf()
        &&& self.bundle_nodes@ == bundles_upto(self.graph@, self.graph@.len() as int)
        &&& self.marker_nodes@ == markers_upto(self.graph@, self.graph@.len() as int)
    }
}

impl<R: Scalar> FlatScene<R> {
    pub closed spec fn nodes(&self) -> Seq<Node<R>> {
        self.graph@
    }

    pub closed spec fn bundle_nodes(&self) -> Seq<NodeIndex> {
        self.bundle_nodes@
    }

    pub closed spec fn marker_nodes(&self) -> Seq<NodeIndex> {
        self.marker_nodes@
    }

    pub closed spec fn sentinel(&self) -> R {
        self.sentinel
    }

    pub closed spec fn markers_view(&self) -> Seq<R> {
        self.markers@
    }

    pub closed spec fn points_view(&self) -> Seq<R> {
        self.points@
    }

    pub closed spec fn deviations_view(&self) -> Seq<R> {
        self.deviations@
    }

    pub closed spec fn marker_status_view(&self) -> Seq<EntryStatus> {
        self.marker_status@
    }

    pub closed spec fn point_status_view(&self) -> Seq<EntryStatus> {
        self.point_status@
    }

    pub closed spec fn wf(&self) -> bool {
        &&& self.graph.wf()
        &&& self.bundle_nodes@ == bundles_upto(self.graph@, self.graph@.len() as int)
        &&& self.marker_nodes@ == markers_upto(self.graph@, self.graph@.len() as int)
    }

    /// The marker attributes of the `j`-th marker.
    pub open spec fn marker_at(&self, j: int) -> MarkerAttrs<R> {
        marker_of(self.nodes()[self.marker_nodes()[j] as int].kind)
    }

    /// Whether marker entry `k` of the buffers is the entry of its marker
    /// and frame (see `marker_entry_is`) for `block` and `frames`.
    pub open spec fn marker_entry_is_at(
        &self,
        block: AttrDataBlock<R>,
        frames: Seq<FrameValue>,
        k: int,
    ) -> bool {
        let nm = self.marker_nodes().len() as int;
        marker_entry_is(
            self.nodes(),
            block,
            frames[k / nm],
            self.marker_at(k % nm),
            self.sentinel(),
            self.marker_status_view()[k],
            self.markers_view()[3 * k],
            self.markers_view()[3 * k + 1],
            self.markers_view()[3 * k + 2],
            self.deviations_view()[k],
        )
    }

    /// Whether point entry `k` of the buffers is the entry of its bundle
    /// and frame (see `point_entry_is`) for `block` and `frames`.
    pub open spec fn point_entry_is_at(
        &self,
        block: AttrDataBlock<R>,
        frames: Seq<FrameValue>,
        k: int,
    ) -> bool {
        let nb = self.bundle_nodes().len() as int;
        point_entry_is(
            self.nodes(),
            block,
            frames[k / nb],
            self.bundle_nodes()[k % nb],
            self.sentinel(),
            self.point_status_view()[k],
            self.points_view()[3 * k],
            self.points_view()[3 * k + 1],
            self.points_view()[3 * k + 2],
        )
    }

    /// Whether the buffers hold, entry for entry and frame-major, the
    /// evaluation of every marker and bundle at every frame of `frames`
    /// against `block`, and nothing else.
    pub open spec fn evaluated(&self, block: AttrDataBlock<R>, frames: Seq<FrameValue>) -> bool {
        &&& self.marker_status_view().len() == frames.len() * self.marker_nodes().len()
        &&& self.deviations_view().len() == frames.len() * self.marker_nodes().len()
        &&& self.markers_view().len() == 3 * (frames.len() * self.marker_nodes().len())
        &&& self.point_status_view().len() == frames.len() * self.bundle_nodes().len()
        &&& self.points_view().len() == 3 * (frames.len() * self.bundle_nodes().len())
        &&& forall|k: int|
            0 <= k < self.marker_status_view().len() ==> #[trigger] self.marker_entry_is_at(
                block,
                frames,
                k,
            )
        &&& forall|k: int|
            0 <= k < self.point_status_view().len() ==> #[trigger] self.point_entry_is_at(
                block,
                frames,
                k,
            )
    }

    /// A flat scene over `graph` with empty buffers. Entries that cannot
    /// be evaluated will hold `sentinel`.
    pub fn new(graph: NodeGraph<R>, sentinel: R) -> (r: Self)
        ensures
            r.wf(),
            r.nodes() == graph@,
            r.bundle_nodes() == bundles_upto(graph@, graph@.len() as int),
            r.marker_nodes() == markers_upto(graph@, graph@.len() as int),
            r.sentinel() == sentinel,
            r.markers_view().len() == 0,
            r.points_view().len() == 0,
            r.deviations_view().len() == 0,
            r.marker_status_view().len() == 0,
            r.point_status_view().len() == 0,
    {
        proof {
            use_type_invariant(&graph);
        }
        let n = graph.len();
        let mut bundle_nodes: Vec<NodeIndex> = Vec::new();
        let mut marker_nodes: Vec<NodeIndex> = Vec::new();
        let mut i: usize = 0;
        while i < n
            invariant
                n == graph@.len(),
                i <= n,
                bundle_nodes@ == bundles_upto(graph@, i as int),
                marker_nodes@ == markers_upto(graph@, i as int),
            decreases n - i,
        {
            match graph.node(i).kind {
                NodeKind::Bundle(_) => bundle_nodes.push(i),
                NodeKind::Marker(_) => marker_nodes.push(i),
                _ => {},
            }
            i += 1;
        }
        FlatScene {
            graph,
            bundle_nodes,
            marker_nodes,
            sentinel,
            markers: Vec::new(),
            points: Vec::new(),
            deviations: Vec::new(),
            marker_status: Vec::new(),
            point_status: Vec::new(),
        }
    }

    pub fn graph(&self) -> (r: &NodeGraph<R>)
        ensures
            r@ == self.nodes(),
    {
        &self.graph
    }

    fn point_entry(&self, block: &AttrDataBlock<R>, f: FrameValue, b: usize, cache: &mut Vec<Slot<R>>) -> (r: (
        EntryStatus,
        R,
        R,
        R,
    ))
        requires
            self.wf(),
            b < self.bundle_nodes@.len(),
            cache_ok(old(cache)@, self.graph@, *block, f),
        ensures
            cache_ok(final(cache)@, self.graph@, *block, f),
            point_entry_is(self.graph@, *block, f, self.bundle_nodes@[b as int], self.sentinel, r.0, r.1, r.2, r.3),
    {
        let n = self.graph.len();
        let bi = self.bundle_nodes[b];
        proof {
            lemma_bundles_upto(self.graph@, n as int);
            assert(self.bundle_nodes@[b as int] < n);
        }
        resolve(&self.graph, block, f, bi, n, cache);
        let s = self.sentinel;
        match &cache[bi] {
            Slot::Resolved(w) => (EntryStatus::Valid, w.translation.x, w.translation.y, w.translation.z),
            _ => (EntryStatus::MissingAttribute, s, s, s),
        }
    }

    fn marker_entry(&self, block: &AttrDataBlock<R>, f: FrameValue, j: usize, cache: &mut Vec<Slot<R>>) -> (r: (
        EntryStatus,
        R,
        R,
        R,
        R,
    ))
        requires
            self.wf(),
            j < self.marker_nodes@.len(),
            cache_ok(old(cache)@, self.graph@, *block, f),
        ensures
            cache_ok(final(cache)@, self.graph@, *block, f),
            marker_entry_is(
                self.graph@,
                *block,
                f,
                marker_of(self.graph@[self.marker_nodes@[j as int] as int].kind),
                self.sentinel,
                r.0,
                r.1,
                r.2,
                r.3,
                r.4,
            ),
    {
        let n = self.graph.len();
        let mi = self.marker_nodes[j];
        proof {
            lemma_markers_upto(self.graph@, n as int);
            assert(self.marker_nodes@[j as int] < n);
            assert(local_error(self.graph@, mi as int) is None);
        }
        let m = match self.graph.node(mi).kind {
            NodeKind::Marker(m) => m,
            _ => unreached(),
        };
        let cam = match self.graph.node(m.camera).kind {
            NodeKind::Camera(_, c) => c,
            _ => unreached(),
        };
        resolve(&self.graph, block, f, m.camera, n, cache);
        resolve(&self.graph, block, f, m.bundle, n, cache);
        let cam_world = match &cache[m.camera] {
            Slot::Resolved(w) => Some(*w),
            _ => None,
        };
        let bundle_world = match &cache[m.bundle] {
            Slot::Resolved(w) => Some(*w),
            _ => None,
        };
        let mv = block.get_all(&marker_id_vec(&m), f);
        let cv = block.get_all(&camera_id_vec(&cam), f);
        let s = self.sentinel;
        if let (Some(mv), Some(cv), Some(cw), Some(bw)) = (mv, cv, cam_world, bundle_world) {
            let radial = match cam.lens {
                Lens::Undistorted => None,
                Lens::Radial { .. } => Some((cv[3], cv[4])),
            };
            let intr = Intrinsics {
                focal_length: cv[0],
                film_back_width: cv[1],
                film_back_height: cv[2],
                radial,
            };
            let p = project(&cw, &intr, &bw.translation);
            let weight = m.weight;
            if p.in_front {
                (EntryStatus::Valid, p.x, p.y, weight, deviation(&p.x, &p.y, &mv[0], &mv[1], &weight))
            } else {
                (EntryStatus::BehindCamera, p.x, p.y, weight, s)
            }
        } else {
            (EntryStatus::MissingAttribute, s, s, s, s)
        }
    }
    /// Evaluates every marker and bundle at every frame of `frames`, in
    /// order, and replaces the output buffers with the results.
    pub fn evaluate(&mut self, block: &AttrDataBlock<R>, frames: &[FrameValue])
        ensures
            final(self).wf(),
            final(self).nodes() == old(self).nodes(),
            final(self).bundle_nodes() == old(self).bundle_nodes(),
            final(self).marker_nodes() == old(self).marker_nodes(),
            final(self).sentinel() == old(self).sentinel(),
            final(self).evaluated(*block, frames@),
    {
        proof {
            use_type_invariant(&*self);
        }
        let n = self.graph.len();
        let nm = self.marker_nodes.len();
        let nb = self.bundle_nodes.len();
        let ghost g = self.graph@;
        let ghost mn = self.marker_nodes@;
        let ghost bn = self.bundle_nodes@;
        let s = self.sentinel;
        let mut st: Vec<EntryStatus> = Vec::new();
        let mut mk: Vec<R> = Vec::new();
        let mut dv: Vec<R> = Vec::new();
        let mut pst: Vec<EntryStatus> = Vec::new();
        let mut pts: Vec<R> = Vec::new();
        let mut i: usize = 0;
        while i < frames.len()
            invariant
                self.wf(),
                *self == *old(self),
                n == g.len(),
                g == self.graph@,
                mn == self.marker_nodes@,
                bn == self.bundle_nodes@,
                nm == mn.len(),
                nb == bn.len(),
                s == self.sentinel,
                i <= frames@.len(),
                st@.len() == i * nm,
                dv@.len() == st@.len(),
                mk@.len() == 3 * st@.len(),
                pst@.len() == i * nb,
                pts@.len() == 3 * pst@.len(),
                forall|k: int|
                    0 <= k < st@.len() ==> marker_entry_is(
                        g,
                        *block,
                        frames@[k / nm as int],
                        marker_of(g[mn[k % nm as int] as int].kind),
                        s,
                        #[trigger] st@[k],
                        mk@[3 * k],
                        mk@[3 * k + 1],
                        mk@[3 * k + 2],
                        dv@[k],
                    ),
                forall|k: int|
                    0 <= k < pst@.len() ==> point_entry_is(
                        g,
                        *block,
                        frames@[k / nb as int],
                        bn[k % nb as int],
                        s,
                        #[trigger] pst@[k],
                        pts@[3 * k],
                        pts@[3 * k + 1],
                        pts@[3 * k + 2],
                    ),
            decreases frames@.len() - i,
        {
            let f = frames[i];
            let mut cache: Vec<Slot<R>> = Vec::new();
            let mut c: usize = 0;
            while c < n
                invariant
                    c <= n,
                    cache@.len() == c,
                    forall|q: int| 0 <= q < c ==> #[trigger] cache@[q] is Unresolved,
                decreases n - c,
            {
                cache.push(Slot::Unresolved);
                c += 1;
            }
            let mut b: usize = 0;
            while b < nb
                invariant
                    self.wf(),
                    *self == *old(self),
                    n == g.len(),
                    g == self.graph@,
                    bn == self.bundle_nodes@,
                    nb == bn.len(),
                    s == self.sentinel,
                    i < frames@.len(),
                    f == frames@[i as int],
                    b <= nb,
                    cache_ok(cache@, g, *block, f),
                    pst@.len() == i * nb + b,
                    pts@.len() == 3 * pst@.len(),
                    forall|k: int|
                        0 <= k < pst@.len() ==> point_entry_is(
                            g,
                            *block,
                            frames@[k / nb as int],
                            bn[k % nb as int],
                            s,
                            #[trigger] pst@[k],
                            pts@[3 * k],
                            pts@[3 * k + 1],
                            pts@[3 * k + 2],
                        ),
                decreases nb - b,
            {
                let e = self.point_entry(block, f, b, &mut cache);
                proof {
                    lemma_fundamental_div_mod_converse(pst@.len() as int, nb as int, i as int, b as int);
                }
                pst.push(e.0);
                pts.push(e.1);
                pts.push(e.2);
                pts.push(e.3);
                b += 1;
            }
            let mut j: usize = 0;
            while j < nm
                invariant
                    self.wf(),
                    *self == *old(self),
                    n == g.len(),
                    g == self.graph@,
                    mn == self.marker_nodes@,
                    nm == mn.len(),
                    s == self.sentinel,
                    i < frames@.len(),
                    f == frames@[i as int],
                    j <= nm,
                    cache_ok(cache@, g, *block, f),
                    st@.len() == i * nm + j,
                    dv@.len() == st@.len(),
                    mk@.len() == 3 * st@.len(),
                    forall|k: int|
                        0 <= k < st@.len() ==> marker_entry_is(
                            g,
                            *block,
                            frames@[k / nm as int],
                            marker_of(g[mn[k % nm as int] as int].kind),
                            s,
                            #[trigger] st@[k],
                            mk@[3 * k],
                            mk@[3 * k + 1],
                            mk@[3 * k + 2],
                            dv@[k],
                        ),
                decreases nm - j,
            {
                let e = self.marker_entry(block, f, j, &mut cache);
                proof {
                    lemma_fundamental_div_mod_converse(st@.len() as int, nm as int, i as int, j as int);
                }
                st.push(e.0);
                mk.push(e.1);
                mk.push(e.2);
                mk.push(e.3);
                dv.push(e.4);
                j += 1;
            }
            proof {
                assert((i + 1) * nm == i * nm + nm) by (nonlinear_arith);
                assert((i + 1) * nb == i * nb + nb) by (nonlinear_arith);
            }
            i += 1;
        }
        self.markers = mk;
        self.deviations = dv;
        self.marker_status = st;
        self.points = pts;
        self.point_status = pst;
    }

    /// The bundle nodes, in node order: the order of point entries within
    /// a frame.
    pub fn bundle_node_list(&self) -> (r: &[NodeIndex])
        ensures
            r@ == self.bundle_nodes(),
            r@ == bundles_upto(self.nodes(), self.nodes().len() as int),
    {
        proof {
            use_type_invariant(self);
        }
        self.bundle_nodes.as_slice()
    }

    /// The marker nodes, in node order: the order of marker entries within
    /// a frame.
    pub fn marker_node_list(&self) -> (r: &[NodeIndex])
        ensures
            r@ == self.marker_nodes(),
            r@ == markers_upto(self.nodes(), self.nodes().len() as int),
    {
        proof {
            use_type_invariant(self);
        }
        self.marker_nodes.as_slice()
    }

    /// The value written into entries that could not be evaluated.
    pub fn sentinel_value(&self) -> (r: R)
        ensures
            r == self.sentinel(),
    {
        self.sentinel
    }

    /// Projected x, projected y and weight of each marker entry.
    pub fn markers(&self) -> (r: &[R])
        ensures
            r@ == self.markers_view(),
    {
        self.markers.as_slice()
    }

    /// World x, y, z of each point entry.
    pub fn points(&self) -> (r: &[R])
        ensures
            r@ == self.points_view(),
    {
        self.points.as_slice()
    }

    /// Deviation of each marker entry.
    pub fn deviations(&self) -> (r: &[R])
        ensures
            r@ == self.deviations_view(),
    {
        self.deviations.as_slice()
    }

    /// Status of each marker entry.
    pub fn marker_status(&self) -> (r: &[EntryStatus])
        ensures
            r@ == self.marker_status_view(),
    {
        self.marker_status.as_slice()
    }

    /// Status of each point entry.
    pub fn point_status(&self) -> (r: &[EntryStatus])
        ensures
            r@ == self.point_status_view(),
    {
        self.point_status.as_slice()
    }

    /// The number of marker entries.
    pub fn num_markers(&self) -> (r: usize)
        ensures
            r == self.markers_view().len() / 3,
    {
        self.markers.len() / 3
    }

    /// The number of point entries.
    pub fn num_points(&self) -> (r: usize)
        ensures
            r == self.points_view().len() / 3,
    {
        self.points.len() / 3
    }

    /// The number of deviation entries.
    pub fn num_deviations(&self) -> (r: usize)
        ensures
            r == self.deviations_view().len(),
    {
        self.deviations.len()
    }
}

} // verus!
