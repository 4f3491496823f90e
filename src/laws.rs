use vstd::prelude::*;
use vstd::arithmetic::div_mod::{lemma_fundamental_div_mod, lemma_fundamental_div_mod_converse};
use crate::attr::{AttrDataBlock, AttrId, FrameValue};
use crate::flat::{EntryStatus, FlatScene};
use crate::graph::{transform_of, MarkerAttrs, Node};
use crate::scalar::Scalar;
use crate::world::{
    camera_ids, camera_of, chain_available, marker_available, marker_ids, transform_ids,
    world_chain, world_spec,
};

verus! {

/// Block `b1` at frame `g1` and block `b2` at frame `g2` hold the same
/// values for every attribute of `reads`.
pub open spec fn agree_on<R: Copy>(
    b1: AttrDataBlock<R>,
    g1: FrameValue,
    b2: AttrDataBlock<R>,
    g2: FrameValue,
    reads: Set<AttrId>,
) -> bool {
    forall|x: AttrId| reads.contains(x) ==> #[trigger] b1.lookup(x, g1) == b2.lookup(x, g2)
}

/// The attributes that the world transform of node `i` reads, following
/// at most `fuel` parents.
pub open spec fn chain_reads<R>(nodes: Seq<Node<R>>, i: int, fuel: nat) -> Set<AttrId>
    decreases fuel,
{
    let own = transform_ids(transform_of(nodes[i].kind)).to_set();
    match nodes[i].parent {
        Some(p) if fuel > 0 => own + chain_reads(nodes, p as int, (fuel - 1) as nat),
        _ => own,
    }
}

/// The attributes that the entry of marker `m` reads: its own, its
/// camera's intrinsics, and those of the world transforms of its camera
/// and its bundle.
pub open spec fn marker_reads<R>(nodes: Seq<Node<R>>, m: MarkerAttrs<R>) -> Set<AttrId> {
    marker_ids(m).to_set() + camera_ids(camera_of(nodes[m.camera as int].kind)).to_set()
        + chain_reads(nodes, m.camera as int, nodes.len()) + chain_reads(nodes, m.bundle as int, nodes.len())
}

proof fn lemma_all_available_same<R: Copy>(
    b1: AttrDataBlock<R>,
    g1: FrameValue,
    b2: AttrDataBlock<R>,
    g2: FrameValue,
    ids: Seq<AttrId>,
    reads: Set<AttrId>,
)
    requires
        agree_on(b1, g1, b2, g2, reads),
        ids.to_set().subset_of(reads),
    ensures
        b1.all_available(ids, g1) == b2.all_available(ids, g2),
{
    assert forall|k: int| 0 <= k < ids.len() implies #[trigger] b1.lookup(ids[k], g1) == b2.lookup(ids[k], g2) by {
        assert(ids.contains(ids[k]));
        assert(ids.to_set().contains(ids[k]));
    }
    if b1.all_available(ids, g1) {
        assert forall|k: int| 0 <= k < ids.len() implies (#[trigger] b2.lookup(ids[k], g2)) is Ok by {
            assert(b1.lookup(ids[k], g1) is Ok);
        }
    }
    if b2.all_available(ids, g2) {
        assert forall|k: int| 0 <= k < ids.len() implies (#[trigger] b1.lookup(ids[k], g1)) is Ok by {
            assert(b2.lookup(ids[k], g2) is Ok);
        }
    }
}

proof fn lemma_chain_same<R: Scalar>(
    nodes: Seq<Node<R>>,
    b1: AttrDataBlock<R>,
    g1: FrameValue,
    b2: AttrDataBlock<R>,
    g2: FrameValue,
    i: int,
    fuel: nat,
    reads: Set<AttrId>,
)
    requires
        agree_on(b1, g1, b2, g2, reads),
        chain_reads(nodes, i, fuel).subset_of(reads),
    ensures
        chain_available(nodes, b1, i, g1, fuel) == chain_available(nodes, b2, i, g2, fuel),
        world_chain(nodes, b1, i, g1, fuel) == world_chain(nodes, b2, i, g2, fuel),
    decreases fuel,
{
    let ids = transform_ids(transform_of(nodes[i].kind));
    lemma_all_available_same(b1, g1, b2, g2, ids, reads);
    assert forall|k: int| 0 <= k < ids.len() implies #[trigger] b1.lookup(ids[k], g1) == b2.lookup(ids[k], g2) by {
        assert(ids.contains(ids[k]));
        assert(ids.to_set().contains(ids[k]));
    }
    if let Some(p) = nodes[i].parent {
        if fuel > 0 {
            lemma_chain_same(nodes, b1, g1, b2, g2, p as int, (fuel - 1) as nat, reads);
        }
    }
}

/// The entry of marker `m` reads `marker_reads` alone: two blocks that
/// hold the same values for those attributes at two frames give the same
/// availability and the same world transforms of its camera and bundle.
pub proof fn marker_reads_decide<R: Scalar>(
    nodes: Seq<Node<R>>,
    b1: AttrDataBlock<R>,
    g1: FrameValue,
    b2: AttrDataBlock<R>,
    g2: FrameValue,
    m: MarkerAttrs<R>,
)
    requires
        agree_on(b1, g1, b2, g2, marker_reads(nodes, m)),
    ensures
        marker_available(nodes, b1, m, g1) == marker_available(nodes, b2, m, g2),
        world_spec(nodes, b1, m.camera as int, g1) == world_spec(nodes, b2, m.camera as int, g2),
        world_spec(nodes, b1, m.bundle as int, g1) == world_spec(nodes, b2, m.bundle as int, g2),
        b1.lookup(m.x, g1) == b2.lookup(m.x, g2),
        b1.lookup(m.y, g1) == b2.lookup(m.y, g2),
        forall|x: AttrId| camera_ids(camera_of(nodes[m.camera as int].kind)).contains(x) ==> #[trigger] b1.lookup(x, g1)
            == b2.lookup(x, g2),
{
    let reads = marker_reads(nodes, m);
    lemma_chain_same(nodes, b1, g1, b2, g2, m.camera as int, nodes.len(), reads);
    lemma_chain_same(nodes, b1, g1, b2, g2, m.bundle as int, nodes.len(), reads);
    lemma_all_available_same(b1, g1, b2, g2, marker_ids(m), reads);
    lemma_all_available_same(b1, g1, b2, g2, camera_ids(camera_of(nodes[m.camera as int].kind)), reads);
    assert(marker_ids(m).contains(m.x) && marker_ids(m).to_set().contains(m.x)) by {
        assert(marker_ids(m)[0] == m.x);
    }
    assert(marker_ids(m).contains(m.y) && marker_ids(m).to_set().contains(m.y)) by {
        assert(marker_ids(m)[1] == m.y);
    }
}

/// Scenes over one graph and one sentinel.
pub open spec fn same_scene<R: Scalar>(s1: FlatScene<R>, s2: FlatScene<R>) -> bool {
    &&& s1.nodes() == s2.nodes()
    &&& s1.marker_nodes() == s2.marker_nodes()
    &&& s1.bundle_nodes() == s2.bundle_nodes()
    &&& s1.sentinel() == s2.sentinel()
}

/// Marker entry `k1` of `s1` equals marker entry `k2` of `s2`: status,
/// the three numbers of the `markers` triple, and the deviation.
pub open spec fn same_marker_entry<R: Scalar>(s1: FlatScene<R>, k1: int, s2: FlatScene<R>, k2: int) -> bool {
    &&& s1.marker_status_view()[k1] == s2.marker_status_view()[k2]
    &&& s1.markers_view()[3 * k1] == s2.markers_view()[3 * k2]
    &&& s1.markers_view()[3 * k1 + 1] == s2.markers_view()[3 * k2 + 1]
    &&& s1.markers_view()[3 * k1 + 2] == s2.markers_view()[3 * k2 + 2]
    &&& s1.deviations_view()[k1] == s2.deviations_view()[k2]
}

/// Point entry `k1` of `s1` equals point entry `k2` of `s2`.
pub open spec fn same_point_entry<R: Scalar>(s1: FlatScene<R>, k1: int, s2: FlatScene<R>, k2: int) -> bool {
    &&& s1.point_status_view()[k1] == s2.point_status_view()[k2]
    &&& s1.points_view()[3 * k1] == s2.points_view()[3 * k2]
    &&& s1.points_view()[3 * k1 + 1] == s2.points_view()[3 * k2 + 1]
    &&& s1.points_view()[3 * k1 + 2] == s2.points_view()[3 * k2 + 2]
}

/// An entry depends on its marker and on the values, at its frame, of
/// the attributes it reads, and on nothing else: not on other frames or
/// attributes, not on the position of its frame in the list, not on
/// earlier buffers. Two evaluations whose entries `k1` and `k2` are of the
/// same marker, at frames where the blocks agree on what it reads, give
/// equal entries.
pub proof fn marker_entry_reads_its_frame_alone<R: Scalar>(
    s1: FlatScene<R>,
    b1: AttrDataBlock<R>,
    frames1: Seq<FrameValue>,
    k1: int,
    s2: FlatScene<R>,
    b2: AttrDataBlock<R>,
    frames2: Seq<FrameValue>,
    k2: int,
)
    requires
        same_scene(s1, s2),
        s1.evaluated(b1, frames1),
        s2.evaluated(b2, frames2),
        0 <= k1 < s1.marker_status_view().len(),
        0 <= k2 < s2.marker_status_view().len(),
        k1 % (s1.marker_nodes().len() as int) == k2 % (s2.marker_nodes().len() as int),
        agree_on(
            b1,
            frames1[k1 / (s1.marker_nodes().len() as int)],
            b2,
            frames2[k2 / (s2.marker_nodes().len() as int)],
            marker_reads(s1.nodes(), s1.marker_at(k1 % (s1.marker_nodes().len() as int))),
        ),
    ensures
        same_marker_entry(s1, k1, s2, k2),
{
    let nm = s1.marker_nodes().len() as int;
    assert(s1.marker_entry_is_at(b1, frames1, k1));
    assert(s2.marker_entry_is_at(b2, frames2, k2));
    let m = s1.marker_at(k1 % nm);
    let (g1, g2) = (frames1[k1 / nm], frames2[k2 / nm]);
    marker_reads_decide(s1.nodes(), b1, g1, b2, g2, m);
    let c = camera_ids(camera_of(s1.nodes()[m.camera as int].kind));
    assert forall|k: int| 0 <= k < c.len() implies #[trigger] b1.lookup(c[k], g1) == b2.lookup(c[k], g2) by {
        assert(c.contains(c[k]));
    }
}

/// The point-entry counterpart of `marker_entry_reads_its_frame_alone`:
/// a point entry reads the attributes of its bundle's world transform.
pub proof fn point_entry_reads_its_frame_alone<R: Scalar>(
    s1: FlatScene<R>,
    b1: AttrDataBlock<R>,
    frames1: Seq<FrameValue>,
    k1: int,
    s2: FlatScene<R>,
    b2: AttrDataBlock<R>,
    frames2: Seq<FrameValue>,
    k2: int,
)
    requires
        same_scene(s1, s2),
        s1.evaluated(b1, frames1),
        s2.evaluated(b2, frames2),
        0 <= k1 < s1.point_status_view().len(),
        0 <= k2 < s2.point_status_view().len(),
        k1 % (s1.bundle_nodes().len() as int) == k2 % (s2.bundle_nodes().len() as int),
        agree_on(
            b1,
            frames1[k1 / (s1.bundle_nodes().len() as int)],
            b2,
            frames2[k2 / (s2.bundle_nodes().len() as int)],
            chain_reads(
                s1.nodes(),
                s1.bundle_nodes()[k1 % (s1.bundle_nodes().len() as int)] as int,
                s1.nodes().len(),
            ),
        ),
    ensures
        same_point_entry(s1, k1, s2, k2),
{
    let nb = s1.bundle_nodes().len() as int;
    let g1 = frames1[k1 / nb];
    let g2 = frames2[k2 / nb];
    assert(s1.point_entry_is_at(b1, frames1, k1));
    assert(s2.point_entry_is_at(b2, frames2, k2));
    let b = s1.bundle_nodes()[k1 % nb] as int;
    lemma_chain_same(s1.nodes(), b1, g1, b2, g2, b, s1.nodes().len(), chain_reads(s1.nodes(), b, s1.nodes().len()));
}

/// Evaluating one scene twice against one block and one frame list gives
/// identical buffers: statuses, markers, points and deviations.
pub proof fn evaluation_is_deterministic<R: Scalar>(
    s1: FlatScene<R>,
    s2: FlatScene<R>,
    block: AttrDataBlock<R>,
    frames: Seq<FrameValue>,
)
    requires
        same_scene(s1, s2),
        s1.evaluated(block, frames),
        s2.evaluated(block, frames),
    ensures
        s1.marker_status_view() == s2.marker_status_view(),
        s1.markers_view() == s2.markers_view(),
        s1.deviations_view() == s2.deviations_view(),
        s1.point_status_view() == s2.point_status_view(),
        s1.points_view() == s2.points_view(),
{
    let nm = s1.marker_nodes().len() as int;
    let nb = s1.bundle_nodes().len() as int;
    assert forall|k: int| 0 <= k < s1.marker_status_view().len() implies #[trigger] same_marker_entry(s1, k, s2, k) by {
        marker_entry_reads_its_frame_alone(s1, block, frames, k, s2, block, frames, k);
    }
    assert forall|k: int| 0 <= k < s1.point_status_view().len() implies #[trigger] same_point_entry(s1, k, s2, k) by {
        point_entry_reads_its_frame_alone(s1, block, frames, k, s2, block, frames, k);
    }
    assert forall|k: int| 0 <= k < s1.marker_status_view().len() implies s1.marker_status_view()[k]
        == s2.marker_status_view()[k] && s1.deviations_view()[k] == s2.deviations_view()[k] by {
        assert(same_marker_entry(s1, k, s2, k));
    }
    assert(s1.deviations_view().len() == s2.deviations_view().len());
    assert(s1.point_status_view().len() == s2.point_status_view().len());
    assert(s1.marker_status_view() =~= s2.marker_status_view());
    assert forall|k: int| 0 <= k < s1.deviations_view().len() implies s1.deviations_view()[k]
        == s2.deviations_view()[k] by {
        assert(same_marker_entry(s1, k, s2, k));
    }
    assert(s1.deviations_view() =~= s2.deviations_view());
    assert forall|k: int| 0 <= k < s1.point_status_view().len() implies s1.point_status_view()[k]
        == s2.point_status_view()[k] by {
        assert(same_point_entry(s1, k, s2, k));
    }
    assert(s1.point_status_view() =~= s2.point_status_view());
    assert forall|q: int| 0 <= q < s1.markers_view().len() implies s1.markers_view()[q] == s2.markers_view()[q] by {
        let k = q / 3;
        assert(same_marker_entry(s1, k, s2, k));
    }
    assert(s1.markers_view() =~= s2.markers_view());
    assert forall|q: int| 0 <= q < s1.points_view().len() implies s1.points_view()[q] == s2.points_view()[q] by {
        let k = q / 3;
        assert(same_point_entry(s1, k, s2, k));
    }
    assert(s1.points_view() =~= s2.points_view());
}

/// An attribute that loses its value at one frame `f` only leaves every
/// other frame as it was: there, every marker entry and every point entry
/// is identical to the one evaluated before. At `f`, every marker entry
/// that reads the attribute is reported missing, with the sentinel as
/// its deviation, and every entry that does not read it is unchanged.
pub proof fn missing_value_stays_in_its_frame<R: Scalar>(
    s1: FlatScene<R>,
    s2: FlatScene<R>,
    b1: AttrDataBlock<R>,
    b2: AttrDataBlock<R>,
    frames: Seq<FrameValue>,
    a: AttrId,
    f: FrameValue,
)
    requires
        same_scene(s1, s2),
        s1.evaluated(b1, frames),
        s2.evaluated(b2, frames),
        forall|x: AttrId, g: FrameValue| (x != a || g != f) ==> #[trigger] b1.lookup(x, g) == b2.lookup(x, g),
        b2.lookup(a, f) is Err,
    ensures
        forall|k: int|
            0 <= k < s2.marker_status_view().len() && frames[k / s2.marker_nodes().len() as int] != f
                ==> #[trigger] same_marker_entry(s1, k, s2, k),
        forall|k: int|
            0 <= k < s2.point_status_view().len() && frames[k / s2.bundle_nodes().len() as int] != f
                ==> #[trigger] same_point_entry(s1, k, s2, k),
        forall|k: int|
            0 <= k < s2.marker_status_view().len() && frames[k / s2.marker_nodes().len() as int] == f
                && marker_ids(s2.marker_at(k % s2.marker_nodes().len() as int)).contains(a)
                ==> #[trigger] s2.marker_status_view()[k] == EntryStatus::MissingAttribute
                && s2.deviations_view()[k] == s2.sentinel(),
        forall|k: int|
            0 <= k < s2.marker_status_view().len() && !marker_reads(
                s2.nodes(),
                s2.marker_at(k % s2.marker_nodes().len() as int),
            ).contains(a) ==> #[trigger] same_marker_entry(s1, k, s2, k),
        forall|k: int|
            0 <= k < s2.point_status_view().len() && !chain_reads(
                s2.nodes(),
                s2.bundle_nodes()[k % s2.bundle_nodes().len() as int] as int,
                s2.nodes().len(),
            ).contains(a) ==> #[trigger] same_point_entry(s1, k, s2, k),
{
    let nm = s2.marker_nodes().len() as int;
    let nb = s2.bundle_nodes().len() as int;
    assert forall|k: int| 0 <= k < s2.marker_status_view().len() && frames[k / nm] != f implies #[trigger] same_marker_entry(s1, k, s2, k) by {
        let g = frames[k / nm];
        assert forall|x: AttrId| #[trigger] b1.lookup(x, g) == b2.lookup(x, g) by {}
        marker_entry_reads_its_frame_alone(s1, b1, frames, k, s2, b2, frames, k);
    }
    assert forall|k: int| 0 <= k < s2.point_status_view().len() && frames[k / nb] != f implies #[trigger] same_point_entry(s1, k, s2, k) by {
        let g = frames[k / nb];
        assert forall|x: AttrId| #[trigger] b1.lookup(x, g) == b2.lookup(x, g) by {}
        point_entry_reads_its_frame_alone(s1, b1, frames, k, s2, b2, frames, k);
    }
    assert forall|k: int|
        0 <= k < s2.marker_status_view().len() && frames[k / nm] == f && marker_ids(
            s2.marker_at(k % nm),
        ).contains(a) implies #[trigger] s2.marker_status_view()[k] == EntryStatus::MissingAttribute
        && s2.deviations_view()[k] == s2.sentinel() by {
        assert(s2.marker_entry_is_at(b2, frames, k));
        let ids = marker_ids(s2.marker_at(k % nm));
        let q = choose|q: int| 0 <= q < ids.len() && ids[q] == a;
        assert(b2.lookup(ids[q], f) is Err);
    }
    assert forall|k: int|
        0 <= k < s2.marker_status_view().len() && !marker_reads(s2.nodes(), s2.marker_at(k % nm)).contains(a)
        implies #[trigger] same_marker_entry(s1, k, s2, k) by {
        let g = frames[k / nm];
        let reads = marker_reads(s2.nodes(), s2.marker_at(k % nm));
        assert forall|x: AttrId| reads.contains(x) implies #[trigger] b1.lookup(x, g) == b2.lookup(x, g) by {
            assert(x != a);
        }
        marker_entry_reads_its_frame_alone(s1, b1, frames, k, s2, b2, frames, k);
    }
    assert forall|k: int|
        0 <= k < s2.point_status_view().len() && !chain_reads(s2.nodes(), s2.bundle_nodes()[k % nb] as int, s2.nodes().len()).contains(a)
        implies #[trigger] same_point_entry(s1, k, s2, k) by {
        let g = frames[k / nb];
        let reads = chain_reads(s2.nodes(), s2.bundle_nodes()[k % nb] as int, s2.nodes().len());
        assert forall|x: AttrId| reads.contains(x) implies #[trigger] b1.lookup(x, g) == b2.lookup(x, g) by {
            assert(x != a);
        }
        point_entry_reads_its_frame_alone(s1, b1, frames, k, s2, b2, frames, k);
    }
}

proof fn lemma_concat_index(k: int, n: int, l: int)
    requires
        n > 0,
        0 <= k,
        0 <= l,
    ensures
        k < l * n ==> k / n < l,
        k >= l * n ==> (k - l * n) / n == k / n - l && (k - l * n) % n == k % n,
{
    lemma_fundamental_div_mod(k, n);
    if k < l * n {
        assert(k / n < l) by (nonlinear_arith)
            requires
                k == n * (k / n) + k % n,
                0 <= k % n,
                k < l * n,
                n > 0,
        ;
    } else {
        let k2 = k - l * n;
        lemma_fundamental_div_mod(k2, n);
        assert(k == (l + k2 / n) * n + k2 % n) by (nonlinear_arith)
            requires
                k2 == n * (k2 / n) + k2 % n,
                k2 == k - l * n,
        ;
        lemma_fundamental_div_mod_converse(k, n, l + k2 / n, k2 % n);
    }
}

proof fn lemma_concat_marker_entry<R: Scalar>(
    s: FlatScene<R>,
    s1: FlatScene<R>,
    s2: FlatScene<R>,
    block: AttrDataBlock<R>,
    frames1: Seq<FrameValue>,
    frames2: Seq<FrameValue>,
    k: int,
)
    requires
        same_scene(s, s1),
        same_scene(s, s2),
        s.evaluated(block, frames1 + frames2),
        s1.evaluated(block, frames1),
        s2.evaluated(block, frames2),
        0 <= k < s.marker_status_view().len(),
    ensures
        s.marker_status_view().len() == s1.marker_status_view().len() + s2.marker_status_view().len(),
        k < s1.marker_status_view().len() ==> same_marker_entry(s, k, s1, k),
        k >= s1.marker_status_view().len() ==> same_marker_entry(s, k, s2, k - s1.marker_status_view().len()),
{
    let frames = frames1 + frames2;
    let (l, l2) = (frames1.len() as int, frames2.len() as int);
    let nm = s.marker_nodes().len() as int;
    assert((l + l2) * nm == l * nm + l2 * nm) by (nonlinear_arith);
    let lm = l * nm;
    lemma_concat_index(k, nm, l);
    lemma_concat_index(k, nm, l + l2);
    if k < lm {
        assert(frames[k / nm] == frames1[k / nm]);
        marker_entry_reads_its_frame_alone(s, block, frames, k, s1, block, frames1, k);
    } else {
        assert(frames[k / nm] == frames2[(k - lm) / nm]);
        marker_entry_reads_its_frame_alone(s, block, frames, k, s2, block, frames2, k - lm);
    }
}

proof fn lemma_concat_point_entry<R: Scalar>(
    s: FlatScene<R>,
    s1: FlatScene<R>,
    s2: FlatScene<R>,
    block: AttrDataBlock<R>,
    frames1: Seq<FrameValue>,
    frames2: Seq<FrameValue>,
    k: int,
)
    requires
        same_scene(s, s1),
        same_scene(s, s2),
        s.evaluated(block, frames1 + frames2),
        s1.evaluated(block, frames1),
        s2.evaluated(block, frames2),
        0 <= k < s.point_status_view().len(),
    ensures
        s.point_status_view().len() == s1.point_status_view().len() + s2.point_status_view().len(),
        k < s1.point_status_view().len() ==> same_point_entry(s, k, s1, k),
        k >= s1.point_status_view().len() ==> same_point_entry(s, k, s2, k - s1.point_status_view().len()),
{
    let frames = frames1 + frames2;
    let (l, l2) = (frames1.len() as int, frames2.len() as int);
    let nb = s.bundle_nodes().len() as int;
    assert((l + l2) * nb == l * nb + l2 * nb) by (nonlinear_arith);
    let lb = l * nb;
    lemma_concat_index(k, nb, l);
    lemma_concat_index(k, nb, l + l2);
    if k < lb {
        assert(frames[k / nb] == frames1[k / nb]);
        point_entry_reads_its_frame_alone(s, block, frames, k, s1, block, frames1, k);
    } else {
        assert(frames[k / nb] == frames2[(k - lb) / nb]);
        point_entry_reads_its_frame_alone(s, block, frames, k, s2, block, frames2, k - lb);
    }
}

/// Evaluating two frame lists one after the other gives, concatenated,
/// the buffers of evaluating the concatenated list: frames are evaluated
/// independently and kept in order.
pub proof fn concatenated_frames_concatenate_buffers<R: Scalar>(
    s: FlatScene<R>,
    s1: FlatScene<R>,
    s2: FlatScene<R>,
    block: AttrDataBlock<R>,
    frames1: Seq<FrameValue>,
    frames2: Seq<FrameValue>,
)
    requires
        same_scene(s, s1),
        same_scene(s, s2),
        s.evaluated(block, frames1 + frames2),
        s1.evaluated(block, frames1),
        s2.evaluated(block, frames2),
    ensures
        s.marker_status_view() == s1.marker_status_view() + s2.marker_status_view(),
        s.markers_view() == s1.markers_view() + s2.markers_view(),
        s.deviations_view() == s1.deviations_view() + s2.deviations_view(),
        s.point_status_view() == s1.point_status_view() + s2.point_status_view(),
        s.points_view() == s1.points_view() + s2.points_view(),
{
    let n1 = s1.marker_status_view().len() as int;
    let p1 = s1.point_status_view().len() as int;
    if s.marker_status_view().len() > 0 {
        lemma_concat_marker_entry(s, s1, s2, block, frames1, frames2, 0);
    } else {
        assert((frames1 + frames2).len() * s.marker_nodes().len() == 0);
        assert(frames1.len() * s.marker_nodes().len() == 0) by (nonlinear_arith)
            requires
                (frames1.len() + frames2.len()) * s.marker_nodes().len() == 0,
        ;
        assert(frames2.len() * s.marker_nodes().len() == 0) by (nonlinear_arith)
            requires
                (frames1.len() + frames2.len()) * s.marker_nodes().len() == 0,
        ;
    }
    if s.point_status_view().len() > 0 {
        lemma_concat_point_entry(s, s1, s2, block, frames1, frames2, 0);
    } else {
        assert((frames1 + frames2).len() * s.bundle_nodes().len() == 0);
        assert(frames1.len() * s.bundle_nodes().len() == 0) by (nonlinear_arith)
            requires
                (frames1.len() + frames2.len()) * s.bundle_nodes().len() == 0,
        ;
        assert(frames2.len() * s.bundle_nodes().len() == 0) by (nonlinear_arith)
            requires
                (frames1.len() + frames2.len()) * s.bundle_nodes().len() == 0,
        ;
    }
    assert forall|k: int| 0 <= k < s.marker_status_view().len() implies s.marker_status_view()[k]
        == (s1.marker_status_view() + s2.marker_status_view())[k] by {
        lemma_concat_marker_entry(s, s1, s2, block, frames1, frames2, k);
    }
    assert(s.marker_status_view() =~= s1.marker_status_view() + s2.marker_status_view());
    assert forall|k: int| 0 <= k < s.deviations_view().len() implies s.deviations_view()[k]
        == (s1.deviations_view() + s2.deviations_view())[k] by {
        lemma_concat_marker_entry(s, s1, s2, block, frames1, frames2, k);
    }
    assert(s.deviations_view() =~= s1.deviations_view() + s2.deviations_view());
    assert forall|q: int| 0 <= q < s.markers_view().len() implies s.markers_view()[q]
        == (s1.markers_view() + s2.markers_view())[q] by {
        lemma_concat_marker_entry(s, s1, s2, block, frames1, frames2, q / 3);
    }
    assert(s.markers_view() =~= s1.markers_view() + s2.markers_view());
    assert forall|k: int| 0 <= k < s.point_status_view().len() implies s.point_status_view()[k]
        == (s1.point_status_view() + s2.point_status_view())[k] by {
        lemma_concat_point_entry(s, s1, s2, block, frames1, frames2, k);
    }
    assert(s.point_status_view() =~= s1.point_status_view() + s2.point_status_view());
    assert forall|q: int| 0 <= q < s.points_view().len() implies s.points_view()[q]
        == (s1.points_view() + s2.points_view())[q] by {
        lemma_concat_point_entry(s, s1, s2, block, frames1, frames2, q / 3);
    }
    assert(s.points_view() =~= s1.points_view() + s2.points_view());
}

/// Duplicate frames are kept and give equal entries: marker entries (and
/// point entries) of one marker (one bundle) at two equal frames of the
/// list are identical.
pub proof fn duplicate_frames_give_equal_entries<R: Scalar>(
    s: FlatScene<R>,
    block: AttrDataBlock<R>,
    frames: Seq<FrameValue>,
    k1: int,
    k2: int,
)
    requires
        s.evaluated(block, frames),
    ensures
        0 <= k1 < s.marker_status_view().len() && 0 <= k2 < s.marker_status_view().len() && k1 % (
        s.marker_nodes().len() as int) == k2 % (s.marker_nodes().len() as int) && frames[k1 / (
        s.marker_nodes().len() as int)] == frames[k2 / (s.marker_nodes().len() as int)]
            ==> same_marker_entry(s, k1, s, k2),
        0 <= k1 < s.point_status_view().len() && 0 <= k2 < s.point_status_view().len() && k1 % (
        s.bundle_nodes().len() as int) == k2 % (s.bundle_nodes().len() as int) && frames[k1 / (
        s.bundle_nodes().len() as int)] == frames[k2 / (s.bundle_nodes().len() as int)]
            ==> same_point_entry(s, k1, s, k2),
{
    let nm = s.marker_nodes().len() as int;
    let nb = s.bundle_nodes().len() as int;
    if 0 <= k1 < s.marker_status_view().len() && 0 <= k2 < s.marker_status_view().len() && k1 % nm
        == k2 % nm && frames[k1 / nm] == frames[k2 / nm] {
        marker_entry_reads_its_frame_alone(s, block, frames, k1, s, block, frames, k2);
    }
    if 0 <= k1 < s.point_status_view().len() && 0 <= k2 < s.point_status_view().len() && k1 % nb
        == k2 % nb && frames[k1 / nb] == frames[k2 / nb] {
        point_entry_reads_its_frame_alone(s, block, frames, k1, s, block, frames, k2);
    }
}

/// After an evaluation of `frames`, the entry counts are the number of
/// frames times the number of markers (markers and deviations) or of
/// bundles (points).
pub proof fn entry_counts<R: Scalar>(s: FlatScene<R>, block: AttrDataBlock<R>, frames: Seq<FrameValue>)
    requires
        s.evaluated(block, frames),
    ensures
        s.markers_view().len() / 3 == frames.len() * s.marker_nodes().len(),
        s.deviations_view().len() == frames.len() * s.marker_nodes().len(),
        s.points_view().len() / 3 == frames.len() * s.bundle_nodes().len(),
{
}

} // verus!
