use vstd::prelude::*;
use crate::attr::{AttrDataBlock, AttrId, FrameValue};
use crate::graph::{
    has_transform, lemma_roots_within_mono, local_error, roots_within, transform_of, CameraAttrs,
    Lens, MarkerAttrs, NodeGraph, NodeIndex, NodeKind, Node, TransformAttrs,
};
use crate::scalar::Scalar;
use crate::project::Intrinsics;
use crate::transform::{
    compose, compose_spec, identity, identity_spec, local_transform, local_transform_spec, vec3,
    Affine, Vec3,
};

verus! {

/// The attributes of a local transform, in the order
/// translate X Y Z, rotate X Y Z, scale X Y Z.
pub open spec fn transform_ids(t: TransformAttrs) -> Seq<AttrId> {
    seq![t.tx, t.ty, t.tz, t.rx, t.ry, t.rz, t.sx, t.sy, t.sz]
}

/// The intrinsic attributes of a camera: focal length, film back width
/// and height, then the lens coefficients if any.
pub open spec fn camera_ids(c: CameraAttrs) -> Seq<AttrId> {
    match c.lens {
        Lens::Undistorted => seq![c.focal_length, c.film_back_width, c.film_back_height],
        Lens::Radial { k1, k2 } => seq![c.focal_length, c.film_back_width, c.film_back_height, k1, k2],
    }
}

/// The attributes of a marker: observed x and y.
pub open spec fn marker_ids<R>(m: MarkerAttrs<R>) -> Seq<AttrId> {
    seq![m.x, m.y]
}

pub open spec fn camera_of<R>(k: NodeKind<R>) -> CameraAttrs {
    match k {
        NodeKind::Camera(_, c) => c,
        _ => arbitrary(),
    }
}

/// Whether the local transforms of node `i` and of its ancestors, up to
/// `fuel` levels, all have values at frame `f`.
pub open spec fn chain_available<R: Copy>(
    nodes: Seq<Node<R>>,
    block: AttrDataBlock<R>,
    i: int,
    f: FrameValue,
    fuel: nat,
) -> bool
    decreases fuel,
{
    &&& block.all_available(transform_ids(transform_of(nodes[i].kind)), f)
    &&& match nodes[i].parent {
        None => true,
        Some(p) => fuel > 0 && chain_available(nodes, block, p as int, f, (fuel - 1) as nat),
    }
}

/// Whether the world transform of node `i` can be evaluated at frame `f`.
pub open spec fn world_available<R: Copy>(
    nodes: Seq<Node<R>>,
    block: AttrDataBlock<R>,
    i: int,
    f: FrameValue,
) -> bool {
    chain_available(nodes, block, i, f, nodes.len())
}

/// Whether every value that marker `m` needs at frame `f` is there: its
/// own attributes, its camera's intrinsics, and the world transforms of
/// its camera and its bundle.
pub open spec fn marker_available<R: Copy>(
    nodes: Seq<Node<R>>,
    block: AttrDataBlock<R>,
    m: MarkerAttrs<R>,
    f: FrameValue,
) -> bool {
    &&& block.all_available(marker_ids(m), f)
    &&& block.all_available(camera_ids(camera_of(nodes[m.camera as int].kind)), f)
    &&& world_available(nodes, block, m.camera as int, f)
    &&& world_available(nodes, block, m.bundle as int, f)
}

/// The value of attribute `a` at frame `f`, where it has one.
pub open spec fn value_at<R: Copy>(block: AttrDataBlock<R>, a: AttrId, f: FrameValue) -> R {
    match block.lookup(a, f) {
        Ok(v) => v,
        Err(_) => arbitrary(),
    }
}

/// The local transform of `t` at frame `f`.
pub open spec fn local_spec<R: Scalar>(block: AttrDataBlock<R>, t: TransformAttrs, f: FrameValue) -> Affine<R> {
    local_transform_spec(
        Vec3 { x: value_at(block, t.tx, f), y: value_at(block, t.ty, f), z: value_at(block, t.tz, f) },
        Vec3 { x: value_at(block, t.rx, f), y: value_at(block, t.ry, f), z: value_at(block, t.rz, f) },
        Vec3 { x: value_at(block, t.sx, f), y: value_at(block, t.sy, f), z: value_at(block, t.sz, f) },
        t.rotate_order,
    )
}

/// The world transform of node `i` at frame `f`, following at most `fuel`
/// parents: the parent's world transform (the identity at a root)
/// composed with the node's local transform.
pub open spec fn world_chain<R: Scalar>(
    nodes: Seq<Node<R>>,
    block: AttrDataBlock<R>,
    i: int,
    f: FrameValue,
    fuel: nat,
) -> Affine<R>
    decreases fuel,
{
    let parent_world = match nodes[i].parent {
        Some(p) if fuel > 0 => world_chain(nodes, block, p as int, f, (fuel - 1) as nat),
        _ => identity_spec(),
    };
    compose_spec(parent_world, local_spec(block, transform_of(nodes[i].kind), f))
}

/// The world transform of node `i` at frame `f`.
pub open spec fn world_spec<R: Scalar>(nodes: Seq<Node<R>>, block: AttrDataBlock<R>, i: int, f: FrameValue) -> Affine<R> {
    world_chain(nodes, block, i, f, nodes.len())
}

/// The intrinsics of camera `c` at frame `f`.
pub open spec fn intrinsics_spec<R: Copy>(block: AttrDataBlock<R>, c: CameraAttrs, f: FrameValue) -> Intrinsics<R> {
    Intrinsics {
        focal_length: value_at(block, c.focal_length, f),
        film_back_width: value_at(block, c.film_back_width, f),
        film_back_height: value_at(block, c.film_back_height, f),
        radial: match c.lens {
            Lens::Undistorted => None,
            Lens::Radial { k1, k2 } => Some((value_at(block, k1, f), value_at(block, k2, f))),
        },
    }
}

proof fn lemma_world_fuel<R: Scalar>(
    nodes: Seq<Node<R>>,
    block: AttrDataBlock<R>,
    i: int,
    f: FrameValue,
    a: nat,
    b: nat,
)
    requires
        roots_within(nodes, i, a),
        a <= b,
    ensures
        world_chain(nodes, block, i, f, a) == world_chain(nodes, block, i, f, b),
    decreases a,
{
    if let Some(p) = nodes[i].parent {
        lemma_world_fuel(nodes, block, p as int, f, (a - 1) as nat, (b - 1) as nat);
    }
}

proof fn lemma_chain_fuel<R: Copy>(
    nodes: Seq<Node<R>>,
    block: AttrDataBlock<R>,
    i: int,
    f: FrameValue,
    a: nat,
    b: nat,
)
    requires
        roots_within(nodes, i, a),
        a <= b,
    ensures
        chain_available(nodes, block, i, f, a) == chain_available(nodes, block, i, f, b),
    decreases a,
{
    if let Some(p) = nodes[i].parent {
        lemma_chain_fuel(nodes, block, p as int, f, (a - 1) as nat, (b - 1) as nat);
    }
}

/// What is known of a node's world transform at the frame at hand.
pub enum Slot<R> {
    Unresolved,
    Missing,
    Resolved(Affine<R>),
}

/// Every settled slot of `cache` tells truly whether its node's world
/// transform is available, and a resolved one holds that transform.
pub open spec fn cache_ok<R: Scalar>(
    cache: Seq<Slot<R>>,
    nodes: Seq<Node<R>>,
    block: AttrDataBlock<R>,
    f: FrameValue,
) -> bool {
    &&& cache.len() == nodes.len()
    &&& forall|k: int|
        0 <= k < cache.len() && !(#[trigger] cache[k] is Unresolved) ==> (cache[k] is Resolved
            <==> world_available(nodes, block, k, f)) && (cache[k] matches Slot::Resolved(w) ==> w
            == world_spec(nodes, block, k, f))
}

pub fn transform_id_vec(t: &TransformAttrs) -> (r: Vec<AttrId>)
    ensures
        r@ == transform_ids(*t),
{
    let r = vec![t.tx, t.ty, t.tz, t.rx, t.ry, t.rz, t.sx, t.sy, t.sz];
    assert(r@ == transform_ids(*t));
    r
}

pub fn camera_id_vec(c: &CameraAttrs) -> (r: Vec<AttrId>)
    ensures
        r@ == camera_ids(*c),
{
    match c.lens {
        Lens::Undistorted => {
            let r = vec![c.focal_length, c.film_back_width, c.film_back_height];
            assert(r@ == camera_ids(*c));
            r
        },
        Lens::Radial { k1, k2 } => {
            let r = vec![c.focal_length, c.film_back_width, c.film_back_height, k1, k2];
            assert(r@ == camera_ids(*c));
            r
        },
    }
}

pub fn marker_id_vec<R>(m: &MarkerAttrs<R>) -> (r: Vec<AttrId>)
    ensures
        r@ == marker_ids(*m),
{
    let r = vec![m.x, m.y];
    assert(r@ == marker_ids(*m));
    r
}

fn node_transform<R>(k: &NodeKind<R>) -> (r: TransformAttrs)
    requires
        has_transform(*k),
    ensures
        r == transform_of(*k),
{
    match k {
        NodeKind::Transform(t) => *t,
        NodeKind::Camera(t, _) => *t,
        NodeKind::Bundle(t) => *t,
        NodeKind::Marker(_) => unreached(),
    }
}

/// Settles the slot of node `i` in `cache`, and the slots of its
/// ancestors, at frame `f`. Settled slots are reused, not recomputed.
pub fn resolve<R: Scalar>(
    g: &NodeGraph<R>,
    block: &AttrDataBlock<R>,
    f: FrameValue,
    i: NodeIndex,
    fuel: usize,
    cache: &mut Vec<Slot<R>>,
)
    requires
        g.wf(),
        i < g@.len(),
        has_transform(g@[i as int].kind),
        roots_within(g@, i as int, fuel as nat),
        fuel <= g@.len(),
        cache_ok(old(cache)@, g@, *block, f),
    ensures
        cache_ok(final(cache)@, g@, *block, f),
        !(final(cache)@[i as int] is Unresolved),
        final(cache)@[i as int] matches Slot::Resolved(w) ==> w == world_spec(g@, *block, i as int, f),
        forall|k: int|
            0 <= k < old(cache)@.len() && !(old(cache)@[k] is Unresolved) ==> #[trigger] final(cache)@[k]
                == old(cache)@[k],
    decreases fuel,
{
    if !matches!(cache[i], Slot::Unresolved) {
        return;
    }
    let node = g.node(i);
    let t = node_transform(&node.kind);
    let ids = transform_id_vec(&t);
    let values = block.get_all(&ids, f);
    let parent_world: Option<Affine<R>> = match node.parent {
        None => Some(identity()),
        Some(p) => {
            assert(local_error(g@, i as int) is None);
            resolve(g, block, f, p, fuel - 1, cache);
            match &cache[p] {
                Slot::Resolved(w) => Some(*w),
                _ => None,
            }
        },
    };
    let slot = match (values, parent_world) {
        (Some(v), Some(pw)) => {
            let local = local_transform(
                &vec3(v[0], v[1], v[2]),
                &vec3(v[3], v[4], v[5]),
                &vec3(v[6], v[7], v[8]),
                t.rotate_order,
            );
            Slot::Resolved(compose(&pw, &local))
        },
        _ => Slot::Missing,
    };
    proof {
        let n = g@.len();
        lemma_roots_within_mono(g@, i as int, fuel as nat, n);
        if let Some(p) = node.parent {
            lemma_roots_within_mono(g@, p as int, (fuel - 1) as nat, (n - 1) as nat);
            lemma_chain_fuel(g@, *block, p as int, f, (n - 1) as nat, n);
            lemma_world_fuel(g@, *block, p as int, f, (n - 1) as nat, n);
        }
    }
    cache.set(i, slot);
}

} // verus!
