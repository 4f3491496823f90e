use vstd::prelude::*;
use crate::attr::AttrId;

verus! {

/// Index of a node in a `NodeGraph`.
pub type NodeIndex = usize;

/// Order in which the three axis rotations of a transform apply.
#[derive(Clone, Copy, Debug, PartialEq, Eq, Structural)]
pub enum RotateOrder {
    XYZ,
    YZX,
    ZXY,
    XZY,
    YXZ,
    ZYX,
}

/// The attributes of a node's local transform.
#[derive(Clone, Copy, Debug)]
pub struct TransformAttrs {
    pub tx: AttrId,
    pub ty: AttrId,
    pub tz: AttrId,
    pub rx: AttrId,
    pub ry: AttrId,
    pub rz: AttrId,
    pub sx: AttrId,
    pub sy: AttrId,
    pub sz: AttrId,
    pub rotate_order: RotateOrder,
}

/// The lens model of a camera.
#[derive(Clone, Copy, Debug)]
pub enum Lens {
    Undistorted,
    /// Radial distortion: a normalized image point moves by the factor
    /// `1 + k1 * r^2 + k2 * r^4`, `r` its distance from the image centre.
    Radial { k1: AttrId, k2: AttrId },
}

/// The intrinsic attributes of a camera.
#[derive(Clone, Copy, Debug)]
pub struct CameraAttrs {
    pub focal_length: AttrId,
    pub film_back_width: AttrId,
    pub film_back_height: AttrId,
    pub lens: Lens,
}

/// An observation of a bundle through a camera.
#[derive(Clone, Copy, Debug)]
pub struct MarkerAttrs<R> {
    pub x: AttrId,
    pub y: AttrId,
    /// Confidence in the observation, fixed by the scene description.
    pub weight: R,
    pub bundle: NodeIndex,
    pub camera: NodeIndex,
}

#[derive(Clone, Copy, Debug)]
pub enum NodeKind<R> {
    Transform(TransformAttrs),
    Camera(TransformAttrs, CameraAttrs),
    Bundle(TransformAttrs),
    Marker(MarkerAttrs<R>),
}

#[derive(Clone, Copy, Debug)]
pub struct Node<R> {
    pub parent: Option<NodeIndex>,
    pub kind: NodeKind<R>,
}

/// Why a list of nodes is not a valid graph.
#[derive(Clone, Copy, Debug, PartialEq, Eq, Structural)]
pub enum GraphError {
    /// The node's parent does not exist or is a marker.
    InvalidParent { node: NodeIndex },
    /// The marker's bundle does not exist or is no bundle.
    DanglingBundle { marker: NodeIndex },
    /// The marker's camera does not exist or is no camera.
    DanglingCamera { marker: NodeIndex },
    /// The node's chain of parents runs in a cycle.
    ParentCycle { node: NodeIndex },
}

pub open spec fn has_transform<R>(k: NodeKind<R>) -> bool {
    !(k is Marker)
}

pub open spec fn transform_of<R>(k: NodeKind<R>) -> TransformAttrs {
    match k {
        NodeKind::Transform(t) => t,
        NodeKind::Camera(t, _) => t,
        NodeKind::Bundle(t) => t,
        NodeKind::Marker(_) => arbitrary(),
    }
}

/// The error that node `i` has on its own, if any.
pub open spec fn local_error<R>(nodes: Seq<Node<R>>, i: int) -> Option<GraphError> {
    let len = nodes.len();
    if nodes[i].parent matches Some(p) && (p >= len || !has_transform(nodes[p as int].kind)) {
        Some(GraphError::InvalidParent { node: i as NodeIndex })
    } else if let NodeKind::Marker(m) = nodes[i].kind {
        if m.bundle >= len || !(nodes[m.bundle as int].kind is Bundle) {
            Some(GraphError::DanglingBundle { marker: i as NodeIndex })
        } else if m.camera >= len || !(nodes[m.camera as int].kind is Camera) {
            Some(GraphError::DanglingCamera { marker: i as NodeIndex })
        } else {
            None
        }
    } else {
        None
    }
}

/// Whether the chain of parents from node `i` ends at a root within
/// `steps` steps.
pub open spec fn roots_within<R>(nodes: Seq<Node<R>>, i: int, steps: nat) -> bool
    decreases steps,
{
    match nodes[i].parent {
        None => true,
        Some(p) => steps > 0 && 0 <= p < nodes.len() && roots_within(nodes, p as int, (steps - 1) as nat),
    }
}

/// The first error among the local errors of nodes `0 .. k`.
pub open spec fn first_local_error<R>(nodes: Seq<Node<R>>, k: int) -> Option<GraphError>
    decreases k,
{
    if k <= 0 {
        None
    } else if let Some(e) = first_local_error(nodes, k - 1) {
        Some(e)
    } else {
        local_error(nodes, k - 1)
    }
}

/// The first node among `0 .. k` whose chain of parents runs in a cycle.
pub open spec fn first_cycle<R>(nodes: Seq<Node<R>>, k: int) -> Option<GraphError>
    decreases k,
{
    if k <= 0 {
        None
    } else if let Some(e) = first_cycle(nodes, k - 1) {
        Some(e)
    } else if !roots_within(nodes, k - 1, nodes.len()) {
        Some(GraphError::ParentCycle { node: (k - 1) as NodeIndex })
    } else {
        None
    }
}

/// The error of a list of nodes: the first local error in node order,
/// else the first node on a cycle.
pub open spec fn graph_error<R>(nodes: Seq<Node<R>>) -> Option<GraphError> {
    if let Some(e) = first_local_error(nodes, nodes.len() as int) {
        Some(e)
    } else {
        first_cycle(nodes, nodes.len() as int)
    }
}

/// Nodes that form a valid graph: every parent and association resolves,
/// and every chain of parents reaches a root.
pub open spec fn nodes_valid<R>(nodes: Seq<Node<R>>) -> bool {
    &&& forall|i: int| 0 <= i < nodes.len() ==> (#[trigger] local_error(nodes, i)) is None
    &&& forall|i: int| 0 <= i < nodes.len() ==> #[trigger] roots_within(nodes, i, nodes.len())
}

proof fn lemma_first_local_error<R>(nodes: Seq<Node<R>>, k: int)
    requires
        0 <= k <= nodes.len(),
        first_local_error(nodes, k) is None,
    ensures
        forall|i: int| 0 <= i < k ==> (#[trigger] local_error(nodes, i)) is None,
    decreases k,
{
    if k > 0 {
        lemma_first_local_error(nodes, k - 1);
    }
}

proof fn lemma_first_cycle<R>(nodes: Seq<Node<R>>, k: int)
    requires
        0 <= k <= nodes.len(),
        first_cycle(nodes, k) is None,
    ensures
        forall|i: int| 0 <= i < k ==> #[trigger] roots_within(nodes, i, nodes.len()),
    decreases k,
{
    if k > 0 {
        lemma_first_cycle(nodes, k - 1);
    }
}

proof fn lemma_first_local_error_stays<R>(nodes: Seq<Node<R>>, a: int, b: int)
    requires
        0 <= a <= b,
        first_local_error(nodes, a) is Some,
    ensures
        first_local_error(nodes, b) == first_local_error(nodes, a),
    decreases b - a,
{
    if b > a {
        lemma_first_local_error_stays(nodes, a, b - 1);
    }
}

proof fn lemma_first_cycle_stays<R>(nodes: Seq<Node<R>>, a: int, b: int)
    requires
        0 <= a <= b,
        first_cycle(nodes, a) is Some,
    ensures
        first_cycle(nodes, b) == first_cycle(nodes, a),
    decreases b - a,
{
    if b > a {
        lemma_first_cycle_stays(nodes, a, b - 1);
    }
}

/// A graph that has no error is valid.
pub proof fn lemma_no_error_valid<R>(nodes: Seq<Node<R>>)
    requires
        graph_error(nodes) is None,
    ensures
        nodes_valid(nodes),
{
    lemma_first_local_error(nodes, nodes.len() as int);
    lemma_first_cycle(nodes, nodes.len() as int);
}

/// More steps never hurt: a chain that roots within `a` steps roots
/// within any `b >= a`.
pub proof fn lemma_roots_within_mono<R>(nodes: Seq<Node<R>>, i: int, a: nat, b: nat)
    requires
        roots_within(nodes, i, a),
        a <= b,
    ensures
        roots_within(nodes, i, b),
    decreases a,
{
    if let Some(p) = nodes[i].parent {
        lemma_roots_within_mono(nodes, p as int, (a - 1) as nat, (b - 1) as nat);
    }
}

/// A validated, immutable graph of nodes.
pub struct NodeGraph<R> {
    nodes: Vec<Node<R>>,
}

impl<R> NodeGraph<R> {
    pub closed spec fn view(&self) -> Seq<Node<R>> {
        self.nodes@
    }

    pub open spec fn wf(&self) -> bool {
        nodes_valid(self@)
    }

    #[verifier::type_invariant]
    pub open spec fn inv(&self) -> bool {
        self.wf()
    }
}

impl<R: Copy> NodeGraph<R> {
    /// Builds a graph from `nodes`, or returns the graph's error.
    pub fn new(nodes: Vec<Node<R>>) -> (r: Result<NodeGraph<R>, GraphError>)
        ensures
            r is Ok <==> graph_error(nodes@) is None,
            r matches Ok(g) ==> g@ == nodes@ && g.wf(),
            r matches Err(e) ==> graph_error(nodes@) == Some(e),
    {
        let n = nodes.len();
        let mut i: usize = 0;
        while i < n
            invariant
                n == nodes@.len(),
                i <= n,
                first_local_error(nodes@, i as int) is None,
            decreases n - i,
        {
            if let Some(e) = node_error(&nodes, i) {
                proof {
                    lemma_first_local_error_stays(nodes@, i + 1, n as int);
                }
                return Err(e);
            }
            i += 1;
        }
        proof {
            lemma_first_local_error(nodes@, n as int);
        }
        let mut j: usize = 0;
        while j < n
            invariant
                n == nodes@.len(),
                j <= n,
                first_local_error(nodes@, n as int) is None,
                forall|q: int| 0 <= q < n ==> (#[trigger] local_error(nodes@, q)) is None,
                first_cycle(nodes@, j as int) is None,
            decreases n - j,
        {
            if !reaches_root(&nodes, j) {
                proof {
                    lemma_first_cycle_stays(nodes@, j + 1, n as int);
                }
                return Err(GraphError::ParentCycle { node: j });
            }
            j += 1;
        }
        proof {
            lemma_no_error_valid(nodes@);
        }
        Ok(NodeGraph { nodes })
    }

    pub fn len(&self) -> (r: usize)
        ensures
            r == self@.len(),
    {
        self.nodes.len()
    }

    /// The parent of node `i`; it exists and has a transform.
    pub fn parent(&self, i: NodeIndex) -> (r: Option<NodeIndex>)
        requires
            i < self@.len(),
        ensures
            r == self@[i as int].parent,
            r matches Some(p) ==> p < self@.len() && has_transform(self@[p as int].kind),
    {
        proof {
            use_type_invariant(self);
            assert(local_error(self@, i as int) is None);
        }
        self.nodes[i].parent
    }

    /// The bundle and the camera that marker node `i` observes, or `None`
    /// when node `i` is no marker.
    pub fn marker_association(&self, i: NodeIndex) -> (r: Option<(NodeIndex, NodeIndex)>)
        requires
            i < self@.len(),
        ensures
            r is Some <==> self@[i as int].kind is Marker,
            r matches Some((b, c)) ==> {
                &&& self@[i as int].kind->Marker_0.bundle == b
                &&& self@[i as int].kind->Marker_0.camera == c
                &&& b < self@.len() && self@[b as int].kind is Bundle
                &&& c < self@.len() && self@[c as int].kind is Camera
            },
    {
        proof {
            use_type_invariant(self);
            assert(local_error(self@, i as int) is None);
        }
        match self.nodes[i].kind {
            NodeKind::Marker(m) => Some((m.bundle, m.camera)),
            _ => None,
        }
    }

    pub fn node(&self, i: NodeIndex) -> (r: Node<R>)
        requires
            i < self@.len(),
        ensures
            r == self@[i as int],
    {
        self.nodes[i]
    }
}

fn node_error<R: Copy>(nodes: &Vec<Node<R>>, i: usize) -> (r: Option<GraphError>)
    requires
        i < nodes@.len(),
    ensures
        r == local_error(nodes@, i as int),
{
    let len = nodes.len();
    if let Some(p) = nodes[i].parent {
        if p >= len || matches!(nodes[p].kind, NodeKind::Marker(_)) {
            return Some(GraphError::InvalidParent { node: i });
        }
    }
    if let NodeKind::Marker(m) = nodes[i].kind {
        if m.bundle >= len || !matches!(nodes[m.bundle].kind, NodeKind::Bundle(_)) {
            return Some(GraphError::DanglingBundle { marker: i });
        }
        if m.camera >= len || !matches!(nodes[m.camera].kind, NodeKind::Camera(_, _)) {
            return Some(GraphError::DanglingCamera { marker: i });
        }
    }
    None
}

/// Walks the parents of node `i` for at most as many steps as there are
/// nodes, and tells whether a root was reached.
fn reaches_root<R: Copy>(nodes: &Vec<Node<R>>, i: usize) -> (r: bool)
    requires
        i < nodes@.len(),
        forall|q: int| 0 <= q < nodes@.len() ==> (#[trigger] local_error(nodes@, q)) is None,
    ensures
        r == roots_within(nodes@, i as int, nodes@.len()),
{
    let n = nodes.len();
    let mut cur: usize = i;
    let mut steps: usize = n;
    loop
        invariant
            n == nodes@.len(),
            cur < n,
            steps <= n,
            forall|q: int| 0 <= q < nodes@.len() ==> (#[trigger] local_error(nodes@, q)) is None,
            roots_within(nodes@, i as int, n as nat) == roots_within(nodes@, cur as int, steps as nat),
        decreases steps,
    {
        assert(local_error(nodes@, cur as int) is None);
        match nodes[cur].parent {
            None => {
                return true;
            },
            Some(p) => {
                if steps == 0 {
                    return false;
                }
                cur = p;
                steps -= 1;
            },
        }
    }
}

} // verus!
