use vstd::prelude::*;

pub mod attr;
pub mod flat;
pub mod graph;
pub mod laws;
pub mod project;
pub mod scalar;
pub mod shim;
pub mod transform;
pub mod world;

verus! {

pub use attr::{Attr, AttrDataBlock, AttrError, AttrId, FrameValue, TICKS_PER_FRAME};
pub use flat::{EntryStatus, FlatScene};
pub use graph::{
    CameraAttrs, GraphError, Lens, MarkerAttrs, Node, NodeGraph, NodeIndex, NodeKind, RotateOrder,
    TransformAttrs,
};
pub use scalar::Scalar;
pub use shim::ShimFlatScene;

} // verus!
