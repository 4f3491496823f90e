use vstd::prelude::*;
use crate::attr::{AttrDataBlock, FrameValue};
use crate::flat::FlatScene;
use crate::scalar::Scalar;

verus! {

/// The public face of a `FlatScene`: evaluation and read access to its
/// output buffers.
pub struct ShimFlatScene<R> {
    inner: FlatScene<R>,
}

impl<R: Scalar> ShimFlatScene<R> {
    pub closed spec fn view(&self) -> FlatScene<R> {
        self.inner
    }

    pub fn new(core_flat_scene: FlatScene<R>) -> (r: Self)
        ensures
            r@ == core_flat_scene,
    {
        ShimFlatScene { inner: core_flat_scene }
    }

    pub fn get_inner(&self) -> (r: &FlatScene<R>)
        ensures
            *r == self@,
    {
        &self.inner
    }

    /// Projected x, projected y and weight of each marker entry.
    pub fn markers(&self) -> (r: &[R])
        ensures
            r@ == self@.markers_view(),
    {
        self.inner.markers()
    }

    /// World x, y, z of each point entry.
    pub fn points(&self) -> (r: &[R])
        ensures
            r@ == self@.points_view(),
    {
        self.inner.points()
    }

    /// Deviation of each marker entry.
    pub fn deviations(&self) -> (r: &[R])
        ensures
            r@ == self@.deviations_view(),
    {
        self.inner.deviations()
    }

    pub fn num_markers(&self) -> (r: usize)
        ensures
            r == self@.markers_view().len() / 3,
    {
        self.inner.num_markers()
    }

    pub fn num_points(&self) -> (r: usize)
        ensures
            r == self@.points_view().len() / 3,
    {
        self.inner.num_points()
    }

    pub fn num_deviations(&self) -> (r: usize)
        ensures
            r == self@.deviations_view().len(),
    {
        self.inner.num_deviations()
    }

    /// Evaluates the scene at every frame of `frame_list` against
    /// `attrdb`, replacing the output buffers.
    pub fn evaluate(&mut self, attrdb: &AttrDataBlock<R>, frame_list: &[FrameValue])
        ensures
            final(self)@.wf(),
            final(self)@.nodes() == old(self)@.nodes(),
            final(self)@.bundle_nodes() == old(self)@.bundle_nodes(),
            final(self)@.marker_nodes() == old(self)@.marker_nodes(),
            final(self)@.sentinel() == old(self)@.sentinel(),
            final(self)@.evaluated(*attrdb, frame_list@),
    {
        self.inner.evaluate(attrdb, frame_list)
    }
}

} // verus!
