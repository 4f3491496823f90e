use vstd::prelude::*;
use crate::scalar::Scalar;
use crate::transform::{apply, apply_spec, inverse, inverse_spec, Affine, Vec3};

verus! {

/// Camera intrinsics at one frame. Focal length and film back share one
/// unit; `radial` holds the coefficients `(k1, k2)` of a radial lens.
#[derive(Clone, Copy, Debug)]
pub struct Intrinsics<R> {
    pub focal_length: R,
    pub film_back_width: R,
    pub film_back_height: R,
    pub radial: Option<(R, R)>,
}

/// A point projected onto a camera's image plane, in units of the film
/// back (the frame spans -0.5 to 0.5 on each axis).
#[derive(Clone, Copy, Debug)]
pub struct Projection<R> {
    pub x: R,
    pub y: R,
    /// Whether the point lies in front of the camera (positive depth
    /// along the camera's viewing direction, -Z).
    pub in_front: bool,
}

/// The world-space point `p` seen through a camera placed by
/// `camera_world`: `p` in camera space, its depth `-z`, the perspective
/// division by that depth scaled by focal length over film back, then the
/// radial lens factor if any. Nothing is clamped.
pub open spec fn project_spec<R: Scalar>(camera_world: Affine<R>, cam: Intrinsics<R>, p: Vec3<R>) -> Projection<R> {
    let local = apply_spec(inverse_spec(camera_world), p);
    let depth = local.z.spec_neg();
    let in_front = depth.spec_is_positive();
    let x = cam.focal_length.spec_mul(local.x).spec_div(depth).spec_div(cam.film_back_width);
    let y = cam.focal_length.spec_mul(local.y).spec_div(depth).spec_div(cam.film_back_height);
    match cam.radial {
        None => Projection { x, y, in_front },
        Some((k1, k2)) => {
            let r2 = x.spec_mul(x).spec_add(y.spec_mul(y));
            let factor = R::spec_one().spec_add(k1.spec_mul(r2)).spec_add(k2.spec_mul(r2).spec_mul(r2));
            Projection { x: x.spec_mul(factor), y: y.spec_mul(factor), in_front }
        },
    }
}

/// `weight * sqrt((px - ox)^2 + (py - oy)^2)`.
pub open spec fn deviation_spec<R: Scalar>(px: R, py: R, ox: R, oy: R, weight: R) -> R {
    let dx = px.spec_sub(ox);
    let dy = py.spec_sub(oy);
    weight.spec_mul(dx.spec_mul(dx).spec_add(dy.spec_mul(dy)).spec_sqrt())
}

/// Projects the world-space point `p` through a camera placed by
/// `camera_world`.
pub fn project<R: Scalar>(camera_world: &Affine<R>, cam: &Intrinsics<R>, p: &Vec3<R>) -> (r: Projection<R>)
    ensures
        r == project_spec(*camera_world, *cam, *p),
{
    let local = apply(&inverse(camera_world), p);
    let depth = local.z.neg();
    let in_front = depth.is_positive();
    let x = cam.focal_length.mul(&local.x).div(&depth).div(&cam.film_back_width);
    let y = cam.focal_length.mul(&local.y).div(&depth).div(&cam.film_back_height);
    match cam.radial {
        None => Projection { x, y, in_front },
        Some((k1, k2)) => {
            let r2 = x.mul(&x).add(&y.mul(&y));
            let factor = R::one().add(&k1.mul(&r2)).add(&k2.mul(&r2).mul(&r2));
            Projection { x: x.mul(&factor), y: y.mul(&factor), in_front }
        },
    }
}

/// The weighted Euclidean distance between the projected point
/// `(px, py)` and the observed point `(ox, oy)`.
pub fn deviation<R: Scalar>(px: &R, py: &R, ox: &R, oy: &R, weight: &R) -> (r: R)
    ensures
        r == deviation_spec(*px, *py, *ox, *oy, *weight),
{
    let dx = px.sub(ox);
    let dy = py.sub(oy);
    weight.mul(&dx.mul(&dx).add(&dy.mul(&dy)).sqrt())
}

} // verus!
