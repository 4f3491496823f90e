use vstd::prelude::*;
use crate::graph::RotateOrder;
use crate::scalar::Scalar;

verus! {

#[derive(Clone, Copy, Debug)]
pub struct Vec3<R> {
    pub x: R,
    pub y: R,
    pub z: R,
}

/// A 3x3 matrix by rows.
#[derive(Clone, Copy, Debug)]
pub struct Mat3<R> {
    pub r0: Vec3<R>,
    pub r1: Vec3<R>,
    pub r2: Vec3<R>,
}

/// An affine transform: `p -> linear * p + translation`.
#[derive(Clone, Copy, Debug)]
pub struct Affine<R> {
    pub linear: Mat3<R>,
    pub translation: Vec3<R>,
}

pub open spec fn add3_spec<R: Scalar>(a: Vec3<R>, b: Vec3<R>) -> Vec3<R> {
    Vec3 { x: a.x.spec_add(b.x), y: a.y.spec_add(b.y), z: a.z.spec_add(b.z) }
}

pub open spec fn scale3_spec<R: Scalar>(a: Vec3<R>, s: R) -> Vec3<R> {
    Vec3 { x: a.x.spec_mul(s), y: a.y.spec_mul(s), z: a.z.spec_mul(s) }
}

pub open spec fn dot_spec<R: Scalar>(a: Vec3<R>, b: Vec3<R>) -> R {
    a.x.spec_mul(b.x).spec_add(a.y.spec_mul(b.y)).spec_add(a.z.spec_mul(b.z))
}

pub open spec fn cross_spec<R: Scalar>(a: Vec3<R>, b: Vec3<R>) -> Vec3<R> {
    Vec3 {
        x: a.y.spec_mul(b.z).spec_sub(a.z.spec_mul(b.y)),
        y: a.z.spec_mul(b.x).spec_sub(a.x.spec_mul(b.z)),
        z: a.x.spec_mul(b.y).spec_sub(a.y.spec_mul(b.x)),
    }
}

pub open spec fn mat_vec_spec<R: Scalar>(m: Mat3<R>, v: Vec3<R>) -> Vec3<R> {
    Vec3 { x: dot_spec(m.r0, v), y: dot_spec(m.r1, v), z: dot_spec(m.r2, v) }
}

pub open spec fn row_times_spec<R: Scalar>(row: Vec3<R>, b: Mat3<R>) -> Vec3<R> {
    add3_spec(add3_spec(scale3_spec(b.r0, row.x), scale3_spec(b.r1, row.y)), scale3_spec(b.r2, row.z))
}

/// The matrix product `a * b`.
pub open spec fn mat_mul_spec<R: Scalar>(a: Mat3<R>, b: Mat3<R>) -> Mat3<R> {
    Mat3 { r0: row_times_spec(a.r0, b), r1: row_times_spec(a.r1, b), r2: row_times_spec(a.r2, b) }
}

pub open spec fn identity_spec<R: Scalar>() -> Affine<R> {
    let o = R::spec_one();
    let z = R::spec_zero();
    Affine {
        linear: Mat3 {
            r0: Vec3 { x: o, y: z, z: z },
            r1: Vec3 { x: z, y: o, z: z },
            r2: Vec3 { x: z, y: z, z: o },
        },
        translation: Vec3 { x: z, y: z, z: z },
    }
}

/// The image of point `p` under `a`: `linear * p + translation`.
pub open spec fn apply_spec<R: Scalar>(a: Affine<R>, p: Vec3<R>) -> Vec3<R> {
    add3_spec(mat_vec_spec(a.linear, p), a.translation)
}

/// The transform that applies `b` first, then `a`.
pub open spec fn compose_spec<R: Scalar>(a: Affine<R>, b: Affine<R>) -> Affine<R> {
    Affine { linear: mat_mul_spec(a.linear, b.linear), translation: apply_spec(a, b.translation) }
}

/// The inverse of `a`: the adjugate of the linear part divided by its
/// determinant, and the translation mapped back.
pub open spec fn inverse_spec<R: Scalar>(a: Affine<R>) -> Affine<R> {
    let m = a.linear;
    let c0 = cross_spec(m.r1, m.r2);
    let c1 = cross_spec(m.r2, m.r0);
    let c2 = cross_spec(m.r0, m.r1);
    let inv_det = R::spec_one().spec_div(dot_spec(m.r0, c0));
    let linear = Mat3 {
        r0: scale3_spec(Vec3 { x: c0.x, y: c1.x, z: c2.x }, inv_det),
        r1: scale3_spec(Vec3 { x: c0.y, y: c1.y, z: c2.y }, inv_det),
        r2: scale3_spec(Vec3 { x: c0.z, y: c1.z, z: c2.z }, inv_det),
    };
    let t = mat_vec_spec(linear, a.translation);
    Affine { linear, translation: Vec3 { x: t.x.spec_neg(), y: t.y.spec_neg(), z: t.z.spec_neg() } }
}

pub open spec fn rotate_x_spec<R: Scalar>(deg: R) -> Mat3<R> {
    let (s, c) = (deg.spec_sin_degrees(), deg.spec_cos_degrees());
    let (o, z) = (R::spec_one(), R::spec_zero());
    Mat3 { r0: Vec3 { x: o, y: z, z: z }, r1: Vec3 { x: z, y: c, z: s.spec_neg() }, r2: Vec3 { x: z, y: s, z: c } }
}

pub open spec fn rotate_y_spec<R: Scalar>(deg: R) -> Mat3<R> {
    let (s, c) = (deg.spec_sin_degrees(), deg.spec_cos_degrees());
    let (o, z) = (R::spec_one(), R::spec_zero());
    Mat3 { r0: Vec3 { x: c, y: z, z: s }, r1: Vec3 { x: z, y: o, z: z }, r2: Vec3 { x: s.spec_neg(), y: z, z: c } }
}

pub open spec fn rotate_z_spec<R: Scalar>(deg: R) -> Mat3<R> {
    let (s, c) = (deg.spec_sin_degrees(), deg.spec_cos_degrees());
    let (o, z) = (R::spec_one(), R::spec_zero());
    Mat3 { r0: Vec3 { x: c, y: s.spec_neg(), z: z }, r1: Vec3 { x: s, y: c, z: z }, r2: Vec3 { x: z, y: z, z: o } }
}

/// The rotation by angles `r` (degrees), the first axis of `order`
/// applied first.
pub open spec fn rotation_spec<R: Scalar>(r: Vec3<R>, order: RotateOrder) -> Mat3<R> {
    let x = rotate_x_spec(r.x);
    let y = rotate_y_spec(r.y);
    let z = rotate_z_spec(r.z);
    match order {
        RotateOrder::XYZ => mat_mul_spec(z, mat_mul_spec(y, x)),
        RotateOrder::YZX => mat_mul_spec(x, mat_mul_spec(z, y)),
        RotateOrder::ZXY => mat_mul_spec(y, mat_mul_spec(x, z)),
        RotateOrder::XZY => mat_mul_spec(y, mat_mul_spec(z, x)),
        RotateOrder::YXZ => mat_mul_spec(z, mat_mul_spec(x, y)),
        RotateOrder::ZYX => mat_mul_spec(x, mat_mul_spec(y, z)),
    }
}

/// The local transform `translate * rotate * scale`.
pub open spec fn local_transform_spec<R: Scalar>(t: Vec3<R>, r: Vec3<R>, s: Vec3<R>, order: RotateOrder) -> Affine<R> {
    let z = R::spec_zero();
    let scale = Mat3 {
        r0: Vec3 { x: s.x, y: z, z: z },
        r1: Vec3 { x: z, y: s.y, z: z },
        r2: Vec3 { x: z, y: z, z: s.z },
    };
    Affine { linear: mat_mul_spec(rotation_spec(r, order), scale), translation: t }
}

pub fn vec3<R: Scalar>(x: R, y: R, z: R) -> (r: Vec3<R>)
    ensures
        r == (Vec3 { x, y, z }),
{
    Vec3 { x, y, z }
}

pub fn add3<R: Scalar>(a: &Vec3<R>, b: &Vec3<R>) -> (r: Vec3<R>)
    ensures
        r == add3_spec(*a, *b),
{
    vec3(a.x.add(&b.x), a.y.add(&b.y), a.z.add(&b.z))
}

pub fn scale3<R: Scalar>(a: &Vec3<R>, s: &R) -> (r: Vec3<R>)
    ensures
        r == scale3_spec(*a, *s),
{
    vec3(a.x.mul(s), a.y.mul(s), a.z.mul(s))
}

pub fn dot<R: Scalar>(a: &Vec3<R>, b: &Vec3<R>) -> (r: R)
    ensures
        r == dot_spec(*a, *b),
{
    a.x.mul(&b.x).add(&a.y.mul(&b.y)).add(&a.z.mul(&b.z))
}

pub fn cross<R: Scalar>(a: &Vec3<R>, b: &Vec3<R>) -> (r: Vec3<R>)
    ensures
        r == cross_spec(*a, *b),
{
    vec3(
        a.y.mul(&b.z).sub(&a.z.mul(&b.y)),
        a.z.mul(&b.x).sub(&a.x.mul(&b.z)),
        a.x.mul(&b.y).sub(&a.y.mul(&b.x)),
    )
}

pub fn mat_vec<R: Scalar>(m: &Mat3<R>, v: &Vec3<R>) -> (r: Vec3<R>)
    ensures
        r == mat_vec_spec(*m, *v),
{
    vec3(dot(&m.r0, v), dot(&m.r1, v), dot(&m.r2, v))
}

pub fn mat_mul<R: Scalar>(a: &Mat3<R>, b: &Mat3<R>) -> (r: Mat3<R>)
    ensures
        r == mat_mul_spec(*a, *b),
{
    Mat3 { r0: row_times(&a.r0, b), r1: row_times(&a.r1, b), r2: row_times(&a.r2, b) }
}

fn row_times<R: Scalar>(row: &Vec3<R>, b: &Mat3<R>) -> (r: Vec3<R>)
    ensures
        r == row_times_spec(*row, *b),
{
    add3(&add3(&scale3(&b.r0, &row.x), &scale3(&b.r1, &row.y)), &scale3(&b.r2, &row.z))
}

pub fn identity<R: Scalar>() -> (r: Affine<R>)
    ensures
        r == identity_spec::<R>(),
{
    let o = R::one();
    let z = R::zero();
    Affine {
        linear: Mat3 { r0: vec3(o, z, z), r1: vec3(z, o, z), r2: vec3(z, z, o) },
        translation: vec3(z, z, z),
    }
}

pub fn apply<R: Scalar>(a: &Affine<R>, p: &Vec3<R>) -> (r: Vec3<R>)
    ensures
        r == apply_spec(*a, *p),
{
    add3(&mat_vec(&a.linear, p), &a.translation)
}

pub fn compose<R: Scalar>(a: &Affine<R>, b: &Affine<R>) -> (r: Affine<R>)
    ensures
        r == compose_spec(*a, *b),
{
    Affine { linear: mat_mul(&a.linear, &b.linear), translation: apply(a, &b.translation) }
}

pub fn inverse<R: Scalar>(a: &Affine<R>) -> (r: Affine<R>)
    ensures
        r == inverse_spec(*a),
{
    let m = &a.linear;
    let c0 = cross(&m.r1, &m.r2);
    let c1 = cross(&m.r2, &m.r0);
    let c2 = cross(&m.r0, &m.r1);
    let det = dot(&m.r0, &c0);
    let inv_det = R::one().div(&det);
    let linear = Mat3 {
        r0: scale3(&vec3(c0.x, c1.x, c2.x), &inv_det),
        r1: scale3(&vec3(c0.y, c1.y, c2.y), &inv_det),
        r2: scale3(&vec3(c0.z, c1.z, c2.z), &inv_det),
    };
    let t = mat_vec(&linear, &a.translation);
    Affine { linear, translation: vec3(t.x.neg(), t.y.neg(), t.z.neg()) }
}

fn rotate_x<R: Scalar>(deg: &R) -> (r: Mat3<R>)
    ensures
        r == rotate_x_spec(*deg),
{
    let (s, c) = deg.sin_cos_degrees();
    let o = R::one();
    let z = R::zero();
    Mat3 { r0: vec3(o, z, z), r1: vec3(z, c, s.neg()), r2: vec3(z, s, c) }
}

fn rotate_y<R: Scalar>(deg: &R) -> (r: Mat3<R>)
    ensures
        r == rotate_y_spec(*deg),
{
    let (s, c) = deg.sin_cos_degrees();
    let o = R::one();
    let z = R::zero();
    Mat3 { r0: vec3(c, z, s), r1: vec3(z, o, z), r2: vec3(s.neg(), z, c) }
}

fn rotate_z<R: Scalar>(deg: &R) -> (r: Mat3<R>)
    ensures
        r == rotate_z_spec(*deg),
{
    let (s, c) = deg.sin_cos_degrees();
    let o = R::one();
    let z = R::zero();
    Mat3 { r0: vec3(c, s.neg(), z), r1: vec3(s, c, z), r2: vec3(z, z, o) }
}

/// The rotation by angles `r` (degrees), the first axis of `order`
/// applied first.
pub fn rotation<R: Scalar>(r: &Vec3<R>, order: RotateOrder) -> (m: Mat3<R>)
    ensures
        m == rotation_spec(*r, order),
{
    let x = rotate_x(&r.x);
    let y = rotate_y(&r.y);
    let z = rotate_z(&r.z);
    match order {
        RotateOrder::XYZ => mat_mul(&z, &mat_mul(&y, &x)),
        RotateOrder::YZX => mat_mul(&x, &mat_mul(&z, &y)),
        RotateOrder::ZXY => mat_mul(&y, &mat_mul(&x, &z)),
        RotateOrder::XZY => mat_mul(&y, &mat_mul(&z, &x)),
        RotateOrder::YXZ => mat_mul(&z, &mat_mul(&x, &y)),
        RotateOrder::ZYX => mat_mul(&x, &mat_mul(&y, &z)),
    }
}

/// The local transform `translate * rotate * scale`.
pub fn local_transform<R: Scalar>(
    t: &Vec3<R>,
    r: &Vec3<R>,
    s: &Vec3<R>,
    order: RotateOrder,
) -> (a: Affine<R>)
    ensures
        a == local_transform_spec(*t, *r, *s, order),
{
    let rot = rotation(r, order);
    let scale = Mat3 {
        r0: vec3(s.x, R::zero(), R::zero()),
        r1: vec3(R::zero(), s.y, R::zero()),
        r2: vec3(R::zero(), R::zero(), s.z),
    };
    Affine { linear: mat_mul(&rot, &scale), translation: *t }
}

} // verus!
