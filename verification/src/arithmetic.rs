//! The arithmetic that a world computes with.
//!
//! The library stores scalars, vectors, rotations and matrices, and decides
//! which of them are combined, when, and in what order. How two of them are
//! combined is the business of an [`Arithmetic`], which the caller brings: in
//! practice, floating-point numbers and a linear algebra library.
//!
//! Nothing is assumed of an arithmetic. Where a contract of this library says
//! that a value is, for example, the sum of two others, it says so relative to
//! the arithmetic at hand: the value is one that its `plus` returned for the
//! two.

use vstd::prelude::*;
use crate::linear::{Matrix4, Vector3};
use crate::time::Millis;

verus! {

/// The operations on scalars `S` and rotations `Q`, and on the vectors and
/// matrices over `S`, that the systems and the render pass are built from.
pub trait Arithmetic<S, Q> {
    /// A span of time in seconds.
    fn seconds(&self, span: Millis) -> S;

    /// The share of `whole` that `part` makes up: `part / whole`.
    fn ratio(&self, part: Millis, whole: Millis) -> S;

    /// The sine of the angle that is `turns` full turns.
    fn wave(&self, turns: S) -> S;

    /// The product of two scalars.
    fn times(&self, a: S, b: S) -> S;

    /// Whether a scalar is zero.
    fn is_zero(&self, x: S) -> bool;

    /// The sum of two vectors.
    fn plus(&self, a: Vector3<S>, b: Vector3<S>) -> Vector3<S>;

    /// A vector times a scalar.
    fn scaled(&self, v: Vector3<S>, by: S) -> Vector3<S>;

    /// The angle of a rotation.
    fn angle(&self, rotation: Q) -> S;

    /// The axis of a rotation, as a vector of length one; a rotation that
    /// turns nothing has none.
    fn axis(&self, rotation: Q) -> Option<Vector3<S>>;

    /// The rotation by `angle` about `axis`.
    fn axis_angle(&self, axis: Vector3<S>, angle: S) -> Q;

    /// The rotation that turns by `second` in the frame that `first` has
    /// turned to: the product of `first` and `second`, in this order.
    fn compose(&self, first: Q, second: Q) -> Q;

    /// A rotation as a 4 by 4 matrix.
    fn rotation_matrix(&self, rotation: Q) -> Matrix4<S>;

    /// The product of two matrices.
    fn product(&self, a: Matrix4<S>, b: Matrix4<S>) -> Matrix4<S>;

    /// The transform of normals that goes with the transform `model` of
    /// points. The inverse transpose of `model` is right under any scale;
    /// `model` itself will do only as long as every scale is uniform.
    fn normal_matrix(&self, model: Matrix4<S>) -> Matrix4<S>;

    /// The view from `eye` towards `target`, with the second axis up.
    fn look_at(&self, eye: Vector3<S>, target: Vector3<S>) -> Matrix4<S>;

    /// The perspective projection onto a surface of this width and height.
    fn perspective(&self, width: u32, height: u32) -> Matrix4<S>;
}

/// The rotation by `angle` about `axis`.
pub fn quat_rotate<S, Q, A: Arithmetic<S, Q>>(ops: &A, angle: S, axis: Vector3<S>) -> (r: Q)
    ensures
        call_ensures(A::axis_angle, (ops, axis, angle), r),
{
    ops.axis_angle(axis, angle)
}

} // verus!
