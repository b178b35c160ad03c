//! Plain vectors and square matrices over any scalar, and their layout as
//! shader uniforms. Nothing here computes with the scalars: entries are only
//! moved.

use vstd::prelude::*;

verus! {

/// A vector of three scalars.
#[derive(Clone, Copy, Debug)]
pub struct Vector3<S> {
    pub x: S,
    pub y: S,
    pub z: S,
}

impl<S: Copy> Vector3<S> {
    pub fn new(x: S, y: S, z: S) -> (r: Self)
        ensures
            r.x == x,
            r.y == y,
            r.z == z,
    {
        Vector3 { x, y, z }
    }

    /// The vector whose three entries are `value`.
    pub fn splat(value: S) -> (r: Self)
        ensures
            r.x == value,
            r.y == value,
            r.z == value,
    {
        Vector3 { x: value, y: value, z: value }
    }
}

/// A 3 by 3 matrix, kept row by row.
#[derive(Clone, Copy, Debug)]
pub struct Matrix3<S> {
    pub rows: [[S; 3]; 3],
}

/// A 4 by 4 matrix, kept row by row.
#[derive(Clone, Copy, Debug)]
pub struct Matrix4<S> {
    pub rows: [[S; 4]; 4],
}

impl<S: Copy> Matrix3<S> {
    /// The entry in row `r`, column `c`.
    pub open spec fn at(self, r: int, c: int) -> S {
        self.rows@[r]@[c]
    }

    /// The entry in row `r`, column `c`.
    pub fn get(&self, r: usize, c: usize) -> (e: S)
        requires
            r < 3,
            c < 3,
        ensures
            e == self.at(r as int, c as int),
    {
        self.rows[r][c]
    }
}

impl<S: Copy> Matrix4<S> {
    /// The entry in row `r`, column `c`.
    pub open spec fn at(self, r: int, c: int) -> S {
        self.rows@[r]@[c]
    }

    /// The entry in row `r`, column `c`.
    pub fn get(&self, r: usize, c: usize) -> (e: S)
        requires
            r < 4,
            c < 4,
        ensures
            e == self.at(r as int, c as int),
    {
        self.rows[r][c]
    }
}

/// The upper left 3 by 3 block of `m`, transposed: entry (r, c) of the result
/// is entry (c, r) of `m`.
pub fn matrix3_from_matrix4<T: Copy>(m: &Matrix4<T>) -> (r: Matrix3<T>)
    ensures
        forall|i: int, j: int| 0 <= i < 3 && 0 <= j < 3 ==> r.at(i, j) == m.at(j, i),
{
    Matrix3 {
        rows: [
            [m.get(0, 0), m.get(1, 0), m.get(2, 0)],
            [m.get(0, 1), m.get(1, 1), m.get(2, 1)],
            [m.get(0, 2), m.get(1, 2), m.get(2, 2)],
        ],
    }
}

/// A value that can be handed to a shader as a uniform of type `T`.
pub trait AsUniform<T> {
    /// Whether `uniform` is this value in the layout that a shader reads.
    spec fn lays_out(&self, uniform: T) -> bool;

    /// This value in the layout that a shader reads.
    fn as_uniform(&self) -> (r: T)
        ensures
            self.lays_out(r),
    ;
}

/// A matrix is handed over column by column: entry `j` of array `i` is the
/// entry in row `j`, column `i`.
impl<S: Copy> AsUniform<[[S; 3]; 3]> for Matrix3<S> {
    open spec fn lays_out(&self, uniform: [[S; 3]; 3]) -> bool {
        forall|i: int, j: int| 0 <= i < 3 && 0 <= j < 3 ==> uniform@[i]@[j] == self.at(j, i)
    }

    fn as_uniform(&self) -> (r: [[S; 3]; 3]) {
        [
            [self.get(0, 0), self.get(1, 0), self.get(2, 0)],
            [self.get(0, 1), self.get(1, 1), self.get(2, 1)],
            [self.get(0, 2), self.get(1, 2), self.get(2, 2)],
        ]
    }
}

/// A matrix is handed over column by column: entry `j` of array `i` is the
/// entry in row `j`, column `i`.
impl<S: Copy> AsUniform<[[S; 4]; 4]> for Matrix4<S> {
    open spec fn lays_out(&self, uniform: [[S; 4]; 4]) -> bool {
        forall|i: int, j: int| 0 <= i < 4 && 0 <= j < 4 ==> uniform@[i]@[j] == self.at(j, i)
    }

    fn as_uniform(&self) -> (r: [[S; 4]; 4]) {
        [
            [self.get(0, 0), self.get(1, 0), self.get(2, 0), self.get(3, 0)],
            [self.get(0, 1), self.get(1, 1), self.get(2, 1), self.get(3, 1)],
            [self.get(0, 2), self.get(1, 2), self.get(2, 2), self.get(3, 2)],
            [self.get(0, 3), self.get(1, 3), self.get(2, 3), self.get(3, 3)],
        ]
    }
}

/// A vector is handed over as its three entries in order.
impl<S: Copy> AsUniform<[S; 3]> for Vector3<S> {
    open spec fn lays_out(&self, uniform: [S; 3]) -> bool {
        uniform@[0] == self.x && uniform@[1] == self.y && uniform@[2] == self.z
    }

    fn as_uniform(&self) -> (r: [S; 3]) {
        [self.x, self.y, self.z]
    }
}

} // verus!
