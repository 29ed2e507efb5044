//! Small integer vector types used throughout the engine.
//!
//! `Vec2` identifies a chunk column in the horizontal grid; `Vec3` is a
//! world-space voxel position. All arithmetic is exact: callers prove
//! that results stay inside `i32`.

use vstd::prelude::*;

verus! {

/// A pair of integers; the key of the chunk table.
#[derive(Clone, Copy, Debug, PartialEq, Eq, Hash, Structural)]
pub struct Vec2(pub i32, pub i32);

/// A triple of integers; a world-space voxel position.
#[derive(Clone, Copy, Debug, PartialEq, Eq, Hash, Structural)]
pub struct Vec3(pub i32, pub i32, pub i32);

impl Vec3 {
    /// Component-wise sum of `self` and `other`.
    pub fn add(&self, other: &Self) -> (r: Self)
        requires
            i32::MIN <= self.0 + other.0 <= i32::MAX,
            i32::MIN <= self.1 + other.1 <= i32::MAX,
            i32::MIN <= self.2 + other.2 <= i32::MAX,
        ensures
            r.0 == self.0 + other.0,
            r.1 == self.1 + other.1,
            r.2 == self.2 + other.2,
    {
        Vec3(self.0 + other.0, self.1 + other.1, self.2 + other.2)
    }

    /// Component-wise difference of `self` and `other`.
    pub fn sub(&self, other: &Self) -> (r: Self)
        requires
            i32::MIN <= self.0 - other.0 <= i32::MAX,
            i32::MIN <= self.1 - other.1 <= i32::MAX,
            i32::MIN <= self.2 - other.2 <= i32::MAX,
        ensures
            r.0 == self.0 - other.0,
            r.1 == self.1 - other.1,
            r.2 == self.2 - other.2,
    {
        Vec3(self.0 - other.0, self.1 - other.1, self.2 - other.2)
    }

    /// Overwrite `self` with the components of `other`.
    pub fn copy(&mut self, other: &Self)
        ensures
            *final(self) == *other,
    {
        self.0 = other.0;
        self.1 = other.1;
        self.2 = other.2;
    }

    /// Overwrite the components of `self`.
    pub fn set(&mut self, x: i32, y: i32, z: i32)
        ensures
            *final(self) == Vec3(x, y, z),
    {
        self.0 = x;
        self.1 = y;
        self.2 = z;
    }

    /// Scale every component of `self` by `scale`.
    pub fn scale(&self, scale: i32) -> (r: Self)
        requires
            i32::MIN <= self.0 * scale <= i32::MAX,
            i32::MIN <= self.1 * scale <= i32::MAX,
            i32::MIN <= self.2 * scale <= i32::MAX,
        ensures
            r.0 == self.0 * scale,
            r.1 == self.1 * scale,
            r.2 == self.2 * scale,
    {
        Vec3(self.0 * scale, self.1 * scale, self.2 * scale)
    }

    /// Add `other`, scaled by `scale`, to `self`.
    pub fn scale_and_add(&self, other: &Self, scale: i32) -> (r: Self)
        requires
            i32::MIN <= other.0 * scale <= i32::MAX,
            i32::MIN <= other.1 * scale <= i32::MAX,
            i32::MIN <= other.2 * scale <= i32::MAX,
            i32::MIN <= self.0 + other.0 * scale <= i32::MAX,
            i32::MIN <= self.1 + other.1 * scale <= i32::MAX,
            i32::MIN <= self.2 + other.2 * scale <= i32::MAX,
        ensures
            r.0 == self.0 + other.0 * scale,
            r.1 == self.1 + other.1 * scale,
            r.2 == self.2 + other.2 * scale,
    {
        Vec3(
            self.0 + other.0 * scale,
            self.1 + other.1 * scale,
            self.2 + other.2 * scale,
        )
    }

    /// Build a `Vec3` from a 3-element array.
    pub fn from_arr(arr: [i32; 3]) -> (r: Self)
        ensures
            r.0 == arr[0],
            r.1 == arr[1],
            r.2 == arr[2],
    {
        Vec3(arr[0], arr[1], arr[2])
    }

    /// Build a `Vec3` from the first three elements of a vector.
    pub fn from_vec(v: &Vec<i32>) -> (r: Self)
        requires
            v@.len() >= 3,
        ensures
            r.0 == v@[0],
            r.1 == v@[1],
            r.2 == v@[2],
    {
        Vec3(v[0], v[1], v[2])
    }

    /// The component at `index`, with the x/y/z axes numbered 0/1/2.
    pub fn at(&self, index: usize) -> (r: i32)
        requires
            index < 3,
        ensures
            index == 0 ==> r == self.0,
            index == 1 ==> r == self.1,
            index == 2 ==> r == self.2,
    {
        if index == 0 {
            self.0
        } else if index == 1 {
            self.1
        } else {
            self.2
        }
    }
}

} // verus!
