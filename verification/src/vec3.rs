//! A vector of three binary64 numbers.

use vstd::prelude::*;
use crate::binary64::{equal, negate, negation, same_number};

verus! {

/// Three binary64 numbers, each held as its encoding. It serves as a
/// direction, as a point in space and as a colour of three channels.
#[derive(Copy, Clone, Debug)]
pub struct Vec3 {
    /// The encodings of the first, the second and the third component.
    pub e: [u64; 3],
}

/// A vector read as a point in space.
pub type Point3 = Vec3;

impl Vec3 {
    /// The vector of the three components.
    pub open spec fn spec_new(x: u64, y: u64, z: u64) -> Vec3 {
        Vec3 { e: [x, y, z] }
    }

    /// The first component.
    pub open spec fn spec_x(&self) -> u64 {
        self.e[0]
    }

    /// The second component.
    pub open spec fn spec_y(&self) -> u64 {
        self.e[1]
    }

    /// The third component.
    pub open spec fn spec_z(&self) -> u64 {
        self.e[2]
    }

    /// The vector of the three components, which are kept as they are.
    #[verifier::when_used_as_spec(spec_new)]
    pub fn new(x: u64, y: u64, z: u64) -> (v: Vec3)
        ensures
            v == Vec3::spec_new(x, y, z),
    {
        Vec3 { e: [x, y, z] }
    }

    /// The first component.
    #[verifier::when_used_as_spec(spec_x)]
    pub fn x(&self) -> (x: u64)
        ensures
            x == self.spec_x(),
    {
        self.e[0]
    }

    /// The second component.
    #[verifier::when_used_as_spec(spec_y)]
    pub fn y(&self) -> (y: u64)
        ensures
            y == self.spec_y(),
    {
        self.e[1]
    }

    /// The third component.
    #[verifier::when_used_as_spec(spec_z)]
    pub fn z(&self) -> (z: u64)
        ensures
            z == self.spec_z(),
    {
        self.e[2]
    }

    /// Making a vector of three components and reading them back gives
    /// each of them, in its place and bit for bit.
    pub proof fn lemma_components_read_back(x: u64, y: u64, z: u64)
        ensures
            Vec3::new(x, y, z).x() == x,
            Vec3::new(x, y, z).y() == y,
            Vec3::new(x, y, z).z() == z,
    {
    }
}

impl Default for Vec3 {
    /// The vector of three positive zeros.
    fn default() -> (v: Vec3)
        ensures
            v == Vec3::new(0, 0, 0),
    {
        Vec3::new(0, 0, 0)
    }
}

impl core::ops::Neg for Vec3 {
    type Output = Vec3;

    /// The vector with the sign of each component changed.
    fn neg(self) -> (v: Vec3) {
        Vec3::new(negate(self.x()), negate(self.y()), negate(self.z()))
    }
}

impl vstd::std_specs::ops::NegSpecImpl for Vec3 {
    open spec fn obeys_neg_spec() -> bool {
        true
    }

    open spec fn neg_req(self) -> bool {
        true
    }

    /// What `neg` returns: the negation of each component, in its place.
    open spec fn neg_spec(self) -> Vec3 {
        Vec3::new(negation(self.x()), negation(self.y()), negation(self.z()))
    }
}

impl PartialEq for Vec3 {
    /// Whether each component of `self` is equal, as a number, to the
    /// component of `other` in the same place.
    fn eq(&self, other: &Vec3) -> (r: bool) {
        equal(self.x(), other.x()) && equal(self.y(), other.y()) && equal(self.z(), other.z())
    }
}

impl vstd::std_specs::cmp::PartialEqSpecImpl for Vec3 {
    open spec fn obeys_eq_spec() -> bool {
        true
    }

    /// What `eq` returns, and so what `==` means between two vectors.
    open spec fn eq_spec(&self, other: &Vec3) -> bool {
        &&& same_number(self.x(), other.x())
        &&& same_number(self.y(), other.y())
        &&& same_number(self.z(), other.z())
    }
}

} // verus!
