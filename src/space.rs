//! Positions in 3D space, kept as ultraviolet's `Vec3`.
//!
//! A position is carried through the kernel as an opaque value: no rule of
//! the kernel reads its coordinates.

use vstd::prelude::*;
use ultraviolet::Vec3;

verus! {

#[verifier::external_type_specification]
#[verifier::external_body]
pub struct ExVec3(Vec3);

/// Relies on `Vec3::zero`: the origin. Nothing is stated of its coordinates.
#[verifier::external_body]
pub(crate) fn origin() -> (r: Vec3) {
    Vec3::zero()
}

} // verus!
