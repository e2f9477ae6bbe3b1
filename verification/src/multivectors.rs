//! The capability markers shared across dimensions: which types stand
//! for oriented plane elements, and which for grade-one vectors.

use vstd::prelude::*;
use crate::vec2::Fix2;
use crate::vec3::Fix3;
use crate::vec4::Fix4;
use crate::bivec3::Bivector3;
use crate::bivec4::Bivector4;

verus! {

/// Marks the oriented plane elements of the algebra, one type per
/// dimension.
pub trait Bivector {

}

impl Bivector for Bivector3 {

}

impl Bivector for Bivector4 {

}

/// Marks the grade-one vectors of the algebra, one type per dimension.
pub trait VectorGrade1 {

}

impl VectorGrade1 for Fix2 {

}

impl VectorGrade1 for Fix3 {

}

impl VectorGrade1 for Fix4 {

}

} // verus!
