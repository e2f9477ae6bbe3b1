//! Fixed-point geometric algebra for raymarching in three and four
//! dimensions: vectors, bivectors and rotors with exact integer contracts,
//! a rotatable camera, signed-distance fields and a sphere-tracing kernel.
//!
//! Every scalar is an `i64` multiple of `1 / fixed::ONE`.  The executable
//! arithmetic is specified exactly (products rescaled by truncating
//! division), and the geometric-algebra laws are proved over the raw,
//! unscaled integer polynomials in `algebra3` and `algebra4`.

pub mod fixed;
pub mod trig;
pub mod algebra3;
pub mod vec3;
pub mod bivec3;
pub mod rotor3;
pub mod algebra4;
pub mod vec4;
pub mod bivec4;
pub mod rotor4;
pub mod vec2;
pub mod multivectors;
pub mod distance_functions;
pub mod raymarching;
pub mod camera;
