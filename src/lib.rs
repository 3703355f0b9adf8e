//! A reader for triangle meshes in the Wavefront OBJ text format: vertices,
//! texture coordinates and triangular faces, resolved into triangles.

use vstd::prelude::*;

pub mod lexer;
pub mod wavefront;
pub mod laws;

verus! {

} // verus!
