//! Integer core of a progressive path tracer: BVH construction, Perlin lattice
//! tables, checker parity, pixel buffers and image encoding.

pub mod buffer;
pub mod bvh;
pub mod camera;
pub mod color;
pub mod image;
pub mod perlin;
pub mod texture;
mod utils;
