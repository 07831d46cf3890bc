//! A CPU-only software rasterizer over integer and fixed-point arithmetic.
//!
//! Triangles of a polygon mesh are projected onto a grid of 8-bit pixels,
//! visibility is resolved with a depth buffer, and pixels are shaded flat or
//! from a texture. Every quantity is an integer: pixel coordinates are whole
//! pixels, and mesh-space coordinates, depths and light directions are
//! fixed-point numbers counted in units of `1 / UNIT`.

pub mod arithmetic;
pub mod context;
pub mod draw_modes;
pub mod geometry_laws;
pub mod image_canvas;
pub mod linear_algebra;
pub mod read_tga;
pub mod utils;
pub mod wavefront_parser;
pub mod wavefront_text;
