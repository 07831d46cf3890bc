//! The fill modes: each draws one triangle, or every face of a mesh, into a
//! frame buffer.

pub mod draw_threaded_with_zbuffer;
pub mod draw_threaded_with_zbuffer_textured;
pub mod draw_triangle;
pub mod draw_wireframe;
pub mod flat_shader_with_light;
pub mod flat_shader_with_zbuffer;
