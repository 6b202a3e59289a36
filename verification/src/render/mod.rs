//! What happens to lights and occluders on their way to the screen.

pub mod empty_buffer;
pub mod extract;
pub mod frame_graph;
pub mod light_map;
pub mod lighting;
pub mod offsets;
pub mod prepare;
pub mod render_resource;
pub mod sdf;
pub mod world;
