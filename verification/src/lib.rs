//! Dynamic 2D lighting: point lights, ambient light and rectangular
//! occluders that cast shadows, laid over a scene after its main color pass.
//!
//! A frame is lit in four steps. The scene's lights and occluders are
//! snapshot ([`render::extract`]) and uploaded ([`render::prepare`]); then
//! three passes run, each over the whole viewport: the distance field of the
//! occluders ([`render::sdf`]), the light map that every point light adds to
//! unless an occluder is in its way ([`render::light_map`]), and the
//! compositing of the light map onto the scene ([`render::lighting`]). The
//! passes are tied into the host's frame graph in that order ([`plugin`],
//! [`render::frame_graph`]).
//!
//! What a pass computes for a point of the world is its fragment function.
//! All numbers are fixed-point numbers with sixteen fractional bits
//! ([`math`]), so that every result is exact up to a rounding that the
//! contracts state.
//!
//! This crate decides and computes; it owns no device. The resources that
//! the passes need are described ([`render::render_resource`]) and created
//! by whoever drives the device.

pub mod light;
pub mod math;
pub mod occluder;
pub mod plugin;
pub mod prelude;
pub mod render;
