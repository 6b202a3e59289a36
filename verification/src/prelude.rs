//! Commonly used items.

pub use crate::light::{AmbientLight2d, PointLight2d, PointLight2dBundle};
pub use crate::occluder::{LightOccluder2d, LightOccluder2dBundle, LightOccluder2dShape};
pub use crate::plugin::Light2dPlugin;
