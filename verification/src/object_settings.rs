//! Settings widgets shared by the object panels.

pub mod radio_options;
pub mod texture;
