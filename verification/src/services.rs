//! The services of the system, each reduced to the decisions it makes on the
//! messages that reach it.

pub mod broker;
pub mod camera;
pub mod logging;
pub mod scripting;
pub mod timer;
pub mod view_nannou;
pub mod view_pixels;
