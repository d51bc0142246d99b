//! Orbital: the message broker and the decision logic of the services that
//! hang off it, with their contracts proved by Verus.

pub mod broker;
pub mod json;
pub mod number;
pub mod registry;
pub mod services;
pub mod view_nannou;
