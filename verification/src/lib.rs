//! Key value store commands: addressing a store by name or by an app's
//! label, grouping and rendering store listings, and the decisions that each
//! command takes between its remote calls.

pub mod commands;
pub mod error;
pub mod grouping;
pub mod grouping_laws;
pub mod model;
pub mod protocol;
pub mod render;
pub mod target;
pub mod text;
