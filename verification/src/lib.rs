//! Library for inspecting and changing a desktop session's monitor layout
//! through an external display-configuration service.
//!
//! The heart of the crate is the configuration resolver: a pure function that
//! turns a snapshot of the available monitors plus a partial user intent
//! (resolution, refresh rate, scaling, VRR and HDR toggles) into one concrete
//! configuration update, or a precise failure.
//!
//! Real-valued quantities of the wire protocol are carried here as exact
//! fixed-point integers: refresh rates in millihertz, scale factors in
//! thousandths. The I/O layer converts at the boundary.

pub mod cli;
pub mod display_config;
pub mod listing;
pub mod resolver;
