//! Data model of the display-configuration service: the state snapshot
//! returned by its fetch operation and the request payload of its apply
//! operation.

pub mod apply_monitors_config;
pub mod get_current_state;
