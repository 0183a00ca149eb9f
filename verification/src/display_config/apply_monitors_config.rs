//! Request payload of the display-configuration service's apply operation:
//! the method selector and the logical monitor updates to submit together
//! with the snapshot's serial.

use vstd::prelude::*;
use crate::display_config::get_current_state::{
    LayoutMode, LogicalMonitorTransform, MonitorColorMode, MonitorId,
};

verus! {

/// Global configuration properties an apply call may change. The resolver
/// always submits them empty.
#[derive(Clone, Debug)]
pub struct Properties {
    pub layout_mode: Option<LayoutMode>,
    pub monitors_for_lease: Option<Vec<MonitorId>>,
}

/// The way the configuration should be handled.
#[derive(Clone, Copy, Debug, PartialEq, Eq, Structural)]
pub enum Method {
    /// Check whether the provided arguments are valid.
    Verify,
    /// Set the configuration without storing it to disk.
    Temporary,
    /// Set the configuration and store it to disk; the service asks the user
    /// for confirmation before persisting.
    Persistent,
}

/// One monitor entry of a logical monitor update.
#[derive(Clone, Debug)]
pub struct Monitor {
    /// Connector name.
    pub connector: String,
    /// Identifier of the mode to drive the monitor at.
    pub mode: String,
    pub properties: MonitorProperties,
}

/// Per-monitor properties of an apply call. A `None` field means "leave
/// as-is".
#[derive(Clone, Debug)]
pub struct MonitorProperties {
    pub underscanning: Option<bool>,
    pub color_mode: Option<MonitorColorMode>,
}

/// One placed, scaled logical monitor of an apply call.
#[derive(Clone, Debug)]
pub struct LogicalMonitor {
    /// Layout x position.
    pub x: i32,
    /// Layout y position.
    pub y: i32,
    /// Scale in thousandths (1_000 stands for 1.0).
    pub scale: u32,
    pub transform: LogicalMonitorTransform,
    /// True if this is the primary logical monitor.
    pub primary: bool,
    pub monitors: Vec<Monitor>,
}

} // verus!
