//! The configuration resolver: a pure function that turns a state snapshot,
//! a target connector and a partial intent into one concrete logical-monitor
//! update, or a precise failure.
//!
//! Every selection in here is deterministic: "best" always means the mode
//! ordering of [`crate::display_config::get_current_state`], and every
//! "closest" tie is broken the same way on every run.

use vstd::prelude::*;
use crate::cli::SetArgs;
use crate::display_config::apply_monitors_config;
use crate::display_config::get_current_state::{
    LogicalMonitor, Mode, Monitor, MonitorColorMode, MonitorProperties, Response,
    round_rate, refresh_rate_mode_of, mode_lt, RefreshRateMode,
    spec_is_variable, spec_mode_lt, spec_round_rate,
};

verus! {

/// Why a resolve attempt failed. Every variant is terminal for one
/// invocation; nothing is retried internally.
#[derive(Clone, Copy, Debug, PartialEq, Eq, Structural)]
pub enum ResolveError {
    /// The requested connector is not present in the snapshot.
    UnknownConnector,
    /// The monitor exists but is not part of any logical monitor; the
    /// resolver configures existing placements only.
    MonitorNotActive,
    /// The active monitor has no mode flagged current: a consistency fault
    /// of the service.
    NoCurrentMode,
    /// No mode exists for the resolved resolution.
    NoMatchingMode,
    /// Variable refresh rate was requested but no variable-refresh mode
    /// exists for the resolved resolution and rate.
    VrrUnavailable,
    /// A fixed-refresh mode should exist for the resolved resolution and
    /// rate but does not: the snapshot broke the pairing invariant between
    /// fixed and variable modes. Callers should treat this as fatal.
    InvariantViolation,
    /// No supported scale lies within a quarter step of the requested value,
    /// reported in percent.
    NoMatchingScale { requested_percent: u32 },
    /// HDR was requested but the monitor's supported color modes do not
    /// include it.
    HdrUnsupported,
}

/// The resolver's output: one logical-monitor update, ready for submission
/// together with the snapshot's serial.
#[derive(Clone, Debug)]
pub struct ResolvedConfig {
    /// The snapshot's concurrency token, echoed back on apply.
    pub serial: u32,
    /// The assembled update: same placement as before, new mode, scale and
    /// color mode.
    pub logical_monitor: apply_monitors_config::LogicalMonitor,
}

// ---------------------------------------------------------------------------
// Locating the monitor, its logical monitor, and its current mode
// ---------------------------------------------------------------------------

/// The monitor answers to the connector name.
pub open spec fn monitor_matches(m: Monitor, c: Seq<char>) -> bool {
    m.id.connector@ == c
}

/// No monitor of the snapshot answers to the connector name.
pub open spec fn no_monitor_match(ms: Seq<Monitor>, c: Seq<char>) -> bool {
    forall|i: int| 0 <= i < ms.len() ==> !monitor_matches(ms[i], c)
}

/// `i` is the first index whose monitor answers to the connector name.
pub open spec fn is_first_monitor_match(ms: Seq<Monitor>, c: Seq<char>, i: int) -> bool {
    &&& 0 <= i < ms.len()
    &&& monitor_matches(ms[i], c)
    &&& forall|j: int| 0 <= j < i ==> !monitor_matches(ms[j], c)
}

/// The first index whose monitor answers to the connector name; meaningful
/// only when one exists.
pub open spec fn first_monitor_match(ms: Seq<Monitor>, c: Seq<char>) -> int {
    choose|i: int| is_first_monitor_match(ms, c, i)
}

/// The logical monitor references a monitor with the connector name.
/// Identity is by connector name only.
pub open spec fn lm_references(lm: LogicalMonitor, c: Seq<char>) -> bool {
    exists|k: int| 0 <= k < lm.monitors@.len() && lm.monitors@[k].connector@ == c
}

/// No logical monitor references the connector name: the monitor is
/// disabled.
pub open spec fn no_lm_match(lms: Seq<LogicalMonitor>, c: Seq<char>) -> bool {
    forall|i: int| 0 <= i < lms.len() ==> !lm_references(lms[i], c)
}

/// `i` is the first index whose logical monitor references the connector.
pub open spec fn is_first_lm_match(lms: Seq<LogicalMonitor>, c: Seq<char>, i: int) -> bool {
    &&& 0 <= i < lms.len()
    &&& lm_references(lms[i], c)
    &&& forall|j: int| 0 <= j < i ==> !lm_references(lms[j], c)
}

/// The first index whose logical monitor references the connector;
/// meaningful only when one exists.
pub open spec fn first_lm_match(lms: Seq<LogicalMonitor>, c: Seq<char>) -> int {
    choose|i: int| is_first_lm_match(lms, c, i)
}

/// The mode is flagged as the currently active one.
pub open spec fn is_current_mode(m: Mode) -> bool {
    m.properties.is_current == Some(true)
}

/// No mode of the list is flagged current.
pub open spec fn no_current_mode(modes: Seq<Mode>) -> bool {
    forall|i: int| 0 <= i < modes.len() ==> !is_current_mode(modes[i])
}

/// `i` is the first index flagged current.
pub open spec fn is_first_current_mode(modes: Seq<Mode>, i: int) -> bool {
    &&& 0 <= i < modes.len()
    &&& is_current_mode(modes[i])
    &&& forall|j: int| 0 <= j < i ==> !is_current_mode(modes[j])
}

/// The first index flagged current; meaningful only when one exists.
pub open spec fn first_current_mode(modes: Seq<Mode>) -> int {
    choose|i: int| is_first_current_mode(modes, i)
}

/// Finds the monitor answering to the connector name, scanning in snapshot
/// order.
pub fn find_monitor(monitors: &Vec<Monitor>, connector: &String) -> (r: Option<usize>)
    ensures
        match r {
            Some(i) => is_first_monitor_match(monitors@, connector@, i as int),
            None => no_monitor_match(monitors@, connector@),
        },
{
    let mut i: usize = 0;
    while i < monitors.len()
        invariant
            i <= monitors.len(),
            forall|j: int| 0 <= j < i ==> !monitor_matches(monitors@[j], connector@),
        decreases monitors.len() - i,
    {
        if monitors[i].id.connector == *connector {
            return Some(i);
        }
        i = i + 1;
    }
    None
}

/// The logical monitor references a monitor with the connector name.
pub fn lm_contains_connector(lm: &LogicalMonitor, connector: &String) -> (r: bool)
    ensures
        r == lm_references(*lm, connector@),
{
    let mut k: usize = 0;
    while k < lm.monitors.len()
        invariant
            k <= lm.monitors.len(),
            forall|j: int| 0 <= j < k ==> lm.monitors@[j].connector@ != connector@,
        decreases lm.monitors.len() - k,
    {
        if lm.monitors[k].connector == *connector {
            return true;
        }
        k = k + 1;
    }
    false
}

/// Finds the logical monitor that displays the monitor with the connector
/// name, scanning in snapshot order.
pub fn find_logical_monitor(lms: &Vec<LogicalMonitor>, connector: &String) -> (r: Option<usize>)
    ensures
        match r {
            Some(i) => is_first_lm_match(lms@, connector@, i as int),
            None => no_lm_match(lms@, connector@),
        },
{
    let mut i: usize = 0;
    while i < lms.len()
        invariant
            i <= lms.len(),
            forall|j: int| 0 <= j < i ==> !lm_references(lms@[j], connector@),
        decreases lms.len() - i,
    {
        if lm_contains_connector(&lms[i], connector) {
            return Some(i);
        }
        i = i + 1;
    }
    None
}

/// Finds the mode flagged current, scanning in snapshot order.
pub fn find_current_mode(modes: &Vec<Mode>) -> (r: Option<usize>)
    ensures
        match r {
            Some(i) => is_first_current_mode(modes@, i as int),
            None => no_current_mode(modes@),
        },
{
    let mut i: usize = 0;
    while i < modes.len()
        invariant
            i <= modes.len(),
            forall|j: int| 0 <= j < i ==> !is_current_mode(modes@[j]),
        decreases modes.len() - i,
    {
        match modes[i].properties.is_current {
            Some(true) => {
                return Some(i);
            },
            _ => {},
        }
        i = i + 1;
    }
    None
}

// ---------------------------------------------------------------------------
// Resolution, refresh rate, mode, scale and color selection
// ---------------------------------------------------------------------------

/// The mode drives the given resolution.
pub open spec fn mode_at(m: Mode, w: u32, h: u32) -> bool {
    m.width == w && m.height == h
}

/// Some mode of the list drives the given resolution.
pub open spec fn exists_mode_at(modes: Seq<Mode>, w: u32, h: u32) -> bool {
    exists|i: int| 0 <= i < modes.len() && mode_at(modes[i], w, h)
}

/// `i` is the first index of a greatest mode under the mode ordering:
/// nothing exceeds it, and everything before it is strictly below it.
pub open spec fn is_first_max_mode(modes: Seq<Mode>, i: int) -> bool {
    &&& 0 <= i < modes.len()
    &&& forall|j: int| 0 <= j < modes.len() ==> !spec_mode_lt(modes[i], modes[j])
    &&& forall|j: int| 0 <= j < i ==> spec_mode_lt(modes[j], modes[i])
}

/// The first index of a greatest mode; meaningful only when the list is
/// nonempty.
pub open spec fn first_max_mode(modes: Seq<Mode>) -> int {
    choose|i: int| is_first_max_mode(modes, i)
}

/// Finds the greatest mode under the mode ordering, taking the earliest of
/// modes that group together.
pub fn find_max_mode(modes: &Vec<Mode>) -> (r: usize)
    requires
        modes@.len() > 0,
    ensures
        is_first_max_mode(modes@, r as int),
{
    let mut best: usize = 0;
    let mut i: usize = 1;
    while i < modes.len()
        invariant
            0 < modes@.len(),
            best < i <= modes.len(),
            forall|j: int| 0 <= j < i ==> !spec_mode_lt(modes@[best as int], modes@[j]),
            forall|j: int| 0 <= j < best ==> spec_mode_lt(modes@[j], modes@[best as int]),
        decreases modes.len() - i,
    {
        if mode_lt(&modes[best], &modes[i]) {
            best = i;
        }
        i = i + 1;
    }
    best
}

/// Absolute difference of two refresh rates or scales.
pub open spec fn abs_diff(a: int, b: int) -> int {
    if a >= b {
        a - b
    } else {
        b - a
    }
}

/// `r` is the greatest refresh rate among the modes at the resolution.
pub open spec fn is_max_rate(modes: Seq<Mode>, w: u32, h: u32, r: u32) -> bool {
    &&& exists|i: int| 0 <= i < modes.len() && mode_at(modes[i], w, h) && modes[i].refresh_rate
        == r
    &&& forall|i: int| 0 <= i < modes.len() && mode_at(modes[i], w, h) ==> modes[i].refresh_rate
        <= r
}

/// `r` is the refresh rate of a mode at the resolution, minimizes the
/// distance to the target, and ties on distance go to the greater rate.
pub open spec fn is_closest_rate(modes: Seq<Mode>, w: u32, h: u32, t: u32, r: u32) -> bool {
    &&& exists|i: int| 0 <= i < modes.len() && mode_at(modes[i], w, h) && modes[i].refresh_rate
        == r
    &&& forall|i: int| 0 <= i < modes.len() && mode_at(modes[i], w, h) ==> abs_diff(
        modes[i].refresh_rate as int,
        t as int,
    ) > abs_diff(r as int, t as int) || (abs_diff(modes[i].refresh_rate as int, t as int)
        == abs_diff(r as int, t as int) && modes[i].refresh_rate <= r)
}

/// The refresh rate the pipeline selects: the greatest rate at
/// the resolution when the maximum is asked for, else the rate closest to
/// the target (the explicit target if given, else the current mode's rate),
/// greater rate on ties.
pub open spec fn is_selected_rate(
    modes: Seq<Mode>,
    w: u32,
    h: u32,
    args: SetArgs,
    cur: Mode,
    r: u32,
) -> bool {
    if args.max_refresh_rate {
        is_max_rate(modes, w, h, r)
    } else {
        let t = match args.refresh_rate {
            Some(t) => t,
            None => cur.refresh_rate,
        };
        is_closest_rate(modes, w, h, t, r)
    }
}

/// The selected refresh rate; meaningful only when a mode at the resolution
/// exists.
pub open spec fn selected_rate(modes: Seq<Mode>, w: u32, h: u32, args: SetArgs, cur: Mode) -> u32 {
    choose|r: u32| is_selected_rate(modes, w, h, args, cur, r)
}

/// Finds the greatest refresh rate among the modes at the resolution.
pub fn max_rate_at(modes: &Vec<Mode>, w: u32, h: u32) -> (r: Option<u32>)
    ensures
        match r {
            Some(v) => is_max_rate(modes@, w, h, v),
            None => !exists_mode_at(modes@, w, h),
        },
{
    let mut best: Option<u32> = None;
    let mut i: usize = 0;
    while i < modes.len()
        invariant
            i <= modes.len(),
            match best {
                Some(v) => {
                    &&& exists|j: int| 0 <= j < i && mode_at(modes@[j], w, h)
                        && modes@[j].refresh_rate == v
                    &&& forall|j: int| 0 <= j < i && mode_at(modes@[j], w, h)
                        ==> modes@[j].refresh_rate <= v
                },
                None => forall|j: int| 0 <= j < i ==> !mode_at(modes@[j], w, h),
            },
        decreases modes.len() - i,
    {
        if modes[i].width == w && modes[i].height == h {
            let rate = modes[i].refresh_rate;
            best = match best {
                Some(v) => if rate > v {
                    Some(rate)
                } else {
                    Some(v)
                },
                None => Some(rate),
            };
        }
        i = i + 1;
    }
    best
}

/// Finds the refresh rate among the modes at the resolution that is closest
/// to the target, preferring the greater rate on equal distance.
pub fn closest_rate_at(modes: &Vec<Mode>, w: u32, h: u32, t: u32) -> (r: Option<u32>)
    ensures
        match r {
            Some(v) => is_closest_rate(modes@, w, h, t, v),
            None => !exists_mode_at(modes@, w, h),
        },
{
    let mut best: Option<u32> = None;
    let mut i: usize = 0;
    while i < modes.len()
        invariant
            i <= modes.len(),
            match best {
                Some(v) => {
                    &&& exists|j: int| 0 <= j < i && mode_at(modes@[j], w, h)
                        && modes@[j].refresh_rate == v
                    &&& forall|j: int| 0 <= j < i && mode_at(modes@[j], w, h) ==> abs_diff(
                        modes@[j].refresh_rate as int,
                        t as int,
                    ) > abs_diff(v as int, t as int) || (abs_diff(
                        modes@[j].refresh_rate as int,
                        t as int,
                    ) == abs_diff(v as int, t as int) && modes@[j].refresh_rate <= v)
                },
                None => forall|j: int| 0 <= j < i ==> !mode_at(modes@[j], w, h),
            },
        decreases modes.len() - i,
    {
        if modes[i].width == w && modes[i].height == h {
            let rate = modes[i].refresh_rate;
            let dist = if rate >= t {
                rate - t
            } else {
                t - rate
            };
            best = match best {
                Some(v) => {
                    let best_dist = if v >= t {
                        v - t
                    } else {
                        t - v
                    };
                    if dist < best_dist || (dist == best_dist && rate > v) {
                        Some(rate)
                    } else {
                        Some(v)
                    }
                },
                None => Some(rate),
            };
        }
        i = i + 1;
    }
    best
}

/// The mode matches the re-selection for the VRR choice: right resolution, right rounded
/// refresh rate, right refresh-rate mode.
pub open spec fn mode_selectable(m: Mode, w: u32, h: u32, rr: int, variable: bool) -> bool {
    &&& mode_at(m, w, h)
    &&& spec_round_rate(m.refresh_rate as int) == rr
    &&& spec_is_variable(m) == variable
}

/// Some mode of the list matches the re-selection.
pub open spec fn exists_selectable(modes: Seq<Mode>, w: u32, h: u32, rr: int, variable: bool) -> bool {
    exists|i: int| 0 <= i < modes.len() && mode_selectable(modes[i], w, h, rr, variable)
}

/// `i` is the first index matching the re-selection.
pub open spec fn is_first_selectable(
    modes: Seq<Mode>,
    w: u32,
    h: u32,
    rr: int,
    variable: bool,
    i: int,
) -> bool {
    &&& 0 <= i < modes.len()
    &&& mode_selectable(modes[i], w, h, rr, variable)
    &&& forall|j: int| 0 <= j < i ==> !mode_selectable(modes[j], w, h, rr, variable)
}

/// The first index matching the re-selection; meaningful only when one
/// exists.
pub open spec fn first_selectable(modes: Seq<Mode>, w: u32, h: u32, rr: int, variable: bool) -> int {
    choose|i: int| is_first_selectable(modes, w, h, rr, variable, i)
}

/// Finds the first mode with the given resolution, rounded refresh rate and
/// refresh-rate mode.
pub fn find_selectable_mode(modes: &Vec<Mode>, w: u32, h: u32, rr: u32, variable: bool) -> (r:
    Option<usize>)
    ensures
        match r {
            Some(i) => is_first_selectable(modes@, w, h, rr as int, variable, i as int),
            None => !exists_selectable(modes@, w, h, rr as int, variable),
        },
{
    let mut i: usize = 0;
    while i < modes.len()
        invariant
            i <= modes.len(),
            forall|j: int| 0 <= j < i ==> !mode_selectable(modes@[j], w, h, rr as int, variable),
        decreases modes.len() - i,
    {
        let is_var = match refresh_rate_mode_of(&modes[i].properties) {
            RefreshRateMode::Variable => true,
            RefreshRateMode::Fixed => false,
        };
        if modes[i].width == w && modes[i].height == h && round_rate(modes[i].refresh_rate) == rr
            && is_var == variable {
            return Some(i);
        }
        i = i + 1;
    }
    None
}

/// `i` is the first index of a supported scale at minimal distance from the
/// wanted value.
pub open spec fn is_first_best_scale(scales: Seq<u32>, wanted: int, i: int) -> bool {
    &&& 0 <= i < scales.len()
    &&& forall|j: int| 0 <= j < scales.len() ==> abs_diff(scales[j] as int, wanted) >= abs_diff(
        scales[i] as int,
        wanted,
    )
    &&& forall|j: int| 0 <= j < i ==> abs_diff(scales[j] as int, wanted) > abs_diff(
        scales[i] as int,
        wanted,
    )
}

/// The first index of a closest supported scale; meaningful only when the
/// list is nonempty.
pub open spec fn first_best_scale(scales: Seq<u32>, wanted: int) -> int {
    choose|i: int| is_first_best_scale(scales, wanted, i)
}

/// Finds the supported scale closest to the wanted value, taking the
/// earliest on equal distance.
pub fn select_scale(scales: &Vec<u32>, wanted: u64) -> (r: Option<usize>)
    ensures
        match r {
            Some(i) => is_first_best_scale(scales@, wanted as int, i as int),
            None => scales@.len() == 0,
        },
{
    if scales.len() == 0 {
        return None;
    }
    let mut best: usize = 0;
    let mut best_dist: u64 = if scales[0] as u64 >= wanted {
        scales[0] as u64 - wanted
    } else {
        wanted - scales[0] as u64
    };
    let mut i: usize = 1;
    while i < scales.len()
        invariant
            0 < scales@.len(),
            best < i <= scales.len(),
            best_dist == abs_diff(scales@[best as int] as int, wanted as int),
            forall|j: int| 0 <= j < i ==> abs_diff(scales@[j] as int, wanted as int) >= abs_diff(
                scales@[best as int] as int,
                wanted as int,
            ),
            forall|j: int| 0 <= j < best ==> abs_diff(scales@[j] as int, wanted as int) > abs_diff(
                scales@[best as int] as int,
                wanted as int,
            ),
        decreases scales.len() - i,
    {
        let dist = if scales[i] as u64 >= wanted {
            scales[i] as u64 - wanted
        } else {
            wanted - scales[i] as u64
        };
        if dist < best_dist {
            best = i;
            best_dist = dist;
        }
        i = i + 1;
    }
    Some(best)
}

/// A scale in thousandths quantized to the nearest quarter step: 1_250
/// becomes 5, 1_300 also 5, 1_375 already 6.
pub open spec fn spec_quarter(v: int) -> int {
    (v + 125) / 250
}

/// Quantizes a scale in thousandths to the nearest quarter step.
pub fn quarter(v: u64) -> (r: u64)
    requires
        v <= 0xFFFF_FFFFu64 * 10,
    ensures
        r as int == spec_quarter(v as int),
{
    (v + 125) / 250
}

/// The scale the intent asks for, in thousandths: the given percentage, or
/// the logical monitor's current scale.
pub open spec fn spec_wanted_scale(args: SetArgs, lm: LogicalMonitor) -> int {
    match args.scaling {
        Some(p) => p as int * 10,
        None => lm.scale as int,
    }
}

/// The requested scale as a percentage, for reporting a failed match.
pub open spec fn spec_requested_percent(args: SetArgs, lm: LogicalMonitor) -> u32 {
    match args.scaling {
        Some(p) => p,
        None => (lm.scale / 10) as u32,
    }
}

/// The color mode the intent aims at: the explicit choice, else the
/// monitor's current one, else the default.
pub open spec fn spec_color_target(hdr: Option<bool>, props: MonitorProperties) -> MonitorColorMode {
    match hdr {
        Some(true) => MonitorColorMode::BT2100,
        Some(false) => MonitorColorMode::Default,
        None => match props.color_mode {
            Some(c) => c,
            None => MonitorColorMode::Default,
        },
    }
}

/// The monitor's advertised color modes include HDR.
pub open spec fn spec_supports_bt2100(props: MonitorProperties) -> bool {
    match props.supported_color_modes {
        Some(v) => v@.contains(MonitorColorMode::BT2100),
        None => false,
    }
}

/// The color-mode decision: `Err` when HDR is aimed at but
/// unsupported; `Ok(None)` when the monitor advertises no color modes at
/// all, to leave the property as it is; `Ok(Some(target))` otherwise.
pub open spec fn spec_color_selection(hdr: Option<bool>, props: MonitorProperties) -> Result<
    Option<MonitorColorMode>,
    (),
> {
    let target = spec_color_target(hdr, props);
    if target == MonitorColorMode::BT2100 && !spec_supports_bt2100(props) {
        Err(())
    } else if props.supported_color_modes is None {
        Ok(None)
    } else {
        Ok(Some(target))
    }
}

/// Decides the color mode to submit, or that HDR is unsupported.
pub fn select_color_mode(hdr: Option<bool>, props: &MonitorProperties) -> (r: Result<
    Option<MonitorColorMode>,
    (),
>)
    ensures
        r == spec_color_selection(hdr, *props),
{
    let target = match hdr {
        Some(true) => MonitorColorMode::BT2100,
        Some(false) => MonitorColorMode::Default,
        None => match props.color_mode {
            Some(c) => c,
            None => MonitorColorMode::Default,
        },
    };
    let supports = match &props.supported_color_modes {
        Some(v) => {
            let mut found = false;
            let mut i: usize = 0;
            while i < v.len()
                invariant
                    i <= v.len(),
                    found == exists|j: int| 0 <= j < i && v@[j] == MonitorColorMode::BT2100,
                decreases v.len() - i,
            {
                match v[i] {
                    MonitorColorMode::BT2100 => {
                        found = true;
                    },
                    _ => {},
                }
                i = i + 1;
            }
            proof {
                assert(found == v@.contains(MonitorColorMode::BT2100));
            }
            found
        },
        None => false,
    };
    let advertises = props.supported_color_modes.is_some();
    match (target, supports) {
        (MonitorColorMode::BT2100, false) => Err(()),
        (t, _) => if advertises {
            Ok(Some(t))
        } else {
            Ok(None)
        },
    }
}

// ---------------------------------------------------------------------------
// The resolution pipeline as one mathematical function
// ---------------------------------------------------------------------------

/// The resolution the intent aims at: the greatest mode's when the maximum is
/// asked for, the explicit pair when given, else the current mode's.
pub open spec fn spec_target_resolution(modes: Seq<Mode>, args: SetArgs, cur: Mode) -> (u32, u32) {
    if args.max_resolution {
        let k = first_max_mode(modes);
        (modes[k].width, modes[k].height)
    } else {
        match args.resolution {
            Some(res) => res,
            None => (cur.width, cur.height),
        }
    }
}

/// The monitor the connector names; meaningful only when one exists.
pub open spec fn located_monitor(state: Response, args: SetArgs) -> Monitor {
    state.monitors@[first_monitor_match(state.monitors@, args.connector@)]
}

/// The logical monitor displaying that monitor; meaningful only when one
/// exists.
pub open spec fn located_logical_monitor(state: Response, args: SetArgs) -> LogicalMonitor {
    state.logical_monitors@[first_lm_match(state.logical_monitors@, args.connector@)]
}

/// That monitor's current mode; meaningful only when one is flagged.
pub open spec fn located_current_mode(state: Response, args: SetArgs) -> Mode {
    let modes = located_monitor(state, args).modes@;
    modes[first_current_mode(modes)]
}

/// The resolution the intent resolves to.
pub open spec fn resolved_resolution(state: Response, args: SetArgs) -> (u32, u32) {
    spec_target_resolution(
        located_monitor(state, args).modes@,
        args,
        located_current_mode(state, args),
    )
}

/// The refresh rate the intent resolves to; meaningful only when a mode at
/// the resolved resolution exists.
pub open spec fn resolved_rate(state: Response, args: SetArgs) -> u32 {
    let modes = located_monitor(state, args).modes@;
    let res = resolved_resolution(state, args);
    selected_rate(modes, res.0, res.1, args, located_current_mode(state, args))
}

/// The mode the intent resolves to; meaningful only when the re-selection
/// for the VRR choice succeeds.
pub open spec fn resolved_mode(state: Response, args: SetArgs) -> Mode {
    let modes = located_monitor(state, args).modes@;
    let res = resolved_resolution(state, args);
    let rr = spec_round_rate(resolved_rate(state, args) as int);
    modes[first_selectable(modes, res.0, res.1, rr, args.vrr == Some(true))]
}

/// The supported scale the intent resolves to; meaningful only when the
/// resolved mode has supported scales.
pub open spec fn resolved_scale(state: Response, args: SetArgs) -> u32 {
    let scales = resolved_mode(state, args).supported_scales@;
    let wanted = spec_wanted_scale(args, located_logical_monitor(state, args));
    scales[first_best_scale(scales, wanted)]
}

/// The color-mode property the intent resolves to; `None` means "leave
/// as-is". Meaningful only when the color-mode decision succeeds.
pub open spec fn resolved_color(state: Response, args: SetArgs) -> Option<MonitorColorMode> {
    match spec_color_selection(args.hdr, located_monitor(state, args).properties) {
        Ok(c) => c,
        Err(_) => None,
    }
}

/// The whole pipeline's decision: which error a resolve attempt fails with,
/// or that it succeeds. Every step of the resolution is reflected here in
/// order, each failing fast with its own error.
pub open spec fn spec_resolve_outcome(state: Response, args: SetArgs) -> Result<
    (),
    ResolveError,
> {
    let c = args.connector@;
    if no_monitor_match(state.monitors@, c) {
        Err(ResolveError::UnknownConnector)
    } else if no_lm_match(state.logical_monitors@, c) {
        Err(ResolveError::MonitorNotActive)
    } else if no_current_mode(located_monitor(state, args).modes@) {
        Err(ResolveError::NoCurrentMode)
    } else {
        let modes = located_monitor(state, args).modes@;
        let res = resolved_resolution(state, args);
        if !exists_mode_at(modes, res.0, res.1) {
            Err(ResolveError::NoMatchingMode)
        } else {
            let rr = spec_round_rate(resolved_rate(state, args) as int);
            let want_var = args.vrr == Some(true);
            if !exists_selectable(modes, res.0, res.1, rr, want_var) {
                if want_var {
                    Err(ResolveError::VrrUnavailable)
                } else {
                    Err(ResolveError::InvariantViolation)
                }
            } else {
                let scales = resolved_mode(state, args).supported_scales@;
                let wanted = spec_wanted_scale(args, located_logical_monitor(state, args));
                let percent = spec_requested_percent(args, located_logical_monitor(state, args));
                if scales.len() == 0 {
                    Err(ResolveError::NoMatchingScale { requested_percent: percent })
                } else if spec_quarter(resolved_scale(state, args) as int) != spec_quarter(
                    wanted,
                ) {
                    Err(ResolveError::NoMatchingScale { requested_percent: percent })
                } else {
                    match spec_color_selection(args.hdr, located_monitor(state, args).properties) {
                        Err(_) => Err(ResolveError::HdrUnsupported),
                        Ok(_) => Ok(()),
                    }
                }
            }
        }
    }
}

/// A resolve result reduced to its decision, with the payload dropped.
pub open spec fn outcome_of(r: Result<ResolvedConfig, ResolveError>) -> Result<(), ResolveError> {
    match r {
        Ok(_) => Ok(()),
        Err(e) => Err(e),
    }
}

/// Resolves a partial intent against a state snapshot into one concrete
/// logical-monitor update, or fails with the exact error of the first step
/// that cannot be satisfied. Performs no I/O and is fully deterministic.
///
/// Locating the monitor and its logical monitor succeeds exactly when some
/// logical monitor references the requested connector; the update keeps the
/// placement (position, transform, primary) and changes only mode, scale
/// and color mode.
pub fn resolve(state: &Response, args: &SetArgs) -> (r: Result<ResolvedConfig, ResolveError>)
    ensures
        outcome_of(r) == spec_resolve_outcome(*state, *args),
        r matches Ok(cfg) ==> ({
            let lm = located_logical_monitor(*state, *args);
            &&& cfg.serial == state.serial
            &&& cfg.logical_monitor.x == lm.x
            &&& cfg.logical_monitor.y == lm.y
            &&& cfg.logical_monitor.scale == resolved_scale(*state, *args)
            &&& cfg.logical_monitor.transform == lm.transform
            &&& cfg.logical_monitor.primary == lm.primary
            &&& cfg.logical_monitor.monitors@.len() == 1
            &&& cfg.logical_monitor.monitors@[0].connector@ == args.connector@
            &&& cfg.logical_monitor.monitors@[0].mode@ == resolved_mode(*state, *args).id@
            &&& cfg.logical_monitor.monitors@[0].properties.underscanning is None
            &&& cfg.logical_monitor.monitors@[0].properties.color_mode == resolved_color(
                *state,
                *args,
            )
        }),
{
    let ghost c = args.connector@;

    // Locate the monitor.
    let mi = match find_monitor(&state.monitors, &args.connector) {
        Some(mi) => mi,
        None => {
            return Err(ResolveError::UnknownConnector);
        },
    };
    proof {
        assert(first_monitor_match(state.monitors@, c) == mi as int) by {
            assert(exists|x: int| is_first_monitor_match(state.monitors@, c, x));
        };
    }
    let monitor = &state.monitors[mi];

    // Locate the logical monitor it is placed on.
    let li = match find_logical_monitor(&state.logical_monitors, &args.connector) {
        Some(li) => li,
        None => {
            return Err(ResolveError::MonitorNotActive);
        },
    };
    proof {
        assert(first_lm_match(state.logical_monitors@, c) == li as int) by {
            assert(exists|x: int| is_first_lm_match(state.logical_monitors@, c, x));
        };
    }
    let lm = &state.logical_monitors[li];

    // Find the current mode.
    let ci = match find_current_mode(&monitor.modes) {
        Some(ci) => ci,
        None => {
            return Err(ResolveError::NoCurrentMode);
        },
    };
    proof {
        assert(first_current_mode(monitor.modes@) == ci as int) by {
            assert(exists|x: int| is_first_current_mode(monitor.modes@, x));
        };
    }
    let cur_width = monitor.modes[ci].width;
    let cur_height = monitor.modes[ci].height;
    let cur_rate = monitor.modes[ci].refresh_rate;
    let ghost cur = monitor.modes@[ci as int];

    // Pick the target resolution.
    let (w, h) = if args.max_resolution {
        let b = find_max_mode(&monitor.modes);
        proof {
            assert(first_max_mode(monitor.modes@) == b as int) by {
                assert(exists|x: int| is_first_max_mode(monitor.modes@, x));
            };
        }
        (monitor.modes[b].width, monitor.modes[b].height)
    } else {
        match args.resolution {
            Some(res) => res,
            None => (cur_width, cur_height),
        }
    };
    proof {
        assert((w, h) == resolved_resolution(*state, *args));
    }

    // Pick the target refresh rate.
    let rate_found = if args.max_refresh_rate {
        max_rate_at(&monitor.modes, w, h)
    } else {
        let t = match args.refresh_rate {
            Some(t) => t,
            None => cur_rate,
        };
        closest_rate_at(&monitor.modes, w, h, t)
    };
    let rate = match rate_found {
        Some(rate) => rate,
        None => {
            return Err(ResolveError::NoMatchingMode);
        },
    };
    proof {
        assert(is_selected_rate(monitor.modes@, w, h, *args, cur, rate));
        assert(selected_rate(monitor.modes@, w, h, *args, cur) == rate) by {
            assert(exists|x: u32| is_selected_rate(monitor.modes@, w, h, *args, cur, x));
        };
    }

    // Re-select the concrete mode for the VRR choice.
    let rr = round_rate(rate);
    let want_var = matches!(args.vrr, Some(true));
    let si = match find_selectable_mode(&monitor.modes, w, h, rr, want_var) {
        Some(si) => si,
        None => {
            if want_var {
                return Err(ResolveError::VrrUnavailable);
            } else {
                return Err(ResolveError::InvariantViolation);
            }
        },
    };
    proof {
        assert(first_selectable(monitor.modes@, w, h, rr as int, want_var) == si as int) by {
            assert(exists|x: int| is_first_selectable(monitor.modes@, w, h, rr as int, want_var, x));
        };
        assert(monitor.modes@[si as int] == resolved_mode(*state, *args));
    }
    let selected = &monitor.modes[si];

    // Pick the scale.
    let wanted: u64 = match args.scaling {
        Some(p) => p as u64 * 10,
        None => lm.scale as u64,
    };
    let requested_percent: u32 = match args.scaling {
        Some(p) => p,
        None => lm.scale / 10,
    };
    let bi = match select_scale(&selected.supported_scales, wanted) {
        Some(bi) => bi,
        None => {
            return Err(ResolveError::NoMatchingScale { requested_percent });
        },
    };
    proof {
        assert(first_best_scale(selected.supported_scales@, wanted as int) == bi as int) by {
            assert(exists|x: int| is_first_best_scale(selected.supported_scales@, wanted as int, x));
        };
        assert(selected.supported_scales@[bi as int] == resolved_scale(*state, *args));
    }
    let scale = selected.supported_scales[bi];
    if quarter(scale as u64) != quarter(wanted) {
        return Err(ResolveError::NoMatchingScale { requested_percent });
    }

    // Decide the color mode.
    let color_mode = match select_color_mode(args.hdr, &monitor.properties) {
        Ok(color_mode) => color_mode,
        Err(()) => {
            return Err(ResolveError::HdrUnsupported);
        },
    };

    // Assemble the update.
    let mut monitors: Vec<apply_monitors_config::Monitor> = Vec::new();
    monitors.push(
        apply_monitors_config::Monitor {
            connector: monitor.id.connector.clone(),
            mode: selected.id.clone(),
            properties: apply_monitors_config::MonitorProperties {
                underscanning: None,
                color_mode,
            },
        },
    );
    Ok(
        ResolvedConfig {
            serial: state.serial,
            logical_monitor: apply_monitors_config::LogicalMonitor {
                x: lm.x,
                y: lm.y,
                scale,
                transform: lm.transform,
                primary: lm.primary,
                monitors,
            },
        },
    )
}

// ---------------------------------------------------------------------------
// Apply transaction
// ---------------------------------------------------------------------------

/// A complete apply call: serial, method, the single logical-monitor update
/// and empty global properties, ready for submission to the service.
#[derive(Clone, Debug)]
pub struct ApplyRequest {
    pub serial: u32,
    pub method: apply_monitors_config::Method,
    pub logical_monitors: Vec<apply_monitors_config::LogicalMonitor>,
    pub properties: apply_monitors_config::Properties,
}

/// Wraps the resolver's output with the method selector: persistent changes
/// are stored to disk, everything else lasts for the session. The global
/// properties are always submitted empty; the serial is echoed unchanged.
pub fn build_apply_request(config: ResolvedConfig, persistent: bool) -> (r: ApplyRequest)
    ensures
        r.serial == config.serial,
        r.method == if persistent {
            apply_monitors_config::Method::Persistent
        } else {
            apply_monitors_config::Method::Temporary
        },
        r.logical_monitors@.len() == 1,
        r.logical_monitors@[0] == config.logical_monitor,
        r.properties.layout_mode is None,
        r.properties.monitors_for_lease is None,
{
    let method = if persistent {
        apply_monitors_config::Method::Persistent
    } else {
        apply_monitors_config::Method::Temporary
    };
    let mut logical_monitors: Vec<apply_monitors_config::LogicalMonitor> = Vec::new();
    logical_monitors.push(config.logical_monitor);
    ApplyRequest {
        serial: config.serial,
        method,
        logical_monitors,
        properties: apply_monitors_config::Properties {
            layout_mode: None,
            monitors_for_lease: None,
        },
    }
}

// ---------------------------------------------------------------------------
// Laws of the resolution pipeline
// ---------------------------------------------------------------------------

/// The refresh-rate target: the explicit target when given, else
/// the current mode's rate.
pub open spec fn spec_target_rate(args: SetArgs, cur: Mode) -> u32 {
    match args.refresh_rate {
        Some(t) => t,
        None => cur.refresh_rate,
    }
}

/// Produces a greatest-mode index over the prefix of length `n`, with
/// everything before it strictly below it.
proof fn first_max_mode_upto(modes: Seq<Mode>, n: int) -> (i: int)
    requires
        0 < n <= modes.len(),
    ensures
        0 <= i < n,
        forall|j: int| 0 <= j < n ==> !spec_mode_lt(modes[i], modes[j]),
        forall|j: int| 0 <= j < i ==> spec_mode_lt(modes[j], modes[i]),
    decreases n,
{
    if n == 1 {
        0
    } else {
        let i0 = first_max_mode_upto(modes, n - 1);
        if spec_mode_lt(modes[i0], modes[n - 1]) {
            n - 1
        } else {
            i0
        }
    }
}

/// A nonempty mode list has a first greatest mode, and `first_max_mode`
/// names it.
pub proof fn lemma_first_max_mode_exists(modes: Seq<Mode>)
    requires
        modes.len() > 0,
    ensures
        is_first_max_mode(modes, first_max_mode(modes)),
{
    let i = first_max_mode_upto(modes, modes.len() as int);
    assert(is_first_max_mode(modes, i));
    assert(exists|x: int| is_first_max_mode(modes, x));
}

/// Produces the first index matching the re-selection, starting from any
/// matching index.
proof fn first_selectable_from(
    modes: Seq<Mode>,
    w: u32,
    h: u32,
    rr: int,
    variable: bool,
    j: int,
) -> (i: int)
    requires
        0 <= j < modes.len(),
        mode_selectable(modes[j], w, h, rr, variable),
    ensures
        is_first_selectable(modes, w, h, rr, variable, i),
    decreases j,
{
    if forall|k: int| 0 <= k < j ==> !mode_selectable(modes[k], w, h, rr, variable) {
        j
    } else {
        let k = choose|k: int| 0 <= k < j && mode_selectable(modes[k], w, h, rr, variable);
        first_selectable_from(modes, w, h, rr, variable, k)
    }
}

/// When some mode matches the re-selection, `first_selectable` names the
/// first one.
pub proof fn lemma_first_selectable_exists(modes: Seq<Mode>, w: u32, h: u32, rr: int, variable: bool)
    requires
        exists_selectable(modes, w, h, rr, variable),
    ensures
        is_first_selectable(modes, w, h, rr, variable, first_selectable(modes, w, h, rr, variable)),
{
    let j = choose|j: int| 0 <= j < modes.len() && mode_selectable(modes[j], w, h, rr, variable);
    let i = first_selectable_from(modes, w, h, rr, variable, j);
    assert(exists|x: int| is_first_selectable(modes, w, h, rr, variable, x));
}

/// Produces a rate satisfying the closest-rate selection over the prefix of
/// length `n`, given some mode at the resolution within that prefix.
proof fn closest_rate_upto(modes: Seq<Mode>, w: u32, h: u32, t: u32, n: int) -> (r: u32)
    requires
        0 < n <= modes.len(),
        exists|i: int| 0 <= i < n && mode_at(modes[i], w, h),
    ensures
        exists|i: int| 0 <= i < n && mode_at(modes[i], w, h) && modes[i].refresh_rate == r,
        forall|i: int| 0 <= i < n && mode_at(modes[i], w, h) ==> abs_diff(
            modes[i].refresh_rate as int,
            t as int,
        ) > abs_diff(r as int, t as int) || (abs_diff(modes[i].refresh_rate as int, t as int)
            == abs_diff(r as int, t as int) && modes[i].refresh_rate <= r),
    decreases n,
{
    if mode_at(modes[n - 1], w, h) {
        let last = modes[n - 1].refresh_rate;
        if n == 1 || (forall|i: int| 0 <= i < n - 1 ==> !mode_at(modes[i], w, h)) {
            last
        } else {
            let r0 = closest_rate_upto(modes, w, h, t, n - 1);
            if abs_diff(last as int, t as int) < abs_diff(r0 as int, t as int) || (abs_diff(
                last as int,
                t as int,
            ) == abs_diff(r0 as int, t as int) && last > r0) {
                last
            } else {
                r0
            }
        }
    } else {
        closest_rate_upto(modes, w, h, t, n - 1)
    }
}

/// When some mode drives the resolution, a closest rate to the target
/// exists.
pub proof fn lemma_closest_rate_exists(modes: Seq<Mode>, w: u32, h: u32, t: u32)
    requires
        exists_mode_at(modes, w, h),
    ensures
        exists|r: u32| is_closest_rate(modes, w, h, t, r),
{
    let r = closest_rate_upto(modes, w, h, t, modes.len() as int);
    assert(is_closest_rate(modes, w, h, t, r));
}

/// Law: locating fails with `UnknownConnector` exactly when no monitor of
/// the snapshot answers to the connector; for a present connector, locating
/// fails with `MonitorNotActive` exactly when no logical monitor references
/// it. Together: the locate steps succeed if and only if the monitor is
/// referenced by some logical monitor's monitor set.
pub proof fn lemma_locate(state: Response, args: SetArgs)
    ensures
        spec_resolve_outcome(state, args) == Err::<(), ResolveError>(
            ResolveError::UnknownConnector,
        ) <==> no_monitor_match(state.monitors@, args.connector@),
        !no_monitor_match(state.monitors@, args.connector@) ==> (spec_resolve_outcome(state, args)
            == Err::<(), ResolveError>(ResolveError::MonitorNotActive) <==> no_lm_match(
            state.logical_monitors@,
            args.connector@,
        )),
{
}

/// Law: a rate satisfying the closest-rate selection minimizes the absolute
/// distance to the target over every mode at the resolution.
pub proof fn lemma_closest_rate_minimizes(
    modes: Seq<Mode>,
    w: u32,
    h: u32,
    t: u32,
    r: u32,
    i: int,
)
    requires
        is_closest_rate(modes, w, h, t, r),
        0 <= i < modes.len(),
        mode_at(modes[i], w, h),
    ensures
        abs_diff(r as int, t as int) <= abs_diff(modes[i].refresh_rate as int, t as int),
{
}

/// Law: when the intent names no maximum-rate shortcut and resolution
/// succeeds, the resolved refresh rate minimizes the absolute distance to
/// the target rate over every mode at the resolved resolution.
pub proof fn lemma_resolved_rate_closest(state: Response, args: SetArgs, j: int)
    requires
        !args.max_refresh_rate,
        spec_resolve_outcome(state, args) is Ok,
        0 <= j < located_monitor(state, args).modes@.len(),
        mode_at(
            located_monitor(state, args).modes@[j],
            resolved_resolution(state, args).0,
            resolved_resolution(state, args).1,
        ),
    ensures
        abs_diff(
            resolved_rate(state, args) as int,
            spec_target_rate(args, located_current_mode(state, args)) as int,
        ) <= abs_diff(
            located_monitor(state, args).modes@[j].refresh_rate as int,
            spec_target_rate(args, located_current_mode(state, args)) as int,
        ),
{
    let modes = located_monitor(state, args).modes@;
    let res = resolved_resolution(state, args);
    let t = spec_target_rate(args, located_current_mode(state, args));
    lemma_closest_rate_exists(modes, res.0, res.1, t);
    let r0 = choose|r: u32| is_closest_rate(modes, res.0, res.1, t, r);
    assert(is_selected_rate(modes, res.0, res.1, args, located_current_mode(state, args), r0));
    assert(exists|r: u32|
        is_selected_rate(modes, res.0, res.1, args, located_current_mode(state, args), r));
    lemma_closest_rate_minimizes(modes, res.0, res.1, t, resolved_rate(state, args), j);
}

/// Law: on exact rate ties the resolver prefers fixed refresh: when
/// variable refresh was not asked for and resolution succeeds, the resolved
/// mode is a fixed-refresh one.
pub proof fn lemma_ties_prefer_fixed(state: Response, args: SetArgs)
    requires
        spec_resolve_outcome(state, args) is Ok,
        args.vrr != Some(true),
    ensures
        !spec_is_variable(resolved_mode(state, args)),
{
    let modes = located_monitor(state, args).modes@;
    let res = resolved_resolution(state, args);
    let rr = spec_round_rate(resolved_rate(state, args) as int);
    lemma_first_selectable_exists(modes, res.0, res.1, rr, false);
}

/// Law: a first greatest mode's (width, height) dominates every other
/// mode's under width-then-height comparison.
pub proof fn lemma_max_mode_dominates(modes: Seq<Mode>, i: int, j: int)
    requires
        is_first_max_mode(modes, i),
        0 <= j < modes.len(),
    ensures
        modes[j].width < modes[i].width || (modes[j].width == modes[i].width && modes[j].height
            <= modes[i].height),
{
}

/// Law: with the maximum resolution asked for and the monitor located and
/// current, the resolved resolution dominates every mode's (width, height)
/// under width-then-height comparison.
pub proof fn lemma_max_resolution_dominates(state: Response, args: SetArgs, j: int)
    requires
        args.max_resolution,
        !no_monitor_match(state.monitors@, args.connector@),
        !no_current_mode(located_monitor(state, args).modes@),
        0 <= j < located_monitor(state, args).modes@.len(),
    ensures
        located_monitor(state, args).modes@[j].width < resolved_resolution(state, args).0 || (
        located_monitor(state, args).modes@[j].width == resolved_resolution(state, args).0
            && located_monitor(state, args).modes@[j].height <= resolved_resolution(
            state,
            args,
        ).1),
{
    let modes = located_monitor(state, args).modes@;
    let k = choose|k: int| 0 <= k < modes.len() && is_current_mode(modes[k]);
    lemma_first_max_mode_exists(modes);
    lemma_max_mode_dominates(modes, first_max_mode(modes), j);
}

/// Law: requesting HDR on a monitor whose advertised color modes exclude it
/// never resolves, so no apply call is ever assembled. When an earlier step
/// fails, that step's error stands; a resolution that reaches the color
/// step fails with `HdrUnsupported`.
pub proof fn lemma_hdr_unsupported_fails(state: Response, args: SetArgs)
    requires
        args.hdr == Some(true),
        !no_monitor_match(state.monitors@, args.connector@),
        !spec_supports_bt2100(located_monitor(state, args).properties),
    ensures
        !(spec_resolve_outcome(state, args) is Ok),
{
}

/// Law: scale selection is idempotent: when the wanted value itself is in
/// the supported set, the closest pick is exactly that value and its
/// quarter-step check passes.
pub proof fn lemma_scale_idempotent(scales: Seq<u32>, wanted: u32, i: int)
    requires
        scales.contains(wanted),
        is_first_best_scale(scales, wanted as int, i),
    ensures
        scales[i] == wanted,
        spec_quarter(scales[i] as int) == spec_quarter(wanted as int),
{
    let k = choose|k: int| 0 <= k < scales.len() && scales[k] == wanted;
    assert(abs_diff(scales[k] as int, wanted as int) == 0);
}

/// Produces a closest-scale index over the prefix of length `n`, with
/// everything before it strictly farther from the wanted value.
proof fn best_scale_upto(scales: Seq<u32>, wanted: int, n: int) -> (i: int)
    requires
        0 < n <= scales.len(),
    ensures
        0 <= i < n,
        forall|j: int| 0 <= j < n ==> abs_diff(scales[j] as int, wanted) >= abs_diff(
            scales[i] as int,
            wanted,
        ),
        forall|j: int| 0 <= j < i ==> abs_diff(scales[j] as int, wanted) > abs_diff(
            scales[i] as int,
            wanted,
        ),
    decreases n,
{
    if n == 1 {
        0
    } else {
        let i0 = best_scale_upto(scales, wanted, n - 1);
        if abs_diff(scales[n - 1] as int, wanted) < abs_diff(scales[i0] as int, wanted) {
            n - 1
        } else {
            i0
        }
    }
}

/// A nonempty scale list has a first closest entry, and `first_best_scale`
/// names it.
pub proof fn lemma_first_best_scale_exists(scales: Seq<u32>, wanted: int)
    requires
        scales.len() > 0,
    ensures
        is_first_best_scale(scales, wanted, first_best_scale(scales, wanted)),
{
    let i = best_scale_upto(scales, wanted, scales.len() as int);
    assert(is_first_best_scale(scales, wanted, i));
    assert(exists|x: int| is_first_best_scale(scales, wanted, x));
}

/// Law: resolving with a scale that the selected mode itself supports
/// reproduces exactly that scale. In particular an intent whose scaling
/// percentage is one hundred times the logical monitor's current scale
/// keeps that scale.
pub proof fn lemma_resolved_scale_idempotent(state: Response, args: SetArgs)
    requires
        spec_resolve_outcome(state, args) is Ok,
        0 <= spec_wanted_scale(args, located_logical_monitor(state, args)) <= u32::MAX,
        resolved_mode(state, args).supported_scales@.contains(
            spec_wanted_scale(args, located_logical_monitor(state, args)) as u32,
        ),
    ensures
        resolved_scale(state, args) as int == spec_wanted_scale(
            args,
            located_logical_monitor(state, args),
        ),
{
    let scales = resolved_mode(state, args).supported_scales@;
    let wanted = spec_wanted_scale(args, located_logical_monitor(state, args));
    lemma_first_best_scale_exists(scales, wanted);
    lemma_scale_idempotent(scales, wanted as u32, first_best_scale(scales, wanted));
}

} // verus!
