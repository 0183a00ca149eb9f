//! The computed substance of the two listing commands: a per-monitor
//! overview row, and the catalog of distinct resolutions, refresh rates and
//! scales of one monitor. Rendering is left to the caller.

use vstd::prelude::*;
use crate::display_config::get_current_state::{
    LogicalMonitor, Monitor, MonitorColorMode, RefreshRateMode, Response, round_rate,
    spec_is_variable,
    spec_round_rate,
};
use crate::resolver::{
    find_current_mode, find_logical_monitor, first_current_mode, first_lm_match,
    is_first_current_mode, is_first_lm_match, no_current_mode, no_lm_match, quarter,
    spec_quarter, spec_supports_bt2100, select_color_mode,
};

verus! {

/// Whether a monitor feature is currently enabled, merely supported, or not
/// available.
#[derive(Clone, Copy, Debug, PartialEq, Eq, Structural)]
pub enum SupportStatus {
    Enabled,
    Supported,
    No,
}

/// The status a (supported, enabled) pair denotes.
pub open spec fn spec_status(supported: bool, enabled: bool) -> SupportStatus {
    if supported && enabled {
        SupportStatus::Enabled
    } else if supported {
        SupportStatus::Supported
    } else {
        SupportStatus::No
    }
}

/// One row of the monitor overview.
#[derive(Clone, Debug)]
pub struct MonitorSummary {
    /// Connector name.
    pub connector: String,
    /// Vendor name.
    pub vendor: String,
    /// Product name.
    pub product: String,
    /// Current resolution; absent when no mode is flagged current.
    pub resolution: Option<(u32, u32)>,
    /// Current refresh rate rounded to hertz; absent when no mode is
    /// flagged current.
    pub refresh_rate: Option<u32>,
    /// Scale of the logical monitor showing this monitor, in percent,
    /// truncated; absent when the monitor is inactive.
    pub scaling_percent: Option<u32>,
    /// Variable-refresh-rate status.
    pub vrr: SupportStatus,
    /// HDR status.
    pub hdr: SupportStatus,
}

/// Some mode of the monitor has a variable refresh rate.
pub open spec fn spec_vrr_supported(m: Monitor) -> bool {
    exists|i: int| 0 <= i < m.modes@.len() && spec_is_variable(m.modes@[i])
}

/// The current mode, if any, has a variable refresh rate.
pub open spec fn spec_vrr_enabled(m: Monitor) -> bool {
    &&& !no_current_mode(m.modes@)
    &&& spec_is_variable(m.modes@[first_current_mode(m.modes@)])
}

/// The monitor's current color mode is HDR.
pub open spec fn spec_hdr_enabled(m: Monitor) -> bool {
    m.properties.color_mode == Some(MonitorColorMode::BT2100)
}

/// The current mode's resolution, absent when none is flagged current.
pub open spec fn spec_current_resolution(m: Monitor) -> Option<(u32, u32)> {
    if no_current_mode(m.modes@) {
        None
    } else {
        let c = m.modes@[first_current_mode(m.modes@)];
        Some((c.width, c.height))
    }
}

/// The current mode's rounded refresh rate, absent when none is flagged
/// current.
pub open spec fn spec_current_rounded_rate(m: Monitor) -> Option<u32> {
    if no_current_mode(m.modes@) {
        None
    } else {
        let c = m.modes@[first_current_mode(m.modes@)];
        Some(spec_round_rate(c.refresh_rate as int) as u32)
    }
}

/// The scale of the logical monitor showing the connector, in truncated
/// percent; absent when none does.
pub open spec fn spec_monitor_scaling(lms: Seq<LogicalMonitor>, c: Seq<char>) -> Option<u32> {
    if no_lm_match(lms, c) {
        None
    } else {
        Some((lms[first_lm_match(lms, c)].scale / 10) as u32)
    }
}

/// Computes one overview row for a monitor: its identity, what it currently
/// shows, and whether variable refresh rate and HDR are enabled, supported
/// or absent.
pub fn monitor_summary(monitor: &Monitor, lms: &Vec<LogicalMonitor>) -> (r: MonitorSummary)
    ensures
        r.connector@ == monitor.id.connector@,
        r.vendor@ == monitor.id.vendor@,
        r.product@ == monitor.id.product@,
        r.resolution == spec_current_resolution(*monitor),
        r.refresh_rate == spec_current_rounded_rate(*monitor),
        r.scaling_percent == spec_monitor_scaling(lms@, monitor.id.connector@),
        r.vrr == spec_status(spec_vrr_supported(*monitor), spec_vrr_enabled(*monitor)),
        r.hdr == spec_status(spec_supports_bt2100(monitor.properties), spec_hdr_enabled(*monitor)),
{
    let scaling_percent = match find_logical_monitor(lms, &monitor.id.connector) {
        Some(i) => {
            proof {
                assert(first_lm_match(lms@, monitor.id.connector@) == i as int) by {
                    assert(exists|x: int| is_first_lm_match(lms@, monitor.id.connector@, x));
                };
            }
            Some(lms[i].scale / 10)
        },
        None => None,
    };
    let (resolution, refresh_rate, vrr_enabled) = match find_current_mode(&monitor.modes) {
        Some(i) => {
            proof {
                assert(first_current_mode(monitor.modes@) == i as int) by {
                    assert(exists|x: int| is_first_current_mode(monitor.modes@, x));
                };
            }
            let m = &monitor.modes[i];
            let is_var = match m.properties.refresh_rate_mode {
                Some(RefreshRateMode::Variable) => true,
                _ => false,
            };
            (Some((m.width, m.height)), Some(round_rate(m.refresh_rate)), is_var)
        },
        None => (None, None, false),
    };
    let mut vrr_supported = false;
    let mut i: usize = 0;
    while i < monitor.modes.len()
        invariant
            i <= monitor.modes.len(),
            vrr_supported == exists|j: int| 0 <= j < i && spec_is_variable(monitor.modes@[j]),
        decreases monitor.modes.len() - i,
    {
        match monitor.modes[i].properties.refresh_rate_mode {
            Some(RefreshRateMode::Variable) => {
                vrr_supported = true;
            },
            _ => {},
        }
        i = i + 1;
    }
    let hdr_supported = match select_color_mode(Some(true), &monitor.properties) {
        Ok(_) => true,
        Err(()) => false,
    };
    let hdr_enabled = match monitor.properties.color_mode {
        Some(MonitorColorMode::BT2100) => true,
        _ => false,
    };
    MonitorSummary {
        connector: monitor.id.connector.clone(),
        vendor: monitor.id.vendor.clone(),
        product: monitor.id.product.clone(),
        resolution,
        refresh_rate,
        scaling_percent,
        vrr: if vrr_supported && vrr_enabled {
            SupportStatus::Enabled
        } else if vrr_supported {
            SupportStatus::Supported
        } else {
            SupportStatus::No
        },
        hdr: if hdr_supported && hdr_enabled {
            SupportStatus::Enabled
        } else if hdr_supported {
            SupportStatus::Supported
        } else {
            SupportStatus::No
        },
    }
}

/// Computes the overview rows of all monitors of a snapshot, in snapshot
/// order.
pub fn monitor_summaries(state: &Response) -> (r: Vec<MonitorSummary>)
    ensures
        r@.len() == state.monitors@.len(),
        forall|i: int| #![trigger r@[i]] 0 <= i < r@.len() ==> {
            let m = state.monitors@[i];
            &&& r@[i].connector@ == m.id.connector@
            &&& r@[i].vendor@ == m.id.vendor@
            &&& r@[i].product@ == m.id.product@
            &&& r@[i].resolution == spec_current_resolution(m)
            &&& r@[i].refresh_rate == spec_current_rounded_rate(m)
            &&& r@[i].scaling_percent == spec_monitor_scaling(
                state.logical_monitors@,
                m.id.connector@,
            )
            &&& r@[i].vrr == spec_status(spec_vrr_supported(m), spec_vrr_enabled(m))
            &&& r@[i].hdr == spec_status(spec_supports_bt2100(m.properties), spec_hdr_enabled(m))
        },
{
    let mut rows: Vec<MonitorSummary> = Vec::new();
    let mut i: usize = 0;
    while i < state.monitors.len()
        invariant
            i <= state.monitors@.len(),
            rows@.len() == i,
            forall|k: int| #![trigger rows@[k]] 0 <= k < i ==> {
                let m = state.monitors@[k];
                &&& rows@[k].connector@ == m.id.connector@
                &&& rows@[k].vendor@ == m.id.vendor@
                &&& rows@[k].product@ == m.id.product@
                &&& rows@[k].resolution == spec_current_resolution(m)
                &&& rows@[k].refresh_rate == spec_current_rounded_rate(m)
                &&& rows@[k].scaling_percent == spec_monitor_scaling(
                    state.logical_monitors@,
                    m.id.connector@,
                )
                &&& rows@[k].vrr == spec_status(spec_vrr_supported(m), spec_vrr_enabled(m))
                &&& rows@[k].hdr == spec_status(
                    spec_supports_bt2100(m.properties),
                    spec_hdr_enabled(m),
                )
            },
        decreases state.monitors.len() - i,
    {
        let row = monitor_summary(&state.monitors[i], &state.logical_monitors);
        rows.push(row);
        i = i + 1;
    }
    rows
}

// ---------------------------------------------------------------------------
// The mode catalog of one monitor
// ---------------------------------------------------------------------------

/// Strictly descending order, so also free of duplicates.
pub open spec fn sorted_desc_u32(s: Seq<u32>) -> bool {
    forall|i: int, j: int| 0 <= i < j < s.len() ==> s[i] > s[j]
}

/// Strictly ascending order, so also free of duplicates.
pub open spec fn sorted_asc_u32(s: Seq<u32>) -> bool {
    forall|i: int, j: int| 0 <= i < j < s.len() ==> s[i] < s[j]
}

/// Resolution pairs ordered by width, then height.
pub open spec fn pair_lt(a: (u32, u32), b: (u32, u32)) -> bool {
    a.0 < b.0 || (a.0 == b.0 && a.1 < b.1)
}

/// Strictly descending by width-then-height, so also free of duplicates.
pub open spec fn sorted_desc_pairs(s: Seq<(u32, u32)>) -> bool {
    forall|i: int, j: int| 0 <= i < j < s.len() ==> pair_lt(s[j], s[i])
}

/// The position a value belongs at in a strictly descending list: the
/// first index not above it.
fn desc_insert_pos_u32(v: &Vec<u32>, x: u32) -> (i: usize)
    ensures
        i <= v@.len(),
        forall|j: int| 0 <= j < i ==> v@[j] > x,
        i < v@.len() ==> v@[i as int] <= x,
{
    let mut i: usize = 0;
    while i < v.len()
        invariant
            i <= v@.len(),
            forall|j: int| 0 <= j < i ==> v@[j] > x,
        decreases v.len() - i,
    {
        if v[i] <= x {
            return i;
        }
        i = i + 1;
    }
    i
}

/// The position a value belongs at in a strictly ascending list: the first
/// index not below it.
fn asc_insert_pos_u32(v: &Vec<u32>, x: u32) -> (i: usize)
    ensures
        i <= v@.len(),
        forall|j: int| 0 <= j < i ==> v@[j] < x,
        i < v@.len() ==> v@[i as int] >= x,
{
    let mut i: usize = 0;
    while i < v.len()
        invariant
            i <= v@.len(),
            forall|j: int| 0 <= j < i ==> v@[j] < x,
        decreases v.len() - i,
    {
        if v[i] >= x {
            return i;
        }
        i = i + 1;
    }
    i
}

/// The position a resolution belongs at in a list strictly descending by
/// width-then-height: the first index not above it.
fn desc_insert_pos_pair(v: &Vec<(u32, u32)>, x: (u32, u32)) -> (i: usize)
    ensures
        i <= v@.len(),
        forall|j: int| 0 <= j < i ==> pair_lt(x, v@[j]),
        i < v@.len() ==> !pair_lt(x, v@[i as int]),
{
    let mut i: usize = 0;
    while i < v.len()
        invariant
            i <= v@.len(),
            forall|j: int| 0 <= j < i ==> pair_lt(x, v@[j]),
        decreases v.len() - i,
    {
        let (a, b) = v[i];
        if !(x.0 < a || (x.0 == a && x.1 < b)) {
            return i;
        }
        i = i + 1;
    }
    i
}

/// Inserts a value into a strictly descending list, keeping it strictly
/// descending; a value already present is left alone.
fn insert_sorted_desc_u32(v: &mut Vec<u32>, x: u32)
    requires
        sorted_desc_u32(old(v)@),
    ensures
        sorted_desc_u32(final(v)@),
        forall|y: u32| final(v)@.contains(y) <==> (old(v)@.contains(y) || y == x),
{
    let i = desc_insert_pos_u32(v, x);
    if i < v.len() && v[i] == x {
        proof {
            assert(v@.contains(x));
        }
        return ;
    }
    proof {
        old(v)@.insert_ensures(i as int, x);
    }
    v.insert(i, x);
    proof {
        assert forall|a: int, b: int| 0 <= a < b < final(v)@.len() implies final(v)@[a]
            > final(v)@[b] by {
            if a == i {
                assert(final(v)@[b] == old(v)@[b - 1]);
            } else if b == i {
                assert(final(v)@[a] == old(v)@[a]);
            }
        }
        assert forall|y: u32| final(v)@.contains(y) implies (old(v)@.contains(y) || y == x) by {
            let k = choose|k: int| 0 <= k < final(v)@.len() && final(v)@[k] == y;
            if k < i {
                assert(old(v)@[k] == y);
            } else if k > i {
                assert(old(v)@[k - 1] == y);
            }
        }
        assert forall|y: u32| (old(v)@.contains(y) || y == x) implies final(v)@.contains(y) by {
            if y == x {
                assert(final(v)@[i as int] == y);
            } else {
                let k = choose|k: int| 0 <= k < old(v)@.len() && old(v)@[k] == y;
                if k < i {
                    assert(final(v)@[k] == y);
                } else {
                    assert(final(v)@[k + 1] == y);
                }
            }
        }
    }
}

/// Inserts a value into a strictly ascending list, keeping it strictly
/// ascending; a value already present is left alone.
fn insert_sorted_asc_u32(v: &mut Vec<u32>, x: u32)
    requires
        sorted_asc_u32(old(v)@),
    ensures
        sorted_asc_u32(final(v)@),
        forall|y: u32| final(v)@.contains(y) <==> (old(v)@.contains(y) || y == x),
{
    let i = asc_insert_pos_u32(v, x);
    if i < v.len() && v[i] == x {
        proof {
            assert(v@.contains(x));
        }
        return ;
    }
    proof {
        old(v)@.insert_ensures(i as int, x);
    }
    v.insert(i, x);
    proof {
        assert forall|a: int, b: int| 0 <= a < b < final(v)@.len() implies final(v)@[a]
            < final(v)@[b] by {
            if a == i {
                assert(final(v)@[b] == old(v)@[b - 1]);
            } else if b == i {
                assert(final(v)@[a] == old(v)@[a]);
            }
        }
        assert forall|y: u32| final(v)@.contains(y) implies (old(v)@.contains(y) || y == x) by {
            let k = choose|k: int| 0 <= k < final(v)@.len() && final(v)@[k] == y;
            if k < i {
                assert(old(v)@[k] == y);
            } else if k > i {
                assert(old(v)@[k - 1] == y);
            }
        }
        assert forall|y: u32| (old(v)@.contains(y) || y == x) implies final(v)@.contains(y) by {
            if y == x {
                assert(final(v)@[i as int] == y);
            } else {
                let k = choose|k: int| 0 <= k < old(v)@.len() && old(v)@[k] == y;
                if k < i {
                    assert(final(v)@[k] == y);
                } else {
                    assert(final(v)@[k + 1] == y);
                }
            }
        }
    }
}

/// Inserts a resolution into a list strictly descending by
/// width-then-height, keeping it so; a pair already present is left alone.
fn insert_sorted_desc_pair(v: &mut Vec<(u32, u32)>, x: (u32, u32))
    requires
        sorted_desc_pairs(old(v)@),
    ensures
        sorted_desc_pairs(final(v)@),
        forall|y: (u32, u32)| final(v)@.contains(y) <==> (old(v)@.contains(y) || y == x),
{
    let i = desc_insert_pos_pair(v, x);
    if i < v.len() {
        let (a, b) = v[i];
        if a == x.0 && b == x.1 {
            proof {
                assert(v@[i as int] == x);
                assert(v@.contains(x));
            }
            return ;
        }
        proof {
            assert(v@[i as int] == (a, b));
            assert(pair_lt(v@[i as int], x));
        }
    }
    proof {
        old(v)@.insert_ensures(i as int, x);
    }
    v.insert(i, x);
    proof {
        assert forall|a: int, b: int| 0 <= a < b < final(v)@.len() implies pair_lt(
            final(v)@[b],
            final(v)@[a],
        ) by {
            if b < i {
                assert(final(v)@[a] == old(v)@[a]);
                assert(final(v)@[b] == old(v)@[b]);
            } else if a == i {
                assert(final(v)@[b] == old(v)@[b - 1]);
                assert(i < old(v)@.len());
                assert(pair_lt(old(v)@[i as int], x));
                if b - 1 > i {
                    assert(pair_lt(old(v)@[b - 1], old(v)@[i as int]));
                }
            } else if b == i {
                assert(final(v)@[a] == old(v)@[a]);
                assert(pair_lt(x, old(v)@[a]));
            } else if a < i {
                assert(final(v)@[a] == old(v)@[a]);
                assert(final(v)@[b] == old(v)@[b - 1]);
                assert(a < b - 1);
            } else {
                assert(final(v)@[a] == old(v)@[a - 1]);
                assert(final(v)@[b] == old(v)@[b - 1]);
            }
        }
        assert forall|y: (u32, u32)| final(v)@.contains(y) implies (old(v)@.contains(y) || y == x)
            by {
            let k = choose|k: int| 0 <= k < final(v)@.len() && final(v)@[k] == y;
            if k < i {
                assert(old(v)@[k] == y);
            } else if k > i {
                assert(old(v)@[k - 1] == y);
            }
        }
        assert forall|y: (u32, u32)| (old(v)@.contains(y) || y == x) implies final(v)@.contains(y)
            by {
            if y == x {
                assert(final(v)@[i as int] == y);
            } else {
                let k = choose|k: int| 0 <= k < old(v)@.len() && old(v)@[k] == y;
                if k < i {
                    assert(final(v)@[k] == y);
                } else {
                    assert(final(v)@[k + 1] == y);
                }
            }
        }
    }
}

/// The percent value a supported scale is listed as: the scale rounded to
/// the nearest quarter step, as a percentage.
pub open spec fn spec_quarter_percent(scale: u32) -> u32 {
    (25 * spec_quarter(scale as int)) as u32
}

/// What one monitor offers: its distinct resolutions, descending; the
/// distinct rounded refresh rates, descending; and the distinct supported
/// scales rounded to quarter steps, ascending, in percent.
#[derive(Clone, Debug)]
pub struct ModeCatalog {
    /// Distinct (width, height) pairs, strictly descending by
    /// width-then-height.
    pub resolutions: Vec<(u32, u32)>,
    /// Distinct refresh rates rounded to hertz, strictly descending.
    pub refresh_rates: Vec<u32>,
    /// Distinct quarter-rounded scales in percent, strictly ascending.
    pub scale_percents: Vec<u32>,
}

/// Computes the catalog of one monitor: every resolution, rounded refresh
/// rate and quarter-rounded scale that occurs in its modes, each exactly
/// once, sorted.
pub fn mode_catalog(monitor: &Monitor) -> (r: ModeCatalog)
    ensures
        sorted_desc_pairs(r.resolutions@),
        forall|p: (u32, u32)| r.resolutions@.contains(p) <==> exists|i: int|
            0 <= i < monitor.modes@.len() && monitor.modes@[i].width == p.0
                && monitor.modes@[i].height == p.1,
        sorted_desc_u32(r.refresh_rates@),
        forall|z: u32| r.refresh_rates@.contains(z) <==> exists|i: int|
            0 <= i < monitor.modes@.len() && spec_round_rate(monitor.modes@[i].refresh_rate as int)
                == z,
        sorted_asc_u32(r.scale_percents@),
        forall|q: u32| r.scale_percents@.contains(q) <==> exists|i: int, j: int|
            0 <= i < monitor.modes@.len() && 0 <= j < monitor.modes@[i].supported_scales@.len()
                && spec_quarter_percent(monitor.modes@[i].supported_scales@[j]) == q,
{
    let mut resolutions: Vec<(u32, u32)> = Vec::new();
    let mut refresh_rates: Vec<u32> = Vec::new();
    let mut scale_percents: Vec<u32> = Vec::new();
    let mut i: usize = 0;
    while i < monitor.modes.len()
        invariant
            i <= monitor.modes@.len(),
            sorted_desc_pairs(resolutions@),
            forall|p: (u32, u32)| resolutions@.contains(p) <==> exists|k: int|
                0 <= k < i && monitor.modes@[k].width == p.0 && monitor.modes@[k].height == p.1,
            sorted_desc_u32(refresh_rates@),
            forall|z: u32| refresh_rates@.contains(z) <==> exists|k: int|
                0 <= k < i && spec_round_rate(monitor.modes@[k].refresh_rate as int) == z,
            sorted_asc_u32(scale_percents@),
            forall|q: u32| scale_percents@.contains(q) <==> exists|k: int, j: int|
                0 <= k < i && 0 <= j < monitor.modes@[k].supported_scales@.len()
                    && spec_quarter_percent(monitor.modes@[k].supported_scales@[j]) == q,
        decreases monitor.modes.len() - i,
    {
        let mode = &monitor.modes[i];
        insert_sorted_desc_pair(&mut resolutions, (mode.width, mode.height));
        insert_sorted_desc_u32(&mut refresh_rates, round_rate(mode.refresh_rate));
        let mut j: usize = 0;
        while j < mode.supported_scales.len()
            invariant
                i < monitor.modes@.len(),
                mode == monitor.modes@[i as int],
                j <= mode.supported_scales@.len(),
                sorted_asc_u32(scale_percents@),
                forall|q: u32| scale_percents@.contains(q) <==> (exists|k: int, l: int|
                    0 <= k < i && 0 <= l < monitor.modes@[k].supported_scales@.len()
                        && spec_quarter_percent(monitor.modes@[k].supported_scales@[l]) == q)
                    || (exists|l: int|
                    0 <= l < j && spec_quarter_percent(mode.supported_scales@[l]) == q),
            decreases mode.supported_scales.len() - j,
        {
            let scale = mode.supported_scales[j];
            let q64 = quarter(scale as u64);
            proof {
                assert(q64 <= 17179869);
            }
            let percent: u32 = (25 * q64) as u32;
            insert_sorted_asc_u32(&mut scale_percents, percent);
            j = j + 1;
        }
        i = i + 1;
    }
    ModeCatalog { resolutions, refresh_rates, scale_percents }
}

} // verus!
