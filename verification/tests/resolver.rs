use displayconfig_mutter::cli::SetArgs;
use displayconfig_mutter::display_config::get_current_state::{
    LogicalMonitor, LogicalMonitorProperties, LogicalMonitorTransform, Mode, ModeProperties,
    Monitor, MonitorColorMode, MonitorId, MonitorProperties, Properties, RefreshRateMode, Response,
};
use displayconfig_mutter::display_config::apply_monitors_config;
use displayconfig_mutter::resolver::{build_apply_request, resolve, ResolveError};

fn mode(id: &str, w: u32, h: u32, mhz: u32, scales: &[u32], current: bool, rrm: Option<RefreshRateMode>) -> Mode {
    Mode {
        id: id.to_string(),
        width: w,
        height: h,
        refresh_rate: mhz,
        preferred_scale: 1000,
        supported_scales: scales.to_vec(),
        properties: ModeProperties {
            is_current: if current { Some(true) } else { None },
            is_preferred: None,
            is_interlaced: None,
            refresh_rate_mode: rrm,
        },
    }
}

fn monitor_id(connector: &str) -> MonitorId {
    MonitorId {
        connector: connector.to_string(),
        vendor: "ACME".to_string(),
        product: "Panel".to_string(),
        serial: "123".to_string(),
    }
}

fn monitor(connector: &str, modes: Vec<Mode>, color_mode: Option<MonitorColorMode>, supported: Option<Vec<MonitorColorMode>>) -> Monitor {
    Monitor {
        id: monitor_id(connector),
        modes,
        properties: MonitorProperties {
            width_mm: Some(600),
            height_mm: Some(340),
            is_underscanning: None,
            max_screen_size: None,
            is_builtin: None,
            display_name: Some("Test panel".to_string()),
            privacy_screen_state: None,
            min_refresh_rate: None,
            is_for_lease: None,
            color_mode,
            supported_color_modes: supported,
        },
    }
}

fn logical(connector: &str, scale: u32) -> LogicalMonitor {
    LogicalMonitor {
        x: 0,
        y: 0,
        scale,
        transform: LogicalMonitorTransform::Normal,
        primary: true,
        monitors: vec![monitor_id(connector)],
        properties: LogicalMonitorProperties {},
    }
}

fn state(monitors: Vec<Monitor>, logical_monitors: Vec<LogicalMonitor>) -> Response {
    Response {
        serial: 7,
        monitors,
        logical_monitors,
        properties: Properties {
            layout_mode: None,
            supports_changing_layout_mode: None,
            global_scale_required: None,
        },
    }
}

fn intent(connector: &str) -> SetArgs {
    SetArgs {
        connector: connector.to_string(),
        persistent: false,
        resolution: None,
        max_resolution: false,
        refresh_rate: None,
        max_refresh_rate: false,
        vrr: None,
        scaling: None,
        hdr: None,
    }
}

/// The monitor of the end-to-end scenario: a 1080p current mode and a 4k
/// mode, both fixed refresh.
fn dp1_state() -> Response {
    let m = monitor(
        "DP-1",
        vec![
            mode("1080p60", 1920, 1080, 60_000, &[1000, 1250], true, Some(RefreshRateMode::Fixed)),
            mode("4k60", 3840, 2160, 60_000, &[1000, 1500, 2000], false, Some(RefreshRateMode::Fixed)),
        ],
        None,
        None,
    );
    state(vec![m], vec![logical("DP-1", 1000)])
}

#[test]
fn max_resolution_selects_largest_mode() {
    let st = dp1_state();
    let mut args = intent("DP-1");
    args.max_resolution = true;
    let cfg = resolve(&st, &args).expect("resolves");
    assert_eq!(cfg.serial, 7);
    assert_eq!(cfg.logical_monitor.monitors.len(), 1);
    assert_eq!(cfg.logical_monitor.monitors[0].mode, "4k60");
    assert_eq!(cfg.logical_monitor.monitors[0].connector, "DP-1");
    // The current logical scale 1.0 quantized against [1.0, 1.5, 2.0].
    assert_eq!(cfg.logical_monitor.scale, 1000);
    // No color-mode list advertised: the property is omitted.
    assert_eq!(cfg.logical_monitor.monitors[0].properties.color_mode, None);
    assert_eq!(cfg.logical_monitor.monitors[0].properties.underscanning, None);
}

#[test]
fn vrr_without_variable_mode_fails() {
    let st = dp1_state();
    let mut args = intent("DP-1");
    args.resolution = Some((1920, 1080));
    args.vrr = Some(true);
    assert_eq!(resolve(&st, &args).unwrap_err(), ResolveError::VrrUnavailable);
}

#[test]
fn vrr_selects_variable_sibling_mode() {
    let m = monitor(
        "DP-1",
        vec![
            mode("fixed60", 1920, 1080, 59_980, &[1000], true, Some(RefreshRateMode::Fixed)),
            mode("vrr60", 1920, 1080, 60_020, &[1000], false, Some(RefreshRateMode::Variable)),
        ],
        None,
        None,
    );
    let st = state(vec![m], vec![logical("DP-1", 1000)]);
    let mut args = intent("DP-1");
    args.vrr = Some(true);
    let cfg = resolve(&st, &args).expect("resolves");
    assert_eq!(cfg.logical_monitor.monitors[0].mode, "vrr60");
}

#[test]
fn vrr_off_reselects_fixed_mode() {
    let m = monitor(
        "DP-1",
        vec![
            mode("vrr60", 1920, 1080, 60_020, &[1000], true, Some(RefreshRateMode::Variable)),
            mode("fixed60", 1920, 1080, 59_980, &[1000], false, Some(RefreshRateMode::Fixed)),
        ],
        None,
        None,
    );
    let st = state(vec![m], vec![logical("DP-1", 1000)]);
    let mut args = intent("DP-1");
    args.vrr = Some(false);
    let cfg = resolve(&st, &args).expect("resolves");
    assert_eq!(cfg.logical_monitor.monitors[0].mode, "fixed60");
}

#[test]
fn unknown_connector_fails() {
    let st = dp1_state();
    let args = intent("HDMI-2");
    assert_eq!(resolve(&st, &args).unwrap_err(), ResolveError::UnknownConnector);
}

#[test]
fn disabled_monitor_fails() {
    let m = monitor(
        "DP-2",
        vec![mode("m", 1920, 1080, 60_000, &[1000], true, None)],
        None,
        None,
    );
    // DP-2 exists but no logical monitor references it.
    let st = state(vec![m], vec![logical("DP-1", 1000)]);
    let args = intent("DP-2");
    assert_eq!(resolve(&st, &args).unwrap_err(), ResolveError::MonitorNotActive);
}

#[test]
fn missing_current_mode_fails() {
    let m = monitor(
        "DP-1",
        vec![mode("m", 1920, 1080, 60_000, &[1000], false, None)],
        None,
        None,
    );
    let st = state(vec![m], vec![logical("DP-1", 1000)]);
    let args = intent("DP-1");
    assert_eq!(resolve(&st, &args).unwrap_err(), ResolveError::NoCurrentMode);
}

#[test]
fn absent_resolution_fails() {
    let st = dp1_state();
    let mut args = intent("DP-1");
    args.resolution = Some((800, 600));
    assert_eq!(resolve(&st, &args).unwrap_err(), ResolveError::NoMatchingMode);
}

#[test]
fn lone_variable_mode_breaks_pairing_invariant() {
    let m = monitor(
        "DP-1",
        vec![mode("vrr-only", 1920, 1080, 60_000, &[1000], true, Some(RefreshRateMode::Variable))],
        None,
        None,
    );
    let st = state(vec![m], vec![logical("DP-1", 1000)]);
    let args = intent("DP-1");
    assert_eq!(resolve(&st, &args).unwrap_err(), ResolveError::InvariantViolation);
}

#[test]
fn closest_refresh_rate_wins() {
    let m = monitor(
        "DP-1",
        vec![
            mode("144", 1920, 1080, 143_856, &[1000], false, Some(RefreshRateMode::Fixed)),
            mode("60", 1920, 1080, 60_000, &[1000], true, Some(RefreshRateMode::Fixed)),
            mode("100", 1920, 1080, 100_000, &[1000], false, Some(RefreshRateMode::Fixed)),
        ],
        None,
        None,
    );
    let st = state(vec![m], vec![logical("DP-1", 1000)]);
    let mut args = intent("DP-1");
    args.refresh_rate = Some(120_000);
    let cfg = resolve(&st, &args).expect("resolves");
    // 143.856 Hz is 23.856 away from 120 Hz, 100 Hz is 20 away.
    assert_eq!(cfg.logical_monitor.monitors[0].mode, "100");
}

#[test]
fn default_refresh_rate_is_the_current_one() {
    let m = monitor(
        "DP-1",
        vec![
            mode("144", 1920, 1080, 144_000, &[1000], false, Some(RefreshRateMode::Fixed)),
            mode("60", 1920, 1080, 60_000, &[1000], true, Some(RefreshRateMode::Fixed)),
        ],
        None,
        None,
    );
    let st = state(vec![m], vec![logical("DP-1", 1000)]);
    let args = intent("DP-1");
    let cfg = resolve(&st, &args).expect("resolves");
    assert_eq!(cfg.logical_monitor.monitors[0].mode, "60");
}

#[test]
fn max_refresh_rate_wins() {
    let m = monitor(
        "DP-1",
        vec![
            mode("60", 1920, 1080, 60_000, &[1000], true, Some(RefreshRateMode::Fixed)),
            mode("144", 1920, 1080, 144_000, &[1000], false, Some(RefreshRateMode::Fixed)),
        ],
        None,
        None,
    );
    let st = state(vec![m], vec![logical("DP-1", 1000)]);
    let mut args = intent("DP-1");
    args.max_refresh_rate = true;
    let cfg = resolve(&st, &args).expect("resolves");
    assert_eq!(cfg.logical_monitor.monitors[0].mode, "144");
}

fn scale_state(scales: &[u32]) -> Response {
    let m = monitor(
        "DP-1",
        vec![mode("m", 1920, 1080, 60_000, scales, true, Some(RefreshRateMode::Fixed))],
        None,
        None,
    );
    state(vec![m], vec![logical("DP-1", 1000)])
}

#[test]
fn scaling_is_idempotent_for_a_supported_scale() {
    // The logical monitor already runs at 1.25 and 125% is asked for again.
    let m = monitor(
        "DP-1",
        vec![mode("m", 1920, 1080, 60_000, &[1000, 1250, 1500], true, None)],
        None,
        None,
    );
    let st = state(vec![m], vec![logical("DP-1", 1250)]);
    let mut args = intent("DP-1");
    args.scaling = Some(125);
    let cfg = resolve(&st, &args).expect("resolves");
    assert_eq!(cfg.logical_monitor.scale, 1250);
    // Leaving the scale out keeps the current one as well.
    let cfg2 = resolve(&st, &intent("DP-1")).expect("resolves");
    assert_eq!(cfg2.logical_monitor.scale, 1250);
}

#[test]
fn scaling_quantizes_to_quarter_steps() {
    let st = scale_state(&[1000, 1250, 1500]);
    // 1.30 sits in the same quarter bucket as the closest scale 1.25.
    let mut args = intent("DP-1");
    args.scaling = Some(130);
    let cfg = resolve(&st, &args).expect("resolves");
    assert_eq!(cfg.logical_monitor.scale, 1250);
}

#[test]
fn scaling_boundary_just_below_quarter_step() {
    // 1.12 rounds down to the 1.0 bucket and 1.0 is the closest scale.
    let st = scale_state(&[1000, 1250, 1500]);
    let mut args = intent("DP-1");
    args.scaling = Some(112);
    let cfg = resolve(&st, &args).expect("resolves");
    assert_eq!(cfg.logical_monitor.scale, 1000);
}

#[test]
fn scaling_boundary_at_one_eighth_rounds_up() {
    // 1.13 crosses the 1.125 boundary: bucket 5, closest scale 1.25.
    let st = scale_state(&[1000, 1250, 1500]);
    let mut args = intent("DP-1");
    args.scaling = Some(113);
    let cfg = resolve(&st, &args).expect("resolves");
    assert_eq!(cfg.logical_monitor.scale, 1250);
}

#[test]
fn scaling_boundary_at_three_eighths_rounds_up() {
    // 1.38 crosses the 1.375 boundary: bucket 6, closest scale 1.5.
    let st = scale_state(&[1000, 1250, 1500]);
    let mut args = intent("DP-1");
    args.scaling = Some(138);
    let cfg = resolve(&st, &args).expect("resolves");
    assert_eq!(cfg.logical_monitor.scale, 1500);
}

#[test]
fn scaling_off_by_a_bucket_fails() {
    // The closest scale to 1.30 is 1.50 here, two quarter buckets away.
    let st = scale_state(&[1000, 1500]);
    let mut args = intent("DP-1");
    args.scaling = Some(130);
    assert_eq!(
        resolve(&st, &args).unwrap_err(),
        ResolveError::NoMatchingScale { requested_percent: 130 }
    );
}

#[test]
fn empty_scale_list_fails() {
    let st = scale_state(&[]);
    let mut args = intent("DP-1");
    args.scaling = Some(100);
    assert_eq!(
        resolve(&st, &args).unwrap_err(),
        ResolveError::NoMatchingScale { requested_percent: 100 }
    );
}

#[test]
fn hdr_without_bt2100_support_fails() {
    let m = monitor(
        "DP-1",
        vec![mode("m", 1920, 1080, 60_000, &[1000], true, None)],
        Some(MonitorColorMode::Default),
        Some(vec![MonitorColorMode::Default]),
    );
    let st = state(vec![m], vec![logical("DP-1", 1000)]);
    let mut args = intent("DP-1");
    args.hdr = Some(true);
    assert_eq!(resolve(&st, &args).unwrap_err(), ResolveError::HdrUnsupported);
}

#[test]
fn hdr_without_any_color_mode_list_fails() {
    let st = dp1_state();
    let mut args = intent("DP-1");
    args.hdr = Some(true);
    assert_eq!(resolve(&st, &args).unwrap_err(), ResolveError::HdrUnsupported);
}

#[test]
fn hdr_on_a_supporting_monitor_selects_bt2100() {
    let m = monitor(
        "DP-1",
        vec![mode("m", 1920, 1080, 60_000, &[1000], true, None)],
        Some(MonitorColorMode::Default),
        Some(vec![MonitorColorMode::Default, MonitorColorMode::BT2100]),
    );
    let st = state(vec![m], vec![logical("DP-1", 1000)]);
    let mut args = intent("DP-1");
    args.hdr = Some(true);
    let cfg = resolve(&st, &args).expect("resolves");
    assert_eq!(
        cfg.logical_monitor.monitors[0].properties.color_mode,
        Some(MonitorColorMode::BT2100)
    );
}

#[test]
fn unset_hdr_keeps_the_current_color_mode() {
    let m = monitor(
        "DP-1",
        vec![mode("m", 1920, 1080, 60_000, &[1000], true, None)],
        Some(MonitorColorMode::BT2100),
        Some(vec![MonitorColorMode::Default, MonitorColorMode::BT2100]),
    );
    let st = state(vec![m], vec![logical("DP-1", 1000)]);
    let cfg = resolve(&st, &intent("DP-1")).expect("resolves");
    assert_eq!(
        cfg.logical_monitor.monitors[0].properties.color_mode,
        Some(MonitorColorMode::BT2100)
    );
}

#[test]
fn placement_is_kept() {
    let m = monitor(
        "DP-1",
        vec![mode("m", 1920, 1080, 60_000, &[1000], true, None)],
        None,
        None,
    );
    let lm = LogicalMonitor {
        x: 1920,
        y: 200,
        scale: 1000,
        transform: LogicalMonitorTransform::Turned90Deg,
        primary: false,
        monitors: vec![monitor_id("DP-1")],
        properties: LogicalMonitorProperties {},
    };
    let st = state(vec![m], vec![lm]);
    let cfg = resolve(&st, &intent("DP-1")).expect("resolves");
    assert_eq!(cfg.logical_monitor.x, 1920);
    assert_eq!(cfg.logical_monitor.y, 200);
    assert_eq!(cfg.logical_monitor.transform, LogicalMonitorTransform::Turned90Deg);
    assert!(!cfg.logical_monitor.primary);
}

#[test]
fn apply_request_wraps_the_update() {
    let st = dp1_state();
    let cfg = resolve(&st, &intent("DP-1")).expect("resolves");
    let request = build_apply_request(cfg, false);
    assert_eq!(request.serial, 7);
    assert_eq!(request.method, apply_monitors_config::Method::Temporary);
    assert_eq!(request.logical_monitors.len(), 1);
    assert_eq!(request.properties.layout_mode, None);
    assert!(request.properties.monitors_for_lease.is_none());

    let cfg2 = resolve(&st, &intent("DP-1")).expect("resolves");
    let persistent = build_apply_request(cfg2, true);
    assert_eq!(persistent.method, apply_monitors_config::Method::Persistent);
}

#[test]
fn explicit_resolution_selects_that_mode() {
    let st = dp1_state();
    let mut args = intent("DP-1");
    args.resolution = Some((3840, 2160));
    let cfg = resolve(&st, &args).expect("resolves");
    assert_eq!(cfg.logical_monitor.monitors[0].mode, "4k60");
    // The scale is re-validated against the newly selected mode's set.
    assert_eq!(cfg.logical_monitor.scale, 1000);
}

#[test]
fn first_logical_monitor_wins_for_a_mirrored_monitor() {
    let m = monitor(
        "DP-1",
        vec![mode("m", 1920, 1080, 60_000, &[1000, 1250], true, None)],
        None,
        None,
    );
    // Two logical monitors reference the same connector; the first one's
    // placement and scale are used.
    let st = state(vec![m], vec![logical("DP-1", 1250), logical("DP-1", 1000)]);
    let cfg = resolve(&st, &intent("DP-1")).expect("resolves");
    assert_eq!(cfg.logical_monitor.scale, 1250);
}
