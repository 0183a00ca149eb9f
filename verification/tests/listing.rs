use displayconfig_mutter::display_config::get_current_state::{
    LogicalMonitor, LogicalMonitorProperties, LogicalMonitorTransform, Mode, ModeProperties,
    Monitor, MonitorColorMode, MonitorId, MonitorProperties, Properties, RefreshRateMode, Response,
};
use displayconfig_mutter::listing::{mode_catalog, monitor_summaries, SupportStatus};

fn mode(id: &str, w: u32, h: u32, mhz: u32, scales: &[u32], current: bool, rrm: Option<RefreshRateMode>) -> Mode {
    Mode {
        id: id.to_string(),
        width: w,
        height: h,
        refresh_rate: mhz,
        preferred_scale: 1000,
        supported_scales: scales.to_vec(),
        properties: ModeProperties {
            is_current: if current { Some(true) } else { None },
            is_preferred: None,
            is_interlaced: None,
            refresh_rate_mode: rrm,
        },
    }
}

fn monitor(connector: &str, modes: Vec<Mode>, color_mode: Option<MonitorColorMode>, supported: Option<Vec<MonitorColorMode>>) -> Monitor {
    Monitor {
        id: MonitorId {
            connector: connector.to_string(),
            vendor: "ACME".to_string(),
            product: "Panel".to_string(),
            serial: "123".to_string(),
        },
        modes,
        properties: MonitorProperties {
            width_mm: None,
            height_mm: None,
            is_underscanning: None,
            max_screen_size: None,
            is_builtin: None,
            display_name: None,
            privacy_screen_state: None,
            min_refresh_rate: None,
            is_for_lease: None,
            color_mode,
            supported_color_modes: supported,
        },
    }
}

fn logical(connector: &str, scale: u32) -> LogicalMonitor {
    LogicalMonitor {
        x: 0,
        y: 0,
        scale,
        transform: LogicalMonitorTransform::Normal,
        primary: true,
        monitors: vec![MonitorId {
            connector: connector.to_string(),
            vendor: String::new(),
            product: String::new(),
            serial: String::new(),
        }],
        properties: LogicalMonitorProperties {},
    }
}

fn state(monitors: Vec<Monitor>, logical_monitors: Vec<LogicalMonitor>) -> Response {
    Response {
        serial: 1,
        monitors,
        logical_monitors,
        properties: Properties {
            layout_mode: None,
            supports_changing_layout_mode: None,
            global_scale_required: None,
        },
    }
}

#[test]
fn summary_of_an_active_monitor() {
    let m = monitor(
        "DP-1",
        vec![
            mode("a", 1920, 1080, 59_980, &[1000], true, Some(RefreshRateMode::Fixed)),
            mode("b", 1920, 1080, 60_020, &[1000], false, Some(RefreshRateMode::Variable)),
        ],
        Some(MonitorColorMode::Default),
        Some(vec![MonitorColorMode::Default, MonitorColorMode::BT2100]),
    );
    let st = state(vec![m], vec![logical("DP-1", 1250)]);
    let rows = monitor_summaries(&st);
    assert_eq!(rows.len(), 1);
    let row = &rows[0];
    assert_eq!(row.connector, "DP-1");
    assert_eq!(row.vendor, "ACME");
    assert_eq!(row.product, "Panel");
    assert_eq!(row.resolution, Some((1920, 1080)));
    assert_eq!(row.refresh_rate, Some(60));
    assert_eq!(row.scaling_percent, Some(125));
    // A variable mode exists but the current mode is fixed.
    assert_eq!(row.vrr, SupportStatus::Supported);
    // HDR is advertised but the default color mode is active.
    assert_eq!(row.hdr, SupportStatus::Supported);
}

#[test]
fn summary_of_an_hdr_vrr_monitor() {
    let m = monitor(
        "DP-1",
        vec![mode("a", 1920, 1080, 120_000, &[1000], true, Some(RefreshRateMode::Variable))],
        Some(MonitorColorMode::BT2100),
        Some(vec![MonitorColorMode::Default, MonitorColorMode::BT2100]),
    );
    let st = state(vec![m], vec![logical("DP-1", 1000)]);
    let rows = monitor_summaries(&st);
    assert_eq!(rows[0].vrr, SupportStatus::Enabled);
    assert_eq!(rows[0].hdr, SupportStatus::Enabled);
    assert_eq!(rows[0].refresh_rate, Some(120));
}

#[test]
fn summary_of_a_disabled_plain_monitor() {
    let m = monitor(
        "DP-2",
        vec![mode("a", 1920, 1080, 60_000, &[1000], false, None)],
        None,
        None,
    );
    // No logical monitor references DP-2 and no mode is current.
    let st = state(vec![m], vec![logical("DP-1", 1000)]);
    let rows = monitor_summaries(&st);
    assert_eq!(rows[0].resolution, None);
    assert_eq!(rows[0].refresh_rate, None);
    assert_eq!(rows[0].scaling_percent, None);
    assert_eq!(rows[0].vrr, SupportStatus::No);
    assert_eq!(rows[0].hdr, SupportStatus::No);
}

#[test]
fn catalog_is_sorted_and_free_of_duplicates() {
    let m = monitor(
        "DP-1",
        vec![
            mode("a", 1920, 1080, 59_980, &[1000, 1250], true, Some(RefreshRateMode::Fixed)),
            mode("b", 1920, 1080, 60_020, &[1000, 1250], false, Some(RefreshRateMode::Variable)),
            mode("c", 3840, 2160, 60_000, &[1000, 1500, 2000], false, None),
            mode("d", 1920, 1080, 143_856, &[1000, 1250], false, None),
            mode("e", 2560, 1080, 60_000, &[1000], false, None),
        ],
        None,
        None,
    );
    let catalog = mode_catalog(&m);
    assert_eq!(catalog.resolutions, vec![(3840, 2160), (2560, 1080), (1920, 1080)]);
    assert_eq!(catalog.refresh_rates, vec![144, 60]);
    assert_eq!(catalog.scale_percents, vec![100, 125, 150, 200]);
}

#[test]
fn catalog_scales_are_quantized_to_quarter_steps() {
    // 1.3 lands in the 1.25 bucket; 1.13 does too; 1.38 lands in 1.5.
    let m = monitor(
        "DP-1",
        vec![mode("a", 1920, 1080, 60_000, &[1000, 1300, 1130, 1380], true, None)],
        None,
        None,
    );
    let catalog = mode_catalog(&m);
    assert_eq!(catalog.scale_percents, vec![100, 125, 150]);
}

#[test]
fn catalog_of_an_empty_mode_list_is_empty() {
    let m = monitor("DP-1", vec![], None, None);
    let catalog = mode_catalog(&m);
    assert!(catalog.resolutions.is_empty());
    assert!(catalog.refresh_rates.is_empty());
    assert!(catalog.scale_percents.is_empty());
}

#[test]
fn summaries_keep_snapshot_order() {
    let a = monitor("DP-1", vec![mode("a", 1920, 1080, 60_000, &[1000], true, None)], None, None);
    let b = monitor("HDMI-2", vec![], None, None);
    let st = state(vec![a, b], vec![logical("DP-1", 1000)]);
    let rows = monitor_summaries(&st);
    assert_eq!(rows.len(), 2);
    assert_eq!(rows[0].connector, "DP-1");
    assert_eq!(rows[1].connector, "HDMI-2");
    assert_eq!(rows[1].resolution, None);
}
