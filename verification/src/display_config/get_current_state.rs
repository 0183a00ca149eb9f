//! Snapshot of the current display state: monitors, their modes, and the
//! logical monitor layout, together with the mode ordering used for every
//! deterministic "best" pick.
//!
//! Refresh rates are stored in millihertz (59_980 stands for 59.98 Hz) and
//! scale factors in thousandths (1_250 stands for 1.25), so that all
//! comparisons are exact integer arithmetic.

use vstd::prelude::*;

verus! {

/// In what way logical monitors are laid out on the screen. Absence of this
/// property in a snapshot means the layout mode cannot be changed and
/// `Logical` is assumed.
#[derive(Clone, Copy, Debug, PartialEq, Eq, Structural)]
pub enum LayoutMode {
    /// The dimension of a logical monitor is derived from the monitor modes
    /// associated with it, then scaled using the logical monitor scale.
    Logical,
    /// The dimension of a logical monitor is derived from the monitor modes
    /// associated with it.
    Physical,
}

/// Global display configuration properties.
#[derive(Clone, Debug)]
pub struct Properties {
    pub layout_mode: Option<LayoutMode>,
    /// True if the layout mode can be changed. Absence means it cannot.
    pub supports_changing_layout_mode: Option<bool>,
    /// True if all the logical monitors must always use the same scale.
    pub global_scale_required: Option<bool>,
}

/// Identity of a connected physical monitor. Two identities denote the same
/// monitor exactly when their connector names are equal; vendor, product and
/// serial are descriptive only. That comparison is the named function
/// [`same_monitor`], deliberately distinct from structural equality.
#[derive(Clone, Debug)]
pub struct MonitorId {
    /// Connector name (e.g. HDMI-1, DP-1).
    pub connector: String,
    /// Vendor name.
    pub vendor: String,
    /// Product name.
    pub product: String,
    /// Product serial.
    pub serial: String,
}

/// True exactly when the two identities name the same monitor: equality is
/// by connector name only.
pub open spec fn spec_same_monitor(a: MonitorId, b: MonitorId) -> bool {
    a.connector@ == b.connector@
}

/// Identity comparison for matching purposes: by connector name only.
pub fn same_monitor(a: &MonitorId, b: &MonitorId) -> (r: bool)
    ensures
        r == spec_same_monitor(*a, *b),
{
    a.connector == b.connector
}

/// Color mode of a monitor. `BT2100` is the HDR mode.
#[derive(Clone, Copy, Debug, PartialEq, Eq, Structural)]
pub enum MonitorColorMode {
    Default,
    /// HDR.
    BT2100,
}

/// Optional properties of a monitor.
#[derive(Clone, Debug)]
pub struct MonitorProperties {
    /// Physical width of the monitor in millimeters.
    pub width_mm: Option<i32>,
    /// Physical height of the monitor in millimeters.
    pub height_mm: Option<i32>,
    /// Whether underscanning is enabled. Absence means it is not supported.
    pub is_underscanning: Option<bool>,
    /// The maximum size a screen may have. Absence means unlimited.
    pub max_screen_size: Option<(i32, i32)>,
    /// Whether the monitor is built in, e.g. a laptop panel.
    pub is_builtin: Option<bool>,
    /// A human readable display name of the monitor.
    pub display_name: Option<String>,
    /// State of the privacy screen: enabled, and hardware locked.
    pub privacy_screen_state: Option<(bool, bool)>,
    /// Minimum refresh rate in hertz when variable refresh rate is active.
    pub min_refresh_rate: Option<i32>,
    /// Whether the monitor is for lease.
    pub is_for_lease: Option<bool>,
    /// Currently active color mode.
    pub color_mode: Option<MonitorColorMode>,
    /// List of supported color modes. Absence means the monitor advertises
    /// no color-mode handling at all.
    pub supported_color_modes: Option<Vec<MonitorColorMode>>,
}

/// Whether a mode's refresh rate is fixed or may vary dynamically. Absence
/// of the property on a mode means `Fixed`.
#[derive(Clone, Copy, Debug, PartialEq, Eq, Structural)]
pub enum RefreshRateMode {
    Fixed,
    Variable,
}

/// Optional properties of a mode.
#[derive(Clone, Debug)]
pub struct ModeProperties {
    /// The mode is the currently active mode. At most one mode of a monitor
    /// has this set.
    pub is_current: Option<bool>,
    /// The mode is the preferred mode.
    pub is_preferred: Option<bool>,
    /// The mode is an interlaced mode.
    pub is_interlaced: Option<bool>,
    /// The refresh rate mode; absence means `Fixed`.
    pub refresh_rate_mode: Option<RefreshRateMode>,
}

/// One concrete combination a monitor can be driven at.
#[derive(Clone, Debug)]
pub struct Mode {
    /// Mode identifier, stable and unique within its monitor.
    pub id: String,
    /// Width in physical pixels.
    pub width: u32,
    /// Height in physical pixels.
    pub height: u32,
    /// Refresh rate in millihertz (59_980 stands for 59.98 Hz).
    pub refresh_rate: u32,
    /// Preferred scale in thousandths (1_250 stands for 1.25).
    pub preferred_scale: u32,
    /// Scales supported by this mode, in thousandths.
    pub supported_scales: Vec<u32>,
    /// Optional properties.
    pub properties: ModeProperties,
}

/// A connected physical monitor.
#[derive(Clone, Debug)]
pub struct Monitor {
    pub id: MonitorId,
    /// Available modes.
    pub modes: Vec<Mode>,
    /// Optional properties.
    pub properties: MonitorProperties,
}

/// Rotation/flip applied to a logical monitor.
#[derive(Clone, Copy, Debug, PartialEq, Eq, Structural)]
pub enum LogicalMonitorTransform {
    Normal,
    Turned90Deg,
    Turned180Deg,
    Turned270Deg,
    Flipped,
    Turned90DegFlipped,
    Turned180DegFlipped,
    Turned270DegFlipped,
}

/// Properties of a logical monitor. The protocol reserves room for more.
#[derive(Clone, Debug)]
pub struct LogicalMonitorProperties {}

/// A placed, scaled rectangle of the desktop, possibly mirroring several
/// physical monitors. A monitor is active exactly when some logical monitor
/// references its identity.
#[derive(Clone, Debug)]
pub struct LogicalMonitor {
    /// X position.
    pub x: i32,
    /// Y position.
    pub y: i32,
    /// Scale in thousandths (1_000 stands for 1.0).
    pub scale: u32,
    /// Rotation/flip transform.
    pub transform: LogicalMonitorTransform,
    /// True if this is the primary logical monitor.
    pub primary: bool,
    /// Monitors displaying this logical monitor.
    pub monitors: Vec<MonitorId>,
    /// Possibly other properties.
    pub properties: LogicalMonitorProperties,
}

/// Immutable snapshot of the whole display state, fetched once per
/// invocation.
#[derive(Clone, Debug)]
pub struct Response {
    /// Concurrency token; must be echoed back unchanged on apply.
    pub serial: u32,
    /// Available monitors.
    pub monitors: Vec<Monitor>,
    /// Current logical monitor configuration.
    pub logical_monitors: Vec<LogicalMonitor>,
    /// Global display configuration properties.
    pub properties: Properties,
}

// ---------------------------------------------------------------------------
// Mode ordering
//
// A total order over modes, used wherever a deterministic "largest/best"
// pick is needed. Comparison key, most to least significant: width, height,
// refresh rate rounded to the nearest integer hertz (half to even), and
// refresh-rate mode with Fixed < Variable. Modes agreeing on all four are
// equal for ordering and grouping purposes even when their identifiers
// differ.
// ---------------------------------------------------------------------------

/// Millihertz value rounded to the nearest integer hertz, ties to even.
pub open spec fn spec_round_rate(mhz: int) -> int {
    let q = mhz / 1000;
    let rem = mhz % 1000;
    if rem > 500 {
        q + 1
    } else if rem < 500 {
        q
    } else if q % 2 == 0 {
        q
    } else {
        q + 1
    }
}

/// Rounds a refresh rate in millihertz to the nearest integer hertz, with
/// ties going to the even value.
pub fn round_rate(mhz: u32) -> (r: u32)
    ensures
        r as int == spec_round_rate(mhz as int),
{
    let q = mhz / 1000;
    let rem = mhz % 1000;
    if rem > 500 {
        q + 1
    } else if rem < 500 {
        q
    } else if q % 2 == 0 {
        q
    } else {
        q + 1
    }
}

/// The refresh-rate mode a property set denotes: absence means `Fixed`.
pub open spec fn spec_refresh_rate_mode(p: ModeProperties) -> RefreshRateMode {
    match p.refresh_rate_mode {
        Some(m) => m,
        None => RefreshRateMode::Fixed,
    }
}

/// The refresh-rate mode of a property set; absence counts as `Fixed`.
pub fn refresh_rate_mode_of(p: &ModeProperties) -> (r: RefreshRateMode)
    ensures
        r == spec_refresh_rate_mode(*p),
{
    match p.refresh_rate_mode {
        Some(m) => m,
        None => RefreshRateMode::Fixed,
    }
}

/// True when the mode's refresh rate is variable.
pub open spec fn spec_is_variable(m: Mode) -> bool {
    spec_refresh_rate_mode(m.properties) == RefreshRateMode::Variable
}

/// Rank of a refresh-rate mode in the ordering: `Fixed` before `Variable`.
pub open spec fn spec_rate_mode_rank(m: RefreshRateMode) -> int {
    match m {
        RefreshRateMode::Fixed => 0,
        RefreshRateMode::Variable => 1,
    }
}

/// Strict ordering over modes: lexicographic on width, height, rounded
/// refresh rate, and refresh-rate mode (`Fixed` < `Variable`).
pub open spec fn spec_mode_lt(a: Mode, b: Mode) -> bool {
    ||| a.width < b.width
    ||| (a.width == b.width && a.height < b.height)
    ||| (a.width == b.width && a.height == b.height && spec_round_rate(a.refresh_rate as int)
        < spec_round_rate(b.refresh_rate as int))
    ||| (a.width == b.width && a.height == b.height && spec_round_rate(a.refresh_rate as int)
        == spec_round_rate(b.refresh_rate as int) && spec_rate_mode_rank(
        spec_refresh_rate_mode(a.properties),
    ) < spec_rate_mode_rank(spec_refresh_rate_mode(b.properties)))
}

/// Equality under the mode ordering: width, height, rounded refresh rate and
/// refresh-rate mode all match. Distinct from structural equality; two modes
/// with fractional refresh-rate differences below the rounding step and the
/// same mode flag group together even though their identifiers differ.
pub open spec fn spec_mode_order_eq(a: Mode, b: Mode) -> bool {
    &&& a.width == b.width
    &&& a.height == b.height
    &&& spec_round_rate(a.refresh_rate as int) == spec_round_rate(b.refresh_rate as int)
    &&& spec_refresh_rate_mode(a.properties) == spec_refresh_rate_mode(b.properties)
}

/// Named comparison: `a` strictly precedes `b` under the mode ordering.
pub fn mode_lt(a: &Mode, b: &Mode) -> (r: bool)
    ensures
        r == spec_mode_lt(*a, *b),
{
    if a.width != b.width {
        return a.width < b.width;
    }
    if a.height != b.height {
        return a.height < b.height;
    }
    let ra = round_rate(a.refresh_rate);
    let rb = round_rate(b.refresh_rate);
    if ra != rb {
        return ra < rb;
    }
    let ma = refresh_rate_mode_of(&a.properties);
    let mb = refresh_rate_mode_of(&b.properties);
    matches!(ma, RefreshRateMode::Fixed) && matches!(mb, RefreshRateMode::Variable)
}

/// Named comparison: `a` and `b` group together under the mode ordering.
pub fn mode_order_eq(a: &Mode, b: &Mode) -> (r: bool)
    ensures
        r == spec_mode_order_eq(*a, *b),
{
    a.width == b.width && a.height == b.height && round_rate(a.refresh_rate) == round_rate(
        b.refresh_rate,
    ) && refresh_rate_mode_of(&a.properties) == refresh_rate_mode_of(&b.properties)
}

/// Law: the mode ordering is trichotomous, hence total, and its notion of
/// equality is exactly the grouping by width, height, rounded rate and
/// refresh-rate mode: of `a < b`, `b < a` and `a == b` (under the order),
/// exactly one holds.
pub proof fn lemma_mode_order_trichotomy(a: Mode, b: Mode)
    ensures
        spec_mode_lt(a, b) || spec_mode_lt(b, a) || spec_mode_order_eq(a, b),
        spec_mode_lt(a, b) ==> !spec_mode_lt(b, a) && !spec_mode_order_eq(a, b),
        spec_mode_lt(b, a) ==> !spec_mode_lt(a, b) && !spec_mode_order_eq(a, b),
        spec_mode_order_eq(a, b) ==> !spec_mode_lt(a, b) && !spec_mode_lt(b, a),
{
}

/// Law: the mode ordering is antisymmetric; two modes not ordered either way
/// group together.
pub proof fn lemma_mode_order_antisymmetric(a: Mode, b: Mode)
    ensures
        !spec_mode_lt(a, b) && !spec_mode_lt(b, a) <==> spec_mode_order_eq(a, b),
{
}

/// Law: the mode ordering is transitive.
pub proof fn lemma_mode_order_transitive(a: Mode, b: Mode, c: Mode)
    requires
        spec_mode_lt(a, b),
        spec_mode_lt(b, c),
    ensures
        spec_mode_lt(a, c),
{
}

/// Law: grouping is an equivalence relation consistent with the order:
/// modes in one group compare equal against any third mode.
pub proof fn lemma_mode_order_eq_consistent(a: Mode, b: Mode, c: Mode)
    requires
        spec_mode_order_eq(a, b),
    ensures
        spec_mode_order_eq(b, a),
        spec_mode_lt(a, c) == spec_mode_lt(b, c),
        spec_mode_lt(c, a) == spec_mode_lt(c, b),
{
}

} // verus!
