//! Configuration model. The file is read by the caller; this module holds
//! the settings, their defaults, the `enable` policy forms, and the
//! provenance of explicitly written fields, taken from the TOML text.
//!
//! Floating-point settings are carried as the bit patterns of their `f64`
//! values: the library stores and forwards them but never computes with them.
use crate::text::{concat_str, str_eq, PathSet};
use crate::toml_doc::{parse_toml, toml_parse, TomlEntry, TomlValue};
use vstd::prelude::*;

verus! {

broadcast use vstd::string::group_string_axioms;

/// `28.0`
pub const DEFAULT_CURSOR_SENSITIVITY_BITS: u64 = 0x403c_0000_0000_0000;

/// `1.35`
pub const DEFAULT_CURSOR_ACCEL_EXPONENT_BITS: u64 = 0x3ff5_9999_9999_999a;

/// `70.0`
pub const DEFAULT_CURSOR_ACCEL_REF_BITS: u64 = 0x4051_8000_0000_0000;

/// `20.0`
pub const DEFAULT_SCROLL_SENSITIVITY_BITS: u64 = 0x4034_0000_0000_0000;

/// `1.0`, the default pinch and rotation gain.
pub const DEFAULT_GAIN_BITS: u64 = 0x3ff0_0000_0000_0000;

/// `65.0` mm, the default width of the virtual touch surface.
pub const DEFAULT_SURFACE_WIDTH_BITS: u64 = 0x4050_4000_0000_0000;

#[derive(Debug, Clone, Copy, PartialEq, Eq, Structural)]
pub enum HapticSetting {
    Auto,
    On,
    Off,
}

#[derive(Debug, Clone, Copy, PartialEq, Eq, Structural)]
pub enum SwipeBackend {
    Synthetic,
    Notification,
    Off,
}

/// Per-gesture enable policy: always, never, or gated by the bundle ID of the
/// application under the cursor.
#[derive(Debug, Clone, PartialEq, Eq)]
pub enum GestureEnable {
    On,
    Off,
    Only(Vec<String>),
    Except(Vec<String>),
}

/// The two textual forms an `enable` value may take.
#[derive(Debug, Clone, PartialEq, Eq)]
pub enum EnableRepr {
    Text(String),
    Table { only: Option<Vec<String>>, except: Option<Vec<String>> },
}

/// Why an `enable` value is rejected.
#[derive(Debug, Clone, PartialEq, Eq)]
pub enum EnableError {
    /// A string other than `"on"` or `"off"`.
    UnknownText(String),
    /// Both `only` and `except` were given.
    OnlyAndExcept,
    /// A table with neither `only` nor `except`.
    MissingList,
}

impl GestureEnable {
    /// Interpret one written `enable` value.
    pub fn from_repr(repr: EnableRepr) -> (r: Result<GestureEnable, EnableError>)
        ensures
            match repr {
                EnableRepr::Text(s) => if s@ == "on"@ {
                    r == Ok::<GestureEnable, EnableError>(GestureEnable::On)
                } else if s@ == "off"@ {
                    r == Ok::<GestureEnable, EnableError>(GestureEnable::Off)
                } else {
                    r == Err::<GestureEnable, EnableError>(EnableError::UnknownText(s))
                },
                EnableRepr::Table { only, except } => match (only, except) {
                    (Some(o), None) => r == Ok::<GestureEnable, EnableError>(GestureEnable::Only(o)),
                    (None, Some(e)) => r == Ok::<GestureEnable, EnableError>(
                        GestureEnable::Except(e),
                    ),
                    (Some(_), Some(_)) => r == Err::<GestureEnable, EnableError>(
                        EnableError::OnlyAndExcept,
                    ),
                    (None, None) => r == Err::<GestureEnable, EnableError>(EnableError::MissingList),
                },
            },
    {
        match repr {
            EnableRepr::Text(s) => {
                if str_eq(s.as_str(), "on") {
                    Ok(GestureEnable::On)
                } else if str_eq(s.as_str(), "off") {
                    Ok(GestureEnable::Off)
                } else {
                    Err(EnableError::UnknownText(s))
                }
            },
            EnableRepr::Table { only, except } => match (only, except) {
                (Some(o), None) => Ok(GestureEnable::Only(o)),
                (None, Some(e)) => Ok(GestureEnable::Except(e)),
                (Some(_), Some(_)) => Err(EnableError::OnlyAndExcept),
                (None, None) => Err(EnableError::MissingList),
            },
        }
    }

    /// Whether the policy is not `Off` (the table forms count as on).
    pub fn is_enabled(&self) -> (r: bool)
        ensures
            r == !(*self is Off),
    {
        !matches!(self, GestureEnable::Off)
    }
}

impl Default for GestureEnable {
    fn default() -> (r: Self)
        ensures
            r == GestureEnable::On,
    {
        GestureEnable::On
    }
}

#[derive(Debug, Clone)]
pub struct Macos {
    /// Read the user's macOS trackpad preferences at startup as defaults.
    pub sync_system_settings: bool,
    pub haptic_feedback: HapticSetting,
}

impl Default for Macos {
    fn default() -> (r: Self)
        ensures
            r.sync_system_settings,
            r.haptic_feedback == HapticSetting::Auto,
    {
        Macos { sync_system_settings: true, haptic_feedback: HapticSetting::Auto }
    }
}

/// `[net]` transport bindings.
#[derive(Debug, Clone)]
pub struct Net {
    pub listen_ip: Option<String>,
    pub port: u16,
    /// Optional bearer token for network clients.
    pub token: Option<String>,
    /// Serve the browser page and WebSocket on TCP.
    pub web_enabled: bool,
    /// Accept the native client's UDP frames.
    pub phone_enabled: bool,
}

impl Default for Net {
    fn default() -> (r: Self)
        ensures
            r.listen_ip is None,
            r.port == 4242,
            r.token is None,
            r.web_enabled,
            r.phone_enabled,
    {
        Net { listen_ip: None, port: 4242, token: None, web_enabled: true, phone_enabled: true }
    }
}

#[derive(Debug, Clone)]
pub struct Overlay {
    pub enable: bool,
    pub duration_ms: u32,
}

impl Default for Overlay {
    fn default() -> (r: Self)
        ensures
            !r.enable,
            r.duration_ms == 600,
    {
        Overlay { enable: false, duration_ms: 600 }
    }
}

#[derive(Debug, Clone)]
pub struct Device {
    pub vid: Option<u16>,
    pub pid: Option<u16>,
}

impl Default for Device {
    fn default() -> (r: Self)
        ensures
            r.vid is None,
            r.pid is None,
    {
        Device { vid: None, pid: None }
    }
}

#[derive(Debug, Clone)]
pub struct Log {
    pub level: String,
    /// If set, logs are appended to this path instead of stderr.
    pub file: Option<String>,
}

impl Default for Log {
    fn default() -> (r: Self)
        ensures
            r.level@ == "info"@,
            r.file is None,
    {
        Log { level: String::from_str("info"), file: None }
    }
}

#[derive(Debug, Clone)]
pub struct Cursor {
    pub sensitivity_bits: u64,
    pub accel_exponent_bits: u64,
    pub accel_ref_bits: u64,
}

impl Default for Cursor {
    fn default() -> (r: Self)
        ensures
            r.sensitivity_bits == DEFAULT_CURSOR_SENSITIVITY_BITS,
            r.accel_exponent_bits == DEFAULT_CURSOR_ACCEL_EXPONENT_BITS,
            r.accel_ref_bits == DEFAULT_CURSOR_ACCEL_REF_BITS,
    {
        Cursor {
            sensitivity_bits: DEFAULT_CURSOR_SENSITIVITY_BITS,
            accel_exponent_bits: DEFAULT_CURSOR_ACCEL_EXPONENT_BITS,
            accel_ref_bits: DEFAULT_CURSOR_ACCEL_REF_BITS,
        }
    }
}

#[derive(Debug, Clone)]
pub struct Scroll {
    pub sensitivity_bits: u64,
    pub natural: bool,
    /// Whether two-finger translation emits scroll events.
    pub enable: bool,
    /// Whether horizontal scroll deltas are preserved.
    pub horizontal: bool,
    /// Whether a lift seeds a momentum-phase scroll coast.
    pub momentum: bool,
    /// Optional Quartz modifier mask for scroll-to-zoom routing.
    pub modifier_zoom_mask: Option<u64>,
    /// Opt-in remap of Shift-held vertical scrolling to horizontal.
    pub shift_scroll_horizontal: bool,
}

impl Default for Scroll {
    fn default() -> (r: Self)
        ensures
            r.sensitivity_bits == DEFAULT_SCROLL_SENSITIVITY_BITS,
            r.natural,
            r.enable,
            r.horizontal,
            r.momentum,
            r.modifier_zoom_mask is None,
            !r.shift_scroll_horizontal,
    {
        Scroll {
            sensitivity_bits: DEFAULT_SCROLL_SENSITIVITY_BITS,
            natural: true,
            enable: true,
            horizontal: true,
            momentum: true,
            modifier_zoom_mask: None,
            shift_scroll_horizontal: false,
        }
    }
}

#[derive(Debug, Clone)]
pub struct OneFingerTapDrag {
    pub enable: GestureEnable,
}

impl Default for OneFingerTapDrag {
    fn default() -> (r: Self)
        ensures
            r.enable == GestureEnable::On,
    {
        OneFingerTapDrag { enable: GestureEnable::On }
    }
}

/// Optional accessibility-style drag; off by default.
#[derive(Debug, Clone)]
pub struct PressAndHoldDrag {
    pub enable: GestureEnable,
}

impl Default for PressAndHoldDrag {
    fn default() -> (r: Self)
        ensures
            r.enable == GestureEnable::Off,
    {
        PressAndHoldDrag { enable: GestureEnable::Off }
    }
}

#[derive(Debug, Clone)]
pub struct ThreeFingerDrag {
    pub enable: GestureEnable,
    pub release_delay_ms: u64,
    /// Keep the drag across 3F → 4F → 3F.
    pub persistent_drag_lock: bool,
}

impl Default for ThreeFingerDrag {
    fn default() -> (r: Self)
        ensures
            r.enable == GestureEnable::On,
            r.release_delay_ms == 500,
            r.persistent_drag_lock,
    {
        ThreeFingerDrag { enable: GestureEnable::On, release_delay_ms: 500, persistent_drag_lock: true }
    }
}

#[derive(Debug, Clone)]
pub struct Pinch {
    pub enable: GestureEnable,
    /// Multiplier for magnification deltas, as an `f64` bit pattern.
    pub gain_bits: u64,
}

impl Default for Pinch {
    fn default() -> (r: Self)
        ensures
            r.enable == GestureEnable::On,
            r.gain_bits == DEFAULT_GAIN_BITS,
    {
        Pinch { enable: GestureEnable::On, gain_bits: DEFAULT_GAIN_BITS }
    }
}

#[derive(Debug, Clone)]
pub struct Rotate {
    pub enable: GestureEnable,
    /// Multiplier for rotation deltas, as an `f64` bit pattern.
    pub gain_bits: u64,
}

impl Default for Rotate {
    fn default() -> (r: Self)
        ensures
            r.enable == GestureEnable::On,
            r.gain_bits == DEFAULT_GAIN_BITS,
    {
        Rotate { enable: GestureEnable::On, gain_bits: DEFAULT_GAIN_BITS }
    }
}

/// Which set of gesture thresholds the engine uses.
#[derive(Debug, Clone, Copy, PartialEq, Eq, Structural)]
pub enum GestureParameterProfile {
    Native,
    /// An experimental profile after the ChromiumOS recognizer.
    ChromiumOs,
}

#[derive(Debug, Clone)]
pub struct SwipeAxisCfg {
    pub enable: GestureEnable,
    pub backend: SwipeBackend,
}

impl Default for SwipeAxisCfg {
    fn default() -> (r: Self)
        ensures
            r.enable == GestureEnable::On,
            r.backend == SwipeBackend::Synthetic,
    {
        SwipeAxisCfg { enable: GestureEnable::On, backend: SwipeBackend::Synthetic }
    }
}

#[derive(Debug, Clone)]
pub struct Swipe {
    pub horizontal: SwipeAxisCfg,
    pub vertical: SwipeAxisCfg,
}

impl Default for Swipe {
    fn default() -> (r: Self)
        ensures
            r.horizontal.enable == GestureEnable::On,
            r.horizontal.backend == SwipeBackend::Synthetic,
            r.vertical.enable == GestureEnable::On,
            r.vertical.backend == SwipeBackend::Notification,
    {
        Swipe {
            horizontal: SwipeAxisCfg { enable: GestureEnable::On, backend: SwipeBackend::Synthetic },
            vertical: SwipeAxisCfg { enable: GestureEnable::On, backend: SwipeBackend::Notification },
        }
    }
}

#[derive(Debug, Clone)]
pub struct Gestures {
    pub tap_to_click: GestureEnable,
    pub secondary_click: GestureEnable,
    pub smart_zoom: GestureEnable,
    pub dictionary_lookup: GestureEnable,
    pub right_edge_swipe: GestureEnable,
    pub pinch: Pinch,
    pub rotate: Rotate,
    pub swipe: Swipe,
    pub three_finger_drag: ThreeFingerDrag,
    pub one_finger_tap_drag: OneFingerTapDrag,
    pub press_and_hold_drag: PressAndHoldDrag,
    /// Allow an established scroll to become pinch or rotate.
    pub dynamic_transform_compat: bool,
    pub parameter_profile: GestureParameterProfile,
    /// Width of the virtual touch surface in mm, as an `f64` bit pattern.
    pub surface_width_mm_bits: u64,
}

impl Default for Gestures {
    fn default() -> (r: Self)
        ensures
            r.tap_to_click == GestureEnable::On,
            r.secondary_click == GestureEnable::On,
            r.smart_zoom == GestureEnable::On,
            r.dictionary_lookup == GestureEnable::On,
            r.right_edge_swipe == GestureEnable::On,
            r.pinch.enable == GestureEnable::On,
            r.rotate.enable == GestureEnable::On,
            r.swipe.horizontal.enable == GestureEnable::On,
            r.swipe.horizontal.backend == SwipeBackend::Synthetic,
            r.swipe.vertical.enable == GestureEnable::On,
            r.swipe.vertical.backend == SwipeBackend::Notification,
            r.three_finger_drag.enable == GestureEnable::On,
            r.three_finger_drag.release_delay_ms == 500,
            r.one_finger_tap_drag.enable == GestureEnable::On,
            r.press_and_hold_drag.enable == GestureEnable::Off,
            !r.dynamic_transform_compat,
            r.parameter_profile == GestureParameterProfile::Native,
            r.surface_width_mm_bits == DEFAULT_SURFACE_WIDTH_BITS,
            r.pinch.gain_bits == DEFAULT_GAIN_BITS,
            r.rotate.gain_bits == DEFAULT_GAIN_BITS,
            r.three_finger_drag.persistent_drag_lock,
    {
        Gestures {
            tap_to_click: GestureEnable::On,
            secondary_click: GestureEnable::On,
            smart_zoom: GestureEnable::On,
            dictionary_lookup: GestureEnable::On,
            right_edge_swipe: GestureEnable::On,
            pinch: Pinch::default(),
            rotate: Rotate::default(),
            swipe: Swipe::default(),
            three_finger_drag: ThreeFingerDrag::default(),
            one_finger_tap_drag: OneFingerTapDrag::default(),
            press_and_hold_drag: PressAndHoldDrag::default(),
            dynamic_transform_compat: false,
            parameter_profile: GestureParameterProfile::Native,
            surface_width_mm_bits: DEFAULT_SURFACE_WIDTH_BITS,
        }
    }
}

/// The dotted path of `key` under `prefix` (no dot at the root).
pub open spec fn join_path(prefix: Seq<char>, key: Seq<char>) -> Seq<char> {
    if prefix.len() == 0 {
        key
    } else {
        prefix + seq!['.'] + key
    }
}

/// Whether an entry holds one setting's value: a plain value, or an `enable`
/// written as a table (`enable = { only = [..] }` is one value, not a group).
pub open spec fn is_value_entry(e: TomlEntry) -> bool {
    !(e.value is Table) || e.key@ == "enable"@
}

/// Whether `path` names a setting written in `tree` below `prefix`: a plain
/// value, or an `enable` table under its own path.
pub open spec fn has_leaf_path(tree: TomlValue, prefix: Seq<char>, path: Seq<char>) -> bool
    decreases tree,
{
    match tree {
        TomlValue::Table(entries) => exists|i: int|
            #![trigger entries@[i]]
            0 <= i < entries@.len() && if !(entries@[i].value is Table) || entries@[i].key@ == "enable"@ {
                path == join_path(prefix, entries@[i].key@)
            } else {
                has_leaf_path(entries@[i].value, join_path(prefix, entries@[i].key@), path)
            },
        _ => false,
    }
}

/// Whether `path` names a setting reached through entry `e` below `prefix`.
pub open spec fn entry_has_leaf_path(e: TomlEntry, prefix: Seq<char>, path: Seq<char>) -> bool {
    if is_value_entry(e) {
        path == join_path(prefix, e.key@)
    } else {
        has_leaf_path(e.value, join_path(prefix, e.key@), path)
    }
}

/// The dotted path of `key` under `prefix`.
fn join(prefix: &str, key: &str) -> (r: String)
    ensures
        r@ == join_path(prefix@, key@),
{
    if prefix.is_empty() {
        String::from_str(key)
    } else {
        let mut s = String::from_str(prefix);
        s.append(".");
        proof {
            reveal_strlit(".");
        }
        s.append(key);
        s
    }
}

/// Records the path of every setting written in `tree` under `prefix`: each
/// plain value, and each `enable` written as a table under the `enable` key's
/// own path, so that a table-form enable counts as explicit too.
pub fn collect_explicit_paths(tree: &TomlValue, prefix: &str, paths: &mut PathSet)
    ensures
        forall|p: Seq<char>|
            #[trigger] final(paths)@.contains(p) <==> (old(paths)@.contains(p) || has_leaf_path(
                *tree,
                prefix@,
                p,
            )),
    decreases tree,
{
    if let TomlValue::Table(entries) = tree {
            let mut i: usize = 0;
            while i < entries.len()
                invariant
                    *tree == TomlValue::Table(*entries),
                    i <= entries@.len(),
                    forall|p: Seq<char>|
                        #[trigger] paths@.contains(p) <==> (old(paths)@.contains(p) || exists|j: int|
                            0 <= j < i && #[trigger] entry_has_leaf_path(entries@[j], prefix@, p)),
                decreases entries@.len() - i,
            {
                let entry = &entries[i];
                let path = join(prefix, entry.key.as_str());
                let ghost before = paths@;
                let value_entry = match &entry.value {
                    TomlValue::Table(_) => {
                        proof {
                            reveal_strlit("enable");
                        }
                        str_eq(entry.key.as_str(), "enable")
                    },
                    _ => true,
                };
                match &entry.value {
                    TomlValue::Table(_) if !value_entry => {
                        proof {
                            let ghost t = *tree;
                            let ghost v = t->Table_0;
                            assert(decreases_to!(t => v));
                            assert(decreases_to!(v => v@));
                            assert(decreases_to!(v@ => v@[i as int]));
                            assert(decreases_to!(v@[i as int] => v@[i as int].value));
                            assert(decreases_to!(*tree => entry.value));
                        }
                        collect_explicit_paths(&entry.value, path.as_str(), paths);
                    },
                    _ => {
                        paths.insert(path);
                    },
                }
                assert forall|p: Seq<char>|
                    #[trigger] paths@.contains(p) <==> (old(paths)@.contains(p) || exists|j: int|
                        0 <= j < i + 1 && #[trigger] entry_has_leaf_path(entries@[j], prefix@, p)) by {
                    if exists|j: int| 0 <= j < i + 1 && #[trigger] entry_has_leaf_path(entries@[j], prefix@, p) {
                        let j = choose|j: int| 0 <= j < i + 1 && #[trigger] entry_has_leaf_path(entries@[j], prefix@, p);
                        if j < i {
                            assert(before.contains(p));
                        }
                    }
                    if paths@.contains(p) && !before.contains(p) {
                        assert(entry_has_leaf_path(entries@[i as int], prefix@, p));
                    }
                }
                i = i + 1;
            }
            assert forall|p: Seq<char>|
                #[trigger] paths@.contains(p) <==> (old(paths)@.contains(p) || has_leaf_path(
                    *tree,
                    prefix@,
                    p,
                )) by {
                if has_leaf_path(*tree, prefix@, p) {
                    let j = choose|j: int|
                        #![trigger entries@[j]]
                        0 <= j < entries@.len() && if !(entries@[j].value is Table) || entries@[j].key@
                            == "enable"@ {
                            p == join_path(prefix@, entries@[j].key@)
                        } else {
                            has_leaf_path(entries@[j].value, join_path(prefix@, entries@[j].key@), p)
                        };
                    assert(entry_has_leaf_path(entries@[j], prefix@, p));
                }
                if exists|j: int| 0 <= j < entries@.len() && #[trigger] entry_has_leaf_path(entries@[j], prefix@, p) {
                    let j = choose|j: int| 0 <= j < entries@.len() && #[trigger] entry_has_leaf_path(entries@[j], prefix@, p);
                    assert(entries@[j] == entries@[j]);
                }
            }
    }
}

/// The paths written explicitly in a TOML source: `None` where the `toml`
/// crate does not accept the text, otherwise every plain value and every
/// table-form `enable` of the parsed document.
pub fn explicit_paths(source: &str) -> (r: Option<PathSet>)
    ensures
        r is None <==> toml_parse(source@) is None,
        r matches Some(paths) ==> forall|q: Seq<char>|
            #[trigger] paths@.contains(q) <==> has_leaf_path(toml_parse(source@)->0, Seq::empty(), q),
{
    match parse_toml(source) {
        Some(doc) => {
            let mut paths = PathSet::new();
            collect_explicit_paths(&doc, "", &mut paths);
            proof {
                reveal_strlit("");
            }
            Some(paths)
        },
        None => None,
    }
}

/// The whole configuration.
#[derive(Debug, Clone)]
pub struct Config {
    pub device: Device,
    pub net: Net,
    pub log: Log,
    pub cursor: Cursor,
    pub scroll: Scroll,
    pub gestures: Gestures,
    pub overlay: Overlay,
    pub macos: Macos,
    /// Paths explicitly present in the TOML source.
    pub explicit: PathSet,
}

impl Default for Config {
    fn default() -> (r: Self)
        ensures
            r.explicit@ == Set::<Seq<char>>::empty(),
            r.net.port == 4242,
            r.macos.sync_system_settings,
            r.macos.haptic_feedback == HapticSetting::Auto,
            r.cursor.sensitivity_bits == DEFAULT_CURSOR_SENSITIVITY_BITS,
            r.cursor.accel_exponent_bits == DEFAULT_CURSOR_ACCEL_EXPONENT_BITS,
            r.cursor.accel_ref_bits == DEFAULT_CURSOR_ACCEL_REF_BITS,
            r.scroll.sensitivity_bits == DEFAULT_SCROLL_SENSITIVITY_BITS,
            r.scroll.natural && r.scroll.enable && r.scroll.horizontal && r.scroll.momentum,
            r.scroll.modifier_zoom_mask is None,
            r.gestures.tap_to_click == GestureEnable::On,
            r.gestures.secondary_click == GestureEnable::On,
            r.gestures.smart_zoom == GestureEnable::On,
            r.gestures.dictionary_lookup == GestureEnable::On,
            r.gestures.right_edge_swipe == GestureEnable::On,
            r.gestures.pinch.enable == GestureEnable::On,
            r.gestures.rotate.enable == GestureEnable::On,
            r.gestures.swipe.horizontal.enable == GestureEnable::On,
            r.gestures.swipe.horizontal.backend == SwipeBackend::Synthetic,
            r.gestures.swipe.vertical.enable == GestureEnable::On,
            r.gestures.swipe.vertical.backend == SwipeBackend::Notification,
            r.gestures.three_finger_drag.enable == GestureEnable::On,
            r.gestures.three_finger_drag.release_delay_ms == 500,
            r.gestures.one_finger_tap_drag.enable == GestureEnable::On,
            r.gestures.press_and_hold_drag.enable == GestureEnable::Off,
            !r.gestures.dynamic_transform_compat,
            r.gestures.parameter_profile == GestureParameterProfile::Native,
            r.gestures.surface_width_mm_bits == DEFAULT_SURFACE_WIDTH_BITS,
            r.gestures.pinch.gain_bits == DEFAULT_GAIN_BITS,
            r.gestures.rotate.gain_bits == DEFAULT_GAIN_BITS,
            r.gestures.three_finger_drag.persistent_drag_lock,
            !r.scroll.shift_scroll_horizontal,
            r.net.web_enabled && r.net.phone_enabled,
            !r.overlay.enable,
            r.overlay.duration_ms == 600,
            r.log.level@ == "info"@,
            r.log.file is None,
            r.net.listen_ip is None && r.net.token is None,
            r.device.vid is None && r.device.pid is None,
    {
        Config {
            device: Device::default(),
            net: Net::default(),
            log: Log::default(),
            cursor: Cursor::default(),
            scroll: Scroll::default(),
            gestures: Gestures::default(),
            overlay: Overlay::default(),
            macos: Macos::default(),
            explicit: PathSet::new(),
        }
    }
}

impl Config {
    /// Whether `path` (dotted) was written explicitly in the source.
    pub fn has_explicit(&self, path: &str) -> (r: bool)
        ensures
            r == self.explicit@.contains(path@),
    {
        self.explicit.contains(path)
    }
}

// ---- file locations and logging ----

/// `Path::join` on text: an absolute `rest` replaces `base`; otherwise the
/// two are separated by one `/` unless `base` is empty or already ends in one.
pub open spec fn path_join(base: Seq<char>, rest: Seq<char>) -> Seq<char> {
    if rest.len() > 0 && rest[0] == '/' {
        rest
    } else if base.len() == 0 || base.last() == '/' {
        base + rest
    } else {
        base + seq!['/'] + rest
    }
}

pub fn join_path_text(base: &str, rest: &str) -> (r: String)
    ensures
        r@ == path_join(base@, rest@),
{
    let rb = rest.as_bytes();
    let bb = base.as_bytes();
    proof {
        crate::text::lemma_text_ascii_ends(rest@, 0x2f);
        crate::text::lemma_text_ascii_ends(base@, 0x2f);
        assert(rb@ == vstd::utf8::encode_utf8(rest@));
        assert(bb@ == vstd::utf8::encode_utf8(base@));
        assert((0x2fu32 as char) == '/');
        if rest@.len() > 0 && rest@[0] as u32 == 0x2f {
            vstd::utf8::char_u32_cast(rest@[0], 0x2f);
        }
        if base@.len() > 0 && base@.last() as u32 == 0x2f {
            vstd::utf8::char_u32_cast(base@.last(), 0x2f);
        }
    }
    if rb.len() > 0 && rb[0] == 0x2f {
        assert(rest@.len() > 0 && rest@[0] == '/');
        return rest.to_owned();
    }
    assert(!(rest@.len() > 0 && rest@[0] == '/'));
    if bb.len() == 0 || bb[bb.len() - 1] == 0x2f {
        assert(base@.len() == 0 || base@.last() == '/');
        concat_str(base, rest)
    } else {
        assert(!(base@.len() == 0 || base@.last() == '/'));
        let with_sep = concat_str(base, "/");
        proof {
            reveal_strlit("/");
        }
        concat_str(with_sep.as_str(), rest)
    }
}

/// A leading `~` or `~/` expanded against a non-empty home directory;
/// any other path as it is.
pub open spec fn expanded_tilde(path: Seq<char>, home: Option<Seq<char>>) -> Seq<char> {
    match home {
        Some(h) => if h.len() == 0 {
            path
        } else if path == seq!['~'] {
            h
        } else if path.len() >= 2 && path[0] == '~' && path[1] == '/' {
            path_join(h, path.subrange(2, path.len() as int))
        } else {
            path
        },
        None => path,
    }
}

/// Expands `path` against the home directory `home` (the value of `HOME`).
pub fn expand_tilde_with(path: &str, home: Option<&str>) -> (r: String)
    ensures
        r@ == expanded_tilde(path@, match home {
            Some(h) => Some(h@),
            None => None,
        }),
{
    let h = match home {
        Some(h) => h,
        None => {
            return path.to_owned();
        },
    };
    let hb = h.as_bytes();
    proof {
        crate::text::lemma_text_ascii_ends(h@, 0x2f);
        assert(hb@ == vstd::utf8::encode_utf8(h@));
    }
    if hb.len() == 0 {
        return path.to_owned();
    }
    proof {
        reveal_strlit("~");
        assert("~"@ =~= seq!['~']);
    }
    if str_eq(path, "~") {
        return h.to_owned();
    }
    let pb = path.as_bytes();
    if pb.len() >= 2 && pb[0] == 0x7e && pb[1] == 0x2f {
        proof {
            lemma_tilde_slash_prefix(path@);
        }
        let rest = drop_two_chars(path);
        join_path_text(h, rest.as_str())
    } else {
        proof {
            lemma_tilde_slash_prefix(path@);
        }
        path.to_owned()
    }
}

/// The first two bytes of a text are ASCII bytes `a`, `b` exactly when its
/// first two characters are those characters.
proof fn lemma_two_ascii_prefix(s: Seq<char>, a: u8, b: u8)
    requires
        a < 0x80,
        b < 0x80,
    ensures
        (vstd::utf8::encode_utf8(s).len() >= 2 && vstd::utf8::encode_utf8(s)[0] == a
            && vstd::utf8::encode_utf8(s)[1] == b) == (s.len() >= 2 && s[0] as u32 == a as u32 && s[1]
            as u32 == b as u32),
        s.len() >= 2 && s[0] as u32 == a as u32 && s[1] as u32 == b as u32 ==> vstd::utf8::encode_utf8(
            s,
        ).subrange(2, vstd::utf8::encode_utf8(s).len() as int) == vstd::utf8::encode_utf8(
            s.subrange(2, s.len() as int),
        ),
{
    crate::text::lemma_text_ascii_ends(s, a);
    if s.len() > 0 && s[0] as u32 == a as u32 {
        crate::text::lemma_scalar_ascii_ends(s[0], a);
        let t = s.drop_first();
        assert(vstd::utf8::encode_utf8(s) =~= seq![a] + vstd::utf8::encode_utf8(t));
        crate::text::lemma_text_ascii_ends(t, b);
        if t.len() > 0 && t[0] as u32 == b as u32 {
            crate::text::lemma_scalar_ascii_ends(t[0], b);
            let u = t.drop_first();
            assert(vstd::utf8::encode_utf8(t) =~= seq![b] + vstd::utf8::encode_utf8(u));
            assert(u =~= s.subrange(2, s.len() as int));
            assert(vstd::utf8::encode_utf8(s).subrange(2, vstd::utf8::encode_utf8(s).len() as int)
                =~= vstd::utf8::encode_utf8(u));
        }
    }
}

proof fn lemma_tilde_slash_prefix(s: Seq<char>)
    ensures
        (vstd::utf8::encode_utf8(s).len() >= 2 && vstd::utf8::encode_utf8(s)[0] == 0x7e
            && vstd::utf8::encode_utf8(s)[1] == 0x2f) == (s.len() >= 2 && s[0] == '~' && s[1] == '/'),
        s.len() >= 2 && s[0] == '~' && s[1] == '/' ==> vstd::utf8::encode_utf8(s).subrange(
            2,
            vstd::utf8::encode_utf8(s).len() as int,
        ) == vstd::utf8::encode_utf8(s.subrange(2, s.len() as int)),
{
    lemma_two_ascii_prefix(s, 0x7e, 0x2f);
    assert((0x7eu32 as char) == '~');
    assert((0x2fu32 as char) == '/');
    if s.len() >= 2 && s[0] as u32 == 0x7e && s[1] as u32 == 0x2f {
        vstd::utf8::char_u32_cast(s[0], 0x7e);
        vstd::utf8::char_u32_cast(s[1], 0x2f);
    }
}

/// The text after `~/`.
fn drop_two_chars(path: &str) -> (r: String)
    requires
        path@.len() >= 2,
        path@[0] == '~',
        path@[1] == '/',
    ensures
        r@ == path@.subrange(2, path@.len() as int),
{
    proof {
        lemma_tilde_slash_prefix(path@);
    }
    let pb = path.as_bytes();
    let tail = crate::text::bytes_range(pb, 2, pb.len());
    let ghost rest = path@.subrange(2, path@.len() as int);
    proof {
        vstd::utf8::encode_utf8_valid_utf8(rest);
        vstd::utf8::encode_utf8_decode_utf8(rest);
    }
    match crate::text::string_from_utf8(tail) {
        Some(s) => s,
        None => {
            assert(false);
            String::new()
        },
    }
}

/// `$XDG_CONFIG_HOME/macos-trackpad-companion/config.toml` when that variable
/// is set and non-empty, else `$HOME/.config/...` (an unset `HOME` counts as empty).
pub open spec fn config_path(xdg: Option<Seq<char>>, home: Option<Seq<char>>) -> Seq<char> {
    let base = match xdg {
        Some(x) => if x.len() > 0 {
            x
        } else {
            path_join(home_or_empty(home), ".config"@)
        },
        None => path_join(home_or_empty(home), ".config"@),
    };
    path_join(path_join(base, "macos-trackpad-companion"@), "config.toml"@)
}

pub open spec fn home_or_empty(home: Option<Seq<char>>) -> Seq<char> {
    match home {
        Some(h) => h,
        None => Seq::empty(),
    }
}

/// The default configuration file, from the values of `XDG_CONFIG_HOME` and `HOME`.
pub fn default_path_with(xdg: Option<&str>, home: Option<&str>) -> (r: String)
    ensures
        r@ == config_path(
            match xdg {
                Some(x) => Some(x@),
                None => None,
            },
            match home {
                Some(h) => Some(h@),
                None => None,
            },
        ),
{
    let home_text: &str = match home {
        Some(h) => h,
        None => "",
    };
    proof {
        reveal_strlit("");
    }
    let base = match xdg {
        Some(x) => {
            let xb = x.as_bytes();
            proof {
                crate::text::lemma_text_ascii_ends(x@, 0x2f);
            }
            if xb.len() > 0 {
                x.to_owned()
            } else {
                join_path_text(home_text, ".config")
            }
        },
        None => join_path_text(home_text, ".config"),
    };
    let dir = join_path_text(base.as_str(), "macos-trackpad-companion");
    join_path_text(dir.as_str(), "config.toml")
}

/// The log filter: `-v` is debug, `-vv` or more is trace, otherwise the
/// configured level.
pub open spec fn log_level_text(verbose: u8, configured: Seq<char>) -> Seq<char> {
    if verbose == 0 {
        configured
    } else if verbose == 1 {
        "debug"@
    } else {
        "trace"@
    }
}

pub fn log_level(verbose: u8, configured: &str) -> (r: String)
    ensures
        r@ == log_level_text(verbose, configured@),
{
    if verbose == 0 {
        configured.to_owned()
    } else if verbose == 1 {
        "debug".to_owned()
    } else {
        "trace".to_owned()
    }
}

/// Where the network listener binds.
#[derive(Clone, Copy, Debug, PartialEq, Eq, Structural)]
pub enum ListenAddress {
    /// `127.0.0.1`: no token is configured and no address was given.
    Loopback,
    /// `0.0.0.0`: a token is configured and no address was given.
    AllInterfaces,
    /// The configured `listen_ip`.
    Configured,
}

#[derive(Clone, Copy, Debug, PartialEq, Eq, Structural)]
pub enum ListenError {
    /// A non-loopback `listen_ip` without a token.
    NonLoopbackWithoutToken,
}

/// The bind rule: without a token the listener stays on loopback unless a
/// loopback address is given, and a non-loopback address is refused; with a
/// token an omitted address means all interfaces. `listen_ip_loopback` is
/// `None` when no address is configured, otherwise whether it is loopback.
pub fn listen_address(token_configured: bool, listen_ip_loopback: Option<bool>) -> (r: Result<
    ListenAddress,
    ListenError,
>)
    ensures
        listen_ip_loopback is None ==> r == Ok::<ListenAddress, ListenError>(
            if token_configured {
                ListenAddress::AllInterfaces
            } else {
                ListenAddress::Loopback
            },
        ),
        listen_ip_loopback matches Some(loopback) ==> r == (if !token_configured && !loopback {
            Err::<ListenAddress, ListenError>(ListenError::NonLoopbackWithoutToken)
        } else {
            Ok(ListenAddress::Configured)
        }),
{
    match listen_ip_loopback {
        None => Ok(if token_configured { ListenAddress::AllInterfaces } else { ListenAddress::Loopback }),
        Some(loopback) => {
            if !token_configured && !loopback {
                Err(ListenError::NonLoopbackWithoutToken)
            } else {
                Ok(ListenAddress::Configured)
            }
        },
    }
}

impl Net {
    /// The token, where it is configured and not empty.
    pub fn configured_token(&self) -> (r: Option<&str>)
        ensures
            r is Some <==> (self.token matches Some(t) && t@.len() > 0),
            r matches Some(s) ==> (self.token matches Some(t) && s@ == t@),
    {
        match &self.token {
            Some(t) => {
                if crate::config_edit::token_configured(Some(t.as_str())) {
                    Some(t.as_str())
                } else {
                    None
                }
            },
            None => None,
        }
    }
}

impl Net {
    /// Command-line values replace the configured ones.
    pub fn apply_overrides(&mut self, port: Option<u16>, listen_ip: Option<String>, token: Option<String>)
        ensures
            final(self).port == (match port {
                Some(p) => p,
                None => old(self).port,
            }),
            final(self).listen_ip == (if listen_ip is Some {
                listen_ip
            } else {
                old(self).listen_ip
            }),
            final(self).token == (if token is Some {
                token
            } else {
                old(self).token
            }),
    {
        if let Some(p) = port {
            self.port = p;
        }
        if listen_ip.is_some() {
            self.listen_ip = listen_ip;
        }
        if token.is_some() {
            self.token = token;
        }
    }
}

} // verus!
