//! The settings editor's model: categories in the order of the native
//! Trackpad pane, rows with their labels in two languages and the TOML path
//! each edits, the value texts, the cycling of multi-valued settings, and the
//! editor's navigation state.
use crate::config::{
    Config, GestureEnable, GestureParameterProfile, Gestures, HapticSetting, Macos, OneFingerTapDrag, Pinch, PressAndHoldDrag, Rotate, Scroll,
    Swipe, SwipeAxisCfg, SwipeBackend, ThreeFingerDrag,
};
use crate::toml_doc::{TomlEntry, TomlValue};
use crate::text::{ascii_chars, concat_str, decimal_bytes, hex_bytes, u64_decimal, u64_hex, PathSet};
use vstd::prelude::*;

verus! {

broadcast use vstd::string::group_string_axioms;

#[derive(Clone, Copy, Debug, PartialEq, Eq, Structural)]
pub enum Locale {
    English,
    Chinese,
}

impl Locale {
    pub open spec fn toggled(self) -> Locale {
        match self {
            Locale::English => Locale::Chinese,
            Locale::Chinese => Locale::English,
        }
    }

    pub fn toggle(&mut self)
        ensures
            *final(self) == old(self).toggled(),
    {
        *self = match *self {
            Locale::English => Locale::Chinese,
            Locale::Chinese => Locale::English,
        };
    }

    /// The label of the switch to the other language.
    pub fn language_label(self) -> (r: &'static str)
        ensures
            r@ == (match self {
                Locale::English => "中文"@,
                Locale::Chinese => "English"@,
            }),
    {
        match self {
            Locale::English => "中文",
            Locale::Chinese => "English",
        }
    }
}

#[derive(Clone, Copy, Debug, PartialEq, Eq, Structural)]
pub enum Category {
    PointAndClick,
    ScrollAndZoom,
    MoreGestures,
    Companion,
}

#[derive(Clone, Copy, Debug, PartialEq, Eq, Structural)]
pub enum Focus {
    Sidebar,
    Settings,
}

/// The sidebar, in the order of the native Trackpad pane, with the
/// companion-only group last.
pub const CATEGORIES: [Category; 4] = [
    Category::PointAndClick,
    Category::ScrollAndZoom,
    Category::MoreGestures,
    Category::Companion,
];

pub open spec fn category_order() -> Seq<Category> {
    seq![Category::PointAndClick, Category::ScrollAndZoom, Category::MoreGestures, Category::Companion]
}

impl Category {
    pub open spec fn title_text(self, locale: Locale) -> Seq<char> {
        match (self, locale) {
            (Category::PointAndClick, Locale::English) => "Point & Click"@,
            (Category::PointAndClick, Locale::Chinese) => "点按与点击"@,
            (Category::ScrollAndZoom, Locale::English) => "Scroll & Zoom"@,
            (Category::ScrollAndZoom, Locale::Chinese) => "滚动与缩放"@,
            (Category::MoreGestures, Locale::English) => "More Gestures"@,
            (Category::MoreGestures, Locale::Chinese) => "更多手势"@,
            (Category::Companion, Locale::English) => "Companion"@,
            (Category::Companion, Locale::Chinese) => "Companion 扩展"@,
        }
    }

    pub fn title(self, locale: Locale) -> (r: &'static str)
        ensures
            r@ == self.title_text(locale),
    {
        match (self, locale) {
            (Category::PointAndClick, Locale::English) => "Point & Click",
            (Category::PointAndClick, Locale::Chinese) => "点按与点击",
            (Category::ScrollAndZoom, Locale::English) => "Scroll & Zoom",
            (Category::ScrollAndZoom, Locale::Chinese) => "滚动与缩放",
            (Category::MoreGestures, Locale::English) => "More Gestures",
            (Category::MoreGestures, Locale::Chinese) => "更多手势",
            (Category::Companion, Locale::English) => "Companion",
            (Category::Companion, Locale::Chinese) => "Companion 扩展",
        }
    }

    pub open spec fn description_text(self, locale: Locale) -> Seq<char> {
        match (self, locale) {
            (Category::PointAndClick, Locale::English) => "Pointer tracking, clicking, lookup, and tactile feedback"@,
            (Category::PointAndClick, Locale::Chinese) => "指针跟踪、点击、查词与触觉反馈"@,
            (Category::ScrollAndZoom, Locale::English) => "Native-style scrolling, zooming, rotation, and momentum"@,
            (Category::ScrollAndZoom, Locale::Chinese) => "原生风格滚动、缩放、旋转与惯性"@,
            (Category::MoreGestures, Locale::English) => "Page, Space, Mission Control, and Notification Center gestures"@,
            (Category::MoreGestures, Locale::Chinese) => "页面、Space、调度中心与通知中心手势"@,
            (Category::Companion, Locale::English) => "Virtual-input controls that do not exist in macOS Trackpad settings"@,
            (Category::Companion, Locale::Chinese) => "虚拟输入专属控制，不冒充 macOS 原生选项"@,
        }
    }

    pub fn description(self, locale: Locale) -> (r: &'static str)
        ensures
            r@ == self.description_text(locale),
    {
        match (self, locale) {
            (Category::PointAndClick, Locale::English) => "Pointer tracking, clicking, lookup, and tactile feedback",
            (Category::PointAndClick, Locale::Chinese) => "指针跟踪、点击、查词与触觉反馈",
            (Category::ScrollAndZoom, Locale::English) => "Native-style scrolling, zooming, rotation, and momentum",
            (Category::ScrollAndZoom, Locale::Chinese) => "原生风格滚动、缩放、旋转与惯性",
            (Category::MoreGestures, Locale::English) => "Page, Space, Mission Control, and Notification Center gestures",
            (Category::MoreGestures, Locale::Chinese) => "页面、Space、调度中心与通知中心手势",
            (Category::Companion, Locale::English) => "Virtual-input controls that do not exist in macOS Trackpad settings",
            (Category::Companion, Locale::Chinese) => "虚拟输入专属控制，不冒充 macOS 原生选项",
        }
    }

    /// The rows of this group, top to bottom.
    pub open spec fn rows(self) -> Seq<SettingId> {
        match self {
            Category::PointAndClick => seq![
                SettingId::CursorSensitivity,
                SettingId::ClickPressure,
                SettingId::QuietClick,
                SettingId::TapToClick,
                SettingId::SecondaryClick,
                SettingId::DictionaryLookup,
                SettingId::HapticFeedback,
            ],
            Category::ScrollAndZoom => seq![
                SettingId::NaturalScroll,
                SettingId::ScrollEnabled,
                SettingId::ScrollSensitivity,
                SettingId::MomentumScroll,
                SettingId::HorizontalScroll,
                SettingId::Pinch,
                SettingId::PinchGain,
                SettingId::SmartZoom,
                SettingId::Rotate,
                SettingId::RotateGain,
                SettingId::ModifierZoomMask,
            ],
            Category::MoreGestures => seq![
                SettingId::HorizontalSwipe,
                SettingId::VerticalSwipe,
                SettingId::RightEdgeSwipe,
            ],
            Category::Companion => seq![
                SettingId::ThreeFingerDrag,
                SettingId::PersistentDragLock,
                SettingId::ReleaseDelay,
                SettingId::OneFingerTapDrag,
                SettingId::PressAndHoldDrag,
                SettingId::CursorAccelExponent,
                SettingId::CursorAccelRef,
                SettingId::HorizontalBackend,
                SettingId::VerticalBackend,
                SettingId::ShiftScrollHorizontal,
                SettingId::DynamicTransformCompat,
                SettingId::ParameterProfile,
                SettingId::SurfaceWidth,
                SettingId::SyncSystemSettings,
            ],
        }
    }

    pub fn settings(self) -> (r: Vec<SettingId>)
        ensures
            r@ == self.rows(),
    {
        let r = match self {
            Category::PointAndClick => vec![
                SettingId::CursorSensitivity,
                SettingId::ClickPressure,
                SettingId::QuietClick,
                SettingId::TapToClick,
                SettingId::SecondaryClick,
                SettingId::DictionaryLookup,
                SettingId::HapticFeedback,
            ],
            Category::ScrollAndZoom => vec![
                SettingId::NaturalScroll,
                SettingId::ScrollEnabled,
                SettingId::ScrollSensitivity,
                SettingId::MomentumScroll,
                SettingId::HorizontalScroll,
                SettingId::Pinch,
                SettingId::PinchGain,
                SettingId::SmartZoom,
                SettingId::Rotate,
                SettingId::RotateGain,
                SettingId::ModifierZoomMask,
            ],
            Category::MoreGestures => vec![
                SettingId::HorizontalSwipe,
                SettingId::VerticalSwipe,
                SettingId::RightEdgeSwipe,
            ],
            Category::Companion => vec![
                SettingId::ThreeFingerDrag,
                SettingId::PersistentDragLock,
                SettingId::ReleaseDelay,
                SettingId::OneFingerTapDrag,
                SettingId::PressAndHoldDrag,
                SettingId::CursorAccelExponent,
                SettingId::CursorAccelRef,
                SettingId::HorizontalBackend,
                SettingId::VerticalBackend,
                SettingId::ShiftScrollHorizontal,
                SettingId::DynamicTransformCompat,
                SettingId::ParameterProfile,
                SettingId::SurfaceWidth,
                SettingId::SyncSystemSettings,
            ],
        };
        assert(r@ =~= self.rows());
        r
    }
}

#[derive(Clone, Copy, Debug, PartialEq, Eq, Structural)]
pub enum SettingId {
    CursorSensitivity,
    ClickPressure,
    QuietClick,
    TapToClick,
    SecondaryClick,
    DictionaryLookup,
    HapticFeedback,
    NaturalScroll,
    Pinch,
    PinchGain,
    SmartZoom,
    Rotate,
    RotateGain,
    ScrollSensitivity,
    ScrollEnabled,
    HorizontalScroll,
    MomentumScroll,
    ModifierZoomMask,
    HorizontalSwipe,
    VerticalSwipe,
    RightEdgeSwipe,
    ThreeFingerDrag,
    PersistentDragLock,
    ReleaseDelay,
    OneFingerTapDrag,
    PressAndHoldDrag,
    CursorAccelExponent,
    CursorAccelRef,
    HorizontalBackend,
    VerticalBackend,
    ShiftScrollHorizontal,
    DynamicTransformCompat,
    ParameterProfile,
    SurfaceWidth,
    SyncSystemSettings,
}

impl SettingId {
    /// Rows that belong to the physical trackpad and cannot be edited here.
    pub open spec fn spec_is_hardware_only(self) -> bool {
        self is ClickPressure || self is QuietClick
    }

    pub fn is_hardware_only(self) -> (r: bool)
        ensures
            r == self.spec_is_hardware_only(),
    {
        matches!(self, SettingId::ClickPressure | SettingId::QuietClick)
    }

    /// The label shown for this row.
    pub open spec fn label_text(self, locale: Locale) -> Seq<char> {
        match (self, locale) {
            (SettingId::CursorSensitivity, Locale::English) => "Tracking speed"@,
            (SettingId::CursorSensitivity, Locale::Chinese) => "跟踪速度"@,
            (SettingId::ClickPressure, Locale::English) => "Click"@,
            (SettingId::ClickPressure, Locale::Chinese) => "点按力度"@,
            (SettingId::QuietClick, Locale::English) => "Quiet Click"@,
            (SettingId::QuietClick, Locale::Chinese) => "静音点按"@,
            (SettingId::TapToClick, Locale::English) => "Tap to click"@,
            (SettingId::TapToClick, Locale::Chinese) => "轻点来点按"@,
            (SettingId::SecondaryClick, Locale::English) => "Secondary click"@,
            (SettingId::SecondaryClick, Locale::Chinese) => "辅助点按"@,
            (SettingId::DictionaryLookup, Locale::English) => "Look up & data detectors"@,
            (SettingId::DictionaryLookup, Locale::Chinese) => "查询与数据检测器"@,
            (SettingId::HapticFeedback, Locale::English) => "Force Click and haptic feedback"@,
            (SettingId::HapticFeedback, Locale::Chinese) => "用力点按与触觉反馈"@,
            (SettingId::NaturalScroll, Locale::English) => "Natural scrolling"@,
            (SettingId::NaturalScroll, Locale::Chinese) => "自然滚动"@,
            (SettingId::Pinch, Locale::English) => "Zoom in or out"@,
            (SettingId::Pinch, Locale::Chinese) => "放大或缩小"@,
            (SettingId::PinchGain, Locale::English) => "Zoom response"@,
            (SettingId::PinchGain, Locale::Chinese) => "缩放响应"@,
            (SettingId::SmartZoom, Locale::English) => "Smart zoom"@,
            (SettingId::SmartZoom, Locale::Chinese) => "智能缩放"@,
            (SettingId::Rotate, Locale::English) => "Rotate"@,
            (SettingId::Rotate, Locale::Chinese) => "旋转"@,
            (SettingId::RotateGain, Locale::English) => "Rotation response"@,
            (SettingId::RotateGain, Locale::Chinese) => "旋转响应"@,
            (SettingId::ScrollSensitivity, Locale::English) => "Scroll sensitivity"@,
            (SettingId::ScrollSensitivity, Locale::Chinese) => "滚动灵敏度"@,
            (SettingId::ScrollEnabled, Locale::English) => "Trackpad scrolling"@,
            (SettingId::ScrollEnabled, Locale::Chinese) => "触控板滚动"@,
            (SettingId::HorizontalScroll, Locale::English) => "Horizontal scrolling"@,
            (SettingId::HorizontalScroll, Locale::Chinese) => "水平滚动"@,
            (SettingId::MomentumScroll, Locale::English) => "Momentum scrolling"@,
            (SettingId::MomentumScroll, Locale::Chinese) => "惯性滚动"@,
            (SettingId::ModifierZoomMask, Locale::English) => "Zoom modifier"@,
            (SettingId::ModifierZoomMask, Locale::Chinese) => "缩放修饰键"@,
            (SettingId::HorizontalSwipe, Locale::English) => "Swipe between pages"@,
            (SettingId::HorizontalSwipe, Locale::Chinese) => "在页面之间轻扫"@,
            (SettingId::VerticalSwipe, Locale::English) => "Mission Control"@,
            (SettingId::VerticalSwipe, Locale::Chinese) => "调度中心"@,
            (SettingId::RightEdgeSwipe, Locale::English) => "Notification Center"@,
            (SettingId::RightEdgeSwipe, Locale::Chinese) => "通知中心"@,
            (SettingId::ThreeFingerDrag, Locale::English) => "Three-finger drag"@,
            (SettingId::ThreeFingerDrag, Locale::Chinese) => "三指拖移"@,
            (SettingId::PersistentDragLock, Locale::English) => "Persistent drag lock"@,
            (SettingId::PersistentDragLock, Locale::Chinese) => "持久拖移锁定"@,
            (SettingId::ReleaseDelay, Locale::English) => "Drag-lock delay"@,
            (SettingId::ReleaseDelay, Locale::Chinese) => "拖移锁定延迟"@,
            (SettingId::OneFingerTapDrag, Locale::English) => "One-finger tap-drag"@,
            (SettingId::OneFingerTapDrag, Locale::Chinese) => "单指轻点拖移"@,
            (SettingId::PressAndHoldDrag, Locale::English) => "Press-and-hold drag"@,
            (SettingId::PressAndHoldDrag, Locale::Chinese) => "按住拖移"@,
            (SettingId::CursorAccelExponent, Locale::English) => "Acceleration curve"@,
            (SettingId::CursorAccelExponent, Locale::Chinese) => "加速度曲线"@,
            (SettingId::CursorAccelRef, Locale::English) => "Acceleration reference"@,
            (SettingId::CursorAccelRef, Locale::Chinese) => "加速度参考速度"@,
            (SettingId::HorizontalBackend, Locale::English) => "Horizontal swipe backend"@,
            (SettingId::HorizontalBackend, Locale::Chinese) => "水平轻扫后端"@,
            (SettingId::VerticalBackend, Locale::English) => "Vertical swipe backend"@,
            (SettingId::VerticalBackend, Locale::Chinese) => "垂直轻扫后端"@,
            (SettingId::ShiftScrollHorizontal, Locale::English) => "Shift scroll compatibility"@,
            (SettingId::ShiftScrollHorizontal, Locale::Chinese) => "Shift 滚动兼容"@,
            (SettingId::DynamicTransformCompat, Locale::English) => "Scroll-to-transform compatibility"@,
            (SettingId::DynamicTransformCompat, Locale::Chinese) => "滚动转变换兼容"@,
            (SettingId::ParameterProfile, Locale::English) => "Gesture parameter profile"@,
            (SettingId::ParameterProfile, Locale::Chinese) => "手势参数配置"@,
            (SettingId::SurfaceWidth, Locale::English) => "Virtual surface width"@,
            (SettingId::SurfaceWidth, Locale::Chinese) => "虚拟触控面宽度"@,
            (SettingId::SyncSystemSettings, Locale::English) => "Sync macOS settings"@,
            (SettingId::SyncSystemSettings, Locale::Chinese) => "同步 macOS 设置"@,
        }
    }

    pub fn label(self, locale: Locale) -> (r: &'static str)
        ensures
            r@ == self.label_text(locale),
    {
        match (self, locale) {
            (SettingId::CursorSensitivity, Locale::English) => "Tracking speed",
            (SettingId::CursorSensitivity, Locale::Chinese) => "跟踪速度",
            (SettingId::ClickPressure, Locale::English) => "Click",
            (SettingId::ClickPressure, Locale::Chinese) => "点按力度",
            (SettingId::QuietClick, Locale::English) => "Quiet Click",
            (SettingId::QuietClick, Locale::Chinese) => "静音点按",
            (SettingId::TapToClick, Locale::English) => "Tap to click",
            (SettingId::TapToClick, Locale::Chinese) => "轻点来点按",
            (SettingId::SecondaryClick, Locale::English) => "Secondary click",
            (SettingId::SecondaryClick, Locale::Chinese) => "辅助点按",
            (SettingId::DictionaryLookup, Locale::English) => "Look up & data detectors",
            (SettingId::DictionaryLookup, Locale::Chinese) => "查询与数据检测器",
            (SettingId::HapticFeedback, Locale::English) => "Force Click and haptic feedback",
            (SettingId::HapticFeedback, Locale::Chinese) => "用力点按与触觉反馈",
            (SettingId::NaturalScroll, Locale::English) => "Natural scrolling",
            (SettingId::NaturalScroll, Locale::Chinese) => "自然滚动",
            (SettingId::Pinch, Locale::English) => "Zoom in or out",
            (SettingId::Pinch, Locale::Chinese) => "放大或缩小",
            (SettingId::PinchGain, Locale::English) => "Zoom response",
            (SettingId::PinchGain, Locale::Chinese) => "缩放响应",
            (SettingId::SmartZoom, Locale::English) => "Smart zoom",
            (SettingId::SmartZoom, Locale::Chinese) => "智能缩放",
            (SettingId::Rotate, Locale::English) => "Rotate",
            (SettingId::Rotate, Locale::Chinese) => "旋转",
            (SettingId::RotateGain, Locale::English) => "Rotation response",
            (SettingId::RotateGain, Locale::Chinese) => "旋转响应",
            (SettingId::ScrollSensitivity, Locale::English) => "Scroll sensitivity",
            (SettingId::ScrollSensitivity, Locale::Chinese) => "滚动灵敏度",
            (SettingId::ScrollEnabled, Locale::English) => "Trackpad scrolling",
            (SettingId::ScrollEnabled, Locale::Chinese) => "触控板滚动",
            (SettingId::HorizontalScroll, Locale::English) => "Horizontal scrolling",
            (SettingId::HorizontalScroll, Locale::Chinese) => "水平滚动",
            (SettingId::MomentumScroll, Locale::English) => "Momentum scrolling",
            (SettingId::MomentumScroll, Locale::Chinese) => "惯性滚动",
            (SettingId::ModifierZoomMask, Locale::English) => "Zoom modifier",
            (SettingId::ModifierZoomMask, Locale::Chinese) => "缩放修饰键",
            (SettingId::HorizontalSwipe, Locale::English) => "Swipe between pages",
            (SettingId::HorizontalSwipe, Locale::Chinese) => "在页面之间轻扫",
            (SettingId::VerticalSwipe, Locale::English) => "Mission Control",
            (SettingId::VerticalSwipe, Locale::Chinese) => "调度中心",
            (SettingId::RightEdgeSwipe, Locale::English) => "Notification Center",
            (SettingId::RightEdgeSwipe, Locale::Chinese) => "通知中心",
            (SettingId::ThreeFingerDrag, Locale::English) => "Three-finger drag",
            (SettingId::ThreeFingerDrag, Locale::Chinese) => "三指拖移",
            (SettingId::PersistentDragLock, Locale::English) => "Persistent drag lock",
            (SettingId::PersistentDragLock, Locale::Chinese) => "持久拖移锁定",
            (SettingId::ReleaseDelay, Locale::English) => "Drag-lock delay",
            (SettingId::ReleaseDelay, Locale::Chinese) => "拖移锁定延迟",
            (SettingId::OneFingerTapDrag, Locale::English) => "One-finger tap-drag",
            (SettingId::OneFingerTapDrag, Locale::Chinese) => "单指轻点拖移",
            (SettingId::PressAndHoldDrag, Locale::English) => "Press-and-hold drag",
            (SettingId::PressAndHoldDrag, Locale::Chinese) => "按住拖移",
            (SettingId::CursorAccelExponent, Locale::English) => "Acceleration curve",
            (SettingId::CursorAccelExponent, Locale::Chinese) => "加速度曲线",
            (SettingId::CursorAccelRef, Locale::English) => "Acceleration reference",
            (SettingId::CursorAccelRef, Locale::Chinese) => "加速度参考速度",
            (SettingId::HorizontalBackend, Locale::English) => "Horizontal swipe backend",
            (SettingId::HorizontalBackend, Locale::Chinese) => "水平轻扫后端",
            (SettingId::VerticalBackend, Locale::English) => "Vertical swipe backend",
            (SettingId::VerticalBackend, Locale::Chinese) => "垂直轻扫后端",
            (SettingId::ShiftScrollHorizontal, Locale::English) => "Shift scroll compatibility",
            (SettingId::ShiftScrollHorizontal, Locale::Chinese) => "Shift 滚动兼容",
            (SettingId::DynamicTransformCompat, Locale::English) => "Scroll-to-transform compatibility",
            (SettingId::DynamicTransformCompat, Locale::Chinese) => "滚动转变换兼容",
            (SettingId::ParameterProfile, Locale::English) => "Gesture parameter profile",
            (SettingId::ParameterProfile, Locale::Chinese) => "手势参数配置",
            (SettingId::SurfaceWidth, Locale::English) => "Virtual surface width",
            (SettingId::SurfaceWidth, Locale::Chinese) => "虚拟触控面宽度",
            (SettingId::SyncSystemSettings, Locale::English) => "Sync macOS settings",
            (SettingId::SyncSystemSettings, Locale::Chinese) => "同步 macOS 设置",
        }
    }

    /// The description shown for this row.
    pub open spec fn description_text(self, locale: Locale) -> Seq<char> {
        match (self, locale) {
            (SettingId::CursorSensitivity, Locale::English) => "Set how fast the pointer moves across the screen."@,
            (SettingId::CursorSensitivity, Locale::Chinese) => "设置指针在屏幕上的移动速度。"@,
            (SettingId::ClickPressure, Locale::English) => "Hardware-only setting; unavailable for virtual input."@,
            (SettingId::ClickPressure, Locale::Chinese) => "仅适用于实体触控板；虚拟输入不可用。"@,
            (SettingId::QuietClick, Locale::English) => "Hardware-only setting; unavailable for virtual input."@,
            (SettingId::QuietClick, Locale::Chinese) => "仅适用于实体触控板；虚拟输入不可用。"@,
            (SettingId::TapToClick, Locale::English) => "Tap with one finger to click."@,
            (SettingId::TapToClick, Locale::Chinese) => "用一个手指轻点触控板来点按。"@,
            (SettingId::SecondaryClick, Locale::English) => "Click or tap with two fingers."@,
            (SettingId::SecondaryClick, Locale::Chinese) => "用两个手指点按来打开辅助菜单。"@,
            (SettingId::DictionaryLookup, Locale::English) => "Use a gesture to look up words and detect addresses or dates."@,
            (SettingId::DictionaryLookup, Locale::Chinese) => "使用手势查询单词，并检测地址或日期。"@,
            (SettingId::HapticFeedback, Locale::English) => "Enable tactile confirmation for supported virtual clicks."@,
            (SettingId::HapticFeedback, Locale::Chinese) => "为支持的虚拟点按启用触觉确认。"@,
            (SettingId::NaturalScroll, Locale::English) => "Move the contents of a window in the same direction as your fingers."@,
            (SettingId::NaturalScroll, Locale::Chinese) => "让窗口内容与手指移动方向一致。"@,
            (SettingId::Pinch, Locale::English) => "Pinch with two fingers to zoom."@,
            (SettingId::Pinch, Locale::Chinese) => "用两个手指捏合来缩放。"@,
            (SettingId::PinchGain, Locale::English) => "Companion-only multiplier for magnification deltas; macOS has no native slider."@,
            (SettingId::PinchGain, Locale::Chinese) => "仅限 Companion 的缩放增量倍率；macOS 没有原生滑块。"@,
            (SettingId::SmartZoom, Locale::English) => "Double-tap with two fingers to zoom."@,
            (SettingId::SmartZoom, Locale::Chinese) => "用两个手指轻点两下以智能缩放。"@,
            (SettingId::Rotate, Locale::English) => "Rotate items with two fingers."@,
            (SettingId::Rotate, Locale::Chinese) => "用两个手指旋转屏幕上的项目。"@,
            (SettingId::RotateGain, Locale::English) => "Companion-only multiplier for rotation deltas; macOS has no native slider."@,
            (SettingId::RotateGain, Locale::Chinese) => "仅限 Companion 的旋转增量倍率；macOS 没有原生滑块。"@,
            (SettingId::ScrollSensitivity, Locale::English) => "Tune the virtual scroll response."@,
            (SettingId::ScrollSensitivity, Locale::Chinese) => "调整虚拟滚动的响应速度。"@,
            (SettingId::ScrollEnabled, Locale::English) => "Emit two-finger scroll events."@,
            (SettingId::ScrollEnabled, Locale::Chinese) => "发送双指滚动事件。"@,
            (SettingId::HorizontalScroll, Locale::English) => "Preserve horizontal scroll deltas."@,
            (SettingId::HorizontalScroll, Locale::Chinese) => "保留水平滚动分量。"@,
            (SettingId::MomentumScroll, Locale::English) => "Continue scrolling after fingers lift."@,
            (SettingId::MomentumScroll, Locale::Chinese) => "抬指后继续滚动一小段惯性。"@,
            (SettingId::ModifierZoomMask, Locale::English) => "Choose the keyboard modifier used for scroll-to-zoom."@,
            (SettingId::ModifierZoomMask, Locale::Chinese) => "选择滚动缩放使用的键盘修饰键。"@,
            (SettingId::HorizontalSwipe, Locale::English) => "Swipe between document pages."@,
            (SettingId::HorizontalSwipe, Locale::Chinese) => "在文档页面之间左右轻扫。"@,
            (SettingId::VerticalSwipe, Locale::English) => "Swipe up to open Mission Control."@,
            (SettingId::VerticalSwipe, Locale::Chinese) => "向上轻扫以打开调度中心。"@,
            (SettingId::RightEdgeSwipe, Locale::English) => "Swipe from the right edge for notifications."@,
            (SettingId::RightEdgeSwipe, Locale::Chinese) => "从右边缘向左轻扫以显示通知中心。"@,
            (SettingId::ThreeFingerDrag, Locale::English) => "Hold a virtual click while three fingers move."@,
            (SettingId::ThreeFingerDrag, Locale::Chinese) => "三指移动时保持虚拟点按，用于拖移窗口或项目。"@,
            (SettingId::PersistentDragLock, Locale::English) => "Keep the drag across 3F → 4F → 3F; moving 1F/2F returns to normal input."@,
            (SettingId::PersistentDragLock, Locale::Chinese) => "保持 3F → 4F → 3F 拖移；单指或双指移动会立即恢复普通输入。"@,
            (SettingId::ReleaseDelay, Locale::English) => "Keep the drag held briefly while changing grip."@,
            (SettingId::ReleaseDelay, Locale::Chinese) => "换手时短暂保持拖移，避免按键粘连。"@,
            (SettingId::OneFingerTapDrag, Locale::English) => "Double-tap and hold to drag with one finger."@,
            (SettingId::OneFingerTapDrag, Locale::Chinese) => "单指双击后保持按住并拖移。"@,
            (SettingId::PressAndHoldDrag, Locale::English) => "Accessibility-style stationary press drag."@,
            (SettingId::PressAndHoldDrag, Locale::Chinese) => "无移动时按住即可开始拖移的辅助模式。"@,
            (SettingId::CursorAccelExponent, Locale::English) => "Power curve applied to pointer velocity."@,
            (SettingId::CursorAccelExponent, Locale::Chinese) => "应用于指针速度的幂函数曲线。"@,
            (SettingId::CursorAccelRef, Locale::English) => "Velocity at which acceleration reaches its reference."@,
            (SettingId::CursorAccelRef, Locale::Chinese) => "加速度达到参考值时的移动速度。"@,
            (SettingId::HorizontalBackend, Locale::English) => "Output used for horizontal Space/page swipes."@,
            (SettingId::HorizontalBackend, Locale::Chinese) => "水平 Space/页面轻扫使用的输出方式。"@,
            (SettingId::VerticalBackend, Locale::English) => "Output used for Mission Control or notifications."@,
            (SettingId::VerticalBackend, Locale::Chinese) => "调度中心或通知手势使用的输出方式。"@,
            (SettingId::ShiftScrollHorizontal, Locale::English) => "Optional compatibility remap; native mode keeps the original axis."@,
            (SettingId::ShiftScrollHorizontal, Locale::Chinese) => "可选兼容转换；原生模式保留手指的原始滚动轴。"@,
            (SettingId::DynamicTransformCompat, Locale::English) => "Allow an established scroll to become pinch or rotate; off matches native scroll lock."@,
            (SettingId::DynamicTransformCompat, Locale::Chinese) => "允许已开始的滚动转为缩放或旋转；关闭时遵循原生滚动锁定。"@,
            (SettingId::ParameterProfile, Locale::English) => "Use native thresholds or the experimental ChromiumOS gesture profile."@,
            (SettingId::ParameterProfile, Locale::Chinese) => "选择原生阈值，或试用 ChromiumOS 的实验参数配置。"@,
            (SettingId::SurfaceWidth, Locale::English) => "Width used to locate the right-edge gesture zone."@,
            (SettingId::SurfaceWidth, Locale::Chinese) => "用于计算右边缘手势区域的虚拟触控面宽度。"@,
            (SettingId::SyncSystemSettings, Locale::English) => "Use available macOS preferences as startup defaults."@,
            (SettingId::SyncSystemSettings, Locale::Chinese) => "启动时读取可用的 macOS 偏好作为默认值。"@,
        }
    }

    pub fn description(self, locale: Locale) -> (r: &'static str)
        ensures
            r@ == self.description_text(locale),
    {
        match (self, locale) {
            (SettingId::CursorSensitivity, Locale::English) => "Set how fast the pointer moves across the screen.",
            (SettingId::CursorSensitivity, Locale::Chinese) => "设置指针在屏幕上的移动速度。",
            (SettingId::ClickPressure, Locale::English) => "Hardware-only setting; unavailable for virtual input.",
            (SettingId::ClickPressure, Locale::Chinese) => "仅适用于实体触控板；虚拟输入不可用。",
            (SettingId::QuietClick, Locale::English) => "Hardware-only setting; unavailable for virtual input.",
            (SettingId::QuietClick, Locale::Chinese) => "仅适用于实体触控板；虚拟输入不可用。",
            (SettingId::TapToClick, Locale::English) => "Tap with one finger to click.",
            (SettingId::TapToClick, Locale::Chinese) => "用一个手指轻点触控板来点按。",
            (SettingId::SecondaryClick, Locale::English) => "Click or tap with two fingers.",
            (SettingId::SecondaryClick, Locale::Chinese) => "用两个手指点按来打开辅助菜单。",
            (SettingId::DictionaryLookup, Locale::English) => "Use a gesture to look up words and detect addresses or dates.",
            (SettingId::DictionaryLookup, Locale::Chinese) => "使用手势查询单词，并检测地址或日期。",
            (SettingId::HapticFeedback, Locale::English) => "Enable tactile confirmation for supported virtual clicks.",
            (SettingId::HapticFeedback, Locale::Chinese) => "为支持的虚拟点按启用触觉确认。",
            (SettingId::NaturalScroll, Locale::English) => "Move the contents of a window in the same direction as your fingers.",
            (SettingId::NaturalScroll, Locale::Chinese) => "让窗口内容与手指移动方向一致。",
            (SettingId::Pinch, Locale::English) => "Pinch with two fingers to zoom.",
            (SettingId::Pinch, Locale::Chinese) => "用两个手指捏合来缩放。",
            (SettingId::PinchGain, Locale::English) => "Companion-only multiplier for magnification deltas; macOS has no native slider.",
            (SettingId::PinchGain, Locale::Chinese) => "仅限 Companion 的缩放增量倍率；macOS 没有原生滑块。",
            (SettingId::SmartZoom, Locale::English) => "Double-tap with two fingers to zoom.",
            (SettingId::SmartZoom, Locale::Chinese) => "用两个手指轻点两下以智能缩放。",
            (SettingId::Rotate, Locale::English) => "Rotate items with two fingers.",
            (SettingId::Rotate, Locale::Chinese) => "用两个手指旋转屏幕上的项目。",
            (SettingId::RotateGain, Locale::English) => "Companion-only multiplier for rotation deltas; macOS has no native slider.",
            (SettingId::RotateGain, Locale::Chinese) => "仅限 Companion 的旋转增量倍率；macOS 没有原生滑块。",
            (SettingId::ScrollSensitivity, Locale::English) => "Tune the virtual scroll response.",
            (SettingId::ScrollSensitivity, Locale::Chinese) => "调整虚拟滚动的响应速度。",
            (SettingId::ScrollEnabled, Locale::English) => "Emit two-finger scroll events.",
            (SettingId::ScrollEnabled, Locale::Chinese) => "发送双指滚动事件。",
            (SettingId::HorizontalScroll, Locale::English) => "Preserve horizontal scroll deltas.",
            (SettingId::HorizontalScroll, Locale::Chinese) => "保留水平滚动分量。",
            (SettingId::MomentumScroll, Locale::English) => "Continue scrolling after fingers lift.",
            (SettingId::MomentumScroll, Locale::Chinese) => "抬指后继续滚动一小段惯性。",
            (SettingId::ModifierZoomMask, Locale::English) => "Choose the keyboard modifier used for scroll-to-zoom.",
            (SettingId::ModifierZoomMask, Locale::Chinese) => "选择滚动缩放使用的键盘修饰键。",
            (SettingId::HorizontalSwipe, Locale::English) => "Swipe between document pages.",
            (SettingId::HorizontalSwipe, Locale::Chinese) => "在文档页面之间左右轻扫。",
            (SettingId::VerticalSwipe, Locale::English) => "Swipe up to open Mission Control.",
            (SettingId::VerticalSwipe, Locale::Chinese) => "向上轻扫以打开调度中心。",
            (SettingId::RightEdgeSwipe, Locale::English) => "Swipe from the right edge for notifications.",
            (SettingId::RightEdgeSwipe, Locale::Chinese) => "从右边缘向左轻扫以显示通知中心。",
            (SettingId::ThreeFingerDrag, Locale::English) => "Hold a virtual click while three fingers move.",
            (SettingId::ThreeFingerDrag, Locale::Chinese) => "三指移动时保持虚拟点按，用于拖移窗口或项目。",
            (SettingId::PersistentDragLock, Locale::English) => "Keep the drag across 3F → 4F → 3F; moving 1F/2F returns to normal input.",
            (SettingId::PersistentDragLock, Locale::Chinese) => "保持 3F → 4F → 3F 拖移；单指或双指移动会立即恢复普通输入。",
            (SettingId::ReleaseDelay, Locale::English) => "Keep the drag held briefly while changing grip.",
            (SettingId::ReleaseDelay, Locale::Chinese) => "换手时短暂保持拖移，避免按键粘连。",
            (SettingId::OneFingerTapDrag, Locale::English) => "Double-tap and hold to drag with one finger.",
            (SettingId::OneFingerTapDrag, Locale::Chinese) => "单指双击后保持按住并拖移。",
            (SettingId::PressAndHoldDrag, Locale::English) => "Accessibility-style stationary press drag.",
            (SettingId::PressAndHoldDrag, Locale::Chinese) => "无移动时按住即可开始拖移的辅助模式。",
            (SettingId::CursorAccelExponent, Locale::English) => "Power curve applied to pointer velocity.",
            (SettingId::CursorAccelExponent, Locale::Chinese) => "应用于指针速度的幂函数曲线。",
            (SettingId::CursorAccelRef, Locale::English) => "Velocity at which acceleration reaches its reference.",
            (SettingId::CursorAccelRef, Locale::Chinese) => "加速度达到参考值时的移动速度。",
            (SettingId::HorizontalBackend, Locale::English) => "Output used for horizontal Space/page swipes.",
            (SettingId::HorizontalBackend, Locale::Chinese) => "水平 Space/页面轻扫使用的输出方式。",
            (SettingId::VerticalBackend, Locale::English) => "Output used for Mission Control or notifications.",
            (SettingId::VerticalBackend, Locale::Chinese) => "调度中心或通知手势使用的输出方式。",
            (SettingId::ShiftScrollHorizontal, Locale::English) => "Optional compatibility remap; native mode keeps the original axis.",
            (SettingId::ShiftScrollHorizontal, Locale::Chinese) => "可选兼容转换；原生模式保留手指的原始滚动轴。",
            (SettingId::DynamicTransformCompat, Locale::English) => "Allow an established scroll to become pinch or rotate; off matches native scroll lock.",
            (SettingId::DynamicTransformCompat, Locale::Chinese) => "允许已开始的滚动转为缩放或旋转；关闭时遵循原生滚动锁定。",
            (SettingId::ParameterProfile, Locale::English) => "Use native thresholds or the experimental ChromiumOS gesture profile.",
            (SettingId::ParameterProfile, Locale::Chinese) => "选择原生阈值，或试用 ChromiumOS 的实验参数配置。",
            (SettingId::SurfaceWidth, Locale::English) => "Width used to locate the right-edge gesture zone.",
            (SettingId::SurfaceWidth, Locale::Chinese) => "用于计算右边缘手势区域的虚拟触控面宽度。",
            (SettingId::SyncSystemSettings, Locale::English) => "Use available macOS preferences as startup defaults.",
            (SettingId::SyncSystemSettings, Locale::Chinese) => "启动时读取可用的 macOS 偏好作为默认值。",
        }
    }

    /// The TOML path this row edits, one key per level; empty for hardware-only rows.
    pub open spec fn path_keys(self) -> Seq<Seq<char>> {
        match self {
            SettingId::CursorSensitivity => seq!["cursor"@, "sensitivity"@],
            SettingId::ClickPressure => seq![],
            SettingId::QuietClick => seq![],
            SettingId::TapToClick => seq!["gestures"@, "tap_to_click"@],
            SettingId::SecondaryClick => seq!["gestures"@, "secondary_click"@],
            SettingId::DictionaryLookup => seq!["gestures"@, "dictionary_lookup"@],
            SettingId::HapticFeedback => seq!["macos"@, "haptic_feedback"@],
            SettingId::NaturalScroll => seq!["scroll"@, "natural"@],
            SettingId::Pinch => seq!["gestures"@, "pinch"@, "enable"@],
            SettingId::PinchGain => seq!["gestures"@, "pinch"@, "gain"@],
            SettingId::SmartZoom => seq!["gestures"@, "smart_zoom"@],
            SettingId::Rotate => seq!["gestures"@, "rotate"@, "enable"@],
            SettingId::RotateGain => seq!["gestures"@, "rotate"@, "gain"@],
            SettingId::ScrollSensitivity => seq!["scroll"@, "sensitivity"@],
            SettingId::ScrollEnabled => seq!["scroll"@, "enable"@],
            SettingId::HorizontalScroll => seq!["scroll"@, "horizontal"@],
            SettingId::MomentumScroll => seq!["scroll"@, "momentum"@],
            SettingId::ModifierZoomMask => seq!["scroll"@, "modifier_zoom_mask"@],
            SettingId::HorizontalSwipe => seq!["gestures"@, "swipe"@, "horizontal"@, "enable"@],
            SettingId::VerticalSwipe => seq!["gestures"@, "swipe"@, "vertical"@, "enable"@],
            SettingId::RightEdgeSwipe => seq!["gestures"@, "right_edge_swipe"@],
            SettingId::ThreeFingerDrag => seq!["gestures"@, "three_finger_drag"@, "enable"@],
            SettingId::PersistentDragLock => seq!["gestures"@, "three_finger_drag"@, "persistent_drag_lock"@],
            SettingId::ReleaseDelay => seq!["gestures"@, "three_finger_drag"@, "release_delay_ms"@],
            SettingId::OneFingerTapDrag => seq!["gestures"@, "one_finger_tap_drag"@, "enable"@],
            SettingId::PressAndHoldDrag => seq!["gestures"@, "press_and_hold_drag"@, "enable"@],
            SettingId::CursorAccelExponent => seq!["cursor"@, "accel_exponent"@],
            SettingId::CursorAccelRef => seq!["cursor"@, "accel_ref"@],
            SettingId::HorizontalBackend => seq!["gestures"@, "swipe"@, "horizontal"@, "backend"@],
            SettingId::VerticalBackend => seq!["gestures"@, "swipe"@, "vertical"@, "backend"@],
            SettingId::ShiftScrollHorizontal => seq!["scroll"@, "shift_scroll_horizontal"@],
            SettingId::DynamicTransformCompat => seq!["gestures"@, "dynamic_transform_compat"@],
            SettingId::ParameterProfile => seq!["gestures"@, "parameter_profile"@],
            SettingId::SurfaceWidth => seq!["gestures"@, "surface_width_mm"@],
            SettingId::SyncSystemSettings => seq!["macos"@, "sync_system_settings"@],
        }
    }

    pub fn path(self) -> (r: Vec<&'static str>)
        ensures
            r@.map_values(|k: &'static str| k@) == self.path_keys(),
    {
        let r = match self {
            SettingId::CursorSensitivity => vec!["cursor", "sensitivity"],
            SettingId::ClickPressure => vec![],
            SettingId::QuietClick => vec![],
            SettingId::TapToClick => vec!["gestures", "tap_to_click"],
            SettingId::SecondaryClick => vec!["gestures", "secondary_click"],
            SettingId::DictionaryLookup => vec!["gestures", "dictionary_lookup"],
            SettingId::HapticFeedback => vec!["macos", "haptic_feedback"],
            SettingId::NaturalScroll => vec!["scroll", "natural"],
            SettingId::Pinch => vec!["gestures", "pinch", "enable"],
            SettingId::PinchGain => vec!["gestures", "pinch", "gain"],
            SettingId::SmartZoom => vec!["gestures", "smart_zoom"],
            SettingId::Rotate => vec!["gestures", "rotate", "enable"],
            SettingId::RotateGain => vec!["gestures", "rotate", "gain"],
            SettingId::ScrollSensitivity => vec!["scroll", "sensitivity"],
            SettingId::ScrollEnabled => vec!["scroll", "enable"],
            SettingId::HorizontalScroll => vec!["scroll", "horizontal"],
            SettingId::MomentumScroll => vec!["scroll", "momentum"],
            SettingId::ModifierZoomMask => vec!["scroll", "modifier_zoom_mask"],
            SettingId::HorizontalSwipe => vec!["gestures", "swipe", "horizontal", "enable"],
            SettingId::VerticalSwipe => vec!["gestures", "swipe", "vertical", "enable"],
            SettingId::RightEdgeSwipe => vec!["gestures", "right_edge_swipe"],
            SettingId::ThreeFingerDrag => vec!["gestures", "three_finger_drag", "enable"],
            SettingId::PersistentDragLock => vec!["gestures", "three_finger_drag", "persistent_drag_lock"],
            SettingId::ReleaseDelay => vec!["gestures", "three_finger_drag", "release_delay_ms"],
            SettingId::OneFingerTapDrag => vec!["gestures", "one_finger_tap_drag", "enable"],
            SettingId::PressAndHoldDrag => vec!["gestures", "press_and_hold_drag", "enable"],
            SettingId::CursorAccelExponent => vec!["cursor", "accel_exponent"],
            SettingId::CursorAccelRef => vec!["cursor", "accel_ref"],
            SettingId::HorizontalBackend => vec!["gestures", "swipe", "horizontal", "backend"],
            SettingId::VerticalBackend => vec!["gestures", "swipe", "vertical", "backend"],
            SettingId::ShiftScrollHorizontal => vec!["scroll", "shift_scroll_horizontal"],
            SettingId::DynamicTransformCompat => vec!["gestures", "dynamic_transform_compat"],
            SettingId::ParameterProfile => vec!["gestures", "parameter_profile"],
            SettingId::SurfaceWidth => vec!["gestures", "surface_width_mm"],
            SettingId::SyncSystemSettings => vec!["macos", "sync_system_settings"],
        };
        assert(r@.map_values(|k: &'static str| k@) =~= self.path_keys());
        r
    }
}

/// Every row, group by group in sidebar order.
pub open spec fn all_rows() -> Seq<SettingId> {
    Category::PointAndClick.rows() + Category::ScrollAndZoom.rows() + Category::MoreGestures.rows()
        + Category::Companion.rows()
}

pub fn all_settings() -> (r: Vec<SettingId>)
    ensures
        r@ == all_rows(),
{
    let mut r: Vec<SettingId> = Vec::new();
    let mut c: usize = 0;
    while c < 4
        invariant
            c <= 4,
            r@ == category_order().take(c as int).fold_left(
                Seq::<SettingId>::empty(),
                |acc: Seq<SettingId>, cat: Category| acc + cat.rows(),
            ),
        decreases 4 - c,
    {
        let rows = CATEGORIES[c].settings();
        let ghost before = r@;
        let mut i: usize = 0;
        while i < rows.len()
            invariant
                i <= rows@.len(),
                r@ == before + rows@.take(i as int),
            decreases rows@.len() - i,
        {
            r.push(rows[i]);
            assert(r@ =~= before + rows@.take(i + 1));
            i = i + 1;
        }
        assert(rows@.take(rows@.len() as int) =~= rows@);
        proof {
            assert(category_order().take(c + 1).drop_last() =~= category_order().take(c as int));
            assert(CATEGORIES[c as int] == category_order()[c as int]);
        }
        c = c + 1;
    }
    proof {
        assert(category_order().take(4) =~= category_order());
        reveal_with_fuel(Seq::fold_left, 5);
        assert(category_order().take(0) =~= Seq::<Category>::empty());
        assert(category_order().take(1) =~= seq![Category::PointAndClick]);
        assert(category_order().take(2) =~= seq![Category::PointAndClick, Category::ScrollAndZoom]);
        assert(category_order().take(3) =~= seq![Category::PointAndClick, Category::ScrollAndZoom, Category::MoreGestures]);
        assert(Seq::<SettingId>::empty() + Category::PointAndClick.rows() =~= Category::PointAndClick.rows());
    }
    r
}

/// The value text of an `enable` policy.
pub open spec fn enable_text_of(value: GestureEnable, locale: Locale) -> Seq<char> {
    match (value, locale) {
        (GestureEnable::On, Locale::English) => "On"@,
        (GestureEnable::On, Locale::Chinese) => "打开"@,
        (GestureEnable::Off, Locale::English) => "Off"@,
        (GestureEnable::Off, Locale::Chinese) => "关闭"@,
        (GestureEnable::Only(_), Locale::English) => "Only (…)"@,
        (GestureEnable::Only(_), Locale::Chinese) => "仅 (…)"@,
        (GestureEnable::Except(_), Locale::English) => "Except (…)"@,
        (GestureEnable::Except(_), Locale::Chinese) => "排除 (…)"@,
    }
}

pub fn enable_text(value: &GestureEnable, locale: Locale) -> (r: String)
    ensures
        r@ == enable_text_of(*value, locale),
{
    let t = match (value, locale) {
        (GestureEnable::On, Locale::English) => "On",
        (GestureEnable::On, Locale::Chinese) => "打开",
        (GestureEnable::Off, Locale::English) => "Off",
        (GestureEnable::Off, Locale::Chinese) => "关闭",
        (GestureEnable::Only(_), Locale::English) => "Only (…)",
        (GestureEnable::Only(_), Locale::Chinese) => "仅 (…)",
        (GestureEnable::Except(_), Locale::English) => "Except (…)",
        (GestureEnable::Except(_), Locale::Chinese) => "排除 (…)",
    };
    t.to_owned()
}

pub open spec fn bool_text_of(value: bool, locale: Locale) -> Seq<char> {
    match (value, locale) {
        (true, Locale::English) => "On"@,
        (false, Locale::English) => "Off"@,
        (true, Locale::Chinese) => "打开"@,
        (false, Locale::Chinese) => "关闭"@,
    }
}

pub fn bool_text(value: bool, locale: Locale) -> (r: String)
    ensures
        r@ == bool_text_of(value, locale),
{
    let t = match (value, locale) {
        (true, Locale::English) => "On",
        (false, Locale::English) => "Off",
        (true, Locale::Chinese) => "打开",
        (false, Locale::Chinese) => "关闭",
    };
    t.to_owned()
}

pub open spec fn backend_text_of(value: SwipeBackend, locale: Locale) -> Seq<char> {
    match (value, locale) {
        (SwipeBackend::Synthetic, Locale::English) => "Synthetic"@,
        (SwipeBackend::Notification, Locale::English) => "Notification"@,
        (SwipeBackend::Off, Locale::English) => "Off"@,
        (SwipeBackend::Synthetic, Locale::Chinese) => "合成事件"@,
        (SwipeBackend::Notification, Locale::Chinese) => "通知事件"@,
        (SwipeBackend::Off, Locale::Chinese) => "关闭"@,
    }
}

pub fn backend_text(value: SwipeBackend, locale: Locale) -> (r: String)
    ensures
        r@ == backend_text_of(value, locale),
{
    let t = match (value, locale) {
        (SwipeBackend::Synthetic, Locale::English) => "Synthetic",
        (SwipeBackend::Notification, Locale::English) => "Notification",
        (SwipeBackend::Off, Locale::English) => "Off",
        (SwipeBackend::Synthetic, Locale::Chinese) => "合成事件",
        (SwipeBackend::Notification, Locale::Chinese) => "通知事件",
        (SwipeBackend::Off, Locale::Chinese) => "关闭",
    };
    t.to_owned()
}

pub const MASK_CONTROL: u64 = 0x0004_0000;
pub const MASK_OPTION: u64 = 0x0008_0000;
pub const MASK_COMMAND: u64 = 0x0010_0000;

/// The name of a single zoom modifier, or the mask in hexadecimal.
pub open spec fn modifier_mask_text_of(mask: u64) -> Seq<char> {
    if mask == MASK_CONTROL {
        "Control"@
    } else if mask == MASK_OPTION {
        "Option"@
    } else if mask == MASK_COMMAND {
        "Command"@
    } else {
        "0x"@ + ascii_chars(hex_bytes(mask as nat))
    }
}

/// The text is the same in both languages.
pub fn modifier_mask_text(mask: u64, locale: Locale) -> (r: String)
    ensures
        r@ == modifier_mask_text_of(mask),
{
    if mask == MASK_CONTROL {
        "Control".to_owned()
    } else if mask == MASK_OPTION {
        "Option".to_owned()
    } else if mask == MASK_COMMAND {
        "Command".to_owned()
    } else {
        let hex = u64_hex(mask);
        concat_str("0x", hex.as_str())
    }
}

/// The zoom-modifier choices in cycling order: the default first.
pub open spec fn mask_options() -> Seq<Option<u64>> {
    seq![None, Some(MASK_CONTROL), Some(MASK_OPTION), Some(MASK_COMMAND)]
}

/// The position of `value` among the choices; an unknown mask counts as the default.
pub open spec fn mask_index(value: Option<u64>) -> int {
    if value == Some(MASK_CONTROL) {
        1
    } else if value == Some(MASK_OPTION) {
        2
    } else if value == Some(MASK_COMMAND) {
        3
    } else {
        0
    }
}

pub open spec fn cycled_mask(value: Option<u64>, increase: bool) -> Option<u64> {
    let i = mask_index(value);
    mask_options()[if increase { (i + 1) % 4 } else { (i + 3) % 4 }]
}

pub fn cycle_modifier_mask(value: &mut Option<u64>, increase: bool)
    ensures
        *final(value) == cycled_mask(*old(value), increase),
{
    let index: usize = match *value {
        Some(m) => if m == MASK_CONTROL {
            1
        } else if m == MASK_OPTION {
            2
        } else if m == MASK_COMMAND {
            3
        } else {
            0
        },
        None => 0,
    };
    let next: usize = if increase { (index + 1) % 4 } else { (index + 3) % 4 };
    *value = if next == 0 {
        None
    } else if next == 1 {
        Some(MASK_CONTROL)
    } else if next == 2 {
        Some(MASK_OPTION)
    } else {
        Some(MASK_COMMAND)
    };
}

pub open spec fn cycled_backend(value: SwipeBackend, increase: bool) -> SwipeBackend {
    match (value, increase) {
        (SwipeBackend::Synthetic, true) => SwipeBackend::Notification,
        (SwipeBackend::Notification, true) => SwipeBackend::Off,
        (SwipeBackend::Off, true) => SwipeBackend::Synthetic,
        (SwipeBackend::Synthetic, false) => SwipeBackend::Off,
        (SwipeBackend::Off, false) => SwipeBackend::Notification,
        (SwipeBackend::Notification, false) => SwipeBackend::Synthetic,
    }
}

pub fn cycle_backend(value: &mut SwipeBackend, increase: bool)
    ensures
        *final(value) == cycled_backend(*old(value), increase),
{
    *value = match (*value, increase) {
        (SwipeBackend::Synthetic, true) => SwipeBackend::Notification,
        (SwipeBackend::Notification, true) => SwipeBackend::Off,
        (SwipeBackend::Off, true) => SwipeBackend::Synthetic,
        (SwipeBackend::Synthetic, false) => SwipeBackend::Off,
        (SwipeBackend::Off, false) => SwipeBackend::Notification,
        (SwipeBackend::Notification, false) => SwipeBackend::Synthetic,
    };
}

/// `On` and `Except` switch off; `Off` and `Only` switch on.
pub open spec fn toggled_enable(value: GestureEnable) -> GestureEnable {
    match value {
        GestureEnable::On => GestureEnable::Off,
        GestureEnable::Off => GestureEnable::On,
        GestureEnable::Only(_) => GestureEnable::Off,
        GestureEnable::Except(_) => GestureEnable::On,
    }
}

pub fn toggle_enable(value: &mut GestureEnable)
    ensures
        *final(value) == toggled_enable(*old(value)),
{
    let next = match value {
        GestureEnable::On => GestureEnable::Off,
        GestureEnable::Off => GestureEnable::On,
        GestureEnable::Only(_) => GestureEnable::Off,
        GestureEnable::Except(_) => GestureEnable::On,
    };
    *value = next;
}

pub open spec fn cycled_haptic(value: HapticSetting, increase: bool) -> HapticSetting {
    match (value, increase) {
        (HapticSetting::Auto, true) => HapticSetting::On,
        (HapticSetting::On, true) => HapticSetting::Off,
        (HapticSetting::Off, true) => HapticSetting::Auto,
        (HapticSetting::Auto, false) => HapticSetting::Off,
        (HapticSetting::Off, false) => HapticSetting::On,
        (HapticSetting::On, false) => HapticSetting::Auto,
    }
}

pub fn cycle_haptic(value: &mut HapticSetting, increase: bool)
    ensures
        *final(value) == cycled_haptic(*old(value), increase),
{
    *value = match (*value, increase) {
        (HapticSetting::Auto, true) => HapticSetting::On,
        (HapticSetting::On, true) => HapticSetting::Off,
        (HapticSetting::Off, true) => HapticSetting::Auto,
        (HapticSetting::Auto, false) => HapticSetting::Off,
        (HapticSetting::Off, false) => HapticSetting::On,
        (HapticSetting::On, false) => HapticSetting::Auto,
    };
}

/// The drag-lock delay one 50 ms step up or down, kept within 0..=2000 ms.
/// A delay beyond the signed 64-bit range reads as negative and lands on 0.
pub open spec fn stepped_release_delay(value: u64, increase: bool) -> u64 {
    if value > i64::MAX {
        0
    } else {
        let v = if increase { value + 50 } else { value - 50 };
        if v < 0 { 0 } else if v > 2000 { 2000 } else { v as u64 }
    }
}

pub fn step_release_delay(value: u64, increase: bool) -> (r: u64)
    requires
        increase && value <= i64::MAX ==> value + 50 <= i64::MAX,
    ensures
        r == stepped_release_delay(value, increase),
{
    if value > i64::MAX as u64 {
        return 0;
    }
    let v: i64 = value as i64;
    let next: i64 = if increase { v + 50 } else { v - 50 };
    if next < 0 {
        0
    } else if next > 2000 {
        2000
    } else {
        next as u64
    }
}

// ---- the TOML value each row writes ----

/// `v` is the TOML string `t`.
pub open spec fn is_text(v: TomlValue, t: Seq<char>) -> bool {
    v matches TomlValue::String(s) && s@ == t
}

/// `v` is the table `{ key = [apps..] }`.
pub open spec fn app_list_written(key: Seq<char>, apps: Seq<String>, v: TomlValue) -> bool {
    &&& v matches TomlValue::Table(es)
    &&& es@.len() == 1
    &&& es@[0].key@ == key
    &&& es@[0].value matches TomlValue::Array(items)
    &&& items@.len() == apps.len()
    &&& forall|i: int| 0 <= i < apps.len() ==> #[trigger] is_text(items@[i], apps[i]@)
}

/// `v` is how an `enable` setting is written: `"on"`, `"off"`, or a table
/// with an `only` or `except` list.
pub open spec fn enable_written(e: GestureEnable, v: TomlValue) -> bool {
    match e {
        GestureEnable::On => is_text(v, "on"@),
        GestureEnable::Off => is_text(v, "off"@),
        GestureEnable::Only(apps) => app_list_written("only"@, apps@, v),
        GestureEnable::Except(apps) => app_list_written("except"@, apps@, v),
    }
}

pub open spec fn haptic_word(h: HapticSetting) -> Seq<char> {
    match h {
        HapticSetting::Auto => "auto"@,
        HapticSetting::On => "on"@,
        HapticSetting::Off => "off"@,
    }
}

pub open spec fn profile_word(p: GestureParameterProfile) -> Seq<char> {
    match p {
        GestureParameterProfile::Native => "native"@,
        GestureParameterProfile::ChromiumOs => "chromium_os"@,
    }
}

/// `r` is the value row `id` writes for the configuration `cfg`.
pub open spec fn setting_written(cfg: Config, id: SettingId, r: TomlValue) -> bool {
    let g = cfg.gestures;
    let enable = |e: GestureEnable| enable_written(e, r);
    match id {
        SettingId::ClickPressure | SettingId::QuietClick => is_text(r, "unsupported"@),
        SettingId::TapToClick => enable(g.tap_to_click),
        SettingId::SecondaryClick => enable(g.secondary_click),
        SettingId::DictionaryLookup => enable(g.dictionary_lookup),
        SettingId::CursorSensitivity => r == TomlValue::Float(cfg.cursor.sensitivity_bits),
        SettingId::HapticFeedback => is_text(r, haptic_word(cfg.macos.haptic_feedback)),
        SettingId::NaturalScroll => r == TomlValue::Boolean(cfg.scroll.natural),
        SettingId::Pinch => enable(g.pinch.enable),
        SettingId::SmartZoom => enable(g.smart_zoom),
        SettingId::Rotate => enable(g.rotate.enable),
        SettingId::ScrollSensitivity => r == TomlValue::Float(cfg.scroll.sensitivity_bits),
        SettingId::ScrollEnabled => r == TomlValue::Boolean(cfg.scroll.enable),
        SettingId::HorizontalScroll => r == TomlValue::Boolean(cfg.scroll.horizontal),
        SettingId::MomentumScroll => r == TomlValue::Boolean(cfg.scroll.momentum),
        SettingId::ModifierZoomMask => r == TomlValue::Integer(
            match cfg.scroll.modifier_zoom_mask {
                Some(m) => m as i64,
                None => 0,
            },
        ),
        SettingId::HorizontalSwipe => enable(g.swipe.horizontal.enable),
        SettingId::VerticalSwipe => enable(g.swipe.vertical.enable),
        SettingId::RightEdgeSwipe => enable(g.right_edge_swipe),
        SettingId::ThreeFingerDrag => enable(g.three_finger_drag.enable),
        SettingId::ReleaseDelay => r == TomlValue::Integer(g.three_finger_drag.release_delay_ms as i64),
        SettingId::OneFingerTapDrag => enable(g.one_finger_tap_drag.enable),
        SettingId::PressAndHoldDrag => enable(g.press_and_hold_drag.enable),
        SettingId::CursorAccelExponent => r == TomlValue::Float(cfg.cursor.accel_exponent_bits),
        SettingId::CursorAccelRef => r == TomlValue::Float(cfg.cursor.accel_ref_bits),
        SettingId::HorizontalBackend => is_text(r, backend_text_of(g.swipe.horizontal.backend, Locale::English)),
        SettingId::VerticalBackend => is_text(r, backend_text_of(g.swipe.vertical.backend, Locale::English)),
        SettingId::SyncSystemSettings => r == TomlValue::Boolean(cfg.macos.sync_system_settings),
        SettingId::PinchGain => r == TomlValue::Float(g.pinch.gain_bits),
        SettingId::RotateGain => r == TomlValue::Float(g.rotate.gain_bits),
        SettingId::PersistentDragLock => r == TomlValue::Boolean(g.three_finger_drag.persistent_drag_lock),
        SettingId::ShiftScrollHorizontal => r == TomlValue::Boolean(cfg.scroll.shift_scroll_horizontal),
        SettingId::DynamicTransformCompat => r == TomlValue::Boolean(g.dynamic_transform_compat),
        SettingId::ParameterProfile => is_text(r, profile_word(g.parameter_profile)),
        SettingId::SurfaceWidth => r == TomlValue::Float(g.surface_width_mm_bits),
    }
}

fn text_value(t: &str) -> (r: TomlValue)
    ensures
        is_text(r, t@),
{
    TomlValue::String(t.to_owned())
}

fn app_list(key: &str, apps: &Vec<String>) -> (r: TomlValue)
    ensures
        app_list_written(key@, apps@, r),
{
    let mut items: Vec<TomlValue> = Vec::new();
    let mut i: usize = 0;
    while i < apps.len()
        invariant
            i <= apps@.len(),
            items@.len() == i,
            forall|j: int| 0 <= j < i ==> #[trigger] is_text(items@[j], apps@[j]@),
        decreases apps@.len() - i,
    {
        let item = apps[i].clone();
        items.push(TomlValue::String(item));
        i = i + 1;
    }
    TomlValue::Table(vec![TomlEntry { key: key.to_owned(), value: TomlValue::Array(items) }])
}

/// How an `enable` setting is written to TOML.
pub fn enable_toml(value: &GestureEnable) -> (r: TomlValue)
    ensures
        enable_written(*value, r),
{
    proof {
        reveal_strlit("on");
        reveal_strlit("off");
        reveal_strlit("only");
        reveal_strlit("except");
    }
    match value {
        GestureEnable::On => text_value("on"),
        GestureEnable::Off => text_value("off"),
        GestureEnable::Only(apps) => app_list("only", apps),
        GestureEnable::Except(apps) => app_list("except", apps),
    }
}

/// The TOML value row `id` writes for `cfg`.
pub fn setting_toml(cfg: &Config, id: SettingId) -> (r: TomlValue)
    ensures
        setting_written(*cfg, id, r),
{
    let g = &cfg.gestures;
    let v = match id {
        SettingId::ClickPressure | SettingId::QuietClick => text_value("unsupported"),
        SettingId::TapToClick => enable_toml(&g.tap_to_click),
        SettingId::SecondaryClick => enable_toml(&g.secondary_click),
        SettingId::DictionaryLookup => enable_toml(&g.dictionary_lookup),
        SettingId::CursorSensitivity => TomlValue::Float(cfg.cursor.sensitivity_bits),
        SettingId::HapticFeedback => text_value(
            match cfg.macos.haptic_feedback {
                HapticSetting::Auto => "auto",
                HapticSetting::On => "on",
                HapticSetting::Off => "off",
            },
        ),
        SettingId::NaturalScroll => TomlValue::Boolean(cfg.scroll.natural),
        SettingId::Pinch => enable_toml(&g.pinch.enable),
        SettingId::SmartZoom => enable_toml(&g.smart_zoom),
        SettingId::Rotate => enable_toml(&g.rotate.enable),
        SettingId::ScrollSensitivity => TomlValue::Float(cfg.scroll.sensitivity_bits),
        SettingId::ScrollEnabled => TomlValue::Boolean(cfg.scroll.enable),
        SettingId::HorizontalScroll => TomlValue::Boolean(cfg.scroll.horizontal),
        SettingId::MomentumScroll => TomlValue::Boolean(cfg.scroll.momentum),
        SettingId::ModifierZoomMask => TomlValue::Integer(
            match cfg.scroll.modifier_zoom_mask {
                Some(m) => m as i64,
                None => 0,
            },
        ),
        SettingId::HorizontalSwipe => enable_toml(&g.swipe.horizontal.enable),
        SettingId::VerticalSwipe => enable_toml(&g.swipe.vertical.enable),
        SettingId::RightEdgeSwipe => enable_toml(&g.right_edge_swipe),
        SettingId::ThreeFingerDrag => enable_toml(&g.three_finger_drag.enable),
        SettingId::ReleaseDelay => TomlValue::Integer(g.three_finger_drag.release_delay_ms as i64),
        SettingId::OneFingerTapDrag => enable_toml(&g.one_finger_tap_drag.enable),
        SettingId::PressAndHoldDrag => enable_toml(&g.press_and_hold_drag.enable),
        SettingId::CursorAccelExponent => TomlValue::Float(cfg.cursor.accel_exponent_bits),
        SettingId::CursorAccelRef => TomlValue::Float(cfg.cursor.accel_ref_bits),
        SettingId::HorizontalBackend => TomlValue::String(backend_text(g.swipe.horizontal.backend, Locale::English)),
        SettingId::VerticalBackend => TomlValue::String(backend_text(g.swipe.vertical.backend, Locale::English)),
        SettingId::SyncSystemSettings => TomlValue::Boolean(cfg.macos.sync_system_settings),
        SettingId::PinchGain => TomlValue::Float(g.pinch.gain_bits),
        SettingId::RotateGain => TomlValue::Float(g.rotate.gain_bits),
        SettingId::PersistentDragLock => TomlValue::Boolean(g.three_finger_drag.persistent_drag_lock),
        SettingId::ShiftScrollHorizontal => TomlValue::Boolean(cfg.scroll.shift_scroll_horizontal),
        SettingId::DynamicTransformCompat => TomlValue::Boolean(g.dynamic_transform_compat),
        SettingId::ParameterProfile => text_value(
            match g.parameter_profile {
                GestureParameterProfile::Native => "native",
                GestureParameterProfile::ChromiumOs => "chromium_os",
            },
        ),
        SettingId::SurfaceWidth => TomlValue::Float(g.surface_width_mm_bits),
    };
    proof {
        reveal_strlit("native");
        reveal_strlit("chromium_os");
        reveal_strlit("unsupported");
        reveal_strlit("auto");
        reveal_strlit("on");
        reveal_strlit("off");
    }
    v
}

/// What saving a changed row does to the document.
#[derive(Debug, PartialEq)]
pub enum RowWrite {
    /// Remove the row's key, so the default applies.
    Remove,
    /// Write this value at the row's path.
    Write(TomlValue),
}

/// Saving row `id`: a zoom modifier back at its default is removed from the
/// document; every other row writes its value.
pub fn row_write(cfg: &Config, id: SettingId) -> (r: RowWrite)
    ensures
        (id is ModifierZoomMask && cfg.scroll.modifier_zoom_mask is None) ==> r == RowWrite::Remove,
        !(id is ModifierZoomMask && cfg.scroll.modifier_zoom_mask is None) ==> (r matches RowWrite::Write(v)
            && setting_written(*cfg, id, v)),
{
    if matches!(id, SettingId::ModifierZoomMask) && cfg.scroll.modifier_zoom_mask.is_none() {
        RowWrite::Remove
    } else {
        RowWrite::Write(setting_toml(cfg, id))
    }
}

// ---- the text each row shows ----

pub open spec fn haptic_text_of(h: HapticSetting, locale: Locale) -> Seq<char> {
    match (h, locale) {
        (HapticSetting::Auto, Locale::English) => "Automatic"@,
        (HapticSetting::On, Locale::English) => "On"@,
        (HapticSetting::Off, Locale::English) => "Off"@,
        (HapticSetting::Auto, Locale::Chinese) => "自动"@,
        (HapticSetting::On, Locale::Chinese) => "打开"@,
        (HapticSetting::Off, Locale::Chinese) => "关闭"@,
    }
}

/// Rows whose value is a floating-point number; their text is formatted by
/// the caller.
pub open spec fn float_row(id: SettingId) -> bool {
    ||| id is CursorSensitivity
    ||| id is ScrollSensitivity
    ||| id is CursorAccelExponent
    ||| id is CursorAccelRef
    ||| id is PinchGain
    ||| id is RotateGain
    ||| id is SurfaceWidth
}

pub open spec fn profile_text_of(p: GestureParameterProfile, locale: Locale) -> Seq<char> {
    match (p, locale) {
        (GestureParameterProfile::Native, Locale::English) => "Native"@,
        (GestureParameterProfile::Native, Locale::Chinese) => "原生"@,
        (GestureParameterProfile::ChromiumOs, Locale::English) => "ChromiumOS (experimental)"@,
        (GestureParameterProfile::ChromiumOs, Locale::Chinese) => "ChromiumOS（实验）"@,
    }
}

/// The text row `id` shows for `cfg`; `None` for float rows, whose text
/// the caller formats.
pub open spec fn setting_text_of(cfg: Config, id: SettingId, locale: Locale) -> Option<Seq<char>> {
    let g = cfg.gestures;
    match id {
        SettingId::ClickPressure | SettingId::QuietClick => Some(
            match locale {
                Locale::English => "Unavailable"@,
                Locale::Chinese => "不可用"@,
            },
        ),
        SettingId::TapToClick => Some(enable_text_of(g.tap_to_click, locale)),
        SettingId::SecondaryClick => Some(enable_text_of(g.secondary_click, locale)),
        SettingId::DictionaryLookup => Some(enable_text_of(g.dictionary_lookup, locale)),
        SettingId::HapticFeedback => Some(haptic_text_of(cfg.macos.haptic_feedback, locale)),
        SettingId::NaturalScroll => Some(bool_text_of(cfg.scroll.natural, locale)),
        SettingId::Pinch => Some(enable_text_of(g.pinch.enable, locale)),
        SettingId::SmartZoom => Some(enable_text_of(g.smart_zoom, locale)),
        SettingId::Rotate => Some(enable_text_of(g.rotate.enable, locale)),
        SettingId::ScrollEnabled => Some(bool_text_of(cfg.scroll.enable, locale)),
        SettingId::HorizontalScroll => Some(bool_text_of(cfg.scroll.horizontal, locale)),
        SettingId::MomentumScroll => Some(bool_text_of(cfg.scroll.momentum, locale)),
        SettingId::ModifierZoomMask => Some(
            match cfg.scroll.modifier_zoom_mask {
                Some(mask) => modifier_mask_text_of(mask),
                None => match locale {
                    Locale::English => "Default (Cmd/Ctrl)"@,
                    Locale::Chinese => "默认（Command/Control）"@,
                },
            },
        ),
        SettingId::HorizontalSwipe => Some(enable_text_of(g.swipe.horizontal.enable, locale)),
        SettingId::VerticalSwipe => Some(enable_text_of(g.swipe.vertical.enable, locale)),
        SettingId::RightEdgeSwipe => Some(enable_text_of(g.right_edge_swipe, locale)),
        SettingId::ThreeFingerDrag => Some(enable_text_of(g.three_finger_drag.enable, locale)),
        SettingId::ReleaseDelay => Some(
            ascii_chars(decimal_bytes(g.three_finger_drag.release_delay_ms as nat)) + " ms"@,
        ),
        SettingId::OneFingerTapDrag => Some(enable_text_of(g.one_finger_tap_drag.enable, locale)),
        SettingId::PressAndHoldDrag => Some(enable_text_of(g.press_and_hold_drag.enable, locale)),
        SettingId::HorizontalBackend => Some(backend_text_of(g.swipe.horizontal.backend, locale)),
        SettingId::VerticalBackend => Some(backend_text_of(g.swipe.vertical.backend, locale)),
        SettingId::SyncSystemSettings => Some(bool_text_of(cfg.macos.sync_system_settings, locale)),
        SettingId::PersistentDragLock => Some(bool_text_of(g.three_finger_drag.persistent_drag_lock, locale)),
        SettingId::ShiftScrollHorizontal => Some(bool_text_of(cfg.scroll.shift_scroll_horizontal, locale)),
        SettingId::DynamicTransformCompat => Some(bool_text_of(g.dynamic_transform_compat, locale)),
        SettingId::ParameterProfile => Some(profile_text_of(g.parameter_profile, locale)),
        _ => None,
    }
}

/// The text row `id` shows, where it is not a float.
pub fn setting_text(cfg: &Config, id: SettingId, locale: Locale) -> (r: Option<String>)
    ensures
        match setting_text_of(*cfg, id, locale) {
            Some(t) => r matches Some(s) && s@ == t,
            None => r is None,
        },
        setting_text_of(*cfg, id, locale) is None <==> float_row(id),
{
    let g = &cfg.gestures;
    let t = match id {
        SettingId::ClickPressure | SettingId::QuietClick => match locale {
            Locale::English => "Unavailable".to_owned(),
            Locale::Chinese => "不可用".to_owned(),
        },
        SettingId::TapToClick => enable_text(&g.tap_to_click, locale),
        SettingId::SecondaryClick => enable_text(&g.secondary_click, locale),
        SettingId::DictionaryLookup => enable_text(&g.dictionary_lookup, locale),
        SettingId::HapticFeedback => match (cfg.macos.haptic_feedback, locale) {
            (HapticSetting::Auto, Locale::English) => "Automatic".to_owned(),
            (HapticSetting::On, Locale::English) => "On".to_owned(),
            (HapticSetting::Off, Locale::English) => "Off".to_owned(),
            (HapticSetting::Auto, Locale::Chinese) => "自动".to_owned(),
            (HapticSetting::On, Locale::Chinese) => "打开".to_owned(),
            (HapticSetting::Off, Locale::Chinese) => "关闭".to_owned(),
        },
        SettingId::NaturalScroll => bool_text(cfg.scroll.natural, locale),
        SettingId::Pinch => enable_text(&g.pinch.enable, locale),
        SettingId::SmartZoom => enable_text(&g.smart_zoom, locale),
        SettingId::Rotate => enable_text(&g.rotate.enable, locale),
        SettingId::ScrollEnabled => bool_text(cfg.scroll.enable, locale),
        SettingId::HorizontalScroll => bool_text(cfg.scroll.horizontal, locale),
        SettingId::MomentumScroll => bool_text(cfg.scroll.momentum, locale),
        SettingId::ModifierZoomMask => match cfg.scroll.modifier_zoom_mask {
            Some(mask) => modifier_mask_text(mask, locale),
            None => match locale {
                Locale::English => "Default (Cmd/Ctrl)".to_owned(),
                Locale::Chinese => "默认（Command/Control）".to_owned(),
            },
        },
        SettingId::HorizontalSwipe => enable_text(&g.swipe.horizontal.enable, locale),
        SettingId::VerticalSwipe => enable_text(&g.swipe.vertical.enable, locale),
        SettingId::RightEdgeSwipe => enable_text(&g.right_edge_swipe, locale),
        SettingId::ThreeFingerDrag => enable_text(&g.three_finger_drag.enable, locale),
        SettingId::ReleaseDelay => {
            let digits = u64_decimal(g.three_finger_drag.release_delay_ms);
            concat_str(digits.as_str(), " ms")
        },
        SettingId::OneFingerTapDrag => enable_text(&g.one_finger_tap_drag.enable, locale),
        SettingId::PressAndHoldDrag => enable_text(&g.press_and_hold_drag.enable, locale),
        SettingId::HorizontalBackend => backend_text(g.swipe.horizontal.backend, locale),
        SettingId::VerticalBackend => backend_text(g.swipe.vertical.backend, locale),
        SettingId::SyncSystemSettings => bool_text(cfg.macos.sync_system_settings, locale),
        SettingId::PersistentDragLock => bool_text(g.three_finger_drag.persistent_drag_lock, locale),
        SettingId::ShiftScrollHorizontal => bool_text(cfg.scroll.shift_scroll_horizontal, locale),
        SettingId::DynamicTransformCompat => bool_text(g.dynamic_transform_compat, locale),
        SettingId::ParameterProfile => match (g.parameter_profile, locale) {
            (GestureParameterProfile::Native, Locale::English) => "Native".to_owned(),
            (GestureParameterProfile::Native, Locale::Chinese) => "原生".to_owned(),
            (GestureParameterProfile::ChromiumOs, Locale::English) => "ChromiumOS (experimental)".to_owned(),
            (GestureParameterProfile::ChromiumOs, Locale::Chinese) => "ChromiumOS（实验）".to_owned(),
        },
        _ => {
            return None;
        },
    };
    Some(t)
}

// ---- adjusting a row ----

/// What adjusting a row did.
#[derive(Clone, Copy, Debug, PartialEq, Eq, Structural)]
pub enum Adjustment {
    /// The setting changed.
    Changed,
    /// A hardware-only row: nothing to change.
    ReadOnly,
    /// A floating-point setting: the caller steps it.
    Float,
}

pub open spec fn adjustment_of(id: SettingId) -> Adjustment {
    if id.spec_is_hardware_only() {
        Adjustment::ReadOnly
    } else if float_row(id) {
        Adjustment::Float
    } else {
        Adjustment::Changed
    }
}

pub open spec fn with_gestures(cfg: Config, g: Gestures) -> Config {
    Config { gestures: g, ..cfg }
}

pub open spec fn with_scroll(cfg: Config, s: Scroll) -> Config {
    Config { scroll: s, ..cfg }
}

pub open spec fn with_swipe(g: Gestures, horizontal: bool, axis: SwipeAxisCfg) -> Gestures {
    if horizontal {
        Gestures { swipe: Swipe { horizontal: axis, ..g.swipe }, ..g }
    } else {
        Gestures { swipe: Swipe { vertical: axis, ..g.swipe }, ..g }
    }
}

/// The other profile; stepping either way switches.
pub open spec fn toggled_profile(p: GestureParameterProfile) -> GestureParameterProfile {
    match p {
        GestureParameterProfile::Native => GestureParameterProfile::ChromiumOs,
        GestureParameterProfile::ChromiumOs => GestureParameterProfile::Native,
    }
}

/// The configuration after one step up (`increase`) or down of row `id`;
/// unchanged for rows that are not stepped here.
pub open spec fn adjusted(cfg: Config, id: SettingId, increase: bool) -> Config {
    let g = cfg.gestures;
    let s = cfg.scroll;
    let h = g.swipe.horizontal;
    let v = g.swipe.vertical;
    let t = g.three_finger_drag;
    match id {
        SettingId::TapToClick => with_gestures(cfg, Gestures { tap_to_click: toggled_enable(g.tap_to_click), ..g }),
        SettingId::SecondaryClick => with_gestures(
            cfg,
            Gestures { secondary_click: toggled_enable(g.secondary_click), ..g },
        ),
        SettingId::DictionaryLookup => with_gestures(
            cfg,
            Gestures { dictionary_lookup: toggled_enable(g.dictionary_lookup), ..g },
        ),
        SettingId::HapticFeedback => Config {
            macos: Macos { haptic_feedback: cycled_haptic(cfg.macos.haptic_feedback, increase), ..cfg.macos },
            ..cfg
        },
        SettingId::NaturalScroll => with_scroll(cfg, Scroll { natural: !s.natural, ..s }),
        SettingId::Pinch => with_gestures(
            cfg,
            Gestures { pinch: Pinch { enable: toggled_enable(g.pinch.enable), ..g.pinch }, ..g },
        ),
        SettingId::SmartZoom => with_gestures(cfg, Gestures { smart_zoom: toggled_enable(g.smart_zoom), ..g }),
        SettingId::Rotate => with_gestures(
            cfg,
            Gestures { rotate: Rotate { enable: toggled_enable(g.rotate.enable), ..g.rotate }, ..g },
        ),
        SettingId::ScrollEnabled => with_scroll(cfg, Scroll { enable: !s.enable, ..s }),
        SettingId::HorizontalScroll => with_scroll(cfg, Scroll { horizontal: !s.horizontal, ..s }),
        SettingId::MomentumScroll => with_scroll(cfg, Scroll { momentum: !s.momentum, ..s }),
        SettingId::ModifierZoomMask => with_scroll(
            cfg,
            Scroll { modifier_zoom_mask: cycled_mask(s.modifier_zoom_mask, increase), ..s },
        ),
        SettingId::HorizontalSwipe => with_gestures(
            cfg,
            with_swipe(g, true, SwipeAxisCfg { enable: toggled_enable(h.enable), ..h }),
        ),
        SettingId::VerticalSwipe => with_gestures(
            cfg,
            with_swipe(g, false, SwipeAxisCfg { enable: toggled_enable(v.enable), ..v }),
        ),
        SettingId::RightEdgeSwipe => with_gestures(
            cfg,
            Gestures { right_edge_swipe: toggled_enable(g.right_edge_swipe), ..g },
        ),
        SettingId::ThreeFingerDrag => with_gestures(
            cfg,
            Gestures { three_finger_drag: ThreeFingerDrag { enable: toggled_enable(t.enable), ..t }, ..g },
        ),
        SettingId::ReleaseDelay => with_gestures(
            cfg,
            Gestures {
                three_finger_drag: ThreeFingerDrag {
                    release_delay_ms: stepped_release_delay(t.release_delay_ms, increase),
                    ..t
                },
                ..g
            },
        ),
        SettingId::OneFingerTapDrag => with_gestures(
            cfg,
            Gestures { one_finger_tap_drag: OneFingerTapDrag { enable: toggled_enable(g.one_finger_tap_drag.enable) }, ..g },
        ),
        SettingId::PressAndHoldDrag => with_gestures(
            cfg,
            Gestures { press_and_hold_drag: PressAndHoldDrag { enable: toggled_enable(g.press_and_hold_drag.enable) }, ..g },
        ),
        SettingId::HorizontalBackend => with_gestures(
            cfg,
            with_swipe(g, true, SwipeAxisCfg { backend: cycled_backend(h.backend, increase), ..h }),
        ),
        SettingId::VerticalBackend => with_gestures(
            cfg,
            with_swipe(g, false, SwipeAxisCfg { backend: cycled_backend(v.backend, increase), ..v }),
        ),
        SettingId::SyncSystemSettings => Config {
            macos: Macos { sync_system_settings: !cfg.macos.sync_system_settings, ..cfg.macos },
            ..cfg
        },
        SettingId::PersistentDragLock => with_gestures(
            cfg,
            Gestures { three_finger_drag: ThreeFingerDrag { persistent_drag_lock: !t.persistent_drag_lock, ..t }, ..g },
        ),
        SettingId::ShiftScrollHorizontal => with_scroll(
            cfg,
            Scroll { shift_scroll_horizontal: !s.shift_scroll_horizontal, ..s },
        ),
        SettingId::DynamicTransformCompat => with_gestures(
            cfg,
            Gestures { dynamic_transform_compat: !g.dynamic_transform_compat, ..g },
        ),
        SettingId::ParameterProfile => with_gestures(
            cfg,
            Gestures { parameter_profile: toggled_profile(g.parameter_profile), ..g },
        ),
        _ => cfg,
    }
}

/// Steps row `id` of the configuration up (`increase`) or down: `enable`
/// rows and switches toggle, multi-valued rows cycle, the drag-lock delay
/// moves by 50 ms. Floating-point rows are left to the caller.
#[verifier::rlimit(40)]
pub fn adjust_setting(cfg: &mut Config, id: SettingId, increase: bool) -> (r: Adjustment)
    requires
        id is ReleaseDelay && increase && old(cfg).gestures.three_finger_drag.release_delay_ms <= i64::MAX
            ==> old(cfg).gestures.three_finger_drag.release_delay_ms + 50 <= i64::MAX,
    ensures
        r == adjustment_of(id),
        *final(cfg) == adjusted(*old(cfg), id, increase),
{
    if id.is_hardware_only() {
        return Adjustment::ReadOnly;
    }
    match id {
        SettingId::TapToClick => toggle_enable(&mut cfg.gestures.tap_to_click),
        SettingId::SecondaryClick => toggle_enable(&mut cfg.gestures.secondary_click),
        SettingId::DictionaryLookup => toggle_enable(&mut cfg.gestures.dictionary_lookup),
        SettingId::HapticFeedback => cycle_haptic(&mut cfg.macos.haptic_feedback, increase),
        SettingId::NaturalScroll => cfg.scroll.natural = !cfg.scroll.natural,
        SettingId::Pinch => toggle_enable(&mut cfg.gestures.pinch.enable),
        SettingId::SmartZoom => toggle_enable(&mut cfg.gestures.smart_zoom),
        SettingId::Rotate => toggle_enable(&mut cfg.gestures.rotate.enable),
        SettingId::ScrollEnabled => cfg.scroll.enable = !cfg.scroll.enable,
        SettingId::HorizontalScroll => cfg.scroll.horizontal = !cfg.scroll.horizontal,
        SettingId::MomentumScroll => cfg.scroll.momentum = !cfg.scroll.momentum,
        SettingId::ModifierZoomMask => cycle_modifier_mask(&mut cfg.scroll.modifier_zoom_mask, increase),
        SettingId::HorizontalSwipe => toggle_enable(&mut cfg.gestures.swipe.horizontal.enable),
        SettingId::VerticalSwipe => toggle_enable(&mut cfg.gestures.swipe.vertical.enable),
        SettingId::RightEdgeSwipe => toggle_enable(&mut cfg.gestures.right_edge_swipe),
        SettingId::ThreeFingerDrag => toggle_enable(&mut cfg.gestures.three_finger_drag.enable),
        SettingId::ReleaseDelay => {
            cfg.gestures.three_finger_drag.release_delay_ms = step_release_delay(
                cfg.gestures.three_finger_drag.release_delay_ms,
                increase,
            )
        },
        SettingId::OneFingerTapDrag => toggle_enable(&mut cfg.gestures.one_finger_tap_drag.enable),
        SettingId::PressAndHoldDrag => toggle_enable(&mut cfg.gestures.press_and_hold_drag.enable),
        SettingId::HorizontalBackend => cycle_backend(&mut cfg.gestures.swipe.horizontal.backend, increase),
        SettingId::VerticalBackend => cycle_backend(&mut cfg.gestures.swipe.vertical.backend, increase),
        SettingId::SyncSystemSettings => cfg.macos.sync_system_settings = !cfg.macos.sync_system_settings,
        SettingId::PersistentDragLock => {
            cfg.gestures.three_finger_drag.persistent_drag_lock = !cfg.gestures.three_finger_drag.persistent_drag_lock
        },
        SettingId::ShiftScrollHorizontal => cfg.scroll.shift_scroll_horizontal = !cfg.scroll.shift_scroll_horizontal,
        SettingId::DynamicTransformCompat => {
            cfg.gestures.dynamic_transform_compat = !cfg.gestures.dynamic_transform_compat
        },
        SettingId::ParameterProfile => {
            cfg.gestures.parameter_profile = match cfg.gestures.parameter_profile {
                GestureParameterProfile::Native => GestureParameterProfile::ChromiumOs,
                GestureParameterProfile::ChromiumOs => GestureParameterProfile::Native,
            }
        },
        _ => {
            return Adjustment::Float;
        },
    }
    Adjustment::Changed
}

/// The row's current value is one its steps cycle through: plain on or off
/// for `enable` rows, a known zoom modifier or the default, and a drag-lock
/// delay that one step up keeps within range.
pub open spec fn on_cycle(cfg: Config, id: SettingId) -> bool {
    let g = cfg.gestures;
    let plain = |e: GestureEnable| e is On || e is Off;
    match id {
        SettingId::TapToClick => plain(g.tap_to_click),
        SettingId::SecondaryClick => plain(g.secondary_click),
        SettingId::DictionaryLookup => plain(g.dictionary_lookup),
        SettingId::Pinch => plain(g.pinch.enable),
        SettingId::SmartZoom => plain(g.smart_zoom),
        SettingId::Rotate => plain(g.rotate.enable),
        SettingId::HorizontalSwipe => plain(g.swipe.horizontal.enable),
        SettingId::VerticalSwipe => plain(g.swipe.vertical.enable),
        SettingId::RightEdgeSwipe => plain(g.right_edge_swipe),
        SettingId::ThreeFingerDrag => plain(g.three_finger_drag.enable),
        SettingId::OneFingerTapDrag => plain(g.one_finger_tap_drag.enable),
        SettingId::PressAndHoldDrag => plain(g.press_and_hold_drag.enable),
        SettingId::ModifierZoomMask => mask_options()[mask_index(cfg.scroll.modifier_zoom_mask)]
            == cfg.scroll.modifier_zoom_mask,
        SettingId::ReleaseDelay => g.three_finger_drag.release_delay_ms <= 1950,
        _ => true,
    }
}

proof fn lemma_step_up_then_down_top_enable(cfg: Config, id: SettingId)
    requires
        on_cycle(cfg, id),
        id is TapToClick || id is SecondaryClick || id is DictionaryLookup || id is SmartZoom || id is RightEdgeSwipe,
    ensures
        adjusted(adjusted(cfg, id, true), id, false) == cfg,
{
}

proof fn lemma_step_up_then_down_nested_enable(cfg: Config, id: SettingId)
    requires
        on_cycle(cfg, id),
        id is Pinch || id is Rotate || id is HorizontalSwipe || id is VerticalSwipe || id is ThreeFingerDrag || id is OneFingerTapDrag || id is PressAndHoldDrag,
    ensures
        adjusted(adjusted(cfg, id, true), id, false) == cfg,
{
}

proof fn lemma_step_up_then_down_scroll(cfg: Config, id: SettingId)
    requires
        on_cycle(cfg, id),
        id is NaturalScroll || id is ScrollEnabled || id is HorizontalScroll || id is MomentumScroll || id is ShiftScrollHorizontal,
    ensures
        adjusted(adjusted(cfg, id, true), id, false) == cfg,
{
}

proof fn lemma_step_up_then_down_mask(cfg: Config)
    requires
        on_cycle(cfg, SettingId::ModifierZoomMask),
    ensures
        adjusted(adjusted(cfg, SettingId::ModifierZoomMask, true), SettingId::ModifierZoomMask, false) == cfg,
{
    let m = cfg.scroll.modifier_zoom_mask;
    assert(cycled_mask(cycled_mask(m, true), false) == m) by {
        assert(mask_options()[0] == None::<u64>);
        assert(mask_options()[1] == Some(MASK_CONTROL));
        assert(mask_options()[2] == Some(MASK_OPTION));
        assert(mask_options()[3] == Some(MASK_COMMAND));
    }
}

proof fn lemma_step_up_then_down_other(cfg: Config, id: SettingId)
    requires
        on_cycle(cfg, id),
        id is HapticFeedback || id is SyncSystemSettings || id is ReleaseDelay || id is PersistentDragLock || id is HorizontalBackend || id is VerticalBackend || id is DynamicTransformCompat || id is ParameterProfile,
    ensures
        adjusted(adjusted(cfg, id, true), id, false) == cfg,
{
}

/// Law: one step up and one step down of a row leave the configuration as
/// it was.
pub proof fn lemma_step_up_then_down(cfg: Config, id: SettingId)
    requires
        on_cycle(cfg, id),
    ensures
        adjusted(adjusted(cfg, id, true), id, false) == cfg,
{
    if id is TapToClick || id is SecondaryClick || id is DictionaryLookup || id is SmartZoom || id is RightEdgeSwipe {
        lemma_step_up_then_down_top_enable(cfg, id);
    }
    if id is Pinch || id is Rotate || id is HorizontalSwipe || id is VerticalSwipe || id is ThreeFingerDrag || id is OneFingerTapDrag || id is PressAndHoldDrag {
        lemma_step_up_then_down_nested_enable(cfg, id);
    }
    if id is NaturalScroll || id is ScrollEnabled || id is HorizontalScroll || id is MomentumScroll || id is ShiftScrollHorizontal {
        lemma_step_up_then_down_scroll(cfg, id);
    }
    if id is ModifierZoomMask {
        lemma_step_up_then_down_mask(cfg);
    }
    if id is HapticFeedback || id is SyncSystemSettings || id is ReleaseDelay || id is PersistentDragLock || id is HorizontalBackend || id is VerticalBackend || id is DynamicTransformCompat || id is ParameterProfile {
        lemma_step_up_then_down_other(cfg, id);
    }
}

#[verifier::rlimit(100)]
proof fn lemma_step_frame_top_enable(cfg: Config, id: SettingId, increase: bool, other: SettingId, r: TomlValue)
    requires
        other != id,
        id is TapToClick || id is SecondaryClick || id is DictionaryLookup || id is SmartZoom || id is RightEdgeSwipe,
    ensures
        setting_written(adjusted(cfg, id, increase), other, r) <==> setting_written(cfg, other, r),
{
}

#[verifier::rlimit(100)]
proof fn lemma_step_frame_pinch_rotate(cfg: Config, id: SettingId, increase: bool, other: SettingId, r: TomlValue)
    requires
        other != id,
        id is Pinch || id is Rotate,
    ensures
        setting_written(adjusted(cfg, id, increase), other, r) <==> setting_written(cfg, other, r),
{
}

#[verifier::rlimit(100)]
proof fn lemma_step_frame_swipe(cfg: Config, id: SettingId, increase: bool, other: SettingId, r: TomlValue)
    requires
        other != id,
        id is HorizontalSwipe || id is VerticalSwipe || id is HorizontalBackend || id is VerticalBackend,
    ensures
        setting_written(adjusted(cfg, id, increase), other, r) <==> setting_written(cfg, other, r),
{
}

#[verifier::rlimit(100)]
proof fn lemma_step_frame_drag(cfg: Config, id: SettingId, increase: bool, other: SettingId, r: TomlValue)
    requires
        other != id,
        id is ThreeFingerDrag || id is OneFingerTapDrag || id is PressAndHoldDrag || id is ReleaseDelay || id is PersistentDragLock,
    ensures
        setting_written(adjusted(cfg, id, increase), other, r) <==> setting_written(cfg, other, r),
{
}

#[verifier::rlimit(100)]
proof fn lemma_step_frame_scroll(cfg: Config, id: SettingId, increase: bool, other: SettingId, r: TomlValue)
    requires
        other != id,
        id is NaturalScroll || id is ScrollEnabled || id is HorizontalScroll || id is MomentumScroll || id is ShiftScrollHorizontal || id is ModifierZoomMask,
    ensures
        setting_written(adjusted(cfg, id, increase), other, r) <==> setting_written(cfg, other, r),
{
}

#[verifier::rlimit(100)]
proof fn lemma_step_frame_other(cfg: Config, id: SettingId, increase: bool, other: SettingId, r: TomlValue)
    requires
        other != id,
        id is HapticFeedback || id is SyncSystemSettings || id is DynamicTransformCompat || id is ParameterProfile,
    ensures
        setting_written(adjusted(cfg, id, increase), other, r) <==> setting_written(cfg, other, r),
{
}

/// Law: stepping a row leaves what every other row writes unchanged.
pub proof fn lemma_step_touches_only_its_row(cfg: Config, id: SettingId, increase: bool, other: SettingId, r: TomlValue)
    requires
        other != id,
    ensures
        setting_written(adjusted(cfg, id, increase), other, r) <==> setting_written(cfg, other, r),
{
    if id is TapToClick || id is SecondaryClick || id is DictionaryLookup || id is SmartZoom || id is RightEdgeSwipe {
        lemma_step_frame_top_enable(cfg, id, increase, other, r);
    } else if id is Pinch || id is Rotate {
        lemma_step_frame_pinch_rotate(cfg, id, increase, other, r);
    } else if id is HorizontalSwipe || id is VerticalSwipe || id is HorizontalBackend || id is VerticalBackend {
        lemma_step_frame_swipe(cfg, id, increase, other, r);
    } else if id is ThreeFingerDrag || id is OneFingerTapDrag || id is PressAndHoldDrag || id is ReleaseDelay || id is PersistentDragLock {
        lemma_step_frame_drag(cfg, id, increase, other, r);
    } else if id is NaturalScroll || id is ScrollEnabled || id is HorizontalScroll || id is MomentumScroll || id is ShiftScrollHorizontal || id is ModifierZoomMask {
        lemma_step_frame_scroll(cfg, id, increase, other, r);
    } else if id is HapticFeedback || id is SyncSystemSettings || id is DynamicTransformCompat || id is ParameterProfile {
        lemma_step_frame_other(cfg, id, increase, other, r);
    } else {
        assert(adjusted(cfg, id, increase) == cfg);
    }
}

/// Law: stepping a switch row flips the value that row writes.
pub proof fn lemma_step_flips_switch(cfg: Config, id: SettingId, increase: bool, b: bool)
    requires
        id is NaturalScroll || id is ScrollEnabled || id is HorizontalScroll || id is MomentumScroll
            || id is SyncSystemSettings || id is PersistentDragLock || id is ShiftScrollHorizontal
            || id is DynamicTransformCompat,
        setting_written(cfg, id, TomlValue::Boolean(b)),
    ensures
        setting_written(adjusted(cfg, id, increase), id, TomlValue::Boolean(!b)),
{
}

/// Law: switching the language twice gives the language back.
pub proof fn lemma_locale_toggle_twice(l: Locale)
    ensures
        l.toggled().toggled() == l,
{
}

/// Law: one step forward and one back leave a swipe backend unchanged, and
/// three steps in one direction go all the way round.
pub proof fn lemma_backend_cycle(b: SwipeBackend, increase: bool)
    ensures
        cycled_backend(cycled_backend(b, increase), !increase) == b,
        cycled_backend(cycled_backend(cycled_backend(b, increase), increase), increase) == b,
{
}

/// Law: the haptic setting cycles the same way.
pub proof fn lemma_haptic_cycle(h: HapticSetting, increase: bool)
    ensures
        cycled_haptic(cycled_haptic(h, increase), !increase) == h,
        cycled_haptic(cycled_haptic(cycled_haptic(h, increase), increase), increase) == h,
{
}

/// Law: stepping the zoom modifier forward then back returns to any of the
/// four choices; an unknown mask returns as the default; four steps in one
/// direction go all the way round from a choice.
pub proof fn lemma_mask_cycle(m: Option<u64>, increase: bool)
    ensures
        cycled_mask(cycled_mask(m, increase), !increase) == mask_options()[mask_index(m)],
        mask_options().contains(m) ==> cycled_mask(
            cycled_mask(cycled_mask(cycled_mask(m, increase), increase), increase),
            increase,
        ) == m,
{
    if mask_options().contains(m) {
        let i = choose|i: int| 0 <= i < 4 && mask_options()[i] == m;
        assert(i == mask_index(m));
    }
}

/// Law: toggling an `enable` row lands on plain on or off, and toggling
/// twice restores plain on or off.
pub proof fn lemma_toggle_enable(e: GestureEnable)
    ensures
        toggled_enable(e) is On || toggled_enable(e) is Off,
        (e is On || e is Off) ==> toggled_enable(toggled_enable(e)) == e,
{
}

/// Law: every row appears in exactly one group.
pub proof fn lemma_rows_partition(id: SettingId)
    ensures
        all_rows().contains(id),
        forall|i: int, j: int| 0 <= i < j < all_rows().len() ==> all_rows()[i] != all_rows()[j],
{
    let a = all_rows();
    assert(a =~= seq![
        SettingId::CursorSensitivity, SettingId::ClickPressure, SettingId::QuietClick,
        SettingId::TapToClick, SettingId::SecondaryClick, SettingId::DictionaryLookup,
        SettingId::HapticFeedback, SettingId::NaturalScroll, SettingId::ScrollEnabled,
        SettingId::ScrollSensitivity, SettingId::MomentumScroll, SettingId::HorizontalScroll,
        SettingId::Pinch, SettingId::PinchGain, SettingId::SmartZoom, SettingId::Rotate,
        SettingId::RotateGain, SettingId::ModifierZoomMask, SettingId::HorizontalSwipe,
        SettingId::VerticalSwipe, SettingId::RightEdgeSwipe, SettingId::ThreeFingerDrag,
        SettingId::PersistentDragLock, SettingId::ReleaseDelay, SettingId::OneFingerTapDrag,
        SettingId::PressAndHoldDrag, SettingId::CursorAccelExponent, SettingId::CursorAccelRef,
        SettingId::HorizontalBackend, SettingId::VerticalBackend, SettingId::ShiftScrollHorizontal,
        SettingId::DynamicTransformCompat, SettingId::ParameterProfile, SettingId::SurfaceWidth,
        SettingId::SyncSystemSettings,
    ]);
    let k: int = match id {
        SettingId::CursorSensitivity => 0,
        SettingId::ClickPressure => 1,
        SettingId::QuietClick => 2,
        SettingId::TapToClick => 3,
        SettingId::SecondaryClick => 4,
        SettingId::DictionaryLookup => 5,
        SettingId::HapticFeedback => 6,
        SettingId::NaturalScroll => 7,
        SettingId::ScrollEnabled => 8,
        SettingId::ScrollSensitivity => 9,
        SettingId::MomentumScroll => 10,
        SettingId::HorizontalScroll => 11,
        SettingId::Pinch => 12,
        SettingId::PinchGain => 13,
        SettingId::SmartZoom => 14,
        SettingId::Rotate => 15,
        SettingId::RotateGain => 16,
        SettingId::ModifierZoomMask => 17,
        SettingId::HorizontalSwipe => 18,
        SettingId::VerticalSwipe => 19,
        SettingId::RightEdgeSwipe => 20,
        SettingId::ThreeFingerDrag => 21,
        SettingId::PersistentDragLock => 22,
        SettingId::ReleaseDelay => 23,
        SettingId::OneFingerTapDrag => 24,
        SettingId::PressAndHoldDrag => 25,
        SettingId::CursorAccelExponent => 26,
        SettingId::CursorAccelRef => 27,
        SettingId::HorizontalBackend => 28,
        SettingId::VerticalBackend => 29,
        SettingId::ShiftScrollHorizontal => 30,
        SettingId::DynamicTransformCompat => 31,
        SettingId::ParameterProfile => 32,
        SettingId::SurfaceWidth => 33,
        SettingId::SyncSystemSettings => 34,
    };
    assert(a[k] == id);
}

/// Keys joined with dots.
pub open spec fn dotted(keys: Seq<Seq<char>>) -> Seq<char>
    decreases keys.len(),
{
    if keys.len() == 0 {
        Seq::empty()
    } else if keys.len() == 1 {
        keys[0]
    } else {
        dotted(keys.drop_last()) + "."@ + keys.last()
    }
}

pub fn join_dotted(keys: &Vec<&'static str>) -> (r: String)
    ensures
        r@ == dotted(keys@.map_values(|k: &'static str| k@)),
{
    let ghost views = keys@.map_values(|k: &'static str| k@);
    if keys.len() == 0 {
        return String::new();
    }
    let mut out = keys[0].to_owned();
    let mut i: usize = 1;
    proof {
        assert(views.take(1).len() == 1);
        assert(dotted(views.take(1)) == views.take(1)[0]);
    }
    while i < keys.len()
        invariant
            1 <= i <= keys@.len(),
            views == keys@.map_values(|k: &'static str| k@),
            out@ == dotted(views.take(i as int)),
        decreases keys@.len() - i,
    {
        let with_dot = concat_str(out.as_str(), ".");
        out = concat_str(with_dot.as_str(), keys[i]);
        proof {
            assert(views.take(i + 1).drop_last() =~= views.take(i as int));
            assert(views.take(i + 1).last() == keys@[i as int]@);
        }
        i = i + 1;
    }
    assert(views.take(keys@.len() as int) =~= views);
    out
}

/// The keys the editor reacts to.
#[derive(Clone, Copy, Debug, PartialEq, Eq, Structural)]
pub enum EditorKey {
    /// Ctrl-Q.
    ForceQuit,
    /// `q` or Esc.
    Quit,
    /// Tab or Shift-Tab.
    SwitchFocus,
    /// `[`.
    PreviousCategory,
    /// `]`.
    NextCategory,
    /// `l`.
    SwitchLanguage,
    Left,
    Right,
    /// Enter or space.
    Activate,
    /// Up or `k`.
    Up,
    /// Down or `j`.
    Down,
    /// `s`.
    Save,
    /// `r`.
    Reload,
}

/// What the caller does after a key: the editor state has already moved.
#[derive(Clone, Copy, Debug, PartialEq, Eq, Structural)]
pub enum EditorAction {
    Stay,
    Exit,
    /// Step the selected setting up (`true`) or down.
    Adjust(bool),
    Save,
    Reload,
}

/// The navigation and change-tracking state of the settings editor.
pub struct EditorState {
    pub category: usize,
    pub selected: usize,
    pub focus: Focus,
    pub locale: Locale,
    /// Dotted paths of the rows changed since the last save.
    pub changed: PathSet,
    pub status: String,
    pub quit_pending: bool,
}

/// The editor state as plain values.
#[verifier::ext_equal]
pub struct EditorModel {
    pub category: usize,
    pub selected: usize,
    pub focus: Focus,
    pub locale: Locale,
    pub changed: Set<Seq<char>>,
    pub status: Seq<char>,
    pub quit_pending: bool,
}

/// Group `index` opened at its first row; a pending quit is withdrawn.
pub open spec fn opened(m: EditorModel, index: usize) -> EditorModel {
    EditorModel { category: index, selected: 0, quit_pending: false, ..m }
}

/// The selection moved by `delta` rows, wrapping in its group; a pending
/// quit is withdrawn.
pub open spec fn moved(m: EditorModel, delta: int) -> EditorModel {
    EditorModel {
        selected: ((m.selected + delta) % (category_order()[m.category as int].rows().len() as int)) as usize,
        quit_pending: false,
        ..m
    }
}

/// The other pane.
pub open spec fn other_focus(f: Focus) -> Focus {
    match f {
        Focus::Sidebar => Focus::Settings,
        Focus::Settings => Focus::Sidebar,
    }
}

/// How the editor answers a key: the action for the caller and the state
/// after it.
/// - Ctrl-Q exits at once.
/// - `q`/Esc exits when nothing is unsaved or a quit is already pending;
///   otherwise it makes the quit pending and shows the warning.
/// - Tab switches panes; `l` switches the language and shows the label of
///   the switch back.
/// - `[`, `]` and, in the group list, the arrows open the previous or next
///   group; in the rows, up and down move the selection with wrap-around;
///   each of these withdraws a pending quit.
/// - Left in the rows goes to the group list; right or Enter in the group
///   list goes to the rows, and in the rows asks to step the setting up.
/// - `s` withdraws a pending quit and asks to save; `r` asks to reload.
pub open spec fn spec_on_key(m: EditorModel, key: EditorKey) -> (EditorAction, EditorModel) {
    let prev = ((m.category + 3) % 4) as usize;
    let next = ((m.category + 1) % 4) as usize;
    match key {
        EditorKey::ForceQuit => (EditorAction::Exit, m),
        EditorKey::Quit => if m.changed == Set::<Seq<char>>::empty() || m.quit_pending {
            (EditorAction::Exit, m)
        } else {
            (
                EditorAction::Stay,
                EditorModel { quit_pending: true, status: quit_warning_text(m.locale), ..m },
            )
        },
        EditorKey::SwitchFocus => (EditorAction::Stay, EditorModel { focus: other_focus(m.focus), ..m }),
        EditorKey::PreviousCategory => (EditorAction::Stay, opened(m, prev)),
        EditorKey::NextCategory => (EditorAction::Stay, opened(m, next)),
        EditorKey::SwitchLanguage => (
            EditorAction::Stay,
            EditorModel {
                locale: m.locale.toggled(),
                status: match m.locale {
                    Locale::English => "English"@,
                    Locale::Chinese => "中文"@,
                },
                ..m
            },
        ),
        EditorKey::Left => match m.focus {
            Focus::Sidebar => (EditorAction::Stay, opened(m, prev)),
            Focus::Settings => (EditorAction::Stay, EditorModel { focus: Focus::Sidebar, ..m }),
        },
        EditorKey::Right | EditorKey::Activate => match m.focus {
            Focus::Sidebar => (EditorAction::Stay, EditorModel { focus: Focus::Settings, ..m }),
            Focus::Settings => (EditorAction::Adjust(true), m),
        },
        EditorKey::Up => match m.focus {
            Focus::Sidebar => (EditorAction::Stay, opened(m, prev)),
            Focus::Settings => (EditorAction::Stay, moved(m, -1)),
        },
        EditorKey::Down => match m.focus {
            Focus::Sidebar => (EditorAction::Stay, opened(m, next)),
            Focus::Settings => (EditorAction::Stay, moved(m, 1)),
        },
        EditorKey::Save => (EditorAction::Save, EditorModel { quit_pending: false, ..m }),
        EditorKey::Reload => (EditorAction::Reload, m),
    }
}

/// The status line after `n` unsaved changes.
pub open spec fn unsaved_text(n: nat, locale: Locale) -> Seq<char> {
    match locale {
        Locale::English => ascii_chars(decimal_bytes(n)) + " unsaved change(s)"@,
        Locale::Chinese => "待保存："@ + ascii_chars(decimal_bytes(n)) + " 项修改"@,
    }
}

pub open spec fn read_only_text(locale: Locale) -> Seq<char> {
    match locale {
        Locale::English => "Hardware-only setting; nothing to change"@,
        Locale::Chinese => "硬件专属设置，虚拟输入无需修改"@,
    }
}

pub open spec fn quit_warning_text(locale: Locale) -> Seq<char> {
    match locale {
        Locale::English => "Unsaved changes: press s to save or q again to discard"@,
        Locale::Chinese => "有未保存修改：按 s 保存，再按 q 放弃"@,
    }
}

impl EditorState {
    /// The selection points at an existing group and row.
    pub open spec fn wf(&self) -> bool {
        &&& self.category < 4
        &&& self.selected < category_order()[self.category as int].rows().len()
    }

    pub fn new() -> (r: Self)
        ensures
            r.wf(),
            r.category == 0,
            r.selected == 0,
            r.focus == Focus::Settings,
            r.locale == Locale::Chinese,
            r.changed@ == Set::<Seq<char>>::empty(),
            r.status@ == "未修改"@,
            !r.quit_pending,
    {
        EditorState {
            category: 0,
            selected: 0,
            focus: Focus::Settings,
            locale: Locale::Chinese,
            changed: PathSet::new(),
            status: "未修改".to_owned(),
            quit_pending: false,
        }
    }

    pub fn current_category(&self) -> (r: Category)
        requires
            self.wf(),
        ensures
            r == category_order()[self.category as int],
    {
        CATEGORIES[self.category]
    }

    pub fn current_settings(&self) -> (r: Vec<SettingId>)
        requires
            self.wf(),
        ensures
            r@ == category_order()[self.category as int].rows(),
    {
        self.current_category().settings()
    }

    pub fn selected_id(&self) -> (r: SettingId)
        requires
            self.wf(),
        ensures
            r == category_order()[self.category as int].rows()[self.selected as int],
    {
        let rows = self.current_settings();
        rows[self.selected]
    }

    /// Opens group `index` (wrapping) at its first row.
    pub fn select_category(&mut self, index: usize)
        ensures
            final(self).wf(),
            final(self).category == index % 4,
            final(self).selected == 0,
            !final(self).quit_pending,
            final(self).focus == old(self).focus,
            final(self).locale == old(self).locale,
            final(self).changed@ == old(self).changed@,
            final(self).status@ == old(self).status@,
    {
        self.category = index % 4;
        self.selected = 0;
        self.quit_pending = false;
    }

    /// Moves the selection by `delta` rows, wrapping within the group.
    pub fn move_setting(&mut self, delta: isize)
        requires
            old(self).wf(),
            isize::MIN <= old(self).selected + delta <= isize::MAX,
        ensures
            final(self).wf(),
            final(self).selected == (old(self).selected + delta) % (category_order()[old(
                self,
            ).category as int].rows().len() as int),
            final(self).category == old(self).category,
            !final(self).quit_pending,
            final(self).focus == old(self).focus,
            final(self).locale == old(self).locale,
            final(self).changed@ == old(self).changed@,
            final(self).status@ == old(self).status@,
    {
        let len = self.current_settings().len();
        let ghost l = len as int;
        let s: i128 = self.selected as i128 + delta as i128;
        let next: usize = if s >= 0 {
            (s % (len as i128)) as usize
        } else {
            let a: i128 = (-s) % (len as i128);
            if a == 0 { 0 } else { (len as i128 - a) as usize }
        };
        proof {
            let si = s as int;
            if si < 0 {
                let n = -si;
                vstd::arithmetic::div_mod::lemma_fundamental_div_mod(n, l);
                vstd::arithmetic::div_mod::lemma_mod_bound(n, l);
                let q = n / l;
                let a = n % l;
                if a == 0 {
                    assert(si == l * (-q) + 0) by (nonlinear_arith)
                        requires
                            n == l * q + a,
                            a == 0,
                            si == -n,
                    ;
                    vstd::arithmetic::div_mod::lemma_mod_multiples_vanish(-q, 0, l);
                } else {
                    assert(si == l * (-q - 1) + (l - a)) by (nonlinear_arith)
                        requires
                            n == l * q + a,
                            si == -n,
                    ;
                    vstd::arithmetic::div_mod::lemma_mod_multiples_vanish(-q - 1, l - a, l);
                    vstd::arithmetic::div_mod::lemma_small_mod((l - a) as nat, l as nat);
                }
            } else {
                vstd::arithmetic::div_mod::lemma_mod_bound(si, l);
            }
        }
        self.selected = next;
        self.quit_pending = false;
    }

    /// Records the selected row as changed and shows the number of unsaved changes.
    pub fn mark_changed(&mut self)
        requires
            old(self).wf(),
        ensures
            final(self).wf(),
            final(self).changed@ == old(self).changed@.insert(
                dotted(old(self).selected_id_spec().path_keys()),
            ),
            final(self).status@ == unsaved_text(final(self).changed@.len(), old(self).locale),
            !final(self).quit_pending,
            final(self).category == old(self).category,
            final(self).selected == old(self).selected,
            final(self).focus == old(self).focus,
            final(self).locale == old(self).locale,
    {
        let id = self.selected_id();
        let keys = id.path();
        let path = join_dotted(&keys);
        self.changed.insert(path);
        let n = self.changed.len();
        let digits = u64_decimal(n as u64);
        self.status = match self.locale {
            Locale::English => concat_str(digits.as_str(), " unsaved change(s)"),
            Locale::Chinese => {
                let head = concat_str("待保存：", digits.as_str());
                concat_str(head.as_str(), " 项修改")
            },
        };
        self.quit_pending = false;
    }

    pub open spec fn selected_id_spec(&self) -> SettingId {
        category_order()[self.category as int].rows()[self.selected as int]
    }

    /// Quitting with unsaved changes asks once more; the second request, or
    /// one with nothing unsaved, exits.
    pub fn request_quit(&mut self) -> (exit: bool)
        ensures
            exit == (old(self).changed@ == Set::<Seq<char>>::empty() || old(self).quit_pending),
            !exit ==> final(self).quit_pending && final(self).status@ == quit_warning_text(
                old(self).locale,
            ),
            exit ==> final(self).quit_pending == old(self).quit_pending && final(self).status@
                == old(self).status@,
            final(self).category == old(self).category,
            final(self).selected == old(self).selected,
            final(self).focus == old(self).focus,
            final(self).locale == old(self).locale,
            final(self).changed@ == old(self).changed@,
    {
        if self.changed.is_empty() || self.quit_pending {
            return true;
        }
        self.quit_pending = true;
        self.status = match self.locale {
            Locale::English => "Unsaved changes: press s to save or q again to discard".to_owned(),
            Locale::Chinese => "有未保存修改：按 s 保存，再按 q 放弃".to_owned(),
        };
        false
    }

    /// The notice for a hardware-only row; nothing changes.
    pub fn notice_read_only(&mut self)
        ensures
            final(self).status@ == read_only_text(old(self).locale),
            final(self).category == old(self).category,
            final(self).selected == old(self).selected,
            final(self).focus == old(self).focus,
            final(self).locale == old(self).locale,
            final(self).changed@ == old(self).changed@,
            final(self).quit_pending == old(self).quit_pending,
    {
        self.status = match self.locale {
            Locale::English => "Hardware-only setting; nothing to change".to_owned(),
            Locale::Chinese => "硬件专属设置，虚拟输入无需修改".to_owned(),
        };
    }

    /// The state as plain values.
    pub open spec fn model(&self) -> EditorModel {
        EditorModel {
            category: self.category,
            selected: self.selected,
            focus: self.focus,
            locale: self.locale,
            changed: self.changed@,
            status: self.status@,
            quit_pending: self.quit_pending,
        }
    }

    /// Reacts to one key: moves the selection, focus or language itself, and
    /// tells the caller what else to do.
    pub fn on_key(&mut self, key: EditorKey) -> (r: EditorAction)
        requires
            old(self).wf(),
        ensures
            final(self).wf(),
            (r, final(self).model()) == spec_on_key(old(self).model(), key),
    {
        match key {
            EditorKey::ForceQuit => EditorAction::Exit,
            EditorKey::Quit => {
                if self.request_quit() {
                    EditorAction::Exit
                } else {
                    EditorAction::Stay
                }
            },
            EditorKey::SwitchFocus => {
                self.focus = match self.focus {
                    Focus::Sidebar => Focus::Settings,
                    Focus::Settings => Focus::Sidebar,
                };
                EditorAction::Stay
            },
            EditorKey::PreviousCategory => {
                self.select_category((self.category + 3) % 4);
                EditorAction::Stay
            },
            EditorKey::NextCategory => {
                self.select_category((self.category + 1) % 4);
                EditorAction::Stay
            },
            EditorKey::SwitchLanguage => {
                self.locale.toggle();
                self.status = self.locale.language_label().to_owned();
                proof {
                    assert(old(self).locale.toggled().toggled() == old(self).locale);
                }
                EditorAction::Stay
            },
            EditorKey::Left => {
                match self.focus {
                    Focus::Sidebar => self.select_category((self.category + 3) % 4),
                    Focus::Settings => self.focus = Focus::Sidebar,
                }
                EditorAction::Stay
            },
            EditorKey::Right | EditorKey::Activate => match self.focus {
                Focus::Sidebar => {
                    self.focus = Focus::Settings;
                    EditorAction::Stay
                },
                Focus::Settings => EditorAction::Adjust(true),
            },
            EditorKey::Up => {
                match self.focus {
                    Focus::Sidebar => self.select_category((self.category + 3) % 4),
                    Focus::Settings => self.move_setting(-1),
                }
                EditorAction::Stay
            },
            EditorKey::Down => {
                match self.focus {
                    Focus::Sidebar => self.select_category((self.category + 1) % 4),
                    Focus::Settings => self.move_setting(1),
                }
                EditorAction::Stay
            },
            EditorKey::Save => {
                self.quit_pending = false;
                EditorAction::Save
            },
            EditorKey::Reload => EditorAction::Reload,
        }
    }
}

/// Law: moving down through a whole group comes back to the starting row,
/// and moving down then up returns to it.
pub proof fn lemma_move_wraps(selected: int, len: int)
    requires
        0 <= selected < len,
    ensures
        (selected + len) % len == selected,
        ((selected + 1) % len - 1) % len == selected,
{
    assert((selected + len) % len == selected) by (nonlinear_arith) requires 0 <= selected < len;
    assert(((selected + 1) % len - 1) % len == selected) by (nonlinear_arith)
        requires 0 <= selected < len;
}

} // verus!
