//! macOS trackpad preferences: the raw values with their source domain, the
//! normalized policy, and the conservative merge into the configuration,
//! where a field written explicitly in the TOML source always wins.
//!
//! Reading the preference domains and the floating-point scaling keys is the
//! caller's part; this module takes their results as plain values.
use crate::config::{
    Config, Cursor, GestureEnable, Gestures, HapticSetting, Macos, OneFingerTapDrag, Pinch, Rotate,
    Scroll, Swipe, SwipeAxisCfg, ThreeFingerDrag,
};
use crate::scroll_policy::SUPPORTED_ZOOM_MODIFIER_MASK;
use crate::text::{
    ascii_chars, concat_str, hex_bytes, i64_decimal, signed_decimal_bytes, str_eq, u64_hex,
};
use vstd::prelude::*;

verus! {

broadcast use vstd::string::group_string_axioms;

pub const PRIMARY_DOMAIN: &'static str = "com.apple.AppleMultitouchTrackpad";

pub const FALLBACK_DOMAIN: &'static str = "com.apple.driver.AppleBluetoothMultitouch.trackpad";

pub const GLOBAL_DOMAIN: &'static str = ".GlobalPreferences";

/// A preference value as Core Foundation typed it. Floating-point values are
/// carried as the bit pattern of their `f64`.
#[derive(Clone, Copy, Debug, PartialEq, Eq, Structural)]
pub enum PreferenceValue {
    Integer(i64),
    Float(u64),
    Boolean(bool),
    /// A known key held neither a number nor a boolean.
    Unsupported,
}

impl PreferenceValue {
    /// Integers as they are, booleans as 0 and 1.
    pub open spec fn integer_value(self) -> Option<i64> {
        match self {
            PreferenceValue::Integer(v) => Some(v),
            PreferenceValue::Boolean(b) => Some(if b { 1i64 } else { 0i64 }),
            _ => None,
        }
    }

    pub fn as_i64(self) -> (r: Option<i64>)
        ensures
            r == self.integer_value(),
    {
        match self {
            PreferenceValue::Integer(v) => Some(v),
            PreferenceValue::Boolean(b) => Some(if b { 1 } else { 0 }),
            PreferenceValue::Float(_) | PreferenceValue::Unsupported => None,
        }
    }
}

/// The preference keys this module reads.
#[derive(Clone, Copy, Debug, PartialEq, Eq, Structural)]
pub enum PrefKey {
    ActuateDetents,
    Clicking,
    DragLock,
    Dragging,
    FirstClickThreshold,
    ForceSuppressed,
    HIDScrollZoomModifierMask,
    SecondClickThreshold,
    TrackpadCornerSecondaryClick,
    TrackpadFiveFingerPinchGesture,
    TrackpadFourFingerHorizSwipeGesture,
    TrackpadFourFingerPinchGesture,
    TrackpadFourFingerVertSwipeGesture,
    TrackpadHandResting,
    TrackpadHorizScroll,
    TrackpadMomentumScroll,
    TrackpadPinch,
    TrackpadRightClick,
    TrackpadRotate,
    TrackpadScroll,
    TrackpadThreeFingerDrag,
    TrackpadThreeFingerHorizSwipeGesture,
    TrackpadThreeFingerTapGesture,
    TrackpadThreeFingerVertSwipeGesture,
    TrackpadTwoFingerDoubleTapGesture,
    TrackpadTwoFingerFromRightEdgeSwipeGesture,
    UsbMouseStopsTrackpad,
    TrackpadScrollNatural,
    GlobalNaturalScroll,
    GlobalTrackpadScaling,
    GlobalScrollwheelScaling,
}

impl PrefKey {
    pub open spec fn key_name(self) -> Seq<char> {
        match self {
            PrefKey::ActuateDetents => "ActuateDetents"@,
            PrefKey::Clicking => "Clicking"@,
            PrefKey::DragLock => "DragLock"@,
            PrefKey::Dragging => "Dragging"@,
            PrefKey::FirstClickThreshold => "FirstClickThreshold"@,
            PrefKey::ForceSuppressed => "ForceSuppressed"@,
            PrefKey::HIDScrollZoomModifierMask => "HIDScrollZoomModifierMask"@,
            PrefKey::SecondClickThreshold => "SecondClickThreshold"@,
            PrefKey::TrackpadCornerSecondaryClick => "TrackpadCornerSecondaryClick"@,
            PrefKey::TrackpadFiveFingerPinchGesture => "TrackpadFiveFingerPinchGesture"@,
            PrefKey::TrackpadFourFingerHorizSwipeGesture => "TrackpadFourFingerHorizSwipeGesture"@,
            PrefKey::TrackpadFourFingerPinchGesture => "TrackpadFourFingerPinchGesture"@,
            PrefKey::TrackpadFourFingerVertSwipeGesture => "TrackpadFourFingerVertSwipeGesture"@,
            PrefKey::TrackpadHandResting => "TrackpadHandResting"@,
            PrefKey::TrackpadHorizScroll => "TrackpadHorizScroll"@,
            PrefKey::TrackpadMomentumScroll => "TrackpadMomentumScroll"@,
            PrefKey::TrackpadPinch => "TrackpadPinch"@,
            PrefKey::TrackpadRightClick => "TrackpadRightClick"@,
            PrefKey::TrackpadRotate => "TrackpadRotate"@,
            PrefKey::TrackpadScroll => "TrackpadScroll"@,
            PrefKey::TrackpadThreeFingerDrag => "TrackpadThreeFingerDrag"@,
            PrefKey::TrackpadThreeFingerHorizSwipeGesture => "TrackpadThreeFingerHorizSwipeGesture"@,
            PrefKey::TrackpadThreeFingerTapGesture => "TrackpadThreeFingerTapGesture"@,
            PrefKey::TrackpadThreeFingerVertSwipeGesture => "TrackpadThreeFingerVertSwipeGesture"@,
            PrefKey::TrackpadTwoFingerDoubleTapGesture => "TrackpadTwoFingerDoubleTapGesture"@,
            PrefKey::TrackpadTwoFingerFromRightEdgeSwipeGesture => "TrackpadTwoFingerFromRightEdgeSwipeGesture"@,
            PrefKey::UsbMouseStopsTrackpad => "USBMouseStopsTrackpad"@,
            PrefKey::TrackpadScrollNatural => "TrackpadScrollNatural"@,
            PrefKey::GlobalNaturalScroll => "com.apple.swipescrolldirection"@,
            PrefKey::GlobalTrackpadScaling => "com.apple.trackpad.scaling"@,
            PrefKey::GlobalScrollwheelScaling => "com.apple.scrollwheel.scaling"@,
        }
    }

    /// The key as macOS spells it.
    pub fn name(self) -> (r: &'static str)
        ensures
            r@ == self.key_name(),
    {
        match self {
            PrefKey::ActuateDetents => "ActuateDetents",
            PrefKey::Clicking => "Clicking",
            PrefKey::DragLock => "DragLock",
            PrefKey::Dragging => "Dragging",
            PrefKey::FirstClickThreshold => "FirstClickThreshold",
            PrefKey::ForceSuppressed => "ForceSuppressed",
            PrefKey::HIDScrollZoomModifierMask => "HIDScrollZoomModifierMask",
            PrefKey::SecondClickThreshold => "SecondClickThreshold",
            PrefKey::TrackpadCornerSecondaryClick => "TrackpadCornerSecondaryClick",
            PrefKey::TrackpadFiveFingerPinchGesture => "TrackpadFiveFingerPinchGesture",
            PrefKey::TrackpadFourFingerHorizSwipeGesture => "TrackpadFourFingerHorizSwipeGesture",
            PrefKey::TrackpadFourFingerPinchGesture => "TrackpadFourFingerPinchGesture",
            PrefKey::TrackpadFourFingerVertSwipeGesture => "TrackpadFourFingerVertSwipeGesture",
            PrefKey::TrackpadHandResting => "TrackpadHandResting",
            PrefKey::TrackpadHorizScroll => "TrackpadHorizScroll",
            PrefKey::TrackpadMomentumScroll => "TrackpadMomentumScroll",
            PrefKey::TrackpadPinch => "TrackpadPinch",
            PrefKey::TrackpadRightClick => "TrackpadRightClick",
            PrefKey::TrackpadRotate => "TrackpadRotate",
            PrefKey::TrackpadScroll => "TrackpadScroll",
            PrefKey::TrackpadThreeFingerDrag => "TrackpadThreeFingerDrag",
            PrefKey::TrackpadThreeFingerHorizSwipeGesture => "TrackpadThreeFingerHorizSwipeGesture",
            PrefKey::TrackpadThreeFingerTapGesture => "TrackpadThreeFingerTapGesture",
            PrefKey::TrackpadThreeFingerVertSwipeGesture => "TrackpadThreeFingerVertSwipeGesture",
            PrefKey::TrackpadTwoFingerDoubleTapGesture => "TrackpadTwoFingerDoubleTapGesture",
            PrefKey::TrackpadTwoFingerFromRightEdgeSwipeGesture => "TrackpadTwoFingerFromRightEdgeSwipeGesture",
            PrefKey::UsbMouseStopsTrackpad => "USBMouseStopsTrackpad",
            PrefKey::TrackpadScrollNatural => "TrackpadScrollNatural",
            PrefKey::GlobalNaturalScroll => "com.apple.swipescrolldirection",
            PrefKey::GlobalTrackpadScaling => "com.apple.trackpad.scaling",
            PrefKey::GlobalScrollwheelScaling => "com.apple.scrollwheel.scaling",
        }
    }
}

/// The keys collected from the trackpad domains, for diagnostics too: a key
/// can be reported even where the companion cannot reproduce its behaviour.
pub open spec fn trackpad_key_list() -> Seq<PrefKey> {
    seq![
            PrefKey::ActuateDetents,
            PrefKey::Clicking,
            PrefKey::DragLock,
            PrefKey::Dragging,
            PrefKey::FirstClickThreshold,
            PrefKey::ForceSuppressed,
            PrefKey::HIDScrollZoomModifierMask,
            PrefKey::SecondClickThreshold,
            PrefKey::TrackpadCornerSecondaryClick,
            PrefKey::TrackpadFiveFingerPinchGesture,
            PrefKey::TrackpadFourFingerHorizSwipeGesture,
            PrefKey::TrackpadFourFingerPinchGesture,
            PrefKey::TrackpadFourFingerVertSwipeGesture,
            PrefKey::TrackpadHandResting,
            PrefKey::TrackpadHorizScroll,
            PrefKey::TrackpadMomentumScroll,
            PrefKey::TrackpadPinch,
            PrefKey::TrackpadRightClick,
            PrefKey::TrackpadRotate,
            PrefKey::TrackpadScroll,
            PrefKey::TrackpadThreeFingerDrag,
            PrefKey::TrackpadThreeFingerHorizSwipeGesture,
            PrefKey::TrackpadThreeFingerTapGesture,
            PrefKey::TrackpadThreeFingerVertSwipeGesture,
            PrefKey::TrackpadTwoFingerDoubleTapGesture,
            PrefKey::TrackpadTwoFingerFromRightEdgeSwipeGesture,
            PrefKey::UsbMouseStopsTrackpad,
    ]
}

pub fn trackpad_keys() -> (r: Vec<PrefKey>)
    ensures
        r@ == trackpad_key_list(),
{
    let r = vec![
            PrefKey::ActuateDetents,
            PrefKey::Clicking,
            PrefKey::DragLock,
            PrefKey::Dragging,
            PrefKey::FirstClickThreshold,
            PrefKey::ForceSuppressed,
            PrefKey::HIDScrollZoomModifierMask,
            PrefKey::SecondClickThreshold,
            PrefKey::TrackpadCornerSecondaryClick,
            PrefKey::TrackpadFiveFingerPinchGesture,
            PrefKey::TrackpadFourFingerHorizSwipeGesture,
            PrefKey::TrackpadFourFingerPinchGesture,
            PrefKey::TrackpadFourFingerVertSwipeGesture,
            PrefKey::TrackpadHandResting,
            PrefKey::TrackpadHorizScroll,
            PrefKey::TrackpadMomentumScroll,
            PrefKey::TrackpadPinch,
            PrefKey::TrackpadRightClick,
            PrefKey::TrackpadRotate,
            PrefKey::TrackpadScroll,
            PrefKey::TrackpadThreeFingerDrag,
            PrefKey::TrackpadThreeFingerHorizSwipeGesture,
            PrefKey::TrackpadThreeFingerTapGesture,
            PrefKey::TrackpadThreeFingerVertSwipeGesture,
            PrefKey::TrackpadTwoFingerDoubleTapGesture,
            PrefKey::TrackpadTwoFingerFromRightEdgeSwipeGesture,
            PrefKey::UsbMouseStopsTrackpad,
    ];
    assert(r@ =~= trackpad_key_list());
    r
}

/// The keys read from the global domain.
pub open spec fn global_key_list() -> Seq<PrefKey> {
    seq![PrefKey::GlobalNaturalScroll, PrefKey::GlobalTrackpadScaling, PrefKey::GlobalScrollwheelScaling]
}

pub fn global_keys() -> (r: Vec<PrefKey>)
    ensures
        r@ == global_key_list(),
{
    let r = vec![PrefKey::GlobalNaturalScroll, PrefKey::GlobalTrackpadScaling, PrefKey::GlobalScrollwheelScaling];
    assert(r@ =~= global_key_list());
    r
}

/// A key read from both trackpad domains with two different values.
#[derive(Clone, Copy, Debug, PartialEq, Eq, Structural)]
pub struct PreferenceConflict {
    pub key: PrefKey,
    pub primary: PreferenceValue,
    pub fallback: PreferenceValue,
}

/// One stored preference: key, value, source domain.
pub struct RawEntry {
    key: String,
    value: PreferenceValue,
    source: String,
}

pub struct RawModel {
    /// Key, value and source domain, one entry per key.
    pub entries: Seq<(Seq<char>, PreferenceValue, Seq<char>)>,
    pub conflicts: Seq<PreferenceConflict>,
    pub trackpad_domain_available: bool,
    pub global_domain_available: bool,
}

/// The value and source stored under `key`.
pub open spec fn lookup(entries: Seq<(Seq<char>, PreferenceValue, Seq<char>)>, key: Seq<char>) -> Option<
    (PreferenceValue, Seq<char>),
>
    decreases entries.len(),
{
    if entries.len() == 0 {
        None
    } else if entries.last().0 == key {
        Some((entries.last().1, entries.last().2))
    } else {
        lookup(entries.drop_last(), key)
    }
}

pub open spec fn keys_distinct(entries: Seq<(Seq<char>, PreferenceValue, Seq<char>)>) -> bool {
    forall|i: int, j: int| 0 <= i < j < entries.len() ==> (#[trigger] entries[i]).0 != (#[trigger] entries[j]).0
}

impl RawModel {
    pub open spec fn value_of(self, key: Seq<char>) -> Option<PreferenceValue> {
        match lookup(self.entries, key) {
            Some((v, _)) => Some(v),
            None => None,
        }
    }

    pub open spec fn pref(self, key: PrefKey) -> Option<PreferenceValue> {
        self.value_of(key.key_name())
    }
}

/// Raw values kept for diagnostics and for the normalization below.
pub struct RawTrackpadPreferences {
    entries: Vec<RawEntry>,
    conflicts: Vec<PreferenceConflict>,
    trackpad_domain_available: bool,
    global_domain_available: bool,
}

impl View for RawTrackpadPreferences {
    type V = RawModel;

    closed spec fn view(&self) -> RawModel {
        RawModel {
            entries: self.entries@.map_values(|e: RawEntry| (e.key@, e.value, e.source@)),
            conflicts: self.conflicts@,
            trackpad_domain_available: self.trackpad_domain_available,
            global_domain_available: self.global_domain_available,
        }
    }
}

proof fn lemma_lookup_found(entries: Seq<(Seq<char>, PreferenceValue, Seq<char>)>, k: int)
    requires
        keys_distinct(entries),
        0 <= k < entries.len(),
    ensures
        lookup(entries, entries[k].0) == Some((entries[k].1, entries[k].2)),
    decreases entries.len(),
{
    if k < entries.len() - 1 {
        assert(entries[k].0 != entries[entries.len() - 1].0);
        assert(entries.drop_last()[k] == entries[k]);
        assert(keys_distinct(entries.drop_last()));
        lemma_lookup_found(entries.drop_last(), k);
    }
}

proof fn lemma_lookup_absent(entries: Seq<(Seq<char>, PreferenceValue, Seq<char>)>, key: Seq<char>)
    requires
        forall|i: int| 0 <= i < entries.len() ==> (#[trigger] entries[i]).0 != key,
    ensures
        lookup(entries, key) is None,
    decreases entries.len(),
{
    if entries.len() > 0 {
        assert(entries[entries.len() - 1].0 != key);
        assert forall|i: int| 0 <= i < entries.drop_last().len() implies (
        #[trigger] entries.drop_last()[i]).0 != key by {
            assert(entries.drop_last()[i] == entries[i]);
        }
        lemma_lookup_absent(entries.drop_last(), key);
    }
}

proof fn lemma_lookup_update(
    entries: Seq<(Seq<char>, PreferenceValue, Seq<char>)>,
    k: int,
    e: (Seq<char>, PreferenceValue, Seq<char>),
    q: Seq<char>,
)
    requires
        keys_distinct(entries),
        0 <= k < entries.len(),
        entries[k].0 == e.0,
    ensures
        keys_distinct(entries.update(k, e)),
        lookup(entries.update(k, e), q) == (if q == e.0 {
            Some((e.1, e.2))
        } else {
            lookup(entries, q)
        }),
    decreases entries.len(),
{
    let u = entries.update(k, e);
    assert forall|i: int, j: int| 0 <= i < j < u.len() implies (#[trigger] u[i]).0 != (
    #[trigger] u[j]).0 by {
        assert(entries[i].0 != entries[j].0);
    }
    if k == entries.len() - 1 {
        assert(u.drop_last() =~= entries.drop_last());
        if q != e.0 {
        }
    } else {
        assert(u.drop_last() =~= entries.drop_last().update(k, e));
        assert(entries.last().0 != e.0) by {
            assert(entries[k].0 != entries[entries.len() - 1].0);
        }
        assert(keys_distinct(entries.drop_last()));
        lemma_lookup_update(entries.drop_last(), k, e, q);
    }
}

impl RawTrackpadPreferences {
    #[verifier::type_invariant]
    closed spec fn inv(self) -> bool {
        keys_distinct(self@.entries)
    }

    pub fn new() -> (r: Self)
        ensures
            r@.entries == Seq::<(Seq<char>, PreferenceValue, Seq<char>)>::empty(),
            r@.conflicts == Seq::<PreferenceConflict>::empty(),
            !r@.trackpad_domain_available,
            !r@.global_domain_available,
    {
        let r = RawTrackpadPreferences {
            entries: Vec::new(),
            conflicts: Vec::new(),
            trackpad_domain_available: false,
            global_domain_available: false,
        };
        assert(r@.entries =~= Seq::<(Seq<char>, PreferenceValue, Seq<char>)>::empty());
        r
    }

    /// The number of keys with a stored value.
    pub fn value_count(&self) -> (r: usize)
        ensures
            r == self@.entries.len(),
            keys_distinct(self@.entries),
    {
        proof {
            use_type_invariant(self);
        }
        self.entries.len()
    }

    fn find(&self, key: &str) -> (r: Option<usize>)
        ensures
            match r {
                Some(k) => k < self@.entries.len() && self@.entries[k as int].0 == key@,
                None => forall|i: int| 0 <= i < self@.entries.len() ==> (
                #[trigger] self@.entries[i]).0 != key@,
            },
    {
        let mut i: usize = 0;
        while i < self.entries.len()
            invariant
                i <= self.entries@.len(),
                forall|j: int| 0 <= j < i ==> (#[trigger] self@.entries[j]).0 != key@,
            decreases self.entries@.len() - i,
        {
            if str_eq(self.entries[i].key.as_str(), key) {
                return Some(i);
            }
            i = i + 1;
        }
        None
    }

    pub fn value(&self, key: &str) -> (r: Option<PreferenceValue>)
        ensures
            r == self@.value_of(key@),
    {
        proof {
            use_type_invariant(self);
        }
        match self.find(key) {
            Some(k) => {
                proof {
                    lemma_lookup_found(self@.entries, k as int);
                }
                Some(self.entries[k].value)
            },
            None => {
                proof {
                    lemma_lookup_absent(self@.entries, key@);
                }
                None
            },
        }
    }

    /// The domain the value of `key` came from.
    pub fn source(&self, key: &str) -> (r: Option<&str>)
        ensures
            match lookup(self@.entries, key@) {
                Some((_, s)) => r matches Some(t) && t@ == s,
                None => r is None,
            },
    {
        proof {
            use_type_invariant(self);
        }
        match self.find(key) {
            Some(k) => {
                proof {
                    lemma_lookup_found(self@.entries, k as int);
                }
                Some(self.entries[k].source.as_str())
            },
            None => {
                proof {
                    lemma_lookup_absent(self@.entries, key@);
                }
                None
            },
        }
    }

    pub fn conflicts(&self) -> (r: &[PreferenceConflict])
        ensures
            r@ == self@.conflicts,
    {
        self.conflicts.as_slice()
    }

    pub fn trackpad_domain_available(&self) -> (r: bool)
        ensures
            r == self@.trackpad_domain_available,
    {
        self.trackpad_domain_available
    }

    pub fn global_domain_available(&self) -> (r: bool)
        ensures
            r == self@.global_domain_available,
    {
        self.global_domain_available
    }

    /// Stores `value` from `source` under `key`, replacing an earlier value.
    pub fn insert(&mut self, key: &str, value: PreferenceValue, source: &str)
        ensures
            forall|q: Seq<char>|
                lookup(final(self)@.entries, q) == (if q == key@ {
                    Some((value, source@))
                } else {
                    lookup(old(self)@.entries, q)
                }),
            final(self)@.entries.len() == old(self)@.entries.len() + (if lookup(
                old(self)@.entries,
                key@,
            ) is Some {
                0int
            } else {
                1int
            }),
            final(self)@.conflicts == old(self)@.conflicts,
            final(self)@.trackpad_domain_available == old(self)@.trackpad_domain_available,
            final(self)@.global_domain_available == old(self)@.global_domain_available,
    {
        proof {
            use_type_invariant(&*self);
        }
        let ghost old_entries = self@.entries;
        let found = self.find(key);
        let entry = RawEntry { key: key.to_owned(), value, source: source.to_owned() };
        let ghost ev = (key@, value, source@);
        let mut v: Vec<RawEntry> = Vec::new();
        std::mem::swap(&mut v, &mut self.entries);
        assert(v@.map_values(|e: RawEntry| (e.key@, e.value, e.source@)) == old_entries);
        match found {
            Some(k) => {
                proof {
                    lemma_lookup_found(old_entries, k as int);
                    assert forall|q: Seq<char>| lookup(old_entries.update(k as int, ev), q) == (if q
                        == key@ {
                        Some((value, source@))
                    } else {
                        lookup(old_entries, q)
                    }) by {
                        lemma_lookup_update(old_entries, k as int, ev, q);
                    }
                    lemma_lookup_update(old_entries, k as int, ev, key@);
                }
                v.set(k, entry);
                assert(v@.map_values(|e: RawEntry| (e.key@, e.value, e.source@)) =~= old_entries.update(
                    k as int,
                    ev,
                ));
            },
            None => {
                proof {
                    lemma_lookup_absent(old_entries, key@);
                }
                v.push(entry);
                let ghost nv = v@.map_values(|e: RawEntry| (e.key@, e.value, e.source@));
                assert(nv =~= old_entries.push(ev));
                assert(nv.drop_last() =~= old_entries);
                assert forall|a: int, b: int| 0 <= a < b < nv.len() implies (#[trigger] nv[a]).0 != (
                #[trigger] nv[b]).0 by {
                    assert(nv[a] == old_entries[a]);
                    if b < old_entries.len() {
                        assert(nv[b] == old_entries[b]);
                    }
                }
            },
        }
        self.entries = v;
    }

    /// Records one trackpad key read from the primary and fallback domains:
    /// two different values are a conflict; the primary value wins.
    pub fn record_trackpad_value(
        &mut self,
        key: PrefKey,
        primary: Option<PreferenceValue>,
        fallback: Option<PreferenceValue>,
    )
        ensures
            final(self)@.conflicts == old(self)@.conflicts + (match (primary, fallback) {
                (Some(a), Some(b)) => if a != b {
                    seq![PreferenceConflict { key, primary: a, fallback: b }]
                } else {
                    Seq::empty()
                },
                _ => Seq::empty(),
            }),
            final(self)@.trackpad_domain_available == (old(self)@.trackpad_domain_available
                || primary is Some || fallback is Some),
            final(self)@.global_domain_available == old(self)@.global_domain_available,
            forall|q: Seq<char>|
                lookup(final(self)@.entries, q) == (if q == key.key_name() && primary is Some {
                    Some((primary->0, PRIMARY_DOMAIN@))
                } else if q == key.key_name() && fallback is Some {
                    Some((fallback->0, FALLBACK_DOMAIN@))
                } else {
                    lookup(old(self)@.entries, q)
                }),
    {
        proof {
            use_type_invariant(&*self);
        }
        let ghost before = self@.conflicts;
        match (primary, fallback) {
            (Some(a), Some(b)) => {
                if a != b {
                    let c = PreferenceConflict { key, primary: a, fallback: b };
                    let mut cs: Vec<PreferenceConflict> = Vec::new();
                    std::mem::swap(&mut cs, &mut self.conflicts);
                    cs.push(c);
                    self.conflicts = cs;
                    assert(self@.conflicts =~= before + seq![c]);
                } else {
                    assert(self@.conflicts =~= before + Seq::<PreferenceConflict>::empty());
                }
            },
            _ => {
                assert(self@.conflicts =~= before + Seq::<PreferenceConflict>::empty());
            },
        }
        match primary {
            Some(v) => {
                self.trackpad_domain_available = true;
                self.insert(key.name(), v, PRIMARY_DOMAIN);
            },
            None => match fallback {
                Some(v) => {
                    self.trackpad_domain_available = true;
                    self.insert(key.name(), v, FALLBACK_DOMAIN);
                },
                None => {},
            },
        }
    }

    /// Records one key read from the global domain.
    pub fn record_global_value(&mut self, key: PrefKey, value: Option<PreferenceValue>)
        ensures
            final(self)@.conflicts == old(self)@.conflicts,
            final(self)@.trackpad_domain_available == old(self)@.trackpad_domain_available,
            final(self)@.global_domain_available == (old(self)@.global_domain_available
                || value is Some),
            forall|q: Seq<char>|
                lookup(final(self)@.entries, q) == (if q == key.key_name() && value is Some {
                    Some((value->0, GLOBAL_DOMAIN@))
                } else {
                    lookup(old(self)@.entries, q)
                }),
    {
        proof {
            use_type_invariant(&*self);
        }
        match value {
            Some(v) => {
                self.global_domain_available = true;
                self.insert(key.name(), v, GLOBAL_DOMAIN);
            },
            None => {},
        }
    }
}

impl RawTrackpadPreferences {
    /// A snapshot holding the given pairs in order, each from the source `"test"`.
    pub fn from_pairs(pairs: &[(&str, PreferenceValue)]) -> (r: Self)
        ensures
            forall|q: Seq<char>|
                lookup(r@.entries, q) == pairs_lookup(pairs@.map_values(|p: (&str, PreferenceValue)| (p.0@, p.1)), q),
            r@.conflicts == Seq::<PreferenceConflict>::empty(),
            !r@.trackpad_domain_available,
            !r@.global_domain_available,
    {
        let mut raw = RawTrackpadPreferences::new();
        let ghost ps = pairs@.map_values(|p: (&str, PreferenceValue)| (p.0@, p.1));
        let mut i: usize = 0;
        while i < pairs.len()
            invariant
                i <= pairs@.len(),
                ps == pairs@.map_values(|p: (&str, PreferenceValue)| (p.0@, p.1)),
                forall|q: Seq<char>| lookup(raw@.entries, q) == pairs_lookup(ps.take(i as int), q),
                raw@.conflicts == Seq::<PreferenceConflict>::empty(),
                !raw@.trackpad_domain_available,
                !raw@.global_domain_available,
            decreases pairs@.len() - i,
        {
            let (k, v) = pairs[i];
            raw.insert(k, v, "test");
            proof {
                assert(ps.take(i + 1).drop_last() =~= ps.take(i as int));
                assert(ps.take(i + 1).last() == (k@, v));
            }
            i = i + 1;
        }
        assert(ps.take(pairs@.len() as int) =~= ps);
        raw
    }
}

/// The value of `q` among key/value pairs where a later pair wins, with source `"test"`.
pub open spec fn pairs_lookup(pairs: Seq<(Seq<char>, PreferenceValue)>, q: Seq<char>) -> Option<
    (PreferenceValue, Seq<char>),
>
    decreases pairs.len(),
{
    if pairs.len() == 0 {
        None
    } else if pairs.last().0 == q {
        Some((pairs.last().1, "test"@))
    } else {
        pairs_lookup(pairs.drop_last(), q)
    }
}

/// The values a two-valued key may take: `0`/`1` or `0`/`2`.
#[derive(Clone, Copy, Debug, PartialEq, Eq, Structural)]
pub enum Expected {
    ZeroOrOne,
    ZeroOrTwo,
}

impl Expected {
    pub open spec fn on_value(self) -> i64 {
        match self {
            Expected::ZeroOrOne => 1,
            Expected::ZeroOrTwo => 2,
        }
    }
}

/// A preference that was present but could not be mapped.
#[derive(Clone, Copy, Debug, PartialEq, Eq, Structural)]
pub enum UnsupportedPreference {
    /// A two-valued key held something other than an integer or boolean.
    NotAnInteger { key: PrefKey, value: PreferenceValue, expected: Expected },
    /// A two-valued key held another integer.
    OutOfRange { key: PrefKey, value: i64, expected: Expected },
    /// `HIDScrollZoomModifierMask` was negative.
    NegativeModifierMask { value: i64 },
    /// `HIDScrollZoomModifierMask` had bits outside the supported modifiers.
    UnknownModifierBits { bits: u64 },
    /// `HIDScrollZoomModifierMask` had none of the supported modifiers.
    NoKnownModifiers { value: i64 },
    /// A key kept for diagnostics only.
    Unmapped { key: PrefKey, value: PreferenceValue },
    /// A scaling key with a finite value outside its accepted range.
    ScalarOutOfRange { key: PrefKey, value_bits: u64 },
    /// A scaling key without a finite numeric value.
    ScalarNotFinite { key: PrefKey, value: PreferenceValue },
}

/// The text of a signed number.
pub open spec fn decimal_text(n: i64) -> Seq<char> {
    ascii_chars(signed_decimal_bytes(n as int))
}

/// How a floating-point value that is not finite is written: `NaN`, `inf`
/// or `-inf`; `None` for a finite value.
pub open spec fn non_finite_text(bits: u64) -> Option<Seq<char>> {
    if (bits >> 52u64) & 0x7ffu64 == 0x7ffu64 {
        if bits & 0xf_ffff_ffff_ffffu64 != 0 {
            Some("NaN"@)
        } else if bits >> 63u64 == 1 {
            Some("-inf"@)
        } else {
            Some("inf"@)
        }
    } else {
        None
    }
}

/// How a raw value is written in a report (`Integer(3)`, `Boolean(true)`,
/// `Unsupported`, `Float(NaN)`); `None` for a finite floating-point value,
/// whose decimal text this library does not produce.
pub open spec fn value_text(v: PreferenceValue) -> Option<Seq<char>> {
    match v {
        PreferenceValue::Integer(n) => Some("Integer("@ + decimal_text(n) + ")"@),
        PreferenceValue::Boolean(b) => Some(
            if b {
                "Boolean(true)"@
            } else {
                "Boolean(false)"@
            },
        ),
        PreferenceValue::Unsupported => Some("Unsupported"@),
        PreferenceValue::Float(bits) => match non_finite_text(bits) {
            Some(t) => Some("Float("@ + t + ")"@),
            None => None,
        },
    }
}

impl Expected {
    pub open spec fn spec_text(self) -> Seq<char> {
        match self {
            Expected::ZeroOrOne => "0/1"@,
            Expected::ZeroOrTwo => "0/2"@,
        }
    }

    /// The accepted values, as `0/1` or `0/2`.
    pub fn text(self) -> (r: &'static str)
        ensures
            r@ == self.spec_text(),
    {
        match self {
            Expected::ZeroOrOne => "0/1",
            Expected::ZeroOrTwo => "0/2",
        }
    }
}

fn write_value(v: PreferenceValue) -> (r: Option<String>)
    ensures
        (match r {
            Some(s) => Some(s@),
            None => None,
        }) == value_text(v),
{
    match v {
        PreferenceValue::Integer(n) => {
            let d = i64_decimal(n);
            let a = concat_str("Integer(", d.as_str());
            Some(concat_str(a.as_str(), ")"))
        },
        PreferenceValue::Boolean(b) => Some(
            if b {
                String::from_str("Boolean(true)")
            } else {
                String::from_str("Boolean(false)")
            },
        ),
        PreferenceValue::Unsupported => Some(String::from_str("Unsupported")),
        PreferenceValue::Float(bits) => {
            if (bits >> 52u64) & 0x7ffu64 == 0x7ffu64 {
                let t = if bits & 0xf_ffff_ffff_ffffu64 != 0 {
                    "NaN"
                } else if bits >> 63u64 == 1 {
                    "-inf"
                } else {
                    "inf"
                };
                let a = concat_str("Float(", t);
                Some(concat_str(a.as_str(), ")"))
            } else {
                None
            }
        },
    }
}

/// `key=value` followed by `tail`.
fn key_equals(key: PrefKey, value: &str, tail: &str) -> (r: String)
    ensures
        r@ == key.key_name() + "="@ + value@ + tail@,
{
    let a = concat_str(key.name(), "=");
    let b = concat_str(a.as_str(), value);
    concat_str(b.as_str(), tail)
}

impl UnsupportedPreference {
    /// The report line for this entry; `None` where the line shows a finite
    /// floating-point value.
    pub open spec fn spec_message(self) -> Option<Seq<char>> {
        match self {
            UnsupportedPreference::NotAnInteger { key, value, expected } => match value_text(value) {
                Some(t) => Some(
                    key.key_name() + "="@ + t + (" (expected integer "@ + expected.spec_text() + ")"@),
                ),
                None => None,
            },
            UnsupportedPreference::OutOfRange { key, value, expected } => Some(
                key.key_name() + "="@ + decimal_text(value) + (" (expected "@ + expected.spec_text()
                    + ")"@),
            ),
            UnsupportedPreference::NegativeModifierMask { value } => Some(
                "HIDScrollZoomModifierMask"@ + "="@ + decimal_text(value) + " (negative)"@,
            ),
            UnsupportedPreference::UnknownModifierBits { bits } => Some(
                "HIDScrollZoomModifierMask unknown bits=0x"@ + ascii_chars(hex_bytes(bits as nat)),
            ),
            UnsupportedPreference::NoKnownModifiers { value } => Some(
                "HIDScrollZoomModifierMask"@ + "="@ + decimal_text(value)
                    + " (no known Quartz modifiers)"@,
            ),
            UnsupportedPreference::Unmapped { key, value } => match value_text(value) {
                Some(t) => Some(key.key_name() + "="@ + t),
                None => None,
            },
            UnsupportedPreference::ScalarOutOfRange { .. } => None,
            UnsupportedPreference::ScalarNotFinite { key, value } => match value_text(value) {
                Some(t) => Some(key.key_name() + "="@ + t + " (expected finite number)"@),
                None => None,
            },
        }
    }

    /// The line that reports this entry, such as
    /// `TrackpadFourFingerVertSwipeGesture=7 (expected 0/2)` or
    /// `HIDScrollZoomModifierMask unknown bits=0x1000000`. `None` for an entry
    /// whose line shows a finite floating-point value (a scaling key out of
    /// range, or such a value where an integer was expected).
    pub fn message(&self) -> (r: Option<String>)
        ensures
            (match r {
                Some(s) => Some(s@),
                None => None,
            }) == self.spec_message(),
    {
        match *self {
            UnsupportedPreference::NotAnInteger { key, value, expected } => match write_value(value) {
                Some(t) => {
                    let tail = concat_str(" (expected integer ", expected.text());
                    let tail = concat_str(tail.as_str(), ")");
                    Some(key_equals(key, t.as_str(), tail.as_str()))
                },
                None => None,
            },
            UnsupportedPreference::OutOfRange { key, value, expected } => {
                let d = i64_decimal(value);
                let tail = concat_str(" (expected ", expected.text());
                let tail = concat_str(tail.as_str(), ")");
                Some(key_equals(key, d.as_str(), tail.as_str()))
            },
            UnsupportedPreference::NegativeModifierMask { value } => {
                let d = i64_decimal(value);
                Some(key_equals(PrefKey::HIDScrollZoomModifierMask, d.as_str(), " (negative)"))
            },
            UnsupportedPreference::UnknownModifierBits { bits } => {
                let h = u64_hex(bits);
                Some(concat_str("HIDScrollZoomModifierMask unknown bits=0x", h.as_str()))
            },
            UnsupportedPreference::NoKnownModifiers { value } => {
                let d = i64_decimal(value);
                Some(
                    key_equals(
                        PrefKey::HIDScrollZoomModifierMask,
                        d.as_str(),
                        " (no known Quartz modifiers)",
                    ),
                )
            },
            UnsupportedPreference::Unmapped { key, value } => match write_value(value) {
                Some(t) => {
                    let r = key_equals(key, t.as_str(), "");
                    proof {
                        reveal_strlit("");
                        assert(r@ =~= key.key_name() + "="@ + t@);
                    }
                    Some(r)
                },
                None => None,
            },
            UnsupportedPreference::ScalarOutOfRange { .. } => None,
            UnsupportedPreference::ScalarNotFinite { key, value } => match write_value(value) {
                Some(t) => Some(key_equals(key, t.as_str(), " (expected finite number)")),
                None => None,
            },
        }
    }
}

/// What the caller derived from the two floating-point scaling keys.
pub struct ScalarPolicy {
    pub cursor_sensitivity: Option<u64>,
    pub cursor_accel_exponent: Option<u64>,
    pub scroll_sensitivity: Option<u64>,
    pub unsupported: Vec<UnsupportedPreference>,
}

/// Settings with a direct equivalent in the companion. Floating-point values
/// are `f64` bit patterns.
pub struct NormalizedTrackpadPolicy {
    pub haptic_feedback: Option<bool>,
    pub cursor_sensitivity: Option<u64>,
    pub cursor_accel_exponent: Option<u64>,
    pub scroll_sensitivity: Option<u64>,
    pub tap_to_click: Option<bool>,
    pub secondary_click: Option<bool>,
    pub scroll_enabled: Option<bool>,
    pub horizontal_scroll: Option<bool>,
    pub momentum_scroll: Option<bool>,
    pub natural_scroll: Option<bool>,
    pub pinch: Option<bool>,
    pub rotate: Option<bool>,
    pub smart_zoom: Option<bool>,
    pub dictionary_lookup: Option<bool>,
    pub three_finger_drag: Option<bool>,
    pub one_finger_tap_drag: Option<bool>,
    pub right_edge_swipe: Option<bool>,
    pub horizontal_swipe: Option<bool>,
    pub vertical_swipe: Option<bool>,
    pub modifier_zoom_mask: Option<u64>,
    pub unsupported: Vec<UnsupportedPreference>,
}

/// A two-valued key: `0` is off, the expected other value is on.
pub open spec fn flag_of(v: Option<PreferenceValue>, expected: Expected) -> Option<bool> {
    match v {
        Some(p) => match p.integer_value() {
            Some(x) => if x == 0 {
                Some(false)
            } else if x == expected.on_value() {
                Some(true)
            } else {
                None
            },
            None => None,
        },
        None => None,
    }
}

#[verifier::opaque]
pub open spec fn flag_issues(key: PrefKey, v: Option<PreferenceValue>, expected: Expected) -> Seq<
    UnsupportedPreference,
> {
    match v {
        Some(p) => match p.integer_value() {
            Some(x) => if x == 0 || x == expected.on_value() {
                Seq::empty()
            } else {
                seq![UnsupportedPreference::OutOfRange { key, value: x, expected }]
            },
            None => seq![UnsupportedPreference::NotAnInteger { key, value: p, expected }],
        },
        None => Seq::empty(),
    }
}

/// Any integer: nonzero is on.
pub open spec fn nonzero_of(v: Option<PreferenceValue>) -> Option<bool> {
    match v {
        Some(p) => match p.integer_value() {
            Some(x) => Some(x != 0),
            None => None,
        },
        None => None,
    }
}

pub open spec fn mask_of(v: Option<PreferenceValue>) -> Option<u64> {
    match int_of(v) {
        Some(x) => if x >= 0 && (x as u64) & SUPPORTED_ZOOM_MODIFIER_MASK != 0 {
            Some((x as u64) & SUPPORTED_ZOOM_MODIFIER_MASK)
        } else {
            None
        },
        None => None,
    }
}

pub open spec fn int_of(v: Option<PreferenceValue>) -> Option<i64> {
    match v {
        Some(p) => p.integer_value(),
        None => None,
    }
}

#[verifier::opaque]
pub open spec fn mask_issues(v: Option<PreferenceValue>) -> Seq<UnsupportedPreference> {
    match int_of(v) {
        Some(x) => if x < 0 {
            seq![UnsupportedPreference::NegativeModifierMask { value: x }]
        } else {
            let unknown = (x as u64) & !SUPPORTED_ZOOM_MODIFIER_MASK;
            let known = (x as u64) & SUPPORTED_ZOOM_MODIFIER_MASK;
            (if unknown != 0 {
                seq![UnsupportedPreference::UnknownModifierBits { bits: unknown }]
            } else {
                Seq::empty()
            }) + (if known == 0 {
                seq![UnsupportedPreference::NoKnownModifiers { value: x }]
            } else {
                Seq::empty()
            })
        },
        None => Seq::empty(),
    }
}

#[verifier::opaque]
pub open spec fn unmapped_issue(key: PrefKey, v: Option<PreferenceValue>) -> Seq<UnsupportedPreference> {
    match v {
        Some(p) => seq![UnsupportedPreference::Unmapped { key, value: p }],
        None => Seq::empty(),
    }
}

/// The global natural-scroll key as any integer, else `TrackpadScrollNatural` as 0/1.
pub open spec fn natural_of(raw: RawModel) -> Option<bool> {
    match nonzero_of(raw.pref(PrefKey::GlobalNaturalScroll)) {
        Some(b) => Some(b),
        None => flag_of(raw.pref(PrefKey::TrackpadScrollNatural), Expected::ZeroOrOne),
    }
}

#[verifier::opaque]
pub open spec fn natural_issues(raw: RawModel) -> Seq<UnsupportedPreference> {
    match nonzero_of(raw.pref(PrefKey::GlobalNaturalScroll)) {
        Some(_) => Seq::empty(),
        None => flag_issues(
            PrefKey::TrackpadScrollNatural,
            raw.pref(PrefKey::TrackpadScrollNatural),
            Expected::ZeroOrOne,
        ),
    }
}

pub open spec fn flag01_issues(raw: RawModel, key: PrefKey) -> Seq<UnsupportedPreference> {
    flag_issues(key, raw.pref(key), Expected::ZeroOrOne)
}

/// The keys reported as diagnostics only, in reporting order.
pub open spec fn unmapped_key_list() -> Seq<PrefKey> {
    seq![
        PrefKey::FirstClickThreshold,
        PrefKey::DragLock,
        PrefKey::ForceSuppressed,
        PrefKey::SecondClickThreshold,
        PrefKey::TrackpadCornerSecondaryClick,
        PrefKey::TrackpadFiveFingerPinchGesture,
        PrefKey::TrackpadFourFingerPinchGesture,
        PrefKey::TrackpadHandResting,
        PrefKey::TrackpadThreeFingerHorizSwipeGesture,
        PrefKey::TrackpadThreeFingerVertSwipeGesture,
        PrefKey::UsbMouseStopsTrackpad,
    ]
}

/// Diagnostics entries for the first `n` diagnostics-only keys.
pub open spec fn unmapped_issues(raw: RawModel, n: int) -> Seq<UnsupportedPreference>
    decreases n,
{
    if n <= 0 {
        Seq::empty()
    } else {
        unmapped_issues(raw, n - 1) + unmapped_issue(unmapped_key_list()[n - 1], raw.pref(unmapped_key_list()[n - 1]))
    }
}

/// The two-valued keys, in reporting order.
pub open spec fn two_valued_key_list() -> Seq<(PrefKey, Expected)> {
    seq![
        (PrefKey::ActuateDetents, Expected::ZeroOrOne),
        (PrefKey::Clicking, Expected::ZeroOrOne),
        (PrefKey::TrackpadRightClick, Expected::ZeroOrOne),
        (PrefKey::TrackpadScroll, Expected::ZeroOrOne),
        (PrefKey::TrackpadHorizScroll, Expected::ZeroOrOne),
        (PrefKey::TrackpadMomentumScroll, Expected::ZeroOrOne),
        (PrefKey::TrackpadPinch, Expected::ZeroOrOne),
        (PrefKey::TrackpadRotate, Expected::ZeroOrOne),
        (PrefKey::TrackpadTwoFingerDoubleTapGesture, Expected::ZeroOrOne),
        (PrefKey::TrackpadThreeFingerDrag, Expected::ZeroOrOne),
        (PrefKey::Dragging, Expected::ZeroOrOne),
        (PrefKey::TrackpadFourFingerHorizSwipeGesture, Expected::ZeroOrTwo),
        (PrefKey::TrackpadFourFingerVertSwipeGesture, Expected::ZeroOrTwo),
    ]
}

/// Diagnostics entries for the first `n` two-valued keys.
pub open spec fn two_valued_issues(raw: RawModel, n: int) -> Seq<UnsupportedPreference>
    decreases n,
{
    if n <= 0 {
        Seq::empty()
    } else {
        let (k, e) = two_valued_key_list()[n - 1];
        two_valued_issues(raw, n - 1) + flag_issues(k, raw.pref(k), e)
    }
}

/// Everything reported as unsupported besides the scaling keys, in order.
pub open spec fn normalize_issues(raw: RawModel) -> Seq<UnsupportedPreference> {
    two_valued_issues(raw, 13) + natural_issues(raw) + mask_issues(raw.pref(PrefKey::HIDScrollZoomModifierMask))
        + unmapped_issues(raw, 11)
}

fn pref_value(raw: &RawTrackpadPreferences, key: PrefKey) -> (r: Option<PreferenceValue>)
    ensures
        r == raw@.pref(key),
{
    raw.value(key.name())
}

fn two_valued(
    raw: &RawTrackpadPreferences,
    key: PrefKey,
    expected: Expected,
    issues: &mut Vec<UnsupportedPreference>,
) -> (r: Option<bool>)
    ensures
        r == flag_of(raw@.pref(key), expected),
        final(issues)@ == old(issues)@ + flag_issues(key, raw@.pref(key), expected),
{
    let on: i64 = match expected {
        Expected::ZeroOrOne => 1,
        Expected::ZeroOrTwo => 2,
    };
    let ghost before = issues@;
    reveal(flag_issues);
    match pref_value(raw, key) {
        None => {
            assert(issues@ =~= before + Seq::<UnsupportedPreference>::empty());
            None
        },
        Some(p) => match p.as_i64() {
            None => {
                issues.push(UnsupportedPreference::NotAnInteger { key, value: p, expected });
                assert(issues@ =~= before + flag_issues(key, raw@.pref(key), expected));
                None
            },
            Some(x) => {
                if x == 0 {
                    assert(issues@ =~= before + Seq::<UnsupportedPreference>::empty());
                    Some(false)
                } else if x == on {
                    assert(issues@ =~= before + Seq::<UnsupportedPreference>::empty());
                    Some(true)
                } else {
                    issues.push(UnsupportedPreference::OutOfRange { key, value: x, expected });
                    assert(issues@ =~= before + flag_issues(key, raw@.pref(key), expected));
                    None
                }
            },
        },
    }
}

fn nonzero(raw: &RawTrackpadPreferences, key: PrefKey) -> (r: Option<bool>)
    ensures
        r == nonzero_of(raw@.pref(key)),
{
    match pref_value(raw, key) {
        Some(p) => match p.as_i64() {
            Some(x) => Some(x != 0),
            None => None,
        },
        None => None,
    }
}

fn modifier_mask(raw: &RawTrackpadPreferences, issues: &mut Vec<UnsupportedPreference>) -> (r: Option<u64>)
    ensures
        r == mask_of(raw@.pref(PrefKey::HIDScrollZoomModifierMask)),
        final(issues)@ == old(issues)@ + mask_issues(raw@.pref(PrefKey::HIDScrollZoomModifierMask)),
{
    let ghost before = issues@;
    reveal(mask_issues);
    let value = match pref_value(raw, PrefKey::HIDScrollZoomModifierMask) {
        Some(p) => p.as_i64(),
        None => None,
    };
    match value {
        None => {
            assert(issues@ =~= before + Seq::<UnsupportedPreference>::empty());
            None
        },
        Some(x) => {
            if x < 0 {
                issues.push(UnsupportedPreference::NegativeModifierMask { value: x });
                assert(issues@ =~= before + mask_issues(raw@.pref(PrefKey::HIDScrollZoomModifierMask)));
                None
            } else {
                let raw_mask = x as u64;
                let unknown = raw_mask & !SUPPORTED_ZOOM_MODIFIER_MASK;
                let ghost mid = issues@;
                if unknown != 0 {
                    issues.push(UnsupportedPreference::UnknownModifierBits { bits: unknown });
                }
                let known = raw_mask & SUPPORTED_ZOOM_MODIFIER_MASK;
                let r = if known != 0 {
                    Some(known)
                } else {
                    issues.push(UnsupportedPreference::NoKnownModifiers { value: x });
                    None
                };
                assert(issues@ =~= before + mask_issues(raw@.pref(PrefKey::HIDScrollZoomModifierMask)));
                r
            }
        },
    }
}

fn unmapped(raw: &RawTrackpadPreferences, key: PrefKey, issues: &mut Vec<UnsupportedPreference>)
    ensures
        final(issues)@ == old(issues)@ + unmapped_issue(key, raw@.pref(key)),
{
    let ghost before = issues@;
    reveal(unmapped_issue);
    match pref_value(raw, key) {
        Some(p) => {
            issues.push(UnsupportedPreference::Unmapped { key, value: p });
            assert(issues@ =~= before + unmapped_issue(key, raw@.pref(key)));
        },
        None => {
            assert(issues@ =~= before + Seq::<UnsupportedPreference>::empty());
        },
    }
}

/// What `normalize` gives: each field of the policy in terms of the raw values.
pub open spec fn normalized_fields(raw: RawModel, scalars: &ScalarPolicy, p: &NormalizedTrackpadPolicy) -> bool {
    &&& p.haptic_feedback == flag_of(raw.pref(PrefKey::ActuateDetents), Expected::ZeroOrOne)
    &&& p.tap_to_click == flag_of(raw.pref(PrefKey::Clicking), Expected::ZeroOrOne)
    &&& p.secondary_click == flag_of(raw.pref(PrefKey::TrackpadRightClick), Expected::ZeroOrOne)
    &&& p.scroll_enabled == flag_of(raw.pref(PrefKey::TrackpadScroll), Expected::ZeroOrOne)
    &&& p.horizontal_scroll == flag_of(raw.pref(PrefKey::TrackpadHorizScroll), Expected::ZeroOrOne)
    &&& p.momentum_scroll == flag_of(raw.pref(PrefKey::TrackpadMomentumScroll), Expected::ZeroOrOne)
    &&& p.pinch == flag_of(raw.pref(PrefKey::TrackpadPinch), Expected::ZeroOrOne)
    &&& p.rotate == flag_of(raw.pref(PrefKey::TrackpadRotate), Expected::ZeroOrOne)
    &&& p.smart_zoom == flag_of(raw.pref(PrefKey::TrackpadTwoFingerDoubleTapGesture), Expected::ZeroOrOne)
    &&& p.dictionary_lookup == nonzero_of(raw.pref(PrefKey::TrackpadThreeFingerTapGesture))
    &&& p.three_finger_drag == flag_of(raw.pref(PrefKey::TrackpadThreeFingerDrag), Expected::ZeroOrOne)
    &&& p.one_finger_tap_drag == flag_of(raw.pref(PrefKey::Dragging), Expected::ZeroOrOne)
    &&& p.right_edge_swipe == nonzero_of(raw.pref(PrefKey::TrackpadTwoFingerFromRightEdgeSwipeGesture))
    &&& p.horizontal_swipe == flag_of(raw.pref(PrefKey::TrackpadFourFingerHorizSwipeGesture), Expected::ZeroOrTwo)
    &&& p.vertical_swipe == flag_of(raw.pref(PrefKey::TrackpadFourFingerVertSwipeGesture), Expected::ZeroOrTwo)
    &&& p.natural_scroll == natural_of(raw)
    &&& p.modifier_zoom_mask == mask_of(raw.pref(PrefKey::HIDScrollZoomModifierMask))
    &&& p.cursor_sensitivity == scalars.cursor_sensitivity
    &&& p.cursor_accel_exponent == scalars.cursor_accel_exponent
    &&& p.scroll_sensitivity == scalars.scroll_sensitivity
    &&& p.unsupported@ == scalars.unsupported@ + normalize_issues(raw)
}

/// Maps the raw preferences to the companion's settings. The scaling keys,
/// which need floating point, arrive already mapped in `scalars`; their
/// diagnostics come first.
pub fn normalize(raw: &RawTrackpadPreferences, scalars: ScalarPolicy) -> (p: NormalizedTrackpadPolicy)
    ensures
        normalized_fields(raw@, &scalars, &p),
{
    let ghost sc = scalars.unsupported@;
    let ghost r = raw@;
    let mut issues = scalars.unsupported;
    let keys: Vec<(PrefKey, Expected)> = vec![
        (PrefKey::ActuateDetents, Expected::ZeroOrOne),
        (PrefKey::Clicking, Expected::ZeroOrOne),
        (PrefKey::TrackpadRightClick, Expected::ZeroOrOne),
        (PrefKey::TrackpadScroll, Expected::ZeroOrOne),
        (PrefKey::TrackpadHorizScroll, Expected::ZeroOrOne),
        (PrefKey::TrackpadMomentumScroll, Expected::ZeroOrOne),
        (PrefKey::TrackpadPinch, Expected::ZeroOrOne),
        (PrefKey::TrackpadRotate, Expected::ZeroOrOne),
        (PrefKey::TrackpadTwoFingerDoubleTapGesture, Expected::ZeroOrOne),
        (PrefKey::TrackpadThreeFingerDrag, Expected::ZeroOrOne),
        (PrefKey::Dragging, Expected::ZeroOrOne),
        (PrefKey::TrackpadFourFingerHorizSwipeGesture, Expected::ZeroOrTwo),
        (PrefKey::TrackpadFourFingerVertSwipeGesture, Expected::ZeroOrTwo),
    ];
    assert(keys@ =~= two_valued_key_list());
    let mut flags: Vec<Option<bool>> = Vec::new();
    let mut i: usize = 0;
    while i < keys.len()
        invariant
            i <= keys@.len(),
            keys@ == two_valued_key_list(),
            r == raw@,
            flags@.len() == i,
            forall|j: int| 0 <= j < i ==> #[trigger] flags@[j] == flag_of(r.pref(keys@[j].0), keys@[j].1),
            issues@ == sc + two_valued_issues(r, i as int),
        decreases keys@.len() - i,
    {
        let (k, e) = keys[i];
        let f = two_valued(raw, k, e, &mut issues);
        flags.push(f);
        assert(issues@ =~= sc + two_valued_issues(r, i + 1));
        i = i + 1;
    }
    let dictionary_lookup = nonzero(raw, PrefKey::TrackpadThreeFingerTapGesture);
    let right_edge_swipe = nonzero(raw, PrefKey::TrackpadTwoFingerFromRightEdgeSwipeGesture);
    let ghost before_natural = issues@;
    reveal(natural_issues);
    let natural_scroll = match nonzero(raw, PrefKey::GlobalNaturalScroll) {
        Some(b) => {
            assert(issues@ =~= before_natural + natural_issues(r));
            Some(b)
        },
        None => two_valued(raw, PrefKey::TrackpadScrollNatural, Expected::ZeroOrOne, &mut issues),
    };
    let modifier_zoom_mask = modifier_mask(raw, &mut issues);
    let ghost before_unmapped = issues@;
    let unmapped_keys: Vec<PrefKey> = vec![
        PrefKey::FirstClickThreshold,
        PrefKey::DragLock,
        PrefKey::ForceSuppressed,
        PrefKey::SecondClickThreshold,
        PrefKey::TrackpadCornerSecondaryClick,
        PrefKey::TrackpadFiveFingerPinchGesture,
        PrefKey::TrackpadFourFingerPinchGesture,
        PrefKey::TrackpadHandResting,
        PrefKey::TrackpadThreeFingerHorizSwipeGesture,
        PrefKey::TrackpadThreeFingerVertSwipeGesture,
        PrefKey::UsbMouseStopsTrackpad,
    ];
    assert(unmapped_keys@ =~= unmapped_key_list());
    let mut u: usize = 0;
    while u < unmapped_keys.len()
        invariant
            u <= unmapped_keys@.len(),
            unmapped_keys@ == unmapped_key_list(),
            r == raw@,
            issues@ == before_unmapped + unmapped_issues(r, u as int),
        decreases unmapped_keys@.len() - u,
    {
        unmapped(raw, unmapped_keys[u], &mut issues);
        assert(issues@ =~= before_unmapped + unmapped_issues(r, u + 1));
        u = u + 1;
    }
    assert(issues@ =~= sc + normalize_issues(r));
    let haptic_feedback = flags[0];
    let tap_to_click = flags[1];
    let secondary_click = flags[2];
    let scroll_enabled = flags[3];
    let horizontal_scroll = flags[4];
    let momentum_scroll = flags[5];
    let pinch = flags[6];
    let rotate = flags[7];
    let smart_zoom = flags[8];
    let three_finger_drag = flags[9];
    let one_finger_tap_drag = flags[10];
    let horizontal_swipe = flags[11];
    let vertical_swipe = flags[12];
    NormalizedTrackpadPolicy {
        haptic_feedback,
        cursor_sensitivity: scalars.cursor_sensitivity,
        cursor_accel_exponent: scalars.cursor_accel_exponent,
        scroll_sensitivity: scalars.scroll_sensitivity,
        tap_to_click,
        secondary_click,
        scroll_enabled,
        horizontal_scroll,
        momentum_scroll,
        natural_scroll,
        pinch,
        rotate,
        smart_zoom,
        dictionary_lookup,
        three_finger_drag,
        one_finger_tap_drag,
        right_edge_swipe,
        horizontal_swipe,
        vertical_swipe,
        modifier_zoom_mask,
        unsupported: issues,
    }
}

/// The policy for an input surface. For a virtual (network) surface the
/// physical driver's `Clicking` preference is not applied.
pub fn policy_for_mode(raw: &RawTrackpadPreferences, scalars: ScalarPolicy, virtual_input: bool) -> (p:
    NormalizedTrackpadPolicy)
    ensures
        virtual_input ==> p.tap_to_click is None,
        !virtual_input ==> p.tap_to_click == flag_of(raw@.pref(PrefKey::Clicking), Expected::ZeroOrOne),
        ({
            let q = NormalizedTrackpadPolicy { tap_to_click: flag_of(raw@.pref(PrefKey::Clicking), Expected::ZeroOrOne), ..p };
            normalized_fields(raw@, &scalars, &q)
        }),
{
    let ghost sc = scalars;
    let mut policy = normalize(raw, scalars);
    if virtual_input {
        policy.tap_to_click = None;
    }
    policy
}


/// The value of one mergeable setting.
pub enum SettingValue {
    Haptic(HapticSetting),
    Bits(u64),
    Enable(GestureEnable),
    Flag(bool),
    Mask(Option<u64>),
}

/// The number of settings the merge can write.
pub const MERGE_SLOTS: usize = 20;

/// The dotted path of mergeable setting `i`.
pub open spec fn merge_path(i: int) -> Seq<char> {
    if i == 0 {
        "macos.haptic_feedback"@
    } else if i == 1 {
        "cursor.sensitivity"@
    } else if i == 2 {
        "cursor.accel_exponent"@
    } else if i == 3 {
        "scroll.sensitivity"@
    } else if i == 4 {
        "gestures.tap_to_click"@
    } else if i == 5 {
        "gestures.secondary_click"@
    } else if i == 6 {
        "gestures.smart_zoom"@
    } else if i == 7 {
        "gestures.dictionary_lookup"@
    } else if i == 8 {
        "gestures.three_finger_drag.enable"@
    } else if i == 9 {
        "gestures.one_finger_tap_drag.enable"@
    } else if i == 10 {
        "gestures.right_edge_swipe"@
    } else if i == 11 {
        "gestures.pinch.enable"@
    } else if i == 12 {
        "gestures.rotate.enable"@
    } else if i == 13 {
        "gestures.swipe.horizontal.enable"@
    } else if i == 14 {
        "gestures.swipe.vertical.enable"@
    } else if i == 15 {
        "scroll.enable"@
    } else if i == 16 {
        "scroll.horizontal"@
    } else if i == 17 {
        "scroll.momentum"@
    } else if i == 18 {
        "scroll.natural"@
    } else if i == 19 {
        "scroll.modifier_zoom_mask"@
    } else {
        Seq::empty()
    }
}

/// Whether the policy has a value for mergeable setting `i`.
pub open spec fn slot_present(p: NormalizedTrackpadPolicy, i: int) -> bool {
    if i == 0 {
        p.haptic_feedback is Some
    } else if i == 1 {
        p.cursor_sensitivity is Some
    } else if i == 2 {
        p.cursor_accel_exponent is Some
    } else if i == 3 {
        p.scroll_sensitivity is Some
    } else if i == 4 {
        p.tap_to_click is Some
    } else if i == 5 {
        p.secondary_click is Some
    } else if i == 6 {
        p.smart_zoom is Some
    } else if i == 7 {
        p.dictionary_lookup is Some
    } else if i == 8 {
        p.three_finger_drag is Some
    } else if i == 9 {
        p.one_finger_tap_drag is Some
    } else if i == 10 {
        p.right_edge_swipe is Some
    } else if i == 11 {
        p.pinch is Some
    } else if i == 12 {
        p.rotate is Some
    } else if i == 13 {
        p.horizontal_swipe is Some
    } else if i == 14 {
        p.vertical_swipe is Some
    } else if i == 15 {
        p.scroll_enabled is Some
    } else if i == 16 {
        p.horizontal_scroll is Some
    } else if i == 17 {
        p.momentum_scroll is Some
    } else if i == 18 {
        p.natural_scroll is Some
    } else if i == 19 {
        p.modifier_zoom_mask is Some
    } else {
        false
    }
}

/// The value the policy offers for setting `i`.
pub open spec fn policy_value(p: NormalizedTrackpadPolicy, i: int) -> Option<SettingValue> {
    if i == 0 {
        match p.haptic_feedback { Some(b) => Some(SettingValue::Haptic(if b { HapticSetting::On } else { HapticSetting::Off })), None => None }
    } else if i == 1 {
        match p.cursor_sensitivity { Some(b) => Some(SettingValue::Bits(b)), None => None }
    } else if i == 2 {
        match p.cursor_accel_exponent { Some(b) => Some(SettingValue::Bits(b)), None => None }
    } else if i == 3 {
        match p.scroll_sensitivity { Some(b) => Some(SettingValue::Bits(b)), None => None }
    } else if i == 4 {
        match p.tap_to_click { Some(b) => Some(SettingValue::Enable(if b { GestureEnable::On } else { GestureEnable::Off })), None => None }
    } else if i == 5 {
        match p.secondary_click { Some(b) => Some(SettingValue::Enable(if b { GestureEnable::On } else { GestureEnable::Off })), None => None }
    } else if i == 6 {
        match p.smart_zoom { Some(b) => Some(SettingValue::Enable(if b { GestureEnable::On } else { GestureEnable::Off })), None => None }
    } else if i == 7 {
        match p.dictionary_lookup { Some(b) => Some(SettingValue::Enable(if b { GestureEnable::On } else { GestureEnable::Off })), None => None }
    } else if i == 8 {
        match p.three_finger_drag { Some(b) => Some(SettingValue::Enable(if b { GestureEnable::On } else { GestureEnable::Off })), None => None }
    } else if i == 9 {
        match p.one_finger_tap_drag { Some(b) => Some(SettingValue::Enable(if b { GestureEnable::On } else { GestureEnable::Off })), None => None }
    } else if i == 10 {
        match p.right_edge_swipe { Some(b) => Some(SettingValue::Enable(if b { GestureEnable::On } else { GestureEnable::Off })), None => None }
    } else if i == 11 {
        match p.pinch { Some(b) => Some(SettingValue::Enable(if b { GestureEnable::On } else { GestureEnable::Off })), None => None }
    } else if i == 12 {
        match p.rotate { Some(b) => Some(SettingValue::Enable(if b { GestureEnable::On } else { GestureEnable::Off })), None => None }
    } else if i == 13 {
        match p.horizontal_swipe { Some(b) => Some(SettingValue::Enable(if b { GestureEnable::On } else { GestureEnable::Off })), None => None }
    } else if i == 14 {
        match p.vertical_swipe { Some(b) => Some(SettingValue::Enable(if b { GestureEnable::On } else { GestureEnable::Off })), None => None }
    } else if i == 15 {
        match p.scroll_enabled { Some(b) => Some(SettingValue::Flag(b)), None => None }
    } else if i == 16 {
        match p.horizontal_scroll { Some(b) => Some(SettingValue::Flag(b)), None => None }
    } else if i == 17 {
        match p.momentum_scroll { Some(b) => Some(SettingValue::Flag(b)), None => None }
    } else if i == 18 {
        match p.natural_scroll { Some(b) => Some(SettingValue::Flag(b)), None => None }
    } else if i == 19 {
        match p.modifier_zoom_mask { Some(m) => Some(SettingValue::Mask(Some(m))), None => None }
    } else {
        None
    }
}

/// The current value of setting `i`.
pub open spec fn setting_at(cfg: Config, i: int) -> SettingValue {
    if i == 0 {
        SettingValue::Haptic(cfg.macos.haptic_feedback)
    } else if i == 1 {
        SettingValue::Bits(cfg.cursor.sensitivity_bits)
    } else if i == 2 {
        SettingValue::Bits(cfg.cursor.accel_exponent_bits)
    } else if i == 3 {
        SettingValue::Bits(cfg.scroll.sensitivity_bits)
    } else if i == 4 {
        SettingValue::Enable(cfg.gestures.tap_to_click)
    } else if i == 5 {
        SettingValue::Enable(cfg.gestures.secondary_click)
    } else if i == 6 {
        SettingValue::Enable(cfg.gestures.smart_zoom)
    } else if i == 7 {
        SettingValue::Enable(cfg.gestures.dictionary_lookup)
    } else if i == 8 {
        SettingValue::Enable(cfg.gestures.three_finger_drag.enable)
    } else if i == 9 {
        SettingValue::Enable(cfg.gestures.one_finger_tap_drag.enable)
    } else if i == 10 {
        SettingValue::Enable(cfg.gestures.right_edge_swipe)
    } else if i == 11 {
        SettingValue::Enable(cfg.gestures.pinch.enable)
    } else if i == 12 {
        SettingValue::Enable(cfg.gestures.rotate.enable)
    } else if i == 13 {
        SettingValue::Enable(cfg.gestures.swipe.horizontal.enable)
    } else if i == 14 {
        SettingValue::Enable(cfg.gestures.swipe.vertical.enable)
    } else if i == 15 {
        SettingValue::Flag(cfg.scroll.enable)
    } else if i == 16 {
        SettingValue::Flag(cfg.scroll.horizontal)
    } else if i == 17 {
        SettingValue::Flag(cfg.scroll.momentum)
    } else if i == 18 {
        SettingValue::Flag(cfg.scroll.natural)
    } else if i == 19 {
        SettingValue::Mask(cfg.scroll.modifier_zoom_mask)
    } else {
        SettingValue::Flag(false)
    }
}

/// `v` unless the path was written explicitly or there is no value.
pub open spec fn pick<T>(explicit: Set<Seq<char>>, path: Seq<char>, v: Option<T>, current: T) -> T {
    match v {
        Some(x) => if explicit.contains(path) { current } else { x },
        None => current,
    }
}

pub open spec fn enable_value(v: Option<bool>) -> Option<GestureEnable> {
    match v {
        Some(b) => Some(if b { GestureEnable::On } else { GestureEnable::Off }),
        None => None,
    }
}

pub open spec fn haptic_value(v: Option<bool>) -> Option<HapticSetting> {
    match v {
        Some(b) => Some(if b { HapticSetting::On } else { HapticSetting::Off }),
        None => None,
    }
}

pub open spec fn mask_value(v: Option<u64>) -> Option<Option<u64>> {
    match v {
        Some(m) => Some(Some(m)),
        None => None,
    }
}

/// The configuration after merging setting `i` of the policy.
#[verifier::opaque]
pub open spec fn apply_slot(cfg: Config, p: NormalizedTrackpadPolicy, i: int) -> Config {
    if i == 0 {
        Config { macos: Macos { haptic_feedback: pick(cfg.explicit@, "macos.haptic_feedback"@, haptic_value(p.haptic_feedback), cfg.macos.haptic_feedback), ..cfg.macos }, ..cfg }
    } else if i == 1 {
        Config { cursor: Cursor { sensitivity_bits: pick(cfg.explicit@, "cursor.sensitivity"@, p.cursor_sensitivity, cfg.cursor.sensitivity_bits), ..cfg.cursor }, ..cfg }
    } else if i == 2 {
        Config { cursor: Cursor { accel_exponent_bits: pick(cfg.explicit@, "cursor.accel_exponent"@, p.cursor_accel_exponent, cfg.cursor.accel_exponent_bits), ..cfg.cursor }, ..cfg }
    } else if i == 3 {
        Config { scroll: Scroll { sensitivity_bits: pick(cfg.explicit@, "scroll.sensitivity"@, p.scroll_sensitivity, cfg.scroll.sensitivity_bits), ..cfg.scroll }, ..cfg }
    } else if i == 4 {
        Config { gestures: Gestures { tap_to_click: pick(cfg.explicit@, "gestures.tap_to_click"@, enable_value(p.tap_to_click), cfg.gestures.tap_to_click), ..cfg.gestures }, ..cfg }
    } else if i == 5 {
        Config { gestures: Gestures { secondary_click: pick(cfg.explicit@, "gestures.secondary_click"@, enable_value(p.secondary_click), cfg.gestures.secondary_click), ..cfg.gestures }, ..cfg }
    } else if i == 6 {
        Config { gestures: Gestures { smart_zoom: pick(cfg.explicit@, "gestures.smart_zoom"@, enable_value(p.smart_zoom), cfg.gestures.smart_zoom), ..cfg.gestures }, ..cfg }
    } else if i == 7 {
        Config { gestures: Gestures { dictionary_lookup: pick(cfg.explicit@, "gestures.dictionary_lookup"@, enable_value(p.dictionary_lookup), cfg.gestures.dictionary_lookup), ..cfg.gestures }, ..cfg }
    } else if i == 8 {
        Config { gestures: Gestures { three_finger_drag: ThreeFingerDrag { enable: pick(cfg.explicit@, "gestures.three_finger_drag.enable"@, enable_value(p.three_finger_drag), cfg.gestures.three_finger_drag.enable), ..cfg.gestures.three_finger_drag }, ..cfg.gestures }, ..cfg }
    } else if i == 9 {
        Config { gestures: Gestures { one_finger_tap_drag: OneFingerTapDrag { enable: pick(cfg.explicit@, "gestures.one_finger_tap_drag.enable"@, enable_value(p.one_finger_tap_drag), cfg.gestures.one_finger_tap_drag.enable) }, ..cfg.gestures }, ..cfg }
    } else if i == 10 {
        Config { gestures: Gestures { right_edge_swipe: pick(cfg.explicit@, "gestures.right_edge_swipe"@, enable_value(p.right_edge_swipe), cfg.gestures.right_edge_swipe), ..cfg.gestures }, ..cfg }
    } else if i == 11 {
        Config { gestures: Gestures { pinch: Pinch { enable: pick(cfg.explicit@, "gestures.pinch.enable"@, enable_value(p.pinch), cfg.gestures.pinch.enable), ..cfg.gestures.pinch }, ..cfg.gestures }, ..cfg }
    } else if i == 12 {
        Config { gestures: Gestures { rotate: Rotate { enable: pick(cfg.explicit@, "gestures.rotate.enable"@, enable_value(p.rotate), cfg.gestures.rotate.enable), ..cfg.gestures.rotate }, ..cfg.gestures }, ..cfg }
    } else if i == 13 {
        Config { gestures: Gestures { swipe: Swipe { horizontal: SwipeAxisCfg { enable: pick(cfg.explicit@, "gestures.swipe.horizontal.enable"@, enable_value(p.horizontal_swipe), cfg.gestures.swipe.horizontal.enable), ..cfg.gestures.swipe.horizontal }, ..cfg.gestures.swipe }, ..cfg.gestures }, ..cfg }
    } else if i == 14 {
        Config { gestures: Gestures { swipe: Swipe { vertical: SwipeAxisCfg { enable: pick(cfg.explicit@, "gestures.swipe.vertical.enable"@, enable_value(p.vertical_swipe), cfg.gestures.swipe.vertical.enable), ..cfg.gestures.swipe.vertical }, ..cfg.gestures.swipe }, ..cfg.gestures }, ..cfg }
    } else if i == 15 {
        Config { scroll: Scroll { enable: pick(cfg.explicit@, "scroll.enable"@, p.scroll_enabled, cfg.scroll.enable), ..cfg.scroll }, ..cfg }
    } else if i == 16 {
        Config { scroll: Scroll { horizontal: pick(cfg.explicit@, "scroll.horizontal"@, p.horizontal_scroll, cfg.scroll.horizontal), ..cfg.scroll }, ..cfg }
    } else if i == 17 {
        Config { scroll: Scroll { momentum: pick(cfg.explicit@, "scroll.momentum"@, p.momentum_scroll, cfg.scroll.momentum), ..cfg.scroll }, ..cfg }
    } else if i == 18 {
        Config { scroll: Scroll { natural: pick(cfg.explicit@, "scroll.natural"@, p.natural_scroll, cfg.scroll.natural), ..cfg.scroll }, ..cfg }
    } else if i == 19 {
        Config { scroll: Scroll { modifier_zoom_mask: pick(cfg.explicit@, "scroll.modifier_zoom_mask"@, mask_value(p.modifier_zoom_mask), cfg.scroll.modifier_zoom_mask), ..cfg.scroll }, ..cfg }
    } else {
        cfg
    }
}

/// The configuration after merging the first `n` settings.
pub open spec fn merged_upto(cfg: Config, p: NormalizedTrackpadPolicy, n: int) -> Config
    decreases n,
{
    if n <= 0 {
        cfg
    } else {
        apply_slot(merged_upto(cfg, p, n - 1), p, n - 1)
    }
}

pub open spec fn merged(cfg: Config, p: NormalizedTrackpadPolicy) -> Config {
    merged_upto(cfg, p, MERGE_SLOTS as int)
}

/// Paths applied among the first `n` settings.
pub open spec fn applied_upto(explicit: Set<Seq<char>>, p: NormalizedTrackpadPolicy, n: int) -> Seq<Seq<char>>
    decreases n,
{
    if n <= 0 {
        Seq::empty()
    } else {
        applied_upto(explicit, p, n - 1) + (if slot_present(p, n - 1) && !explicit.contains(merge_path(n - 1)) {
            seq![merge_path(n - 1)]
        } else {
            Seq::empty()
        })
    }
}

/// Paths kept because the source wrote them, among the first `n` settings.
pub open spec fn overridden_upto(explicit: Set<Seq<char>>, p: NormalizedTrackpadPolicy, n: int) -> Seq<Seq<char>>
    decreases n,
{
    if n <= 0 {
        Seq::empty()
    } else {
        overridden_upto(explicit, p, n - 1) + (if slot_present(p, n - 1) && explicit.contains(merge_path(n - 1)) {
            seq![merge_path(n - 1)]
        } else {
            Seq::empty()
        })
    }
}

pub open spec fn strings(v: Seq<String>) -> Seq<Seq<char>> {
    v.map_values(|s: String| s@)
}

/// The outcome of one settings sync.
pub struct SyncReport {
    pub enabled: bool,
    pub raw_values: usize,
    pub trackpad_domain_available: bool,
    pub global_domain_available: bool,
    pub applied: Vec<String>,
    pub explicit_overrides: Vec<String>,
    pub unsupported: Vec<UnsupportedPreference>,
    pub conflicts: Vec<PreferenceConflict>,
}

impl SyncReport {
    /// An empty report.
    pub fn new(enabled: bool) -> (r: Self)
        ensures
            r.enabled == enabled,
            r.raw_values == 0,
            !r.trackpad_domain_available,
            !r.global_domain_available,
            r.applied@ == Seq::<String>::empty(),
            r.explicit_overrides@ == Seq::<String>::empty(),
            r.unsupported@ == Seq::<UnsupportedPreference>::empty(),
            r.conflicts@ == Seq::<PreferenceConflict>::empty(),
    {
        SyncReport {
            enabled,
            raw_values: 0,
            trackpad_domain_available: false,
            global_domain_available: false,
            applied: Vec::new(),
            explicit_overrides: Vec::new(),
            unsupported: Vec::new(),
            conflicts: Vec::new(),
        }
    }
}

/// Whether a present value may be written: only where the source did not
/// write the path. Records the path as applied or as an explicit override.
fn decide(cfg: &Config, path: &str, present: bool, report: &mut SyncReport) -> (apply: bool)
    ensures
        apply == (present && !cfg.explicit@.contains(path@)),
        strings(final(report).applied@) == strings(old(report).applied@) + (if apply {
            seq![path@]
        } else {
            Seq::empty()
        }),
        strings(final(report).explicit_overrides@) == strings(old(report).explicit_overrides@) + (if present
            && cfg.explicit@.contains(path@) {
            seq![path@]
        } else {
            Seq::empty()
        }),
        final(report).enabled == old(report).enabled,
        final(report).raw_values == old(report).raw_values,
        final(report).trackpad_domain_available == old(report).trackpad_domain_available,
        final(report).global_domain_available == old(report).global_domain_available,
        final(report).unsupported@ == old(report).unsupported@,
        final(report).conflicts@ == old(report).conflicts@,
{
    if !present {
        assert(strings(report.applied@) =~= strings(old(report).applied@) + Seq::<Seq<char>>::empty());
        assert(strings(report.explicit_overrides@) =~= strings(old(report).explicit_overrides@) + Seq::<Seq<char>>::empty());
        return false;
    }
    if cfg.has_explicit(path) {
        report.explicit_overrides.push(path.to_owned());
        assert(strings(report.applied@) =~= strings(old(report).applied@) + Seq::<Seq<char>>::empty());
        assert(strings(report.explicit_overrides@) =~= strings(old(report).explicit_overrides@) + seq![path@]);
        false
    } else {
        report.applied.push(path.to_owned());
        assert(strings(report.applied@) =~= strings(old(report).applied@) + seq![path@]);
        assert(strings(report.explicit_overrides@) =~= strings(old(report).explicit_overrides@) + Seq::<Seq<char>>::empty());
        true
    }
}

fn merge_slot_0(cfg: &mut Config, policy: &NormalizedTrackpadPolicy, report: &mut SyncReport)
    ensures
        *final(cfg) == apply_slot(*old(cfg), *policy, 0),
        final(cfg).explicit@ == old(cfg).explicit@,
        strings(final(report).applied@) == strings(old(report).applied@) + (if slot_present(*policy, 0)
            && !old(cfg).explicit@.contains(merge_path(0)) {
            seq![merge_path(0)]
        } else {
            Seq::empty()
        }),
        strings(final(report).explicit_overrides@) == strings(old(report).explicit_overrides@) + (if slot_present(*policy, 0) && old(cfg).explicit@.contains(merge_path(0)) {
            seq![merge_path(0)]
        } else {
            Seq::empty()
        }),
        final(report).enabled == old(report).enabled,
        final(report).raw_values == old(report).raw_values,
        final(report).trackpad_domain_available == old(report).trackpad_domain_available,
        final(report).global_domain_available == old(report).global_domain_available,
        final(report).unsupported@ == old(report).unsupported@,
        final(report).conflicts@ == old(report).conflicts@,
{
    reveal(apply_slot);
    let apply = decide(cfg, "macos.haptic_feedback", policy.haptic_feedback.is_some(), report);
    if apply {
        cfg.macos.haptic_feedback = match policy.haptic_feedback {
            Some(true) => HapticSetting::On,
            _ => HapticSetting::Off,
        };
    }
}

fn merge_slot_1(cfg: &mut Config, policy: &NormalizedTrackpadPolicy, report: &mut SyncReport)
    ensures
        *final(cfg) == apply_slot(*old(cfg), *policy, 1),
        final(cfg).explicit@ == old(cfg).explicit@,
        strings(final(report).applied@) == strings(old(report).applied@) + (if slot_present(*policy, 1)
            && !old(cfg).explicit@.contains(merge_path(1)) {
            seq![merge_path(1)]
        } else {
            Seq::empty()
        }),
        strings(final(report).explicit_overrides@) == strings(old(report).explicit_overrides@) + (if slot_present(*policy, 1) && old(cfg).explicit@.contains(merge_path(1)) {
            seq![merge_path(1)]
        } else {
            Seq::empty()
        }),
        final(report).enabled == old(report).enabled,
        final(report).raw_values == old(report).raw_values,
        final(report).trackpad_domain_available == old(report).trackpad_domain_available,
        final(report).global_domain_available == old(report).global_domain_available,
        final(report).unsupported@ == old(report).unsupported@,
        final(report).conflicts@ == old(report).conflicts@,
{
    reveal(apply_slot);
    let apply = decide(cfg, "cursor.sensitivity", policy.cursor_sensitivity.is_some(), report);
    if apply {
        cfg.cursor.sensitivity_bits = match policy.cursor_sensitivity {
            Some(b) => b,
            None => cfg.cursor.sensitivity_bits,
        };
    }
}

fn merge_slot_2(cfg: &mut Config, policy: &NormalizedTrackpadPolicy, report: &mut SyncReport)
    ensures
        *final(cfg) == apply_slot(*old(cfg), *policy, 2),
        final(cfg).explicit@ == old(cfg).explicit@,
        strings(final(report).applied@) == strings(old(report).applied@) + (if slot_present(*policy, 2)
            && !old(cfg).explicit@.contains(merge_path(2)) {
            seq![merge_path(2)]
        } else {
            Seq::empty()
        }),
        strings(final(report).explicit_overrides@) == strings(old(report).explicit_overrides@) + (if slot_present(*policy, 2) && old(cfg).explicit@.contains(merge_path(2)) {
            seq![merge_path(2)]
        } else {
            Seq::empty()
        }),
        final(report).enabled == old(report).enabled,
        final(report).raw_values == old(report).raw_values,
        final(report).trackpad_domain_available == old(report).trackpad_domain_available,
        final(report).global_domain_available == old(report).global_domain_available,
        final(report).unsupported@ == old(report).unsupported@,
        final(report).conflicts@ == old(report).conflicts@,
{
    reveal(apply_slot);
    let apply = decide(cfg, "cursor.accel_exponent", policy.cursor_accel_exponent.is_some(), report);
    if apply {
        cfg.cursor.accel_exponent_bits = match policy.cursor_accel_exponent {
            Some(b) => b,
            None => cfg.cursor.accel_exponent_bits,
        };
    }
}

fn merge_slot_3(cfg: &mut Config, policy: &NormalizedTrackpadPolicy, report: &mut SyncReport)
    ensures
        *final(cfg) == apply_slot(*old(cfg), *policy, 3),
        final(cfg).explicit@ == old(cfg).explicit@,
        strings(final(report).applied@) == strings(old(report).applied@) + (if slot_present(*policy, 3)
            && !old(cfg).explicit@.contains(merge_path(3)) {
            seq![merge_path(3)]
        } else {
            Seq::empty()
        }),
        strings(final(report).explicit_overrides@) == strings(old(report).explicit_overrides@) + (if slot_present(*policy, 3) && old(cfg).explicit@.contains(merge_path(3)) {
            seq![merge_path(3)]
        } else {
            Seq::empty()
        }),
        final(report).enabled == old(report).enabled,
        final(report).raw_values == old(report).raw_values,
        final(report).trackpad_domain_available == old(report).trackpad_domain_available,
        final(report).global_domain_available == old(report).global_domain_available,
        final(report).unsupported@ == old(report).unsupported@,
        final(report).conflicts@ == old(report).conflicts@,
{
    reveal(apply_slot);
    let apply = decide(cfg, "scroll.sensitivity", policy.scroll_sensitivity.is_some(), report);
    if apply {
        cfg.scroll.sensitivity_bits = match policy.scroll_sensitivity {
            Some(b) => b,
            None => cfg.scroll.sensitivity_bits,
        };
    }
}

fn merge_slot_4(cfg: &mut Config, policy: &NormalizedTrackpadPolicy, report: &mut SyncReport)
    ensures
        *final(cfg) == apply_slot(*old(cfg), *policy, 4),
        final(cfg).explicit@ == old(cfg).explicit@,
        strings(final(report).applied@) == strings(old(report).applied@) + (if slot_present(*policy, 4)
            && !old(cfg).explicit@.contains(merge_path(4)) {
            seq![merge_path(4)]
        } else {
            Seq::empty()
        }),
        strings(final(report).explicit_overrides@) == strings(old(report).explicit_overrides@) + (if slot_present(*policy, 4) && old(cfg).explicit@.contains(merge_path(4)) {
            seq![merge_path(4)]
        } else {
            Seq::empty()
        }),
        final(report).enabled == old(report).enabled,
        final(report).raw_values == old(report).raw_values,
        final(report).trackpad_domain_available == old(report).trackpad_domain_available,
        final(report).global_domain_available == old(report).global_domain_available,
        final(report).unsupported@ == old(report).unsupported@,
        final(report).conflicts@ == old(report).conflicts@,
{
    reveal(apply_slot);
    let apply = decide(cfg, "gestures.tap_to_click", policy.tap_to_click.is_some(), report);
    if apply {
        cfg.gestures.tap_to_click = match policy.tap_to_click {
            Some(true) => GestureEnable::On,
            _ => GestureEnable::Off,
        };
    }
}

fn merge_slot_5(cfg: &mut Config, policy: &NormalizedTrackpadPolicy, report: &mut SyncReport)
    ensures
        *final(cfg) == apply_slot(*old(cfg), *policy, 5),
        final(cfg).explicit@ == old(cfg).explicit@,
        strings(final(report).applied@) == strings(old(report).applied@) + (if slot_present(*policy, 5)
            && !old(cfg).explicit@.contains(merge_path(5)) {
            seq![merge_path(5)]
        } else {
            Seq::empty()
        }),
        strings(final(report).explicit_overrides@) == strings(old(report).explicit_overrides@) + (if slot_present(*policy, 5) && old(cfg).explicit@.contains(merge_path(5)) {
            seq![merge_path(5)]
        } else {
            Seq::empty()
        }),
        final(report).enabled == old(report).enabled,
        final(report).raw_values == old(report).raw_values,
        final(report).trackpad_domain_available == old(report).trackpad_domain_available,
        final(report).global_domain_available == old(report).global_domain_available,
        final(report).unsupported@ == old(report).unsupported@,
        final(report).conflicts@ == old(report).conflicts@,
{
    reveal(apply_slot);
    let apply = decide(cfg, "gestures.secondary_click", policy.secondary_click.is_some(), report);
    if apply {
        cfg.gestures.secondary_click = match policy.secondary_click {
            Some(true) => GestureEnable::On,
            _ => GestureEnable::Off,
        };
    }
}

fn merge_slot_6(cfg: &mut Config, policy: &NormalizedTrackpadPolicy, report: &mut SyncReport)
    ensures
        *final(cfg) == apply_slot(*old(cfg), *policy, 6),
        final(cfg).explicit@ == old(cfg).explicit@,
        strings(final(report).applied@) == strings(old(report).applied@) + (if slot_present(*policy, 6)
            && !old(cfg).explicit@.contains(merge_path(6)) {
            seq![merge_path(6)]
        } else {
            Seq::empty()
        }),
        strings(final(report).explicit_overrides@) == strings(old(report).explicit_overrides@) + (if slot_present(*policy, 6) && old(cfg).explicit@.contains(merge_path(6)) {
            seq![merge_path(6)]
        } else {
            Seq::empty()
        }),
        final(report).enabled == old(report).enabled,
        final(report).raw_values == old(report).raw_values,
        final(report).trackpad_domain_available == old(report).trackpad_domain_available,
        final(report).global_domain_available == old(report).global_domain_available,
        final(report).unsupported@ == old(report).unsupported@,
        final(report).conflicts@ == old(report).conflicts@,
{
    reveal(apply_slot);
    let apply = decide(cfg, "gestures.smart_zoom", policy.smart_zoom.is_some(), report);
    if apply {
        cfg.gestures.smart_zoom = match policy.smart_zoom {
            Some(true) => GestureEnable::On,
            _ => GestureEnable::Off,
        };
    }
}

fn merge_slot_7(cfg: &mut Config, policy: &NormalizedTrackpadPolicy, report: &mut SyncReport)
    ensures
        *final(cfg) == apply_slot(*old(cfg), *policy, 7),
        final(cfg).explicit@ == old(cfg).explicit@,
        strings(final(report).applied@) == strings(old(report).applied@) + (if slot_present(*policy, 7)
            && !old(cfg).explicit@.contains(merge_path(7)) {
            seq![merge_path(7)]
        } else {
            Seq::empty()
        }),
        strings(final(report).explicit_overrides@) == strings(old(report).explicit_overrides@) + (if slot_present(*policy, 7) && old(cfg).explicit@.contains(merge_path(7)) {
            seq![merge_path(7)]
        } else {
            Seq::empty()
        }),
        final(report).enabled == old(report).enabled,
        final(report).raw_values == old(report).raw_values,
        final(report).trackpad_domain_available == old(report).trackpad_domain_available,
        final(report).global_domain_available == old(report).global_domain_available,
        final(report).unsupported@ == old(report).unsupported@,
        final(report).conflicts@ == old(report).conflicts@,
{
    reveal(apply_slot);
    let apply = decide(cfg, "gestures.dictionary_lookup", policy.dictionary_lookup.is_some(), report);
    if apply {
        cfg.gestures.dictionary_lookup = match policy.dictionary_lookup {
            Some(true) => GestureEnable::On,
            _ => GestureEnable::Off,
        };
    }
}

fn merge_slot_8(cfg: &mut Config, policy: &NormalizedTrackpadPolicy, report: &mut SyncReport)
    ensures
        *final(cfg) == apply_slot(*old(cfg), *policy, 8),
        final(cfg).explicit@ == old(cfg).explicit@,
        strings(final(report).applied@) == strings(old(report).applied@) + (if slot_present(*policy, 8)
            && !old(cfg).explicit@.contains(merge_path(8)) {
            seq![merge_path(8)]
        } else {
            Seq::empty()
        }),
        strings(final(report).explicit_overrides@) == strings(old(report).explicit_overrides@) + (if slot_present(*policy, 8) && old(cfg).explicit@.contains(merge_path(8)) {
            seq![merge_path(8)]
        } else {
            Seq::empty()
        }),
        final(report).enabled == old(report).enabled,
        final(report).raw_values == old(report).raw_values,
        final(report).trackpad_domain_available == old(report).trackpad_domain_available,
        final(report).global_domain_available == old(report).global_domain_available,
        final(report).unsupported@ == old(report).unsupported@,
        final(report).conflicts@ == old(report).conflicts@,
{
    reveal(apply_slot);
    let apply = decide(cfg, "gestures.three_finger_drag.enable", policy.three_finger_drag.is_some(), report);
    if apply {
        cfg.gestures.three_finger_drag.enable = match policy.three_finger_drag {
            Some(true) => GestureEnable::On,
            _ => GestureEnable::Off,
        };
    }
}

fn merge_slot_9(cfg: &mut Config, policy: &NormalizedTrackpadPolicy, report: &mut SyncReport)
    ensures
        *final(cfg) == apply_slot(*old(cfg), *policy, 9),
        final(cfg).explicit@ == old(cfg).explicit@,
        strings(final(report).applied@) == strings(old(report).applied@) + (if slot_present(*policy, 9)
            && !old(cfg).explicit@.contains(merge_path(9)) {
            seq![merge_path(9)]
        } else {
            Seq::empty()
        }),
        strings(final(report).explicit_overrides@) == strings(old(report).explicit_overrides@) + (if slot_present(*policy, 9) && old(cfg).explicit@.contains(merge_path(9)) {
            seq![merge_path(9)]
        } else {
            Seq::empty()
        }),
        final(report).enabled == old(report).enabled,
        final(report).raw_values == old(report).raw_values,
        final(report).trackpad_domain_available == old(report).trackpad_domain_available,
        final(report).global_domain_available == old(report).global_domain_available,
        final(report).unsupported@ == old(report).unsupported@,
        final(report).conflicts@ == old(report).conflicts@,
{
    reveal(apply_slot);
    let apply = decide(cfg, "gestures.one_finger_tap_drag.enable", policy.one_finger_tap_drag.is_some(), report);
    if apply {
        cfg.gestures.one_finger_tap_drag.enable = match policy.one_finger_tap_drag {
            Some(true) => GestureEnable::On,
            _ => GestureEnable::Off,
        };
    }
}

fn merge_slot_10(cfg: &mut Config, policy: &NormalizedTrackpadPolicy, report: &mut SyncReport)
    ensures
        *final(cfg) == apply_slot(*old(cfg), *policy, 10),
        final(cfg).explicit@ == old(cfg).explicit@,
        strings(final(report).applied@) == strings(old(report).applied@) + (if slot_present(*policy, 10)
            && !old(cfg).explicit@.contains(merge_path(10)) {
            seq![merge_path(10)]
        } else {
            Seq::empty()
        }),
        strings(final(report).explicit_overrides@) == strings(old(report).explicit_overrides@) + (if slot_present(*policy, 10) && old(cfg).explicit@.contains(merge_path(10)) {
            seq![merge_path(10)]
        } else {
            Seq::empty()
        }),
        final(report).enabled == old(report).enabled,
        final(report).raw_values == old(report).raw_values,
        final(report).trackpad_domain_available == old(report).trackpad_domain_available,
        final(report).global_domain_available == old(report).global_domain_available,
        final(report).unsupported@ == old(report).unsupported@,
        final(report).conflicts@ == old(report).conflicts@,
{
    reveal(apply_slot);
    let apply = decide(cfg, "gestures.right_edge_swipe", policy.right_edge_swipe.is_some(), report);
    if apply {
        cfg.gestures.right_edge_swipe = match policy.right_edge_swipe {
            Some(true) => GestureEnable::On,
            _ => GestureEnable::Off,
        };
    }
}

fn merge_slot_11(cfg: &mut Config, policy: &NormalizedTrackpadPolicy, report: &mut SyncReport)
    ensures
        *final(cfg) == apply_slot(*old(cfg), *policy, 11),
        final(cfg).explicit@ == old(cfg).explicit@,
        strings(final(report).applied@) == strings(old(report).applied@) + (if slot_present(*policy, 11)
            && !old(cfg).explicit@.contains(merge_path(11)) {
            seq![merge_path(11)]
        } else {
            Seq::empty()
        }),
        strings(final(report).explicit_overrides@) == strings(old(report).explicit_overrides@) + (if slot_present(*policy, 11) && old(cfg).explicit@.contains(merge_path(11)) {
            seq![merge_path(11)]
        } else {
            Seq::empty()
        }),
        final(report).enabled == old(report).enabled,
        final(report).raw_values == old(report).raw_values,
        final(report).trackpad_domain_available == old(report).trackpad_domain_available,
        final(report).global_domain_available == old(report).global_domain_available,
        final(report).unsupported@ == old(report).unsupported@,
        final(report).conflicts@ == old(report).conflicts@,
{
    reveal(apply_slot);
    let apply = decide(cfg, "gestures.pinch.enable", policy.pinch.is_some(), report);
    if apply {
        cfg.gestures.pinch.enable = match policy.pinch {
            Some(true) => GestureEnable::On,
            _ => GestureEnable::Off,
        };
    }
}

fn merge_slot_12(cfg: &mut Config, policy: &NormalizedTrackpadPolicy, report: &mut SyncReport)
    ensures
        *final(cfg) == apply_slot(*old(cfg), *policy, 12),
        final(cfg).explicit@ == old(cfg).explicit@,
        strings(final(report).applied@) == strings(old(report).applied@) + (if slot_present(*policy, 12)
            && !old(cfg).explicit@.contains(merge_path(12)) {
            seq![merge_path(12)]
        } else {
            Seq::empty()
        }),
        strings(final(report).explicit_overrides@) == strings(old(report).explicit_overrides@) + (if slot_present(*policy, 12) && old(cfg).explicit@.contains(merge_path(12)) {
            seq![merge_path(12)]
        } else {
            Seq::empty()
        }),
        final(report).enabled == old(report).enabled,
        final(report).raw_values == old(report).raw_values,
        final(report).trackpad_domain_available == old(report).trackpad_domain_available,
        final(report).global_domain_available == old(report).global_domain_available,
        final(report).unsupported@ == old(report).unsupported@,
        final(report).conflicts@ == old(report).conflicts@,
{
    reveal(apply_slot);
    let apply = decide(cfg, "gestures.rotate.enable", policy.rotate.is_some(), report);
    if apply {
        cfg.gestures.rotate.enable = match policy.rotate {
            Some(true) => GestureEnable::On,
            _ => GestureEnable::Off,
        };
    }
}

fn merge_slot_13(cfg: &mut Config, policy: &NormalizedTrackpadPolicy, report: &mut SyncReport)
    ensures
        *final(cfg) == apply_slot(*old(cfg), *policy, 13),
        final(cfg).explicit@ == old(cfg).explicit@,
        strings(final(report).applied@) == strings(old(report).applied@) + (if slot_present(*policy, 13)
            && !old(cfg).explicit@.contains(merge_path(13)) {
            seq![merge_path(13)]
        } else {
            Seq::empty()
        }),
        strings(final(report).explicit_overrides@) == strings(old(report).explicit_overrides@) + (if slot_present(*policy, 13) && old(cfg).explicit@.contains(merge_path(13)) {
            seq![merge_path(13)]
        } else {
            Seq::empty()
        }),
        final(report).enabled == old(report).enabled,
        final(report).raw_values == old(report).raw_values,
        final(report).trackpad_domain_available == old(report).trackpad_domain_available,
        final(report).global_domain_available == old(report).global_domain_available,
        final(report).unsupported@ == old(report).unsupported@,
        final(report).conflicts@ == old(report).conflicts@,
{
    reveal(apply_slot);
    let apply = decide(cfg, "gestures.swipe.horizontal.enable", policy.horizontal_swipe.is_some(), report);
    if apply {
        cfg.gestures.swipe.horizontal.enable = match policy.horizontal_swipe {
            Some(true) => GestureEnable::On,
            _ => GestureEnable::Off,
        };
    }
}

fn merge_slot_14(cfg: &mut Config, policy: &NormalizedTrackpadPolicy, report: &mut SyncReport)
    ensures
        *final(cfg) == apply_slot(*old(cfg), *policy, 14),
        final(cfg).explicit@ == old(cfg).explicit@,
        strings(final(report).applied@) == strings(old(report).applied@) + (if slot_present(*policy, 14)
            && !old(cfg).explicit@.contains(merge_path(14)) {
            seq![merge_path(14)]
        } else {
            Seq::empty()
        }),
        strings(final(report).explicit_overrides@) == strings(old(report).explicit_overrides@) + (if slot_present(*policy, 14) && old(cfg).explicit@.contains(merge_path(14)) {
            seq![merge_path(14)]
        } else {
            Seq::empty()
        }),
        final(report).enabled == old(report).enabled,
        final(report).raw_values == old(report).raw_values,
        final(report).trackpad_domain_available == old(report).trackpad_domain_available,
        final(report).global_domain_available == old(report).global_domain_available,
        final(report).unsupported@ == old(report).unsupported@,
        final(report).conflicts@ == old(report).conflicts@,
{
    reveal(apply_slot);
    let apply = decide(cfg, "gestures.swipe.vertical.enable", policy.vertical_swipe.is_some(), report);
    if apply {
        cfg.gestures.swipe.vertical.enable = match policy.vertical_swipe {
            Some(true) => GestureEnable::On,
            _ => GestureEnable::Off,
        };
    }
}

fn merge_slot_15(cfg: &mut Config, policy: &NormalizedTrackpadPolicy, report: &mut SyncReport)
    ensures
        *final(cfg) == apply_slot(*old(cfg), *policy, 15),
        final(cfg).explicit@ == old(cfg).explicit@,
        strings(final(report).applied@) == strings(old(report).applied@) + (if slot_present(*policy, 15)
            && !old(cfg).explicit@.contains(merge_path(15)) {
            seq![merge_path(15)]
        } else {
            Seq::empty()
        }),
        strings(final(report).explicit_overrides@) == strings(old(report).explicit_overrides@) + (if slot_present(*policy, 15) && old(cfg).explicit@.contains(merge_path(15)) {
            seq![merge_path(15)]
        } else {
            Seq::empty()
        }),
        final(report).enabled == old(report).enabled,
        final(report).raw_values == old(report).raw_values,
        final(report).trackpad_domain_available == old(report).trackpad_domain_available,
        final(report).global_domain_available == old(report).global_domain_available,
        final(report).unsupported@ == old(report).unsupported@,
        final(report).conflicts@ == old(report).conflicts@,
{
    reveal(apply_slot);
    let apply = decide(cfg, "scroll.enable", policy.scroll_enabled.is_some(), report);
    if apply {
        cfg.scroll.enable = match policy.scroll_enabled {
            Some(b) => b,
            None => cfg.scroll.enable,
        };
    }
}

fn merge_slot_16(cfg: &mut Config, policy: &NormalizedTrackpadPolicy, report: &mut SyncReport)
    ensures
        *final(cfg) == apply_slot(*old(cfg), *policy, 16),
        final(cfg).explicit@ == old(cfg).explicit@,
        strings(final(report).applied@) == strings(old(report).applied@) + (if slot_present(*policy, 16)
            && !old(cfg).explicit@.contains(merge_path(16)) {
            seq![merge_path(16)]
        } else {
            Seq::empty()
        }),
        strings(final(report).explicit_overrides@) == strings(old(report).explicit_overrides@) + (if slot_present(*policy, 16) && old(cfg).explicit@.contains(merge_path(16)) {
            seq![merge_path(16)]
        } else {
            Seq::empty()
        }),
        final(report).enabled == old(report).enabled,
        final(report).raw_values == old(report).raw_values,
        final(report).trackpad_domain_available == old(report).trackpad_domain_available,
        final(report).global_domain_available == old(report).global_domain_available,
        final(report).unsupported@ == old(report).unsupported@,
        final(report).conflicts@ == old(report).conflicts@,
{
    reveal(apply_slot);
    let apply = decide(cfg, "scroll.horizontal", policy.horizontal_scroll.is_some(), report);
    if apply {
        cfg.scroll.horizontal = match policy.horizontal_scroll {
            Some(b) => b,
            None => cfg.scroll.horizontal,
        };
    }
}

fn merge_slot_17(cfg: &mut Config, policy: &NormalizedTrackpadPolicy, report: &mut SyncReport)
    ensures
        *final(cfg) == apply_slot(*old(cfg), *policy, 17),
        final(cfg).explicit@ == old(cfg).explicit@,
        strings(final(report).applied@) == strings(old(report).applied@) + (if slot_present(*policy, 17)
            && !old(cfg).explicit@.contains(merge_path(17)) {
            seq![merge_path(17)]
        } else {
            Seq::empty()
        }),
        strings(final(report).explicit_overrides@) == strings(old(report).explicit_overrides@) + (if slot_present(*policy, 17) && old(cfg).explicit@.contains(merge_path(17)) {
            seq![merge_path(17)]
        } else {
            Seq::empty()
        }),
        final(report).enabled == old(report).enabled,
        final(report).raw_values == old(report).raw_values,
        final(report).trackpad_domain_available == old(report).trackpad_domain_available,
        final(report).global_domain_available == old(report).global_domain_available,
        final(report).unsupported@ == old(report).unsupported@,
        final(report).conflicts@ == old(report).conflicts@,
{
    reveal(apply_slot);
    let apply = decide(cfg, "scroll.momentum", policy.momentum_scroll.is_some(), report);
    if apply {
        cfg.scroll.momentum = match policy.momentum_scroll {
            Some(b) => b,
            None => cfg.scroll.momentum,
        };
    }
}

fn merge_slot_18(cfg: &mut Config, policy: &NormalizedTrackpadPolicy, report: &mut SyncReport)
    ensures
        *final(cfg) == apply_slot(*old(cfg), *policy, 18),
        final(cfg).explicit@ == old(cfg).explicit@,
        strings(final(report).applied@) == strings(old(report).applied@) + (if slot_present(*policy, 18)
            && !old(cfg).explicit@.contains(merge_path(18)) {
            seq![merge_path(18)]
        } else {
            Seq::empty()
        }),
        strings(final(report).explicit_overrides@) == strings(old(report).explicit_overrides@) + (if slot_present(*policy, 18) && old(cfg).explicit@.contains(merge_path(18)) {
            seq![merge_path(18)]
        } else {
            Seq::empty()
        }),
        final(report).enabled == old(report).enabled,
        final(report).raw_values == old(report).raw_values,
        final(report).trackpad_domain_available == old(report).trackpad_domain_available,
        final(report).global_domain_available == old(report).global_domain_available,
        final(report).unsupported@ == old(report).unsupported@,
        final(report).conflicts@ == old(report).conflicts@,
{
    reveal(apply_slot);
    let apply = decide(cfg, "scroll.natural", policy.natural_scroll.is_some(), report);
    if apply {
        cfg.scroll.natural = match policy.natural_scroll {
            Some(b) => b,
            None => cfg.scroll.natural,
        };
    }
}

fn merge_slot_19(cfg: &mut Config, policy: &NormalizedTrackpadPolicy, report: &mut SyncReport)
    ensures
        *final(cfg) == apply_slot(*old(cfg), *policy, 19),
        final(cfg).explicit@ == old(cfg).explicit@,
        strings(final(report).applied@) == strings(old(report).applied@) + (if slot_present(*policy, 19)
            && !old(cfg).explicit@.contains(merge_path(19)) {
            seq![merge_path(19)]
        } else {
            Seq::empty()
        }),
        strings(final(report).explicit_overrides@) == strings(old(report).explicit_overrides@) + (if slot_present(*policy, 19) && old(cfg).explicit@.contains(merge_path(19)) {
            seq![merge_path(19)]
        } else {
            Seq::empty()
        }),
        final(report).enabled == old(report).enabled,
        final(report).raw_values == old(report).raw_values,
        final(report).trackpad_domain_available == old(report).trackpad_domain_available,
        final(report).global_domain_available == old(report).global_domain_available,
        final(report).unsupported@ == old(report).unsupported@,
        final(report).conflicts@ == old(report).conflicts@,
{
    reveal(apply_slot);
    let apply = decide(cfg, "scroll.modifier_zoom_mask", policy.modifier_zoom_mask.is_some(), report);
    if apply {
        cfg.scroll.modifier_zoom_mask = policy.modifier_zoom_mask;
    }
}

/// Merges setting `i` of the policy.
fn merge_slot(cfg: &mut Config, policy: &NormalizedTrackpadPolicy, report: &mut SyncReport, i: usize)
    requires
        i < MERGE_SLOTS,
    ensures
        *final(cfg) == apply_slot(*old(cfg), *policy, i as int),
        final(cfg).explicit@ == old(cfg).explicit@,
        strings(final(report).applied@) == strings(old(report).applied@) + (if slot_present(*policy, i as int)
            && !old(cfg).explicit@.contains(merge_path(i as int)) {
            seq![merge_path(i as int)]
        } else {
            Seq::empty()
        }),
        strings(final(report).explicit_overrides@) == strings(old(report).explicit_overrides@) + (if slot_present(*policy, i as int) && old(cfg).explicit@.contains(merge_path(i as int)) {
            seq![merge_path(i as int)]
        } else {
            Seq::empty()
        }),
        final(report).enabled == old(report).enabled,
        final(report).raw_values == old(report).raw_values,
        final(report).trackpad_domain_available == old(report).trackpad_domain_available,
        final(report).global_domain_available == old(report).global_domain_available,
        final(report).unsupported@ == old(report).unsupported@,
        final(report).conflicts@ == old(report).conflicts@,
{
    match i {
        0 => merge_slot_0(cfg, policy, report),
        1 => merge_slot_1(cfg, policy, report),
        2 => merge_slot_2(cfg, policy, report),
        3 => merge_slot_3(cfg, policy, report),
        4 => merge_slot_4(cfg, policy, report),
        5 => merge_slot_5(cfg, policy, report),
        6 => merge_slot_6(cfg, policy, report),
        7 => merge_slot_7(cfg, policy, report),
        8 => merge_slot_8(cfg, policy, report),
        9 => merge_slot_9(cfg, policy, report),
        10 => merge_slot_10(cfg, policy, report),
        11 => merge_slot_11(cfg, policy, report),
        12 => merge_slot_12(cfg, policy, report),
        13 => merge_slot_13(cfg, policy, report),
        14 => merge_slot_14(cfg, policy, report),
        15 => merge_slot_15(cfg, policy, report),
        16 => merge_slot_16(cfg, policy, report),
        17 => merge_slot_17(cfg, policy, report),
        18 => merge_slot_18(cfg, policy, report),
        _ => merge_slot_19(cfg, policy, report),
    }
}


/// Writes the policy into the configuration, setting by setting, except
/// where the source wrote the path explicitly; the report lists which paths
/// were applied and which were kept.
pub fn merge_policy(cfg: &mut Config, policy: &NormalizedTrackpadPolicy, report: &mut SyncReport)
    ensures
        *final(cfg) == merged(*old(cfg), *policy),
        strings(final(report).applied@) == strings(old(report).applied@) + applied_upto(
            old(cfg).explicit@,
            *policy,
            MERGE_SLOTS as int,
        ),
        strings(final(report).explicit_overrides@) == strings(old(report).explicit_overrides@)
            + overridden_upto(old(cfg).explicit@, *policy, MERGE_SLOTS as int),
        final(report).enabled == old(report).enabled,
        final(report).raw_values == old(report).raw_values,
        final(report).trackpad_domain_available == old(report).trackpad_domain_available,
        final(report).global_domain_available == old(report).global_domain_available,
        final(report).unsupported@ == old(report).unsupported@,
        final(report).conflicts@ == old(report).conflicts@,
{
    let ghost c0 = *cfg;
    let ghost r0 = *report;
    let mut i: usize = 0;
    while i < MERGE_SLOTS
        invariant
            i <= MERGE_SLOTS,
            *cfg == merged_upto(c0, *policy, i as int),
            cfg.explicit@ == c0.explicit@,
            strings(report.applied@) == strings(r0.applied@) + applied_upto(c0.explicit@, *policy, i as int),
            strings(report.explicit_overrides@) == strings(r0.explicit_overrides@) + overridden_upto(
                c0.explicit@,
                *policy,
                i as int,
            ),
            report.enabled == r0.enabled,
            report.raw_values == r0.raw_values,
            report.trackpad_domain_available == r0.trackpad_domain_available,
            report.global_domain_available == r0.global_domain_available,
            report.unsupported@ == r0.unsupported@,
            report.conflicts@ == r0.conflicts@,
        decreases MERGE_SLOTS - i,
    {
        let ghost ra = strings(report.applied@);
        let ghost ro = strings(report.explicit_overrides@);
        merge_slot(cfg, policy, report, i);
        proof {
            assert(strings(report.applied@) =~= strings(r0.applied@) + applied_upto(c0.explicit@, *policy, i + 1));
            assert(strings(report.explicit_overrides@) =~= strings(r0.explicit_overrides@) + overridden_upto(
                c0.explicit@,
                *policy,
                i + 1,
            ));
        }
        i = i + 1;
    }
}

/// The value setting `i` takes when merged alone into `cfg`.
pub open spec fn offered_setting(cfg: Config, p: NormalizedTrackpadPolicy, i: int) -> SettingValue {
    match policy_value(p, i) {
        Some(v) => if cfg.explicit@.contains(merge_path(i)) { setting_at(cfg, i) } else { v },
        None => setting_at(cfg, i),
    }
}

/// Merging setting `j` changes setting `j` alone, and never the explicit paths.
proof fn lemma_slot_frame(cfg: Config, p: NormalizedTrackpadPolicy, j: int, i: int)
    requires
        0 <= j < MERGE_SLOTS,
        0 <= i < MERGE_SLOTS,
    ensures
        setting_at(apply_slot(cfg, p, j), i) == (if i == j {
            offered_setting(cfg, p, i)
        } else {
            setting_at(cfg, i)
        }),
        apply_slot(cfg, p, j).explicit == cfg.explicit,
{
    reveal(apply_slot);
    if j == 0 {
        assert(setting_at(apply_slot(cfg, p, 0), i) == (if i == 0 { offered_setting(cfg, p, i) } else { setting_at(cfg, i) }));
    } else if j == 1 {
        assert(setting_at(apply_slot(cfg, p, 1), i) == (if i == 1 { offered_setting(cfg, p, i) } else { setting_at(cfg, i) }));
    } else if j == 2 {
        assert(setting_at(apply_slot(cfg, p, 2), i) == (if i == 2 { offered_setting(cfg, p, i) } else { setting_at(cfg, i) }));
    } else if j == 3 {
        assert(setting_at(apply_slot(cfg, p, 3), i) == (if i == 3 { offered_setting(cfg, p, i) } else { setting_at(cfg, i) }));
    } else if j == 4 {
        assert(setting_at(apply_slot(cfg, p, 4), i) == (if i == 4 { offered_setting(cfg, p, i) } else { setting_at(cfg, i) }));
    } else if j == 5 {
        assert(setting_at(apply_slot(cfg, p, 5), i) == (if i == 5 { offered_setting(cfg, p, i) } else { setting_at(cfg, i) }));
    } else if j == 6 {
        assert(setting_at(apply_slot(cfg, p, 6), i) == (if i == 6 { offered_setting(cfg, p, i) } else { setting_at(cfg, i) }));
    } else if j == 7 {
        assert(setting_at(apply_slot(cfg, p, 7), i) == (if i == 7 { offered_setting(cfg, p, i) } else { setting_at(cfg, i) }));
    } else if j == 8 {
        assert(setting_at(apply_slot(cfg, p, 8), i) == (if i == 8 { offered_setting(cfg, p, i) } else { setting_at(cfg, i) }));
    } else if j == 9 {
        assert(setting_at(apply_slot(cfg, p, 9), i) == (if i == 9 { offered_setting(cfg, p, i) } else { setting_at(cfg, i) }));
    } else if j == 10 {
        assert(setting_at(apply_slot(cfg, p, 10), i) == (if i == 10 { offered_setting(cfg, p, i) } else { setting_at(cfg, i) }));
    } else if j == 11 {
        assert(setting_at(apply_slot(cfg, p, 11), i) == (if i == 11 { offered_setting(cfg, p, i) } else { setting_at(cfg, i) }));
    } else if j == 12 {
        assert(setting_at(apply_slot(cfg, p, 12), i) == (if i == 12 { offered_setting(cfg, p, i) } else { setting_at(cfg, i) }));
    } else if j == 13 {
        assert(setting_at(apply_slot(cfg, p, 13), i) == (if i == 13 { offered_setting(cfg, p, i) } else { setting_at(cfg, i) }));
    } else if j == 14 {
        assert(setting_at(apply_slot(cfg, p, 14), i) == (if i == 14 { offered_setting(cfg, p, i) } else { setting_at(cfg, i) }));
    } else if j == 15 {
        assert(setting_at(apply_slot(cfg, p, 15), i) == (if i == 15 { offered_setting(cfg, p, i) } else { setting_at(cfg, i) }));
    } else if j == 16 {
        assert(setting_at(apply_slot(cfg, p, 16), i) == (if i == 16 { offered_setting(cfg, p, i) } else { setting_at(cfg, i) }));
    } else if j == 17 {
        assert(setting_at(apply_slot(cfg, p, 17), i) == (if i == 17 { offered_setting(cfg, p, i) } else { setting_at(cfg, i) }));
    } else if j == 18 {
        assert(setting_at(apply_slot(cfg, p, 18), i) == (if i == 18 { offered_setting(cfg, p, i) } else { setting_at(cfg, i) }));
    } else if j == 19 {
        assert(setting_at(apply_slot(cfg, p, 19), i) == (if i == 19 { offered_setting(cfg, p, i) } else { setting_at(cfg, i) }));
    }
}

/// The settings after merging the first `n`: those merged took their offered value.
proof fn lemma_merged_upto(cfg: Config, p: NormalizedTrackpadPolicy, n: int, i: int)
    requires
        0 <= n <= MERGE_SLOTS,
        0 <= i < MERGE_SLOTS,
    ensures
        setting_at(merged_upto(cfg, p, n), i) == (if i < n {
            offered_setting(cfg, p, i)
        } else {
            setting_at(cfg, i)
        }),
        merged_upto(cfg, p, n).explicit == cfg.explicit,
    decreases n,
{
    if n > 0 {
        lemma_merged_upto(cfg, p, n - 1, i);
        lemma_merged_upto(cfg, p, n - 1, n - 1);
        let c = merged_upto(cfg, p, n - 1);
        lemma_slot_frame(c, p, n - 1, i);
    }
}

/// Law: a setting whose path the source wrote explicitly keeps its value,
/// whatever the system preferences say.
pub proof fn lemma_explicit_setting_kept(cfg: Config, p: NormalizedTrackpadPolicy, i: int)
    requires
        0 <= i < MERGE_SLOTS,
        cfg.explicit@.contains(merge_path(i)),
    ensures
        setting_at(merged(cfg, p), i) == setting_at(cfg, i),
{
    lemma_merged_upto(cfg, p, MERGE_SLOTS as int, i);
}

/// Law: a setting the source left implicit takes the value the system
/// preferences offer, and keeps its value where they offer none.
pub proof fn lemma_system_setting_applied(cfg: Config, p: NormalizedTrackpadPolicy, i: int)
    requires
        0 <= i < MERGE_SLOTS,
        !cfg.explicit@.contains(merge_path(i)),
    ensures
        setting_at(merged(cfg, p), i) == (match policy_value(p, i) {
            Some(v) => v,
            None => setting_at(cfg, i),
        }),
{
    lemma_merged_upto(cfg, p, MERGE_SLOTS as int, i);
}

/// Merging a setting the policy has no value for changes nothing.
proof fn lemma_absent_slot_noop(cfg: Config, p: NormalizedTrackpadPolicy, j: int)
    requires
        0 <= j < MERGE_SLOTS,
        !slot_present(p, j),
    ensures
        apply_slot(cfg, p, j) == cfg,
{
    reveal(apply_slot);
    if j == 0 {
        assert(apply_slot(cfg, p, 0) == cfg);
    } else if j == 1 {
        assert(apply_slot(cfg, p, 1) == cfg);
    } else if j == 2 {
        assert(apply_slot(cfg, p, 2) == cfg);
    } else if j == 3 {
        assert(apply_slot(cfg, p, 3) == cfg);
    } else if j == 4 {
        assert(apply_slot(cfg, p, 4) == cfg);
    } else if j == 5 {
        assert(apply_slot(cfg, p, 5) == cfg);
    } else if j == 6 {
        assert(apply_slot(cfg, p, 6) == cfg);
    } else if j == 7 {
        assert(apply_slot(cfg, p, 7) == cfg);
    } else if j == 8 {
        assert(apply_slot(cfg, p, 8) == cfg);
    } else if j == 9 {
        assert(apply_slot(cfg, p, 9) == cfg);
    } else if j == 10 {
        assert(apply_slot(cfg, p, 10) == cfg);
    } else if j == 11 {
        assert(apply_slot(cfg, p, 11) == cfg);
    } else if j == 12 {
        assert(apply_slot(cfg, p, 12) == cfg);
    } else if j == 13 {
        assert(apply_slot(cfg, p, 13) == cfg);
    } else if j == 14 {
        assert(apply_slot(cfg, p, 14) == cfg);
    } else if j == 15 {
        assert(apply_slot(cfg, p, 15) == cfg);
    } else if j == 16 {
        assert(apply_slot(cfg, p, 16) == cfg);
    } else if j == 17 {
        assert(apply_slot(cfg, p, 17) == cfg);
    } else if j == 18 {
        assert(apply_slot(cfg, p, 18) == cfg);
    } else if j == 19 {
        assert(apply_slot(cfg, p, 19) == cfg);
    }
}

/// The configuration with every mergeable setting blanked: what the merge
/// never touches.
pub open spec fn without_settings(cfg: Config) -> Config {
    let off = GestureEnable::Off;
    let g = cfg.gestures;
    Config {
        macos: Macos { haptic_feedback: HapticSetting::Auto, ..cfg.macos },
        cursor: Cursor { sensitivity_bits: 0, accel_exponent_bits: 0, ..cfg.cursor },
        scroll: Scroll {
            sensitivity_bits: 0,
            enable: false,
            horizontal: false,
            momentum: false,
            natural: false,
            modifier_zoom_mask: None,
            ..cfg.scroll
        },
        gestures: Gestures {
            tap_to_click: off,
            secondary_click: off,
            smart_zoom: off,
            dictionary_lookup: off,
            right_edge_swipe: off,
            three_finger_drag: ThreeFingerDrag { enable: off, ..g.three_finger_drag },
            one_finger_tap_drag: OneFingerTapDrag { enable: off },
            pinch: Pinch { enable: off, ..g.pinch },
            rotate: Rotate { enable: off, ..g.rotate },
            swipe: Swipe {
                horizontal: SwipeAxisCfg { enable: off, ..g.swipe.horizontal },
                vertical: SwipeAxisCfg { enable: off, ..g.swipe.vertical },
                ..g.swipe
            },
            ..g
        },
        ..cfg
    }
}

/// A number that tells the merge paths apart: length, first and tenth
/// character.
spec fn path_key(i: int) -> int {
    if i == 0 {
        1404276
    } else if i == 1 {
        1205102
    } else if i == 2 {
        1401699
    } else if i == 3 {
        1209198
    } else if i == 4 {
        1402740
    } else if i == 5 {
        1599347
    } else if i == 6 {
        1271667
    } else if i == 7 {
        1730404
    } else if i == 8 {
        2189172
    } else if i == 9 {
        2320239
    } else if i == 10 {
        1664882
    } else if i == 11 {
        1402736
    } else if i == 12 {
        1468274
    } else if i == 13 {
        2123635
    } else if i == 14 {
        1992563
    } else if i == 15 {
        881505
    } else if i == 16 {
        1143666
    } else if i == 17 {
        1012589
    } else if i == 18 {
        947060
    } else if i == 19 {
        1667940
    } else {
        0
    }
}

/// The twenty merge paths are distinct.
proof fn lemma_merge_paths_distinct()
    ensures
        forall|i: int, j: int|
            0 <= i < MERGE_SLOTS && 0 <= j < MERGE_SLOTS && i != j ==> #[trigger] merge_path(i)
                != #[trigger] merge_path(j),
{
    assert forall|k: int| 0 <= k < MERGE_SLOTS implies #[trigger] merge_path(k).len() * 65536
        + merge_path(k)[0] as int * 256 + merge_path(k)[9] as int == path_key(k) by {
        reveal_strlit("macos.haptic_feedback");
        reveal_strlit("cursor.sensitivity");
        reveal_strlit("cursor.accel_exponent");
        reveal_strlit("scroll.sensitivity");
        reveal_strlit("gestures.tap_to_click");
        reveal_strlit("gestures.secondary_click");
        reveal_strlit("gestures.smart_zoom");
        reveal_strlit("gestures.dictionary_lookup");
        reveal_strlit("gestures.three_finger_drag.enable");
        reveal_strlit("gestures.one_finger_tap_drag.enable");
        reveal_strlit("gestures.right_edge_swipe");
        reveal_strlit("gestures.pinch.enable");
        reveal_strlit("gestures.rotate.enable");
        reveal_strlit("gestures.swipe.horizontal.enable");
        reveal_strlit("gestures.swipe.vertical.enable");
        reveal_strlit("scroll.enable");
        reveal_strlit("scroll.horizontal");
        reveal_strlit("scroll.momentum");
        reveal_strlit("scroll.natural");
        reveal_strlit("scroll.modifier_zoom_mask");
    }
    assert forall|i: int, j: int|
        0 <= i < MERGE_SLOTS && 0 <= j < MERGE_SLOTS && i != j implies #[trigger] merge_path(i)
            != #[trigger] merge_path(j) by {
        assert(path_key(i) != path_key(j));
        if merge_path(i) == merge_path(j) {
            assert(merge_path(i).len() * 65536 + merge_path(i)[0] as int * 256 + merge_path(i)[9] as int
                == path_key(j));
        }
    }
}

/// Merging one setting leaves everything else in the configuration as it was.
proof fn lemma_slot_keeps_the_rest(cfg: Config, p: NormalizedTrackpadPolicy, j: int)
    requires
        0 <= j < MERGE_SLOTS,
    ensures
        without_settings(apply_slot(cfg, p, j)) == without_settings(cfg),
{
    reveal(apply_slot);
    if j == 0 {
        assert(without_settings(apply_slot(cfg, p, 0)) == without_settings(cfg));
    } else if j == 1 {
        assert(without_settings(apply_slot(cfg, p, 1)) == without_settings(cfg));
    } else if j == 2 {
        assert(without_settings(apply_slot(cfg, p, 2)) == without_settings(cfg));
    } else if j == 3 {
        assert(without_settings(apply_slot(cfg, p, 3)) == without_settings(cfg));
    } else if j == 4 {
        assert(without_settings(apply_slot(cfg, p, 4)) == without_settings(cfg));
    } else if j == 5 {
        assert(without_settings(apply_slot(cfg, p, 5)) == without_settings(cfg));
    } else if j == 6 {
        assert(without_settings(apply_slot(cfg, p, 6)) == without_settings(cfg));
    } else if j == 7 {
        assert(without_settings(apply_slot(cfg, p, 7)) == without_settings(cfg));
    } else if j == 8 {
        assert(without_settings(apply_slot(cfg, p, 8)) == without_settings(cfg));
    } else if j == 9 {
        assert(without_settings(apply_slot(cfg, p, 9)) == without_settings(cfg));
    } else if j == 10 {
        assert(without_settings(apply_slot(cfg, p, 10)) == without_settings(cfg));
    } else if j == 11 {
        assert(without_settings(apply_slot(cfg, p, 11)) == without_settings(cfg));
    } else if j == 12 {
        assert(without_settings(apply_slot(cfg, p, 12)) == without_settings(cfg));
    } else if j == 13 {
        assert(without_settings(apply_slot(cfg, p, 13)) == without_settings(cfg));
    } else if j == 14 {
        assert(without_settings(apply_slot(cfg, p, 14)) == without_settings(cfg));
    } else if j == 15 {
        assert(without_settings(apply_slot(cfg, p, 15)) == without_settings(cfg));
    } else if j == 16 {
        assert(without_settings(apply_slot(cfg, p, 16)) == without_settings(cfg));
    } else if j == 17 {
        assert(without_settings(apply_slot(cfg, p, 17)) == without_settings(cfg));
    } else if j == 18 {
        assert(without_settings(apply_slot(cfg, p, 18)) == without_settings(cfg));
    } else if j == 19 {
        assert(without_settings(apply_slot(cfg, p, 19)) == without_settings(cfg));
    }
}

proof fn lemma_merged_keeps_the_rest(cfg: Config, p: NormalizedTrackpadPolicy, n: int)
    requires
        0 <= n <= MERGE_SLOTS,
    ensures
        without_settings(merged_upto(cfg, p, n)) == without_settings(cfg),
    decreases n,
{
    if n > 0 {
        lemma_merged_keeps_the_rest(cfg, p, n - 1);
        lemma_slot_keeps_the_rest(merged_upto(cfg, p, n - 1), p, n - 1);
    }
}

/// Setting `i` is listed among the first `n` applied (or kept) paths exactly
/// when it is one of them, the policy has a value for it, and its path is
/// not explicit (or is).
proof fn lemma_listed(e: Set<Seq<char>>, p: NormalizedTrackpadPolicy, n: int, i: int)
    requires
        0 <= n <= MERGE_SLOTS,
        0 <= i < MERGE_SLOTS,
    ensures
        applied_upto(e, p, n).contains(merge_path(i)) <==> (i < n && slot_present(p, i)
            && !e.contains(merge_path(i))),
        overridden_upto(e, p, n).contains(merge_path(i)) <==> (i < n && slot_present(p, i)
            && e.contains(merge_path(i))),
    decreases n,
{
    if n > 0 {
        lemma_listed(e, p, n - 1, i);
        lemma_merge_paths_distinct();
        let x = merge_path(i);
        let last = merge_path(n - 1);
        let a0 = applied_upto(e, p, n - 1);
        let a1: Seq<Seq<char>> = if slot_present(p, n - 1) && !e.contains(last) {
            seq![last]
        } else {
            Seq::empty()
        };
        let o0 = overridden_upto(e, p, n - 1);
        let o1: Seq<Seq<char>> = if slot_present(p, n - 1) && e.contains(last) {
            seq![last]
        } else {
            Seq::empty()
        };
        assert((a0 + a1).contains(x) <==> a0.contains(x) || a1.contains(x)) by {
            if (a0 + a1).contains(x) {
                let k = choose|k: int| 0 <= k < (a0 + a1).len() && (a0 + a1)[k] == x;
                if k >= a0.len() {
                    assert(a1[k - a0.len()] == x);
                }
            }
            if a0.contains(x) {
                let k = choose|k: int| 0 <= k < a0.len() && a0[k] == x;
                assert((a0 + a1)[k] == x);
            }
            if a1.contains(x) {
                assert((a0 + a1)[a0.len() as int] == x);
            }
        }
        assert((o0 + o1).contains(x) <==> o0.contains(x) || o1.contains(x)) by {
            if (o0 + o1).contains(x) {
                let k = choose|k: int| 0 <= k < (o0 + o1).len() && (o0 + o1)[k] == x;
                if k >= o0.len() {
                    assert(o1[k - o0.len()] == x);
                }
            }
            if o0.contains(x) {
                let k = choose|k: int| 0 <= k < o0.len() && o0[k] == x;
                assert((o0 + o1)[k] == x);
            }
            if o1.contains(x) {
                assert((o0 + o1)[o0.len() as int] == x);
            }
        }
        if i != n - 1 {
            assert(x != last);
            assert(!a1.contains(x));
            assert(!o1.contains(x));
        } else {
            if a1.len() > 0 {
                assert(a1[0] == x);
            }
            if o1.len() > 0 {
                assert(o1[0] == x);
            }
        }
    }
}

/// Law: the merge treats every mergeable path on its own. Where the policy
/// has no value, the setting keeps its value and the path is listed nowhere;
/// where the source wrote the path, the setting keeps its value and the path
/// is listed as kept only; otherwise the setting takes the policy's value and
/// the path is listed as applied only. Nothing else in the configuration
/// changes.
pub proof fn lemma_merge_per_path(cfg: Config, p: NormalizedTrackpadPolicy, i: int)
    requires
        0 <= i < MERGE_SLOTS,
    ensures
        policy_value(p, i) is None ==> {
            &&& setting_at(merged(cfg, p), i) == setting_at(cfg, i)
            &&& !applied_upto(cfg.explicit@, p, MERGE_SLOTS as int).contains(merge_path(i))
            &&& !overridden_upto(cfg.explicit@, p, MERGE_SLOTS as int).contains(merge_path(i))
        },
        policy_value(p, i) is Some && cfg.explicit@.contains(merge_path(i)) ==> {
            &&& setting_at(merged(cfg, p), i) == setting_at(cfg, i)
            &&& !applied_upto(cfg.explicit@, p, MERGE_SLOTS as int).contains(merge_path(i))
            &&& overridden_upto(cfg.explicit@, p, MERGE_SLOTS as int).contains(merge_path(i))
        },
        policy_value(p, i) matches Some(v) ==> (!cfg.explicit@.contains(merge_path(i)) ==> {
            &&& setting_at(merged(cfg, p), i) == v
            &&& applied_upto(cfg.explicit@, p, MERGE_SLOTS as int).contains(merge_path(i))
            &&& !overridden_upto(cfg.explicit@, p, MERGE_SLOTS as int).contains(merge_path(i))
        }),
        without_settings(merged(cfg, p)) == without_settings(cfg),
{
    lemma_merged_upto(cfg, p, MERGE_SLOTS as int, i);
    lemma_listed(cfg.explicit@, p, MERGE_SLOTS as int, i);
    lemma_merged_keeps_the_rest(cfg, p, MERGE_SLOTS as int);
    assert(policy_value(p, i) is Some <==> slot_present(p, i));
}

/// Law: a policy with no values (no preferences found) leaves the
/// configuration as it is and reports nothing applied or kept.
pub proof fn lemma_empty_policy_noop(cfg: Config, p: NormalizedTrackpadPolicy, n: int)
    requires
        0 <= n <= MERGE_SLOTS,
        forall|j: int| 0 <= j < MERGE_SLOTS ==> !slot_present(p, j),
    ensures
        merged_upto(cfg, p, n) == cfg,
        applied_upto(cfg.explicit@, p, n) == Seq::<Seq<char>>::empty(),
        overridden_upto(cfg.explicit@, p, n) == Seq::<Seq<char>>::empty(),
    decreases n,
{
    if n > 0 {
        lemma_empty_policy_noop(cfg, p, n - 1);
        lemma_absent_slot_noop(cfg, p, n - 1);
        assert(applied_upto(cfg.explicit@, p, n) =~= Seq::<Seq<char>>::empty());
        assert(overridden_upto(cfg.explicit@, p, n) =~= Seq::<Seq<char>>::empty());
    }
}

fn copy_items<T: Copy>(v: &[T]) -> (r: Vec<T>)
    ensures
        r@ == v@,
{
    let mut r: Vec<T> = Vec::new();
    let mut i: usize = 0;
    while i < v.len()
        invariant
            i <= v@.len(),
            r@ == v@.take(i as int),
        decreases v@.len() - i,
    {
        r.push(v[i]);
        assert(r@ =~= v@.take(i + 1));
        i = i + 1;
    }
    assert(v@.take(v@.len() as int) =~= v@);
    r
}

/// One settings sync: when the configuration asks for it, merges `policy`
/// (derived from `raw`) and reports what the snapshot held and what was
/// applied; otherwise changes nothing.
pub fn apply_policy(cfg: &mut Config, raw: &RawTrackpadPreferences, policy: &NormalizedTrackpadPolicy) -> (r:
    SyncReport)
    ensures
        r.enabled == old(cfg).macos.sync_system_settings,
        !r.enabled ==> {
            &&& *final(cfg) == *old(cfg)
            &&& r.raw_values == 0
            &&& !r.trackpad_domain_available
            &&& !r.global_domain_available
            &&& r.applied@ == Seq::<String>::empty()
            &&& r.explicit_overrides@ == Seq::<String>::empty()
            &&& r.unsupported@ == Seq::<UnsupportedPreference>::empty()
            &&& r.conflicts@ == Seq::<PreferenceConflict>::empty()
        },
        r.enabled ==> {
            &&& *final(cfg) == merged(*old(cfg), *policy)
            &&& r.raw_values == raw@.entries.len()
            &&& r.trackpad_domain_available == raw@.trackpad_domain_available
            &&& r.global_domain_available == raw@.global_domain_available
            &&& r.conflicts@ == raw@.conflicts
            &&& r.unsupported@ == policy.unsupported@
            &&& strings(r.applied@) == applied_upto(old(cfg).explicit@, *policy, MERGE_SLOTS as int)
            &&& strings(r.explicit_overrides@) == overridden_upto(
                old(cfg).explicit@,
                *policy,
                MERGE_SLOTS as int,
            )
        },
{
    let mut report = SyncReport::new(cfg.macos.sync_system_settings);
    if !cfg.macos.sync_system_settings {
        return report;
    }
    report.raw_values = raw.value_count();
    report.trackpad_domain_available = raw.trackpad_domain_available();
    report.global_domain_available = raw.global_domain_available();
    report.conflicts = copy_items(raw.conflicts());
    report.unsupported = copy_items(policy.unsupported.as_slice());
    assert(strings(report.applied@) =~= Seq::<Seq<char>>::empty());
    assert(strings(report.explicit_overrides@) =~= Seq::<Seq<char>>::empty());
    merge_policy(cfg, policy, &mut report);
    assert(strings(report.applied@) =~= applied_upto(old(cfg).explicit@, *policy, MERGE_SLOTS as int));
    assert(strings(report.explicit_overrides@) =~= overridden_upto(
        old(cfg).explicit@,
        *policy,
        MERGE_SLOTS as int,
    ));
    report
}

} // verus!
