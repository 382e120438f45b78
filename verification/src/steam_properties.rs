//! The X11 properties through which Steam and the compositor talk.

use vstd::prelude::*;

use crate::control::ScreenType;
use crate::lists;
use crate::steam;
use crate::steam::BridgeEvent;
use crate::text;
use crate::text::push_decimal;

verus! {

/// The properties that are read or written.
#[derive(Clone, Copy, Debug, PartialEq, Eq, Structural)]
pub enum SteamProperty {
    Utf8String,
    SteamGame,
    SteamBigPicture,
    SteamOverlay,
    ExternalOverlay,
    SteamInputFocus,
    SteamStreamingClient,
    SteamStreamingClientVideo,
    NetWmOpacity,
    GamesRunning,
    ScreenScale,
    ScreenMagnification,
    SteamMaxHeight,
    FpsLimit,
    FocusControlAppIds,
    FocusControlWindow,
    FocusableApps,
    FocusableWindows,
    FocusedApp,
    FocusedAppGfx,
    FocusedWindow,
    FocusDisplay,
    MouseFocusDisplay,
    KeyboardFocusDisplay,
    XwaylandServerId,
    GamescopePid,
    VrOverlayForwarding,
    VrrCapable,
    VrrEnabled,
    VrrFeedback,
    HdrCapable,
    HdrEnabled,
    RefreshFeedback,
    FsrFeedback,
    InputCounter,
    DirectScanoutStatus,
    CreateXwayland,
    CreateXwaylandFeedback,
    DestroyXwayland,
    DisplayForceInternal,
    DisplayModeNudge,
    DynamicRefreshInternal,
    DynamicRefreshExternal,
    CompositeForce,
    NetActiveWindow,
}

impl SteamProperty {
    /// The X11 name of a property.
    pub open spec fn spec_name(self) -> Seq<char> {
        match self {
            SteamProperty::Utf8String => "UTF8_STRING"@,
            SteamProperty::SteamGame => "STEAM_GAME"@,
            SteamProperty::SteamBigPicture => "STEAM_BIGPICTURE"@,
            SteamProperty::SteamOverlay => "STEAM_OVERLAY"@,
            SteamProperty::ExternalOverlay => "GAMESCOPE_EXTERNAL_OVERLAY"@,
            SteamProperty::SteamInputFocus => "STEAM_INPUT_FOCUS"@,
            SteamProperty::SteamStreamingClient => "STEAM_STREAMING_CLIENT"@,
            SteamProperty::SteamStreamingClientVideo => "STEAM_STREAMING_CLIENT_VIDEO"@,
            SteamProperty::NetWmOpacity => "_NET_WM_WINDOW_OPACITY"@,
            SteamProperty::GamesRunning => "STEAM_GAMES_RUNNING"@,
            SteamProperty::ScreenScale => "STEAM_SCREEN_SCALE"@,
            SteamProperty::ScreenMagnification => "STEAM_SCREEN_MAGNIFICATION"@,
            SteamProperty::SteamMaxHeight => "GAMESCOPE_STEAM_MAX_HEIGHT"@,
            SteamProperty::FpsLimit => "GAMESCOPE_FPS_LIMIT"@,
            SteamProperty::FocusControlAppIds => "GAMESCOPECTRL_BASELAYER_APPID"@,
            SteamProperty::FocusControlWindow => "GAMESCOPECTRL_BASELAYER_WINDOW"@,
            SteamProperty::FocusableApps => "GAMESCOPE_FOCUSABLE_APPS"@,
            SteamProperty::FocusableWindows => "GAMESCOPE_FOCUSABLE_WINDOWS"@,
            SteamProperty::FocusedApp => "GAMESCOPE_FOCUSED_APP"@,
            SteamProperty::FocusedAppGfx => "GAMESCOPE_FOCUSED_APP_GFX"@,
            SteamProperty::FocusedWindow => "GAMESCOPE_FOCUSED_WINDOW"@,
            SteamProperty::FocusDisplay => "GAMESCOPE_FOCUS_DISPLAY"@,
            SteamProperty::MouseFocusDisplay => "GAMESCOPE_MOUSE_FOCUS_DISPLAY"@,
            SteamProperty::KeyboardFocusDisplay => "GAMESCOPE_KEYBOARD_FOCUS_DISPLAY"@,
            SteamProperty::XwaylandServerId => "GAMESCOPE_XWAYLAND_SERVER_ID"@,
            SteamProperty::GamescopePid => "GAMESCOPE_PID"@,
            SteamProperty::VrOverlayForwarding => "GAMESCOPE_VROVERLAY_FORWARDING"@,
            SteamProperty::VrrCapable => "GAMESCOPE_VRR_CAPABLE"@,
            SteamProperty::VrrEnabled => "GAMESCOPE_VRR_ENABLED"@,
            SteamProperty::VrrFeedback => "GAMESCOPE_VRR_FEEDBACK"@,
            SteamProperty::HdrCapable => "GAMESCOPE_DISPLAY_SUPPORTS_HDR"@,
            SteamProperty::HdrEnabled => "GAMESCOPE_DISPLAY_HDR_ENABLED"@,
            SteamProperty::RefreshFeedback => "GAMESCOPE_DISPLAY_REFRESH_RATE_FEEDBACK"@,
            SteamProperty::FsrFeedback => "GAMESCOPE_FSR_FEEDBACK"@,
            SteamProperty::InputCounter => "GAMESCOPE_INPUT_COUNTER"@,
            SteamProperty::DirectScanoutStatus => "GAMESCOPE_DIRECT_SCANOUT_STATUS"@,
            SteamProperty::CreateXwayland => "GAMESCOPE_CREATE_XWAYLAND_SERVER"@,
            SteamProperty::CreateXwaylandFeedback => "GAMESCOPE_CREATE_XWAYLAND_SERVER_FEEDBACK"@,
            SteamProperty::DestroyXwayland => "GAMESCOPE_DESTROY_XWAYLAND_SERVER"@,
            SteamProperty::DisplayForceInternal => "GAMESCOPE_DISPLAY_FORCE_INTERNAL"@,
            SteamProperty::DisplayModeNudge => "GAMESCOPE_DISPLAY_MODE_NUDGE"@,
            SteamProperty::DynamicRefreshInternal => "GAMESCOPE_DYNAMIC_REFRESH"@,
            SteamProperty::DynamicRefreshExternal => "GAMESCOPE_DYNAMIC_REFRESH_EXTERNAL"@,
            SteamProperty::CompositeForce => "GAMESCOPE_COMPOSITE_FORCE"@,
            SteamProperty::NetActiveWindow => "_NET_ACTIVE_WINDOW"@,
        }
    }

    /// The X11 name of a property.
    #[must_use]
    pub fn name(self) -> (name: &'static str)
        ensures
            name@ == self.spec_name(),
    {
        match self {
            SteamProperty::Utf8String => "UTF8_STRING",
            SteamProperty::SteamGame => "STEAM_GAME",
            SteamProperty::SteamBigPicture => "STEAM_BIGPICTURE",
            SteamProperty::SteamOverlay => "STEAM_OVERLAY",
            SteamProperty::ExternalOverlay => "GAMESCOPE_EXTERNAL_OVERLAY",
            SteamProperty::SteamInputFocus => "STEAM_INPUT_FOCUS",
            SteamProperty::SteamStreamingClient => "STEAM_STREAMING_CLIENT",
            SteamProperty::SteamStreamingClientVideo => "STEAM_STREAMING_CLIENT_VIDEO",
            SteamProperty::NetWmOpacity => "_NET_WM_WINDOW_OPACITY",
            SteamProperty::GamesRunning => "STEAM_GAMES_RUNNING",
            SteamProperty::ScreenScale => "STEAM_SCREEN_SCALE",
            SteamProperty::ScreenMagnification => "STEAM_SCREEN_MAGNIFICATION",
            SteamProperty::SteamMaxHeight => "GAMESCOPE_STEAM_MAX_HEIGHT",
            SteamProperty::FpsLimit => "GAMESCOPE_FPS_LIMIT",
            SteamProperty::FocusControlAppIds => "GAMESCOPECTRL_BASELAYER_APPID",
            SteamProperty::FocusControlWindow => "GAMESCOPECTRL_BASELAYER_WINDOW",
            SteamProperty::FocusableApps => "GAMESCOPE_FOCUSABLE_APPS",
            SteamProperty::FocusableWindows => "GAMESCOPE_FOCUSABLE_WINDOWS",
            SteamProperty::FocusedApp => "GAMESCOPE_FOCUSED_APP",
            SteamProperty::FocusedAppGfx => "GAMESCOPE_FOCUSED_APP_GFX",
            SteamProperty::FocusedWindow => "GAMESCOPE_FOCUSED_WINDOW",
            SteamProperty::FocusDisplay => "GAMESCOPE_FOCUS_DISPLAY",
            SteamProperty::MouseFocusDisplay => "GAMESCOPE_MOUSE_FOCUS_DISPLAY",
            SteamProperty::KeyboardFocusDisplay => "GAMESCOPE_KEYBOARD_FOCUS_DISPLAY",
            SteamProperty::XwaylandServerId => "GAMESCOPE_XWAYLAND_SERVER_ID",
            SteamProperty::GamescopePid => "GAMESCOPE_PID",
            SteamProperty::VrOverlayForwarding => "GAMESCOPE_VROVERLAY_FORWARDING",
            SteamProperty::VrrCapable => "GAMESCOPE_VRR_CAPABLE",
            SteamProperty::VrrEnabled => "GAMESCOPE_VRR_ENABLED",
            SteamProperty::VrrFeedback => "GAMESCOPE_VRR_FEEDBACK",
            SteamProperty::HdrCapable => "GAMESCOPE_DISPLAY_SUPPORTS_HDR",
            SteamProperty::HdrEnabled => "GAMESCOPE_DISPLAY_HDR_ENABLED",
            SteamProperty::RefreshFeedback => "GAMESCOPE_DISPLAY_REFRESH_RATE_FEEDBACK",
            SteamProperty::FsrFeedback => "GAMESCOPE_FSR_FEEDBACK",
            SteamProperty::InputCounter => "GAMESCOPE_INPUT_COUNTER",
            SteamProperty::DirectScanoutStatus => "GAMESCOPE_DIRECT_SCANOUT_STATUS",
            SteamProperty::CreateXwayland => "GAMESCOPE_CREATE_XWAYLAND_SERVER",
            SteamProperty::CreateXwaylandFeedback => "GAMESCOPE_CREATE_XWAYLAND_SERVER_FEEDBACK",
            SteamProperty::DestroyXwayland => "GAMESCOPE_DESTROY_XWAYLAND_SERVER",
            SteamProperty::DisplayForceInternal => "GAMESCOPE_DISPLAY_FORCE_INTERNAL",
            SteamProperty::DisplayModeNudge => "GAMESCOPE_DISPLAY_MODE_NUDGE",
            SteamProperty::DynamicRefreshInternal => "GAMESCOPE_DYNAMIC_REFRESH",
            SteamProperty::DynamicRefreshExternal => "GAMESCOPE_DYNAMIC_REFRESH_EXTERNAL",
            SteamProperty::CompositeForce => "GAMESCOPE_COMPOSITE_FORCE",
            SteamProperty::NetActiveWindow => "_NET_ACTIVE_WINDOW",
        }
    }

    /// Every property, in the order in which their atoms are interned.
    pub open spec fn spec_all() -> Seq<SteamProperty> {
        seq![
            SteamProperty::Utf8String,
            SteamProperty::SteamGame,
            SteamProperty::SteamBigPicture,
            SteamProperty::SteamOverlay,
            SteamProperty::ExternalOverlay,
            SteamProperty::SteamInputFocus,
            SteamProperty::SteamStreamingClient,
            SteamProperty::SteamStreamingClientVideo,
            SteamProperty::NetWmOpacity,
            SteamProperty::GamesRunning,
            SteamProperty::ScreenScale,
            SteamProperty::ScreenMagnification,
            SteamProperty::SteamMaxHeight,
            SteamProperty::FpsLimit,
            SteamProperty::FocusControlAppIds,
            SteamProperty::FocusControlWindow,
            SteamProperty::FocusableApps,
            SteamProperty::FocusableWindows,
            SteamProperty::FocusedApp,
            SteamProperty::FocusedAppGfx,
            SteamProperty::FocusedWindow,
            SteamProperty::FocusDisplay,
            SteamProperty::MouseFocusDisplay,
            SteamProperty::KeyboardFocusDisplay,
            SteamProperty::XwaylandServerId,
            SteamProperty::GamescopePid,
            SteamProperty::VrOverlayForwarding,
            SteamProperty::VrrCapable,
            SteamProperty::VrrEnabled,
            SteamProperty::VrrFeedback,
            SteamProperty::HdrCapable,
            SteamProperty::HdrEnabled,
            SteamProperty::RefreshFeedback,
            SteamProperty::FsrFeedback,
            SteamProperty::InputCounter,
            SteamProperty::DirectScanoutStatus,
            SteamProperty::CreateXwayland,
            SteamProperty::CreateXwaylandFeedback,
            SteamProperty::DestroyXwayland,
            SteamProperty::DisplayForceInternal,
            SteamProperty::DisplayModeNudge,
            SteamProperty::DynamicRefreshInternal,
            SteamProperty::DynamicRefreshExternal,
            SteamProperty::CompositeForce,
            SteamProperty::NetActiveWindow,
        ]
    }

    /// Every property, in the order in which their atoms are interned.
    #[must_use]
    pub fn all() -> (properties: Vec<SteamProperty>)
        ensures
            properties@ == Self::spec_all(),
    {
        let properties: Vec<SteamProperty> = vec![
            SteamProperty::Utf8String,
            SteamProperty::SteamGame,
            SteamProperty::SteamBigPicture,
            SteamProperty::SteamOverlay,
            SteamProperty::ExternalOverlay,
            SteamProperty::SteamInputFocus,
            SteamProperty::SteamStreamingClient,
            SteamProperty::SteamStreamingClientVideo,
            SteamProperty::NetWmOpacity,
            SteamProperty::GamesRunning,
            SteamProperty::ScreenScale,
            SteamProperty::ScreenMagnification,
            SteamProperty::SteamMaxHeight,
            SteamProperty::FpsLimit,
            SteamProperty::FocusControlAppIds,
            SteamProperty::FocusControlWindow,
            SteamProperty::FocusableApps,
            SteamProperty::FocusableWindows,
            SteamProperty::FocusedApp,
            SteamProperty::FocusedAppGfx,
            SteamProperty::FocusedWindow,
            SteamProperty::FocusDisplay,
            SteamProperty::MouseFocusDisplay,
            SteamProperty::KeyboardFocusDisplay,
            SteamProperty::XwaylandServerId,
            SteamProperty::GamescopePid,
            SteamProperty::VrOverlayForwarding,
            SteamProperty::VrrCapable,
            SteamProperty::VrrEnabled,
            SteamProperty::VrrFeedback,
            SteamProperty::HdrCapable,
            SteamProperty::HdrEnabled,
            SteamProperty::RefreshFeedback,
            SteamProperty::FsrFeedback,
            SteamProperty::InputCounter,
            SteamProperty::DirectScanoutStatus,
            SteamProperty::CreateXwayland,
            SteamProperty::CreateXwaylandFeedback,
            SteamProperty::DestroyXwayland,
            SteamProperty::DisplayForceInternal,
            SteamProperty::DisplayModeNudge,
            SteamProperty::DynamicRefreshInternal,
            SteamProperty::DynamicRefreshExternal,
            SteamProperty::CompositeForce,
            SteamProperty::NetActiveWindow,
        ];
        assert(properties@ =~= Self::spec_all());
        properties
    }

    /// The properties that belong to windows rather than to the root window.
    pub open spec fn on_windows(self) -> bool {
        self == SteamProperty::SteamGame || self == SteamProperty::SteamBigPicture || self
            == SteamProperty::SteamOverlay || self == SteamProperty::ExternalOverlay || self
            == SteamProperty::SteamInputFocus || self == SteamProperty::SteamStreamingClient
            || self == SteamProperty::SteamStreamingClientVideo || self
            == SteamProperty::NetWmOpacity
    }

    /// Whether a change of this property changes the metadata of its window.
    #[must_use]
    pub fn is_window_property(self) -> (found: bool)
        ensures
            found == self.on_windows(),
    {
        match self {
            SteamProperty::SteamGame | SteamProperty::SteamBigPicture
            | SteamProperty::SteamOverlay | SteamProperty::ExternalOverlay
            | SteamProperty::SteamInputFocus | SteamProperty::SteamStreamingClient
            | SteamProperty::SteamStreamingClientVideo | SteamProperty::NetWmOpacity => true,
            _ => false,
        }
    }

    /// The event for a changed property of the root window, given its current value.
    /// Properties without a value of their own do not look at it.
    pub open spec fn root_event(self, value: Option<u32>) -> Option<BridgeEvent> {
        match self {
            SteamProperty::FocusControlAppIds | SteamProperty::FocusControlWindow => Some(
                BridgeEvent::FocusControlChanged,
            ),
            SteamProperty::CreateXwayland => if steam::is_set(value) {
                Some(BridgeEvent::CreateXwayland(steam::value_or(value, 0)))
            } else {
                None
            },
            SteamProperty::DestroyXwayland => match value {
                Some(server_id) => Some(BridgeEvent::DestroyXwayland(server_id)),
                None => None,
            },
            SteamProperty::GamesRunning => Some(
                BridgeEvent::GamesRunningChanged(steam::value_or(value, 0)),
            ),
            SteamProperty::SteamMaxHeight => Some(
                BridgeEvent::SteamMaxHeightChanged(steam::value_or(value, 0)),
            ),
            SteamProperty::FpsLimit => Some(
                BridgeEvent::FpsLimitChanged(steam::value_or(value, 0)),
            ),
            SteamProperty::ScreenScale | SteamProperty::ScreenMagnification => Some(
                BridgeEvent::ScreenScaleChanged,
            ),
            SteamProperty::VrrEnabled => Some(
                BridgeEvent::VrrEnabledChanged(steam::is_set(value)),
            ),
            SteamProperty::DisplayForceInternal => Some(
                BridgeEvent::DisplayForceInternalChanged(steam::is_set(value)),
            ),
            SteamProperty::DisplayModeNudge => Some(BridgeEvent::DisplayModeNudge),
            SteamProperty::DynamicRefreshInternal => Some(
                BridgeEvent::DynamicRefreshChanged {
                    screen: ScreenType::Internal,
                    refresh_hz: steam::value_or(value, 0),
                },
            ),
            SteamProperty::DynamicRefreshExternal => Some(
                BridgeEvent::DynamicRefreshChanged {
                    screen: ScreenType::External,
                    refresh_hz: steam::value_or(value, 0),
                },
            ),
            SteamProperty::CompositeForce => Some(
                BridgeEvent::CompositeForceChanged(steam::is_set(value)),
            ),
            _ => None,
        }
    }

    /// The event for a changed property of the root window, given its current value.
    #[must_use]
    pub fn event(self, value: Option<u32>) -> (event: Option<BridgeEvent>)
        ensures
            event == self.root_event(value),
    {
        let number: u32 = match value {
            Some(value) => value,
            None => 0,
        };
        match self {
            SteamProperty::FocusControlAppIds | SteamProperty::FocusControlWindow => Some(
                BridgeEvent::FocusControlChanged,
            ),
            SteamProperty::CreateXwayland => if number != 0 {
                Some(BridgeEvent::CreateXwayland(number))
            } else {
                None
            },
            SteamProperty::DestroyXwayland => match value {
                Some(server_id) => Some(BridgeEvent::DestroyXwayland(server_id)),
                None => None,
            },
            SteamProperty::GamesRunning => Some(BridgeEvent::GamesRunningChanged(number)),
            SteamProperty::SteamMaxHeight => Some(BridgeEvent::SteamMaxHeightChanged(number)),
            SteamProperty::FpsLimit => Some(BridgeEvent::FpsLimitChanged(number)),
            SteamProperty::ScreenScale | SteamProperty::ScreenMagnification => Some(
                BridgeEvent::ScreenScaleChanged,
            ),
            SteamProperty::VrrEnabled => Some(BridgeEvent::VrrEnabledChanged(number != 0)),
            SteamProperty::DisplayForceInternal => Some(
                BridgeEvent::DisplayForceInternalChanged(number != 0),
            ),
            SteamProperty::DisplayModeNudge => Some(BridgeEvent::DisplayModeNudge),
            SteamProperty::DynamicRefreshInternal => Some(
                BridgeEvent::DynamicRefreshChanged {
                    screen: ScreenType::Internal,
                    refresh_hz: number,
                },
            ),
            SteamProperty::DynamicRefreshExternal => Some(
                BridgeEvent::DynamicRefreshChanged {
                    screen: ScreenType::External,
                    refresh_hz: number,
                },
            ),
            SteamProperty::CompositeForce => Some(
                BridgeEvent::CompositeForceChanged(number != 0),
            ),
            _ => None,
        }
    }
}

/// The atom of one property.
#[derive(Clone, Copy, Debug, PartialEq, Eq, Structural)]
pub struct AtomEntry {
    pub property: SteamProperty,
    pub atom: u32,
}

/// The atoms that one X server gave the properties.
#[derive(Debug)]
pub struct SteamAtoms {
    pub entries: Vec<AtomEntry>,
}

/// The predicate of having an atom.
pub open spec fn has_atom(atom: u32) -> spec_fn(AtomEntry) -> bool {
    |entry: AtomEntry| entry.atom == atom
}

/// The predicate of being the entry of a property.
pub open spec fn has_property(property: SteamProperty) -> spec_fn(AtomEntry) -> bool {
    |entry: AtomEntry| entry.property == property
}

/// What a changed property asks for.
#[derive(Clone, Copy, Debug, PartialEq, Eq, Structural)]
pub enum PropertyChange {
    /// Nothing.
    Ignored,
    /// The metadata of a window changed.
    Window(u32),
    /// A property of the root window changed: read its value and make the event of it.
    Root(SteamProperty),
}

impl SteamAtoms {
    /// The property with an atom.
    pub open spec fn spec_property(self, atom: u32) -> Option<SteamProperty> {
        let index = lists::first_index(self.entries@, has_atom(atom));
        if index < self.entries@.len() {
            Some(self.entries@[index].property)
        } else {
            None
        }
    }

    /// The property with an atom.
    #[must_use]
    pub fn property(&self, atom: u32) -> (property: Option<SteamProperty>)
        ensures
            property == self.spec_property(atom),
    {
        let ghost wanted = has_atom(atom);
        let mut i: usize = 0;
        while i < self.entries.len()
            invariant
                i <= self.entries@.len(),
                wanted == has_atom(atom),
                forall|j: int| 0 <= j < i ==> !wanted(#[trigger] self.entries@[j]),
            decreases self.entries@.len() - i,
        {
            if self.entries[i].atom == atom {
                proof {
                    lists::lemma_first_index(self.entries@, wanted, i as int);
                }
                return Some(self.entries[i].property);
            }
            i = i + 1;
        }
        proof {
            lists::lemma_first_index(self.entries@, wanted, i as int);
        }
        None
    }

    /// The atom of a property.
    #[must_use]
    pub fn atom(&self, property: SteamProperty) -> (atom: Option<u32>)
        ensures
            atom == ({
                let index = lists::first_index(self.entries@, has_property(property));
                if index < self.entries@.len() {
                    Some(self.entries@[index].atom)
                } else {
                    None
                }
            }),
    {
        let ghost wanted = has_property(property);
        let mut i: usize = 0;
        while i < self.entries.len()
            invariant
                i <= self.entries@.len(),
                wanted == has_property(property),
                forall|j: int| 0 <= j < i ==> !wanted(#[trigger] self.entries@[j]),
            decreases self.entries@.len() - i,
        {
            if self.entries[i].property == property {
                proof {
                    lists::lemma_first_index(self.entries@, wanted, i as int);
                }
                return Some(self.entries[i].atom);
            }
            i = i + 1;
        }
        proof {
            lists::lemma_first_index(self.entries@, wanted, i as int);
        }
        None
    }

    /// Sort a `PropertyNotify` event.
    #[must_use]
    pub fn classify(&self, root: u32, window: u32, atom: u32) -> (change: PropertyChange)
        ensures
            change == (match self.spec_property(atom) {
                Some(property) => if window == root {
                    PropertyChange::Root(property)
                } else if property.on_windows() {
                    PropertyChange::Window(window)
                } else {
                    PropertyChange::Ignored
                },
                None => PropertyChange::Ignored,
            }),
    {
        match self.property(atom) {
            Some(property) => if window == root {
                PropertyChange::Root(property)
            } else if property.is_window_property() {
                PropertyChange::Window(window)
            } else {
                PropertyChange::Ignored
            },
            None => PropertyChange::Ignored,
        }
    }
}

/// The value of a property to write.
#[derive(Debug, PartialEq, Eq)]
pub enum PropertyValue {
    Cardinals(Vec<u32>),
    Text(String),
}

/// What the value of a property holds.
pub enum PropertyValueView {
    Cardinals(Seq<u32>),
    Text(Seq<char>),
}

impl View for PropertyValue {
    type V = PropertyValueView;

    open spec fn view(&self) -> PropertyValueView {
        match self {
            PropertyValue::Cardinals(values) => PropertyValueView::Cardinals(values@),
            PropertyValue::Text(text) => PropertyValueView::Text(text@),
        }
    }
}

/// A write to a property of the root window.
#[derive(Debug, PartialEq, Eq)]
pub struct PropertyWrite {
    pub property: SteamProperty,
    pub value: PropertyValue,
}

/// What a write to a property says.
pub struct PropertyWriteView {
    pub property: SteamProperty,
    pub value: PropertyValueView,
}

impl View for PropertyWrite {
    type V = PropertyWriteView;

    open spec fn view(&self) -> PropertyWriteView {
        PropertyWriteView { property: self.property, value: self.value@ }
    }
}

/// What a list of writes says.
pub open spec fn written(writes: Seq<PropertyWrite>) -> Seq<PropertyWriteView> {
    writes.map_values(|write: PropertyWrite| write@)
}

/// A write of one number.
pub open spec fn number_write(property: SteamProperty, value: u32) -> PropertyWriteView {
    PropertyWriteView { property, value: PropertyValueView::Cardinals(seq![value]) }
}

/// A write of a list of numbers.
pub open spec fn list_write(property: SteamProperty, values: Seq<u32>) -> PropertyWriteView {
    PropertyWriteView { property, value: PropertyValueView::Cardinals(values) }
}

/// A write of a number, or of nothing.
pub open spec fn optional_write(property: SteamProperty, value: Option<u32>) -> PropertyWriteView {
    list_write(
        property,
        match value {
            Some(value) => seq![value],
            None => Seq::empty(),
        },
    )
}

/// A write of text.
pub open spec fn text_write(property: SteamProperty, text: Seq<char>) -> PropertyWriteView {
    PropertyWriteView { property, value: PropertyValueView::Text(text) }
}

fn push_list(writes: &mut Vec<PropertyWrite>, property: SteamProperty, values: &[u32])
    ensures
        written(final(writes)@) == written(old(writes)@).push(list_write(property, values@)),
{
    let copy: Vec<u32> = copy_list(values);
    writes.push(PropertyWrite { property, value: PropertyValue::Cardinals(copy) });
    assert(written(writes@) =~= written(old(writes)@).push(list_write(property, values@)));
}

fn copy_list(values: &[u32]) -> (copy: Vec<u32>)
    ensures
        copy@ == values@,
{
    let mut copy: Vec<u32> = Vec::new();
    let mut i: usize = 0;
    while i < values.len()
        invariant
            i <= values@.len(),
            copy@ == values@.take(i as int),
        decreases values@.len() - i,
    {
        copy.push(values[i]);
        i = i + 1;
    }
    copy
}

fn push_number(writes: &mut Vec<PropertyWrite>, property: SteamProperty, value: u32)
    ensures
        written(final(writes)@) == written(old(writes)@).push(number_write(property, value)),
{
    let mut values: Vec<u32> = Vec::new();
    values.push(value);
    assert(values@ =~= seq![value]);
    writes.push(PropertyWrite { property, value: PropertyValue::Cardinals(values) });
    assert(written(writes@) =~= written(old(writes)@).push(number_write(property, value)));
}

fn push_optional(writes: &mut Vec<PropertyWrite>, property: SteamProperty, value: Option<u32>)
    ensures
        written(final(writes)@) == written(old(writes)@).push(optional_write(property, value)),
{
    match value {
        Some(value) => {
            push_number(writes, property, value);
        },
        None => {
            let values: Vec<u32> = Vec::new();
            writes.push(PropertyWrite { property, value: PropertyValue::Cardinals(values) });
            assert(written(writes@) =~= written(old(writes)@).push(
                optional_write(property, value),
            ));
        },
    }
}

fn push_text(writes: &mut Vec<PropertyWrite>, property: SteamProperty, text: &str)
    ensures
        written(final(writes)@) == written(old(writes)@).push(text_write(property, text@)),
{
    writes.push(PropertyWrite { property, value: PropertyValue::Text(text.to_owned()) });
    assert(written(writes@) =~= written(old(writes)@).push(text_write(property, text@)));
}

/// Millihertz in whole hertz, rounded half up; zero for a negative rate.
pub open spec fn hertz_feedback(refresh_millihz: int) -> u32 {
    if refresh_millihz + 500 < 0 {
        0
    } else {
        ((refresh_millihz + 500) / 1000) as u32
    }
}

fn refresh_hertz(refresh_millihz: i32) -> (refresh_hz: u32)
    requires
        refresh_millihz + 500 <= i32::MAX,
    ensures
        refresh_hz == hertz_feedback(refresh_millihz as int),
{
    if refresh_millihz < -500 {
        0
    } else {
        (refresh_millihz + 500) as u32 / 1000
    }
}

/// The properties of a root window when the compositor takes it over.
pub open spec fn initial_writes(
    server_id: u32,
    pid: u32,
    refresh_millihz: int,
) -> Seq<PropertyWriteView> {
    seq![
        number_write(SteamProperty::XwaylandServerId, server_id),
        number_write(SteamProperty::GamescopePid, pid),
        number_write(SteamProperty::VrOverlayForwarding, 0),
        number_write(SteamProperty::VrrCapable, 0),
        number_write(SteamProperty::VrrEnabled, 0),
        number_write(SteamProperty::VrrFeedback, 0),
        number_write(SteamProperty::HdrCapable, 0),
        number_write(SteamProperty::HdrEnabled, 0),
        number_write(SteamProperty::FsrFeedback, 0),
        number_write(SteamProperty::InputCounter, 0),
        number_write(SteamProperty::DirectScanoutStatus, 1),
        number_write(SteamProperty::RefreshFeedback, hertz_feedback(refresh_millihz)),
    ]
}

/// The properties to write when a server connects.
#[must_use]
pub fn initial_properties(server_id: u32, pid: u32, refresh_millihz: i32) -> (writes: Vec<
    PropertyWrite,
>)
    requires
        refresh_millihz + 500 <= i32::MAX,
    ensures
        written(writes@) == initial_writes(server_id, pid, refresh_millihz as int),
{
    let mut writes: Vec<PropertyWrite> = Vec::new();
    push_number(&mut writes, SteamProperty::XwaylandServerId, server_id);
    push_number(&mut writes, SteamProperty::GamescopePid, pid);
    push_number(&mut writes, SteamProperty::VrOverlayForwarding, 0);
    push_number(&mut writes, SteamProperty::VrrCapable, 0);
    push_number(&mut writes, SteamProperty::VrrEnabled, 0);
    push_number(&mut writes, SteamProperty::VrrFeedback, 0);
    push_number(&mut writes, SteamProperty::HdrCapable, 0);
    push_number(&mut writes, SteamProperty::HdrEnabled, 0);
    push_number(&mut writes, SteamProperty::FsrFeedback, 0);
    push_number(&mut writes, SteamProperty::InputCounter, 0);
    push_number(&mut writes, SteamProperty::DirectScanoutStatus, 1);
    push_number(&mut writes, SteamProperty::RefreshFeedback, refresh_hertz(refresh_millihz));
    assert(written(writes@) =~= initial_writes(server_id, pid, refresh_millihz as int));
    writes
}

/// What the compositor says of focus.
#[derive(Debug, PartialEq, Eq)]
pub struct FocusPublication {
    pub focusable_apps: Vec<u32>,
    pub focusable_windows: Vec<u32>,
    pub focused_window: Option<u32>,
    pub focused_app: Option<u32>,
    pub focused_gfx_app: Option<u32>,
    pub focus_display: String,
    pub steam_mode: bool,
}

/// What a publication of focus says.
#[verifier::ext_equal]
pub struct FocusPublicationView {
    pub focusable_apps: Seq<u32>,
    pub focusable_windows: Seq<u32>,
    pub focused_window: Option<u32>,
    pub focused_app: Option<u32>,
    pub focused_gfx_app: Option<u32>,
    pub focus_display: Seq<char>,
    pub steam_mode: bool,
}

impl View for FocusPublication {
    type V = FocusPublicationView;

    open spec fn view(&self) -> FocusPublicationView {
        FocusPublicationView {
            focusable_apps: self.focusable_apps@,
            focusable_windows: self.focusable_windows@,
            focused_window: self.focused_window,
            focused_app: self.focused_app,
            focused_gfx_app: self.focused_gfx_app,
            focus_display: self.focus_display@,
            steam_mode: self.steam_mode,
        }
    }
}

impl FocusPublication {
    /// The writes that tell Steam of the focus. The focused apps are told in Steam mode
    /// only.
    pub open spec fn spec_writes(self) -> Seq<PropertyWriteView> {
        let apps = if self.steam_mode {
            seq![
                optional_write(SteamProperty::FocusedApp, self.focused_app),
                optional_write(SteamProperty::FocusedAppGfx, self.focused_gfx_app),
            ]
        } else {
            Seq::empty()
        };
        seq![
            list_write(SteamProperty::FocusableApps, self.focusable_apps@),
            list_write(SteamProperty::FocusableWindows, self.focusable_windows@),
            optional_write(SteamProperty::FocusedWindow, self.focused_window),
        ] + apps + seq![
            text_write(SteamProperty::FocusDisplay, self.focus_display@),
            text_write(SteamProperty::MouseFocusDisplay, self.focus_display@),
            text_write(SteamProperty::KeyboardFocusDisplay, self.focus_display@),
            optional_write(SteamProperty::NetActiveWindow, self.focused_window),
        ]
    }

    /// The properties that tell Steam of the focus.
    #[must_use]
    pub fn properties(&self) -> (writes: Vec<PropertyWrite>)
        ensures
            written(writes@) == self.spec_writes(),
    {
        let mut writes: Vec<PropertyWrite> = Vec::new();
        push_list(&mut writes, SteamProperty::FocusableApps, self.focusable_apps.as_slice());
        push_list(&mut writes, SteamProperty::FocusableWindows, self.focusable_windows.as_slice());
        push_optional(&mut writes, SteamProperty::FocusedWindow, self.focused_window);
        if self.steam_mode {
            push_optional(&mut writes, SteamProperty::FocusedApp, self.focused_app);
            push_optional(&mut writes, SteamProperty::FocusedAppGfx, self.focused_gfx_app);
        }
        push_text(&mut writes, SteamProperty::FocusDisplay, self.focus_display.as_str());
        push_text(&mut writes, SteamProperty::MouseFocusDisplay, self.focus_display.as_str());
        push_text(&mut writes, SteamProperty::KeyboardFocusDisplay, self.focus_display.as_str());
        push_optional(&mut writes, SteamProperty::NetActiveWindow, self.focused_window);
        assert(written(writes@) =~= self.spec_writes());
        writes
    }
}

/// The property that counts input events.
#[must_use]
pub fn input_counter_property(counter: u32) -> (writes: Vec<PropertyWrite>)
    ensures
        written(writes@) == seq![number_write(SteamProperty::InputCounter, counter)],
{
    let mut writes: Vec<PropertyWrite> = Vec::new();
    push_number(&mut writes, SteamProperty::InputCounter, counter);
    assert(written(writes@) =~= seq![number_write(SteamProperty::InputCounter, counter)]);
    writes
}

/// The property that tells how frames reach the screen.
#[must_use]
pub fn scanout_property(status: u32) -> (writes: Vec<PropertyWrite>)
    ensures
        written(writes@) == seq![number_write(SteamProperty::DirectScanoutStatus, status)],
{
    let mut writes: Vec<PropertyWrite> = Vec::new();
    push_number(&mut writes, SteamProperty::DirectScanoutStatus, status);
    assert(written(writes@) =~= seq![number_write(SteamProperty::DirectScanoutStatus, status)]);
    writes
}

/// The property that tells the refresh rate of the output.
#[must_use]
pub fn refresh_property(refresh_millihz: i32) -> (writes: Vec<PropertyWrite>)
    requires
        refresh_millihz + 500 <= i32::MAX,
    ensures
        written(writes@) == seq![
            number_write(SteamProperty::RefreshFeedback, hertz_feedback(refresh_millihz as int)),
        ],
{
    let mut writes: Vec<PropertyWrite> = Vec::new();
    push_number(&mut writes, SteamProperty::RefreshFeedback, refresh_hertz(refresh_millihz));
    assert(written(writes@) =~= seq![
        number_write(SteamProperty::RefreshFeedback, hertz_feedback(refresh_millihz as int)),
    ]);
    writes
}

/// Hardware feedback on variable refresh. Whether it is enabled is a request of Steam's
/// and not part of it.
#[derive(Clone, Copy, Debug, PartialEq, Eq, Structural)]
pub struct VrrFeedback {
    pub capable: bool,
    pub in_use: bool,
}

/// One or zero.
pub open spec fn flag(value: bool) -> u32 {
    if value {
        1
    } else {
        0
    }
}

/// The writes for hardware feedback: each of the two properties whose value differs from
/// what was last written.
pub open spec fn vrr_writes(
    last: Option<VrrFeedback>,
    feedback: VrrFeedback,
) -> Seq<PropertyWriteView> {
    (if last matches Some(last) && last.capable == feedback.capable {
        Seq::empty()
    } else {
        seq![number_write(SteamProperty::VrrCapable, flag(feedback.capable))]
    }) + (if last matches Some(last) && last.in_use == feedback.in_use {
        Seq::empty()
    } else {
        seq![number_write(SteamProperty::VrrFeedback, flag(feedback.in_use))]
    })
}

/// The properties for hardware feedback on variable refresh.
#[must_use]
pub fn vrr_properties(last: Option<VrrFeedback>, feedback: VrrFeedback) -> (writes: Vec<
    PropertyWrite,
>)
    ensures
        written(writes@) == vrr_writes(last, feedback),
{
    let mut writes: Vec<PropertyWrite> = Vec::new();
    let (same_capable, same_in_use) = match last {
        Some(last) => (last.capable == feedback.capable, last.in_use == feedback.in_use),
        None => (false, false),
    };
    if !same_capable {
        push_number(
            &mut writes,
            SteamProperty::VrrCapable,
            if feedback.capable {
                1
            } else {
                0
            },
        );
    }
    if !same_in_use {
        push_number(
            &mut writes,
            SteamProperty::VrrFeedback,
            if feedback.in_use {
                1
            } else {
                0
            },
        );
    }
    assert(written(writes@) =~= vrr_writes(last, feedback));
    writes
}

/// Hardware feedback never writes the property by which Steam asks for variable refresh,
/// and feedback that says nothing new writes nothing at all.
pub proof fn lemma_vrr_feedback_closes_no_loop(
    last: Option<VrrFeedback>,
    feedback: VrrFeedback,
    i: int,
)
    ensures
        0 <= i < vrr_writes(last, feedback).len() ==> vrr_writes(last, feedback)[i].property
            != SteamProperty::VrrEnabled,
        last == Some(feedback) ==> vrr_writes(last, feedback).len() == 0,
{
}

/// The text that answers a request for another Xwayland server.
pub open spec fn create_feedback_text(
    identifier: u32,
    server_id: u32,
    display_name: Seq<char>,
) -> Seq<char> {
    text::decimal(identifier as nat) + seq![' '] + text::decimal(server_id as nat) + seq![' ']
        + display_name
}

/// The property that answers a request for another Xwayland server.
#[must_use]
pub fn create_feedback_property(identifier: u32, server_id: u32, display_name: &str) -> (writes:
    Vec<PropertyWrite>)
    ensures
        written(writes@) == seq![
            text_write(
                SteamProperty::CreateXwaylandFeedback,
                create_feedback_text(identifier, server_id, display_name@),
            ),
        ],
{
    let mut text = String::new();
    push_decimal(&mut text, identifier as u64);
    text.push(' ');
    push_decimal(&mut text, server_id as u64);
    text.push(' ');
    text.append(display_name);
    assert(text@ =~= create_feedback_text(identifier, server_id, display_name@));
    let mut writes: Vec<PropertyWrite> = Vec::new();
    push_text(&mut writes, SteamProperty::CreateXwaylandFeedback, text.as_str());
    assert(written(writes@) =~= seq![
        text_write(
            SteamProperty::CreateXwaylandFeedback,
            create_feedback_text(identifier, server_id, display_name@),
        ),
    ]);
    writes
}

/// The name of a display.
pub open spec fn display_text(display_number: u32) -> Seq<char> {
    seq![':'] + text::decimal(display_number as nat)
}

/// A display is named by a colon and its number.
#[must_use]
pub fn display_name(display_number: u32) -> (name: String)
    ensures
        name@ == display_text(display_number),
{
    let mut name = String::new();
    name.push(':');
    push_decimal(&mut name, display_number as u64);
    assert(name@ =~= display_text(display_number));
    name
}

/// The names under which Steam and the compositor know the properties, and that each of them
/// is asked for.
pub proof fn lemma_properties_have_agreed_names(property: SteamProperty)
    ensures
        SteamProperty::spec_all().contains(property),
        match property {
            SteamProperty::Utf8String => property.spec_name() == "UTF8_STRING"@,
            SteamProperty::SteamGame => property.spec_name() == "STEAM_GAME"@,
            SteamProperty::SteamBigPicture => property.spec_name() == "STEAM_BIGPICTURE"@,
            SteamProperty::SteamOverlay => property.spec_name() == "STEAM_OVERLAY"@,
            SteamProperty::ExternalOverlay => property.spec_name() == "GAMESCOPE_EXTERNAL_OVERLAY"@,
            SteamProperty::SteamInputFocus => property.spec_name() == "STEAM_INPUT_FOCUS"@,
            SteamProperty::SteamStreamingClient => property.spec_name()
                == "STEAM_STREAMING_CLIENT"@,
            SteamProperty::SteamStreamingClientVideo => property.spec_name()
                == "STEAM_STREAMING_CLIENT_VIDEO"@,
            SteamProperty::NetWmOpacity => property.spec_name() == "_NET_WM_WINDOW_OPACITY"@,
            SteamProperty::GamesRunning => property.spec_name() == "STEAM_GAMES_RUNNING"@,
            SteamProperty::ScreenScale => property.spec_name() == "STEAM_SCREEN_SCALE"@,
            SteamProperty::ScreenMagnification => property.spec_name()
                == "STEAM_SCREEN_MAGNIFICATION"@,
            SteamProperty::SteamMaxHeight => property.spec_name() == "GAMESCOPE_STEAM_MAX_HEIGHT"@,
            SteamProperty::FpsLimit => property.spec_name() == "GAMESCOPE_FPS_LIMIT"@,
            SteamProperty::FocusControlAppIds => property.spec_name()
                == "GAMESCOPECTRL_BASELAYER_APPID"@,
            SteamProperty::FocusControlWindow => property.spec_name()
                == "GAMESCOPECTRL_BASELAYER_WINDOW"@,
            SteamProperty::FocusableApps => property.spec_name() == "GAMESCOPE_FOCUSABLE_APPS"@,
            SteamProperty::FocusableWindows => property.spec_name()
                == "GAMESCOPE_FOCUSABLE_WINDOWS"@,
            SteamProperty::FocusedApp => property.spec_name() == "GAMESCOPE_FOCUSED_APP"@,
            SteamProperty::FocusedAppGfx => property.spec_name() == "GAMESCOPE_FOCUSED_APP_GFX"@,
            SteamProperty::FocusedWindow => property.spec_name() == "GAMESCOPE_FOCUSED_WINDOW"@,
            SteamProperty::FocusDisplay => property.spec_name() == "GAMESCOPE_FOCUS_DISPLAY"@,
            SteamProperty::MouseFocusDisplay => property.spec_name()
                == "GAMESCOPE_MOUSE_FOCUS_DISPLAY"@,
            SteamProperty::KeyboardFocusDisplay => property.spec_name()
                == "GAMESCOPE_KEYBOARD_FOCUS_DISPLAY"@,
            SteamProperty::XwaylandServerId => property.spec_name()
                == "GAMESCOPE_XWAYLAND_SERVER_ID"@,
            SteamProperty::GamescopePid => property.spec_name() == "GAMESCOPE_PID"@,
            SteamProperty::VrOverlayForwarding => property.spec_name()
                == "GAMESCOPE_VROVERLAY_FORWARDING"@,
            SteamProperty::VrrCapable => property.spec_name() == "GAMESCOPE_VRR_CAPABLE"@,
            SteamProperty::VrrEnabled => property.spec_name() == "GAMESCOPE_VRR_ENABLED"@,
            SteamProperty::VrrFeedback => property.spec_name() == "GAMESCOPE_VRR_FEEDBACK"@,
            SteamProperty::HdrCapable => property.spec_name() == "GAMESCOPE_DISPLAY_SUPPORTS_HDR"@,
            SteamProperty::HdrEnabled => property.spec_name() == "GAMESCOPE_DISPLAY_HDR_ENABLED"@,
            SteamProperty::RefreshFeedback => property.spec_name()
                == "GAMESCOPE_DISPLAY_REFRESH_RATE_FEEDBACK"@,
            SteamProperty::FsrFeedback => property.spec_name() == "GAMESCOPE_FSR_FEEDBACK"@,
            SteamProperty::InputCounter => property.spec_name() == "GAMESCOPE_INPUT_COUNTER"@,
            SteamProperty::DirectScanoutStatus => property.spec_name()
                == "GAMESCOPE_DIRECT_SCANOUT_STATUS"@,
            SteamProperty::CreateXwayland => property.spec_name()
                == "GAMESCOPE_CREATE_XWAYLAND_SERVER"@,
            SteamProperty::CreateXwaylandFeedback => property.spec_name()
                == "GAMESCOPE_CREATE_XWAYLAND_SERVER_FEEDBACK"@,
            SteamProperty::DestroyXwayland => property.spec_name()
                == "GAMESCOPE_DESTROY_XWAYLAND_SERVER"@,
            SteamProperty::DisplayForceInternal => property.spec_name()
                == "GAMESCOPE_DISPLAY_FORCE_INTERNAL"@,
            SteamProperty::DisplayModeNudge => property.spec_name()
                == "GAMESCOPE_DISPLAY_MODE_NUDGE"@,
            SteamProperty::DynamicRefreshInternal => property.spec_name()
                == "GAMESCOPE_DYNAMIC_REFRESH"@,
            SteamProperty::DynamicRefreshExternal => property.spec_name()
                == "GAMESCOPE_DYNAMIC_REFRESH_EXTERNAL"@,
            SteamProperty::CompositeForce => property.spec_name() == "GAMESCOPE_COMPOSITE_FORCE"@,
            SteamProperty::NetActiveWindow => property.spec_name() == "_NET_ACTIVE_WINDOW"@,
        },
{
    let all = SteamProperty::spec_all();
    match property {
        SteamProperty::Utf8String => assert(all[0] == property),
        SteamProperty::SteamGame => assert(all[1] == property),
        SteamProperty::SteamBigPicture => assert(all[2] == property),
        SteamProperty::SteamOverlay => assert(all[3] == property),
        SteamProperty::ExternalOverlay => assert(all[4] == property),
        SteamProperty::SteamInputFocus => assert(all[5] == property),
        SteamProperty::SteamStreamingClient => assert(all[6] == property),
        SteamProperty::SteamStreamingClientVideo => assert(all[7] == property),
        SteamProperty::NetWmOpacity => assert(all[8] == property),
        SteamProperty::GamesRunning => assert(all[9] == property),
        SteamProperty::ScreenScale => assert(all[10] == property),
        SteamProperty::ScreenMagnification => assert(all[11] == property),
        SteamProperty::SteamMaxHeight => assert(all[12] == property),
        SteamProperty::FpsLimit => assert(all[13] == property),
        SteamProperty::FocusControlAppIds => assert(all[14] == property),
        SteamProperty::FocusControlWindow => assert(all[15] == property),
        SteamProperty::FocusableApps => assert(all[16] == property),
        SteamProperty::FocusableWindows => assert(all[17] == property),
        SteamProperty::FocusedApp => assert(all[18] == property),
        SteamProperty::FocusedAppGfx => assert(all[19] == property),
        SteamProperty::FocusedWindow => assert(all[20] == property),
        SteamProperty::FocusDisplay => assert(all[21] == property),
        SteamProperty::MouseFocusDisplay => assert(all[22] == property),
        SteamProperty::KeyboardFocusDisplay => assert(all[23] == property),
        SteamProperty::XwaylandServerId => assert(all[24] == property),
        SteamProperty::GamescopePid => assert(all[25] == property),
        SteamProperty::VrOverlayForwarding => assert(all[26] == property),
        SteamProperty::VrrCapable => assert(all[27] == property),
        SteamProperty::VrrEnabled => assert(all[28] == property),
        SteamProperty::VrrFeedback => assert(all[29] == property),
        SteamProperty::HdrCapable => assert(all[30] == property),
        SteamProperty::HdrEnabled => assert(all[31] == property),
        SteamProperty::RefreshFeedback => assert(all[32] == property),
        SteamProperty::FsrFeedback => assert(all[33] == property),
        SteamProperty::InputCounter => assert(all[34] == property),
        SteamProperty::DirectScanoutStatus => assert(all[35] == property),
        SteamProperty::CreateXwayland => assert(all[36] == property),
        SteamProperty::CreateXwaylandFeedback => assert(all[37] == property),
        SteamProperty::DestroyXwayland => assert(all[38] == property),
        SteamProperty::DisplayForceInternal => assert(all[39] == property),
        SteamProperty::DisplayModeNudge => assert(all[40] == property),
        SteamProperty::DynamicRefreshInternal => assert(all[41] == property),
        SteamProperty::DynamicRefreshExternal => assert(all[42] == property),
        SteamProperty::CompositeForce => assert(all[43] == property),
        SteamProperty::NetActiveWindow => assert(all[44] == property),
    }
}

/// The properties that describe windows: those that say what a window is for, and its
/// opacity.
pub proof fn lemma_window_properties_are_told_apart(property: SteamProperty)
    ensures
        property.on_windows() <==> (property is SteamGame || property is SteamBigPicture
            || property is SteamOverlay || property is ExternalOverlay || property
            is SteamInputFocus || property is SteamStreamingClient || property
            is SteamStreamingClientVideo || property is NetWmOpacity),
{
}

/// What Steam asks for by writing to the root window. Numbers are passed on as they are, with
/// zero for a property that is gone; switches are on for any value but zero; a server is
/// created only for an identifier and destroyed only when one is named. What the compositor
/// itself writes asks for nothing.
pub proof fn lemma_root_properties_are_requests(value: Option<u32>, number: u32)
    ensures
        SteamProperty::FocusControlAppIds.root_event(value) == Some(
            BridgeEvent::FocusControlChanged,
        ),
        SteamProperty::FocusControlWindow.root_event(value) == Some(
            BridgeEvent::FocusControlChanged,
        ),
        SteamProperty::CreateXwayland.root_event(None) is None,
        SteamProperty::CreateXwayland.root_event(Some(0)) is None,
        number != 0 ==> SteamProperty::CreateXwayland.root_event(Some(number)) == Some(
            BridgeEvent::CreateXwayland(number),
        ),
        SteamProperty::DestroyXwayland.root_event(None) is None,
        SteamProperty::DestroyXwayland.root_event(Some(number)) == Some(
            BridgeEvent::DestroyXwayland(number),
        ),
        SteamProperty::GamesRunning.root_event(Some(number)) == Some(
            BridgeEvent::GamesRunningChanged(number),
        ),
        SteamProperty::GamesRunning.root_event(None) == Some(BridgeEvent::GamesRunningChanged(0)),
        SteamProperty::SteamMaxHeight.root_event(Some(number)) == Some(
            BridgeEvent::SteamMaxHeightChanged(number),
        ),
        SteamProperty::SteamMaxHeight.root_event(None) == Some(
            BridgeEvent::SteamMaxHeightChanged(0),
        ),
        SteamProperty::FpsLimit.root_event(Some(number)) == Some(
            BridgeEvent::FpsLimitChanged(number),
        ),
        SteamProperty::FpsLimit.root_event(None) == Some(BridgeEvent::FpsLimitChanged(0)),
        SteamProperty::ScreenScale.root_event(value) == Some(BridgeEvent::ScreenScaleChanged),
        SteamProperty::ScreenMagnification.root_event(value) == Some(
            BridgeEvent::ScreenScaleChanged,
        ),
        SteamProperty::VrrEnabled.root_event(Some(number)) == Some(
            BridgeEvent::VrrEnabledChanged(number != 0),
        ),
        SteamProperty::VrrEnabled.root_event(None) == Some(BridgeEvent::VrrEnabledChanged(false)),
        SteamProperty::DisplayForceInternal.root_event(Some(number)) == Some(
            BridgeEvent::DisplayForceInternalChanged(number != 0),
        ),
        SteamProperty::DisplayForceInternal.root_event(None) == Some(
            BridgeEvent::DisplayForceInternalChanged(false),
        ),
        SteamProperty::DisplayModeNudge.root_event(value) == Some(BridgeEvent::DisplayModeNudge),
        SteamProperty::DynamicRefreshInternal.root_event(Some(number)) == Some(
            BridgeEvent::DynamicRefreshChanged { screen: ScreenType::Internal, refresh_hz: number },
        ),
        SteamProperty::DynamicRefreshInternal.root_event(None) == Some(
            BridgeEvent::DynamicRefreshChanged { screen: ScreenType::Internal, refresh_hz: 0 },
        ),
        SteamProperty::DynamicRefreshExternal.root_event(Some(number)) == Some(
            BridgeEvent::DynamicRefreshChanged { screen: ScreenType::External, refresh_hz: number },
        ),
        SteamProperty::DynamicRefreshExternal.root_event(None) == Some(
            BridgeEvent::DynamicRefreshChanged { screen: ScreenType::External, refresh_hz: 0 },
        ),
        SteamProperty::CompositeForce.root_event(Some(number)) == Some(
            BridgeEvent::CompositeForceChanged(number != 0),
        ),
        SteamProperty::CompositeForce.root_event(None) == Some(
            BridgeEvent::CompositeForceChanged(false),
        ),
        SteamProperty::VrrFeedback.root_event(value) is None,
        SteamProperty::VrrCapable.root_event(value) is None,
        SteamProperty::InputCounter.root_event(value) is None,
        SteamProperty::RefreshFeedback.root_event(value) is None,
        SteamProperty::FocusedApp.root_event(value) is None,
        SteamProperty::FocusedWindow.root_event(value) is None,
{
}

/// The rate that Steam is told is the one in whole hertz that is nearest.
pub proof fn lemma_feedback_is_the_nearest_rate(refresh_millihz: i32)
    ensures
        refresh_millihz >= 0 ==> -500 <= refresh_millihz - 1000 * hertz_feedback(
            refresh_millihz as int,
        ) < 500,
        refresh_millihz < -500 ==> hertz_feedback(refresh_millihz as int) == 0,
{
}

/// What Steam is told of focus: the lists as they are, the focused window both under Steam's
/// name and under the desktop's, the display under all three names, and the focused app in
/// Steam mode only. Something that is not there is written as nothing.
pub proof fn lemma_focus_is_published(publication: FocusPublication)
    ensures
        ({
            let writes = publication.spec_writes();
            let steam = if publication.steam_mode {
                2int
            } else {
                0
            };
            &&& writes.len() == 7 + steam
            &&& writes[0].property is FocusableApps && writes[0].value
                == PropertyValueView::Cardinals(publication.focusable_apps@)
            &&& writes[1].property is FocusableWindows && writes[1].value
                == PropertyValueView::Cardinals(publication.focusable_windows@)
            &&& writes[2].property is FocusedWindow && tells(
                writes[2],
                publication.focused_window,
            )
            &&& publication.steam_mode ==> writes[3].property is FocusedApp && tells(
                writes[3],
                publication.focused_app,
            )
            &&& publication.steam_mode ==> writes[4].property is FocusedAppGfx && tells(
                writes[4],
                publication.focused_gfx_app,
            )
            &&& writes[3 + steam].property is FocusDisplay && writes[3 + steam].value
                == PropertyValueView::Text(publication.focus_display@)
            &&& writes[4 + steam].property is MouseFocusDisplay && writes[4 + steam].value
                == PropertyValueView::Text(publication.focus_display@)
            &&& writes[5 + steam].property is KeyboardFocusDisplay && writes[5 + steam].value
                == PropertyValueView::Text(publication.focus_display@)
            &&& writes[6 + steam].property is NetActiveWindow && tells(
                writes[6 + steam],
                publication.focused_window,
            )
        }),
{
}

/// Whether a write tells a number, or an empty list when there is none.
pub open spec fn tells(write: PropertyWriteView, number: Option<u32>) -> bool {
    match number {
        Some(number) => write.value == PropertyValueView::Cardinals(seq![number]),
        None => write.value == PropertyValueView::Cardinals(Seq::<u32>::empty()),
    }
}

/// What Steam is told of variable refresh: whatever differs from what it was told last, and
/// all of it at first.
pub proof fn lemma_vrr_changes_are_written(last: Option<VrrFeedback>, feedback: VrrFeedback)
    ensures
        ({
            let writes = vrr_writes(last, feedback);
            let capable = last is None || last.unwrap().capable != feedback.capable;
            let in_use = last is None || last.unwrap().in_use != feedback.in_use;
            &&& capable ==> writes.len() > 0 && writes[0].property is VrrCapable && tells(
                writes[0],
                Some(
                    if feedback.capable {
                        1
                    } else {
                        0
                    },
                ),
            )
            &&& in_use ==> writes.len() > 0 && writes.last().property is VrrFeedback && tells(
                writes.last(),
                Some(
                    if feedback.in_use {
                        1
                    } else {
                        0
                    },
                ),
            )
            &&& writes.len() == (if capable {
                1int
            } else {
                0
            }) + (if in_use {
                1int
            } else {
                0
            })
        }),
{
}

/// What a server is told at first: who it is and who runs it, the rate of the output, that
/// frames are composed, and that nothing else is there yet.
pub proof fn lemma_servers_start_plain(server_id: u32, pid: u32, refresh_millihz: int, i: int)
    requires
        0 <= i < initial_writes(server_id, pid, refresh_millihz).len(),
    ensures
        initial_writes(server_id, pid, refresh_millihz).len() == 12,
        ({
            let write = initial_writes(server_id, pid, refresh_millihz)[i];
            match write.property {
                SteamProperty::XwaylandServerId => tells(write, Some(server_id)),
                SteamProperty::GamescopePid => tells(write, Some(pid)),
                SteamProperty::RefreshFeedback => tells(
                    write,
                    Some(hertz_feedback(refresh_millihz)),
                ),
                SteamProperty::DirectScanoutStatus => tells(write, Some(1)),
                SteamProperty::VrOverlayForwarding
                | SteamProperty::VrrCapable
                | SteamProperty::VrrEnabled
                | SteamProperty::VrrFeedback
                | SteamProperty::HdrCapable
                | SteamProperty::HdrEnabled
                | SteamProperty::FsrFeedback
                | SteamProperty::InputCounter => tells(write, Some(0)),
                _ => false,
            }
        }),
{
}

/// The property with an atom is that of the first entry with the atom, and the atom of a
/// property that of the first entry with the property; what has no entry is not known.
pub proof fn lemma_atoms_are_looked_up(atoms: SteamAtoms, atom: u32, property: SteamProperty)
    ensures
        ({
            let found = lists::first_index(atoms.entries@, has_property(property));
            let at = lists::first_index(atoms.entries@, has_atom(atom));
            &&& 0 <= at <= atoms.entries@.len()
            &&& forall|i: int| 0 <= i < at ==> (#[trigger] atoms.entries@[i]).atom != atom
            &&& at < atoms.entries@.len() ==> atoms.entries@[at].atom == atom
                && atoms.spec_property(atom) == Some(atoms.entries@[at].property)
            &&& at == atoms.entries@.len() ==> atoms.spec_property(atom) is None
            &&& 0 <= found <= atoms.entries@.len()
            &&& found < atoms.entries@.len() ==> atoms.entries@[found].property == property
            &&& forall|i: int|
                0 <= i < found ==> (#[trigger] atoms.entries@[i]).property != property
        }),
{
    lists::lemma_first_index_found(atoms.entries@, has_atom(atom));
    lists::lemma_first_index_found(atoms.entries@, has_property(property));
    assert forall|i: int| 0 <= i < lists::first_index(atoms.entries@, has_atom(atom)) implies (
    #[trigger] atoms.entries@[i]).atom != atom by {
        assert(!has_atom(atom)(atoms.entries@[i]));
    }
    assert forall|i: int|
        0 <= i < lists::first_index(atoms.entries@, has_property(property)) implies (
    #[trigger] atoms.entries@[i]).property != property by {
        assert(!has_property(property)(atoms.entries@[i]));
    }
}

} // verus!
