//! Control of the display hardware.
//!
//! The device belongs to a worker. The compositor leaves requests and frame snapshots in a
//! mailbox and never waits; the worker takes them up and answers with events.

use vstd::prelude::*;

use crate::control::{DisplayPowerOperation, RefreshCycleOverride, ScreenType};
use crate::window_policy::RenderLayer;

verus! {

/// A cursor image and where its hotspot is: the bit patterns of two binary64 coordinates.
#[derive(Clone, Copy, Debug, PartialEq, Eq, Structural)]
pub struct CursorLayer {
    pub surface: u64,
    pub x: u64,
    pub y: u64,
}

/// One immutable compositor snapshot. Only the newest unpublished snapshot is retained,
/// which bounds memory and keeps obsolete frames from holding up new ones.
#[derive(Clone, Debug, PartialEq, Eq)]
pub struct HardwareFrame {
    pub id: u64,
    pub layers: Vec<RenderLayer>,
    pub cursor: Option<CursorLayer>,
}

/// What is on the primary plane.
#[derive(Clone, Copy, Debug, PartialEq, Eq, Structural)]
pub enum DirectScanoutStatus {
    /// A client buffer.
    Active,
    /// Composition, because direct scanout is switched off.
    Unavailable,
    /// Composition, because the format or modifier of the client buffer is unsupported.
    UnsupportedFormat,
    /// Composition, because the atomic test failed.
    TestFailed,
    /// Composition, because policy requires it.
    CompositionRequired,
}

impl DirectScanoutStatus {
    pub open spec fn number(self) -> u32 {
        match self {
            DirectScanoutStatus::Active => 0,
            DirectScanoutStatus::Unavailable => 1,
            DirectScanoutStatus::UnsupportedFormat => 2,
            DirectScanoutStatus::TestFailed => 3,
            DirectScanoutStatus::CompositionRequired => 4,
        }
    }

    /// The number that Steam is told.
    #[must_use]
    pub fn code(self) -> (code: u32)
        ensures
            code == self.number(),
    {
        match self {
            DirectScanoutStatus::Active => 0,
            DirectScanoutStatus::Unavailable => 1,
            DirectScanoutStatus::UnsupportedFormat => 2,
            DirectScanoutStatus::TestFailed => 3,
            DirectScanoutStatus::CompositionRequired => 4,
        }
    }
}

/// Set in a packed request that was made.
pub const REFRESH_REQUEST_VALID: u64 = 0x8000_0000_0000_0000;

/// Set in a packed request that allows another refresh rate.
pub const REFRESH_ALLOW_SWITCHING: u64 = 0x1_0000_0000;

/// Set in a packed request that limits frames.
pub const REFRESH_APPLY_LIMITER: u64 = 0x2_0000_0000;

/// A request in one number, without its screen.
pub open spec fn packed_refresh(request: RefreshCycleOverride) -> u64 {
    (REFRESH_REQUEST_VALID + request.frames_per_second
        + if request.allow_refresh_switching {
        REFRESH_ALLOW_SWITCHING as int
    } else {
        0
    } + if request.apply_frame_limiter {
        REFRESH_APPLY_LIMITER as int
    } else {
        0
    }) as u64
}

/// The request that a number stands for.
pub open spec fn unpacked_refresh(screen: ScreenType, packed: u64) -> Option<RefreshCycleOverride> {
    if packed >= REFRESH_REQUEST_VALID {
        Some(
            RefreshCycleOverride {
                screen,
                frames_per_second: (packed % 0x1_0000_0000) as u32,
                allow_refresh_switching: packed / REFRESH_ALLOW_SWITCHING % 2 == 1,
                apply_frame_limiter: packed / REFRESH_APPLY_LIMITER % 2 == 1,
            },
        )
    } else {
        None
    }
}

/// Put a request into one number, without its screen.
#[must_use]
pub fn pack_refresh(request: RefreshCycleOverride) -> (packed: u64)
    ensures
        packed == packed_refresh(request),
{
    let switching: u64 = if request.allow_refresh_switching {
        REFRESH_ALLOW_SWITCHING
    } else {
        0
    };
    let limiter: u64 = if request.apply_frame_limiter {
        REFRESH_APPLY_LIMITER
    } else {
        0
    };
    REFRESH_REQUEST_VALID + request.frames_per_second as u64 + switching + limiter
}

/// The request that a number stands for; `None` when none was made.
#[must_use]
pub fn unpack_refresh(screen: ScreenType, packed: u64) -> (request: Option<RefreshCycleOverride>)
    ensures
        request == unpacked_refresh(screen, packed),
{
    if packed >= REFRESH_REQUEST_VALID {
        Some(
            RefreshCycleOverride {
                screen,
                frames_per_second: (packed % 0x1_0000_0000) as u32,
                allow_refresh_switching: packed / REFRESH_ALLOW_SWITCHING % 2 == 1,
                apply_frame_limiter: packed / REFRESH_APPLY_LIMITER % 2 == 1,
            },
        )
    } else {
        None
    }
}

/// A packed request reads back as it was.
pub proof fn lemma_refresh_request_round_trip(request: RefreshCycleOverride)
    ensures
        unpacked_refresh(request.screen, packed_refresh(request)) == Some(request),
{
}

/// One value for each display group.
#[derive(Debug, PartialEq, Eq, Structural)]
pub struct PerScreen<T> {
    pub internal: T,
    pub external: T,
}

impl<T> PerScreen<T> {
    pub open spec fn of(self, screen: ScreenType) -> T {
        match screen {
            ScreenType::Internal => self.internal,
            ScreenType::External => self.external,
        }
    }

    pub open spec fn with(self, screen: ScreenType, value: T) -> PerScreen<T> {
        match screen {
            ScreenType::Internal => PerScreen { internal: value, external: self.external },
            ScreenType::External => PerScreen { internal: self.internal, external: value },
        }
    }
}

impl<T: Copy> PerScreen<T> {
    /// The value for a display group.
    #[must_use]
    pub fn get(&self, screen: ScreenType) -> (value: T)
        ensures
            value == self.of(screen),
    {
        match screen {
            ScreenType::Internal => self.internal,
            ScreenType::External => self.external,
        }
    }

    /// Replace the value for a display group.
    pub fn set(&mut self, screen: ScreenType, value: T)
        ensures
            *final(self) == old(self).with(screen, value),
    {
        match screen {
            ScreenType::Internal => {
                self.internal = value;
            },
            ScreenType::External => {
                self.external = value;
            },
        }
    }
}

/// A value that is set for one display group leaves that of the other alone.
pub proof fn lemma_screens_are_isolated<T>(values: PerScreen<T>, screen: ScreenType, value: T)
    ensures
        values.with(screen, value).of(screen) == value,
        forall|other: ScreenType|
            other != screen ==> #[trigger] values.with(screen, value).of(other) == values.of(other),
{
}

/// What waits for the worker. Every request replaces the one before it.
#[derive(Debug, PartialEq, Eq)]
pub struct HardwareControl {
    pub latest_frame: Option<HardwareFrame>,
    pub paused: bool,
    pub rescan: bool,
    pub force_modeset: bool,
    pub shutdown: bool,
    /// Wish for variable refresh; taken once.
    pub vrr: Option<bool>,
    /// Packed refresh-cycle requests.
    pub refresh: PerScreen<u64>,
    /// Whether displays are to sleep.
    pub sleep: PerScreen<Option<bool>>,
    /// Whether only built-in displays are to be used.
    pub force_internal: Option<bool>,
    /// Packed wishes for refresh rates.
    pub dynamic_refresh: PerScreen<u64>,
    /// Whether composition is required.
    pub composite_force: Option<bool>,
}

impl Default for HardwareControl {
    fn default() -> (control: Self)
        ensures
            control == (HardwareControl {
                latest_frame: None,
                paused: false,
                rescan: false,
                force_modeset: false,
                shutdown: false,
                vrr: None,
                refresh: PerScreen { internal: 0, external: 0 },
                sleep: PerScreen { internal: None, external: None },
                force_internal: None,
                dynamic_refresh: PerScreen { internal: 0, external: 0 },
                composite_force: None,
            }),
    {
        Self {
            latest_frame: None,
            paused: false,
            rescan: false,
            force_modeset: false,
            shutdown: false,
            vrr: None,
            refresh: PerScreen { internal: 0, external: 0 },
            sleep: PerScreen { internal: None, external: None },
            force_internal: None,
            dynamic_refresh: PerScreen { internal: 0, external: 0 },
            composite_force: None,
        }
    }
}

impl HardwareControl {
    /// Replace the unpublished frame. Returns the id of an older frame that was coalesced,
    /// if one existed.
    pub fn submit(&mut self, frame: HardwareFrame) -> (replaced: Option<u64>)
        ensures
            replaced == (match old(self).latest_frame {
                Some(older) => Some(older.id),
                None => None,
            }),
            *final(self) == (HardwareControl { latest_frame: Some(frame), ..*old(self) }),
    {
        let replaced: Option<u64> = match &self.latest_frame {
            Some(older) => Some(older.id),
            None => None,
        };
        self.latest_frame = Some(frame);
        replaced
    }

    /// Leave the device alone.
    pub fn pause(&mut self)
        ensures
            *final(self) == (HardwareControl { paused: true, ..*old(self) }),
    {
        self.paused = true;
    }

    /// Use the device again.
    pub fn resume(&mut self)
        ensures
            *final(self) == (HardwareControl { paused: false, ..*old(self) }),
    {
        self.paused = false;
    }

    /// Look at the connectors again.
    pub fn rescan(&mut self)
        ensures
            *final(self) == (HardwareControl { rescan: true, ..*old(self) }),
    {
        self.rescan = true;
    }

    /// Set the mode anew.
    pub fn nudge_modeset(&mut self)
        ensures
            *final(self) == (HardwareControl { force_modeset: true, rescan: true, ..*old(self) }),
    {
        self.force_modeset = true;
        self.rescan();
    }

    /// Ask for variable refresh, or for a fixed one.
    pub fn set_vrr(&mut self, enabled: bool)
        ensures
            *final(self) == (HardwareControl { vrr: Some(enabled), ..*old(self) }),
    {
        self.vrr = Some(enabled);
    }

    /// Ask for a refresh cycle on the displays of a group.
    pub fn set_refresh_cycle(&mut self, request: RefreshCycleOverride)
        ensures
            *final(self) == (HardwareControl {
                refresh: old(self).refresh.with(request.screen, packed_refresh(request)),
                ..*old(self)
            }),
    {
        self.refresh.set(request.screen, pack_refresh(request));
    }

    /// Ask the displays of a group to sleep or to wake.
    pub fn set_display_power(&mut self, operation: DisplayPowerOperation)
        ensures
            *final(self) == (HardwareControl {
                sleep: old(self).sleep.with(operation.screen, Some(operation.sleep)),
                ..*old(self)
            }),
    {
        self.sleep.set(operation.screen, Some(operation.sleep));
    }

    /// Use built-in displays only, or any.
    pub fn set_force_internal(&mut self, force: bool)
        ensures
            *final(self) == (HardwareControl {
                force_internal: Some(force),
                rescan: true,
                ..*old(self)
            }),
    {
        self.force_internal = Some(force);
        self.rescan();
    }

    /// Ask for a refresh rate on the displays of a group; zero for the rate of the selected
    /// mode.
    pub fn set_dynamic_refresh(&mut self, screen: ScreenType, refresh_hz: u32)
        ensures
            *final(self) == (HardwareControl {
                dynamic_refresh: old(self).dynamic_refresh.with(
                    screen,
                    (REFRESH_REQUEST_VALID + refresh_hz) as u64,
                ),
                ..*old(self)
            }),
    {
        self.dynamic_refresh.set(screen, REFRESH_REQUEST_VALID + refresh_hz as u64);
    }

    /// Require composition, or let client buffers go to the primary plane.
    pub fn set_composite_force(&mut self, force: bool)
        ensures
            *final(self) == (HardwareControl { composite_force: Some(force), ..*old(self) }),
    {
        self.composite_force = Some(force);
    }

    /// End the worker.
    pub fn shut_down(&mut self)
        ensures
            *final(self) == (HardwareControl { shutdown: true, ..*old(self) }),
    {
        self.shutdown = true;
    }

    /// A change of the device: it reports new connectors, goes, or comes back.
    pub fn device_changed(&mut self, change: DeviceChange)
        ensures
            *final(self) == (match change {
                DeviceChange::Changed => HardwareControl { rescan: true, ..*old(self) },
                DeviceChange::Removed => HardwareControl { paused: true, ..*old(self) },
                DeviceChange::Added => HardwareControl {
                    paused: false,
                    rescan: true,
                    ..*old(self)
                },
            }),
    {
        match change {
            DeviceChange::Changed => {
                self.rescan();
            },
            DeviceChange::Removed => {
                self.pause();
            },
            DeviceChange::Added => {
                self.resume();
                self.rescan();
            },
        }
    }
}

/// What can happen to the display device.
#[derive(Clone, Copy, Debug, PartialEq, Eq, Structural)]
pub enum DeviceChange {
    Changed,
    Removed,
    Added,
}

/// Each display group has its own value, each status its own number, and a number without a
/// request stands for none.
pub proof fn lemma_screens_and_statuses_are_told_apart<T>(
    values: PerScreen<T>,
    value: T,
    left: DirectScanoutStatus,
    right: DirectScanoutStatus,
)
    ensures
        values.of(ScreenType::Internal) == values.internal,
        values.of(ScreenType::External) == values.external,
        values.with(ScreenType::Internal, value) == (PerScreen { internal: value, ..values }),
        values.with(ScreenType::External, value) == (PerScreen { external: value, ..values }),
        left.number() == right.number() <==> left == right,
        left.number() == 0 <==> left is Active,
        left.number() == 1 <==> left is Unavailable,
        left.number() == 2 <==> left is UnsupportedFormat,
        left.number() == 3 <==> left is TestFailed,
        left.number() == 4 <==> left is CompositionRequired,
        unpacked_refresh(ScreenType::Internal, 0) is None,
        unpacked_refresh(ScreenType::External, 0) is None,
{
}

} // verus!
