//! Requests, commands and events of the Gamescope protocols, over plain values.
//!
//! Protocol objects, surfaces and file descriptors are named by identifiers that the
//! event loop hands out; an identifier is not reused while anything refers to it.

use vstd::prelude::*;

use crate::action_binding::TriggeredEvent;
use crate::control::{DisplayPowerOperation, FeatureSupport, RefreshCycleOverride};
use crate::input_method::InputMethodCommit;
use crate::swapchain::{HdrMetadata, PastPresentTiming, SwapchainFeedback};

verus! {

/// Static information sent when clients bind globals.
#[derive(Clone, Debug, PartialEq, Eq)]
pub struct ServerConfig {
    pub pipewire_node_id: Option<u32>,
    pub active_display: Option<ActiveDisplayInfo>,
}

impl Default for ServerConfig {
    fn default() -> (config: Self)
        ensures
            config.pipewire_node_id is None,
            config.active_display is None,
    {
        Self { pipewire_node_id: None, active_display: None }
    }
}

/// Contents of `gamescope_control.active_display_info`.
#[derive(Debug, PartialEq, Eq)]
pub struct ActiveDisplayInfo {
    pub connector_name: String,
    pub display_make: String,
    pub display_model: String,
    pub flags: u32,
    pub valid_refresh_rates_hz: Vec<u32>,
}

/// What an active display says.
pub struct ActiveDisplayView {
    pub connector_name: Seq<char>,
    pub display_make: Seq<char>,
    pub display_model: Seq<char>,
    pub flags: u32,
    pub valid_refresh_rates_hz: Seq<u32>,
}

impl View for ActiveDisplayInfo {
    type V = ActiveDisplayView;

    open spec fn view(&self) -> ActiveDisplayView {
        ActiveDisplayView {
            connector_name: self.connector_name@,
            display_make: self.display_make@,
            display_model: self.display_model@,
            flags: self.flags,
            valid_refresh_rates_hz: self.valid_refresh_rates_hz@,
        }
    }
}

impl Clone for ActiveDisplayInfo {
    fn clone(&self) -> (copy: Self)
        ensures
            copy@ == self@,
    {
        let copy = ActiveDisplayInfo {
            connector_name: self.connector_name.clone(),
            display_make: self.display_make.clone(),
            display_model: self.display_model.clone(),
            flags: self.flags,
            valid_refresh_rates_hz: self.valid_refresh_rates_hz.clone(),
        };
        assert(copy.valid_refresh_rates_hz@ =~= self.valid_refresh_rates_hz@);
        copy
    }
}

/// What an optional display says.
pub open spec fn display_view(display: Option<ActiveDisplayInfo>) -> Option<ActiveDisplayView> {
    match display {
        Some(display) => Some(display@),
        None => None,
    }
}

/// Names the requester of a console command.
#[derive(Clone, Copy, Debug, PartialEq, Eq, Structural)]
pub struct PrivateReply(pub u64);

/// Names the requester of a `ReShade` effect.
#[derive(Clone, Copy, Debug, PartialEq, Eq, Structural)]
pub struct ReshadeReply(pub u64);

/// Work emitted by protocol dispatch and consumed by compositor subsystems.
#[derive(Debug, PartialEq, Eq)]
#[allow(inconsistent_fields)]
pub enum Command {
    SetRefreshCycle(RefreshCycleOverride),
    TakeScreenshot { path: String, screenshot_type: u32, flags: u32 },
    SetDisplayPower(DisplayPowerOperation),
    SetLook { gamma_22_lut: u64, pq_lut: u64, flags: u32 },
    UnsetLook,
    ExecutePrivate { reply: PrivateReply, command: String, value: String },
    SetReshadeEffect { reply: ReshadeReply, path: String },
    EnableReshadeEffect,
    SetReshadeUniform { key: String, value: Vec<u8> },
    DisableReshadeEffect,
    OverrideWindowContent { surface: u64, xwayland_server_id: u32, x11_window: u32 },
    InputMethod(InputMethodCommand),
}

/// Input synthesized by the private Gamescope input-method protocol. Pointer
/// coordinates are in the protocol's fixed point, 256 to the pixel, and wheel
/// distances in its wheel units, 120 to the notch.
#[derive(Clone, Debug, PartialEq, Eq)]
pub enum InputMethodCommand {
    Commit(InputMethodCommit),
    PointerMotion { dx: i32, dy: i32, time_msec: u32 },
    PointerWarp { x: i32, y: i32, time_msec: u32 },
    PointerWheel { x: i32, y: i32, time_msec: u32 },
    PointerButton { button: u32, pressed: bool, time_msec: u32 },
}

/// A `gamescope_control` request.
#[derive(Debug, PartialEq, Eq)]
pub enum ControlRequest {
    Destroy,
    SetAppTargetRefreshCycle { fps: u32, flags: u32 },
    TakeScreenshot { path: String, screenshot_type: u32, flags: u32 },
    DisplaySleep { display_type: u32, flags: u32 },
    SetLook { lut3d_g22: u64, lut3d_pq: u64, flags: u32 },
    UnsetLook,
    RequestAppPerformanceStats { app_id: u32 },
}

/// A `gamescope_reshade` request.
#[derive(Debug, PartialEq, Eq)]
pub enum ReshadeRequest {
    Destroy,
    SetEffect { path: String },
    EnableEffect,
    SetUniformVariable { key: String, value: Vec<u8> },
    DisableEffect,
}

/// A `gamescope_action_binding` request. Keysyms come as an array of words in the byte
/// order of the machine.
#[derive(Debug, PartialEq, Eq)]
pub enum BindingRequest {
    Destroy,
    SetDescription { description: String },
    AddKeyboardTrigger { keysyms: Vec<u8> },
    ClearTriggers,
    Arm { arm_flags: u32 },
    Disarm,
}

/// A `gamescope_swapchain` request.
#[derive(Debug, PartialEq, Eq)]
pub enum SwapchainRequest {
    Destroy,
    OverrideWindowContent { xwayland_server_id: u32, x11_window: u32 },
    Feedback(SwapchainFeedback),
    SetPresentMode { vk_present_mode: u32 },
    SetHdrMetadata(HdrMetadata),
    SetPresentTime { present_id: u32, desired_high: u32, desired_low: u32 },
}

/// A `gamescope_input_method` request.
#[derive(Debug, PartialEq, Eq)]
pub enum InputMethodRequest {
    Destroy,
    Commit { serial: u32 },
    SetString { text: String },
    SetAction { action: u32 },
    PointerMotion { dx: i32, dy: i32 },
    PointerWarp { x: i32, y: i32 },
    PointerWheel { x: i32, y: i32 },
    PointerButton { button: u32, state: u32 },
}

/// An event to send to one protocol object.
#[derive(Debug, PartialEq, Eq)]
pub enum ServerEvent {
    FeatureSupport { resource: u64, support: FeatureSupport },
    /// The active display of the server state.
    ActiveDisplayInfo { resource: u64 },
    ScreenshotTaken { resource: u64, path: String },
    AppPerformanceStats { resource: u64, app_id: u32, low: u32, high: u32 },
    CommandExecuted { resource: u64 },
    Log { resource: u64, text: String },
    EffectReady { resource: u64, path: String },
    Triggered { resource: u64, event: TriggeredEvent },
    RefreshCycle { resource: u64, high: u32, low: u32 },
    PastPresentTiming { resource: u64, timing: PastPresentTiming },
    InputMethodDone { resource: u64, serial: u32 },
    StreamNode { resource: u64, node_id: u32 },
}

} // verus!
