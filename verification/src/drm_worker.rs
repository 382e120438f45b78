//! The worker that owns the display device: what it is to do next, and what it tells the
//! compositor.
//!
//! Each step looks at the mailbox and says what the device is to do; what the device did is
//! then handed back.

use vstd::prelude::*;

use crate::control::ScreenType;
use crate::drm;
use crate::drm::{
    unpack_refresh, DirectScanoutStatus, HardwareControl, HardwareFrame, REFRESH_REQUEST_VALID,
};
use crate::edid;
use crate::edid::parse_edid_identity;
use crate::lists;
use crate::modes;
use crate::modes::{
    choose_connector, connector_screen_type, select_mode, valid_refresh_rates, Connector,
    DisplayMode,
};
use crate::output::OutputConfig;
use crate::text;
use crate::text::{push_decimal, push_text};
use crate::window_policy::RenderLayer;

verus! {

/// A pixel format and the layout of its buffers.
#[derive(Clone, Copy, Debug, PartialEq, Eq, Structural)]
pub struct Format {
    pub code: u32,
    pub modifier: u64,
}

/// Configuration of the worker.
#[derive(Debug, PartialEq, Eq)]
pub struct HardwareConfig {
    pub logical_output: OutputConfig,
    pub mode_width: Option<u32>,
    pub mode_height: Option<u32>,
    pub mode_refresh_millihz: Option<i32>,
    pub direct_scanout: bool,
    pub adaptive_sync: bool,
    pub connector_priorities: Vec<String>,
}

impl HardwareConfig {
    /// A refresh rate that rounding can be applied to.
    pub open spec fn is_valid(self) -> bool {
        self.mode_refresh_millihz matches Some(rate) ==> rate <= i32::MAX - 499
    }
}

/// Physical output and renderer capabilities.
#[derive(Debug, PartialEq, Eq)]
pub struct HardwareOutputInfo {
    pub connector: String,
    pub display_make: String,
    pub display_model: String,
    pub screen: ScreenType,
    pub width: i32,
    pub height: i32,
    pub refresh_millihz: i32,
    pub device_id: u64,
    pub render_formats: Vec<Format>,
    pub scanout_formats: Vec<Format>,
    pub atomic: bool,
    pub vrr_capable: bool,
    pub vrr_enabled: bool,
    pub valid_refresh_rates_hz: Vec<u32>,
}

/// What is known of a physical output.
pub struct HardwareOutputView {
    pub connector: Seq<char>,
    pub display_make: Seq<char>,
    pub display_model: Seq<char>,
    pub screen: ScreenType,
    pub width: i32,
    pub height: i32,
    pub refresh_millihz: i32,
    pub device_id: u64,
    pub render_formats: Seq<Format>,
    pub scanout_formats: Seq<Format>,
    pub atomic: bool,
    pub vrr_capable: bool,
    pub vrr_enabled: bool,
    pub valid_refresh_rates_hz: Seq<u32>,
}

impl View for HardwareOutputInfo {
    type V = HardwareOutputView;

    open spec fn view(&self) -> HardwareOutputView {
        HardwareOutputView {
            connector: self.connector@,
            display_make: self.display_make@,
            display_model: self.display_model@,
            screen: self.screen,
            width: self.width,
            height: self.height,
            refresh_millihz: self.refresh_millihz,
            device_id: self.device_id,
            render_formats: self.render_formats@,
            scanout_formats: self.scanout_formats@,
            atomic: self.atomic,
            vrr_capable: self.vrr_capable,
            vrr_enabled: self.vrr_enabled,
            valid_refresh_rates_hz: self.valid_refresh_rates_hz@,
        }
    }
}

impl Clone for HardwareOutputInfo {
    fn clone(&self) -> (copy: Self)
        ensures
            copy@ == self@,
    {
        let copy = HardwareOutputInfo {
            connector: self.connector.clone(),
            display_make: self.display_make.clone(),
            display_model: self.display_model.clone(),
            screen: self.screen,
            width: self.width,
            height: self.height,
            refresh_millihz: self.refresh_millihz,
            device_id: self.device_id,
            render_formats: self.render_formats.clone(),
            scanout_formats: self.scanout_formats.clone(),
            atomic: self.atomic,
            vrr_capable: self.vrr_capable,
            vrr_enabled: self.vrr_enabled,
            valid_refresh_rates_hz: self.valid_refresh_rates_hz.clone(),
        };
        assert(copy.render_formats@ =~= self.render_formats@);
        assert(copy.scanout_formats@ =~= self.scanout_formats@);
        assert(copy.valid_refresh_rates_hz@ =~= self.valid_refresh_rates_hz@);
        copy
    }
}

/// What the worker tells the compositor. Times are in nanoseconds.
#[derive(Clone, Debug, PartialEq, Eq)]
pub enum HardwareEvent {
    Presented {
        frame_id: u64,
        at_ns: u64,
        monotonic_ns: Option<u64>,
        sequence: u32,
        scanout_status: DirectScanoutStatus,
    },
    FrameDeferred { frame_id: u64 },
    OutputChanged(HardwareOutputInfo),
    OutputDisconnected,
    OutputPowerChanged { asleep: bool },
    Error(String),
}

/// What can fail in the worker.
#[derive(Clone, Copy, Debug, PartialEq, Eq, Structural)]
pub enum HardwareFailure {
    Preparation { frame: u64 },
    Synchronization { frame: u64 },
    Commit { frame: u64 },
    PageFlip,
    Reactivation,
    VariableRefresh { enabled: bool },
    SwitchForFrames { frames_per_second: u32 },
    MissingMode { refresh_hz: u32 },
    SwitchToRate { hz: u32 },
    PowerOff,
    DeviceEvent,
    EventLoop,
    Rescan,
}

impl HardwareFailure {
    /// What stands before the cause.
    pub open spec fn lead(self) -> Seq<char> {
        match self {
            HardwareFailure::Preparation { frame } => "DRM frame "@ + text::decimal(frame as nat)
                + " preparation failed: "@,
            HardwareFailure::Synchronization { frame } => "DRM frame "@ + text::decimal(
                frame as nat,
            ) + " synchronization failed: "@,
            HardwareFailure::Commit { frame } => "DRM frame "@ + text::decimal(frame as nat)
                + " atomic commit failed: "@,
            HardwareFailure::PageFlip => "DRM page-flip completion failed: "@,
            HardwareFailure::Reactivation => "failed to reactivate DRM device: "@,
            HardwareFailure::VariableRefresh { enabled } => if enabled {
                "failed to set DRM VRR to true: "@
            } else {
                "failed to set DRM VRR to false: "@
            },
            HardwareFailure::SwitchForFrames { frames_per_second } => {
                "failed to switch DRM refresh rate for "@ + text::decimal(
                    frames_per_second as nat,
                ) + " fps: "@
            },
            HardwareFailure::MissingMode { refresh_hz } => "DRM output has no same-resolution "@
                + text::decimal(refresh_hz as nat) + " Hz mode"@,
            HardwareFailure::SwitchToRate { hz } => "failed to switch DRM output to "@
                + text::decimal(hz as nat) + " Hz: "@,
            HardwareFailure::PowerOff => "failed to power off DRM output: "@,
            HardwareFailure::DeviceEvent => "DRM event error: "@,
            HardwareFailure::EventLoop => "DRM event loop failed: "@,
            HardwareFailure::Rescan => "failed to rescan DRM connectors: "@,
        }
    }

    /// The report of a failure with its cause.
    #[must_use]
    pub fn text(self, cause: &str) -> (report: String)
        ensures
            report@ == self.lead() + cause@,
    {
        let mut report = String::new();
        match self {
            HardwareFailure::Preparation { frame } => {
                push_text(&mut report, "DRM frame ");
                push_decimal(&mut report, frame);
                push_text(&mut report, " preparation failed: ");
            },
            HardwareFailure::Synchronization { frame } => {
                push_text(&mut report, "DRM frame ");
                push_decimal(&mut report, frame);
                push_text(&mut report, " synchronization failed: ");
            },
            HardwareFailure::Commit { frame } => {
                push_text(&mut report, "DRM frame ");
                push_decimal(&mut report, frame);
                push_text(&mut report, " atomic commit failed: ");
            },
            HardwareFailure::PageFlip => {
                push_text(&mut report, "DRM page-flip completion failed: ");
            },
            HardwareFailure::Reactivation => {
                push_text(&mut report, "failed to reactivate DRM device: ");
            },
            HardwareFailure::VariableRefresh { enabled } => {
                if enabled {
                    push_text(&mut report, "failed to set DRM VRR to true: ");
                } else {
                    push_text(&mut report, "failed to set DRM VRR to false: ");
                }
            },
            HardwareFailure::SwitchForFrames { frames_per_second } => {
                push_text(&mut report, "failed to switch DRM refresh rate for ");
                push_decimal(&mut report, frames_per_second as u64);
                push_text(&mut report, " fps: ");
            },
            HardwareFailure::MissingMode { refresh_hz } => {
                push_text(&mut report, "DRM output has no same-resolution ");
                push_decimal(&mut report, refresh_hz as u64);
                push_text(&mut report, " Hz mode");
            },
            HardwareFailure::SwitchToRate { hz } => {
                push_text(&mut report, "failed to switch DRM output to ");
                push_decimal(&mut report, hz as u64);
                push_text(&mut report, " Hz: ");
            },
            HardwareFailure::PowerOff => {
                push_text(&mut report, "failed to power off DRM output: ");
            },
            HardwareFailure::DeviceEvent => {
                push_text(&mut report, "DRM event error: ");
            },
            HardwareFailure::EventLoop => {
                push_text(&mut report, "DRM event loop failed: ");
            },
            HardwareFailure::Rescan => {
                push_text(&mut report, "failed to rescan DRM connectors: ");
            },
        }
        assert(report@ =~= self.lead());
        push_text(&mut report, cause);
        report
    }
}

/// The output in use.
#[derive(Debug, PartialEq, Eq)]
pub struct ActiveOutput {
    pub connector: u32,
    pub crtc: u32,
    pub info: HardwareOutputInfo,
    pub modes: Vec<DisplayMode>,
    /// Index of the mode that was selected at first.
    pub base_mode: usize,
    pub last_refresh_request: u64,
    pub last_dynamic_refresh: u64,
    pub asleep: bool,
}

/// What the worker knows.
#[derive(Debug, PartialEq, Eq)]
pub struct DrmRuntime {
    pub config: HardwareConfig,
    /// Wish for variable refresh.
    pub adaptive_sync: bool,
    pub composite_force: bool,
    pub force_internal: bool,
    pub was_paused: bool,
    pub active_output: Option<ActiveOutput>,
}

/// What a look at the connectors asks for.
#[derive(Clone, Copy, Debug, PartialEq, Eq, Structural)]
pub enum RescanPlan {
    /// The output stays as it is.
    Keep,
    /// The output in use, if there is one, is cleared and reported as disconnected; then
    /// that of the connector with the given index is initialized.
    Replace { clear: bool, initialize: Option<usize> },
}

/// A mode to switch to.
#[derive(Clone, Copy, Debug, PartialEq, Eq, Structural)]
pub struct ModeSwitch {
    pub index: usize,
    /// What is reported if that fails.
    pub failure: HardwareFailure,
}

/// What a wish for a refresh rate asks for.
#[derive(Clone, Copy, Debug, PartialEq, Eq, Structural)]
pub enum DynamicRefresh {
    Nothing,
    /// No mode has the rate.
    Missing { refresh_hz: u32 },
    Switch(ModeSwitch),
}

/// What the device reports of an output that it initialized.
#[derive(Debug, PartialEq, Eq)]
pub struct InitializedOutput {
    pub device_id: u64,
    /// The identification block of the display, if it could be read.
    pub edid: Option<Vec<u8>>,
    pub vrr_capable: bool,
    pub vrr_enabled: bool,
    pub render_formats: Vec<Format>,
    /// Formats of the primary planes, then of the overlay planes.
    pub plane_formats: Vec<Format>,
}

/// Elements in the order of their first occurrence, each once, as far as they are wanted.
pub open spec fn common_formats(planes: Seq<Format>, renderer: Seq<Format>) -> Seq<Format>
    decreases planes.len(),
{
    if planes.len() == 0 {
        Seq::empty()
    } else {
        let before = common_formats(planes.drop_last(), renderer);
        if renderer.contains(planes.last()) && !before.contains(planes.last()) {
            before.push(planes.last())
        } else {
            before
        }
    }
}

fn has_format(formats: &Vec<Format>, format: Format) -> (found: bool)
    ensures
        found == formats@.contains(format),
{
    let mut i: usize = 0;
    while i < formats.len()
        invariant
            i <= formats@.len(),
            forall|j: int| 0 <= j < i ==> formats@[j] != format,
        decreases formats@.len() - i,
    {
        if formats[i] == format {
            assert(formats@[i as int] == format);
            return true;
        }
        i = i + 1;
    }
    false
}

/// The formats that can be rendered to and scanned out.
#[must_use]
pub fn scanout_formats(planes: &Vec<Format>, renderer: &Vec<Format>) -> (formats: Vec<Format>)
    ensures
        formats@ == common_formats(planes@, renderer@),
{
    let mut formats: Vec<Format> = Vec::new();
    let mut i: usize = 0;
    while i < planes.len()
        invariant
            i <= planes@.len(),
            formats@ == common_formats(planes@.take(i as int), renderer@),
        decreases planes@.len() - i,
    {
        let format = planes[i];
        assert(planes@.take(i + 1).drop_last() =~= planes@.take(i as int));
        if has_format(renderer, format) && !has_format(&formats, format) {
            formats.push(format);
        }
        i = i + 1;
    }
    assert(planes@.take(i as int) =~= planes@);
    formats
}

/// A format can be scanned out exactly when a plane and the renderer have it, and it is
/// listed once.
pub proof fn lemma_common_formats(planes: Seq<Format>, renderer: Seq<Format>, format: Format)
    ensures
        common_formats(planes, renderer).contains(format) <==> planes.contains(format)
            && renderer.contains(format),
        common_formats(planes, renderer).no_duplicates(),
    decreases planes.len(),
{
    if planes.len() > 0 {
        let init = planes.drop_last();
        let last = planes.last();
        lemma_common_formats(init, renderer, format);
        let before = common_formats(init, renderer);
        let after = common_formats(planes, renderer);
        assert(planes.contains(format) <==> init.contains(format) || format == last) by {
            if init.contains(format) {
                let i = init.index_of(format);
                assert(planes[i] == format);
            }
            if format == last {
                assert(planes[planes.len() - 1] == format);
            }
            if planes.contains(format) && format != last {
                let i = planes.index_of(format);
                assert(init[i] == format);
            }
        }
        if after != before {
            assert(after == before.push(last));
            assert(after[before.len() as int] == last);
            if before.contains(format) {
                let i = before.index_of(format);
                assert(after[i] == format);
            }
            if after.contains(format) && format != last {
                let i = after.index_of(format);
                assert(before[i] == format);
            }
        }
    }
}

/// The index of the mode of a size with the highest rate that is a multiple of a frame
/// rate; of several, the last.
pub open spec fn best_multiple(
    modes: Seq<DisplayMode>,
    base: DisplayMode,
    frames_per_second: u32,
) -> Option<int>
    decreases modes.len(),
{
    if modes.len() == 0 {
        None
    } else {
        let last = modes.last();
        let best = best_multiple(modes.drop_last(), base, frames_per_second);
        if last.same_size(base) && last.vrefresh as int % frames_per_second as int == 0 && (
        best matches Some(index) ==> modes[index].vrefresh <= last.vrefresh) {
            Some(modes.len() - 1)
        } else {
            best
        }
    }
}

fn find_best_multiple(
    modes: &Vec<DisplayMode>,
    base: &DisplayMode,
    frames_per_second: u32,
) -> (index: Option<usize>)
    requires
        frames_per_second != 0,
    ensures
        match index {
            Some(index) => index < modes@.len() && best_multiple(modes@, *base, frames_per_second)
                == Some(index as int),
            None => best_multiple(modes@, *base, frames_per_second) is None,
        },
{
    let mut best: Option<usize> = None;
    let mut i: usize = 0;
    while i < modes.len()
        invariant
            i <= modes@.len(),
            frames_per_second != 0,
            match best {
                Some(index) => index < i && best_multiple(
                    modes@.take(i as int),
                    *base,
                    frames_per_second,
                ) == Some(index as int),
                None => best_multiple(modes@.take(i as int), *base, frames_per_second) is None,
            },
        decreases modes@.len() - i,
    {
        let ghost prefix = modes@.take(i + 1);
        assert(prefix.drop_last() =~= modes@.take(i as int));
        let mode = modes[i];
        if mode.has_size_of(base) && mode.vrefresh % frames_per_second == 0 {
            let better = match best {
                Some(index) => {
                    assert(prefix[index as int] == modes@[index as int]);
                    modes[index].vrefresh <= mode.vrefresh
                },
                None => true,
            };
            if better {
                best = Some(i);
            }
        }
        i = i + 1;
    }
    assert(modes@.take(i as int) =~= modes@);
    best
}

/// The mode for a frame rate has the size of the base mode and a rate that is a multiple
/// of the frame rate, and no mode with these properties is faster.
pub proof fn lemma_best_multiple(
    modes: Seq<DisplayMode>,
    base: DisplayMode,
    frames_per_second: u32,
)
    ensures
        match best_multiple(modes, base, frames_per_second) {
            Some(best) => {
                &&& 0 <= best < modes.len()
                &&& modes[best].same_size(base)
                &&& modes[best].vrefresh as int % frames_per_second as int == 0
                &&& forall|i: int|
                    0 <= i < modes.len() && (#[trigger] modes[i]).same_size(base)
                        && modes[i].vrefresh as int % frames_per_second as int == 0
                        ==> modes[i].vrefresh <= modes[best].vrefresh
            },
            None => forall|i: int|
                0 <= i < modes.len() && (#[trigger] modes[i]).same_size(base)
                    ==> modes[i].vrefresh as int % frames_per_second as int != 0,
        },
    decreases modes.len(),
{
    if modes.len() > 0 {
        let init = modes.drop_last();
        lemma_best_multiple(init, base, frames_per_second);
        assert forall|i: int| 0 <= i < init.len() implies #[trigger] modes[i] == init[i] by {}
    }
}

/// The predicate of being a mode of a size and a rate.
pub open spec fn mode_at(base: DisplayMode, refresh_hz: u32) -> spec_fn(DisplayMode) -> bool {
    |mode: DisplayMode| mode.same_size(base) && mode.vrefresh == refresh_hz
}

impl ActiveOutput {
    pub open spec fn well_formed(self) -> bool {
        self.base_mode < self.modes@.len()
    }

    pub open spec fn base(self) -> DisplayMode {
        self.modes@[self.base_mode as int]
    }

    /// The mode for a refresh-cycle request.
    pub open spec fn requested_mode(
        self,
        allow_refresh_switching: bool,
        frames_per_second: u32,
    ) -> int {
        if allow_refresh_switching && frames_per_second != 0 {
            match best_multiple(self.modes@, self.base(), frames_per_second) {
                Some(index) => index,
                None => self.base_mode as int,
            }
        } else {
            self.base_mode as int
        }
    }

    /// Whether the output is that of a connector as a scan reports it now.
    pub open spec fn is_unchanged(self, connector: Connector) -> bool {
        self.connector == connector.handle && self.crtc == connector.crtc && self.modes@
            == connector.modes@
    }
}

fn same_modes(left: &Vec<DisplayMode>, right: &Vec<DisplayMode>) -> (same: bool)
    ensures
        same == (left@ == right@),
{
    if left.len() != right.len() {
        return false;
    }
    let mut i: usize = 0;
    while i < left.len()
        invariant
            i <= left@.len() == right@.len(),
            forall|j: int| 0 <= j < i ==> left@[j] == right@[j],
        decreases left@.len() - i,
    {
        if left[i] != right[i] {
            assert(left@[i as int] != right@[i as int]);
            return false;
        }
        i = i + 1;
    }
    assert(left@ =~= right@);
    true
}

/// What is known of an output that was initialized.
pub open spec fn initialized_info(
    connector: Connector,
    mode: DisplayMode,
    output: InitializedOutput,
    info: HardwareOutputView,
) -> bool {
    let identity = match output.edid {
        Some(block) => edid::edid_identity(block@),
        None => None,
    };
    let screen = modes::screen_type(connector.interface);
    &&& info.connector == connector.name@
    &&& (info.display_make, info.display_model) == (match identity {
        Some(identity) => identity,
        None => ("Unknown"@, connector.name@),
    })
    &&& info.screen == screen
    &&& info.width == mode.width
    &&& info.height == mode.height
    &&& info.refresh_millihz == mode.refresh_millihz
    &&& info.device_id == output.device_id
    &&& info.render_formats == output.render_formats@
    &&& info.scanout_formats == common_formats(output.plane_formats@, output.render_formats@)
    &&& info.atomic
    &&& info.vrr_capable == output.vrr_capable
    &&& info.vrr_enabled == output.vrr_enabled
    &&& if screen == ScreenType::External {
        info.valid_refresh_rates_hz == seq![mode.vrefresh]
    } else {
        modes::is_increasing(info.valid_refresh_rates_hz) && forall|hz: u32| #[trigger]
            info.valid_refresh_rates_hz.contains(hz) <==> modes::offers(
                connector.modes@,
                mode,
                hz,
            )
    }
}

impl DrmRuntime {
    /// The output in use has a base mode, and the configuration is valid.
    pub open spec fn well_formed(self) -> bool {
        &&& self.config.is_valid()
        &&& self.active_output matches Some(active) ==> active.well_formed()
    }

    /// A worker without an output.
    #[must_use]
    pub fn new(config: HardwareConfig) -> (runtime: Self)
        requires
            config.is_valid(),
        ensures
            runtime == (DrmRuntime {
                config,
                adaptive_sync: config.adaptive_sync,
                composite_force: false,
                force_internal: false,
                was_paused: false,
                active_output: None,
            }),
            runtime.well_formed(),
    {
        Self {
            adaptive_sync: config.adaptive_sync,
            composite_force: false,
            force_internal: false,
            was_paused: false,
            active_output: None,
            config,
        }
    }

    /// Whether the device is to be left alone, or used again; `None` when that has not
    /// changed.
    pub fn pause_step(&mut self, control: &HardwareControl) -> (change: Option<bool>)
        ensures
            change == (if control.paused != old(self).was_paused {
                Some(control.paused)
            } else {
                None
            }),
            *final(self) == (DrmRuntime { was_paused: control.paused, ..*old(self) }),
    {
        if control.paused != self.was_paused {
            self.was_paused = control.paused;
            Some(control.paused)
        } else {
            None
        }
    }

    /// The choice between built-in displays only and any, once a request is taken up.
    pub open spec fn next_force_internal(self, control: HardwareControl) -> bool {
        match control.force_internal {
            Some(force) => force,
            None => self.force_internal,
        }
    }

    /// Whether the connectors are to be looked at, and if so whether the mode is to be set
    /// anew even if nothing changed.
    pub fn rescan_step(&mut self, control: &mut HardwareControl) -> (rescan: Option<bool>)
        ensures
            ({
                let force_internal = old(self).next_force_internal(*old(control));
                &&& rescan == (if old(control).rescan || old(control).force_modeset
                    || force_internal != old(self).force_internal {
                    Some(old(control).force_modeset)
                } else {
                    None
                })
                &&& *final(self) == (DrmRuntime { force_internal, ..*old(self) })
                &&& *final(control) == (HardwareControl {
                    rescan: false,
                    force_modeset: false,
                    ..*old(control)
                })
            }),
    {
        let mut due = control.rescan;
        control.rescan = false;
        if let Some(force) = control.force_internal {
            if force != self.force_internal {
                self.force_internal = force;
                due = true;
            }
        }
        let force_modeset = control.force_modeset;
        control.force_modeset = false;
        if due || force_modeset {
            Some(force_modeset)
        } else {
            None
        }
    }

    /// Choose among the connectors of a scan. An output that stays as it is is kept unless
    /// its mode is to be set anew.
    pub fn rescan_outputs(
        &mut self,
        connectors: &Vec<Connector>,
        force_modeset: bool,
    ) -> (plan: RescanPlan)
        ensures
            ({
                let selected = modes::best_connector(
                    connectors@,
                    text::texts(old(self).config.connector_priorities@),
                    old(self).force_internal,
                );
                let unchanged = old(self).active_output matches Some(active) && selected matches
                    Some(index) && active.is_unchanged(connectors@[index]);
                if unchanged && !force_modeset {
                    plan == RescanPlan::Keep && *final(self) == *old(self)
                } else {
                    &&& plan matches RescanPlan::Replace { clear, initialize }
                    &&& clear == old(self).active_output is Some
                    &&& match initialize {
                        Some(index) => index < connectors@.len() && selected == Some(index as int),
                        None => selected is None,
                    }
                    &&& *final(self) == (DrmRuntime { active_output: None, ..*old(self) })
                }
            }),
    {
        let selected = choose_connector(
            connectors,
            &self.config.connector_priorities,
            self.force_internal,
        );
        let unchanged = match (&self.active_output, selected) {
            (Some(active), Some(index)) => {
                let connector = &connectors[index];
                active.connector == connector.handle && active.crtc == connector.crtc
                    && same_modes(&active.modes, &connector.modes)
            },
            _ => false,
        };
        if unchanged && !force_modeset {
            return RescanPlan::Keep;
        }
        let clear = self.active_output.is_some();
        self.active_output = None;
        RescanPlan::Replace { clear, initialize: selected }
    }

    /// The mode that an output is initialized with; `None` when the connector has no usable
    /// mode.
    #[must_use]
    pub fn initial_mode(&self, connector: &Connector) -> (index: Option<usize>)
        requires
            self.well_formed(),
        ensures
            ({
                let first = lists::first_index(
                    connector.modes@,
                    modes::wanted_mode(
                        self.config.mode_width,
                        self.config.mode_height,
                        modes::target_hz(self.config.mode_refresh_millihz),
                    ),
                );
                match index {
                    Some(index) => index == first && index < connector.modes@.len(),
                    None => first == connector.modes@.len(),
                }
            }),
    {
        select_mode(
            &connector.modes,
            self.config.mode_width,
            self.config.mode_height,
            self.config.mode_refresh_millihz,
        )
    }

    /// Whether variable refresh is to be enabled on an output that is being initialized.
    #[must_use]
    pub fn wants_initial_vrr(&self, vrr_capable: bool) -> (wanted: bool)
        ensures
            wanted == (self.adaptive_sync && vrr_capable),
    {
        self.adaptive_sync && vrr_capable
    }

    /// An output was initialized with a mode of its connector.
    pub fn output_initialized(
        &mut self,
        connector: &Connector,
        mode: usize,
        output: InitializedOutput,
    ) -> (event: HardwareEvent)
        requires
            old(self).well_formed(),
            mode < connector.modes@.len(),
        ensures
            final(self).well_formed(),
            ({
                &&& event matches HardwareEvent::OutputChanged(info)
                &&& final(self).active_output matches Some(active)
                &&& info@ == active.info@
                &&& initialized_info(
                    *connector,
                    connector.modes@[mode as int],
                    output,
                    active.info@,
                )
                &&& active.connector == connector.handle
                &&& active.crtc == connector.crtc
                &&& active.modes@ == connector.modes@
                &&& active.base_mode == mode
                &&& active.last_refresh_request == 0
                &&& active.last_dynamic_refresh == 0
                &&& !active.asleep
                &&& *final(self) == (DrmRuntime { active_output: Some(active), ..*old(self) })
            }),
    {
        let selected = connector.modes[mode];
        let screen = connector_screen_type(connector.interface);
        let identity = match &output.edid {
            Some(block) => parse_edid_identity(block),
            None => None,
        };
        let (display_make, display_model) = match identity {
            Some(identity) => identity,
            None => (text::string_from("Unknown"), connector.name.clone()),
        };
        let formats = scanout_formats(&output.plane_formats, &output.render_formats);
        let valid_refresh_rates_hz = valid_refresh_rates(&connector.modes, &selected, screen);
        let info = HardwareOutputInfo {
            connector: connector.name.clone(),
            display_make,
            display_model,
            screen,
            width: selected.width as i32,
            height: selected.height as i32,
            refresh_millihz: selected.refresh_millihz,
            device_id: output.device_id,
            render_formats: output.render_formats,
            scanout_formats: formats,
            atomic: true,
            vrr_capable: output.vrr_capable,
            vrr_enabled: output.vrr_enabled,
            valid_refresh_rates_hz,
        };
        let event = HardwareEvent::OutputChanged(info.clone());
        let modes = connector.modes.clone();
        assert(modes@ =~= connector.modes@);
        self.active_output = Some(
            ActiveOutput {
                connector: connector.handle,
                crtc: connector.crtc,
                info,
                modes,
                base_mode: mode,
                last_refresh_request: 0,
                last_dynamic_refresh: 0,
                asleep: false,
            },
        );
        event
    }
}

impl DrmRuntime {
    /// The wish for variable refresh once a request is taken up.
    pub open spec fn after_vrr_wish(self, control: HardwareControl) -> DrmRuntime {
        DrmRuntime {
            adaptive_sync: match control.vrr {
                Some(enabled) => enabled,
                None => self.adaptive_sync,
            },
            ..self
        }
    }

    /// What the device is asked for: variable refresh or a fixed one, if that is a new wish
    /// and there is an output.
    pub open spec fn asked_vrr(self, control: HardwareControl) -> Option<bool> {
        match control.vrr {
            Some(enabled) if enabled != self.adaptive_sync && self.active_output is Some => Some(
                enabled,
            ),
            _ => None,
        }
    }

    /// Whether a refresh-cycle request for the output in use has not been taken up.
    pub open spec fn refresh_is_due(self, control: HardwareControl) -> bool {
        self.active_output matches Some(active) && drm::unpacked_refresh(
            active.info.screen,
            control.refresh.of(active.info.screen),
        ) is Some && active.last_refresh_request != control.refresh.of(active.info.screen)
    }

    /// The worker once the refresh-cycle request is taken up.
    pub open spec fn after_refresh_request(self, control: HardwareControl) -> DrmRuntime {
        match self.active_output {
            Some(active) if self.refresh_is_due(control) => DrmRuntime {
                active_output: Some(
                    ActiveOutput {
                        last_refresh_request: control.refresh.of(active.info.screen),
                        ..active
                    },
                ),
                ..self
            },
            _ => self,
        }
    }

    /// Whether a wish for a refresh rate of the output in use has not been taken up.
    pub open spec fn dynamic_refresh_is_due(self, control: HardwareControl) -> bool {
        self.active_output matches Some(active) && control.dynamic_refresh.of(active.info.screen)
            >= REFRESH_REQUEST_VALID && active.last_dynamic_refresh
            != control.dynamic_refresh.of(active.info.screen)
    }

    /// The worker once the wish for a refresh rate is taken up.
    pub open spec fn after_dynamic_refresh(self, control: HardwareControl) -> DrmRuntime {
        match self.active_output {
            Some(active) if self.dynamic_refresh_is_due(control) => DrmRuntime {
                active_output: Some(
                    ActiveOutput {
                        last_dynamic_refresh: control.dynamic_refresh.of(active.info.screen),
                        ..active
                    },
                ),
                ..self
            },
            _ => self,
        }
    }

    /// Take up a wish for variable refresh. The device is asked only if the wish is a new
    /// one, so that feedback about an unchanged wish cannot come round again.
    pub fn vrr_step(&mut self, control: &mut HardwareControl) -> (wanted: Option<bool>)
        requires
            old(self).well_formed(),
        ensures
            final(self).well_formed(),
            wanted == old(self).asked_vrr(*old(control)),
            *final(self) == old(self).after_vrr_wish(*old(control)),
            *final(control) == (HardwareControl { vrr: None, ..*old(control) }),
    {
        let request = control.vrr;
        control.vrr = None;
        match request {
            Some(enabled) => {
                if enabled == self.adaptive_sync {
                    return None;
                }
                self.adaptive_sync = enabled;
                if self.active_output.is_some() {
                    Some(enabled)
                } else {
                    None
                }
            },
            None => None,
        }
    }

    /// The device took a wish for variable refresh and reports whether it is in use. Only a
    /// change is told.
    pub fn vrr_set(&mut self, vrr_enabled: bool) -> (event: Option<HardwareEvent>)
        requires
            old(self).well_formed(),
        ensures
            final(self).well_formed(),
            match old(self).active_output {
                Some(active) if active.info.vrr_enabled != vrr_enabled => {
                    let info = HardwareOutputInfo { vrr_enabled, ..active.info };
                    &&& event matches Some(HardwareEvent::OutputChanged(told)) && told@ == info@
                    &&& *final(self) == (DrmRuntime {
                        active_output: Some(ActiveOutput { info, ..active }),
                        ..*old(self)
                    })
                },
                _ => event is None && *final(self) == *old(self),
            },
    {
        match self.active_output.take() {
            Some(mut active) => {
                let event = if active.info.vrr_enabled != vrr_enabled {
                    active.info.vrr_enabled = vrr_enabled;
                    Some(HardwareEvent::OutputChanged(active.info.clone()))
                } else {
                    None
                };
                self.active_output = Some(active);
                event
            },
            None => None,
        }
    }

    /// Take up whether composition is required.
    pub fn composite_step(&mut self, control: &HardwareControl)
        ensures
            *final(self) == (DrmRuntime {
                composite_force: match control.composite_force {
                    Some(force) => force,
                    None => old(self).composite_force,
                },
                ..*old(self)
            }),
    {
        if let Some(force) = control.composite_force {
            self.composite_force = force;
        }
    }

    /// The display group of the output in use.
    #[must_use]
    pub fn screen(&self) -> (screen: Option<ScreenType>)
        ensures
            screen == (match self.active_output {
                Some(active) => Some(active.info.screen),
                None => None,
            }),
    {
        match &self.active_output {
            Some(active) => Some(active.info.screen),
            None => None,
        }
    }

    /// Take up a refresh-cycle request for the output in use. A request is taken up once,
    /// and a mode is switched to only if its rate is another one.
    pub fn refresh_step(&mut self, control: &HardwareControl) -> (switch: Option<ModeSwitch>)
        requires
            old(self).well_formed(),
        ensures
            final(self).well_formed(),
            *final(self) == old(self).after_refresh_request(*control),
            match old(self).active_output {
                Some(active) if old(self).refresh_is_due(*control) => {
                    let request = drm::unpacked_refresh(
                        active.info.screen,
                        control.refresh.of(active.info.screen),
                    ).unwrap();
                    let index = active.requested_mode(
                        request.allow_refresh_switching,
                        request.frames_per_second,
                    );
                    &&& 0 <= index < active.modes@.len()
                    &&& switch == (if active.info.refresh_millihz
                        != active.modes@[index].refresh_millihz {
                        Some(
                            ModeSwitch {
                                index: index as usize,
                                failure: HardwareFailure::SwitchForFrames {
                                    frames_per_second: request.frames_per_second,
                                },
                            },
                        )
                    } else {
                        None
                    })
                },
                _ => switch is None,
            },
    {
        match self.active_output.take() {
            Some(mut active) => {
                proof {
                    let request = drm::unpacked_refresh(
                        active.info.screen,
                        control.refresh.of(active.info.screen),
                    );
                    if let Some(request) = request {
                        lemma_best_multiple(
                            active.modes@,
                            active.base(),
                            request.frames_per_second,
                        );
                    }
                }
                let packed: u64 = control.refresh.get(active.info.screen);
                let mut switch: Option<ModeSwitch> = None;
                if let Some(request) = unpack_refresh(active.info.screen, packed) {
                    if active.last_refresh_request != packed {
                        active.last_refresh_request = packed;
                        let mut index: usize = active.base_mode;
                        if request.allow_refresh_switching && request.frames_per_second != 0 {
                            let base = active.modes[active.base_mode];
                            if let Some(best) = find_best_multiple(
                                &active.modes,
                                &base,
                                request.frames_per_second,
                            ) {
                                index = best;
                            }
                        }
                        if active.info.refresh_millihz != active.modes[index].refresh_millihz {
                            switch = Some(
                                ModeSwitch {
                                    index,
                                    failure: HardwareFailure::SwitchForFrames {
                                        frames_per_second: request.frames_per_second,
                                    },
                                },
                            );
                        }
                    }
                }
                self.active_output = Some(active);
                switch
            },
            None => None,
        }
    }

    /// Take up a wish for a refresh rate of the output in use. A wish is taken up once, and
    /// a mode is switched to only if its rate is another one.
    pub fn dynamic_refresh_step(&mut self, control: &HardwareControl) -> (step: DynamicRefresh)
        requires
            old(self).well_formed(),
        ensures
            final(self).well_formed(),
            *final(self) == old(self).after_dynamic_refresh(*control),
            match old(self).active_output {
                Some(active) if old(self).dynamic_refresh_is_due(*control) => {
                    let packed = control.dynamic_refresh.of(active.info.screen);
                    let refresh_hz = (packed % 0x1_0000_0000) as u32;
                    let index = if refresh_hz == 0 {
                        active.base_mode as int
                    } else {
                        lists::first_index(active.modes@, mode_at(active.base(), refresh_hz))
                    };
                    &&& 0 <= index <= active.modes@.len()
                    &&& step == (if index == active.modes@.len() {
                        DynamicRefresh::Missing { refresh_hz }
                    } else if active.info.refresh_millihz != active.modes@[index].refresh_millihz {
                        DynamicRefresh::Switch(
                            ModeSwitch {
                                index: index as usize,
                                failure: HardwareFailure::SwitchToRate { hz: refresh_hz },
                            },
                        )
                    } else {
                        DynamicRefresh::Nothing
                    })
                },
                _ => step == DynamicRefresh::Nothing,
            },
    {
        match self.active_output.take() {
            Some(mut active) => {
                let packed: u64 = control.dynamic_refresh.get(active.info.screen);
                let mut step = DynamicRefresh::Nothing;
                if packed >= REFRESH_REQUEST_VALID && active.last_dynamic_refresh != packed {
                    active.last_dynamic_refresh = packed;
                    let refresh_hz: u32 = (packed % 0x1_0000_0000) as u32;
                    let index: usize = if refresh_hz == 0 {
                        active.base_mode
                    } else {
                        let base = active.modes[active.base_mode];
                        find_mode_at(&active.modes, &base, refresh_hz)
                    };
                    if index >= active.modes.len() {
                        step = DynamicRefresh::Missing { refresh_hz };
                    } else if active.info.refresh_millihz != active.modes[index].refresh_millihz {
                        step = DynamicRefresh::Switch(
                            ModeSwitch {
                                index,
                                failure: HardwareFailure::SwitchToRate { hz: refresh_hz },
                            },
                        );
                    }
                }
                self.active_output = Some(active);
                step
            },
            None => DynamicRefresh::Nothing,
        }
    }

    /// The device switched the output in use to one of its modes.
    pub fn mode_switched(&mut self, index: usize) -> (event: Option<HardwareEvent>)
        requires
            old(self).well_formed(),
        ensures
            final(self).well_formed(),
            match old(self).active_output {
                Some(active) if index < active.modes@.len() => {
                    let info = HardwareOutputInfo {
                        refresh_millihz: active.modes@[index as int].refresh_millihz,
                        ..active.info
                    };
                    &&& event matches Some(HardwareEvent::OutputChanged(told)) && told@ == info@
                    &&& *final(self) == (DrmRuntime {
                        active_output: Some(ActiveOutput { info, ..active }),
                        ..*old(self)
                    })
                },
                _ => event is None && *final(self) == *old(self),
            },
    {
        match self.active_output.take() {
            Some(mut active) => {
                let event = if index < active.modes.len() {
                    active.info.refresh_millihz = active.modes[index].refresh_millihz;
                    Some(HardwareEvent::OutputChanged(active.info.clone()))
                } else {
                    None
                };
                self.active_output = Some(active);
                event
            },
            None => None,
        }
    }

    /// Whether the output in use is to sleep or to wake; `None` when it is as it is to be.
    #[must_use]
    pub fn power_step(&self, control: &HardwareControl) -> (asleep: Option<bool>)
        ensures
            asleep == (match self.active_output {
                Some(active) => match control.sleep.of(active.info.screen) {
                    Some(sleep) if active.asleep != sleep => Some(sleep),
                    _ => None,
                },
                None => None,
            }),
    {
        match &self.active_output {
            Some(active) => match control.sleep.get(active.info.screen) {
                Some(sleep) => if active.asleep != sleep {
                    Some(sleep)
                } else {
                    None
                },
                None => None,
            },
            None => None,
        }
    }

    /// The output in use sleeps or wakes.
    pub fn power_set(&mut self, asleep: bool) -> (event: Option<HardwareEvent>)
        requires
            old(self).well_formed(),
        ensures
            final(self).well_formed(),
            match old(self).active_output {
                Some(active) => {
                    &&& event == Some(HardwareEvent::OutputPowerChanged { asleep })
                    &&& *final(self) == (DrmRuntime {
                        active_output: Some(ActiveOutput { asleep, ..active }),
                        ..*old(self)
                    })
                },
                None => event is None && *final(self) == *old(self),
            },
    {
        match self.active_output.take() {
            Some(mut active) => {
                active.asleep = asleep;
                self.active_output = Some(active);
                Some(HardwareEvent::OutputPowerChanged { asleep })
            },
            None => None,
        }
    }
}

fn find_mode_at(modes: &Vec<DisplayMode>, base: &DisplayMode, refresh_hz: u32) -> (index: usize)
    ensures
        index == lists::first_index(modes@, mode_at(*base, refresh_hz)),
        index <= modes@.len(),
{
    let ghost wanted = mode_at(*base, refresh_hz);
    let mut i: usize = 0;
    while i < modes.len()
        invariant
            i <= modes@.len(),
            wanted == mode_at(*base, refresh_hz),
            forall|j: int| 0 <= j < i ==> !wanted(#[trigger] modes@[j]),
        decreases modes@.len() - i,
    {
        let mode = modes[i];
        if mode.has_size_of(base) && mode.vrefresh == refresh_hz {
            proof {
                assert(wanted(modes@[i as int]));
                lists::lemma_first_index(modes@, wanted, i as int);
            }
            return i;
        }
        i = i + 1;
    }
    proof {
        lists::lemma_first_index(modes@, wanted, i as int);
    }
    i
}

/// What to do with a frame.
#[derive(Clone, Copy, Debug, PartialEq, Eq, Structural)]
pub enum RenderPlan {
    /// Report it as deferred.
    Defer,
    /// Render it; `direct` tells whether a client buffer may go to the primary plane.
    Render { direct: bool },
}

/// What the device put on the primary plane.
#[derive(Clone, Copy, Debug, PartialEq, Eq, Structural)]
pub enum PrimaryPlane {
    ClientBuffer,
    /// A composed image, because the client buffer's format or modifier is unsupported.
    UnsupportedFormat,
    /// A composed image, because the atomic test failed.
    TestFailed,
}

/// What identifies a frame on its way through the device.
#[derive(Clone, Copy, Debug, PartialEq, Eq, Structural)]
pub struct FrameToken {
    pub id: u64,
    pub scanout_status: DirectScanoutStatus,
}

/// What to do with a rendered frame.
#[derive(Clone, Copy, Debug, PartialEq, Eq, Structural)]
pub enum FrameStep {
    /// Nothing changed on the display; report the frame as deferred.
    Defer,
    /// Hand the frame to the display.
    Queue(FrameToken),
}

/// What the device reports with a page flip.
#[derive(Clone, Copy, Debug, PartialEq, Eq, Structural)]
pub struct FlipMetadata {
    /// Time of the flip on the monotonic clock, if it was taken from that clock.
    pub monotonic_ns: Option<u64>,
    pub sequence: u32,
}

/// One thing to draw.
#[derive(Clone, Copy, Debug, PartialEq, Eq, Structural)]
pub enum DrawItem {
    Cursor,
    Layer(RenderLayer),
}

/// What to draw, front to back: the cursor, then the layers from the uppermost down.
pub open spec fn drawn(layers: Seq<RenderLayer>, cursor: bool) -> Seq<DrawItem> {
    (if cursor {
        seq![DrawItem::Cursor]
    } else {
        Seq::empty()
    }) + layers.reverse().map_values(|layer: RenderLayer| DrawItem::Layer(layer))
}

/// What to draw, front to back.
#[must_use]
pub fn draw_order(layers: &Vec<RenderLayer>, cursor: bool) -> (items: Vec<DrawItem>)
    ensures
        items@ == drawn(layers@, cursor),
{
    let mut items: Vec<DrawItem> = Vec::new();
    if cursor {
        items.push(DrawItem::Cursor);
    }
    let ghost start = items@;
    let ghost all = layers@.reverse().map_values(|layer: RenderLayer| DrawItem::Layer(layer));
    assert(start =~= if cursor {
        seq![DrawItem::Cursor]
    } else {
        Seq::empty()
    });
    let mut i: usize = layers.len();
    while i > 0
        invariant
            i <= layers@.len(),
            all == layers@.reverse().map_values(|layer: RenderLayer| DrawItem::Layer(layer)),
            items@ == start + all.take(layers@.len() - i),
        decreases i,
    {
        i = i - 1;
        items.push(DrawItem::Layer(layers[i]));
        let ghost count = layers@.len() - i;
        assert(all[count - 1] == DrawItem::Layer(layers@[i as int]));
        assert(start + all.take(count) =~= (start + all.take(count - 1)).push(all[count - 1]));
    }
    assert(all.take(layers@.len() as int) =~= all);
    items
}

/// A layer that covers others without hiding them.
pub open spec fn blends(layer: RenderLayer) -> bool {
    layer.force_blend && layer.opacity != 0
}

pub open spec fn any_blends(layers: Seq<RenderLayer>) -> bool {
    exists|i: int| 0 <= i < layers.len() && blends(#[trigger] layers[i])
}

fn has_blended(layers: &Vec<RenderLayer>) -> (found: bool)
    ensures
        found == any_blends(layers@),
{
    let mut i: usize = 0;
    while i < layers.len()
        invariant
            i <= layers@.len(),
            forall|j: int| 0 <= j < i ==> !blends(#[trigger] layers@[j]),
        decreases layers@.len() - i,
    {
        if layers[i].force_blend && layers[i].opacity != 0 {
            assert(blends(layers@[i as int]));
            return true;
        }
        i = i + 1;
    }
    false
}

impl DrmRuntime {
    /// Whether policy requires composition of the layers: on request, or because one of them
    /// is blended over others.
    pub open spec fn must_compose(self, layers: Seq<RenderLayer>) -> bool {
        self.composite_force || any_blends(layers)
    }

    fn requires_composition(&self, layers: &Vec<RenderLayer>) -> (required: bool)
        ensures
            required == self.must_compose(layers@),
    {
        self.composite_force || has_blended(layers)
    }

    /// Take the newest frame, unless the device is to be left alone.
    pub fn frame_step(&self, control: &mut HardwareControl) -> (frame: Option<HardwareFrame>)
        ensures
            frame == (if self.was_paused {
                None
            } else {
                old(control).latest_frame
            }),
            *final(control) == (HardwareControl {
                latest_frame: if self.was_paused {
                    old(control).latest_frame
                } else {
                    None
                },
                ..*old(control)
            }),
    {
        if self.was_paused {
            None
        } else {
            control.latest_frame.take()
        }
    }

    /// What to do with a frame. Without an output that is awake, or while the device is not
    /// active, it is deferred.
    #[must_use]
    pub fn render_plan(&self, frame: &HardwareFrame, device_active: bool) -> (plan: RenderPlan)
        ensures
            plan == (match self.active_output {
                Some(active) if device_active && !active.asleep => RenderPlan::Render {
                    direct: self.config.direct_scanout && !self.must_compose(frame.layers@),
                },
                _ => RenderPlan::Defer,
            }),
    {
        match &self.active_output {
            Some(active) => if device_active && !active.asleep {
                RenderPlan::Render {
                    direct: self.config.direct_scanout && !self.requires_composition(
                        &frame.layers,
                    ),
                }
            } else {
                RenderPlan::Defer
            },
            None => RenderPlan::Defer,
        }
    }

    /// The logical output that frames are drawn for.
    #[must_use]
    pub fn logical_output(&self) -> (output: Option<OutputConfig>)
        ensures
            output == (match self.active_output {
                Some(active) => Some(
                    self.config.logical_output.resolved(active.info.width, active.info.height),
                ),
                None => None,
            }),
    {
        match &self.active_output {
            Some(active) => Some(
                self.config.logical_output.resolved_for_output(
                    active.info.width,
                    active.info.height,
                ),
            ),
            None => None,
        }
    }

    /// What is on the primary plane, and why.
    pub open spec fn status(
        self,
        layers: Seq<RenderLayer>,
        plane: PrimaryPlane,
    ) -> DirectScanoutStatus {
        if self.must_compose(layers) {
            DirectScanoutStatus::CompositionRequired
        } else if !self.config.direct_scanout {
            DirectScanoutStatus::Unavailable
        } else {
            match plane {
                PrimaryPlane::ClientBuffer => DirectScanoutStatus::Active,
                PrimaryPlane::UnsupportedFormat => DirectScanoutStatus::UnsupportedFormat,
                PrimaryPlane::TestFailed => DirectScanoutStatus::TestFailed,
            }
        }
    }

    /// What to do with a frame that was rendered.
    #[must_use]
    pub fn frame_rendered(
        &self,
        frame: &HardwareFrame,
        is_empty: bool,
        plane: PrimaryPlane,
    ) -> (step: FrameStep)
        ensures
            step == (if is_empty {
                FrameStep::Defer
            } else {
                FrameStep::Queue(
                    FrameToken {
                        id: frame.id,
                        scanout_status: self.status(frame.layers@, plane),
                    },
                )
            }),
    {
        if is_empty {
            return FrameStep::Defer;
        }
        let scanout_status = if self.requires_composition(&frame.layers) {
            DirectScanoutStatus::CompositionRequired
        } else if !self.config.direct_scanout {
            DirectScanoutStatus::Unavailable
        } else {
            match plane {
                PrimaryPlane::ClientBuffer => DirectScanoutStatus::Active,
                PrimaryPlane::UnsupportedFormat => DirectScanoutStatus::UnsupportedFormat,
                PrimaryPlane::TestFailed => DirectScanoutStatus::TestFailed,
            }
        };
        FrameStep::Queue(FrameToken { id: frame.id, scanout_status })
    }

    /// Whether a page flip is that of the output in use.
    #[must_use]
    pub fn drives(&self, crtc: u32) -> (driven: bool)
        ensures
            driven == (self.active_output matches Some(active) && active.crtc == crtc),
    {
        match &self.active_output {
            Some(active) => active.crtc == crtc,
            None => false,
        }
    }
}

/// A frame was shown. A flip without metadata has sequence zero.
#[must_use]
pub fn page_flip(
    token: FrameToken,
    at_ns: u64,
    metadata: Option<FlipMetadata>,
) -> (event: HardwareEvent)
    ensures
        event == (HardwareEvent::Presented {
            frame_id: token.id,
            at_ns,
            monotonic_ns: match metadata {
                Some(metadata) => metadata.monotonic_ns,
                None => None,
            },
            sequence: match metadata {
                Some(metadata) => metadata.sequence,
                None => 0,
            },
            scanout_status: token.scanout_status,
        }),
{
    let (monotonic_ns, sequence): (Option<u64>, u32) = match metadata {
        Some(metadata) => (metadata.monotonic_ns, metadata.sequence),
        None => (None, 0),
    };
    HardwareEvent::Presented {
        frame_id: token.id,
        at_ns,
        monotonic_ns,
        sequence,
        scanout_status: token.scanout_status,
    }
}

/// While a visible blended layer exists, no client buffer goes to the primary plane alone.
pub proof fn lemma_blended_layer_requires_composition(
    runtime: DrmRuntime,
    layers: Seq<RenderLayer>,
    i: int,
    plane: PrimaryPlane,
)
    requires
        0 <= i < layers.len(),
        blends(layers[i]),
    ensures
        runtime.must_compose(layers),
        runtime.status(layers, plane) == DirectScanoutStatus::CompositionRequired,
{
}

/// A client buffer is reported on the primary plane only while direct scanout is on and
/// policy does not require composition.
pub proof fn lemma_active_scanout_is_allowed(
    runtime: DrmRuntime,
    layers: Seq<RenderLayer>,
    plane: PrimaryPlane,
)
    ensures
        runtime.status(layers, plane) == DirectScanoutStatus::Active ==> plane
            == PrimaryPlane::ClientBuffer && runtime.config.direct_scanout
            && !runtime.composite_force && !any_blends(layers),
{
}

/// Requests are taken up once: the same wish for variable refresh asks the device for
/// nothing, and the same refresh requests are not due again.
pub proof fn lemma_requests_are_taken_up_once(
    runtime: DrmRuntime,
    control: HardwareControl,
    again: HardwareControl,
)
    requires
        again.vrr == control.vrr,
        again.refresh == control.refresh,
        again.dynamic_refresh == control.dynamic_refresh,
    ensures
        runtime.after_vrr_wish(control).asked_vrr(again) is None,
        !runtime.after_refresh_request(control).refresh_is_due(again),
        !runtime.after_dynamic_refresh(control).dynamic_refresh_is_due(again),
{
}

/// The mode for a rate of frames: among the modes with the size in use whose rate is a
/// multiple of it, the fastest, and the last of these. Where there is none, where switching is
/// not allowed, or where no rate is asked for, it is the mode that was used at first.
pub proof fn lemma_rates_fit_frames(output: ActiveOutput, allow: bool, frames_per_second: u32)
    requires
        output.well_formed(),
    ensures
        ({
            let at = output.requested_mode(allow, frames_per_second);
            let fits = |i: int|
                output.modes@[i].width == output.modes@[output.base_mode as int].width
                    && output.modes@[i].height == output.modes@[output.base_mode as int].height
                    && output.modes@[i].vrefresh as int % frames_per_second as int == 0;
            &&& 0 <= at < output.modes@.len()
            &&& !allow || frames_per_second == 0 ==> at == output.base_mode
            &&& allow && frames_per_second > 0 ==> {
                ||| {
                    &&& fits(at)
                    &&& forall|i: int|
                        #![trigger output.modes@[i]]
                        0 <= i < at && fits(i) ==> output.modes@[i].vrefresh
                            <= output.modes@[at].vrefresh
                    &&& forall|i: int|
                        #![trigger output.modes@[i]]
                        at < i < output.modes@.len() && fits(i) ==> output.modes@[i].vrefresh
                            < output.modes@[at].vrefresh
                }
                ||| {
                    &&& at == output.base_mode
                    &&& forall|i: int|
                        #![trigger output.modes@[i]]
                        0 <= i < output.modes@.len() ==> !fits(i)
                }
            }
        }),
{
    lemma_best_multiple(output.modes@, output.base(), frames_per_second);
    lemma_best_multiple_is_last(output.modes@, output.base(), frames_per_second);
}

proof fn lemma_best_multiple_is_last(
    modes: Seq<DisplayMode>,
    base: DisplayMode,
    frames_per_second: u32,
)
    ensures
        best_multiple(modes, base, frames_per_second) matches Some(best) ==> forall|i: int|
            best < i < modes.len() && (#[trigger] modes[i]).same_size(base) && modes[i].vrefresh
                as int % frames_per_second as int == 0 ==> modes[i].vrefresh < modes[best].vrefresh,
    decreases modes.len(),
{
    if modes.len() > 0 {
        let init = modes.drop_last();
        lemma_best_multiple(init, base, frames_per_second);
        lemma_best_multiple_is_last(init, base, frames_per_second);
        if let Some(best) = best_multiple(modes, base, frames_per_second) {
            assert forall|i: int|
                best < i < modes.len() && (#[trigger] modes[i]).same_size(base)
                    && modes[i].vrefresh as int % frames_per_second as int
                    == 0 implies modes[i].vrefresh < modes[best].vrefresh by {
                if i < init.len() {
                    assert(init[i] == modes[i]);
                    assert(init[best] == modes[best]);
                }
            }
        }
    }
}

/// The mode for a rate that Steam asks for is one with the size in use and exactly that rate.
pub proof fn lemma_asked_rates_keep_the_size(base: DisplayMode, mode: DisplayMode, refresh_hz: u32)
    ensures
        mode_at(base, refresh_hz)(mode) <==> mode.width == base.width && mode.height == base.height
            && mode.vrefresh == refresh_hz,
{
}

/// An output is the same as before if the connector, what drives it and every mode are; any
/// difference makes it another.
pub proof fn lemma_changed_outputs_are_noticed(output: ActiveOutput, connector: Connector, i: int)
    ensures
        output.connector != connector.handle ==> !output.is_unchanged(connector),
        output.crtc != connector.crtc ==> !output.is_unchanged(connector),
        output.modes@.len() != connector.modes@.len() ==> !output.is_unchanged(connector),
        0 <= i < output.modes@.len() && output.modes@[i] != connector.modes@[i]
            ==> !output.is_unchanged(connector),
        output.connector == connector.handle && output.crtc == connector.crtc
            && output.modes@.len() == connector.modes@.len() && (forall|j: int|
            0 <= j < output.modes@.len() ==> #[trigger] output.modes@[j] == connector.modes@[j])
            ==> output.is_unchanged(connector),
{
    if output.modes@.len() == connector.modes@.len() && forall|j: int|
        0 <= j < output.modes@.len() ==> #[trigger] output.modes@[j] == connector.modes@[j] {
        assert(output.modes@ =~= connector.modes@);
    }
}

/// What is known of an output that was set up: the mode and the connector that it was set up
/// with, what the display says of itself, and the formats that both the planes and the
/// renderer know. A display outside offers the rate in use only, a built-in one every rate
/// with its size.
pub proof fn lemma_outputs_are_described(
    connector: Connector,
    mode: DisplayMode,
    output: InitializedOutput,
    info: HardwareOutputView,
    format: Format,
    hz: u32,
)
    requires
        initialized_info(connector, mode, output, info),
    ensures
        info.connector == connector.name@,
        info.width == mode.width && info.height == mode.height,
        info.refresh_millihz == mode.refresh_millihz,
        info.device_id == output.device_id,
        info.render_formats == output.render_formats@,
        info.vrr_capable == output.vrr_capable && info.vrr_enabled == output.vrr_enabled,
        info.atomic,
        info.scanout_formats.contains(format) <==> output.plane_formats@.contains(format)
            && output.render_formats@.contains(format),
        info.scanout_formats.no_duplicates(),
        connector.interface is Pluggable ==> info.screen == ScreenType::External && (
        info.valid_refresh_rates_hz.contains(hz) <==> hz == mode.vrefresh),
        !(connector.interface is Pluggable) ==> info.screen == ScreenType::Internal && (
        info.valid_refresh_rates_hz.contains(hz) <==> exists|i: int|
            0 <= i < connector.modes@.len() && (#[trigger] connector.modes@[i]).width == mode.width
                && connector.modes@[i].height == mode.height && connector.modes@[i].vrefresh == hz),
        output.edid is None ==> info.display_make == "Unknown"@ && info.display_model
            == connector.name@,
        output.edid matches Some(block) ==> (edid::edid_identity(block@) matches Some(identity)
            ==> info.display_make == identity.0 && info.display_model == identity.1),
{
    lemma_common_formats(output.plane_formats@, output.render_formats@, format);
    if connector.interface is Pluggable {
        assert(info.valid_refresh_rates_hz =~= seq![mode.vrefresh]);
        assert(seq![mode.vrefresh][0] == mode.vrefresh);
    } else {
        assert(info.valid_refresh_rates_hz.contains(hz) <==> modes::offers(
            connector.modes@,
            mode,
            hz,
        ));
        if exists|i: int|
            0 <= i < connector.modes@.len() && (#[trigger] connector.modes@[i]).width == mode.width
                && connector.modes@[i].height == mode.height && connector.modes@[i].vrefresh
                == hz {
            let at = choose|i: int|
                0 <= i < connector.modes@.len() && (#[trigger] connector.modes@[i]).width
                    == mode.width && connector.modes@[i].height == mode.height
                    && connector.modes@[i].vrefresh == hz;
            assert(connector.modes@[at].same_size(mode));
        }
    }
}

/// A wish for variable refresh is carried out if it is new and there is an output for it, and
/// is kept in any case. A request for a rate is due on the screen in use while it is a request
/// and another one than was carried out last, and is remembered then. Whether only built-in
/// displays may be used stays as it is until that is asked anew.
pub proof fn lemma_requests_are_due(runtime: DrmRuntime, control: HardwareControl)
    ensures
        match control.vrr {
            Some(enabled) => {
                &&& runtime.after_vrr_wish(control).adaptive_sync == enabled
                &&& runtime.active_output is Some && enabled != runtime.adaptive_sync
                    ==> runtime.asked_vrr(control) == Some(enabled)
                &&& runtime.active_output is None || enabled == runtime.adaptive_sync
                    ==> runtime.asked_vrr(control) is None
            },
            None => runtime.after_vrr_wish(control) == runtime && runtime.asked_vrr(control)
                is None,
        },
        runtime.after_vrr_wish(control).active_output == runtime.active_output,
        match control.force_internal {
            Some(force) => runtime.next_force_internal(control) == force,
            None => runtime.next_force_internal(control) == runtime.force_internal,
        },
        match runtime.active_output {
            Some(active) => {
                let asked = match active.info.screen {
                    ScreenType::Internal => control.refresh.internal,
                    ScreenType::External => control.refresh.external,
                };
                let rate = match active.info.screen {
                    ScreenType::Internal => control.dynamic_refresh.internal,
                    ScreenType::External => control.dynamic_refresh.external,
                };
                &&& runtime.refresh_is_due(control) <==> asked >= 0x8000_0000_0000_0000 && asked
                    != active.last_refresh_request
                &&& runtime.dynamic_refresh_is_due(control) <==> rate >= 0x8000_0000_0000_0000
                    && rate != active.last_dynamic_refresh
                &&& runtime.refresh_is_due(control) ==> (runtime.after_refresh_request(
                    control,
                ).active_output matches Some(after) && after.last_refresh_request == asked
                    && after.info == active.info && after.modes == active.modes && after.base_mode
                    == active.base_mode && after.asleep == active.asleep)
                &&& runtime.dynamic_refresh_is_due(control) ==> (runtime.after_dynamic_refresh(
                    control,
                ).active_output matches Some(after) && after.last_dynamic_refresh == rate
                    && after.info == active.info && after.modes == active.modes && after.base_mode
                    == active.base_mode && after.asleep == active.asleep)
                &&& !runtime.refresh_is_due(control) ==> runtime.after_refresh_request(control)
                    == runtime
                &&& !runtime.dynamic_refresh_is_due(control) ==> runtime.after_dynamic_refresh(
                    control,
                ) == runtime
            },
            None => !runtime.refresh_is_due(control) && !runtime.dynamic_refresh_is_due(control),
        },
{
}

/// The cursor is drawn in front of everything, and layers in front of those below them: what
/// comes first in the frame comes last among the layers.
pub proof fn lemma_upper_layers_are_drawn_in_front(
    layers: Seq<RenderLayer>,
    cursor: bool,
    i: int,
)
    requires
        0 <= i < layers.len(),
    ensures
        ({
            let items = drawn(layers, cursor);
            &&& items.len() == layers.len() + (if cursor {
                1int
            } else {
                0
            })
            &&& cursor ==> items[0] == DrawItem::Cursor
            &&& items[items.len() - 1 - i] == DrawItem::Layer(layers[i])
        }),
{
}

/// A frame is composed where that is forced, and where a layer that can be seen has to blend
/// with what is below it. Else a client's buffer may be shown as it is, unless the user does
/// not want that, and the display says whether it could.
pub proof fn lemma_scanout_is_reported(
    runtime: DrmRuntime,
    layers: Seq<RenderLayer>,
    plane: PrimaryPlane,
)
    ensures
        ({
            let blended = exists|i: int|
                0 <= i < layers.len() && (#[trigger] layers[i]).force_blend && layers[i].opacity
                    > 0;
            let status = runtime.status(layers, plane);
            &&& runtime.must_compose(layers) <==> runtime.composite_force || blended
            &&& status is CompositionRequired <==> runtime.composite_force || blended
            &&& status is Unavailable <==> !(runtime.composite_force || blended)
                && !runtime.config.direct_scanout
            &&& status is Active ==> plane is ClientBuffer
            &&& status is UnsupportedFormat ==> plane is UnsupportedFormat
            &&& status is TestFailed ==> plane is TestFailed
        }),
{
    if exists|i: int|
        0 <= i < layers.len() && (#[trigger] layers[i]).force_blend && layers[i].opacity > 0 {
        let at = choose|i: int|
            0 <= i < layers.len() && (#[trigger] layers[i]).force_blend && layers[i].opacity > 0;
        assert(blends(layers[at]));
    }
    if any_blends(layers) {
        let at = choose|i: int| 0 <= i < layers.len() && blends(#[trigger] layers[i]);
        assert(layers[at].force_blend);
    }
}

/// What a report of a failure starts with.
pub proof fn lemma_failures_are_named(failure: HardwareFailure)
    ensures
        match failure {
            HardwareFailure::Preparation { frame } => failure.lead() == "DRM frame "@
                + text::decimal(frame as nat) + " preparation failed: "@,
            HardwareFailure::Synchronization { frame } => failure.lead() == "DRM frame "@
                + text::decimal(frame as nat) + " synchronization failed: "@,
            HardwareFailure::Commit { frame } => failure.lead() == "DRM frame "@ + text::decimal(
                frame as nat,
            ) + " atomic commit failed: "@,
            HardwareFailure::PageFlip => failure.lead() == "DRM page-flip completion failed: "@,
            HardwareFailure::Reactivation => failure.lead() == "failed to reactivate DRM device: "@,
            HardwareFailure::VariableRefresh { enabled } => {
                &&& enabled ==> failure.lead() == "failed to set DRM VRR to true: "@
                &&& !enabled ==> failure.lead() == "failed to set DRM VRR to false: "@
            },
            HardwareFailure::SwitchForFrames { frames_per_second } => failure.lead()
                == "failed to switch DRM refresh rate for "@ + text::decimal(
                frames_per_second as nat,
            ) + " fps: "@,
            HardwareFailure::MissingMode { refresh_hz } => failure.lead()
                == "DRM output has no same-resolution "@ + text::decimal(refresh_hz as nat)
                + " Hz mode"@,
            HardwareFailure::SwitchToRate { hz } => failure.lead()
                == "failed to switch DRM output to "@ + text::decimal(hz as nat) + " Hz: "@,
            HardwareFailure::PowerOff => failure.lead() == "failed to power off DRM output: "@,
            HardwareFailure::DeviceEvent => failure.lead() == "DRM event error: "@,
            HardwareFailure::EventLoop => failure.lead() == "DRM event loop failed: "@,
            HardwareFailure::Rescan => failure.lead() == "failed to rescan DRM connectors: "@,
        },
{
}

} // verus!
