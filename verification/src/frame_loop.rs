//! When frames are drawn and presented on display hardware.
//!
//! Times are in nanoseconds: of the event loop's own clock, except those that are named
//! monotonic, which clients see.

use vstd::prelude::*;

use crate::control::{RefreshCycleOverride, ScreenType};
use crate::drm;
use crate::drm::{CursorLayer, DirectScanoutStatus, HardwareControl, HardwareFrame, PerScreen};
use crate::drm_worker::{HardwareEvent, HardwareOutputInfo, HardwareOutputView};
use crate::output::OutputConfig;
use crate::protocol::{ActiveDisplayInfo, ActiveDisplayView, Command, ServerEvent};
use crate::server::ServerView;
use crate::state::{Effect, Presentation, State, StateView};
use crate::steam_properties;
use crate::steam_worker::MailboxView;

verus! {

/// The interval between frames of an output whose rate is not known.
pub const DEFAULT_INTERVAL_NS: u64 = 16_666_667;

/// The longest wait for events.
pub const LONGEST_WAIT_NS: u64 = 2_000_000;

/// The pause after an idle presentation.
pub const IDLE_PAUSE_NS: u64 = 1_000_000;

/// The interval between frames at a rate.
pub open spec fn interval_of(refresh_millihz: i32) -> u64 {
    if refresh_millihz > 0 {
        (1_000_000_000_000int / refresh_millihz as int) as u64
    } else {
        DEFAULT_INTERVAL_NS
    }
}

proof fn lemma_interval_is_bounded(refresh_millihz: i32)
    ensures
        465 <= interval_of(refresh_millihz) <= 1_000_000_000_000,
{
    if refresh_millihz > 0 {
        let rate = refresh_millihz as int;
        let interval = 1_000_000_000_000int / rate;
        assert(465 <= interval <= 1_000_000_000_000) by (nonlinear_arith)
            requires
                0 < rate <= 0x7fff_ffff,
                interval == 1_000_000_000_000int / rate,
        ;
    }
}

/// The interval between frames of an output.
#[must_use]
pub fn physical_refresh_interval(output: &HardwareOutputInfo) -> (interval_ns: u64)
    ensures
        interval_ns == interval_of(output.refresh_millihz),
{
    if output.refresh_millihz > 0 {
        1_000_000_000_000u64 / output.refresh_millihz as u64
    } else {
        DEFAULT_INTERVAL_NS
    }
}

/// The interval that a request limits frames to, if it limits them.
pub open spec fn limit_of(request: RefreshCycleOverride) -> Option<u64> {
    if request.apply_frame_limiter && request.frames_per_second != 0 {
        Some((1_000_000_000int / request.frames_per_second as int) as u64)
    } else {
        None
    }
}

/// The interval that a request limits frames to, if it limits them.
#[must_use]
pub fn refresh_limit_interval(request: RefreshCycleOverride) -> (limit_ns: Option<u64>)
    ensures
        limit_ns == limit_of(request),
{
    if request.apply_frame_limiter && request.frames_per_second != 0 {
        Some(1_000_000_000u64 / request.frames_per_second as u64)
    } else {
        None
    }
}

/// The interval between presented frames: that of the output, or a longer limit.
pub open spec fn paced(refresh_ns: u64, limit_ns: Option<u64>) -> u64 {
    match limit_ns {
        Some(limit) if limit > refresh_ns => limit,
        _ => refresh_ns,
    }
}

/// The interval between presented frames.
#[must_use]
pub fn presentation_interval(refresh_ns: u64, limit_ns: Option<u64>) -> (interval_ns: u64)
    ensures
        interval_ns == paced(refresh_ns, limit_ns),
{
    match limit_ns {
        Some(limit) => if limit > refresh_ns {
            limit
        } else {
            refresh_ns
        },
        None => refresh_ns,
    }
}

/// The time kept free for rendering at a rate: two fifths of its interval, to the nearest
/// nanosecond.
pub open spec fn render_margin(refresh_millihz: i32) -> int {
    (4 * interval_of(refresh_millihz) + 5) / 10
}

/// The delay between a flip and the next repaint.
pub open spec fn delay_of(refresh_millihz: i32, limit_ns: Option<u64>) -> u64 {
    (paced(interval_of(refresh_millihz), limit_ns) - render_margin(refresh_millihz)) as u64
}

/// The delay between a flip of an output and its next repaint, which leaves time for
/// rendering.
#[must_use]
pub fn repaint_delay(output: &HardwareOutputInfo, limit_ns: Option<u64>) -> (delay_ns: u64)
    ensures
        delay_ns == delay_of(output.refresh_millihz, limit_ns),
        delay_ns == paced(interval_of(output.refresh_millihz), limit_ns) - render_margin(
            output.refresh_millihz,
        ),
{
    let refresh: u64 = physical_refresh_interval(output);
    proof {
        lemma_interval_is_bounded(output.refresh_millihz);
    }
    let interval: u64 = presentation_interval(refresh, limit_ns);
    let margin: u64 = (4 * refresh + 5) / 10;
    interval - margin
}

/// A limiter never speeds an output up, and every repaint leaves a render margin before the
/// frame is due.
pub proof fn lemma_limiter_keeps_a_margin(refresh_millihz: i32, limit_ns: Option<u64>)
    ensures
        ({
            let interval = paced(interval_of(refresh_millihz), limit_ns);
            &&& interval >= interval_of(refresh_millihz)
            &&& limit_ns matches Some(limit) ==> interval >= limit
            &&& delay_of(refresh_millihz, limit_ns) + render_margin(refresh_millihz) == interval
            &&& render_margin(refresh_millihz) > 0
        }),
{
    lemma_interval_is_bounded(refresh_millihz);
}

/// What control clients are told of an output: whether it is built in, and whether it can
/// vary its rate.
pub open spec fn display_flags(screen: ScreenType, vrr_capable: bool) -> u32 {
    match (screen, vrr_capable) {
        (ScreenType::Internal, true) => 5,
        (ScreenType::Internal, false) => 1,
        (ScreenType::External, true) => 4,
        (ScreenType::External, false) => 0,
    }
}

pub open spec fn display_of(output: HardwareOutputView) -> ActiveDisplayView {
    ActiveDisplayView {
        connector_name: output.connector,
        display_make: output.display_make,
        display_model: output.display_model,
        flags: display_flags(output.screen, output.vrr_capable),
        valid_refresh_rates_hz: output.valid_refresh_rates_hz,
    }
}

/// What control clients are told of an output.
#[must_use]
pub fn active_display_info(output: &HardwareOutputInfo) -> (display: ActiveDisplayInfo)
    ensures
        display@ == display_of(output@),
{
    let mut flags: u32 = 0;
    if output.screen == ScreenType::Internal {
        flags = flags + 1;
    }
    if output.vrr_capable {
        flags = flags + 4;
    }
    let valid_refresh_rates_hz = output.valid_refresh_rates_hz.clone();
    assert(valid_refresh_rates_hz@ =~= output.valid_refresh_rates_hz@);
    ActiveDisplayInfo {
        connector_name: output.connector.clone(),
        display_make: output.display_make.clone(),
        display_model: output.display_model.clone(),
        flags,
        valid_refresh_rates_hz,
    }
}

/// The logical mode of a configuration on an output, at the rate of the output.
pub open spec fn logical_mode(config: OutputConfig, output: HardwareOutputView) -> OutputConfig {
    OutputConfig {
        refresh_millihz: output.refresh_millihz,
        ..config.resolved(output.width, output.height)
    }
}

/// The logical mode of a configuration on an output, at the rate of the output.
#[must_use]
pub fn logical_output(config: &OutputConfig, output: &HardwareOutputInfo) -> (mode: OutputConfig)
    ensures
        mode == logical_mode(*config, output@),
{
    let resolved = config.resolved_for_output(output.width, output.height);
    OutputConfig {
        width: resolved.width,
        height: resolved.height,
        refresh_millihz: output.refresh_millihz,
    }
}

/// When to draw the next frame and what to tell clients of it.
#[derive(Debug, PartialEq, Eq)]
pub struct FrameScheduler {
    pub output: HardwareOutputInfo,
    pub next_frame_id: u64,
    /// The frame that the device has not answered for.
    pub frame_in_flight: Option<u64>,
    pub repaint_at_ns: u128,
    /// When a frame that changed nothing counts as presented.
    pub idle_present_at_ns: Option<u128>,
    pub last_scanout_status: Option<DirectScanoutStatus>,
    pub output_asleep: bool,
    /// Limits of the interval between frames.
    pub limits: PerScreen<Option<u64>>,
    /// Monotonic time of the last flip.
    pub last_flip_ns: Option<u64>,
    pub presentation_sequence: u64,
}

impl FrameScheduler {
    /// The first frame of an output is drawn at once.
    #[must_use]
    pub fn new(output: HardwareOutputInfo, now_ns: u64) -> (scheduler: Self)
        ensures
            scheduler == (FrameScheduler {
                output,
                next_frame_id: 1,
                frame_in_flight: None,
                repaint_at_ns: now_ns as u128,
                idle_present_at_ns: None,
                last_scanout_status: None,
                output_asleep: false,
                limits: PerScreen { internal: None, external: None },
                last_flip_ns: None,
                presentation_sequence: 0,
            }),
    {
        Self {
            output,
            next_frame_id: 1,
            frame_in_flight: None,
            repaint_at_ns: now_ns as u128,
            idle_present_at_ns: None,
            last_scanout_status: None,
            output_asleep: false,
            limits: PerScreen { internal: None, external: None },
            last_flip_ns: None,
            presentation_sequence: 0,
        }
    }

    pub open spec fn interval(self) -> u64 {
        interval_of(self.output.refresh_millihz)
    }

    pub open spec fn limit(self) -> Option<u64> {
        self.limits.of(self.output.screen)
    }

    /// When something is to be done, if that is known.
    pub open spec fn deadline(self) -> Option<u128> {
        if self.idle_present_at_ns is Some {
            self.idle_present_at_ns
        } else if !self.output_asleep && self.frame_in_flight is None {
            Some(self.repaint_at_ns)
        } else {
            None
        }
    }

    /// How long to wait for events: until something is to be done, but never long.
    #[must_use]
    pub fn timeout(&self, now_ns: u64) -> (timeout_ns: u64)
        ensures
            timeout_ns == (match self.deadline() {
                Some(deadline) => if deadline <= now_ns {
                    0
                } else if deadline - now_ns < LONGEST_WAIT_NS {
                    (deadline - now_ns) as u64
                } else {
                    LONGEST_WAIT_NS
                },
                None => LONGEST_WAIT_NS,
            }),
    {
        let deadline: Option<u128> = if self.idle_present_at_ns.is_some() {
            self.idle_present_at_ns
        } else if !self.output_asleep && self.frame_in_flight.is_none() {
            Some(self.repaint_at_ns)
        } else {
            None
        };
        match deadline {
            Some(deadline) => {
                if deadline <= now_ns as u128 {
                    0
                } else {
                    let wait: u128 = deadline - now_ns as u128;
                    if wait < LONGEST_WAIT_NS as u128 {
                        wait as u64
                    } else {
                        LONGEST_WAIT_NS
                    }
                }
            },
            None => LONGEST_WAIT_NS,
        }
    }

    /// A frame that the device has answered for is no longer in flight.
    pub open spec fn landed(self, frame_id: u64) -> Option<u64> {
        if self.frame_in_flight == Some(frame_id) {
            None
        } else {
            self.frame_in_flight
        }
    }

    /// The schedule after an event of the worker.
    pub open spec fn after_event(
        self,
        event: HardwareEvent,
        now_ns: u64,
        monotonic_now_ns: u64,
    ) -> FrameScheduler {
        match event {
            HardwareEvent::Presented { frame_id, at_ns, monotonic_ns, scanout_status, .. } => {
                FrameScheduler {
                    frame_in_flight: self.landed(frame_id),
                    last_scanout_status: Some(scanout_status),
                    last_flip_ns: match monotonic_ns {
                        Some(time) => Some(time),
                        None => Some(monotonic_now_ns),
                    },
                    repaint_at_ns: (at_ns + delay_of(
                        self.output.refresh_millihz,
                        self.limit(),
                    )) as u128,
                    ..self
                }
            },
            HardwareEvent::FrameDeferred { frame_id } => FrameScheduler {
                frame_in_flight: self.landed(frame_id),
                idle_present_at_ns: Some((now_ns + self.interval()) as u128),
                ..self
            },
            HardwareEvent::OutputChanged(output) => FrameScheduler {
                output,
                output_asleep: false,
                repaint_at_ns: now_ns as u128,
                ..self
            },
            HardwareEvent::OutputDisconnected => FrameScheduler {
                frame_in_flight: None,
                output_asleep: true,
                ..self
            },
            HardwareEvent::OutputPowerChanged { asleep } => FrameScheduler {
                output_asleep: asleep,
                frame_in_flight: None,
                idle_present_at_ns: None,
                repaint_at_ns: if asleep {
                    self.repaint_at_ns
                } else {
                    now_ns as u128
                },
                ..self
            },
            HardwareEvent::Error(_) => FrameScheduler {
                frame_in_flight: None,
                repaint_at_ns: (now_ns + self.interval()) as u128,
                ..self
            },
        }
    }

    /// What the compositor makes known after an event of the worker: how frames reach the
    /// screen when that changed, and everything about an output that changed.
    pub open spec fn told(
        self,
        event: HardwareEvent,
        config: OutputConfig,
        before: StateView,
    ) -> StateView {
        match event {
            HardwareEvent::Presented { scanout_status, .. } => if self.last_scanout_status
                != Some(scanout_status) {
                StateView {
                    mailbox: MailboxView {
                        direct_scanout_status: Some(scanout_status.number()),
                        ..before.mailbox
                    },
                    ..before
                }
            } else {
                before
            },
            HardwareEvent::OutputChanged(output) => {
                let mode = logical_mode(config, output@);
                (StateView {
                    server: ServerView {
                        active_display: Some(display_of(output@)),
                        ..before.server
                    },
                    output: Some(mode.spec_mode()),
                    mailbox: MailboxView {
                        refresh_millihz: Some(output.refresh_millihz),
                        vrr_feedback: Some(
                            steam_properties::VrrFeedback {
                                capable: output.vrr_capable,
                                in_use: output.vrr_enabled,
                            },
                        ),
                        ..before.mailbox
                    },
                    ..before
                }).with_effects(
                    before.server.controls.map_values(
                        |resource: u64| Effect::Send(ServerEvent::ActiveDisplayInfo { resource }),
                    ),
                )
            },
            _ => before,
        }
    }

    /// An event of the worker. `config` is the configured logical output. Tells whether the
    /// buffer formats of the output are to be made known.
    pub fn hardware_event(
        &mut self,
        event: HardwareEvent,
        config: &OutputConfig,
        now_ns: u64,
        monotonic_now_ns: u64,
        compositor: &mut State,
    ) -> (formats_changed: bool)
        ensures
            *final(self) == old(self).after_event(event, now_ns, monotonic_now_ns),
            event is Presented ==> is_paced(
                *old(self),
                event->Presented_at_ns,
                final(self).repaint_at_ns as int,
            ),
            final(compositor)@ == old(self).told(event, *config, old(compositor)@),
            formats_changed == event is OutputChanged,
    {
        proof {
            lemma_interval_is_bounded(self.output.refresh_millihz);
        }
        match event {
            HardwareEvent::Presented {
                frame_id,
                at_ns,
                monotonic_ns,
                sequence: _,
                scanout_status,
            } => {
                self.land(frame_id);
                if self.last_scanout_status != Some(scanout_status) {
                    compositor.publish_direct_scanout_status(scanout_status.code());
                    self.last_scanout_status = Some(scanout_status);
                }
                self.last_flip_ns = match monotonic_ns {
                    Some(time) => Some(time),
                    None => Some(monotonic_now_ns),
                };
                let delay: u64 = repaint_delay(
                    &self.output,
                    self.limits.get(self.output.screen),
                );
                self.repaint_at_ns = at_ns as u128 + delay as u128;
                false
            },
            HardwareEvent::FrameDeferred { frame_id } => {
                self.land(frame_id);
                let refresh: u64 = physical_refresh_interval(&self.output);
                self.idle_present_at_ns = Some(now_ns as u128 + refresh as u128);
                false
            },
            HardwareEvent::OutputChanged(output) => {
                compositor.publish_active_display(active_display_info(&output));
                let mode = logical_output(config, &output);
                compositor.publish_output_mode(&mode);
                compositor.publish_hardware_vrr(output.vrr_capable, output.vrr_enabled);
                self.output = output;
                self.output_asleep = false;
                self.repaint_at_ns = now_ns as u128;
                true
            },
            HardwareEvent::OutputDisconnected => {
                self.frame_in_flight = None;
                self.output_asleep = true;
                false
            },
            HardwareEvent::OutputPowerChanged { asleep } => {
                self.output_asleep = asleep;
                self.frame_in_flight = None;
                self.idle_present_at_ns = None;
                if !asleep {
                    self.repaint_at_ns = now_ns as u128;
                }
                false
            },
            HardwareEvent::Error(_) => {
                self.frame_in_flight = None;
                let refresh: u64 = physical_refresh_interval(&self.output);
                self.repaint_at_ns = now_ns as u128 + refresh as u128;
                false
            },
        }
    }

    fn land(&mut self, frame_id: u64)
        ensures
            *final(self) == (FrameScheduler {
                frame_in_flight: old(self).landed(frame_id),
                ..*old(self)
            }),
    {
        if let Some(flying) = self.frame_in_flight {
            if flying == frame_id {
                self.frame_in_flight = None;
            }
        }
    }
}

/// What is due.
#[derive(Debug, PartialEq, Eq)]
pub enum FramePoll {
    Nothing,
    /// A frame that changed nothing counts as presented.
    Idle(Presentation),
    /// A frame goes to the worker, and clients are told when it will be shown.
    Submit { frame: HardwareFrame, presentation: Presentation },
}

impl FrameScheduler {
    pub open spec fn idle_is_due(self, now_ns: u64) -> bool {
        self.idle_present_at_ns matches Some(deadline) && now_ns >= deadline
    }

    pub open spec fn repaint_is_due(self, now_ns: u64) -> bool {
        !self.output_asleep && self.frame_in_flight is None && self.idle_present_at_ns is None
            && now_ns >= self.repaint_at_ns
    }

    pub open spec fn next_sequence(self) -> u64 {
        ((self.presentation_sequence + 1) % 0x1_0000_0000_0000_0000) as u64
    }

    /// When a frame that is submitted now will be shown: one interval after the last flip.
    pub open spec fn predicted_ns(self, monotonic_now_ns: u64) -> u128 {
        match self.last_flip_ns {
            Some(flip) => (flip + paced(self.interval(), self.limit())) as u128,
            None => (monotonic_now_ns + self.interval()) as u128,
        }
    }

    /// The interval between frames that clients are told about.
    #[must_use]
    pub fn frame_interval(&self) -> (interval: u64)
        ensures
            interval == paced(self.interval(), self.limit()),
    {
        presentation_interval(
            physical_refresh_interval(&self.output),
            self.limits.get(self.output.screen),
        )
    }

    /// When a frame that is submitted now will be shown.
    #[must_use]
    pub fn predicted(&self, monotonic_now_ns: u64) -> (at_ns: u128)
        ensures
            at_ns == self.predicted_ns(monotonic_now_ns),
    {
        match self.last_flip_ns {
            Some(flip) => flip as u128 + self.frame_interval() as u128,
            None => monotonic_now_ns as u128 + physical_refresh_interval(&self.output) as u128,
        }
    }

    /// The schedule after looking at the clock.
    pub open spec fn after_poll(self, now_ns: u64) -> FrameScheduler {
        if self.idle_is_due(now_ns) {
            FrameScheduler {
                idle_present_at_ns: None,
                presentation_sequence: self.next_sequence(),
                repaint_at_ns: (now_ns + IDLE_PAUSE_NS) as u128,
                ..self
            }
        } else if self.repaint_is_due(now_ns) {
            FrameScheduler {
                next_frame_id: ((self.next_frame_id + 1) % 0x1_0000_0000_0000_0000) as u64,
                frame_in_flight: Some(self.next_frame_id),
                presentation_sequence: self.next_sequence(),
                ..self
            }
        } else {
            self
        }
    }

    /// Look at the clock. Clients are told at the latest useful moment, before the frame is
    /// shown: waiting for the flip would cost them a whole frame.
    pub fn poll(
        &mut self,
        now_ns: u64,
        monotonic_now_ns: u64,
        cursor: Option<CursorLayer>,
        compositor: &mut State,
    ) -> (due: FramePoll)
        ensures
            *final(self) == old(self).after_poll(now_ns),
            ({
                let surface = match cursor {
                    Some(cursor) => Some(cursor.surface),
                    None => None,
                };
                let before = old(compositor)@;
                let after = final(compositor)@;
                if old(self).idle_is_due(now_ns) {
                    due matches FramePoll::Idle(presentation) && before.is_presented(
                        monotonic_now_ns as u128,
                        old(self).interval() as u128,
                        old(self).next_sequence(),
                        surface,
                        presentation,
                        after,
                    )
                } else if old(self).repaint_is_due(now_ns) {
                    &&& due matches FramePoll::Submit { frame, presentation }
                    &&& frame.id == old(self).next_frame_id
                    &&& frame.layers@ == before.policy.layers(before.fallback())
                    &&& frame.cursor == cursor
                    &&& before.is_presented(
                        old(self).predicted_ns(monotonic_now_ns),
                        paced(old(self).interval(), old(self).limit()) as u128,
                        old(self).next_sequence(),
                        surface,
                        presentation,
                        after,
                    )
                } else {
                    due is Nothing && after == before
                }
            }),
    {
        let surface: Option<u64> = match cursor {
            Some(cursor) => Some(cursor.surface),
            None => None,
        };
        let idle = match self.idle_present_at_ns {
            Some(deadline) => now_ns as u128 >= deadline,
            None => false,
        };
        if idle {
            self.idle_present_at_ns = None;
            let refresh: u64 = physical_refresh_interval(&self.output);
            self.presentation_sequence = self.presentation_sequence.wrapping_add(1);
            let presentation = compositor.presented_with_metadata(
                monotonic_now_ns as u128,
                refresh as u128,
                self.presentation_sequence,
                surface,
            );
            self.repaint_at_ns = now_ns as u128 + IDLE_PAUSE_NS as u128;
            return FramePoll::Idle(presentation);
        }
        if !self.output_asleep && self.frame_in_flight.is_none()
            && self.idle_present_at_ns.is_none() && now_ns as u128 >= self.repaint_at_ns {
            let frame_id: u64 = self.next_frame_id;
            self.next_frame_id = self.next_frame_id.wrapping_add(1);
            let frame = HardwareFrame { id: frame_id, layers: compositor.render_layers(), cursor };
            let interval: u64 = self.frame_interval();
            let predicted: u128 = self.predicted(monotonic_now_ns);
            self.presentation_sequence = self.presentation_sequence.wrapping_add(1);
            let presentation = compositor.presented_with_metadata(
                predicted,
                interval as u128,
                self.presentation_sequence,
                surface,
            );
            self.frame_in_flight = Some(frame_id);
            return FramePoll::Submit { frame, presentation };
        }
        FramePoll::Nothing
    }

    /// Hand a protocol command to the hardware. A command that it does not know comes back.
    pub fn route_command(
        &mut self,
        command: Command,
        control: &mut HardwareControl,
    ) -> (unknown: Option<Command>)
        ensures
            match command {
                Command::SetRefreshCycle(request) => {
                    &&& unknown is None
                    &&& *final(control) == (HardwareControl {
                        refresh: old(control).refresh.with(
                            request.screen,
                            drm::packed_refresh(request),
                        ),
                        ..*old(control)
                    })
                    &&& *final(self) == (FrameScheduler {
                        limits: old(self).limits.with(request.screen, limit_of(request)),
                        ..*old(self)
                    })
                },
                Command::SetDisplayPower(operation) => {
                    &&& unknown is None
                    &&& *final(control) == (HardwareControl {
                        sleep: old(control).sleep.with(operation.screen, Some(operation.sleep)),
                        ..*old(control)
                    })
                    &&& *final(self) == *old(self)
                },
                _ => {
                    &&& unknown == Some(command)
                    &&& *final(control) == *old(control)
                    &&& *final(self) == *old(self)
                },
            },
    {
        match command {
            Command::SetRefreshCycle(request) => {
                control.set_refresh_cycle(request);
                self.limits.set(request.screen, refresh_limit_interval(request));
                None
            },
            Command::SetDisplayPower(operation) => {
                control.set_display_power(operation);
                None
            },
            command => Some(command),
        }
    }
}

/// At most one frame is in flight: none is submitted while one is, and a frame that is
/// submitted stays in flight until the worker answers for it or the output goes away.
pub proof fn lemma_one_frame_in_flight(
    scheduler: FrameScheduler,
    now_ns: u64,
    event: HardwareEvent,
    later_ns: u64,
    monotonic_now_ns: u64,
)
    ensures
        scheduler.frame_in_flight is Some ==> scheduler.after_poll(now_ns).frame_in_flight
            == scheduler.frame_in_flight && scheduler.after_poll(now_ns).next_frame_id
            == scheduler.next_frame_id,
        scheduler.frame_in_flight is Some && scheduler.after_event(
            event,
            later_ns,
            monotonic_now_ns,
        ).frame_in_flight is None ==> match event {
            HardwareEvent::Presented { frame_id, .. } => scheduler.frame_in_flight == Some(
                frame_id,
            ),
            HardwareEvent::FrameDeferred { frame_id } => scheduler.frame_in_flight == Some(
                frame_id,
            ),
            HardwareEvent::OutputChanged(_) => false,
            _ => true,
        },
{
}

/// An output that sleeps or is gone gets no frame until it is back.
pub proof fn lemma_sleeping_output_gets_no_frame(scheduler: FrameScheduler, now_ns: u64)
    requires
        scheduler.output_asleep,
    ensures
        scheduler.after_poll(now_ns).next_frame_id == scheduler.next_frame_id,
        scheduler.after_poll(now_ns).output_asleep,
{
}

/// After an idle presentation the next frame waits for a moment.
pub proof fn lemma_idle_presentation_pauses(scheduler: FrameScheduler, now_ns: u64)
    requires
        scheduler.idle_is_due(now_ns),
    ensures
        !scheduler.after_poll(now_ns).idle_is_due(now_ns),
        !scheduler.after_poll(now_ns).repaint_is_due(now_ns),
{
}

/// How long a frame lasts: the interval of a rate is the longest with which the rate is
/// kept, an unknown rate counts as sixty hertz, a limit is the interval of its frame rate,
/// and the margin is two fifths of the interval.
pub proof fn lemma_intervals_keep_rates(refresh_millihz: i32, request: RefreshCycleOverride)
    ensures
        refresh_millihz > 0 ==> interval_of(refresh_millihz) * refresh_millihz
            <= 1_000_000_000_000 < (interval_of(refresh_millihz) + 1) * refresh_millihz,
        refresh_millihz <= 0 ==> interval_of(refresh_millihz) == 16_666_667,
        match limit_of(request) {
            Some(limit) => {
                &&& request.apply_frame_limiter
                &&& limit * request.frames_per_second <= 1_000_000_000 < (limit + 1)
                    * request.frames_per_second
            },
            None => !request.apply_frame_limiter || request.frames_per_second == 0,
        },
        -5 <= 10 * render_margin(refresh_millihz) - 4 * interval_of(refresh_millihz) <= 5,
{
    lemma_interval_is_bounded(refresh_millihz);
    if refresh_millihz > 0 {
        let rate = refresh_millihz as int;
        let interval = 1_000_000_000_000int / rate;
        assert(interval * rate <= 1_000_000_000_000 < (interval + 1) * rate) by (nonlinear_arith)
            requires
                0 < rate,
                interval == 1_000_000_000_000int / rate,
        ;
    }
    if request.apply_frame_limiter && request.frames_per_second != 0 {
        let rate = request.frames_per_second as int;
        let limit = 1_000_000_000int / rate;
        assert(0 <= limit <= 1_000_000_000 && limit * rate <= 1_000_000_000 < (limit + 1) * rate)
            by (nonlinear_arith)
            requires
                0 < rate,
                limit == 1_000_000_000int / rate,
        ;
    }
}

/// The limit that frames of the output in use are held to.
pub open spec fn limit_in_use(scheduler: FrameScheduler) -> Option<u64> {
    if scheduler.output.screen == ScreenType::Internal {
        scheduler.limits.internal
    } else {
        scheduler.limits.external
    }
}

/// Frames are paced. After a frame was shown, the next one is drawn so that it is ready one
/// margin before it is due: no earlier than the output's interval and the limit of its
/// display group allow, and no later than the longer of the two. No frame is submitted
/// before that, whatever the clock is asked in between.
pub proof fn lemma_frames_are_paced(
    scheduler: FrameScheduler,
    frame_id: u64,
    at_ns: u64,
    monotonic_ns: Option<u64>,
    sequence: u32,
    scanout_status: DirectScanoutStatus,
    now_ns: u64,
    monotonic_now_ns: u64,
    later_ns: u64,
)
    ensures
        ({
            let shown = HardwareEvent::Presented {
                frame_id,
                at_ns,
                monotonic_ns,
                sequence,
                scanout_status,
            };
            let after = scheduler.after_event(shown, now_ns, monotonic_now_ns);
            let interval = interval_of(scheduler.output.refresh_millihz);
            let ready = after.repaint_at_ns + render_margin(scheduler.output.refresh_millihz);
            &&& ready >= at_ns + interval
            &&& limit_in_use(scheduler) matches Some(limit) ==> ready >= at_ns + limit
            &&& ready != at_ns + interval ==> limit_in_use(scheduler) is Some && ready == at_ns
                + limit_in_use(scheduler).unwrap()
            &&& after.repaint_at_ns > at_ns
            &&& later_ns < after.repaint_at_ns ==> after.after_poll(later_ns).next_frame_id
                == after.next_frame_id
        }),
{
    lemma_interval_is_bounded(scheduler.output.refresh_millihz);
}

/// A frame is submitted exactly when the output is awake, the one before it has been
/// answered for, none that changed nothing waits to be counted, and its time has come. It
/// gets the next number, and the submission is the next presentation.
pub proof fn lemma_due_frames_are_submitted(scheduler: FrameScheduler, now_ns: u64)
    ensures
        ({
            let after = scheduler.after_poll(now_ns);
            let idle = scheduler.idle_present_at_ns matches Some(deadline) && now_ns >= deadline;
            let due = !scheduler.output_asleep && scheduler.frame_in_flight is None
                && scheduler.idle_present_at_ns is None && now_ns >= scheduler.repaint_at_ns;
            &&& idle ==> after == (FrameScheduler {
                idle_present_at_ns: None,
                presentation_sequence: after.presentation_sequence,
                repaint_at_ns: (now_ns + 1_000_000) as u128,
                ..scheduler
            })
            &&& due ==> after == (FrameScheduler {
                frame_in_flight: Some(scheduler.next_frame_id),
                next_frame_id: after.next_frame_id,
                presentation_sequence: after.presentation_sequence,
                ..scheduler
            })
            &&& due && scheduler.next_frame_id < u64::MAX ==> after.next_frame_id
                == scheduler.next_frame_id + 1
            &&& (idle || due) && scheduler.presentation_sequence < u64::MAX
                ==> after.presentation_sequence == scheduler.presentation_sequence + 1
            &&& !idle && !due ==> after == scheduler
            &&& scheduler.idle_is_due(now_ns) == idle
            &&& scheduler.repaint_is_due(now_ns) == due
        }),
{
}

/// Clients are told that a frame is shown one paced interval after the last flip, or one
/// interval from now before the first one.
pub proof fn lemma_predictions_follow_flips(scheduler: FrameScheduler, monotonic_now_ns: u64)
    ensures
        scheduler.last_flip_ns matches Some(flip) ==> ({
            let wait = scheduler.predicted_ns(monotonic_now_ns) - flip;
            let interval = interval_of(scheduler.output.refresh_millihz);
            &&& wait >= interval
            &&& limit_in_use(scheduler) matches Some(limit) ==> wait >= limit
            &&& wait == interval || limit_in_use(scheduler) == Some(wait as u64)
        }),
        scheduler.last_flip_ns is None ==> scheduler.predicted_ns(monotonic_now_ns)
            == monotonic_now_ns + interval_of(scheduler.output.refresh_millihz),
{
    lemma_interval_is_bounded(scheduler.output.refresh_millihz);
}

/// What events do to the schedule. A frame that was shown or deferred is no longer in flight
/// and no other frame is touched; a deferred frame counts as presented one interval later;
/// an output that changed or woke up is drawn at once; an output that is gone or asleep has
/// no frame; and after an error the next frame waits for one interval.
pub proof fn lemma_events_change_the_schedule(
    scheduler: FrameScheduler,
    event: HardwareEvent,
    now_ns: u64,
    monotonic_now_ns: u64,
)
    ensures
        ({
            let after = scheduler.after_event(event, now_ns, monotonic_now_ns);
            let interval = interval_of(scheduler.output.refresh_millihz);
            &&& after.next_frame_id == scheduler.next_frame_id
            &&& after.presentation_sequence == scheduler.presentation_sequence
            &&& after.limits == scheduler.limits
            &&& match event {
                HardwareEvent::Presented { frame_id, monotonic_ns, scanout_status, .. } => {
                    &&& after.frame_in_flight == (if scheduler.frame_in_flight == Some(frame_id) {
                        None
                    } else {
                        scheduler.frame_in_flight
                    })
                    &&& after.last_scanout_status == Some(scanout_status)
                    &&& monotonic_ns is Some ==> after.last_flip_ns == monotonic_ns
                    &&& monotonic_ns is None ==> after.last_flip_ns == Some(monotonic_now_ns)
                    &&& after.output == scheduler.output
                    &&& after.output_asleep == scheduler.output_asleep
                    &&& after.idle_present_at_ns == scheduler.idle_present_at_ns
                },
                HardwareEvent::FrameDeferred { frame_id } => {
                    &&& after.frame_in_flight == (if scheduler.frame_in_flight == Some(frame_id) {
                        None
                    } else {
                        scheduler.frame_in_flight
                    })
                    &&& after.idle_present_at_ns == Some((now_ns + interval) as u128)
                    &&& after.repaint_at_ns == scheduler.repaint_at_ns
                    &&& after.output == scheduler.output
                    &&& after.output_asleep == scheduler.output_asleep
                    &&& after.last_flip_ns == scheduler.last_flip_ns
                },
                HardwareEvent::OutputChanged(output) => {
                    &&& after.output == output
                    &&& !after.output_asleep
                    &&& after.repaint_at_ns == now_ns
                    &&& after.frame_in_flight == scheduler.frame_in_flight
                    &&& after.idle_present_at_ns == scheduler.idle_present_at_ns
                    &&& after.last_flip_ns == scheduler.last_flip_ns
                },
                HardwareEvent::OutputDisconnected => {
                    &&& after.output_asleep
                    &&& after.frame_in_flight is None
                    &&& after.output == scheduler.output
                    &&& after.repaint_at_ns == scheduler.repaint_at_ns
                },
                HardwareEvent::OutputPowerChanged { asleep } => {
                    &&& after.output_asleep == asleep
                    &&& after.frame_in_flight is None
                    &&& after.idle_present_at_ns is None
                    &&& !asleep ==> after.repaint_at_ns == now_ns
                    &&& asleep ==> after.repaint_at_ns == scheduler.repaint_at_ns
                    &&& after.output == scheduler.output
                },
                HardwareEvent::Error(_) => {
                    &&& after.frame_in_flight is None
                    &&& after.repaint_at_ns == now_ns + interval
                    &&& after.output == scheduler.output
                    &&& after.output_asleep == scheduler.output_asleep
                },
            }
        }),
{
    lemma_interval_is_bounded(scheduler.output.refresh_millihz);
}

/// The wait for events ends no later than the next thing that is due: a frame that waits to
/// be counted before anything else, and a repaint only while the output is awake and no
/// frame is in flight.
pub proof fn lemma_waits_end_in_time(scheduler: FrameScheduler)
    ensures
        scheduler.idle_present_at_ns is Some ==> scheduler.deadline()
            == scheduler.idle_present_at_ns,
        scheduler.idle_present_at_ns is None && !scheduler.output_asleep
            && scheduler.frame_in_flight is None ==> scheduler.deadline() == Some(
            scheduler.repaint_at_ns,
        ),
        scheduler.idle_present_at_ns is None && (scheduler.output_asleep
            || scheduler.frame_in_flight is Some) ==> scheduler.deadline() is None,
{
}

/// Steam and clients learn what the hardware does: how frames reach the screen whenever that
/// changed and only then, and of a new output its identity, its mode, its rate and what it
/// can do about variable refresh. Every control client is told of the new output, and no
/// other event is told to anyone.
pub proof fn lemma_hardware_is_made_known(
    scheduler: FrameScheduler,
    event: HardwareEvent,
    config: OutputConfig,
    before: StateView,
)
    ensures
        ({
            let after = scheduler.told(event, config, before);
            match event {
                HardwareEvent::Presented { scanout_status, .. } => {
                    &&& scheduler.last_scanout_status == Some(scanout_status) ==> after == before
                    &&& scheduler.last_scanout_status != Some(scanout_status)
                        ==> after.mailbox.direct_scanout_status == Some(scanout_status.number())
                    &&& after.effects == before.effects
                    &&& after.server == before.server
                    &&& after.output == before.output
                },
                HardwareEvent::OutputChanged(output) => {
                    &&& after.mailbox.refresh_millihz == Some(output.refresh_millihz)
                    &&& after.mailbox.vrr_feedback matches Some(feedback) && feedback.capable
                        == output.vrr_capable && feedback.in_use == output.vrr_enabled
                    &&& after.output matches Some(mode) && mode.refresh == output.refresh_millihz
                        && mode.width == config.resolved(output.width, output.height).width
                        && mode.height == config.resolved(output.width, output.height).height
                    &&& after.server.active_display matches Some(display) && {
                        &&& display.connector_name == output.connector@
                        &&& display.display_make == output.display_make@
                        &&& display.display_model == output.display_model@
                        &&& display.valid_refresh_rates_hz == output.valid_refresh_rates_hz@
                        &&& display.flags == one_or_none(
                            output.screen == ScreenType::Internal,
                        ) + 4 * one_or_none(output.vrr_capable)
                    }
                    &&& after.effects.len() == before.effects.len() + before.server.controls.len()
                    &&& forall|i: int|
                        0 <= i < before.effects.len() ==> #[trigger] after.effects[i]
                            == before.effects[i]
                    &&& forall|i: int|
                        0 <= i < before.server.controls.len() ==> after.effects[before.effects.len()
                            + i] == Effect::Send(
                            ServerEvent::ActiveDisplayInfo {
                                resource: #[trigger] before.server.controls[i],
                            },
                        )
                    &&& after.policy == before.policy
                },
                _ => after == before,
            }
        }),
{
}

/// One for a yes, zero for a no.
pub open spec fn one_or_none(yes: bool) -> int {
    if yes {
        1
    } else {
        0
    }
}

/// Whether a frame is drawn so that it is ready, one margin later, when the output's interval
/// and the limit of its display group have both passed since the last one was shown, and no
/// later.
pub open spec fn is_paced(scheduler: FrameScheduler, at_ns: u64, repaint_at_ns: int) -> bool {
    let interval = interval_of(scheduler.output.refresh_millihz);
    let ready = repaint_at_ns + render_margin(scheduler.output.refresh_millihz);
    &&& ready >= at_ns + interval
    &&& limit_in_use(scheduler) is Some ==> ready >= at_ns + limit_in_use(scheduler)->0
    &&& ready != at_ns + interval ==> limit_in_use(scheduler) is Some && ready == at_ns
        + limit_in_use(scheduler)->0
    &&& repaint_at_ns > at_ns
}

} // verus!
