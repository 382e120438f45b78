//! State behind the Gamescope protocol globals.
//!
//! Requests become [`Command`] values for the compositor, and completions become
//! [`ServerEvent`] values for the protocol objects that wait for them.

use vstd::prelude::*;

use crate::action_binding;
use crate::action_binding::{
    ActionBinding, ActionBindingView, TriggeredEvent, ARM_NO_BLOCK, ARM_ONE_SHOT,
    TRIGGER_KEYBOARD,
};
use crate::control;
use crate::control::{
    decode_display_sleep, decode_refresh_cycle_override, feature_advertisement,
    PerformanceRequest, PerformanceRequests,
};
use crate::input_method::{InputMethodAction, InputMethodState, InputMethodView};
use crate::lists;
use crate::lists::remove_id;
use crate::protocol;
use crate::protocol::{
    ActiveDisplayInfo, ActiveDisplayView, BindingRequest, Command, ControlRequest,
    InputMethodCommand, InputMethodRequest, PrivateReply, ReshadeReply, ReshadeRequest,
    ServerConfig, ServerEvent, SwapchainRequest,
};
use crate::swapchain;
use crate::swapchain::{CommitMetadata, PastPresentTiming, SwapchainFeedback, SwapchainState};
use crate::text;
use crate::wire;
use crate::wire::{bytes_from_words, native_is_little, split_u64, words_from_bytes};

verus! {

/// A bound action binding.
#[derive(Debug)]
struct BindingEntry {
    resource: u64,
    binding: ActionBinding,
}

/// What a bound action binding holds.
pub struct BindingView {
    pub resource: u64,
    pub binding: ActionBindingView,
}

impl View for BindingEntry {
    type V = BindingView;

    closed spec fn view(&self) -> BindingView {
        BindingView { resource: self.resource, binding: self.binding@ }
    }
}

/// A surface with swapchains.
#[derive(Debug)]
struct SurfaceEntry {
    surface: u64,
    state: SwapchainState,
    resources: Vec<u64>,
    last_refresh_cycle_ns: Option<u64>,
}

/// What a surface with swapchains holds.
pub struct SurfaceView {
    pub surface: u64,
    pub state: CommitMetadata,
    pub resources: Seq<u64>,
    pub last_refresh_cycle_ns: Option<u64>,
}

impl View for SurfaceEntry {
    type V = SurfaceView;

    closed spec fn view(&self) -> SurfaceView {
        SurfaceView {
            surface: self.surface,
            state: self.state@,
            resources: self.resources@,
            last_refresh_cycle_ns: self.last_refresh_cycle_ns,
        }
    }
}

/// An input method created by a client.
#[derive(Debug)]
struct InputMethodEntry {
    resource: u64,
    state: InputMethodState,
}

/// What an input method holds.
pub struct InputMethodEntryView {
    pub resource: u64,
    pub state: InputMethodView,
}

impl View for InputMethodEntry {
    type V = InputMethodEntryView;

    closed spec fn view(&self) -> InputMethodEntryView {
        InputMethodEntryView { resource: self.resource, state: self.state@ }
    }
}

spec fn binding_views(entries: Seq<BindingEntry>) -> Seq<BindingView> {
    entries.map_values(|entry: BindingEntry| entry@)
}

spec fn surface_views(entries: Seq<SurfaceEntry>) -> Seq<SurfaceView> {
    entries.map_values(|entry: SurfaceEntry| entry@)
}

spec fn input_method_views(entries: Seq<InputMethodEntry>) -> Seq<InputMethodEntryView> {
    entries.map_values(|entry: InputMethodEntry| entry@)
}

/// Protocol state owned by the compositor's Wayland event-loop thread.
#[derive(Debug)]
pub struct GamescopeState {
    commands: Vec<Command>,
    controls: Vec<u64>,
    active_display: Option<ActiveDisplayInfo>,
    performance_requests: PerformanceRequests,
    privates: Vec<u64>,
    bindings: Vec<BindingEntry>,
    action_sequence: u32,
    surfaces: Vec<SurfaceEntry>,
    input_methods: Vec<InputMethodEntry>,
    little_endian: bool,
}

/// What the protocol state holds.
pub struct ServerView {
    /// Work for the compositor, oldest first.
    pub commands: Seq<Command>,
    /// Bound controls, oldest first.
    pub controls: Seq<u64>,
    pub active_display: Option<ActiveDisplayView>,
    /// Outstanding requests for performance statistics.
    pub performance_requests: Seq<PerformanceRequest>,
    /// Bound private globals, oldest first.
    pub privates: Seq<u64>,
    pub bindings: Seq<BindingView>,
    /// Sequence number of the next triggered action.
    pub action_sequence: u32,
    pub surfaces: Seq<SurfaceView>,
    pub input_methods: Seq<InputMethodEntryView>,
    /// Byte order of arrays on the wire.
    pub little_endian: bool,
}

impl View for GamescopeState {
    type V = ServerView;

    closed spec fn view(&self) -> ServerView {
        ServerView {
            commands: self.commands@,
            controls: self.controls@,
            active_display: protocol::display_view(self.active_display),
            performance_requests: self.performance_requests@,
            privates: self.privates@,
            bindings: binding_views(self.bindings@),
            action_sequence: self.action_sequence,
            surfaces: surface_views(self.surfaces@),
            input_methods: input_method_views(self.input_methods@),
            little_endian: self.little_endian,
        }
    }
}

/// A state that knows nothing but its active display.
pub open spec fn fresh_state(
    active_display: Option<ActiveDisplayView>,
    little_endian: bool,
) -> ServerView {
    ServerView {
        commands: Seq::empty(),
        controls: Seq::empty(),
        active_display,
        performance_requests: Seq::empty(),
        privates: Seq::empty(),
        bindings: Seq::empty(),
        action_sequence: 0,
        surfaces: Seq::empty(),
        input_methods: Seq::empty(),
        little_endian,
    }
}

impl Default for GamescopeState {
    fn default() -> (state: Self)
        ensures
            state@ == fresh_state(None, state@.little_endian),
            wire::is_native_order(state@.little_endian),
    {
        Self::with_config(&ServerConfig::default())
    }
}

impl GamescopeState {
    /// Seed protocol state with the display information used for future binds.
    #[must_use]
    pub fn with_config(config: &ServerConfig) -> (state: Self)
        ensures
            state@ == fresh_state(
                protocol::display_view(config.active_display),
                state@.little_endian,
            ),
            wire::is_native_order(state@.little_endian),
    {
        let active_display = match &config.active_display {
            Some(display) => Some(display.clone()),
            None => None,
        };
        let state = Self {
            commands: Vec::new(),
            controls: Vec::new(),
            active_display,
            performance_requests: PerformanceRequests::default(),
            privates: Vec::new(),
            bindings: Vec::new(),
            action_sequence: 0,
            surfaces: Vec::new(),
            input_methods: Vec::new(),
            little_endian: native_is_little(),
        };
        assert(state@.bindings =~= Seq::<BindingView>::empty());
        assert(state@.surfaces =~= Seq::<SurfaceView>::empty());
        assert(state@.input_methods =~= Seq::<InputMethodEntryView>::empty());
        state
    }

    /// Take the backend work in request order.
    pub fn drain_commands(&mut self) -> (commands: Vec<Command>)
        ensures
            commands@ == old(self)@.commands,
            final(self)@ == (ServerView { commands: Seq::empty(), ..old(self)@ }),
    {
        let mut commands: Vec<Command> = Vec::new();
        std::mem::swap(&mut commands, &mut self.commands);
        commands
    }

    /// The display that control resources are told about.
    #[must_use]
    pub fn active_display(&self) -> (display: Option<&ActiveDisplayInfo>)
        ensures
            match display {
                Some(display) => self@.active_display == Some(display@),
                None => self@.active_display is None,
            },
    {
        self.active_display.as_ref()
    }

    /// The refresh rates of the active display as the array of its event.
    #[must_use]
    pub fn refresh_rate_bytes(&self) -> (bytes: Vec<u8>)
        ensures
            bytes@ == (match self@.active_display {
                Some(display) => wire::bytes_in(
                    display.valid_refresh_rates_hz,
                    self@.little_endian,
                ),
                None => Seq::empty(),
            }),
    {
        match &self.active_display {
            Some(display) => bytes_from_words(
                display.valid_refresh_rates_hz.as_slice(),
                self.little_endian,
            ),
            None => Vec::new(),
        }
    }
}

/// The effect of a `gamescope_control` request.
pub open spec fn control_effect(
    state: ServerView,
    resource: u64,
    request: ControlRequest,
) -> ServerView {
    match request {
        ControlRequest::Destroy => state,
        ControlRequest::SetAppTargetRefreshCycle { fps, flags } => with_command(
            state,
            Command::SetRefreshCycle(control::refresh_override(fps, flags)),
        ),
        ControlRequest::TakeScreenshot { path, screenshot_type, flags } => with_command(
            state,
            Command::TakeScreenshot { path, screenshot_type, flags },
        ),
        ControlRequest::DisplaySleep { display_type, flags } => ServerView {
            commands: state.commands + control::power_operations(display_type, flags).map_values(
                |operation: control::DisplayPowerOperation| Command::SetDisplayPower(operation),
            ),
            ..state
        },
        ControlRequest::SetLook { lut3d_g22, lut3d_pq, flags } => with_command(
            state,
            Command::SetLook { gamma_22_lut: lut3d_g22, pq_lut: lut3d_pq, flags },
        ),
        ControlRequest::UnsetLook => with_command(state, Command::UnsetLook),
        ControlRequest::RequestAppPerformanceStats { app_id } => ServerView {
            performance_requests: state.performance_requests.push(
                PerformanceRequest { control_id: resource, app_id },
            ),
            ..state
        },
    }
}

/// One more command at the end of the queue.
pub open spec fn with_command(state: ServerView, command: Command) -> ServerView {
    ServerView { commands: state.commands.push(command), ..state }
}

/// The effect of a `gamescope_reshade` request.
pub open spec fn reshade_effect(
    state: ServerView,
    resource: u64,
    request: ReshadeRequest,
) -> ServerView {
    match request {
        ReshadeRequest::Destroy => state,
        ReshadeRequest::SetEffect { path } => with_command(
            state,
            Command::SetReshadeEffect { reply: ReshadeReply(resource), path },
        ),
        ReshadeRequest::EnableEffect => with_command(state, Command::EnableReshadeEffect),
        ReshadeRequest::SetUniformVariable { key, value } => with_command(
            state,
            Command::SetReshadeUniform { key, value },
        ),
        ReshadeRequest::DisableEffect => with_command(state, Command::DisableReshadeEffect),
    }
}

/// The events that greet a new control.
pub open spec fn control_greeting(resource: u64, has_display: bool) -> Seq<ServerEvent> {
    let features = control::advertised_features().map_values(
        |support: control::FeatureSupport| ServerEvent::FeatureSupport { resource, support },
    );
    if has_display {
        features.push(ServerEvent::ActiveDisplayInfo { resource })
    } else {
        features
    }
}

impl GamescopeState {
    /// Greet a new `gamescope_control` binding with the features and the active
    /// display. `display` is the display known when the global was registered; it is
    /// used when nothing newer is known.
    pub fn bind_control(&mut self, resource: u64, display: Option<ActiveDisplayInfo>) -> (events:
        Vec<ServerEvent>)
        ensures
            final(self)@ == (ServerView {
                controls: old(self)@.controls.push(resource),
                active_display: if old(self)@.active_display is Some {
                    old(self)@.active_display
                } else {
                    protocol::display_view(display)
                },
                ..old(self)@
            }),
            events@ == control_greeting(resource, final(self)@.active_display is Some),
    {
        let features = feature_advertisement();
        let ghost greeting = control_greeting(resource, false);
        let mut events: Vec<ServerEvent> = Vec::new();
        let mut i: usize = 0;
        while i < 8
            invariant
                i <= 8,
                features@ == control::advertised_features(),
                greeting == control_greeting(resource, false),
                greeting.len() == 8,
                events@ == greeting.take(i as int),
            decreases 8 - i,
        {
            events.push(ServerEvent::FeatureSupport { resource, support: features[i] });
            assert(greeting.take(i + 1) =~= greeting.take(i as int).push(greeting[i as int]));
            i = i + 1;
        }
        assert(events@ =~= greeting);
        if self.active_display.is_none() {
            self.active_display = display;
        }
        if self.active_display.is_some() {
            events.push(ServerEvent::ActiveDisplayInfo { resource });
        }
        self.controls.push(resource);
        events
    }

    /// Handle a `gamescope_control` request.
    pub fn control_request(&mut self, resource: u64, request: ControlRequest)
        ensures
            final(self)@ == control_effect(old(self)@, resource, request),
    {
        match request {
            ControlRequest::Destroy => {},
            ControlRequest::SetAppTargetRefreshCycle { fps, flags } => {
                self.commands.push(
                    Command::SetRefreshCycle(decode_refresh_cycle_override(fps, flags)),
                );
            },
            ControlRequest::TakeScreenshot { path, screenshot_type, flags } => {
                self.commands.push(Command::TakeScreenshot { path, screenshot_type, flags });
            },
            ControlRequest::DisplaySleep { display_type, flags } => {
                let operations = decode_display_sleep(display_type, flags);
                let ghost before = self.commands@;
                let ghost sent = operations@.map_values(
                    |operation: control::DisplayPowerOperation| Command::SetDisplayPower(operation),
                );
                let ghost unchanged = *self;
                let mut i: usize = 0;
                assert(before + sent.take(0) =~= before);
                while i < operations.len()
                    invariant
                        i <= operations@.len(),
                        sent == operations@.map_values(
                            |operation: control::DisplayPowerOperation|
                                Command::SetDisplayPower(operation),
                        ),
                        self.commands@ == before + sent.take(i as int),
                        *self == (GamescopeState { commands: self.commands, ..unchanged }),
                    decreases operations@.len() - i,
                {
                    self.commands.push(Command::SetDisplayPower(operations[i]));
                    assert(before + sent.take(i + 1) =~= (before + sent.take(i as int)).push(
                        sent[i as int],
                    ));
                    i = i + 1;
                }
                assert(sent.take(i as int) =~= sent);
            },
            ControlRequest::SetLook { lut3d_g22, lut3d_pq, flags } => {
                self.commands.push(
                    Command::SetLook { gamma_22_lut: lut3d_g22, pq_lut: lut3d_pq, flags },
                );
            },
            ControlRequest::UnsetLook => {
                self.commands.push(Command::UnsetLook);
            },
            ControlRequest::RequestAppPerformanceStats { app_id } => {
                self.performance_requests.request(resource, app_id);
            },
        }
    }

    /// Remember a new `gamescope_private` binding.
    pub fn bind_private(&mut self, resource: u64)
        ensures
            final(self)@ == (ServerView {
                privates: old(self)@.privates.push(resource),
                ..old(self)@
            }),
    {
        self.privates.push(resource);
    }

    /// Handle `gamescope_private.execute`.
    pub fn private_execute(&mut self, resource: u64, command: String, value: String)
        ensures
            final(self)@ == with_command(
                old(self)@,
                Command::ExecutePrivate { reply: PrivateReply(resource), command, value },
            ),
    {
        self.commands.push(
            Command::ExecutePrivate { reply: PrivateReply(resource), command, value },
        );
    }

    /// Handle a `gamescope_reshade` request.
    pub fn reshade_request(&mut self, resource: u64, request: ReshadeRequest)
        ensures
            final(self)@ == reshade_effect(old(self)@, resource, request),
    {
        match request {
            ReshadeRequest::Destroy => {},
            ReshadeRequest::SetEffect { path } => {
                self.commands.push(
                    Command::SetReshadeEffect { reply: ReshadeReply(resource), path },
                );
            },
            ReshadeRequest::EnableEffect => {
                self.commands.push(Command::EnableReshadeEffect);
            },
            ReshadeRequest::SetUniformVariable { key, value } => {
                self.commands.push(Command::SetReshadeUniform { key, value });
            },
            ReshadeRequest::DisableEffect => {
                self.commands.push(Command::DisableReshadeEffect);
            },
        }
    }

    /// Handle `gamescope_xwayland.override_window_content` from a client of the given
    /// Xwayland server.
    pub fn override_window_content(
        &mut self,
        surface: u64,
        xwayland_server_id: u32,
        x11_window: u32,
    )
        ensures
            final(self)@ == with_command(
                old(self)@,
                Command::OverrideWindowContent { surface, xwayland_server_id, x11_window },
            ),
    {
        self.commands.push(
            Command::OverrideWindowContent { surface, xwayland_server_id, x11_window },
        );
    }

    /// The stream node announced to a new `gamescope_pipewire` binding.
    #[must_use]
    pub fn bind_pipewire(resource: u64, node_id: u32) -> (event: ServerEvent)
        ensures
            event == (ServerEvent::StreamNode { resource, node_id }),
    {
        ServerEvent::StreamNode { resource, node_id }
    }

    /// Update the snapshot used by future clients and tell every existing control
    /// resource.
    pub fn set_active_display(&mut self, display: Option<ActiveDisplayInfo>) -> (events: Vec<
        ServerEvent,
    >)
        ensures
            final(self)@ == (ServerView {
                active_display: protocol::display_view(display),
                ..old(self)@
            }),
            events@ == (if display is Some {
                old(self)@.controls.map_values(
                    |resource: u64| ServerEvent::ActiveDisplayInfo { resource },
                )
            } else {
                Seq::empty()
            }),
    {
        let told = display.is_some();
        self.active_display = display;
        let mut events: Vec<ServerEvent> = Vec::new();
        if told {
            let mut i: usize = 0;
            while i < self.controls.len()
                invariant
                    i <= self.controls@.len(),
                    events@ == self.controls@.take(i as int).map_values(
                        |resource: u64| ServerEvent::ActiveDisplayInfo { resource },
                    ),
                decreases self.controls@.len() - i,
            {
                events.push(ServerEvent::ActiveDisplayInfo { resource: self.controls[i] });
                i = i + 1;
            }
            assert(self.controls@.take(i as int) =~= self.controls@);
        }
        events
    }

    /// Notify every control binding after a requested screenshot was successfully
    /// written.
    #[must_use]
    pub fn screenshot_taken(&self, path: String) -> (events: Vec<ServerEvent>)
        ensures
            events@ == self@.controls.map_values(
                |resource: u64| ServerEvent::ScreenshotTaken { resource, path },
            ),
    {
        let mut events: Vec<ServerEvent> = Vec::new();
        let mut i: usize = 0;
        while i < self.controls.len()
            invariant
                i <= self.controls@.len(),
                events@ == self.controls@.take(i as int).map_values(
                    |resource: u64| ServerEvent::ScreenshotTaken { resource, path },
                ),
            decreases self.controls@.len() - i,
        {
            events.push(
                ServerEvent::ScreenshotTaken { resource: self.controls[i], path: path.clone() },
            );
            i = i + 1;
        }
        assert(self.controls@.take(i as int) =~= self.controls@);
        events
    }

    /// Deliver the next frame-time response to all controls waiting for this
    /// app ID, then clear those one-shot requests.
    pub fn app_presented(&mut self, app_id: u32, frametime_ns: u64) -> (events: Vec<ServerEvent>)
        ensures
            events@ == control::waiting_controls(
                old(self)@.performance_requests,
                app_id,
            ).map_values(
                |resource: u64|
                    ServerEvent::AppPerformanceStats {
                        resource,
                        app_id,
                        low: wire::low_word(frametime_ns),
                        high: wire::high_word(frametime_ns),
                    },
            ),
            final(self)@ == (ServerView {
                performance_requests: old(self)@.performance_requests.filter(
                    |request: PerformanceRequest| request.app_id != app_id,
                ),
                ..old(self)@
            }),
    {
        let stats = self.performance_requests.app_presented(app_id, frametime_ns);
        let ghost waiting = stats@.map_values(
            |event: control::PerformanceStatsEvent| event.control_id,
        );
        let mut events: Vec<ServerEvent> = Vec::new();
        let mut i: usize = 0;
        while i < stats.len()
            invariant
                i <= stats@.len(),
                waiting == stats@.map_values(
                    |event: control::PerformanceStatsEvent| event.control_id,
                ),
                forall|j: int|
                    #![trigger stats@[j]]
                    0 <= j < stats@.len() ==> stats@[j].app_id == app_id
                        && stats@[j].frametime_ns_high == wire::high_word(frametime_ns)
                        && stats@[j].frametime_ns_low == wire::low_word(frametime_ns),
                events@ == waiting.take(i as int).map_values(
                    |resource: u64|
                        ServerEvent::AppPerformanceStats {
                            resource,
                            app_id,
                            low: wire::low_word(frametime_ns),
                            high: wire::high_word(frametime_ns),
                        },
                ),
            decreases stats@.len() - i,
        {
            let event = stats[i];
            events.push(
                ServerEvent::AppPerformanceStats {
                    resource: event.control_id,
                    app_id: event.app_id,
                    low: event.frametime_ns_low,
                    high: event.frametime_ns_high,
                },
            );
            i = i + 1;
        }
        assert(waiting.take(i as int) =~= waiting);
        events
    }

    /// Complete a successfully executed private command, if its requester is still
    /// bound.
    #[must_use]
    pub fn private_command_executed(&self, reply: PrivateReply) -> (event: Option<ServerEvent>)
        ensures
            event == (if self@.privates.contains(reply.0) {
                Some(ServerEvent::CommandExecuted { resource: reply.0 })
            } else {
                None
            }),
    {
        if lists::has_id(&self.privates, reply.0) {
            Some(ServerEvent::CommandExecuted { resource: reply.0 })
        } else {
            None
        }
    }

    /// Broadcast a console log line to currently bound private clients.
    #[must_use]
    pub fn broadcast_log(&self, text: String) -> (events: Vec<ServerEvent>)
        ensures
            events@ == self@.privates.map_values(
                |resource: u64| ServerEvent::Log { resource, text },
            ),
    {
        let mut events: Vec<ServerEvent> = Vec::new();
        let mut i: usize = 0;
        while i < self.privates.len()
            invariant
                i <= self.privates@.len(),
                events@ == self.privates@.take(i as int).map_values(
                    |resource: u64| ServerEvent::Log { resource, text },
                ),
            decreases self.privates@.len() - i,
        {
            events.push(ServerEvent::Log { resource: self.privates[i], text: text.clone() });
            i = i + 1;
        }
        assert(self.privates@.take(i as int) =~= self.privates@);
        events
    }

    /// Complete asynchronous `ReShade` effect loading for its requester, if that is
    /// still alive.
    #[must_use]
    pub fn reshade_effect_ready(reply: ReshadeReply, path: String, alive: bool) -> (event: Option<
        ServerEvent,
    >)
        ensures
            event == (if alive {
                Some(ServerEvent::EffectReady { resource: reply.0, path })
            } else {
                None
            }),
    {
        if alive {
            Some(ServerEvent::EffectReady { resource: reply.0, path })
        } else {
            None
        }
    }
}

/// The predicate of being the binding of a resource.
pub open spec fn is_binding(resource: u64) -> spec_fn(BindingView) -> bool {
    |entry: BindingView| entry.resource == resource
}

/// The effect of a request on an action binding.
pub open spec fn binding_effect(
    binding: ActionBindingView,
    request: BindingRequest,
    little_endian: bool,
) -> ActionBindingView {
    match request {
        BindingRequest::Destroy => binding,
        BindingRequest::SetDescription { description } => ActionBindingView {
            description: description@,
            ..binding
        },
        BindingRequest::AddKeyboardTrigger { keysyms } => ActionBindingView {
            triggers: binding.triggers.push(
                action_binding::normalized_set(wire::words_in(keysyms@, little_endian)),
            ),
            ..binding
        },
        BindingRequest::ClearTriggers => ActionBindingView { triggers: Seq::empty(), ..binding },
        BindingRequest::Arm { arm_flags } => ActionBindingView {
            arm_flags: Some(arm_flags),
            ..binding
        },
        BindingRequest::Disarm => ActionBindingView { arm_flags: None, ..binding },
    }
}

/// How often a binding executes for a pressed set: once for each matching trigger, and
/// only once when it blocks input or disarms itself.
pub open spec fn executions(binding: ActionBindingView, pressed: Set<u32>) -> nat {
    let matching = binding.matches(pressed);
    match binding.arm_flags {
        Some(flags) => if matching > 0 && (flags & ARM_NO_BLOCK != 0 || flags & ARM_ONE_SHOT
            != 0) {
            1
        } else {
            matching
        },
        None => 0,
    }
}

/// Whether a binding executes and then keeps the key press from the focused client.
pub open spec fn blocks(binding: ActionBindingView, pressed: Set<u32>) -> bool {
    binding.arm_flags matches Some(flags) && flags & ARM_NO_BLOCK != 0 && binding.matches(pressed)
        > 0
}

/// A binding after a key press that reached it.
pub open spec fn after_execution(binding: ActionBindingView, pressed: Set<u32>) -> ActionBindingView {
    match binding.arm_flags {
        Some(flags) => if flags & ARM_ONE_SHOT != 0 && binding.matches(pressed) > 0 {
            ActionBindingView { arm_flags: None, ..binding }
        } else {
            binding
        },
        None => binding,
    }
}

/// The bindings that execute for a key press, one entry for each execution: bindings
/// are asked in order, up to the first that blocks.
pub open spec fn triggered(bindings: Seq<BindingView>, pressed: Set<u32>) -> Seq<u64>
    decreases bindings.len(),
{
    if bindings.len() == 0 {
        Seq::empty()
    } else {
        let first = bindings[0];
        Seq::new(executions(first.binding, pressed), |i: int| first.resource) + (if blocks(
            first.binding,
            pressed,
        ) {
            Seq::empty()
        } else {
            triggered(bindings.drop_first(), pressed)
        })
    }
}

/// The bindings after a key press.
pub open spec fn after_press(bindings: Seq<BindingView>, pressed: Set<u32>) -> Seq<BindingView>
    decreases bindings.len(),
{
    if bindings.len() == 0 {
        bindings
    } else {
        let first = bindings[0];
        seq![
            BindingView {
                resource: first.resource,
                binding: after_execution(first.binding, pressed),
            },
        ] + (if blocks(first.binding, pressed) {
            bindings.drop_first()
        } else {
            after_press(bindings.drop_first(), pressed)
        })
    }
}

/// Whether some binding blocks a key press.
pub open spec fn press_blocked(bindings: Seq<BindingView>, pressed: Set<u32>) -> bool {
    exists|i: int| 0 <= i < bindings.len() && blocks((#[trigger] bindings[i]).binding, pressed)
}

/// The event for the execution that comes `offset` after sequence number `start`.
pub open spec fn triggered_event(
    resource: u64,
    start: u32,
    offset: int,
    time_ns: u64,
) -> ServerEvent {
    ServerEvent::Triggered {
        resource,
        event: TriggeredEvent {
            sequence: ((start + offset) % 0x1_0000_0000) as u32,
            time_low: wire::low_word(time_ns),
            time_high: wire::high_word(time_ns),
            trigger_flags: TRIGGER_KEYBOARD,
        },
    }
}

/// The events for a list of executions, numbered consecutively.
pub open spec fn triggered_events(
    resources: Seq<u64>,
    start: u32,
    time_ns: u64,
) -> Seq<ServerEvent> {
    Seq::new(resources.len(), |i: int| triggered_event(resources[i], start, i, time_ns))
}

impl GamescopeState {
    /// Remember a new action binding.
    pub fn create_action_binding(&mut self, resource: u64)
        ensures
            final(self)@ == (ServerView {
                bindings: old(self)@.bindings.push(
                    BindingView {
                        resource,
                        binding: ActionBindingView {
                            description: Seq::empty(),
                            triggers: Seq::empty(),
                            arm_flags: None,
                        },
                    },
                ),
                ..old(self)@
            }),
    {
        let entry = BindingEntry { resource, binding: ActionBinding::default() };
        self.bindings.push(entry);
        assert(self@.bindings =~= old(self)@.bindings.push(entry@));
    }

    fn find_binding(&self, resource: u64) -> (index: usize)
        ensures
            index == lists::first_index(binding_views(self.bindings@), is_binding(resource)),
            index <= self.bindings@.len(),
    {
        let ghost views = binding_views(self.bindings@);
        let ghost wanted = is_binding(resource);
        let mut i: usize = 0;
        while i < self.bindings.len()
            invariant
                i <= self.bindings@.len(),
                views == binding_views(self.bindings@),
                wanted == is_binding(resource),
                forall|j: int| 0 <= j < i ==> !wanted(#[trigger] views[j]),
            decreases self.bindings@.len() - i,
        {
            assert(views[i as int] == self.bindings@[i as int]@);
            if self.bindings[i].resource == resource {
                proof {
                    lists::lemma_first_index(views, wanted, i as int);
                }
                return i;
            }
            i = i + 1;
        }
        proof {
            lists::lemma_first_index(views, wanted, i as int);
        }
        i
    }

    /// Handle a `gamescope_action_binding` request. A binding that is gone ignores it.
    pub fn action_binding_request(&mut self, resource: u64, request: BindingRequest)
        ensures
            ({
                let index = lists::first_index(old(self)@.bindings, is_binding(resource));
                final(self)@ == (if index < old(self)@.bindings.len() {
                    let entry = old(self)@.bindings[index];
                    ServerView {
                        bindings: old(self)@.bindings.update(
                            index,
                            BindingView {
                                resource: entry.resource,
                                binding: binding_effect(
                                    entry.binding,
                                    request,
                                    old(self)@.little_endian,
                                ),
                            },
                        ),
                        ..old(self)@
                    }
                } else {
                    old(self)@
                })
            }),
    {
        let index: usize = self.find_binding(resource);
        if index >= self.bindings.len() {
            return;
        }
        let ghost before = self.bindings@;
        let little = self.little_endian;
        apply_binding_request(&mut self.bindings[index].binding, request, little);
        let ghost entry = before[index as int];
        assert(self.bindings@ == before.update(index as int, self.bindings@[index as int]));
        assert(self@.bindings =~= binding_views(before).update(
            index as int,
            BindingView {
                resource: entry.resource,
                binding: binding_effect(entry.binding@, request, little),
            },
        ));
    }

    /// Match the currently pressed keysyms against armed protocol bindings. Returns
    /// the events to send and whether the key event is kept from the focused client.
    pub fn process_pressed_keysyms(&mut self, pressed: &[u32], monotonic_time_ns: u64) -> (result: (
        Vec<ServerEvent>,
        bool,
    ))
        ensures
            ({
                let keys = action_binding::normalized_set(pressed@);
                let executed = triggered(old(self)@.bindings, keys);
                &&& result.0@ == triggered_events(
                    executed,
                    old(self)@.action_sequence,
                    monotonic_time_ns,
                )
                &&& result.1 == press_blocked(old(self)@.bindings, keys)
                &&& final(self)@ == (ServerView {
                    bindings: after_press(old(self)@.bindings, keys),
                    action_sequence: ((old(self)@.action_sequence + executed.len())
                        % 0x1_0000_0000) as u32,
                    ..old(self)@
                })
            }),
    {
        let ghost keys = action_binding::normalized_set(pressed@);
        let ghost before = binding_views(self.bindings@);
        let ghost start = self.action_sequence;
        let ghost unchanged = *self;
        let ghost all = triggered(before, keys);
        let ghost mut done: Seq<u64> = Seq::empty();
        let mut events: Vec<ServerEvent> = Vec::new();
        let mut i: usize = 0;
        assert(before.skip(0) =~= before);
        assert(done + all =~= all);
        assert(before.take(0) + after_press(before, keys) =~= after_press(before, keys));
        while i < self.bindings.len()
            invariant
                i <= self.bindings@.len() == before.len(),
                unchanged == *old(self),
                before == old(self)@.bindings,
                start == old(self)@.action_sequence,
                keys == action_binding::normalized_set(pressed@),
                all == triggered(before, keys),
                *self == (GamescopeState {
                    bindings: self.bindings,
                    action_sequence: self.action_sequence,
                    ..unchanged
                }),
                all == done + triggered(before.skip(i as int), keys),
                events@ == triggered_events(done, start, monotonic_time_ns),
                self.action_sequence == ((start + done.len()) % 0x1_0000_0000) as u32,
                binding_views(self.bindings@).skip(i as int) == before.skip(i as int),
                after_press(before, keys) == binding_views(self.bindings@).take(i as int)
                    + after_press(before.skip(i as int), keys),
                forall|j: int| 0 <= j < i ==> !blocks((#[trigger] before[j]).binding, keys),
            decreases self.bindings@.len() - i,
        {
            let ghost rest = before.skip(i as int);
            let ghost entries = self.bindings@;
            let ghost entry = before[i as int];
            assert(rest[0] == entry);
            assert(binding_views(entries).skip(i as int)[0] == entries[i as int]@);
            assert(entries[i as int]@ == entry);
            assert(rest.drop_first() =~= before.skip(i + 1));
            let resource: u64 = self.bindings[i].resource;
            let (mut fired, next_sequence, blocked) = press_binding(
                &mut self.bindings[i].binding,
                resource,
                pressed,
                self.action_sequence,
                monotonic_time_ns,
            );
            let ghost fired_ids = Seq::new(executions(entry.binding, keys), |k: int| resource);
            let ghost fired_events = fired@;
            let ghost events_before = events@;
            events.append(&mut fired);
            self.action_sequence = next_sequence;
            assert(self.bindings@ == entries.update(i as int, self.bindings@[i as int]));
            let ghost after = BindingView {
                resource,
                binding: after_execution(entry.binding, keys),
            };
            assert(binding_views(self.bindings@) =~= binding_views(entries).update(
                i as int,
                after,
            ));
            assert(events@ =~= triggered_events(done + fired_ids, start, monotonic_time_ns)) by {
                assert forall|k: int| 0 <= k < fired_ids.len() implies #[trigger] fired_events[k]
                    == triggered_event(resource, start, done.len() + k, monotonic_time_ns) by {
                    lemma_wrapped_sum(start as int, done.len() as int, k);
                }
            }
            proof {
                lemma_wrapped_sum(start as int, done.len() as int, fired_ids.len() as int);
            }
            if blocked {
                assert(all =~= done + fired_ids);
                assert(press_blocked(before, keys));
                assert(self@.bindings =~= after_press(before, keys)) by {
                    assert(after_press(rest, keys) == seq![after] + rest.drop_first());
                    assert forall|j: int| 0 <= j < before.len() implies #[trigger] self@.bindings[j]
                        == after_press(before, keys)[j] by {
                        if j < i {
                            assert(after_press(before, keys)[j] == binding_views(entries).take(
                                i as int,
                            )[j]);
                        } else if j > i {
                            assert(after_press(before, keys)[j] == rest.drop_first()[j - i - 1]);
                            assert(binding_views(entries).skip(i as int)[j - i] == rest[j - i]);
                        }
                    }
                    assert(after_press(before, keys).len() == before.len());
                }
                return (events, true);
            }
            proof {
                assert(all =~= (done + fired_ids) + triggered(before.skip(i + 1), keys));
                done = done + fired_ids;
                assert(after_press(rest, keys) =~= seq![after] + after_press(
                    before.skip(i + 1),
                    keys,
                ));
                assert(binding_views(self.bindings@).take(i + 1) =~= binding_views(entries).take(
                    i as int,
                ) + seq![after]);
                assert(after_press(before, keys) =~= binding_views(self.bindings@).take(i + 1)
                    + after_press(before.skip(i + 1), keys));
                assert(binding_views(self.bindings@).skip(i + 1) =~= binding_views(entries).skip(
                    i as int,
                ).drop_first());
            }
            i = i + 1;
        }
        assert(before.skip(i as int) =~= Seq::<BindingView>::empty());
        assert(all =~= done);
        assert(binding_views(self.bindings@).take(i as int) =~= binding_views(self.bindings@));
        assert(self@.bindings =~= after_press(before, keys));
        (events, false)
    }
}

proof fn lemma_wrapped_sum(start: int, first: int, second: int)
    ensures
        ((start + first) % 0x1_0000_0000 + second) % 0x1_0000_0000 == (start + (first + second))
            % 0x1_0000_0000,
{
}

/// Apply a request to an action binding.
pub fn apply_binding_request(
    binding: &mut ActionBinding,
    request: BindingRequest,
    little_endian: bool,
)
    ensures
        final(binding)@ == binding_effect(old(binding)@, request, little_endian),
{
    match request {
        BindingRequest::Destroy => {},
        BindingRequest::SetDescription { description } => {
            binding.set_description(description.as_str());
        },
        BindingRequest::AddKeyboardTrigger { keysyms } => {
            let words = words_from_bytes(keysyms.as_slice(), little_endian);
            binding.add_keyboard_trigger(words.as_slice());
        },
        BindingRequest::ClearTriggers => {
            binding.clear_triggers();
        },
        BindingRequest::Arm { arm_flags } => {
            binding.arm(arm_flags);
        },
        BindingRequest::Disarm => {
            binding.disarm();
        },
    }
}

/// Execute one binding for a key press: once for each matching trigger, until it blocks
/// input or disarms itself. Returns the events, the next sequence number and whether
/// the key press goes no further.
pub fn press_binding(
    binding: &mut ActionBinding,
    resource: u64,
    pressed: &[u32],
    sequence: u32,
    monotonic_time_ns: u64,
) -> (result: (Vec<ServerEvent>, u32, bool))
    ensures
        ({
            let keys = action_binding::normalized_set(pressed@);
            let count = executions(old(binding)@, keys);
            &&& result.0@ == triggered_events(
                Seq::new(count, |i: int| resource),
                sequence,
                monotonic_time_ns,
            )
            &&& result.1 == ((sequence + count) % 0x1_0000_0000) as u32
            &&& result.2 == blocks(old(binding)@, keys)
            &&& final(binding)@ == after_execution(old(binding)@, keys)
        }),
{
    let ghost keys = action_binding::normalized_set(pressed@);
    let ghost before = binding@;
    let matching: usize = binding.matching_trigger_count(pressed);
    let mut events: Vec<ServerEvent> = Vec::new();
    let mut next: u32 = sequence;
    let mut i: usize = 0;
    while i < matching && binding.is_armed()
        invariant
            i <= matching,
            before == old(binding)@,
            keys == action_binding::normalized_set(pressed@),
            matching == before.matches(keys),
            binding@ == (if i > 0 {
                after_execution(before, keys)
            } else {
                before
            }),
            i > 0 ==> !blocks(before, keys),
            i > 1 ==> (before.arm_flags matches Some(flags) && flags & ARM_ONE_SHOT == 0),
            next == ((sequence + i) % 0x1_0000_0000) as u32,
            events@ == triggered_events(
                Seq::new(i as nat, |k: int| resource),
                sequence,
                monotonic_time_ns,
            ),
        decreases matching - i,
    {
        if let Some(execution) = binding.execute(next, monotonic_time_ns) {
            proof {
                lemma_wrapped_sum(sequence as int, i as int, 1);
                wire::lemma_word_value_injective(
                    execution.event.time_high,
                    execution.event.time_low,
                    wire::high_word(monotonic_time_ns),
                    wire::low_word(monotonic_time_ns),
                );
            }
            next = next.wrapping_add(1);
            events.push(ServerEvent::Triggered { resource, event: execution.event });
            assert(events@ =~= triggered_events(
                Seq::new((i + 1) as nat, |k: int| resource),
                sequence,
                monotonic_time_ns,
            ));
            if execution.blocks_input {
                assert(executions(before, keys) == 1 && i == 0);
                return (events, next, true);
            }
        }
        i = i + 1;
    }
    (events, next, false)
}

/// The predicate of being the entry of a surface.
pub open spec fn is_surface(surface: u64) -> spec_fn(SurfaceView) -> bool {
    |entry: SurfaceView| entry.surface == surface
}

/// The predicate of being the entry of a swapchain's surface.
pub open spec fn has_swapchain(resource: u64) -> spec_fn(SurfaceView) -> bool {
    |entry: SurfaceView| entry.resources.contains(resource)
}

/// The predicate of being the input method of a resource.
pub open spec fn is_input_method(resource: u64) -> spec_fn(InputMethodEntryView) -> bool {
    |entry: InputMethodEntryView| entry.resource == resource
}

/// The effect of creating a swapchain: swapchains of one surface share its state.
pub open spec fn with_swapchain(
    surfaces: Seq<SurfaceView>,
    surface: u64,
    resource: u64,
) -> Seq<SurfaceView> {
    let index = lists::first_index(surfaces, is_surface(surface));
    if index < surfaces.len() {
        surfaces.update(
            index,
            SurfaceView {
                resources: surfaces[index].resources.push(resource),
                ..surfaces[index]
            },
        )
    } else {
        surfaces.push(
            SurfaceView {
                surface,
                state: swapchain::only_feedback(None),
                resources: seq![resource],
                last_refresh_cycle_ns: None,
            },
        )
    }
}

/// The effect of a swapchain request on the state of its surface. New feedback is that of
/// a new swapchain, which has no HDR metadata yet.
pub open spec fn swapchain_effect(state: CommitMetadata, request: SwapchainRequest) -> CommitMetadata {
    match request {
        SwapchainRequest::Destroy => state,
        SwapchainRequest::OverrideWindowContent { .. } => state,
        SwapchainRequest::Feedback(feedback) => CommitMetadata {
            feedback: Some(swapchain::SwapchainFeedback { hdr_metadata: None, ..feedback }),
            ..state
        },
        SwapchainRequest::SetPresentMode { vk_present_mode } => CommitMetadata {
            vk_present_mode: Some(vk_present_mode),
            ..state
        },
        SwapchainRequest::SetHdrMetadata(metadata) => match state.feedback {
            Some(feedback) if metadata.accepted() => CommitMetadata {
                feedback: Some(
                    swapchain::SwapchainFeedback { hdr_metadata: Some(metadata), ..feedback },
                ),
                ..state
            },
            _ => state,
        },
        SwapchainRequest::SetPresentTime { present_id, desired_high, desired_low } => {
            CommitMetadata {
                present_id: Some(present_id),
                desired_present_time_ns: wire::word_value(desired_high, desired_low) as u64,
                ..state
            }
        },
    }
}

/// The commands that a swapchain request gives the compositor.
pub open spec fn swapchain_commands(surface: u64, request: SwapchainRequest) -> Seq<Command> {
    match request {
        SwapchainRequest::OverrideWindowContent { xwayland_server_id, x11_window } => seq![
            Command::OverrideWindowContent { surface, xwayland_server_id, x11_window },
        ],
        _ => Seq::empty(),
    }
}

/// The events for the swapchains of a presented surface: the refresh cycle if it is news,
/// and the timing if the commit asked for it.
pub open spec fn presentation_events(
    resources: Seq<u64>,
    refresh_cycle_ns: Option<u64>,
    timing: Option<PastPresentTiming>,
) -> Seq<ServerEvent>
    decreases resources.len(),
{
    if resources.len() == 0 {
        Seq::empty()
    } else {
        let resource = resources.last();
        let refresh = match refresh_cycle_ns {
            Some(cycle) => seq![
                ServerEvent::RefreshCycle {
                    resource,
                    high: wire::high_word(cycle),
                    low: wire::low_word(cycle),
                },
            ],
            None => Seq::empty(),
        };
        let past = match timing {
            Some(timing) => seq![ServerEvent::PastPresentTiming { resource, timing }],
            None => Seq::empty(),
        };
        presentation_events(resources.drop_last(), refresh_cycle_ns, timing) + refresh + past
    }
}

impl GamescopeState {
    fn find_surface(&self, surface: u64) -> (index: usize)
        ensures
            index == lists::first_index(surface_views(self.surfaces@), is_surface(surface)),
            index <= self.surfaces@.len(),
    {
        let ghost views = surface_views(self.surfaces@);
        let ghost wanted = is_surface(surface);
        let mut i: usize = 0;
        while i < self.surfaces.len()
            invariant
                i <= self.surfaces@.len(),
                views == surface_views(self.surfaces@),
                wanted == is_surface(surface),
                forall|j: int| 0 <= j < i ==> !wanted(#[trigger] views[j]),
            decreases self.surfaces@.len() - i,
        {
            assert(views[i as int] == self.surfaces@[i as int]@);
            if self.surfaces[i].surface == surface {
                proof {
                    lists::lemma_first_index(views, wanted, i as int);
                }
                return i;
            }
            i = i + 1;
        }
        proof {
            lists::lemma_first_index(views, wanted, i as int);
        }
        i
    }

    fn find_swapchain(&self, resource: u64) -> (index: usize)
        ensures
            index == lists::first_index(surface_views(self.surfaces@), has_swapchain(resource)),
            index <= self.surfaces@.len(),
    {
        let ghost views = surface_views(self.surfaces@);
        let ghost wanted = has_swapchain(resource);
        let mut i: usize = 0;
        while i < self.surfaces.len()
            invariant
                i <= self.surfaces@.len(),
                views == surface_views(self.surfaces@),
                wanted == has_swapchain(resource),
                forall|j: int| 0 <= j < i ==> !wanted(#[trigger] views[j]),
            decreases self.surfaces@.len() - i,
        {
            assert(views[i as int] == self.surfaces@[i as int]@);
            if lists::has_id(&self.surfaces[i].resources, resource) {
                proof {
                    lists::lemma_first_index(views, wanted, i as int);
                }
                return i;
            }
            i = i + 1;
        }
        proof {
            lists::lemma_first_index(views, wanted, i as int);
        }
        i
    }

    /// Remember a new swapchain of a surface.
    pub fn create_swapchain(&mut self, surface: u64, resource: u64)
        ensures
            final(self)@ == (ServerView {
                surfaces: with_swapchain(old(self)@.surfaces, surface, resource),
                ..old(self)@
            }),
    {
        let index: usize = self.find_surface(surface);
        let ghost before = self.surfaces@;
        if index < self.surfaces.len() {
            self.surfaces[index].resources.push(resource);
            assert(self.surfaces@ == before.update(index as int, self.surfaces@[index as int]));
        } else {
            let mut resources: Vec<u64> = Vec::new();
            resources.push(resource);
            assert(resources@ =~= seq![resource]);
            self.surfaces.push(
                SurfaceEntry {
                    surface,
                    state: SwapchainState::default(),
                    resources,
                    last_refresh_cycle_ns: None,
                },
            );
        }
        assert(self@.surfaces =~= with_swapchain(surface_views(before), surface, resource));
    }

    /// Handle a `gamescope_swapchain` request. A swapchain whose surface is gone ignores
    /// it.
    pub fn swapchain_request(&mut self, resource: u64, request: SwapchainRequest)
        ensures
            ({
                let index = lists::first_index(old(self)@.surfaces, has_swapchain(resource));
                final(self)@ == (if index < old(self)@.surfaces.len() {
                    let entry = old(self)@.surfaces[index];
                    ServerView {
                        surfaces: old(self)@.surfaces.update(
                            index,
                            SurfaceView { state: swapchain_effect(entry.state, request), ..entry },
                        ),
                        commands: old(self)@.commands + swapchain_commands(
                            entry.surface,
                            request,
                        ),
                        ..old(self)@
                    }
                } else {
                    old(self)@
                })
            }),
    {
        let index: usize = self.find_swapchain(resource);
        if index >= self.surfaces.len() {
            return;
        }
        let ghost before = self.surfaces@;
        let ghost entry = before[index as int];
        let surface: u64 = self.surfaces[index].surface;
        match request {
            SwapchainRequest::Destroy => {},
            SwapchainRequest::OverrideWindowContent { xwayland_server_id, x11_window } => {
                self.commands.push(
                    Command::OverrideWindowContent { surface, xwayland_server_id, x11_window },
                );
            },
            SwapchainRequest::Feedback(feedback) => {
                self.surfaces[index].state.set_feedback(
                    SwapchainFeedback { hdr_metadata: None, ..feedback },
                );
            },
            SwapchainRequest::SetPresentMode { vk_present_mode } => {
                self.surfaces[index].state.set_present_mode(vk_present_mode);
            },
            SwapchainRequest::SetHdrMetadata(metadata) => {
                let _result = self.surfaces[index].state.set_hdr_metadata(metadata);
            },
            SwapchainRequest::SetPresentTime { present_id, desired_high, desired_low } => {
                self.surfaces[index].state.set_present_time(present_id, desired_high, desired_low);
            },
        }
        assert(self.surfaces@ == before.update(index as int, self.surfaces@[index as int]));
        assert(self@.surfaces =~= surface_views(before).update(
            index as int,
            SurfaceView { state: swapchain_effect(entry.state@, request), ..entry@ },
        ));
        assert(self@.commands =~= old(self)@.commands + swapchain_commands(surface, request));
    }

    /// Snapshot the Vulkan-layer metadata associated with one surface commit.
    pub fn prepare_surface_commit(&mut self, surface: u64) -> (metadata: Option<CommitMetadata>)
        ensures
            ({
                let index = lists::first_index(old(self)@.surfaces, is_surface(surface));
                if index < old(self)@.surfaces.len() {
                    let entry = old(self)@.surfaces[index];
                    &&& metadata == Some(entry.state)
                    &&& final(self)@ == (ServerView {
                        surfaces: old(self)@.surfaces.update(
                            index,
                            SurfaceView {
                                state: swapchain::only_feedback(entry.state.feedback),
                                ..entry
                            },
                        ),
                        ..old(self)@
                    })
                } else {
                    metadata is None && final(self)@ == old(self)@
                }
            }),
    {
        let index: usize = self.find_surface(surface);
        if index >= self.surfaces.len() {
            return None;
        }
        let ghost before = self.surfaces@;
        let ghost entry = before[index as int];
        let metadata = self.surfaces[index].state.prepare_commit();
        assert(self.surfaces@ == before.update(index as int, self.surfaces@[index as int]));
        assert(self@.surfaces =~= surface_views(before).update(
            index as int,
            SurfaceView { state: swapchain::only_feedback(entry.state@.feedback), ..entry@ },
        ));
        Some(metadata)
    }

    /// Publish timing for a commit after the backend has presented it.
    pub fn surface_presented(
        &mut self,
        surface: u64,
        commit: &CommitMetadata,
        actual_present_time_ns: u64,
        earliest_present_time_ns: u64,
        present_margin_ns: u64,
        refresh_cycle_ns: u64,
    ) -> (events: Vec<ServerEvent>)
        ensures
            ({
                let index = lists::first_index(old(self)@.surfaces, is_surface(surface));
                if index < old(self)@.surfaces.len() {
                    let entry = old(self)@.surfaces[index];
                    let news = entry.last_refresh_cycle_ns != Some(refresh_cycle_ns);
                    &&& events@ == presentation_events(
                        entry.resources,
                        if news {
                            Some(refresh_cycle_ns)
                        } else {
                            None
                        },
                        match commit.present_id {
                            Some(present_id) => Some(
                                PastPresentTiming {
                                    present_id,
                                    desired_present_time_ns: commit.desired_present_time_ns,
                                    actual_present_time_ns,
                                    earliest_present_time_ns,
                                    present_margin_ns,
                                },
                            ),
                            None => None,
                        },
                    )
                    &&& final(self)@ == (ServerView {
                        surfaces: old(self)@.surfaces.update(
                            index,
                            SurfaceView {
                                last_refresh_cycle_ns: Some(refresh_cycle_ns),
                                ..entry
                            },
                        ),
                        ..old(self)@
                    })
                } else {
                    events@ == Seq::<ServerEvent>::empty() && final(self)@ == old(self)@
                }
            }),
    {
        let index: usize = self.find_surface(surface);
        if index >= self.surfaces.len() {
            return Vec::new();
        }
        let ghost before = self.surfaces@;
        let ghost entry = before[index as int];
        let news = match self.surfaces[index].last_refresh_cycle_ns {
            Some(last) => last != refresh_cycle_ns,
            None => true,
        };
        let cycle: Option<u64> = if news {
            Some(refresh_cycle_ns)
        } else {
            None
        };
        let timing: Option<PastPresentTiming> = match commit.present_id {
            Some(present_id) => Some(
                PastPresentTiming {
                    present_id,
                    desired_present_time_ns: commit.desired_present_time_ns,
                    actual_present_time_ns,
                    earliest_present_time_ns,
                    present_margin_ns,
                },
            ),
            None => None,
        };
        let events = send_presentation(&self.surfaces[index].resources, cycle, timing);
        self.surfaces[index].last_refresh_cycle_ns = Some(refresh_cycle_ns);
        assert(self.surfaces@ == before.update(index as int, self.surfaces@[index as int]));
        assert(self@.surfaces =~= surface_views(before).update(
            index as int,
            SurfaceView { last_refresh_cycle_ns: Some(refresh_cycle_ns), ..entry@ },
        ));
        events
    }
}

fn send_presentation(
    resources: &Vec<u64>,
    refresh_cycle_ns: Option<u64>,
    timing: Option<PastPresentTiming>,
) -> (events: Vec<ServerEvent>)
    ensures
        events@ == presentation_events(resources@, refresh_cycle_ns, timing),
{
    let mut events: Vec<ServerEvent> = Vec::new();
    let mut i: usize = 0;
    assert(events@ =~= presentation_events(resources@.take(0), refresh_cycle_ns, timing));
    while i < resources.len()
        invariant
            i <= resources@.len(),
            events@ == presentation_events(resources@.take(i as int), refresh_cycle_ns, timing),
        decreases resources@.len() - i,
    {
        let resource: u64 = resources[i];
        let ghost before = events@;
        assert(resources@.take(i + 1).drop_last() =~= resources@.take(i as int));
        assert(resources@.take(i + 1).last() == resource);
        if let Some(cycle) = refresh_cycle_ns {
            let (high, low) = split_u64(cycle);
            events.push(ServerEvent::RefreshCycle { resource, high, low });
        }
        if let Some(timing) = timing {
            events.push(ServerEvent::PastPresentTiming { resource, timing });
        }
        assert(events@ =~= presentation_events(
            resources@.take(i + 1),
            refresh_cycle_ns,
            timing,
        ));
        i = i + 1;
    }
    assert(resources@.take(i as int) =~= resources@);
    events
}

/// An input method after it has handed out a pointer timestamp.
pub open spec fn after_timestamp(state: InputMethodView) -> InputMethodView {
    InputMethodView {
        pointer_timestamp: ((state.pointer_timestamp + 1) % 0x1_0000_0000) as u32,
        ..state
    }
}

/// How a request changes an input method and which command it gives the compositor.
pub open spec fn input_method_step(
    before: InputMethodView,
    request: InputMethodRequest,
    after: InputMethodView,
    command: Option<InputMethodCommand>,
) -> bool {
    let time_msec = after_timestamp(before).pointer_timestamp;
    match request {
        InputMethodRequest::Destroy => after == before && command is None,
        InputMethodRequest::Commit { serial } => if serial == before.serial {
            &&& after == (InputMethodView {
                pending_text: None,
                pending_action: InputMethodAction::NoAction,
                ..before
            })
            &&& command matches Some(InputMethodCommand::Commit(commit))
            &&& text::optional(commit.text) == before.pending_text
            &&& commit.action == before.pending_action
        } else {
            after == before && command is None
        },
        InputMethodRequest::SetString { text } => {
            &&& after == (InputMethodView { pending_text: Some(text@), ..before })
            &&& command is None
        },
        InputMethodRequest::SetAction { action } => {
            &&& after == (match InputMethodAction::numbered(action) {
                Some(action) => InputMethodView { pending_action: action, ..before },
                None => before,
            })
            &&& command is None
        },
        InputMethodRequest::PointerMotion { dx, dy } => {
            &&& after == after_timestamp(before)
            &&& command == Some(InputMethodCommand::PointerMotion { dx, dy, time_msec })
        },
        InputMethodRequest::PointerWarp { x, y } => {
            &&& after == after_timestamp(before)
            &&& command == Some(InputMethodCommand::PointerWarp { x, y, time_msec })
        },
        InputMethodRequest::PointerWheel { x, y } => {
            &&& after == after_timestamp(before)
            &&& command == Some(InputMethodCommand::PointerWheel { x, y, time_msec })
        },
        InputMethodRequest::PointerButton { button, state } => {
            &&& after == after_timestamp(before)
            &&& command == Some(
                InputMethodCommand::PointerButton { button, pressed: state == 1, time_msec },
            )
        },
    }
}

/// Apply a request to an input method.
pub fn apply_input_method_request(
    input_method: &mut InputMethodState,
    request: InputMethodRequest,
) -> (command: Option<InputMethodCommand>)
    ensures
        input_method_step(old(input_method)@, request, final(input_method)@, command),
{
    match request {
        InputMethodRequest::Destroy => None,
        InputMethodRequest::Commit { serial } => {
            match input_method.commit(serial) {
                Some(commit) => Some(InputMethodCommand::Commit(commit)),
                None => None,
            }
        },
        InputMethodRequest::SetString { text } => {
            input_method.set_string(text.as_str());
            None
        },
        InputMethodRequest::SetAction { action } => {
            if let Ok(action) = InputMethodAction::try_from(action) {
                input_method.set_action(action);
            }
            None
        },
        InputMethodRequest::PointerMotion { dx, dy } => {
            let time_msec: u32 = input_method.next_pointer_timestamp();
            Some(InputMethodCommand::PointerMotion { dx, dy, time_msec })
        },
        InputMethodRequest::PointerWarp { x, y } => {
            let time_msec: u32 = input_method.next_pointer_timestamp();
            Some(InputMethodCommand::PointerWarp { x, y, time_msec })
        },
        InputMethodRequest::PointerWheel { x, y } => {
            let time_msec: u32 = input_method.next_pointer_timestamp();
            Some(InputMethodCommand::PointerWheel { x, y, time_msec })
        },
        InputMethodRequest::PointerButton { button, state } => {
            let time_msec: u32 = input_method.next_pointer_timestamp();
            Some(InputMethodCommand::PointerButton { button, pressed: state == 1, time_msec })
        },
    }
}

/// The protocol state after a protocol object is gone: nothing names it any more.
pub open spec fn without_resource(state: ServerView, resource: u64) -> ServerView {
    ServerView {
        controls: lists::without_id(state.controls, resource),
        performance_requests: state.performance_requests.filter(
            |request: PerformanceRequest| request.control_id != resource,
        ),
        privates: lists::without_id(state.privates, resource),
        bindings: state.bindings.filter(not_binding(resource)),
        surfaces: state.surfaces.map_values(
            |entry: SurfaceView|
                SurfaceView { resources: lists::without_id(entry.resources, resource), ..entry },
        ),
        input_methods: state.input_methods.filter(not_input_method(resource)),
        ..state
    }
}

/// The predicate of being another binding.
pub open spec fn not_binding(resource: u64) -> spec_fn(BindingView) -> bool {
    |entry: BindingView| entry.resource != resource
}

/// The predicate of being another input method.
pub open spec fn not_input_method(resource: u64) -> spec_fn(InputMethodEntryView) -> bool {
    |entry: InputMethodEntryView| entry.resource != resource
}

/// The predicate of being the entry of another surface.
pub open spec fn not_surface(surface: u64) -> spec_fn(SurfaceView) -> bool {
    |entry: SurfaceView| entry.surface != surface
}

impl GamescopeState {
    /// Remember a new input method and announce its first serial.
    pub fn create_input_method(&mut self, resource: u64) -> (event: ServerEvent)
        ensures
            final(self)@ == (ServerView {
                input_methods: old(self)@.input_methods.push(
                    InputMethodEntryView {
                        resource,
                        state: InputMethodView {
                            serial: 1,
                            pending_text: None,
                            pending_action: InputMethodAction::NoAction,
                            pointer_timestamp: 0,
                        },
                    },
                ),
                ..old(self)@
            }),
            event == (ServerEvent::InputMethodDone { resource, serial: 1 }),
    {
        let entry = InputMethodEntry { resource, state: InputMethodState::default() };
        self.input_methods.push(entry);
        assert(self@.input_methods =~= old(self)@.input_methods.push(entry@));
        ServerEvent::InputMethodDone { resource, serial: 1 }
    }

    fn find_input_method(&self, resource: u64) -> (index: usize)
        ensures
            index == lists::first_index(
                input_method_views(self.input_methods@),
                is_input_method(resource),
            ),
            index <= self.input_methods@.len(),
    {
        let ghost views = input_method_views(self.input_methods@);
        let ghost wanted = is_input_method(resource);
        let mut i: usize = 0;
        while i < self.input_methods.len()
            invariant
                i <= self.input_methods@.len(),
                views == input_method_views(self.input_methods@),
                wanted == is_input_method(resource),
                forall|j: int| 0 <= j < i ==> !wanted(#[trigger] views[j]),
            decreases self.input_methods@.len() - i,
        {
            assert(views[i as int] == self.input_methods@[i as int]@);
            if self.input_methods[i].resource == resource {
                proof {
                    lists::lemma_first_index(views, wanted, i as int);
                }
                return i;
            }
            i = i + 1;
        }
        proof {
            lists::lemma_first_index(views, wanted, i as int);
        }
        i
    }

    /// Handle a `gamescope_input_method` request. An input method that is gone ignores
    /// it.
    pub fn input_method_request(&mut self, resource: u64, request: InputMethodRequest)
        ensures
            ({
                let index = lists::first_index(
                    old(self)@.input_methods,
                    is_input_method(resource),
                );
                if index < old(self)@.input_methods.len() {
                    let entry = old(self)@.input_methods[index];
                    exists|after: InputMethodView, command: Option<InputMethodCommand>|
                        {
                            &&& #[trigger] input_method_step(entry.state, request, after, command)
                            &&& final(self)@ == (ServerView {
                                input_methods: old(self)@.input_methods.update(
                                    index,
                                    InputMethodEntryView { state: after, ..entry },
                                ),
                                commands: match command {
                                    Some(command) => old(self)@.commands.push(
                                        Command::InputMethod(command),
                                    ),
                                    None => old(self)@.commands,
                                },
                                ..old(self)@
                            })
                        }
                } else {
                    final(self)@ == old(self)@
                }
            }),
    {
        let index: usize = self.find_input_method(resource);
        if index >= self.input_methods.len() {
            return;
        }
        let ghost before = self.input_methods@;
        let ghost entry = before[index as int];
        let command = apply_input_method_request(&mut self.input_methods[index].state, request);
        let ghost after = self.input_methods@[index as int].state@;
        assert(self.input_methods@ == before.update(
            index as int,
            self.input_methods@[index as int],
        ));
        assert(self@.input_methods =~= input_method_views(before).update(
            index as int,
            InputMethodEntryView { state: after, ..entry@ },
        ));
        assert(input_method_step(entry.state@, request, after, command));
        if let Some(command) = command {
            self.commands.push(Command::InputMethod(command));
        }
    }

    /// Forget a protocol object that was destroyed.
    pub fn resource_destroyed(&mut self, resource: u64)
        ensures
            final(self)@ == without_resource(old(self)@, resource),
    {
        remove_id(&mut self.controls, resource);
        remove_id(&mut self.privates, resource);
        self.performance_requests.remove_control(resource);
        self.forget_binding(resource);
        self.forget_input_method(resource);
        self.forget_swapchain(resource);
    }

    fn forget_binding(&mut self, resource: u64)
        ensures
            final(self)@ == (ServerView {
                bindings: old(self)@.bindings.filter(not_binding(resource)),
                ..old(self)@
            }),
    {
        let ghost unchanged = *self;
        let ghost keep = not_binding(resource);
        let ghost kept = self@.bindings.filter(keep);
        let mut i: usize = 0;
        assert(self@.bindings.skip(0) =~= self@.bindings);
        while i < self.bindings.len()
            invariant
                i <= self.bindings@.len(),
                keep == not_binding(resource),
                kept == binding_views(self.bindings@).take(i as int) + binding_views(
                    self.bindings@,
                ).skip(i as int).filter(keep),
                *self == (GamescopeState { bindings: self.bindings, ..unchanged }),
            decreases self.bindings@.len() - i,
        {
            let ghost views = binding_views(self.bindings@);
            proof {
                lists::lemma_filter_skip_next(views, keep, i as int);
            }
            if self.bindings[i].resource != resource {
                assert(views.take(i + 1) =~= views.take(i as int).push(views[i as int]));
                assert(kept =~= views.take(i + 1) + views.skip(i + 1).filter(keep));
                i = i + 1;
            } else {
                let _entry = self.bindings.remove(i);
                assert(binding_views(self.bindings@).take(i as int) =~= views.take(i as int));
                assert(binding_views(self.bindings@).skip(i as int) =~= views.skip(i + 1));
            }
        }
        proof {
            lists::lemma_filter_empty(binding_views(self.bindings@).skip(i as int), keep);
        }
        assert(self@.bindings =~= kept);
    }

    fn forget_input_method(&mut self, resource: u64)
        ensures
            final(self)@ == (ServerView {
                input_methods: old(self)@.input_methods.filter(not_input_method(resource)),
                ..old(self)@
            }),
    {
        let ghost unchanged = *self;
        let ghost keep = not_input_method(resource);
        let ghost kept = self@.input_methods.filter(keep);
        let mut i: usize = 0;
        assert(self@.input_methods.skip(0) =~= self@.input_methods);
        while i < self.input_methods.len()
            invariant
                i <= self.input_methods@.len(),
                keep == not_input_method(resource),
                kept == input_method_views(self.input_methods@).take(i as int)
                    + input_method_views(self.input_methods@).skip(i as int).filter(keep),
                *self == (GamescopeState { input_methods: self.input_methods, ..unchanged }),
            decreases self.input_methods@.len() - i,
        {
            let ghost views = input_method_views(self.input_methods@);
            proof {
                lists::lemma_filter_skip_next(views, keep, i as int);
            }
            if self.input_methods[i].resource != resource {
                assert(views.take(i + 1) =~= views.take(i as int).push(views[i as int]));
                assert(kept =~= views.take(i + 1) + views.skip(i + 1).filter(keep));
                i = i + 1;
            } else {
                let _entry = self.input_methods.remove(i);
                assert(input_method_views(self.input_methods@).take(i as int) =~= views.take(
                    i as int,
                ));
                assert(input_method_views(self.input_methods@).skip(i as int) =~= views.skip(
                    i + 1,
                ));
            }
        }
        proof {
            lists::lemma_filter_empty(
                input_method_views(self.input_methods@).skip(i as int),
                keep,
            );
        }
        assert(self@.input_methods =~= kept);
    }

    fn forget_swapchain(&mut self, resource: u64)
        ensures
            final(self)@ == (ServerView {
                surfaces: old(self)@.surfaces.map_values(
                    |entry: SurfaceView|
                        SurfaceView {
                            resources: lists::without_id(entry.resources, resource),
                            ..entry
                        },
                ),
                ..old(self)@
            }),
    {
        let ghost unchanged = *self;
        let ghost before = surface_views(self.surfaces@);
        let ghost forget = |entry: SurfaceView|
            SurfaceView { resources: lists::without_id(entry.resources, resource), ..entry };
        let mut i: usize = 0;
        while i < self.surfaces.len()
            invariant
                i <= self.surfaces@.len() == before.len(),
                forget == (|entry: SurfaceView|
                    SurfaceView {
                        resources: lists::without_id(entry.resources, resource),
                        ..entry
                    }),
                *self == (GamescopeState { surfaces: self.surfaces, ..unchanged }),
                forall|j: int| 0 <= j < i ==> #[trigger] surface_views(self.surfaces@)[j] == forget(
                    before[j],
                ),
                forall|j: int|
                    i <= j < before.len() ==> #[trigger] surface_views(self.surfaces@)[j]
                        == before[j],
            decreases self.surfaces@.len() - i,
        {
            let ghost entries = self.surfaces@;
            assert(surface_views(entries)[i as int] == entries[i as int]@);
            remove_id(&mut self.surfaces[i].resources, resource);
            assert(self.surfaces@ == entries.update(i as int, self.surfaces@[i as int]));
            assert(surface_views(self.surfaces@) =~= surface_views(entries).update(
                i as int,
                forget(entries[i as int]@),
            ));
            i = i + 1;
        }
        assert(self@.surfaces =~= before.map_values(forget));
    }

    /// Forget a surface that was destroyed, with the state of its swapchains.
    pub fn surface_destroyed(&mut self, surface: u64)
        ensures
            final(self)@ == (ServerView {
                surfaces: old(self)@.surfaces.filter(not_surface(surface)),
                ..old(self)@
            }),
    {
        let ghost unchanged = *self;
        let ghost keep = not_surface(surface);
        let ghost kept = self@.surfaces.filter(keep);
        let mut i: usize = 0;
        assert(self@.surfaces.skip(0) =~= self@.surfaces);
        while i < self.surfaces.len()
            invariant
                i <= self.surfaces@.len(),
                keep == not_surface(surface),
                kept == surface_views(self.surfaces@).take(i as int) + surface_views(
                    self.surfaces@,
                ).skip(i as int).filter(keep),
                *self == (GamescopeState { surfaces: self.surfaces, ..unchanged }),
            decreases self.surfaces@.len() - i,
        {
            let ghost views = surface_views(self.surfaces@);
            proof {
                lists::lemma_filter_skip_next(views, keep, i as int);
            }
            if self.surfaces[i].surface != surface {
                assert(views.take(i + 1) =~= views.take(i as int).push(views[i as int]));
                assert(kept =~= views.take(i + 1) + views.skip(i + 1).filter(keep));
                i = i + 1;
            } else {
                let _entry = self.surfaces.remove(i);
                assert(surface_views(self.surfaces@).take(i as int) =~= views.take(i as int));
                assert(surface_views(self.surfaces@).skip(i as int) =~= views.skip(i + 1));
            }
        }
        proof {
            lists::lemma_filter_empty(surface_views(self.surfaces@).skip(i as int), keep);
        }
        assert(self@.surfaces =~= kept);
    }
}

/// A one-shot binding that executed does not execute again until it is armed.
pub proof fn lemma_one_shot_executes_once(binding: ActionBindingView, pressed: Set<u32>, next: Set<u32>)
    requires
        binding.arm_flags matches Some(flags) && flags & ARM_ONE_SHOT != 0,
        executions(binding, pressed) > 0,
    ensures
        executions(binding, pressed) == 1,
        executions(after_execution(binding, pressed), next) == 0,
{
}

/// A key press that no binding blocks reaches every binding: each executes as often as
/// its own triggers say.
pub proof fn lemma_unblocked_press_reaches_all(bindings: Seq<BindingView>, pressed: Set<u32>)
    requires
        !press_blocked(bindings, pressed),
    ensures
        after_press(bindings, pressed).len() == bindings.len(),
        forall|i: int|
            0 <= i < bindings.len() ==> (#[trigger] after_press(bindings, pressed)[i]).binding
                == after_execution(bindings[i].binding, pressed),
    decreases bindings.len(),
{
    if bindings.len() > 0 {
        let rest = bindings.drop_first();
        assert(!blocks(bindings[0].binding, pressed));
        assert forall|i: int| 0 <= i < rest.len() implies !blocks(
            (#[trigger] rest[i]).binding,
            pressed,
        ) by {
            assert(rest[i] == bindings[i + 1]);
        }
        lemma_unblocked_press_reaches_all(rest, pressed);
        assert forall|i: int| 0 <= i < bindings.len() implies (#[trigger] after_press(
            bindings,
            pressed,
        )[i]).binding == after_execution(bindings[i].binding, pressed) by {
            if i > 0 {
                assert(after_press(bindings, pressed)[i] == after_press(rest, pressed)[i - 1]);
                assert(rest[i - 1] == bindings[i]);
            }
        }
    }
}

/// Bindings after the first that blocks neither execute nor change.
pub proof fn lemma_blocked_press_stops(bindings: Seq<BindingView>, pressed: Set<u32>, at: int)
    requires
        0 <= at < bindings.len(),
        blocks(bindings[at].binding, pressed),
        forall|j: int| 0 <= j < at ==> !blocks((#[trigger] bindings[j]).binding, pressed),
    ensures
        triggered(bindings, pressed) == triggered(bindings.take(at + 1), pressed),
        after_press(bindings, pressed).len() == bindings.len(),
        forall|j: int|
            at < j < bindings.len() ==> #[trigger] after_press(bindings, pressed)[j] == bindings[j],
    decreases bindings.len(),
{
    let rest = bindings.drop_first();
    let front = bindings.take(at + 1);
    assert(front[0] == bindings[0]);
    if at > 0 {
        assert(!blocks(bindings[0].binding, pressed));
        assert forall|j: int| 0 <= j < at - 1 implies !blocks(
            (#[trigger] rest[j]).binding,
            pressed,
        ) by {
            assert(rest[j] == bindings[j + 1]);
        }
        assert(rest[at - 1] == bindings[at]);
        lemma_blocked_press_stops(rest, pressed, at - 1);
        assert(front.drop_first() =~= rest.take(at));
    }
    assert forall|j: int| at < j < bindings.len() implies #[trigger] after_press(bindings, pressed)[j]
        == bindings[j] by {
        if at > 0 {
            assert(after_press(bindings, pressed)[j] == after_press(rest, pressed)[j - 1]);
        }
        assert(rest[j - 1] == bindings[j]);
    }
}

/// Presenting twice with the same refresh cycle announces it once: the second time, a
/// commit that asked for no timing sends nothing.
pub proof fn lemma_refresh_cycle_is_announced_once(resources: Seq<u64>)
    ensures
        presentation_events(resources, None, None) == Seq::<ServerEvent>::empty(),
    decreases resources.len(),
{
    if resources.len() > 0 {
        lemma_refresh_cycle_is_announced_once(resources.drop_last());
    }
}

/// After a protocol object is gone, no broadcast and no statistics go to it.
pub proof fn lemma_destroyed_resource_is_forgotten(state: ServerView, resource: u64, app_id: u32)
    ensures
        ({
            let after = without_resource(state, resource);
            &&& !after.controls.contains(resource)
            &&& !after.privates.contains(resource)
            &&& !control::waiting_controls(after.performance_requests, app_id).contains(resource)
        }),
{
    lists::lemma_without_id(state.controls, resource, resource);
    lists::lemma_without_id(state.privates, resource, resource);
    control::lemma_destroyed_control_waits_for_nothing(
        state.performance_requests,
        resource,
        app_id,
    );
    let waiting = control::waiting_controls(state.performance_requests, app_id);
    let remaining = |control: u64| control != resource;
    let left = waiting.filter(remaining);
    assert(control::waiting_controls(
        without_resource(state, resource).performance_requests,
        app_id,
    ) == left);
    if left.contains(resource) {
        broadcast use vstd::seq_lib::group_filter_ensures;

        let i = left.index_of(resource);
        assert(remaining(left[i]));
    }
}

/// What a held combination does with one binding: it is executed once for each of its
/// triggers that is exactly the combination, but once only if it is one-shot or stops the
/// key there. A one-shot binding is disarmed by that, and nothing else changes.
pub proof fn lemma_bindings_execute(binding: ActionBindingView, pressed: Set<u32>)
    ensures
        ({
            let matching = binding.matches(pressed);
            &&& matching == 0 ==> executions(binding, pressed) == 0 && !blocks(binding, pressed)
                && after_execution(binding, pressed) == binding
            &&& binding.arm_flags is None ==> matching == 0
            &&& matching > 0 ==> ({
                let flags = binding.arm_flags.unwrap();
                &&& binding.arm_flags is Some
                &&& blocks(binding, pressed) <==> flags & 2 != 0
                &&& flags & 1 != 0 || flags & 2 != 0 ==> executions(binding, pressed) == 1
                &&& flags & 1 == 0 && flags & 2 == 0 ==> executions(binding, pressed) == matching
                &&& flags & 1 != 0 ==> after_execution(binding, pressed).arm_flags is None
                &&& flags & 1 == 0 ==> after_execution(binding, pressed) == binding
            })
            &&& after_execution(binding, pressed).triggers == binding.triggers
            &&& after_execution(binding, pressed).description == binding.description
        }),
{
    action_binding::lemma_hotkeys_match_exactly(binding, pressed, pressed);
}

/// Bindings are gone through in the order in which they were made. One more binding at the
/// end is executed after all others, unless one of them keeps the key; then it is neither
/// executed nor changed.
pub proof fn lemma_bindings_come_in_order(
    bindings: Seq<BindingView>,
    binding: BindingView,
    pressed: Set<u32>,
)
    ensures
        ({
            let more = bindings.push(binding);
            let before = triggered(bindings, pressed);
            let after = triggered(more, pressed);
            &&& press_blocked(bindings, pressed) ==> after == before && after_press(more, pressed)
                == after_press(bindings, pressed).push(binding)
            &&& !press_blocked(bindings, pressed) ==> {
                &&& after.len() == before.len() + executions(binding.binding, pressed)
                &&& forall|i: int|
                    0 <= i < before.len() ==> #[trigger] after[i] == before[i]
                &&& forall|i: int|
                    before.len() <= i < after.len() ==> #[trigger] after[i] == binding.resource
                &&& after_press(more, pressed) == after_press(bindings, pressed).push(
                    BindingView {
                        resource: binding.resource,
                        binding: after_execution(binding.binding, pressed),
                    },
                )
            }
            &&& press_blocked(more, pressed) <==> press_blocked(bindings, pressed) || blocks(
                binding.binding,
                pressed,
            )
        }),
        triggered(Seq::empty(), pressed).len() == 0,
        !press_blocked(Seq::empty(), pressed),
    decreases bindings.len(),
{
    let more = bindings.push(binding);
    assert(press_blocked(more, pressed) <==> press_blocked(bindings, pressed) || blocks(
        binding.binding,
        pressed,
    )) by {
        if press_blocked(bindings, pressed) {
            let i = choose|i: int|
                0 <= i < bindings.len() && blocks((#[trigger] bindings[i]).binding, pressed);
            assert(blocks(more[i].binding, pressed));
        }
        if blocks(binding.binding, pressed) {
            assert(blocks(more[bindings.len() as int].binding, pressed));
        }
        if press_blocked(more, pressed) {
            let i = choose|i: int|
                0 <= i < more.len() && blocks((#[trigger] more[i]).binding, pressed);
            if i < bindings.len() {
                assert(blocks(bindings[i].binding, pressed));
            }
        }
    }
    if bindings.len() == 0 {
        assert(more.drop_first() =~= Seq::<BindingView>::empty());
        assert(triggered(more.drop_first(), pressed).len() == 0);
        assert(after_press(more.drop_first(), pressed).len() == 0);
        assert(after_press(bindings, pressed) =~= Seq::<BindingView>::empty());
        assert(after_press(more, pressed) =~= after_press(bindings, pressed).push(
            BindingView {
                resource: binding.resource,
                binding: after_execution(binding.binding, pressed),
            },
        ));
        if press_blocked(bindings, pressed) {
            assert(false);
        }
    } else {
        let rest = bindings.drop_first();
        assert(more.drop_first() =~= rest.push(binding));
        assert(more[0] == bindings[0]);
        lemma_bindings_come_in_order(rest, binding, pressed);
        if blocks(bindings[0].binding, pressed) {
            assert(press_blocked(bindings, pressed));
            assert(after_press(more, pressed) =~= after_press(bindings, pressed).push(binding));
        } else {
            assert(press_blocked(bindings, pressed) <==> press_blocked(rest, pressed)) by {
                if press_blocked(rest, pressed) {
                    let i = choose|i: int|
                        0 <= i < rest.len() && blocks((#[trigger] rest[i]).binding, pressed);
                    assert(blocks(bindings[i + 1].binding, pressed));
                }
                if press_blocked(bindings, pressed) {
                    let i = choose|i: int|
                        0 <= i < bindings.len() && blocks(
                            (#[trigger] bindings[i]).binding,
                            pressed,
                        );
                    assert(blocks(rest[i - 1].binding, pressed));
                }
            }
            let own = Seq::new(executions(bindings[0].binding, pressed), |i: int|
                bindings[0].resource);
            let before = triggered(bindings, pressed);
            let after = triggered(more, pressed);
            assert(before == own + triggered(rest, pressed));
            assert(after == own + triggered(rest.push(binding), pressed));
            let first = seq![
                BindingView {
                    resource: bindings[0].resource,
                    binding: after_execution(bindings[0].binding, pressed),
                },
            ];
            assert(after_press(bindings, pressed) == first + after_press(rest, pressed));
            assert(after_press(more, pressed) == first + after_press(rest.push(binding), pressed));
            if press_blocked(rest, pressed) {
                assert(after_press(more, pressed) =~= after_press(bindings, pressed).push(binding));
            } else {
                let last = BindingView {
                    resource: binding.resource,
                    binding: after_execution(binding.binding, pressed),
                };
                assert(after_press(more, pressed) =~= after_press(bindings, pressed).push(last));
                let inner = triggered(rest, pressed);
                let outer = triggered(rest.push(binding), pressed);
                assert forall|i: int| 0 <= i < before.len() implies #[trigger] after[i]
                    == before[i] by {
                    if i >= own.len() {
                        assert(outer[i - own.len()] == inner[i - own.len()]);
                    }
                }
                assert forall|i: int| before.len() <= i < after.len() implies #[trigger] after[i]
                    == binding.resource by {
                    assert(outer[i - own.len()] == binding.resource);
                }
            }
        }
    }
}

/// Clients learn of every execution: each event goes to the binding that was executed, with
/// the time of the key and a number one higher than that of the event before.
pub proof fn lemma_executions_are_numbered(
    resources: Seq<u64>,
    start: u32,
    time_ns: u64,
    i: int,
)
    requires
        0 <= i < resources.len(),
    ensures
        triggered_events(resources, start, time_ns).len() == resources.len(),
        triggered_events(resources, start, time_ns)[i] matches ServerEvent::Triggered {
            resource,
            event,
        } && resource == resources[i] && event.sequence as int == (start + i) % 0x1_0000_0000
            && event.time_high * 0x1_0000_0000 + event.time_low == time_ns && event.trigger_flags
            == 1,
{
    wire::lemma_split_and_join(time_ns, 0, 0);
}

/// What requests of a control ask of the compositor: each gives exactly one command with what
/// was asked for, a power request one for each display, and a request for statistics waits
/// for its app in the name of the control.
pub proof fn lemma_control_requests_are_passed_on(
    state: ServerView,
    resource: u64,
    request: ControlRequest,
)
    ensures
        ({
            let after = control_effect(state, resource, request);
            let added = after.commands.skip(state.commands.len() as int);
            &&& after.commands.take(state.commands.len() as int) == state.commands
            &&& match request {
                ControlRequest::Destroy => after == state,
                ControlRequest::SetAppTargetRefreshCycle { fps, flags } => {
                    added == seq![Command::SetRefreshCycle(control::refresh_override(fps, flags))]
                },
                ControlRequest::TakeScreenshot { path, screenshot_type, flags } => {
                    added == seq![Command::TakeScreenshot { path, screenshot_type, flags }]
                },
                ControlRequest::DisplaySleep { display_type, flags } => {
                    let operations = control::power_operations(display_type, flags);
                    &&& added.len() == operations.len()
                    &&& forall|i: int|
                        0 <= i < operations.len() ==> #[trigger] added[i]
                            == Command::SetDisplayPower(operations[i])
                },
                ControlRequest::SetLook { lut3d_g22, lut3d_pq, flags } => {
                    added == seq![
                        Command::SetLook { gamma_22_lut: lut3d_g22, pq_lut: lut3d_pq, flags },
                    ]
                },
                ControlRequest::UnsetLook => added == seq![Command::UnsetLook],
                ControlRequest::RequestAppPerformanceStats { app_id } => {
                    &&& after.commands == state.commands
                    &&& after.performance_requests == state.performance_requests.push(
                        PerformanceRequest { control_id: resource, app_id },
                    )
                },
            }
            &&& after == (ServerView {
                commands: after.commands,
                performance_requests: after.performance_requests,
                ..state
            })
            &&& !(request is RequestAppPerformanceStats) ==> after.performance_requests
                == state.performance_requests
        }),
{
    let after = control_effect(state, resource, request);
    let added = after.commands.skip(state.commands.len() as int);
    assert(after.commands.take(state.commands.len() as int) =~= state.commands);
    match request {
        ControlRequest::SetAppTargetRefreshCycle { fps, flags } => {
            assert(added =~= seq![Command::SetRefreshCycle(control::refresh_override(fps, flags))]);
        },
        ControlRequest::TakeScreenshot { path, screenshot_type, flags } => {
            assert(added =~= seq![Command::TakeScreenshot { path, screenshot_type, flags }]);
        },
        ControlRequest::SetLook { lut3d_g22, lut3d_pq, flags } => {
            assert(added =~= seq![
                Command::SetLook { gamma_22_lut: lut3d_g22, pq_lut: lut3d_pq, flags },
            ]);
        },
        ControlRequest::UnsetLook => {
            assert(added =~= seq![Command::UnsetLook]);
        },
        _ => {},
    }
}

/// What requests of a shader resource ask of the compositor: each gives exactly one command
/// with what was asked for, and the answer to a new effect goes to the resource.
pub proof fn lemma_shader_requests_are_passed_on(
    state: ServerView,
    resource: u64,
    request: ReshadeRequest,
)
    ensures
        ({
            let after = reshade_effect(state, resource, request);
            match request {
                ReshadeRequest::Destroy => after == state,
                ReshadeRequest::SetEffect { path } => after.commands == state.commands.push(
                    Command::SetReshadeEffect { reply: ReshadeReply(resource), path },
                ),
                ReshadeRequest::EnableEffect => after.commands == state.commands.push(
                    Command::EnableReshadeEffect,
                ),
                ReshadeRequest::SetUniformVariable { key, value } => after.commands
                    == state.commands.push(Command::SetReshadeUniform { key, value }),
                ReshadeRequest::DisableEffect => after.commands == state.commands.push(
                    Command::DisableReshadeEffect,
                ),
            }
        }),
{
}

/// A control is greeted with every feature in order, and then with the display if there is
/// one.
pub proof fn lemma_controls_are_greeted(resource: u64, has_display: bool)
    ensures
        ({
            let greeting = control_greeting(resource, has_display);
            let features = control::advertised_features();
            &&& greeting.len() == 8 + (if has_display {
                1int
            } else {
                0
            })
            &&& forall|i: int|
                0 <= i < 8 ==> #[trigger] greeting[i] == (ServerEvent::FeatureSupport {
                    resource,
                    support: features[i],
                })
            &&& has_display ==> greeting[8] == (ServerEvent::ActiveDisplayInfo { resource })
        }),
{
    control::lemma_features_are_advertised(control::Feature::Done, control::Feature::Done);
}

/// What requests of a binding change: its description, its triggers or its arming, as asked,
/// and nothing else. A trigger is added behind the others, as the set of what its keys are
/// compared by.
pub proof fn lemma_binding_requests_change_the_binding(
    binding: ActionBindingView,
    request: BindingRequest,
    little_endian: bool,
)
    ensures
        ({
            let after = binding_effect(binding, request, little_endian);
            &&& request matches BindingRequest::SetDescription { description } ==> after.description
                == description@
            &&& !(request is SetDescription) ==> after.description == binding.description
            &&& request matches BindingRequest::AddKeyboardTrigger { keysyms } ==> after.triggers
                == binding.triggers.push(
                action_binding::normalized_set(wire::words_in(keysyms@, little_endian)),
            )
            &&& request is ClearTriggers ==> after.triggers.len() == 0
            &&& !(request is AddKeyboardTrigger) && !(request is ClearTriggers) ==> after.triggers
                == binding.triggers
            &&& request matches BindingRequest::Arm { arm_flags } ==> after.arm_flags == Some(
                arm_flags,
            )
            &&& request is Disarm ==> after.arm_flags is None
            &&& !(request is Arm) && !(request is Disarm) ==> after.arm_flags == binding.arm_flags
        }),
{
}

/// What requests of a swapchain change: feedback replaces feedback and takes the HDR metadata
/// with it, HDR metadata is attached to feedback when it is complete, and presentation mode
/// and time wait for the next commit. The time is what its two words say.
pub proof fn lemma_swapchain_requests_change_the_surface(
    surface: u64,
    state: CommitMetadata,
    request: SwapchainRequest,
)
    ensures
        ({
            let after = swapchain_effect(state, request);
            &&& match request {
                SwapchainRequest::Feedback(feedback) => after.feedback matches Some(kept) && {
                    &&& kept.hdr_metadata is None
                    &&& kept.image_count == feedback.image_count
                    &&& kept.vk_format == feedback.vk_format
                    &&& kept.vk_colorspace == feedback.vk_colorspace
                    &&& kept.vk_composite_alpha == feedback.vk_composite_alpha
                    &&& kept.vk_pre_transform == feedback.vk_pre_transform
                    &&& kept.vk_clipped == feedback.vk_clipped
                    &&& kept.vk_engine_name == feedback.vk_engine_name
                },
                SwapchainRequest::SetHdrMetadata(metadata) => if state.feedback is Some
                    && metadata.accepted() {
                    after.feedback == Some(
                        swapchain::SwapchainFeedback {
                            hdr_metadata: Some(metadata),
                            ..state.feedback.unwrap()
                        },
                    )
                } else {
                    after.feedback == state.feedback
                },
                _ => after.feedback == state.feedback,
            }
            &&& match request {
                SwapchainRequest::SetPresentMode { vk_present_mode } => after.vk_present_mode
                    == Some(vk_present_mode),
                _ => after.vk_present_mode == state.vk_present_mode,
            }
            &&& match request {
                SwapchainRequest::SetPresentTime { present_id, desired_high, desired_low } => {
                    &&& after.present_id == Some(present_id)
                    &&& after.desired_present_time_ns == desired_high * 0x1_0000_0000 + desired_low
                },
                _ => after.present_id == state.present_id && after.desired_present_time_ns
                    == state.desired_present_time_ns,
            }
            &&& match request {
                SwapchainRequest::OverrideWindowContent { xwayland_server_id, x11_window } => {
                    swapchain_commands(surface, request) == seq![
                        Command::OverrideWindowContent { surface, xwayland_server_id, x11_window },
                    ]
                },
                _ => swapchain_commands(surface, request).len() == 0,
            }
        }),
{
}

/// Every swapchain of a surface is told of a presentation, in order: of the refresh cycle
/// first, if it is news, and then of the timing, if the commit asked for it. The cycle is
/// what its two words say.
pub proof fn lemma_presentations_reach_every_swapchain(
    resources: Seq<u64>,
    refresh_cycle_ns: Option<u64>,
    timing: Option<PastPresentTiming>,
    i: int,
)
    requires
        0 <= i < resources.len(),
    ensures
        ({
            let events = presentation_events(resources, refresh_cycle_ns, timing);
            let each = (if refresh_cycle_ns is Some {
                1int
            } else {
                0
            }) + (if timing is Some {
                1int
            } else {
                0
            });
            &&& events.len() == resources.len() * each
            &&& refresh_cycle_ns matches Some(cycle) ==> (events[i * each] matches
                ServerEvent::RefreshCycle { resource, high, low } && resource == resources[i]
                && high * 0x1_0000_0000 + low == cycle)
            &&& timing matches Some(timing) ==> events[i * each + each - 1]
                == (ServerEvent::PastPresentTiming { resource: resources[i], timing })
        }),
    decreases resources.len(),
{
    if let Some(cycle) = refresh_cycle_ns {
        wire::lemma_split_and_join(cycle, 0, 0);
    }
    let each = (if refresh_cycle_ns is Some {
        1int
    } else {
        0
    }) + (if timing is Some {
        1int
    } else {
        0
    });
    let init = resources.drop_last();
    let before = presentation_events(init, refresh_cycle_ns, timing);
    if init.len() > 0 {
        if i < init.len() {
            lemma_presentations_reach_every_swapchain(init, refresh_cycle_ns, timing, i);
            assert(init[i] == resources[i]);
        } else {
            lemma_presentations_reach_every_swapchain(init, refresh_cycle_ns, timing, 0);
        }
    } else {
        assert(before.len() == 0);
        assert(0 * each == 0) by (nonlinear_arith);
    }
    assert(before.len() == init.len() * each);
    assert(resources.len() * each == init.len() * each + each) by (nonlinear_arith)
        requires
            resources.len() == init.len() + 1,
    ;
    if i < init.len() {
        assert(0 <= i * each && i * each + each <= init.len() * each) by (nonlinear_arith)
            requires
                0 <= i,
                i + 1 <= init.len(),
                0 <= each,
        ;
    } else {
        assert(i * each == init.len() * each);
    }
}

/// An input method is double-buffered. Text and action wait until a commit with the serial
/// number of the last acknowledgement, which hands both over and leaves nothing waiting; any
/// other commit does nothing. Pointer requests are passed on at once, each with a time stamp
/// one higher than the last, and touch neither text nor action.
pub proof fn lemma_input_methods_are_double_buffered(
    before: InputMethodView,
    request: InputMethodRequest,
    after: InputMethodView,
    command: Option<InputMethodCommand>,
)
    requires
        input_method_step(before, request, after, command),
    ensures
        after.serial == before.serial,
        match request {
            InputMethodRequest::Commit { serial } => if serial == before.serial {
                &&& after.pending_text is None && after.pending_action
                    == InputMethodAction::NoAction
                &&& command matches Some(InputMethodCommand::Commit(commit)) && commit.action
                    == before.pending_action && (commit.text matches Some(text)
                    ==> before.pending_text == Some(text@)) && (commit.text is None
                    ==> before.pending_text is None)
            } else {
                after == before && command is None
            },
            InputMethodRequest::SetString { text } => after.pending_text == Some(text@)
                && after.pending_action == before.pending_action && command is None,
            InputMethodRequest::SetAction { action } => after.pending_text == before.pending_text
                && command is None && (action <= 7 ==> after.pending_action.number() == action) && (
            action > 7 ==> after.pending_action == before.pending_action),
            InputMethodRequest::Destroy => after == before && command is None,
            _ => {
                &&& after.pending_text == before.pending_text
                &&& after.pending_action == before.pending_action
                &&& after.pointer_timestamp as int == (before.pointer_timestamp + 1)
                    % 0x1_0000_0000
                &&& match request {
                    InputMethodRequest::PointerMotion { dx, dy } => command == Some(
                        InputMethodCommand::PointerMotion {
                            dx,
                            dy,
                            time_msec: after.pointer_timestamp,
                        },
                    ),
                    InputMethodRequest::PointerWarp { x, y } => command == Some(
                        InputMethodCommand::PointerWarp { x, y, time_msec: after.pointer_timestamp },
                    ),
                    InputMethodRequest::PointerWheel { x, y } => command == Some(
                        InputMethodCommand::PointerWheel {
                            x,
                            y,
                            time_msec: after.pointer_timestamp,
                        },
                    ),
                    InputMethodRequest::PointerButton { button, state } => command == Some(
                        InputMethodCommand::PointerButton {
                            button,
                            pressed: state == 1,
                            time_msec: after.pointer_timestamp,
                        },
                    ),
                    _ => false,
                }
            },
        },
        !(request is PointerMotion) && !(request is PointerWarp) && !(request is PointerWheel)
            && !(request is PointerButton) ==> after.pointer_timestamp == before.pointer_timestamp,
{
    if let InputMethodRequest::SetAction { action } = request {
        crate::input_method::lemma_action_numbers(after.pending_action, action);
    }
}

/// A destroyed resource takes itself away and nothing else: every other resource stays as it
/// was, wherever it is kept.
pub proof fn lemma_destroyed_resource_spares_others(
    state: ServerView,
    resource: u64,
    other: u64,
    app_id: u32,
)
    requires
        other != resource,
    ensures
        ({
            let after = without_resource(state, resource);
            &&& after.controls.contains(other) <==> state.controls.contains(other)
            &&& after.privates.contains(other) <==> state.privates.contains(other)
            &&& after.commands == state.commands
            &&& after.active_display == state.active_display
            &&& after.action_sequence == state.action_sequence
            &&& after.surfaces.len() == state.surfaces.len()
            &&& forall|i: int|
                0 <= i < state.surfaces.len() ==> {
                    let kept = #[trigger] after.surfaces[i];
                    &&& kept.surface == state.surfaces[i].surface
                    &&& kept.state == state.surfaces[i].state
                    &&& kept.last_refresh_cycle_ns == state.surfaces[i].last_refresh_cycle_ns
                    &&& !kept.resources.contains(resource)
                    &&& kept.resources.contains(other) <==> state.surfaces[i].resources.contains(
                        other,
                    )
                }
            &&& forall|i: int|
                0 <= i < state.bindings.len() && (#[trigger] state.bindings[i]).resource
                    != resource ==> after.bindings.contains(state.bindings[i])
            &&& forall|i: int|
                0 <= i < after.bindings.len() ==> (#[trigger] after.bindings[i]).resource
                    != resource && state.bindings.contains(after.bindings[i])
            &&& forall|i: int|
                0 <= i < state.input_methods.len() && (#[trigger] state.input_methods[i]).resource
                    != resource ==> after.input_methods.contains(state.input_methods[i])
            &&& forall|i: int|
                0 <= i < after.input_methods.len() ==> (#[trigger] after.input_methods[i]).resource
                    != resource
        }),
{
    broadcast use vstd::seq_lib::group_filter_ensures;

    let after = without_resource(state, resource);
    lists::lemma_without_id(state.controls, resource, other);
    lists::lemma_without_id(state.privates, resource, other);
    assert forall|i: int| 0 <= i < state.surfaces.len() implies {
        let kept = #[trigger] after.surfaces[i];
        &&& kept.surface == state.surfaces[i].surface
        &&& kept.state == state.surfaces[i].state
        &&& kept.last_refresh_cycle_ns == state.surfaces[i].last_refresh_cycle_ns
        &&& !kept.resources.contains(resource)
        &&& kept.resources.contains(other) <==> state.surfaces[i].resources.contains(other)
    } by {
        lists::lemma_without_id(state.surfaces[i].resources, resource, resource);
        lists::lemma_without_id(state.surfaces[i].resources, resource, other);
    }
    let keep = not_binding(resource);
    assert forall|i: int|
        0 <= i < state.bindings.len() && (#[trigger] state.bindings[i]).resource
            != resource implies after.bindings.contains(state.bindings[i]) by {
        assert(keep(state.bindings[i]));
        state.bindings.lemma_filter_contains(keep, i);
    }
    assert forall|i: int| 0 <= i < after.bindings.len() implies (
    #[trigger] after.bindings[i]).resource != resource && state.bindings.contains(
        after.bindings[i],
    ) by {
        assert(keep(after.bindings[i]));
        assert(after.bindings.contains(after.bindings[i]));
        state.bindings.lemma_filter_contains_rev(keep, after.bindings[i]);
    }
    let method = not_input_method(resource);
    assert forall|i: int|
        0 <= i < state.input_methods.len() && (#[trigger] state.input_methods[i]).resource
            != resource implies after.input_methods.contains(state.input_methods[i]) by {
        assert(method(state.input_methods[i]));
        state.input_methods.lemma_filter_contains(method, i);
    }
    assert forall|i: int| 0 <= i < after.input_methods.len() implies (
    #[trigger] after.input_methods[i]).resource != resource by {
        assert(method(after.input_methods[i]));
    }
}

/// A swapchain joins the others of its surface, and a surface without one gets an entry with
/// nothing in it. No other surface is touched.
pub proof fn lemma_swapchains_join_their_surface(
    surfaces: Seq<SurfaceView>,
    surface: u64,
    resource: u64,
)
    ensures
        ({
            let after = with_swapchain(surfaces, surface, resource);
            let index = lists::first_index(after, is_surface(surface));
            &&& 0 <= index < after.len()
            &&& after[index].surface == surface
            &&& after[index].resources.len() > 0 && after[index].resources.last() == resource
            &&& index < surfaces.len() ==> {
                &&& after.len() == surfaces.len()
                &&& after[index].resources.drop_last() == surfaces[index].resources
                &&& after[index].state == surfaces[index].state
                &&& after[index].last_refresh_cycle_ns == surfaces[index].last_refresh_cycle_ns
            }
            &&& index >= surfaces.len() ==> {
                &&& after.len() == surfaces.len() + 1
                &&& after[index].resources.len() == 1
                &&& after[index].state.feedback is None
                &&& after[index].state.present_id is None
                &&& after[index].last_refresh_cycle_ns is None
            }
            &&& forall|i: int|
                0 <= i < surfaces.len() && surfaces[i].surface != surface ==> #[trigger] after[i]
                    == surfaces[i]
        }),
{
    let wanted = is_surface(surface);
    let after = with_swapchain(surfaces, surface, resource);
    lists::lemma_first_index_found(surfaces, wanted);
    let index = lists::first_index(surfaces, wanted);
    assert forall|j: int| 0 <= j < index implies !wanted(#[trigger] after[j]) by {
        assert(after[j] == surfaces[j]);
    }
    lists::lemma_first_index(after, wanted, index);
    if index < surfaces.len() {
        assert(after[index].resources.drop_last() =~= surfaces[index].resources);
    }
}

/// A request finds the binding, the input method or the surface that it is for: the first one
/// with its number, wherever it stands.
pub proof fn lemma_requests_find_their_target(state: ServerView, id: u64)
    ensures
        ({
            let binding = lists::first_index(state.bindings, is_binding(id));
            let method = lists::first_index(state.input_methods, is_input_method(id));
            let surface = lists::first_index(state.surfaces, is_surface(id));
            &&& 0 <= binding <= state.bindings.len()
            &&& binding < state.bindings.len() ==> state.bindings[binding].resource == id
            &&& forall|i: int|
                0 <= i < binding ==> (#[trigger] state.bindings[i]).resource != id
            &&& 0 <= method <= state.input_methods.len()
            &&& method < state.input_methods.len() ==> state.input_methods[method].resource == id
            &&& forall|i: int|
                0 <= i < method ==> (#[trigger] state.input_methods[i]).resource != id
            &&& 0 <= surface <= state.surfaces.len()
            &&& surface < state.surfaces.len() ==> state.surfaces[surface].surface == id
            &&& forall|i: int|
                0 <= i < surface ==> (#[trigger] state.surfaces[i]).surface != id
        }),
{
    lists::lemma_first_index_found(state.bindings, is_binding(id));
    lists::lemma_first_index_found(state.input_methods, is_input_method(id));
    lists::lemma_first_index_found(state.surfaces, is_surface(id));
    assert forall|i: int| 0 <= i < lists::first_index(state.bindings, is_binding(id)) implies (
    #[trigger] state.bindings[i]).resource != id by {
        assert(!is_binding(id)(state.bindings[i]));
    }
    assert forall|i: int|
        0 <= i < lists::first_index(state.input_methods, is_input_method(id)) implies (
    #[trigger] state.input_methods[i]).resource != id by {
        assert(!is_input_method(id)(state.input_methods[i]));
    }
    assert forall|i: int| 0 <= i < lists::first_index(state.surfaces, is_surface(id)) implies (
    #[trigger] state.surfaces[i]).surface != id by {
        assert(!is_surface(id)(state.surfaces[i]));
    }
}

/// A surface that goes is forgotten, and no other one is.
pub proof fn lemma_gone_surfaces_are_forgotten(surfaces: Seq<SurfaceView>, surface: u64, i: int)
    ensures
        ({
            let left = surfaces.filter(not_surface(surface));
            &&& 0 <= i < left.len() ==> left[i].surface != surface && surfaces.contains(left[i])
            &&& 0 <= i < surfaces.len() && surfaces[i].surface != surface ==> left.contains(
                surfaces[i],
            )
        }),
{
    let keep = not_surface(surface);
    let left = surfaces.filter(keep);
    if 0 <= i < left.len() {
        surfaces.lemma_filter_pred(keep, i);
        surfaces.lemma_filter_contains_rev(keep, left[i]);
    }
    if 0 <= i < surfaces.len() && surfaces[i].surface != surface {
        assert(keep(surfaces[i]));
        surfaces.lemma_filter_contains(keep, i);
    }
}

/// A server starts with the display that it was given, and with nobody connected and nothing
/// done.
pub proof fn lemma_servers_start_empty(display: Option<ActiveDisplayView>, little_endian: bool)
    ensures
        ({
            let state = fresh_state(display, little_endian);
            &&& state.active_display == display
            &&& state.little_endian == little_endian
            &&& state.commands.len() == 0 && state.controls.len() == 0 && state.privates.len() == 0
            &&& state.performance_requests.len() == 0 && state.bindings.len() == 0
            &&& state.surfaces.len() == 0 && state.input_methods.len() == 0
            &&& state.action_sequence == 0
        }),
{
}

} // verus!
