//! The compositor's state between its event loop, its X11 policy and its protocols.

use vstd::prelude::*;

use crate::control::ScreenType;
use crate::lists;
use crate::lists::{insert_number, remove_number};
use crate::modes;
use crate::modes::read_target_hz;
use crate::output;
use crate::output::{presentation_refresh_ns, OutputConfig, OutputMode};
use crate::protocol;
use crate::protocol::{
    ActiveDisplayInfo, ActiveDisplayView, Command, InputMethodCommand, ReshadeReply, ServerConfig,
    ServerEvent,
};
use crate::server;
use crate::server::{GamescopeState, ServerView};
use crate::steam;
use crate::steam::{select_managed_ancestor, BridgeEvent, FocusControl, STEAM_APP_ID};
use crate::steam_properties;
use crate::steam_properties::{display_name, FocusPublication, FocusPublicationView};
use crate::steam_worker;
use crate::steam_worker::{
    key_of_window, BridgeInitialState, InputFocus, MailboxView, SteamBridgeWorker,
    SteamWorkerEvent, SCREEN_MAGNIFICATION_ONE, SCREEN_SCALE_ONE,
};
use crate::swapchain;
use crate::swapchain::CommitMetadata;
use crate::tables;
use crate::tables::Table;
use crate::text::string_from;
use crate::vt::{VtSwitcher, VtView};
use crate::window_policy;
use crate::window_policy::{
    x11_window_identity_matches, PolicyView, RenderLayer, WindowPolicy, X11Window, XwmServer,
};
use crate::wire;

verus! {

/// Runtime requests sent through Steam's root-window compatibility channel.
#[derive(Clone, Copy, Debug, PartialEq, Eq, Structural)]
pub enum SteamRuntimeRequest {
    CreateXwayland { identifier: u32 },
    DestroyXwayland { server_id: u32 },
    SetVrr { enabled: bool },
    SetForceInternal { force: bool },
    RescanDisplay,
    SetDynamicRefresh { screen: ScreenType, refresh_hz: u32 },
    SetCompositeForce { force: bool },
}

/// What has the keyboard. An X11 window is kept as a window, so that the client's input
/// model is applied before keys go to Xwayland's surface.
#[derive(Clone, Copy, Debug, PartialEq, Eq, Structural)]
pub enum KeyboardFocusTarget {
    Wayland(u64),
    X11(X11Window),
}

impl KeyboardFocusTarget {
    pub open spec fn spec_surface(self) -> Option<u64> {
        match self {
            KeyboardFocusTarget::Wayland(surface) => Some(surface),
            KeyboardFocusTarget::X11(window) => window.surface,
        }
    }

    /// The surface that gets the keys.
    #[must_use]
    pub fn surface(self) -> (surface: Option<u64>)
        ensures
            surface == self.spec_surface(),
    {
        match self {
            KeyboardFocusTarget::Wayland(surface) => Some(surface),
            KeyboardFocusTarget::X11(window) => window.surface,
        }
    }
}

/// Two targets that are the same. A dead window is not the same as itself.
pub open spec fn same_target(
    left: Option<KeyboardFocusTarget>,
    right: Option<KeyboardFocusTarget>,
) -> bool {
    match (left, right) {
        (None, None) => true,
        (
            Some(KeyboardFocusTarget::Wayland(left)),
            Some(KeyboardFocusTarget::Wayland(right)),
        ) => left == right,
        (Some(KeyboardFocusTarget::X11(left)), Some(KeyboardFocusTarget::X11(right))) => {
            left.same_as(right)
        },
        _ => false,
    }
}

fn is_same_target(
    left: &Option<KeyboardFocusTarget>,
    right: &Option<KeyboardFocusTarget>,
) -> (same: bool)
    ensures
        same == same_target(*left, *right),
{
    match (left, right) {
        (None, None) => true,
        (
            Some(KeyboardFocusTarget::Wayland(left)),
            Some(KeyboardFocusTarget::Wayland(right)),
        ) => *left == *right,
        (Some(KeyboardFocusTarget::X11(left)), Some(KeyboardFocusTarget::X11(right))) => {
            left.is_same(right)
        },
        _ => false,
    }
}

/// The size that the selected window is to have.
#[derive(Clone, Copy, Debug, PartialEq, Eq, Structural)]
pub enum FocusSize {
    /// The size of the output.
    Output { width: i32, height: i32 },
    /// The size of the output, scaled down to the given height.
    Limited { width: i32, height: i32, limit: i32 },
}

/// What the event loop is to do for the compositor.
#[derive(Debug, PartialEq, Eq)]
#[allow(inconsistent_fields)]
pub enum Effect {
    SetKeyboardFocus(Option<KeyboardFocusTarget>),
    /// Configure the selected window unless it has the size already.
    FitWindow { xwm_id: Option<u32>, window_id: u32, size: FocusSize },
    SetActivated { xwm_id: Option<u32>, window_id: u32, active: bool },
    Raise { xwm_id: u32, window_id: u32 },
    ConfigureWindow { xwm_id: Option<u32>, window_id: u32, width: i32, height: i32 },
    SetFullscreen { xwm_id: Option<u32>, window_id: u32 },
    SetMapped { xwm_id: Option<u32>, window_id: u32, mapped: bool },
    /// Tell the WSI layer whether frames are limited.
    WriteLimiter { enabled: bool },
    /// Synthesize input.
    InputMethod(InputMethodCommand),
    /// Tell the requester of an effect that it is ready, if it is still alive.
    EffectReady { reply: ReshadeReply, path: String },
    Send(ServerEvent),
}

/// The display of an Xwayland server.
#[derive(Clone, Copy, Debug, PartialEq, Eq, Structural)]
pub struct ServerDisplay {
    pub server_id: u32,
    pub number: u32,
}

/// Metadata of a commit that has not been presented.
#[derive(Debug, PartialEq, Eq)]
pub struct PendingCommit {
    pub surface: u64,
    pub metadata: CommitMetadata,
}

/// Complete policy state of the compositor frontend.
pub struct State {
    policy: WindowPolicy,
    server: GamescopeState,
    worker: SteamBridgeWorker,
    displays: Vec<ServerDisplay>,
    first_display: Option<u32>,
    ready: Vec<u32>,
    events: Vec<SteamWorkerEvent>,
    games_running: u32,
    steam_max_height: u32,
    input_counter: u32,
    fps_limit: u32,
    has_limiter: bool,
    screen_scale: u32,
    screen_magnification: u32,
    next_sequence: u64,
    last_focus: Option<(u32, u32)>,
    parents: Table<u32>,
    resolving: Table<()>,
    keyboard_focus: Option<KeyboardFocusTarget>,
    focused_surface: Option<u64>,
    toplevels: Vec<u64>,
    frame_sequence: u64,
    commits: Vec<PendingCommit>,
    pressed_keysyms: Vec<u32>,
    vt: VtSwitcher,
    output: Option<OutputMode>,
    effects: Vec<Effect>,
}

/// What the compositor knows.
pub struct StateView {
    pub policy: PolicyView,
    pub server: ServerView,
    /// What waits for the X11 worker.
    pub mailbox: MailboxView,
    pub displays: Seq<ServerDisplay>,
    /// Display of the first server.
    pub first_display: Option<u32>,
    /// Servers that the worker has dealt with.
    pub ready: Seq<u32>,
    /// Reports of the worker that wait to be processed.
    pub events: Seq<SteamWorkerEvent>,
    pub games_running: u32,
    pub steam_max_height: u32,
    pub input_counter: u32,
    pub fps_limit: u32,
    pub has_limiter: bool,
    pub screen_scale: u32,
    pub screen_magnification: u32,
    /// Age of the next window.
    pub next_sequence: u64,
    /// Window manager and window that X input focus was last set to.
    pub last_focus: Option<(u32, u32)>,
    /// Managed windows of drawables, by server and drawable.
    pub parents: Map<u64, u32>,
    /// Drawables whose ancestors were asked for, by server and drawable.
    pub resolving: Map<u64, ()>,
    pub keyboard_focus: Option<KeyboardFocusTarget>,
    pub focused_surface: Option<u64>,
    /// Surfaces of native toplevels, latest last.
    pub toplevels: Seq<u64>,
    pub frame_sequence: u64,
    pub commits: Seq<PendingCommit>,
    pub pressed_keysyms: Seq<u32>,
    pub vt: VtView,
    pub output: Option<OutputMode>,
    /// What the event loop is to do, oldest first.
    pub effects: Seq<Effect>,
}

impl View for State {
    type V = StateView;

    closed spec fn view(&self) -> StateView {
        StateView {
            policy: self.policy@,
            server: self.server@,
            mailbox: self.worker@,
            displays: self.displays@,
            first_display: self.first_display,
            ready: self.ready@,
            events: self.events@,
            games_running: self.games_running,
            steam_max_height: self.steam_max_height,
            input_counter: self.input_counter,
            fps_limit: self.fps_limit,
            has_limiter: self.has_limiter,
            screen_scale: self.screen_scale,
            screen_magnification: self.screen_magnification,
            next_sequence: self.next_sequence,
            last_focus: self.last_focus,
            parents: self.parents@,
            resolving: self.resolving@,
            keyboard_focus: self.keyboard_focus,
            focused_surface: self.focused_surface,
            toplevels: self.toplevels@,
            frame_sequence: self.frame_sequence,
            commits: self.commits@,
            pressed_keysyms: self.pressed_keysyms@,
            vt: self.vt@,
            output: self.output,
            effects: self.effects@,
        }
    }
}

/// The predicate of being the display of a server.
pub open spec fn display_of(server_id: u32) -> spec_fn(ServerDisplay) -> bool {
    |display: ServerDisplay| display.server_id == server_id
}

/// The X input focus that a server gets: the window if it is one of its own, else none.
pub open spec fn focus_target(key: Option<(u32, u32)>, xwm_id: u32) -> Option<u32> {
    match key {
        Some((target, window)) if target == xwm_id => Some(window),
        _ => None,
    }
}

/// The pending input focus once every server has been told.
pub open spec fn focus_for_servers(
    pending: Seq<InputFocus>,
    servers: Seq<XwmServer>,
    key: Option<(u32, u32)>,
) -> Seq<InputFocus>
    decreases servers.len(),
{
    if servers.len() == 0 {
        pending
    } else {
        steam_worker::with_input_focus(
            focus_for_servers(pending, servers.drop_last(), key),
            servers.last().server_id,
            focus_target(key, servers.last().xwm_id),
        )
    }
}

/// The activation of each window: only the focused one is active.
pub open spec fn activations(windows: Seq<X11Window>, key: Option<(u32, u32)>) -> Seq<Effect> {
    windows.map_values(
        |window: X11Window|
            Effect::SetActivated {
                xwm_id: window.xwm_id,
                window_id: window.window_id,
                active: key matches Some((xwm_id, window_id)) && window.has_identity(
                    xwm_id,
                    window_id,
                ),
            },
    )
}

impl StateView {
    /// The native surface that stands in for a selected X11 window.
    pub open spec fn fallback(self) -> Option<u64> {
        if self.focused_surface is Some {
            self.focused_surface
        } else if self.toplevels.len() > 0 {
            Some(self.toplevels.last())
        } else {
            None
        }
    }

    pub open spec fn display_number(self, server_id: u32) -> Option<u32> {
        let index = lists::first_index(self.displays, display_of(server_id));
        if index < self.displays.len() {
            Some(self.displays[index].number)
        } else {
            None
        }
    }

    pub open spec fn with_effects(self, effects: Seq<Effect>) -> StateView {
        StateView { effects: self.effects + effects, ..self }
    }

    /// The keyboard goes to a target, unless it is there already.
    pub open spec fn with_keyboard_focus(self, next: Option<KeyboardFocusTarget>) -> StateView {
        if same_target(next, self.keyboard_focus) {
            self
        } else {
            StateView {
                keyboard_focus: next,
                focused_surface: match next {
                    Some(target) => target.spec_surface(),
                    None => None,
                },
                effects: self.effects.push(Effect::SetKeyboardFocus(next)),
                ..self
            }
        }
    }

    /// Whether an X11 window has the keyboard.
    pub open spec fn has_keyboard(self, xwm_id: u32, window_id: u32) -> bool {
        self.keyboard_focus matches Some(KeyboardFocusTarget::X11(window)) && window.has_identity(
            xwm_id,
            window_id,
        )
    }

    /// What policy wants to have the keyboard.
    pub open spec fn keyboard_choice(self) -> Option<KeyboardFocusTarget> {
        match self.policy.keyboard_window() {
            Some(window) => Some(KeyboardFocusTarget::X11(window)),
            None => match self.policy.primary_input(self.fallback()) {
                Some(surface) => Some(KeyboardFocusTarget::Wayland(surface)),
                None => None,
            },
        }
    }

    /// Window manager and window of the X11 window that is to have the keyboard.
    pub open spec fn focus_key(self) -> Option<(u32, u32)> {
        match self.policy.keyboard_window() {
            Some(window) => match window.xwm_id {
                Some(xwm_id) => Some((xwm_id, window.window_id)),
                None => None,
            },
            None => None,
        }
    }

    /// The size of the selected window: that of the output, except that Steam's own
    /// windows are no higher than Steam wants.
    pub open spec fn focus_size(self, focus: X11Window, mode: OutputMode) -> FocusSize {
        if self.policy.metadata_of(focus).app(self.policy.steam_mode, focus.window_id)
            == STEAM_APP_ID && self.steam_max_height != 0 && mode.height > self.steam_max_height {
            FocusSize::Limited {
                width: mode.width,
                height: mode.height,
                limit: self.steam_max_height as i32,
            }
        } else {
            FocusSize::Output { width: mode.width, height: mode.height }
        }
    }

    pub open spec fn fit_effects(self) -> Seq<Effect> {
        match self.policy.selected_window() {
            Some(focus) => match self.output {
                Some(mode) => seq![
                    Effect::FitWindow {
                        xwm_id: focus.xwm_id,
                        window_id: focus.window_id,
                        size: self.focus_size(focus, mode),
                    },
                ],
                None => Seq::empty(),
            },
            None => Seq::empty(),
        }
    }

    /// The focused window is raised by its window manager.
    pub open spec fn raise_effects(self) -> Seq<Effect> {
        match self.focus_key() {
            Some((xwm_id, window_id)) => if self.policy.server_of_xwm(xwm_id) is Some {
                seq![Effect::Raise { xwm_id, window_id }]
            } else {
                Seq::empty()
            },
            None => Seq::empty(),
        }
    }

    /// X11 focus follows policy. It is set explicitly and only when the target changes,
    /// because repeated focusing of one window produces a storm of focus events.
    pub open spec fn with_x11_focus(self) -> StateView {
        let fitted = self.with_effects(self.fit_effects());
        if self.focus_key() == self.last_focus {
            fitted
        } else {
            StateView {
                effects: fitted.effects + activations(self.policy.windows, self.focus_key())
                    + self.raise_effects(),
                mailbox: MailboxView {
                    input_focus: focus_for_servers(
                        self.mailbox.input_focus,
                        self.policy.servers,
                        self.focus_key(),
                    ),
                    ..self.mailbox
                },
                last_focus: self.focus_key(),
                ..self
            }
        }
    }

    /// What Steam is told of focus, when the first server has a display.
    pub open spec fn publication(self, root_display: u32) -> FocusPublicationView {
        let focus = self.policy.selected_window();
        let app = match focus {
            Some(window) => Some(
                self.policy.metadata_of(window).app(self.policy.steam_mode, window.window_id),
            ),
            None => None,
        };
        let told_app = match app {
            Some(app_id) if app_id != 0 => Some(app_id),
            _ => None,
        };
        FocusPublicationView {
            focusable_apps: focusable_apps(self.policy, self.policy.windows),
            focusable_windows: focusable_windows(self.policy, self.policy.windows),
            focused_window: match focus {
                Some(window) => Some(window.window_id),
                None => None,
            },
            focused_app: told_app,
            focused_gfx_app: told_app,
            focus_display: steam_properties::display_text(
                match self.focus_display(focus) {
                    Some(number) => number,
                    None => root_display,
                },
            ),
            steam_mode: self.policy.steam_mode,
        }
    }

    /// The display of a window.
    pub open spec fn focus_display(self, window: Option<X11Window>) -> Option<u32> {
        match window {
            Some(window) => match window.xwm_id {
                Some(xwm_id) => match self.policy.server_of_xwm(xwm_id) {
                    Some(server_id) => self.display_number(server_id),
                    None => None,
                },
                None => None,
            },
            None => None,
        }
    }

    /// What is left for Steam is what policy says now, or what was left before when the
    /// first server has no display.
    pub open spec fn publishes(
        self,
        before: Option<FocusPublication>,
        after: Option<FocusPublication>,
    ) -> bool {
        match self.display_number(0) {
            Some(root_display) => after matches Some(publication) && publication@
                == self.publication(root_display),
            None => after == before,
        }
    }

    /// Keyboard and X11 focus follow policy, and Steam is left a publication.
    pub open spec fn refreshed(self, publication: Option<FocusPublication>) -> StateView {
        let focused = self.with_keyboard_focus(self.keyboard_choice()).with_x11_focus();
        StateView {
            mailbox: MailboxView { focus: publication, ..focused.mailbox },
            ..focused
        }
    }

    /// The state after focus has been re-evaluated.
    pub open spec fn is_refreshed(self, after: StateView) -> bool {
        &&& after == self.refreshed(after.mailbox.focus)
        &&& self.publishes(self.mailbox.focus, after.mailbox.focus)
    }
}

/// A window that can be focused by the user.
pub open spec fn user_focusable(policy: PolicyView, window: X11Window) -> bool {
    policy.candidate(window) matches Some(candidate) && candidate.is_useful()
        && !candidate.override_redirect
}

/// The apps of the windows that can be focused, each once.
pub open spec fn focusable_apps(policy: PolicyView, windows: Seq<X11Window>) -> Seq<u32>
    decreases windows.len(),
{
    if windows.len() == 0 {
        Seq::empty()
    } else {
        let before = focusable_apps(policy, windows.drop_last());
        let window = windows.last();
        let app_id = policy.candidate(window).unwrap().app_id;
        if user_focusable(policy, window) && app_id != 0 {
            lists::with_number(before, app_id)
        } else {
            before
        }
    }
}

/// Window, app and process of each window that can be focused.
pub open spec fn focusable_windows(policy: PolicyView, windows: Seq<X11Window>) -> Seq<u32>
    decreases windows.len(),
{
    if windows.len() == 0 {
        Seq::empty()
    } else {
        let before = focusable_windows(policy, windows.drop_last());
        let window = windows.last();
        if user_focusable(policy, window) {
            before.push(window.window_id).push(policy.candidate(window).unwrap().app_id).push(
                policy.metadata_of(window).pid,
            )
        } else {
            before
        }
    }
}

fn same_key(left: Option<(u32, u32)>, right: Option<(u32, u32)>) -> (same: bool)
    ensures
        same == (left == right),
{
    match (left, right) {
        (Some((left_xwm, left_window)), Some((right_xwm, right_window))) => left_xwm == right_xwm
            && left_window == right_window,
        (None, None) => true,
        _ => false,
    }
}

impl State {
    /// The native surface that stands in for a selected X11 window.
    fn fallback_surface(&self) -> (surface: Option<u64>)
        ensures
            surface == self@.fallback(),
    {
        if self.focused_surface.is_some() {
            self.focused_surface
        } else if self.toplevels.len() > 0 {
            Some(self.toplevels[self.toplevels.len() - 1])
        } else {
            None
        }
    }

    /// The display of an Xwayland server.
    #[must_use]
    pub fn display_number(&self, server_id: u32) -> (number: Option<u32>)
        ensures
            number == self@.display_number(server_id),
    {
        let ghost wanted = display_of(server_id);
        let mut i: usize = 0;
        while i < self.displays.len()
            invariant
                i <= self.displays@.len(),
                wanted == display_of(server_id),
                forall|j: int| 0 <= j < i ==> !wanted(#[trigger] self.displays@[j]),
            decreases self.displays@.len() - i,
        {
            if self.displays[i].server_id == server_id {
                proof {
                    lists::lemma_first_index(self.displays@, wanted, i as int);
                }
                return Some(self.displays[i].number);
            }
            i = i + 1;
        }
        proof {
            lists::lemma_first_index(self.displays@, wanted, i as int);
        }
        None
    }

    /// Give the keyboard to a target, unless it has it.
    fn set_keyboard_focus(&mut self, next: Option<KeyboardFocusTarget>)
        ensures
            final(self)@ == old(self)@.with_keyboard_focus(next),
    {
        if !is_same_target(&next, &self.keyboard_focus) {
            self.keyboard_focus = next;
            self.focused_surface = match next {
                Some(target) => target.surface(),
                None => None,
            };
            self.effects.push(Effect::SetKeyboardFocus(next));
        }
    }

    /// The seat has moved the keyboard to a target.
    pub fn focus_changed(&mut self, focused: Option<KeyboardFocusTarget>)
        ensures
            final(self)@ == (StateView {
                keyboard_focus: focused,
                focused_surface: match focused {
                    Some(target) => target.spec_surface(),
                    None => None,
                },
                ..old(self)@
            }),
    {
        self.keyboard_focus = focused;
        self.focused_surface = match focused {
            Some(target) => target.surface(),
            None => None,
        };
    }

    fn keyboard_focus_is_x11_window(&self, xwm_id: u32, window_id: u32) -> (focused: bool)
        ensures
            focused == self@.has_keyboard(xwm_id, window_id),
    {
        match self.keyboard_focus {
            Some(KeyboardFocusTarget::X11(window)) => x11_window_identity_matches(
                window.xwm_id,
                window.window_id,
                xwm_id,
                window_id,
            ),
            _ => false,
        }
    }

    fn next_focus_key(&self) -> (key: Option<(u32, u32)>)
        ensures
            key == self@.focus_key(),
    {
        match self.policy.keyboard_x11_window() {
            Some(window) => match window.xwm_id {
                Some(xwm_id) => Some((xwm_id, window.window_id)),
                None => None,
            },
            None => None,
        }
    }

    fn fit_selected_window(&mut self)
        ensures
            final(self)@ == old(self)@.with_effects(old(self)@.fit_effects()),
    {
        if let Some(focus) = self.policy.selected_x11_window() {
            if let Some(mode) = self.output {
                let app_id: u32 = self.policy.metadata_for(&focus).effective_app_id(
                    self.policy.steam_mode(),
                    focus.window_id,
                );
                let size = if app_id == STEAM_APP_ID && self.steam_max_height != 0 && mode.height
                    > 0 && mode.height as u32 > self.steam_max_height {
                    FocusSize::Limited {
                        width: mode.width,
                        height: mode.height,
                        limit: self.steam_max_height as i32,
                    }
                } else {
                    FocusSize::Output { width: mode.width, height: mode.height }
                };
                self.effects.push(
                    Effect::FitWindow { xwm_id: focus.xwm_id, window_id: focus.window_id, size },
                );
            }
        }
        assert(self@.effects =~= old(self)@.effects + old(self)@.fit_effects());
    }

    fn focus_servers(&mut self, key: Option<(u32, u32)>)
        ensures
            final(self)@ == (StateView {
                mailbox: MailboxView {
                    input_focus: focus_for_servers(
                        old(self)@.mailbox.input_focus,
                        old(self)@.policy.servers,
                        key,
                    ),
                    ..old(self)@.mailbox
                },
                ..old(self)@
            }),
    {
        let ghost servers = self.policy@.servers;
        let ghost before = self@;
        let count: usize = self.policy.servers().len();
        let mut i: usize = 0;
        while i < count
            invariant
                i <= count == servers.len(),
                servers == self.policy@.servers,
                before == old(self)@,
                servers == before.policy.servers,
                self@ == (StateView {
                    mailbox: MailboxView {
                        input_focus: focus_for_servers(
                            before.mailbox.input_focus,
                            servers.take(i as int),
                            key,
                        ),
                        ..before.mailbox
                    },
                    ..before
                }),
            decreases count - i,
        {
            let entry = self.policy.servers()[i];
            let target: Option<u32> = match key {
                Some((xwm_id, window)) => if xwm_id == entry.xwm_id {
                    Some(window)
                } else {
                    None
                },
                None => None,
            };
            self.worker.set_input_focus(entry.server_id, target);
            assert(servers.take(i + 1).drop_last() =~= servers.take(i as int));
            assert(servers.take(i + 1).last() == entry);
            i = i + 1;
        }
        assert(servers.take(i as int) =~= servers);
    }

    fn activate_windows(&mut self, key: Option<(u32, u32)>)
        ensures
            final(self)@ == old(self)@.with_effects(
                activations(old(self)@.policy.windows, key),
            ),
    {
        let ghost windows = self.policy@.windows;
        let ghost all = activations(windows, key);
        let ghost before = self@;
        let count: usize = self.policy.windows().len();
        let mut i: usize = 0;
        assert(before.effects + all.take(0) =~= before.effects);
        while i < count
            invariant
                i <= count == windows.len(),
                windows == self.policy@.windows,
                all == activations(windows, key),
                before == old(self)@,
                windows == before.policy.windows,
                self@ == (StateView { effects: before.effects + all.take(i as int), ..before }),
            decreases count - i,
        {
            let window = self.policy.windows()[i];
            let active = match key {
                Some((xwm_id, window_id)) => x11_window_identity_matches(
                    window.xwm_id,
                    window.window_id,
                    xwm_id,
                    window_id,
                ),
                None => false,
            };
            self.effects.push(
                Effect::SetActivated {
                    xwm_id: window.xwm_id,
                    window_id: window.window_id,
                    active,
                },
            );
            assert(before.effects + all.take(i + 1) =~= (before.effects + all.take(
                i as int,
            )).push(all[i as int]));
            i = i + 1;
        }
        assert(all.take(i as int) =~= all);
    }

    /// Let X11 focus follow policy.
    fn apply_x11_focus(&mut self)
        ensures
            final(self)@ == old(self)@.with_x11_focus(),
    {
        let key = self.next_focus_key();
        self.fit_selected_window();
        if same_key(key, self.last_focus) {
            return;
        }
        self.focus_servers(key);
        self.activate_windows(key);
        if let Some((xwm_id, window_id)) = key {
            if self.policy.server_for_xwm(xwm_id).is_some() {
                self.effects.push(Effect::Raise { xwm_id, window_id });
            }
        }
        self.last_focus = key;
        assert(self@.effects =~= old(self)@.with_x11_focus().effects);
    }

    fn focusable(&self) -> (lists: (Vec<u32>, Vec<u32>))
        ensures
            lists.0@ == focusable_apps(self@.policy, self@.policy.windows),
            lists.1@ == focusable_windows(self@.policy, self@.policy.windows),
    {
        let ghost policy = self.policy@;
        let ghost windows = policy.windows;
        let mut apps: Vec<u32> = Vec::new();
        let mut triples: Vec<u32> = Vec::new();
        let count: usize = self.policy.windows().len();
        let mut i: usize = 0;
        while i < count
            invariant
                i <= count == windows.len(),
                policy == self.policy@,
                windows == policy.windows,
                apps@ == focusable_apps(policy, windows.take(i as int)),
                triples@ == focusable_windows(policy, windows.take(i as int)),
            decreases count - i,
        {
            assert(windows.take(i + 1).drop_last() =~= windows.take(i as int));
            assert(windows.take(i + 1).last() == windows[i as int]);
            let window = self.policy.windows()[i];
            if let Some(candidate) = self.policy.focus_candidate(&window) {
                if candidate.useful() && !candidate.override_redirect {
                    if candidate.app_id != 0 {
                        let _added = insert_number(&mut apps, candidate.app_id);
                    }
                    triples.push(candidate.window_id);
                    triples.push(candidate.app_id);
                    triples.push(self.policy.metadata_for(&window).pid);
                }
            }
            i = i + 1;
        }
        assert(windows.take(i as int) =~= windows);
        (apps, triples)
    }

    /// Leave Steam what policy says of focus.
    fn publish_steam_focus(&mut self)
        ensures
            final(self)@ == (StateView {
                mailbox: MailboxView {
                    focus: final(self)@.mailbox.focus,
                    ..old(self)@.mailbox
                },
                ..old(self)@
            }),
            old(self)@.publishes(old(self)@.mailbox.focus, final(self)@.mailbox.focus),
    {
        let root_display: u32 = match self.display_number(0) {
            Some(number) => number,
            None => {
                return;
            },
        };
        let (focusable_apps, focusable_windows) = self.focusable();
        let focus = self.policy.selected_x11_window();
        let (focused_window, app_id): (Option<u32>, u32) = match &focus {
            Some(window) => (
                Some(window.window_id),
                self.policy.metadata_for(window).effective_app_id(
                    self.policy.steam_mode(),
                    window.window_id,
                ),
            ),
            None => (None, 0),
        };
        let told_app: Option<u32> = if app_id != 0 {
            Some(app_id)
        } else {
            None
        };
        let display: Option<u32> = match &focus {
            Some(window) => match window.xwm_id {
                Some(xwm_id) => match self.policy.server_for_xwm(xwm_id) {
                    Some(server_id) => self.display_number(server_id),
                    None => None,
                },
                None => None,
            },
            None => None,
        };
        let number: u32 = match display {
            Some(number) => number,
            None => root_display,
        };
        let publication = FocusPublication {
            focusable_apps,
            focusable_windows,
            focused_window,
            focused_app: told_app,
            focused_gfx_app: told_app,
            focus_display: display_name(number),
            steam_mode: self.policy.steam_mode(),
        };
        assert(publication@ =~= self@.publication(root_display));
        self.worker.publish_focus(publication);
    }

    /// Re-evaluate base and overlay policy and apply X11 and Wayland focus.
    pub fn refresh_focus(&mut self)
        ensures
            old(self)@.is_refreshed(final(self)@),
    {
        let next = match self.policy.keyboard_x11_window() {
            Some(window) => Some(KeyboardFocusTarget::X11(window)),
            None => match self.policy.primary_input_surface(self.fallback_surface()) {
                Some(surface) => Some(KeyboardFocusTarget::Wayland(surface)),
                None => None,
            },
        };
        self.set_keyboard_focus(next);
        self.apply_x11_focus();
        self.publish_steam_focus();
    }
}

/// The display of a server is replaced, or added at the end.
pub open spec fn with_display(
    displays: Seq<ServerDisplay>,
    server_id: u32,
    number: u32,
) -> Seq<ServerDisplay> {
    let index = lists::first_index(displays, display_of(server_id));
    if index < displays.len() {
        displays.update(index, ServerDisplay { server_id, number })
    } else {
        displays.push(ServerDisplay { server_id, number })
    }
}

/// The predicate of being the display of another server.
pub open spec fn other_display(server_id: u32) -> spec_fn(ServerDisplay) -> bool {
    |display: ServerDisplay| display.server_id != server_id
}

/// Refresh rate of an output whose mode is not known, in millihertz.
pub const DEFAULT_REFRESH_MILLIHZ: i32 = 60_000;

impl StateView {
    /// A server is attached to its window manager.
    pub open spec fn with_xwayland(self, xwm_id: u32, server_id: u32, number: u32) -> StateView {
        let refresh_millihz = match self.output {
            Some(mode) => mode.refresh,
            None => DEFAULT_REFRESH_MILLIHZ,
        };
        StateView {
            policy: PolicyView {
                servers: window_policy::with_server(self.policy.servers, xwm_id, server_id),
                ..self.policy
            },
            displays: with_display(self.displays, server_id, number),
            first_display: if server_id == 0 {
                Some(number)
            } else {
                self.first_display
            },
            mailbox: MailboxView {
                commands: self.mailbox.commands.push(
                    steam_worker::SteamWorkerCommand::Register {
                        display_number: number,
                        server_id,
                        refresh_millihz,
                    },
                ),
                ..self.mailbox
            },
            ..self
        }
    }

    /// Everything of a server is gone.
    pub open spec fn without_xwayland(self, xwm_id: u32, server_id: u32) -> StateView {
        let unfocused = if self.keyboard_focus matches Some(KeyboardFocusTarget::X11(window))
            && window.xwm_id == Some(xwm_id) {
            self.with_keyboard_focus(None)
        } else {
            self
        };
        StateView {
            policy: self.policy.without_xwm(xwm_id, server_id),
            parents: self.parents.remove_keys(steam_worker::server_keys(server_id)),
            resolving: self.resolving.remove_keys(steam_worker::server_keys(server_id)),
            mailbox: MailboxView {
                commands: self.mailbox.commands.push(
                    steam_worker::SteamWorkerCommand::Remove { server_id },
                ),
                ..self.mailbox
            },
            ready: lists::without_number(self.ready, server_id),
            displays: self.displays.filter(other_display(server_id)),
            last_focus: if self.last_focus matches Some((candidate, window)) && candidate
                == xwm_id {
                None
            } else {
                self.last_focus
            },
            ..unfocused
        }
    }

    /// The worker is asked for the metadata of a window of a known server.
    pub open spec fn with_metadata_request(self, xwm_id: u32, window_id: u32) -> StateView {
        let index = lists::first_index(
            self.policy.windows,
            window_policy::is_window(xwm_id, window_id),
        );
        let pid = if index < self.policy.windows.len() {
            self.policy.windows[index].pid
        } else {
            None
        };
        match self.policy.server_of_xwm(xwm_id) {
            Some(server_id) => StateView {
                mailbox: MailboxView {
                    commands: self.mailbox.commands.push(
                        steam_worker::SteamWorkerCommand::ReadWindow {
                            server_id,
                            window: window_id,
                            pid,
                        },
                    ),
                    ..self.mailbox
                },
                ..self
            },
            None => self,
        }
    }

    /// A window gets its place in the order of windows, and the worker watches it.
    pub open spec fn with_tracked(self, window: X11Window) -> StateView {
        match window.xwm_id {
            Some(xwm_id) => {
                let key = steam_worker::window_key(xwm_id, window.window_id);
                let stamped = if self.policy.sequences.contains_key(key) {
                    self
                } else {
                    StateView {
                        policy: PolicyView {
                            sequences: self.policy.sequences.insert(key, self.next_sequence),
                            ..self.policy
                        },
                        next_sequence: ((self.next_sequence + 1) % 0x1_0000_0000_0000_0000) as u64,
                        ..self
                    }
                };
                let watched = StateView {
                    mailbox: MailboxView {
                        commands: self.mailbox.commands.push(
                            steam_worker::SteamWorkerCommand::WatchWindow {
                                server_id: self.policy.server_of(window),
                                window: window.window_id,
                                pid: window.pid,
                            },
                        ),
                        ..self.mailbox
                    },
                    ..stamped
                };
                watched.with_metadata_request(xwm_id, window.window_id)
            },
            None => self,
        }
    }

    /// A window has shown itself.
    pub open spec fn with_known(self, window: X11Window) -> StateView {
        (StateView {
            policy: PolicyView {
                windows: window_policy::remembered(self.policy.windows, window),
                ..self.policy
            },
            ..self
        }).with_tracked(window)
    }

    /// A window that has the keyboard gives it up, so that it enters anew.
    pub open spec fn with_early_focus_cleared(self, window: X11Window) -> StateView {
        if window.xwm_id matches Some(xwm_id) && self.has_keyboard(xwm_id, window.window_id) {
            StateView { last_focus: None, ..self.with_keyboard_focus(None) }
        } else {
            self
        }
    }

    /// Everything of a window is gone.
    pub open spec fn without_window(self, xwm_id: u32, window_id: u32) -> StateView {
        let unfocused = if self.has_keyboard(xwm_id, window_id) {
            self.with_keyboard_focus(None)
        } else {
            self
        };
        let server_id = match self.policy.server_of_xwm(xwm_id) {
            Some(server_id) => server_id,
            None => 0,
        };
        let key = steam_worker::window_key(server_id, window_id);
        StateView {
            policy: self.policy.without_window(xwm_id, window_id, server_id),
            parents: self.parents.remove(key).remove_keys(
                tables::keys_with_value(
                    self.parents.remove(key),
                    steam_worker::window_key(server_id, 0),
                    steam_worker::window_key(server_id, u32::MAX),
                    window_id,
                ),
            ),
            resolving: self.resolving.remove(key),
            ..unfocused
        }
    }

    /// A native surface gets the keyboard, unless X11 policy has a target. A surface of an
    /// X11 window gives it to the window.
    pub open spec fn with_wayland_focus(self, surface: u64) -> StateView {
        let index = lists::first_index(self.policy.windows, shows(surface));
        if index < self.policy.windows.len() {
            self.with_keyboard_focus(Some(KeyboardFocusTarget::X11(self.policy.windows[index])))
        } else if self.policy.keyboard_window() is None {
            self.with_keyboard_focus(Some(KeyboardFocusTarget::Wayland(surface)))
        } else {
            self
        }
    }
}

/// The predicate of being the window of a surface.
pub open spec fn shows(surface: u64) -> spec_fn(X11Window) -> bool {
    |window: X11Window| window.surface == Some(surface)
}

/// The properties of X11 windows that the window manager watches.
#[derive(Clone, Copy, Debug, PartialEq, Eq, Structural)]
pub enum WindowProperty {
    Title,
    Class,
    Protocols,
    Hints,
    NormalHints,
    TransientFor,
    WindowType,
    MotifHints,
    StartupId,
    Pid,
}

/// Whether a property says how its window takes input.
#[must_use]
pub fn x11_property_changes_input_mode(property: WindowProperty) -> (changes: bool)
    ensures
        changes == (property == WindowProperty::Hints || property == WindowProperty::Protocols),
{
    match property {
        WindowProperty::Hints | WindowProperty::Protocols => true,
        _ => false,
    }
}

/// Place and size of a window.
#[derive(Clone, Copy, Debug, PartialEq, Eq, Structural)]
pub struct WindowGeometry {
    pub x: i32,
    pub y: i32,
    pub width: i32,
    pub height: i32,
}

/// A requested dimension, or the current one if none was requested or it is too large.
pub open spec fn dimension_or(requested: Option<u32>, current: i32) -> i32 {
    match requested {
        Some(value) if value <= i32::MAX => value as i32,
        _ => current,
    }
}

fn read_dimension(requested: Option<u32>, current: i32) -> (dimension: i32)
    ensures
        dimension == dimension_or(requested, current),
{
    match requested {
        Some(value) => if value <= i32::MAX as u32 {
            value as i32
        } else {
            current
        },
        None => current,
    }
}

/// The geometry that a window asks for.
#[must_use]
pub fn configure_request(
    geometry: WindowGeometry,
    x: Option<i32>,
    y: Option<i32>,
    width: Option<u32>,
    height: Option<u32>,
) -> (requested: WindowGeometry)
    ensures
        requested == (WindowGeometry {
            x: if let Some(x) = x {
                x
            } else {
                geometry.x
            },
            y: if let Some(y) = y {
                y
            } else {
                geometry.y
            },
            width: dimension_or(width, geometry.width),
            height: dimension_or(height, geometry.height),
        }),
{
    WindowGeometry {
        x: match x {
            Some(x) => x,
            None => geometry.x,
        },
        y: match y {
            Some(y) => y,
            None => geometry.y,
        },
        width: read_dimension(width, geometry.width),
        height: read_dimension(height, geometry.height),
    }
}

/// The state of a compositor that nothing has happened to.
pub open spec fn is_fresh(
    state: StateView,
    output_config: OutputConfig,
    steam_mode: bool,
    display: Option<ActiveDisplayView>,
) -> bool {
    &&& state.server == server::fresh_state(display, state.server.little_endian)
    &&& wire::is_native_order(state.server.little_endian)
    &&& state == (StateView {
        policy: PolicyView {
            windows: Seq::empty(),
            metadata: Map::empty(),
            sequences: Map::empty(),
            servers: Seq::empty(),
            content_overrides: Map::empty(),
            control_window: None,
            control_app_ids: Seq::empty(),
            steam_mode,
        },
        server: state.server,
        mailbox: MailboxView {
            commands: Seq::empty(),
            focus: None,
            input_counter: None,
            input_focus: Seq::empty(),
            direct_scanout_status: None,
            vrr_feedback: None,
            refresh_millihz: None,
        },
        displays: Seq::empty(),
        first_display: None,
        ready: Seq::empty(),
        events: Seq::empty(),
        games_running: 0,
        steam_max_height: 0,
        input_counter: 0,
        fps_limit: 0,
        has_limiter: false,
        screen_scale: SCREEN_SCALE_ONE,
        screen_magnification: SCREEN_MAGNIFICATION_ONE,
        next_sequence: 1,
        last_focus: None,
        parents: Map::empty(),
        resolving: Map::empty(),
        keyboard_focus: None,
        focused_surface: None,
        toplevels: Seq::empty(),
        frame_sequence: 0,
        commits: Seq::empty(),
        pressed_keysyms: Seq::empty(),
        vt: VtView {
            enabled: false,
            pressed: Seq::empty(),
            intercepted: Seq::empty(),
            pending: None,
        },
        output: Some(output_config.spec_mode()),
        effects: Seq::empty(),
    })
}

/// What control clients are told of the display of a nested compositor.
pub open spec fn nested_display(refresh_millihz: i32) -> ActiveDisplayView {
    ActiveDisplayView {
        connector_name: "gamescope"@,
        display_make: "Valve"@,
        display_model: "Gamescope"@,
        flags: 0,
        valid_refresh_rates_hz: seq![
            match modes::target_hz(Some(refresh_millihz)) {
                Some(hz) => hz,
                None => 60,
            },
        ],
    }
}

impl State {
    /// Create the state of a nested compositor.
    #[must_use]
    pub fn new(output_config: &OutputConfig) -> (state: Self)
        requires
            output_config.refresh_millihz <= i32::MAX - 499,
        ensures
            is_fresh(
                state@,
                *output_config,
                false,
                Some(nested_display(output_config.refresh_millihz)),
            ),
    {
        Self::new_with_steam(output_config, false)
    }

    /// Create the state of a nested compositor and optionally enable Steam's X11 policy.
    #[must_use]
    pub fn new_with_steam(output_config: &OutputConfig, steam_mode: bool) -> (state: Self)
        requires
            output_config.refresh_millihz <= i32::MAX - 499,
        ensures
            is_fresh(
                state@,
                *output_config,
                steam_mode,
                Some(nested_display(output_config.refresh_millihz)),
            ),
    {
        let rate: u32 = match read_target_hz(Some(output_config.refresh_millihz)) {
            Some(hz) => hz,
            None => 60,
        };
        let mut valid_refresh_rates_hz: Vec<u32> = Vec::new();
        valid_refresh_rates_hz.push(rate);
        let display = ActiveDisplayInfo {
            connector_name: string_from("gamescope"),
            display_make: string_from("Valve"),
            display_model: string_from("Gamescope"),
            flags: 0,
            valid_refresh_rates_hz,
        };
        assert(display@.valid_refresh_rates_hz =~= nested_display(
            output_config.refresh_millihz,
        ).valid_refresh_rates_hz);
        let config = ServerConfig { pipewire_node_id: None, active_display: Some(display) };
        Self::new_with_server_config(output_config, steam_mode, &config)
    }
}

impl State {
    /// Create compositor state with backend-provided Gamescope protocol data.
    #[must_use]
    pub fn new_with_server_config(
        output_config: &OutputConfig,
        steam_mode: bool,
        server_config: &ServerConfig,
    ) -> (state: Self)
        ensures
            is_fresh(
                state@,
                *output_config,
                steam_mode,
                protocol::display_view(server_config.active_display),
            ),
    {
        Self {
            policy: WindowPolicy::new(steam_mode),
            server: GamescopeState::with_config(server_config),
            worker: SteamBridgeWorker::new(),
            displays: Vec::new(),
            first_display: None,
            ready: Vec::new(),
            events: Vec::new(),
            games_running: 0,
            steam_max_height: 0,
            input_counter: 0,
            fps_limit: 0,
            has_limiter: false,
            screen_scale: SCREEN_SCALE_ONE,
            screen_magnification: SCREEN_MAGNIFICATION_ONE,
            next_sequence: 1,
            last_focus: None,
            parents: Table::new(),
            resolving: Table::new(),
            keyboard_focus: None,
            focused_surface: None,
            toplevels: Vec::new(),
            frame_sequence: 0,
            commits: Vec::new(),
            pressed_keysyms: Vec::new(),
            vt: VtSwitcher::new(),
            output: Some(output_config.mode()),
            effects: Vec::new(),
        }
    }

    /// Take what the event loop is to do, oldest first.
    pub fn take_effects(&mut self) -> (effects: Vec<Effect>)
        ensures
            effects@ == old(self)@.effects,
            final(self)@ == (StateView { effects: Seq::empty(), ..old(self)@ }),
    {
        let mut effects: Vec<Effect> = Vec::new();
        std::mem::swap(&mut effects, &mut self.effects);
        effects
    }

    /// The protocol state.
    #[must_use]
    pub fn gamescope_state(&self) -> (server: &GamescopeState)
        ensures
            server@ == self@.server,
    {
        &self.server
    }

    /// The protocol state, for requests.
    pub fn gamescope_state_mut(&mut self) -> (server: &mut GamescopeState)
        ensures
            server@ == old(self)@.server,
            final(self)@ == (StateView { server: final(server)@, ..old(self)@ }),
    {
        &mut self.server
    }

    /// What waits for the X11 worker, for the worker to take.
    pub fn steam_worker_mut(&mut self) -> (worker: &mut SteamBridgeWorker)
        ensures
            worker@ == old(self)@.mailbox,
            final(self)@ == (StateView { mailbox: final(worker)@, ..old(self)@ }),
    {
        &mut self.worker
    }

    /// The terminal switcher.
    pub fn vt_mut(&mut self) -> (vt: &mut VtSwitcher)
        ensures
            vt@ == old(self)@.vt,
            final(self)@ == (StateView { vt: final(vt)@, ..old(self)@ }),
    {
        &mut self.vt
    }

    /// Steam's fixed-point overscan and magnification.
    #[must_use]
    pub fn screen_scales(&self) -> (scales: (u32, u32))
        ensures
            scales == (self@.screen_scale, self@.screen_magnification),
    {
        (self.screen_scale, self.screen_magnification)
    }

    /// The display of the first server.
    #[must_use]
    pub fn xdisplay(&self) -> (display: Option<u32>)
        ensures
            display == self@.first_display,
    {
        self.first_display
    }

    /// The mode of the output.
    #[must_use]
    pub fn output_mode(&self) -> (mode: Option<OutputMode>)
        ensures
            mode == self@.output,
    {
        self.output
    }

    /// The server of the window manager of a client; ordinary clients belong to the first
    /// server.
    #[must_use]
    pub fn xwayland_server_id(&self, xwm_id: Option<u32>) -> (server_id: u32)
        ensures
            server_id == (match xwm_id {
                Some(xwm_id) => match self@.policy.server_of_xwm(xwm_id) {
                    Some(server_id) => server_id,
                    None => 0,
                },
                None => 0,
            }),
    {
        match xwm_id {
            Some(xwm_id) => match self.policy.server_for_xwm(xwm_id) {
                Some(server_id) => server_id,
                None => 0,
            },
            None => 0,
        }
    }

    fn set_display(&mut self, server_id: u32, number: u32)
        ensures
            final(self)@ == (StateView {
                displays: with_display(old(self)@.displays, server_id, number),
                ..old(self)@
            }),
    {
        let ghost wanted = display_of(server_id);
        let ghost before = *self;
        let mut i: usize = 0;
        while i < self.displays.len()
            invariant
                i <= self.displays@.len(),
                *self == before,
                before == *old(self),
                wanted == display_of(server_id),
                forall|j: int| 0 <= j < i ==> !wanted(#[trigger] self.displays@[j]),
            decreases self.displays@.len() - i,
        {
            if self.displays[i].server_id == server_id {
                proof {
                    lists::lemma_first_index(self.displays@, wanted, i as int);
                }
                self.displays.set(i, ServerDisplay { server_id, number });
                return;
            }
            i = i + 1;
        }
        proof {
            lists::lemma_first_index(self.displays@, wanted, i as int);
        }
        self.displays.push(ServerDisplay { server_id, number });
    }

    /// Attach a ready Xwayland server and its window manager and initialize Steam's X11
    /// contract.
    pub fn register_xwayland(&mut self, xwm_id: u32, server_id: u32, display_number: u32)
        ensures
            old(self)@.with_xwayland(xwm_id, server_id, display_number).is_refreshed(
                final(self)@,
            ),
    {
        self.policy.register_server(xwm_id, server_id);
        self.set_display(server_id, display_number);
        if server_id == 0 {
            self.first_display = Some(display_number);
        }
        let refresh: i32 = match self.output {
            Some(mode) => mode.refresh,
            None => DEFAULT_REFRESH_MILLIHZ,
        };
        self.worker.register(display_number, server_id, refresh);
        self.refresh_focus();
    }

    fn forget_display(&mut self, server_id: u32)
        ensures
            final(self)@ == (StateView {
                displays: old(self)@.displays.filter(other_display(server_id)),
                ..old(self)@
            }),
    {
        let ghost before = self.displays@;
        let ghost keep = other_display(server_id);
        let mut kept: Vec<ServerDisplay> = Vec::new();
        let mut i: usize = 0;
        proof {
            lists::lemma_filter_empty(before.take(0), keep);
        }
        while i < self.displays.len()
            invariant
                i <= self.displays@.len(),
                *self == *old(self),
                before == self.displays@,
                keep == other_display(server_id),
                kept@ == before.take(i as int).filter(keep),
            decreases self.displays@.len() - i,
        {
            proof {
                lists::lemma_filter_take_next(before, keep, i as int);
            }
            let display = self.displays[i];
            if display.server_id != server_id {
                kept.push(display);
            }
            i = i + 1;
        }
        assert(before.take(i as int) =~= before);
        self.displays = kept;
    }

    /// Remove all compositor state belonging to a dynamic Xwayland server. Tells whether
    /// there was such a server.
    pub fn remove_xwayland(&mut self, server_id: u32) -> (removed: bool)
        ensures
            match old(self)@.policy.xwm_of_server(server_id) {
                Some(xwm_id) => removed && final(self)@ == old(self)@.without_xwayland(
                    xwm_id,
                    server_id,
                ),
                None => !removed && final(self)@ == old(self)@,
            },
    {
        let xwm_id: u32 = match self.policy.xwm_for_server(server_id) {
            Some(xwm_id) => xwm_id,
            None => {
                return false;
            },
        };
        let focused = match self.keyboard_focus {
            Some(KeyboardFocusTarget::X11(window)) => match window.xwm_id {
                Some(candidate) => candidate == xwm_id,
                None => false,
            },
            _ => false,
        };
        if focused {
            self.set_keyboard_focus(None);
        }
        self.policy.forget_xwm(xwm_id, server_id);
        let low: u64 = key_of_window(server_id, 0);
        let high: u64 = key_of_window(server_id, u32::MAX);
        self.parents.remove_range(low, high);
        self.resolving.remove_range(low, high);
        self.worker.remove(server_id);
        remove_number(&mut self.ready, server_id);
        self.forget_display(server_id);
        if let Some((candidate, _)) = self.last_focus {
            if candidate == xwm_id {
                self.last_focus = None;
            }
        }
        true
    }

    /// Number of Xwayland instances that reached the ready state.
    #[must_use]
    pub fn ready_xwayland_count(&self) -> (count: usize)
        ensures
            count == (if self@.policy.steam_mode {
                self@.ready.len()
            } else {
                self@.displays.len()
            }),
    {
        if self.policy.steam_mode() {
            self.ready.len()
        } else {
            self.displays.len()
        }
    }

    /// Publish the response for dynamic Xwayland creation.
    pub fn publish_xwayland_create_feedback(
        &mut self,
        identifier: u32,
        server_id: u32,
        display_number: u32,
    )
        ensures
            final(self)@.mailbox.commands.len() == old(self)@.mailbox.commands.len() + 1,
            final(self)@.mailbox.commands.drop_last() == old(self)@.mailbox.commands,
            final(self)@.mailbox.commands.last() matches
                steam_worker::SteamWorkerCommand::CreateFeedback {
                identifier: told_identifier,
                server_id: told_server,
                display_name,
            } && told_identifier == identifier && told_server == server_id && display_name@
                == steam_properties::display_text(display_number),
            final(self)@ == (StateView {
                mailbox: MailboxView {
                    commands: final(self)@.mailbox.commands,
                    ..old(self)@.mailbox
                },
                ..old(self)@
            }),
    {
        let name = display_name(display_number);
        self.worker.publish_create_feedback(identifier, server_id, name);
        assert(self@.mailbox.commands.drop_last() =~= old(self)@.mailbox.commands);
    }

    fn refresh_x11_metadata(&mut self, xwm_id: u32, window_id: u32)
        ensures
            final(self)@ == old(self)@.with_metadata_request(xwm_id, window_id),
    {
        let pid = self.policy.pid_of(xwm_id, window_id);
        if let Some(server_id) = self.policy.server_for_xwm(xwm_id) {
            self.worker.read_window(server_id, window_id, pid);
        }
    }

    fn track_x11_window(&mut self, window: &X11Window)
        ensures
            final(self)@ == old(self)@.with_tracked(*window),
    {
        if let Some(xwm_id) = window.xwm_id {
            let used = self.policy.stamp(xwm_id, window.window_id, self.next_sequence);
            if used {
                self.next_sequence = self.next_sequence.wrapping_add(1);
            }
            let server_id: u32 = self.policy.server_id_for(window);
            self.worker.watch_window(server_id, window.window_id, window.pid);
            self.refresh_x11_metadata(xwm_id, window.window_id);
        }
    }

    /// Bring the known windows up to date before policy looks at them.
    pub fn update_windows(&mut self, current: &Vec<X11Window>)
        ensures
            final(self)@ == (StateView {
                policy: PolicyView {
                    windows: old(self)@.policy.windows.map_values(
                        |window: X11Window| window_policy::refreshed_window(window, current@),
                    ),
                    ..old(self)@.policy
                },
                ..old(self)@
            }),
    {
        self.policy.update_windows(current);
    }

    /// A window was created.
    pub fn new_window(&mut self, window: X11Window)
        ensures
            final(self)@ == old(self)@.with_known(window),
    {
        self.policy.remember_x11_window(window);
        self.track_x11_window(&window);
    }

    fn clear_early_x11_focus(&mut self, window: &X11Window)
        ensures
            final(self)@ == old(self)@.with_early_focus_cleared(*window),
    {
        if let Some(xwm_id) = window.xwm_id {
            if self.keyboard_focus_is_x11_window(xwm_id, window.window_id) {
                self.set_keyboard_focus(None);
                self.last_focus = None;
            }
        }
    }

    /// Xwayland has attached a surface to a window. Mapping and focus may precede it, so a
    /// window that has the keyboard enters anew.
    pub fn surface_associated(&mut self, window: X11Window)
        ensures
            old(self)@.with_known(window).with_early_focus_cleared(window).is_refreshed(
                final(self)@,
            ),
    {
        self.new_window(window);
        self.clear_early_x11_focus(&window);
        self.refresh_focus();
    }

    /// A window asks to be mapped: it is made fullscreen on the output.
    pub fn map_window_request(&mut self, window: X11Window)
        ensures
            final(self)@ == old(self)@.with_effects(
                (match old(self)@.output {
                    Some(mode) => seq![
                        Effect::ConfigureWindow {
                            xwm_id: window.xwm_id,
                            window_id: window.window_id,
                            width: mode.width,
                            height: mode.height,
                        },
                    ],
                    None => Seq::empty(),
                }).push(
                    Effect::SetFullscreen { xwm_id: window.xwm_id, window_id: window.window_id },
                ).push(
                    Effect::SetMapped {
                        xwm_id: window.xwm_id,
                        window_id: window.window_id,
                        mapped: true,
                    },
                ),
            ).with_known(window),
    {
        let ghost before = self.effects@;
        self.configure_to_output(&window);
        self.effects.push(
            Effect::SetFullscreen { xwm_id: window.xwm_id, window_id: window.window_id },
        );
        self.effects.push(
            Effect::SetMapped {
                xwm_id: window.xwm_id,
                window_id: window.window_id,
                mapped: true,
            },
        );
        assert(self.effects@ =~= before + (match old(self)@.output {
            Some(mode) => seq![
                Effect::ConfigureWindow {
                    xwm_id: window.xwm_id,
                    window_id: window.window_id,
                    width: mode.width,
                    height: mode.height,
                },
            ],
            None => Seq::empty(),
        }).push(
            Effect::SetFullscreen { xwm_id: window.xwm_id, window_id: window.window_id },
        ).push(
            Effect::SetMapped {
                xwm_id: window.xwm_id,
                window_id: window.window_id,
                mapped: true,
            },
        ));
        self.new_window(window);
    }

    fn configure_to_output(&mut self, window: &X11Window)
        ensures
            final(self)@ == old(self)@.with_effects(
                match old(self)@.output {
                    Some(mode) => seq![
                        Effect::ConfigureWindow {
                            xwm_id: window.xwm_id,
                            window_id: window.window_id,
                            width: mode.width,
                            height: mode.height,
                        },
                    ],
                    None => Seq::empty(),
                },
            ),
    {
        if let Some(mode) = self.output {
            self.effects.push(
                Effect::ConfigureWindow {
                    xwm_id: window.xwm_id,
                    window_id: window.window_id,
                    width: mode.width,
                    height: mode.height,
                },
            );
        }
        assert(self@.effects =~= old(self)@.with_effects(
            match old(self)@.output {
                Some(mode) => seq![
                    Effect::ConfigureWindow {
                        xwm_id: window.xwm_id,
                        window_id: window.window_id,
                        width: mode.width,
                        height: mode.height,
                    },
                ],
                None => Seq::empty(),
            },
        ).effects);
    }

    /// A window asks to be fullscreen.
    pub fn fullscreen_request(&mut self, window: &X11Window)
        ensures
            final(self)@ == (StateView {
                effects: old(self)@.effects.push(
                    Effect::SetFullscreen { xwm_id: window.xwm_id, window_id: window.window_id },
                ) + (match old(self)@.output {
                    Some(mode) => seq![
                        Effect::ConfigureWindow {
                            xwm_id: window.xwm_id,
                            window_id: window.window_id,
                            width: mode.width,
                            height: mode.height,
                        },
                    ],
                    None => Seq::empty(),
                }),
                ..old(self)@
            }),
    {
        self.effects.push(
            Effect::SetFullscreen { xwm_id: window.xwm_id, window_id: window.window_id },
        );
        self.configure_to_output(window);
    }

    /// A window withdraws its wish to be fullscreen. Managed game windows stay fullscreen.
    pub fn unfullscreen_request(&mut self, window: &X11Window)
        ensures
            final(self)@ == (StateView {
                effects: old(self)@.effects.push(
                    Effect::SetFullscreen { xwm_id: window.xwm_id, window_id: window.window_id },
                ),
                ..old(self)@
            }),
    {
        self.effects.push(
            Effect::SetFullscreen { xwm_id: window.xwm_id, window_id: window.window_id },
        );
    }

    /// A managed window is viewable. Focusing it earlier can fail and leave it unfocused.
    pub fn map_window_notify(&mut self, window: &X11Window)
        ensures
            old(self)@.with_early_focus_cleared(*window).is_refreshed(final(self)@),
    {
        self.clear_early_x11_focus(window);
        self.refresh_focus();
    }

    /// An override-redirect window is viewable.
    pub fn mapped_override_redirect_window(&mut self, window: X11Window)
        ensures
            old(self)@.with_known(window).is_refreshed(final(self)@),
    {
        self.new_window(window);
        self.refresh_focus();
    }

    /// A window is no longer viewable.
    pub fn unmapped_window(&mut self, xwm_id: u32, window: &X11Window)
        ensures
            ({
                let unmapped = if window.override_redirect {
                    old(self)@
                } else {
                    StateView {
                        effects: old(self)@.effects.push(
                            Effect::SetMapped {
                                xwm_id: window.xwm_id,
                                window_id: window.window_id,
                                mapped: false,
                            },
                        ),
                        ..old(self)@
                    }
                };
                (if old(self)@.has_keyboard(xwm_id, window.window_id) {
                    unmapped.with_keyboard_focus(None)
                } else {
                    unmapped
                }).is_refreshed(final(self)@)
            }),
    {
        let was_focused = self.keyboard_focus_is_x11_window(xwm_id, window.window_id);
        if !window.override_redirect {
            self.effects.push(
                Effect::SetMapped {
                    xwm_id: window.xwm_id,
                    window_id: window.window_id,
                    mapped: false,
                },
            );
        }
        if was_focused {
            self.set_keyboard_focus(None);
        }
        self.refresh_focus();
    }

    /// A window is gone.
    pub fn destroyed_window(&mut self, xwm_id: u32, window_id: u32)
        ensures
            old(self)@.without_window(xwm_id, window_id).is_refreshed(final(self)@),
    {
        if self.keyboard_focus_is_x11_window(xwm_id, window_id) {
            self.set_keyboard_focus(None);
        }
        let server_id: u32 = match self.policy.server_for_xwm(xwm_id) {
            Some(server_id) => server_id,
            None => 0,
        };
        self.policy.forget_window(xwm_id, window_id, server_id);
        let key: u64 = key_of_window(server_id, window_id);
        let _parent = self.parents.remove(key);
        self.parents.remove_value(
            key_of_window(server_id, 0),
            key_of_window(server_id, u32::MAX),
            window_id,
        );
        let _pending = self.resolving.remove(key);
        self.refresh_focus();
    }

    /// A property of a window changed. One that says how the window takes input makes the
    /// window enter anew.
    pub fn property_notify(&mut self, xwm_id: u32, window: &X11Window, property: WindowProperty)
        ensures
            ({
                let read = old(self)@.with_metadata_request(xwm_id, window.window_id);
                (if property == WindowProperty::Hints || property == WindowProperty::Protocols {
                    read.with_early_focus_cleared(*window)
                } else {
                    read
                }).is_refreshed(final(self)@)
            }),
    {
        self.refresh_x11_metadata(xwm_id, window.window_id);
        if x11_property_changes_input_mode(property) {
            self.clear_early_x11_focus(window);
        }
        self.refresh_focus();
    }

    fn focus_wayland_surface(&mut self, surface: u64)
        ensures
            final(self)@ == old(self)@.with_wayland_focus(surface),
    {
        let ghost windows = self.policy@.windows;
        let ghost wanted = shows(surface);
        let count: usize = self.policy.windows().len();
        let mut i: usize = 0;
        while i < count
            invariant
                i <= count == windows.len(),
                windows == self.policy@.windows,
                *self == *old(self),
                wanted == shows(surface),
                forall|j: int| 0 <= j < i ==> !wanted(#[trigger] windows[j]),
            decreases count - i,
        {
            let window = self.policy.windows()[i];
            if let Some(candidate) = window.surface {
                if candidate == surface {
                    proof {
                        lists::lemma_first_index(windows, wanted, i as int);
                    }
                    self.set_keyboard_focus(Some(KeyboardFocusTarget::X11(window)));
                    return;
                }
            }
            i = i + 1;
        }
        proof {
            lists::lemma_first_index(windows, wanted, i as int);
        }
        if self.policy.keyboard_x11_window().is_none() {
            self.set_keyboard_focus(Some(KeyboardFocusTarget::Wayland(surface)));
        }
    }

    /// A native toplevel was created.
    pub fn new_toplevel(&mut self, surface: u64)
        ensures
            final(self)@ == (StateView {
                toplevels: old(self)@.toplevels.push(surface),
                ..old(self)@
            }).with_wayland_focus(surface),
    {
        self.toplevels.push(surface);
        self.focus_wayland_surface(surface);
    }

    /// A native toplevel is gone.
    pub fn toplevel_destroyed(&mut self, surface: u64)
        ensures
            final(self)@ == (StateView {
                toplevels: lists::without_id(old(self)@.toplevels, surface),
                ..old(self)@
            }),
    {
        lists::remove_id(&mut self.toplevels, surface);
    }

    /// A layer surface was created.
    pub fn new_layer_surface(&mut self, surface: u64)
        ensures
            final(self)@ == old(self)@.with_wayland_focus(surface),
    {
        self.focus_wayland_surface(surface);
    }

    /// Repair a focus target that was replaced by a late Wayland shell event. Called when
    /// physical input arrives, so that the triggering key itself is delivered to the window
    /// that policy selects.
    pub fn repair_keyboard_focus(&mut self) -> (repaired: bool)
        ensures
            ({
                let next = match old(self)@.policy.keyboard_window() {
                    Some(window) => Some(KeyboardFocusTarget::X11(window)),
                    None => None,
                };
                if next is Some && !same_target(old(self)@.keyboard_focus, next) {
                    &&& repaired
                    &&& final(self)@ == old(self)@.with_keyboard_focus(next).with_x11_focus()
                } else {
                    !repaired && final(self)@ == old(self)@
                }
            }),
    {
        match self.policy.keyboard_x11_window() {
            Some(window) => {
                let next = Some(KeyboardFocusTarget::X11(window));
                if is_same_target(&self.keyboard_focus, &next) {
                    return false;
                }
                self.set_keyboard_focus(next);
                self.apply_x11_focus();
                true
            },
            None => false,
        }
    }

    /// All layers selected for the current frame, bottom to top.
    #[must_use]
    pub fn render_layers(&self) -> (layers: Vec<RenderLayer>)
        ensures
            layers@ == self@.policy.layers(self@.fallback()),
    {
        self.policy.render_layers(self.fallback_surface())
    }

    /// The surface to composite as the primary game layer.
    #[must_use]
    pub fn primary_surface(&self) -> (surface: Option<u64>)
        ensures
            surface == self@.policy.primary(self@.fallback()),
    {
        self.policy.primary_surface(self.fallback_surface())
    }

    /// The surface that pointer, touch and gestures go to.
    #[must_use]
    pub fn pointer_focus(&self) -> (surface: Option<u64>)
        ensures
            surface == (match self@.policy.pointer_surface() {
                Some(surface) => Some(surface),
                None => self@.policy.primary_input(self@.fallback()),
            }),
    {
        match self.policy.pointer_focus_surface() {
            Some(surface) => Some(surface),
            None => self.policy.primary_input_surface(self.fallback_surface()),
        }
    }
}

/// The effect of a changed limiter: it is written when there is somewhere to write it.
pub open spec fn limiter_effects(has_limiter: bool, fps_limit: u32) -> Seq<Effect> {
    if has_limiter {
        seq![Effect::WriteLimiter { enabled: fps_limit != 0 }]
    } else {
        Seq::empty()
    }
}

/// The request that an event of the first server makes of the event loop.
pub open spec fn bridge_request(event: BridgeEvent) -> Seq<SteamRuntimeRequest> {
    match event {
        BridgeEvent::CreateXwayland(identifier) => seq![
            SteamRuntimeRequest::CreateXwayland { identifier },
        ],
        BridgeEvent::DestroyXwayland(server_id) => seq![
            SteamRuntimeRequest::DestroyXwayland { server_id },
        ],
        BridgeEvent::VrrEnabledChanged(enabled) => seq![SteamRuntimeRequest::SetVrr { enabled }],
        BridgeEvent::DisplayForceInternalChanged(force) => seq![
            SteamRuntimeRequest::SetForceInternal { force },
        ],
        BridgeEvent::DisplayModeNudge => seq![SteamRuntimeRequest::RescanDisplay],
        BridgeEvent::DynamicRefreshChanged { screen, refresh_hz } => seq![
            SteamRuntimeRequest::SetDynamicRefresh { screen, refresh_hz },
        ],
        BridgeEvent::CompositeForceChanged(force) => seq![
            SteamRuntimeRequest::SetCompositeForce { force },
        ],
        _ => Seq::empty(),
    }
}

/// The requests that a report of the worker makes of the event loop.
pub open spec fn event_requests(event: SteamWorkerEvent) -> Seq<SteamRuntimeRequest> {
    match event {
        SteamWorkerEvent::Ready { server_id, initial } => if server_id == 0 {
            seq![
                SteamRuntimeRequest::SetForceInternal { force: initial.force_internal },
                SteamRuntimeRequest::SetCompositeForce { force: initial.composite_force },
            ]
        } else {
            Seq::empty()
        },
        SteamWorkerEvent::Event { server_id, event } => if server_id == 0 {
            bridge_request(event)
        } else {
            Seq::empty()
        },
        _ => Seq::empty(),
    }
}

/// The requests of a list of reports.
pub open spec fn all_requests(events: Seq<SteamWorkerEvent>) -> Seq<SteamRuntimeRequest>
    decreases events.len(),
{
    if events.len() == 0 {
        Seq::empty()
    } else {
        all_requests(events.drop_last()) + event_requests(events.last())
    }
}

impl StateView {
    /// The state after an event of the first server.
    pub open spec fn after_bridge_event(self, event: BridgeEvent) -> StateView {
        match event {
            BridgeEvent::GamesRunningChanged(count) => StateView { games_running: count, ..self },
            BridgeEvent::SteamMaxHeightChanged(height) => StateView {
                steam_max_height: height,
                ..self
            },
            BridgeEvent::FpsLimitChanged(limit) => (StateView {
                fps_limit: limit,
                ..self
            }).with_effects(limiter_effects(self.has_limiter, limit)),
            _ => self,
        }
    }

    /// The state after a server has connected. The first server brings what Steam has asked
    /// for.
    pub open spec fn after_ready(self, server_id: u32, initial: BridgeInitialState) -> StateView {
        let ready = StateView { ready: lists::with_number(self.ready, server_id), ..self };
        if server_id == 0 {
            (StateView {
                policy: PolicyView {
                    control_window: initial.focus_control.window,
                    control_app_ids: initial.focus_control.app_ids@,
                    ..self.policy
                },
                games_running: initial.games_running,
                steam_max_height: initial.steam_max_height,
                fps_limit: initial.fps_limit,
                screen_scale: initial.screen_scale,
                screen_magnification: initial.screen_magnification,
                ..ready
            }).with_effects(limiter_effects(self.has_limiter, initial.fps_limit))
        } else {
            ready
        }
    }

    /// The managed window among the ancestors of a drawable.
    pub open spec fn managed_ancestor(self, server_id: u32, ancestors: Seq<u32>) -> Option<u32> {
        let managed = self.policy.managed(server_id);
        let index = lists::first_index(ancestors, steam::is_managed(managed));
        if index < ancestors.len() {
            Some(ancestors[index])
        } else {
            None
        }
    }

    /// The state after the ancestors of a drawable are known: its contents go to the
    /// managed window among them.
    pub open spec fn after_ancestors(
        self,
        server_id: u32,
        window: u32,
        ancestors: Seq<u32>,
    ) -> StateView {
        let key = steam_worker::window_key(server_id, window);
        let resolved = StateView { resolving: self.resolving.remove(key), ..self };
        match self.managed_ancestor(server_id, ancestors) {
            Some(parent) => {
                let overrides = self.policy.content_overrides;
                StateView {
                    parents: self.parents.insert(key, parent),
                    policy: PolicyView {
                        content_overrides: if parent != window && overrides.contains_key(key) {
                            overrides.remove(key).insert(
                                steam_worker::window_key(server_id, parent),
                                overrides[key],
                            )
                        } else {
                            overrides
                        },
                        ..self.policy
                    },
                    ..resolved
                }
            },
            None => resolved,
        }
    }

    /// The state after a report of the worker.
    pub open spec fn after_event(self, event: SteamWorkerEvent) -> StateView {
        match event {
            SteamWorkerEvent::Ready { server_id, initial } => self.after_ready(server_id, initial),
            SteamWorkerEvent::WindowMetadata { server_id, window, metadata } => {
                match self.policy.xwm_of_server(server_id) {
                    Some(xwm_id) => StateView {
                        policy: PolicyView {
                            metadata: self.policy.metadata.insert(
                                steam_worker::window_key(xwm_id, window),
                                metadata,
                            ),
                            ..self.policy
                        },
                        ..self
                    },
                    None => self,
                }
            },
            SteamWorkerEvent::WindowAncestors { server_id, window, ancestors } => {
                self.after_ancestors(server_id, window, ancestors@)
            },
            SteamWorkerEvent::FocusControl { server_id, control } => if server_id == 0 {
                StateView {
                    policy: PolicyView {
                        control_window: control.window,
                        control_app_ids: control.app_ids@,
                        ..self.policy
                    },
                    ..self
                }
            } else {
                self
            },
            SteamWorkerEvent::ScreenScale { server_id, scale, magnification } => if server_id
                == 0 {
                StateView {
                    screen_scale: scale,
                    screen_magnification: magnification,
                    ..self
                }
            } else {
                self
            },
            SteamWorkerEvent::Event { server_id, event } => if server_id == 0 {
                self.after_bridge_event(event)
            } else {
                self
            },
            SteamWorkerEvent::Error { server_id, .. } => match server_id {
                Some(server_id) => StateView {
                    ready: lists::with_number(self.ready, server_id),
                    ..self
                },
                None => self,
            },
        }
    }

    /// Whether a report makes focus worth another look.
    pub open spec fn event_dirties(self, event: SteamWorkerEvent) -> bool {
        match event {
            SteamWorkerEvent::Ready { .. } => true,
            SteamWorkerEvent::WindowMetadata { server_id, .. } => self.policy.xwm_of_server(
                server_id,
            ) is Some,
            SteamWorkerEvent::FocusControl { server_id, .. } => server_id == 0,
            SteamWorkerEvent::Event { server_id, event } => server_id == 0
                && event is SteamMaxHeightChanged,
            _ => false,
        }
    }

    /// The state after a list of reports.
    pub open spec fn after_events(self, events: Seq<SteamWorkerEvent>) -> StateView
        decreases events.len(),
    {
        if events.len() == 0 {
            self
        } else {
            self.after_events(events.drop_last()).after_event(events.last())
        }
    }

    /// Whether a list of reports makes focus worth another look.
    pub open spec fn events_dirty(self, events: Seq<SteamWorkerEvent>) -> bool
        decreases events.len(),
    {
        events.len() > 0 && (self.events_dirty(events.drop_last()) || self.after_events(
            events.drop_last(),
        ).event_dirties(events.last()))
    }
}

impl StateView {
    /// Steam is told of one more physical input.
    pub open spec fn with_input_counted(self) -> StateView {
        let counter = ((self.input_counter + 1) % 0x1_0000_0000) as u32;
        StateView {
            input_counter: counter,
            mailbox: MailboxView { input_counter: Some(counter), ..self.mailbox },
            ..self
        }
    }
}

impl State {
    /// Queue one report delivered by the event loop.
    pub fn queue_steam_event(&mut self, event: SteamWorkerEvent)
        ensures
            final(self)@ == (StateView { events: old(self)@.events.push(event), ..old(self)@ }),
    {
        self.events.push(event);
    }

    fn update_limiter(&mut self)
        ensures
            final(self)@ == old(self)@.with_effects(
                limiter_effects(old(self)@.has_limiter, old(self)@.fps_limit),
            ),
    {
        if self.has_limiter {
            self.effects.push(Effect::WriteLimiter { enabled: self.fps_limit != 0 });
        }
        assert(self@.effects =~= old(self)@.effects + limiter_effects(
            old(self)@.has_limiter,
            old(self)@.fps_limit,
        ));
    }

    fn process_ready(&mut self, server_id: u32, initial: BridgeInitialState)
        ensures
            final(self)@ == old(self)@.after_ready(server_id, initial),
    {
        let _added = insert_number(&mut self.ready, server_id);
        if server_id == 0 {
            self.policy.set_focus_control(initial.focus_control);
            self.games_running = initial.games_running;
            self.steam_max_height = initial.steam_max_height;
            self.fps_limit = initial.fps_limit;
            self.screen_scale = initial.screen_scale;
            self.screen_magnification = initial.screen_magnification;
            self.update_limiter();
        }
    }

    fn process_ancestors(&mut self, server_id: u32, window: u32, ancestors: &Vec<u32>)
        ensures
            final(self)@ == old(self)@.after_ancestors(server_id, window, ancestors@),
    {
        let key: u64 = key_of_window(server_id, window);
        let _pending = self.resolving.remove(key);
        let managed = self.policy.managed_windows(server_id);
        if let Some(parent) = select_managed_ancestor(ancestors.as_slice(), &managed) {
            self.parents.insert(key, parent);
            if parent != window {
                let ghost overrides = self.policy@.content_overrides;
                if let Some(surface) = self.policy.take_override(server_id, window) {
                    self.policy.override_content(server_id, parent, surface);
                } else {
                    assert(overrides.remove(key) =~= overrides);
                }
            }
        }
    }

    fn process_bridge_event(&mut self, event: BridgeEvent)
        ensures
            final(self)@ == old(self)@.after_bridge_event(event),
    {
        match event {
            BridgeEvent::GamesRunningChanged(count) => {
                self.games_running = count;
            },
            BridgeEvent::SteamMaxHeightChanged(height) => {
                self.steam_max_height = height;
            },
            BridgeEvent::FpsLimitChanged(limit) => {
                self.fps_limit = limit;
                self.update_limiter();
            },
            _ => {},
        }
    }

    /// Process one report. Tells whether it makes focus worth another look.
    fn process_steam_event(
        &mut self,
        event: SteamWorkerEvent,
        requests: &mut Vec<SteamRuntimeRequest>,
    ) -> (dirty: bool)
        ensures
            final(self)@ == old(self)@.after_event(event),
            final(requests)@ == old(requests)@ + event_requests(event),
            dirty == old(self)@.event_dirties(event),
    {
        let ghost before = requests@;
        let ghost asked = event_requests(event);
        let dirty = match event {
            SteamWorkerEvent::Ready { server_id, initial } => {
                if server_id == 0 {
                    requests.push(
                        SteamRuntimeRequest::SetForceInternal { force: initial.force_internal },
                    );
                    requests.push(
                        SteamRuntimeRequest::SetCompositeForce { force: initial.composite_force },
                    );
                }
                self.process_ready(server_id, initial);
                true
            },
            SteamWorkerEvent::WindowMetadata { server_id, window, metadata } => {
                match self.policy.xwm_for_server(server_id) {
                    Some(xwm_id) => {
                        self.policy.set_metadata(xwm_id, window, metadata);
                        true
                    },
                    None => false,
                }
            },
            SteamWorkerEvent::WindowAncestors { server_id, window, ancestors } => {
                self.process_ancestors(server_id, window, &ancestors);
                false
            },
            SteamWorkerEvent::FocusControl { server_id, control } => {
                if server_id == 0 {
                    self.policy.set_focus_control(control);
                    true
                } else {
                    false
                }
            },
            SteamWorkerEvent::ScreenScale { server_id, scale, magnification } => {
                if server_id == 0 {
                    self.screen_scale = scale;
                    self.screen_magnification = magnification;
                }
                false
            },
            SteamWorkerEvent::Event { server_id, event } => {
                if server_id == 0 {
                    push_bridge_request(requests, event);
                    self.process_bridge_event(event);
                    match event {
                        BridgeEvent::SteamMaxHeightChanged(_) => true,
                        _ => false,
                    }
                } else {
                    false
                }
            },
            SteamWorkerEvent::Error { server_id, message: _ } => {
                if let Some(server_id) = server_id {
                    let _added = insert_number(&mut self.ready, server_id);
                }
                false
            },
        };
        assert(requests@ =~= before + asked);
        dirty
    }

    /// Process queued Steam X11 events and return process-lifecycle work.
    pub fn process_steam_events(&mut self) -> (requests: Vec<SteamRuntimeRequest>)
        ensures
            ({
                let events = old(self)@.events;
                let taken = StateView { events: Seq::empty(), ..old(self)@ };
                let after = taken.after_events(events);
                &&& requests@ == all_requests(events)
                &&& if taken.events_dirty(events) {
                    after.is_refreshed(final(self)@)
                } else {
                    final(self)@ == after
                }
            }),
    {
        let mut events: Vec<SteamWorkerEvent> = Vec::new();
        std::mem::swap(&mut events, &mut self.events);
        let ghost all = events@;
        let ghost taken = self@;
        let mut requests: Vec<SteamRuntimeRequest> = Vec::new();
        let mut dirty = false;
        let ghost mut done: int = 0;
        assert(events@ =~= all.skip(0));
        while events.len() > 0
            invariant
                0 <= done <= all.len(),
                events@ == all.skip(done),
                self@ == taken.after_events(all.take(done)),
                requests@ == all_requests(all.take(done)),
                dirty == taken.events_dirty(all.take(done)),
            decreases events@.len(),
        {
            let event = events.remove(0);
            let ghost prefix = all.take(done + 1);
            assert(prefix.drop_last() =~= all.take(done));
            assert(prefix.last() == event);
            let event_dirty = self.process_steam_event(event, &mut requests);
            dirty = dirty || event_dirty;
            proof {
                assert(events@ =~= all.skip(done + 1));
                done = done + 1;
            }
        }
        assert(all.take(done) =~= all);
        if dirty {
            self.refresh_focus();
        }
        requests
    }

    /// Count physical input for Steam.
    pub fn bump_input_counter(&mut self)
        ensures
            final(self)@ == old(self)@.with_input_counted(),
    {
        self.input_counter = self.input_counter.wrapping_add(1);
        self.worker.publish_input_counter(self.input_counter);
    }

    /// Connect Steam's FPS limit to the file that the WSI layer reads.
    pub fn set_limiter_file(&mut self)
        ensures
            final(self)@ == (StateView { has_limiter: true, ..old(self)@ }).with_effects(
                limiter_effects(true, old(self)@.fps_limit),
            ),
    {
        self.has_limiter = true;
        self.update_limiter();
    }

    /// Publish current hardware VRR capability and usage to Steam.
    pub fn publish_hardware_vrr(&mut self, capable: bool, in_use: bool)
        ensures
            final(self)@ == (StateView {
                mailbox: MailboxView {
                    vrr_feedback: Some(steam_properties::VrrFeedback { capable, in_use }),
                    ..old(self)@.mailbox
                },
                ..old(self)@
            }),
    {
        self.worker.publish_vrr(capable, in_use);
    }

    /// Publish how frames reach the screen.
    pub fn publish_direct_scanout_status(&mut self, status: u32)
        ensures
            final(self)@ == (StateView {
                mailbox: MailboxView {
                    direct_scanout_status: Some(status),
                    ..old(self)@.mailbox
                },
                ..old(self)@
            }),
    {
        self.worker.publish_direct_scanout_status(status);
    }

    fn send_all(&mut self, events: Vec<ServerEvent>)
        ensures
            final(self)@ == old(self)@.with_effects(
                events@.map_values(|event: ServerEvent| Effect::Send(event)),
            ),
    {
        let ghost all = events@;
        let ghost sent = all.map_values(|event: ServerEvent| Effect::Send(event));
        let ghost before = self@;
        let ghost mut done: int = 0;
        let mut rest = events;
        assert(rest@ =~= all.skip(0));
        assert(before.effects + sent.take(0) =~= before.effects);
        while rest.len() > 0
            invariant
                0 <= done <= all.len(),
                rest@ == all.skip(done),
                sent == all.map_values(|event: ServerEvent| Effect::Send(event)),
                self@ == (StateView {
                    effects: before.effects + sent.take(done),
                    ..before
                }),
            decreases rest@.len(),
        {
            let event = rest.remove(0);
            self.effects.push(Effect::Send(event));
            proof {
                assert(rest@ =~= all.skip(done + 1));
                assert(before.effects + sent.take(done + 1) =~= (before.effects + sent.take(
                    done,
                )).push(sent[done]));
                done = done + 1;
            }
        }
        assert(sent.take(done) =~= sent);
    }

    /// Publish physical connector information to all control clients.
    pub fn publish_active_display(&mut self, display: ActiveDisplayInfo)
        ensures
            final(self)@ == (StateView {
                server: ServerView { active_display: Some(display@), ..old(self)@.server },
                ..old(self)@
            }).with_effects(
                old(self)@.server.controls.map_values(
                    |resource: u64| Effect::Send(ServerEvent::ActiveDisplayInfo { resource }),
                ),
            ),
    {
        let events = self.server.set_active_display(Some(display));
        let ghost sent = events@.map_values(|event: ServerEvent| Effect::Send(event));
        self.send_all(events);
        assert(sent =~= old(self)@.server.controls.map_values(
            |resource: u64| Effect::Send(ServerEvent::ActiveDisplayInfo { resource }),
        ));
    }

    /// Tell all control clients of a screenshot.
    pub fn publish_screenshot_taken(&mut self, path: String)
        ensures
            final(self)@ == old(self)@.with_effects(
                old(self)@.server.controls.map_values(
                    |resource: u64| Effect::Send(ServerEvent::ScreenshotTaken { resource, path }),
                ),
            ),
    {
        let events = self.server.screenshot_taken(path);
        let ghost sent = events@.map_values(|event: ServerEvent| Effect::Send(event));
        self.send_all(events);
        assert(sent =~= old(self)@.server.controls.map_values(
            |resource: u64| Effect::Send(ServerEvent::ScreenshotTaken { resource, path }),
        ));
    }

    /// Keep the presentation rate and Steam's feedback in sync with a physical mode switch.
    pub fn publish_output_refresh(&mut self, refresh_millihz: i32)
        ensures
            final(self)@ == (StateView {
                output: match old(self)@.output {
                    Some(mode) => Some(OutputMode { refresh: refresh_millihz, ..mode }),
                    None => None,
                },
                mailbox: MailboxView {
                    refresh_millihz: Some(refresh_millihz),
                    ..old(self)@.mailbox
                },
                ..old(self)@
            }),
    {
        if let Some(mode) = self.output {
            self.output = Some(
                OutputMode { width: mode.width, height: mode.height, refresh: refresh_millihz },
            );
        }
        self.worker.publish_refresh(refresh_millihz);
    }

    /// Keep the logical mode synchronized with an automatic physical output selection or
    /// hotplug.
    pub fn publish_output_mode(&mut self, config: &OutputConfig)
        ensures
            final(self)@ == (StateView {
                output: Some(config.spec_mode()),
                mailbox: MailboxView {
                    refresh_millihz: Some(config.refresh_millihz),
                    ..old(self)@.mailbox
                },
                ..old(self)@
            }),
    {
        self.output = Some(config.mode());
        self.worker.publish_refresh(config.refresh_millihz);
    }
}

fn push_bridge_request(requests: &mut Vec<SteamRuntimeRequest>, event: BridgeEvent)
    ensures
        final(requests)@ == old(requests)@ + bridge_request(event),
{
    match event {
        BridgeEvent::CreateXwayland(identifier) => {
            requests.push(SteamRuntimeRequest::CreateXwayland { identifier });
        },
        BridgeEvent::DestroyXwayland(server_id) => {
            requests.push(SteamRuntimeRequest::DestroyXwayland { server_id });
        },
        BridgeEvent::VrrEnabledChanged(enabled) => {
            requests.push(SteamRuntimeRequest::SetVrr { enabled });
        },
        BridgeEvent::DisplayForceInternalChanged(force) => {
            requests.push(SteamRuntimeRequest::SetForceInternal { force });
        },
        BridgeEvent::DisplayModeNudge => {
            requests.push(SteamRuntimeRequest::RescanDisplay);
        },
        BridgeEvent::DynamicRefreshChanged { screen, refresh_hz } => {
            requests.push(SteamRuntimeRequest::SetDynamicRefresh { screen, refresh_hz });
        },
        BridgeEvent::CompositeForceChanged(force) => {
            requests.push(SteamRuntimeRequest::SetCompositeForce { force });
        },
        _ => {},
    }
    assert(requests@ =~= old(requests)@ + bridge_request(event));
}

/// Commands for other subsystems than the Wayland thread.
pub open spec fn is_backend_command(command: Command) -> bool {
    match command {
        Command::InputMethod(_) => false,
        Command::ExecutePrivate { .. } => false,
        Command::SetReshadeEffect { .. } => false,
        Command::OverrideWindowContent { .. } => false,
        _ => true,
    }
}

/// The predicate of being a command for other subsystems.
pub open spec fn backend_commands() -> spec_fn(Command) -> bool {
    |command: Command| is_backend_command(command)
}

impl StateView {
    /// The window whose contents a drawable replaces.
    pub open spec fn override_target(self, server_id: u32, window: u32) -> u32 {
        let key = steam_worker::window_key(server_id, window);
        if self.parents.contains_key(key) {
            self.parents[key]
        } else {
            window
        }
    }

    /// A surface replaces the contents of a drawable's window. While that is the drawable
    /// itself, its ancestors are asked for, once.
    pub open spec fn with_override(self, surface: u64, server_id: u32, window: u32) -> StateView {
        let key = steam_worker::window_key(server_id, window);
        let target = self.override_target(server_id, window);
        let overridden = StateView {
            policy: PolicyView {
                content_overrides: self.policy.content_overrides.insert(
                    steam_worker::window_key(server_id, target),
                    surface,
                ),
                ..self.policy
            },
            ..self
        };
        if target == window && !self.resolving.contains_key(key) {
            StateView {
                resolving: self.resolving.insert(key, ()),
                mailbox: MailboxView {
                    commands: self.mailbox.commands.push(
                        steam_worker::SteamWorkerCommand::ResolveWindow { server_id, window },
                    ),
                    ..self.mailbox
                },
                ..overridden
            }
        } else {
            overridden
        }
    }

    /// The state after a command that belongs to the Wayland thread.
    pub open spec fn after_gamescope_command(self, command: Command) -> StateView {
        match command {
            Command::InputMethod(command) => self.with_effects(
                seq![Effect::InputMethod(command)],
            ),
            Command::ExecutePrivate { reply, .. } => if self.server.privates.contains(reply.0) {
                self.with_effects(
                    seq![Effect::Send(ServerEvent::CommandExecuted { resource: reply.0 })],
                )
            } else {
                self
            },
            Command::SetReshadeEffect { reply, path } => self.with_effects(
                seq![Effect::EffectReady { reply, path }],
            ),
            Command::OverrideWindowContent { surface, xwayland_server_id, x11_window } => {
                self.with_override(surface, xwayland_server_id, x11_window)
            },
            _ => self,
        }
    }

    /// The state after a list of commands.
    pub open spec fn after_gamescope_commands(self, commands: Seq<Command>) -> StateView
        decreases commands.len(),
    {
        if commands.len() == 0 {
            self
        } else {
            self.after_gamescope_commands(commands.drop_last()).after_gamescope_command(
                commands.last(),
            )
        }
    }
}

/// A list without repetitions of neighbours.
pub open spec fn without_repeats(surfaces: Seq<u64>) -> Seq<u64>
    decreases surfaces.len(),
{
    if surfaces.len() < 2 {
        surfaces
    } else {
        let init = without_repeats(surfaces.drop_last());
        if surfaces[surfaces.len() - 2] == surfaces.last() {
            init
        } else {
            init.push(surfaces.last())
        }
    }
}

/// The surfaces of layers.
pub open spec fn layer_surfaces(layers: Seq<RenderLayer>) -> Seq<u64> {
    layers.map_values(|layer: RenderLayer| layer.surface)
}

/// The index of the last commit of a surface, or -1.
pub open spec fn last_commit(commits: Seq<PendingCommit>, surface: u64) -> int
    decreases commits.len(),
{
    if commits.len() == 0 {
        -1
    } else if commits.last().surface == surface {
        commits.len() - 1
    } else {
        last_commit(commits.drop_last(), surface)
    }
}

/// A number limited to 64 bits.
pub open spec fn limited_ns(value: u128) -> u64 {
    if value > u64::MAX {
        u64::MAX
    } else {
        value as u64
    }
}

fn limit_ns(value: u128) -> (limited: u64)
    ensures
        limited == limited_ns(value),
{
    if value > u64::MAX as u128 {
        u64::MAX
    } else {
        value as u64
    }
}

/// What completes with a presented frame.
#[derive(Debug, PartialEq, Eq)]
pub struct Presentation {
    /// Surfaces whose frame callbacks and presentation feedback are due.
    pub surfaces: Vec<u64>,
    /// Time for frame callbacks.
    pub callback_msec: u32,
    pub sequence: u64,
    /// Timing for the swapchains of the primary surface.
    pub events: Vec<ServerEvent>,
}

/// The number of a frame: the backend's, or the next one if it has none.
pub open spec fn frame_number(previous: u64, sequence: u64) -> u64 {
    if sequence == 0 {
        ((previous + 1) % 0x1_0000_0000_0000_0000) as u64
    } else {
        sequence
    }
}

impl StateView {
    /// The surfaces that a frame shows.
    pub open spec fn presented_surfaces(self, cursor: Option<u64>) -> Seq<u64> {
        let surfaces = layer_surfaces(self.policy.layers(self.fallback()));
        without_repeats(
            match cursor {
                Some(cursor) => surfaces.push(cursor),
                None => surfaces,
            },
        )
    }

    /// The commit that a frame shows, if it is still pending.
    pub open spec fn presented_commit(self) -> int {
        match self.policy.primary(self.fallback()) {
            Some(surface) => last_commit(self.commits, surface),
            None => -1,
        }
    }

    /// The server tells the swapchains of a surface about a presented commit.
    pub open spec fn tells_presented(
        self,
        commit: PendingCommit,
        time_ns: u64,
        refresh_ns: u64,
        events: Seq<ServerEvent>,
        after: ServerView,
    ) -> bool {
        let surfaces = self.server.surfaces;
        let index = lists::first_index(surfaces, server::is_surface(commit.surface));
        if index < surfaces.len() {
            let told = surfaces[index];
            &&& after == (ServerView {
                surfaces: surfaces.update(
                    index,
                    server::SurfaceView { last_refresh_cycle_ns: Some(refresh_ns), ..told },
                ),
                ..self.server
            })
            &&& events == server::presentation_events(
                told.resources,
                if told.last_refresh_cycle_ns != Some(refresh_ns) {
                    Some(refresh_ns)
                } else {
                    None
                },
                match commit.metadata.present_id {
                    Some(present_id) => Some(
                        swapchain::PastPresentTiming {
                            present_id,
                            desired_present_time_ns: commit.metadata.desired_present_time_ns,
                            actual_present_time_ns: time_ns,
                            earliest_present_time_ns: time_ns,
                            present_margin_ns: 0,
                        },
                    ),
                    None => None,
                },
            )
        } else {
            after == self.server && events == Seq::<ServerEvent>::empty()
        }
    }

    /// A frame was presented.
    pub open spec fn is_presented(
        self,
        at_ns: u128,
        refresh_ns: u128,
        sequence: u64,
        cursor: Option<u64>,
        presentation: Presentation,
        after: StateView,
    ) -> bool {
        let number = frame_number(self.frame_sequence, sequence);
        let index = self.presented_commit();
        &&& presentation.surfaces@ == self.presented_surfaces(cursor)
        &&& presentation.callback_msec == (if at_ns / 1_000_000 > u32::MAX {
            u32::MAX
        } else {
            (at_ns / 1_000_000) as u32
        })
        &&& presentation.sequence == number
        &&& if index >= 0 {
            &&& after == (StateView {
                frame_sequence: number,
                commits: self.commits.remove(index),
                server: after.server,
                ..self
            })
            &&& self.tells_presented(
                self.commits[index],
                limited_ns(at_ns),
                limited_ns(refresh_ns),
                presentation.events@,
                after.server,
            )
        } else {
            &&& after == (StateView { frame_sequence: number, ..self })
            &&& presentation.events@ == Seq::<ServerEvent>::empty()
        }
    }
}

proof fn lemma_last_commit(commits: Seq<PendingCommit>, surface: u64, index: int)
    requires
        -1 <= index < commits.len(),
        index >= 0 ==> commits[index].surface == surface,
        forall|j: int| index < j < commits.len() ==> (#[trigger] commits[j]).surface != surface,
    ensures
        last_commit(commits, surface) == index,
    decreases commits.len(),
{
    if commits.len() > 0 && index < commits.len() - 1 {
        assert(commits[commits.len() - 1].surface != surface);
        let init = commits.drop_last();
        assert forall|j: int| index < j < init.len() implies (#[trigger] init[j]).surface
            != surface by {
            assert(init[j] == commits[j]);
        }
        lemma_last_commit(init, surface, index);
    }
}

fn drop_repeats(surfaces: &Vec<u64>) -> (distinct: Vec<u64>)
    ensures
        distinct@ == without_repeats(surfaces@),
{
    let mut distinct: Vec<u64> = Vec::new();
    let mut i: usize = 0;
    while i < surfaces.len()
        invariant
            i <= surfaces@.len(),
            distinct@ == without_repeats(surfaces@.take(i as int)),
        decreases surfaces@.len() - i,
    {
        let ghost prefix = surfaces@.take(i + 1);
        assert(prefix.drop_last() =~= surfaces@.take(i as int));
        if i == 0 {
            distinct.push(surfaces[i]);
            assert(distinct@ =~= prefix);
        } else {
            assert(prefix[prefix.len() - 2] == surfaces@[i - 1]);
            if surfaces[i - 1] != surfaces[i] {
                distinct.push(surfaces[i]);
            }
        }
        i = i + 1;
    }
    assert(surfaces@.take(i as int) =~= surfaces@);
    distinct
}

impl State {
    fn override_window_content(&mut self, surface: u64, server_id: u32, window: u32)
        ensures
            final(self)@ == old(self)@.with_override(surface, server_id, window),
    {
        let key: u64 = key_of_window(server_id, window);
        let target: u32 = match self.parents.get(key) {
            Some(parent) => *parent,
            None => window,
        };
        self.policy.override_content(server_id, target, surface);
        if target == window && !self.resolving.contains(key) {
            self.resolving.insert(key, ());
            self.worker.resolve_window(server_id, window);
        }
    }

    fn process_gamescope_command(&mut self, command: Command, backend: &mut Vec<Command>)
        ensures
            final(self)@ == old(self)@.after_gamescope_command(command),
            final(backend)@ == (if is_backend_command(command) {
                old(backend)@.push(command)
            } else {
                old(backend)@
            }),
    {
        let ghost before = self.effects@;
        match command {
            Command::InputMethod(command) => {
                self.effects.push(Effect::InputMethod(command));
                assert(self.effects@ =~= before + seq![Effect::InputMethod(command)]);
            },
            Command::ExecutePrivate { reply, command: _, value: _ } => {
                if let Some(event) = self.server.private_command_executed(reply) {
                    self.effects.push(Effect::Send(event));
                    assert(self.effects@ =~= before + seq![Effect::Send(event)]);
                }
            },
            Command::SetReshadeEffect { reply, path } => {
                self.effects.push(Effect::EffectReady { reply, path });
                assert(self.effects@ =~= before + seq![Effect::EffectReady { reply, path }]);
            },
            Command::OverrideWindowContent { surface, xwayland_server_id, x11_window } => {
                self.override_window_content(surface, xwayland_server_id, x11_window);
            },
            command => {
                backend.push(command);
            },
        }
    }

    /// Execute protocol commands that belong to the compositor thread and return the
    /// others.
    pub fn process_gamescope_commands(&mut self) -> (backend: Vec<Command>)
        ensures
            ({
                let commands = old(self)@.server.commands;
                let drained = StateView {
                    server: ServerView { commands: Seq::empty(), ..old(self)@.server },
                    ..old(self)@
                };
                &&& backend@ == commands.filter(backend_commands())
                &&& final(self)@ == drained.after_gamescope_commands(commands)
            }),
    {
        let mut commands = self.server.drain_commands();
        let ghost all = commands@;
        let ghost drained = self@;
        let ghost wanted = backend_commands();
        let mut backend: Vec<Command> = Vec::new();
        let ghost mut done: int = 0;
        assert(commands@ =~= all.skip(0));
        proof {
            lists::lemma_filter_empty(all.take(0), wanted);
        }
        while commands.len() > 0
            invariant
                0 <= done <= all.len(),
                commands@ == all.skip(done),
                wanted == backend_commands(),
                backend@ == all.take(done).filter(wanted),
                self@ == drained.after_gamescope_commands(all.take(done)),
            decreases commands@.len(),
        {
            let command = commands.remove(0);
            proof {
                lists::lemma_filter_take_next(all, wanted, done);
                assert(all.take(done + 1).drop_last() =~= all.take(done));
                assert(all.take(done + 1).last() == command);
            }
            self.process_gamescope_command(command, &mut backend);
            proof {
                assert(commands@ =~= all.skip(done + 1));
                done = done + 1;
            }
        }
        assert(all.take(done) =~= all);
        backend
    }

    /// A surface was committed.
    pub fn commit(&mut self, surface: u64)
        ensures
            ({
                let index = lists::first_index(
                    old(self)@.server.surfaces,
                    server::is_surface(surface),
                );
                let committed = if index < old(self)@.server.surfaces.len() {
                    let entry = old(self)@.server.surfaces[index];
                    StateView {
                        server: ServerView {
                            surfaces: old(self)@.server.surfaces.update(
                                index,
                                server::SurfaceView {
                                    state: swapchain::only_feedback(entry.state.feedback),
                                    ..entry
                                },
                            ),
                            ..old(self)@.server
                        },
                        commits: old(self)@.commits.push(
                            PendingCommit { surface, metadata: entry.state },
                        ),
                        ..old(self)@
                    }
                } else {
                    old(self)@
                };
                final(self)@ == (if old(self)@.focused_surface is None {
                    committed.with_wayland_focus(surface)
                } else {
                    committed
                })
            }),
    {
        if let Some(metadata) = self.server.prepare_surface_commit(surface) {
            self.commits.push(PendingCommit { surface, metadata });
        }
        if self.focused_surface.is_none() {
            self.focus_wayland_surface(surface);
        }
    }

    fn find_last_commit(&self, surface: u64) -> (index: Option<usize>)
        ensures
            match index {
                Some(index) => index < self@.commits.len() && last_commit(
                    self@.commits,
                    surface,
                ) == index,
                None => last_commit(self@.commits, surface) == -1,
            },
    {
        let ghost commits = self.commits@;
        let mut i: usize = self.commits.len();
        while i > 0
            invariant
                i <= self.commits@.len(),
                commits == self.commits@,
                forall|j: int| i <= j < commits.len() ==> (#[trigger] commits[j]).surface
                    != surface,
            decreases i,
        {
            if self.commits[i - 1].surface == surface {
                proof {
                    lemma_last_commit(commits, surface, i - 1);
                }
                return Some(i - 1);
            }
            i = i - 1;
        }
        proof {
            lemma_last_commit(commits, surface, -1);
        }
        None
    }

    fn surfaces_presented(&self, cursor: Option<u64>) -> (surfaces: Vec<u64>)
        ensures
            surfaces@ == self@.presented_surfaces(cursor),
    {
        let layers = self.render_layers();
        let mut surfaces: Vec<u64> = Vec::new();
        let mut i: usize = 0;
        while i < layers.len()
            invariant
                i <= layers@.len(),
                surfaces@ == layer_surfaces(layers@).take(i as int),
            decreases layers@.len() - i,
        {
            surfaces.push(layers[i].surface);
            assert(layer_surfaces(layers@).take(i + 1) =~= layer_surfaces(layers@).take(
                i as int,
            ).push(layers@[i as int].surface));
            i = i + 1;
        }
        assert(layer_surfaces(layers@).take(i as int) =~= layer_surfaces(layers@));
        if let Some(cursor) = cursor {
            surfaces.push(cursor);
        }
        drop_repeats(&surfaces)
    }

    /// Complete a frame using the backend's actual refresh and sequence. `cursor` is the
    /// surface of the cursor; times are in nanoseconds.
    pub fn presented_with_metadata(
        &mut self,
        at_ns: u128,
        refresh_ns: u128,
        sequence: u64,
        cursor: Option<u64>,
    ) -> (presentation: Presentation)
        ensures
            old(self)@.is_presented(
                at_ns,
                refresh_ns,
                sequence,
                cursor,
                presentation,
                final(self)@,
            ),
    {
        let number: u64 = if sequence == 0 {
            self.frame_sequence.wrapping_add(1)
        } else {
            sequence
        };
        let surfaces = self.surfaces_presented(cursor);
        let primary = self.primary_surface();
        self.frame_sequence = number;
        let msec: u128 = at_ns / 1_000_000;
        let callback_msec: u32 = if msec > u32::MAX as u128 {
            u32::MAX
        } else {
            msec as u32
        };
        let mut events: Vec<ServerEvent> = Vec::new();
        if let Some(surface) = primary {
            if let Some(index) = self.find_last_commit(surface) {
                proof {
                    lemma_last_commit_is_of(self.commits@, surface);
                }
                let commit = self.commits.remove(index);
                let time_ns: u64 = limit_ns(at_ns);
                events = self.server.surface_presented(
                    surface,
                    &commit.metadata,
                    time_ns,
                    time_ns,
                    0,
                    limit_ns(refresh_ns),
                );
            }
        }
        Presentation { surfaces, callback_msec, sequence: number, events }
    }

    /// Complete a frame of a backend that reports neither refresh nor sequence.
    pub fn presented(&mut self, at_ns: u128, cursor: Option<u64>) -> (presentation: Presentation)
        ensures
            old(self)@.is_presented(
                at_ns,
                output::reported_refresh_ns(old(self)@.output) as u128,
                ((old(self)@.frame_sequence + 1) % 0x1_0000_0000_0000_0000) as u64,
                cursor,
                presentation,
                final(self)@,
            ),
    {
        let refresh_ns: u64 = presentation_refresh_ns(self.output);
        let sequence: u64 = self.frame_sequence.wrapping_add(1);
        self.presented_with_metadata(at_ns, refresh_ns as u128, sequence, cursor)
    }

    /// Maintain the exact pressed-keysym set consumed by action bindings. Tells which
    /// events to send and whether the key is kept from the focused client.
    pub fn filter_key(&mut self, keysym: u32, pressed: bool, monotonic_time_ns: u64) -> (result: (
        Vec<ServerEvent>,
        bool,
    ))
        ensures
            ({
                let held = if pressed {
                    lists::with_number(old(self)@.pressed_keysyms, keysym)
                } else {
                    lists::without_number(old(self)@.pressed_keysyms, keysym)
                };
                let keys = crate::action_binding::normalized_set(held);
                let executed = server::triggered(old(self)@.server.bindings, keys);
                &&& result.0@ == server::triggered_events(
                    executed,
                    old(self)@.server.action_sequence,
                    monotonic_time_ns,
                )
                &&& result.1 == server::press_blocked(old(self)@.server.bindings, keys)
                &&& final(self)@ == (StateView {
                    pressed_keysyms: held,
                    server: ServerView {
                        bindings: server::after_press(old(self)@.server.bindings, keys),
                        action_sequence: ((old(self)@.server.action_sequence + executed.len())
                            % 0x1_0000_0000) as u32,
                        ..old(self)@.server
                    },
                    ..old(self)@
                })
            }),
    {
        if pressed {
            let _added = insert_number(&mut self.pressed_keysyms, keysym);
        } else {
            remove_number(&mut self.pressed_keysyms, keysym);
        }
        self.server.process_pressed_keysyms(self.pressed_keysyms.as_slice(), monotonic_time_ns)
    }

    /// How many keys are held.
    #[must_use]
    pub fn held_keys(&self) -> (count: usize)
        ensures
            count == self@.pressed_keysyms.len(),
    {
        self.pressed_keysyms.len()
    }

    /// Forget the held keys before input is suspended for a terminal switch, so that none
    /// remains held on return.
    pub fn release_all_keys(&mut self)
        ensures
            final(self)@ == (StateView {
                pressed_keysyms: Seq::empty(),
                vt: VtView {
                    pressed: Seq::empty(),
                    intercepted: Seq::empty(),
                    ..old(self)@.vt
                },
                ..old(self)@
            }),
    {
        self.pressed_keysyms.clear();
        self.vt.release_all_keys();
    }
}

proof fn lemma_last_commit_is_of(commits: Seq<PendingCommit>, surface: u64)
    ensures
        -1 <= last_commit(commits, surface) < commits.len(),
        last_commit(commits, surface) >= 0 ==> commits[last_commit(commits, surface)].surface
            == surface,
    decreases commits.len(),
{
    if commits.len() > 0 && commits.last().surface != surface {
        lemma_last_commit_is_of(commits.drop_last(), surface);
        let index = last_commit(commits.drop_last(), surface);
        if index >= 0 {
            assert(commits.drop_last()[index] == commits[index]);
        }
    }
}

/// What every operation keeps: no two known windows have the same identity.
pub open spec fn keeps_windows_unique(before: StateView, after: StateView) -> bool {
    window_policy::unique_windows(before.policy.windows) ==> window_policy::unique_windows(
        after.policy.windows,
    )
}

/// Windows that show themselves, windows that go, servers that go, and looking at focus
/// again: each keeps the identities of windows unique.
pub proof fn lemma_operations_keep_windows_unique(
    state: StateView,
    after: StateView,
    window: X11Window,
    xwm_id: u32,
    id: u32,
)
    requires
        state.is_refreshed(after),
    ensures
        keeps_windows_unique(state, after),
        keeps_windows_unique(state, state.with_known(window)),
        keeps_windows_unique(state, state.without_window(xwm_id, id)),
        keeps_windows_unique(state, state.without_xwayland(xwm_id, id)),
{
    if window_policy::unique_windows(state.policy.windows) {
        window_policy::lemma_windows_stay_unique(state.policy.windows, window, xwm_id, id);
    }
}

/// Reports of the worker leave the known windows alone.
pub proof fn lemma_reports_keep_windows(state: StateView, events: Seq<SteamWorkerEvent>)
    ensures
        state.after_events(events).policy.windows == state.policy.windows,
        state.after_events(events).policy.servers == state.policy.servers,
    decreases events.len(),
{
    if events.len() > 0 {
        lemma_reports_keep_windows(state, events.drop_last());
    }
}

/// X11 focus is set only when its target changes: looking at focus again sets no input
/// focus, activates no window and raises none.
pub proof fn lemma_x11_focus_is_set_once(before: StateView, after: StateView, again: StateView)
    requires
        before.is_refreshed(after),
        after.is_refreshed(again),
    ensures
        after.last_focus == before.focus_key(),
        again.last_focus == after.last_focus,
        again.mailbox.input_focus == after.mailbox.input_focus,
        again.mailbox.commands == after.mailbox.commands,
        again.effects == after.with_keyboard_focus(after.keyboard_choice()).effects
            + after.with_keyboard_focus(after.keyboard_choice()).fit_effects(),
{
    assert(after.policy == before.policy);
}

/// A removed server leaves nothing behind: no window, no server of its window manager, no
/// metadata, no replaced contents, no resolved drawable, no readiness, no display and no
/// focus.
pub proof fn lemma_removed_server_leaves_nothing(
    state: StateView,
    xwm_id: u32,
    server_id: u32,
    window: u32,
)
    ensures
        ({
            let after = state.without_xwayland(xwm_id, server_id);
            let key = steam_worker::window_key(server_id, window);
            let managed = steam_worker::window_key(xwm_id, window);
            &&& forall|i: int|
                0 <= i < after.policy.windows.len() ==> (
                #[trigger] after.policy.windows[i]).xwm_id != Some(xwm_id)
            &&& forall|i: int|
                0 <= i < after.policy.servers.len() ==> (
                #[trigger] after.policy.servers[i]).xwm_id != xwm_id
            &&& !after.policy.metadata.contains_key(managed)
            &&& !after.policy.sequences.contains_key(managed)
            &&& !after.policy.content_overrides.contains_key(key)
            &&& !after.parents.contains_key(key)
            &&& !after.resolving.contains_key(key)
            &&& !after.ready.contains(server_id)
            &&& after.display_number(server_id) is None
            &&& !(after.last_focus matches Some((candidate, _)) && candidate == xwm_id)
            &&& !(after.keyboard_focus matches Some(KeyboardFocusTarget::X11(focused))
                && focused.xwm_id == Some(xwm_id))
        }),
{
    broadcast use vstd::seq_lib::group_filter_ensures;

    let after = state.without_xwayland(xwm_id, server_id);
    steam_worker::lemma_window_keys(server_id, window, server_id, 0);
    steam_worker::lemma_window_keys(xwm_id, window, xwm_id, 0);
    lists::lemma_without_number(state.ready, server_id, server_id);
    lists::lemma_first_index_found(after.displays, display_of(server_id));
    let index = lists::first_index(after.displays, display_of(server_id));
    if index < after.displays.len() {
        assert(other_display(server_id)(after.displays[index]));
        assert(display_of(server_id)(after.displays[index]));
    }
    assert forall|i: int| 0 <= i < after.policy.windows.len() implies (
    #[trigger] after.policy.windows[i]).xwm_id != Some(xwm_id) by {
        assert(window_policy::not_of_xwm(xwm_id)(after.policy.windows[i]));
    }
    assert forall|i: int| 0 <= i < after.policy.servers.len() implies (
    #[trigger] after.policy.servers[i]).xwm_id != xwm_id by {
        assert(window_policy::not_xwm(xwm_id)(after.policy.servers[i]));
    }
}

/// Removing a server leaves the windows of other servers, their metadata and their
/// replaced contents as they are.
pub proof fn lemma_removed_server_spares_others(
    state: StateView,
    xwm_id: u32,
    server_id: u32,
    other_xwm: u32,
    other_server: u32,
    window: X11Window,
)
    requires
        other_xwm != xwm_id,
        other_server != server_id,
        window.xwm_id == Some(other_xwm),
    ensures
        ({
            let after = state.without_xwayland(xwm_id, server_id);
            let key = steam_worker::window_key(other_server, window.window_id);
            let managed = steam_worker::window_key(other_xwm, window.window_id);
            &&& after.policy.windows.contains(window) <==> state.policy.windows.contains(window)
            &&& after.policy.metadata.contains_key(managed)
                <==> state.policy.metadata.contains_key(managed)
            &&& state.policy.metadata.contains_key(managed) ==> after.policy.metadata[managed]
                == state.policy.metadata[managed]
            &&& after.policy.content_overrides.contains_key(key)
                <==> state.policy.content_overrides.contains_key(key)
            &&& state.policy.content_overrides.contains_key(key)
                ==> after.policy.content_overrides[key] == state.policy.content_overrides[key]
            &&& after.parents.contains_key(key) <==> state.parents.contains_key(key)
        }),
{
    broadcast use vstd::seq_lib::group_filter_ensures;

    let after = state.without_xwayland(xwm_id, server_id);
    steam_worker::lemma_window_keys(other_server, window.window_id, server_id, 0);
    steam_worker::lemma_window_keys(other_xwm, window.window_id, xwm_id, 0);
    let keep = window_policy::not_of_xwm(xwm_id);
    assert(keep(window));
    if after.policy.windows.contains(window) {
        state.policy.windows.lemma_filter_contains_rev(keep, window);
    }
}

/// A window that is gone leaves nothing behind: not itself, its metadata, its age, its
/// replaced contents, drawables that it is the managed window of, or the keyboard.
pub proof fn lemma_destroyed_window_is_forgotten(
    state: StateView,
    xwm_id: u32,
    window_id: u32,
    server_id: u32,
    drawable: u32,
)
    requires
        state.policy.server_of_xwm(xwm_id) == Some(server_id),
    ensures
        ({
            let after = state.without_window(xwm_id, window_id);
            let key = steam_worker::window_key(server_id, window_id);
            let managed = steam_worker::window_key(xwm_id, window_id);
            let child = steam_worker::window_key(server_id, drawable);
            &&& forall|i: int|
                0 <= i < after.policy.windows.len() ==> !(
                #[trigger] after.policy.windows[i]).has_identity(xwm_id, window_id)
            &&& !after.policy.metadata.contains_key(managed)
            &&& !after.policy.sequences.contains_key(managed)
            &&& !after.policy.content_overrides.contains_key(key)
            &&& !after.parents.contains_key(key)
            &&& !after.resolving.contains_key(key)
            &&& !(after.parents.contains_key(child) && after.parents[child] == window_id)
            &&& !after.has_keyboard(xwm_id, window_id)
        }),
{
    broadcast use vstd::seq_lib::group_filter_ensures;

    let after = state.without_window(xwm_id, window_id);
    steam_worker::lemma_window_keys(server_id, drawable, server_id, 0);
    assert forall|i: int| 0 <= i < after.policy.windows.len() implies !(
    #[trigger] after.policy.windows[i]).has_identity(xwm_id, window_id) by {
        assert(window_policy::not_window(xwm_id, window_id)(after.policy.windows[i]));
    }
}

/// Replacing the contents of a window affects rendering only: where the keyboard and the
/// pointer go stays as it is.
pub proof fn lemma_replaced_contents_keep_input(
    state: StateView,
    surface: u64,
    server_id: u32,
    window: u32,
)
    ensures
        ({
            let after = state.with_override(surface, server_id, window);
            &&& after.keyboard_choice() == state.keyboard_choice()
            &&& after.policy.pointer_surface() == state.policy.pointer_surface()
            &&& after.effects == state.effects
        }),
{
    let after = state.with_override(surface, server_id, window);
    window_policy::lemma_overrides_affect_rendering_only(
        state.policy,
        after.policy.content_overrides,
        state.fallback(),
    );
}

/// The ancestors of a drawable are asked for once while the answer is out.
pub proof fn lemma_ancestors_are_asked_for_once(
    state: StateView,
    first: u64,
    second: u64,
    server_id: u32,
    window: u32,
)
    ensures
        state.with_override(first, server_id, window).with_override(
            second,
            server_id,
            window,
        ).mailbox == state.with_override(first, server_id, window).mailbox,
{
}

/// A key that is pressed and released is no longer held, and every other key is held as
/// before.
pub proof fn lemma_released_key_is_not_held(held: Seq<u32>, key: u32, other: u32)
    ensures
        ({
            let after = lists::without_number(lists::with_number(held, key), key);
            &&& !after.contains(key)
            &&& other != key ==> (after.contains(other) <==> held.contains(other))
        }),
{
    let pressed = lists::with_number(held, key);
    lists::lemma_without_number(pressed, key, key);
    lists::lemma_without_number(pressed, key, other);
    if pressed != held {
        assert(pressed == held.push(key));
        if held.contains(other) {
            let i = held.index_of(other);
            assert(pressed[i] == other);
        }
        if pressed.contains(other) && other != key {
            let i = pressed.index_of(other);
            assert(held[i] == other);
        }
    }
}

/// Two targets of the keyboard are the same if they are the same surface, or windows with one
/// identity that are both alive; that nothing has the keyboard is the same as itself only.
pub proof fn lemma_targets_are_compared_by_identity(
    window: X11Window,
    other: X11Window,
    surface: u64,
    another: u64,
)
    ensures
        same_target(None, None),
        same_target(
            Some(KeyboardFocusTarget::Wayland(surface)),
            Some(KeyboardFocusTarget::Wayland(another)),
        ) <==> surface == another,
        same_target(
            Some(KeyboardFocusTarget::X11(window)),
            Some(KeyboardFocusTarget::X11(other)),
        ) <==> window.alive && other.alive && window.xwm_id == other.xwm_id && window.window_id
            == other.window_id,
        !same_target(None, Some(KeyboardFocusTarget::Wayland(surface))),
        !same_target(Some(KeyboardFocusTarget::X11(window)), None),
        !same_target(
            Some(KeyboardFocusTarget::X11(window)),
            Some(KeyboardFocusTarget::Wayland(surface)),
        ),
        KeyboardFocusTarget::Wayland(surface).spec_surface() == Some(surface),
        KeyboardFocusTarget::X11(window).spec_surface() == window.surface,
{
}

/// The surface that is used where no window is: the one with the focus, and else the toplevel
/// that came last.
pub proof fn lemma_latest_toplevel_is_fallen_back_to(state: StateView, surface: u64)
    ensures
        state.focused_surface is Some ==> state.fallback() == state.focused_surface,
        state.focused_surface is None ==> (StateView {
            toplevels: state.toplevels.push(surface),
            ..state
        }).fallback() == Some(surface),
        state.focused_surface is None && state.toplevels.len() == 0 ==> state.fallback() is None,
{
    assert(state.toplevels.push(surface).last() == surface);
}

/// When focus is refreshed, the keyboard goes to the window that the policy picks, to the
/// input surface where it picks none, and to nothing where there is neither. Whoever changes
/// it is told once, and nobody is told where nothing changes.
pub proof fn lemma_keyboard_follows_the_policy(state: StateView, after: StateView)
    requires
        state.is_refreshed(after),
    ensures
        match state.policy.keyboard_window() {
            Some(window) => {
                &&& after.keyboard_focus is Some && after.keyboard_focus->0 is X11
                &&& after.keyboard_focus->0->X11_0.xwm_id == window.xwm_id
                &&& after.keyboard_focus->0->X11_0.window_id == window.window_id
            },
            None => match state.policy.primary_input(state.fallback()) {
                Some(surface) => after.keyboard_focus == Some(
                    KeyboardFocusTarget::Wayland(surface),
                ),
                None => after.keyboard_focus is None,
            },
        },
        after.keyboard_focus != state.keyboard_focus ==> {
            &&& after.effects.len() > state.effects.len()
            &&& after.effects[state.effects.len() as int] == Effect::SetKeyboardFocus(
                after.keyboard_focus,
            )
            &&& after.focused_surface == (match after.keyboard_focus {
                Some(KeyboardFocusTarget::Wayland(surface)) => Some(surface),
                Some(KeyboardFocusTarget::X11(window)) => window.surface,
                None => None,
            })
        },
        same_target(state.keyboard_choice(), state.keyboard_focus) ==> after.focused_surface
            == state.focused_surface && after.keyboard_focus == state.keyboard_focus,
        state.effects.is_prefix_of(after.effects),
{
    let next = state.keyboard_choice();
    let focused = state.with_keyboard_focus(next);
    let told = focused.with_x11_focus();
    assert(after.effects == told.effects);
    lemma_effects_are_added(focused);
    assert(state.effects.is_prefix_of(focused.effects));
    assert(state.effects.is_prefix_of(told.effects));
    if after.keyboard_focus != state.keyboard_focus {
        assert(focused.effects[state.effects.len() as int] == Effect::SetKeyboardFocus(next));
        assert(told.effects[state.effects.len() as int]
            == focused.effects[state.effects.len() as int]);
    }
}

proof fn lemma_effects_are_added(state: StateView)
    ensures
        state.effects.is_prefix_of(state.with_x11_focus().effects),
{
    let fitted = state.effects + state.fit_effects();
    let active = activations(state.policy.windows, state.focus_key());
    assert(state.effects.is_prefix_of(fitted));
    assert(state.effects.is_prefix_of(fitted + active + state.raise_effects()));
}

/// The window with the base layer is made to fill the output, or, if it is Steam's own and
/// Steam asked for a lower height than the output has, to keep that height. Nothing is
/// fitted without a window or an output.
pub proof fn lemma_focused_window_fills_the_output(state: StateView)
    ensures
        ({
            let after = state.with_x11_focus();
            let at = state.effects.len() as int;
            match state.policy.selected_window() {
                Some(focus) => match state.output {
                    Some(mode) => {
                        let app = state.policy.metadata_of(focus).app(
                            state.policy.steam_mode,
                            focus.window_id,
                        );
                        let lowered = app == 769 && 0 < state.steam_max_height < mode.height;
                        &&& after.effects.len() > at
                        &&& after.effects[at] is FitWindow
                        &&& after.effects[at]->FitWindow_xwm_id == focus.xwm_id
                        &&& after.effects[at]->FitWindow_window_id == focus.window_id
                        &&& after.effects[at]->FitWindow_size == (if lowered {
                            FocusSize::Limited {
                                width: mode.width,
                                height: mode.height,
                                limit: state.steam_max_height as i32,
                            }
                        } else {
                            FocusSize::Output { width: mode.width, height: mode.height }
                        })
                    },
                    None => state.fit_effects().len() == 0,
                },
                None => state.fit_effects().len() == 0,
            }
        }),
{
}

/// The window that X11 servers give the keyboard to: the one that the policy picks, under its
/// window manager.
pub open spec fn is_x11_focus(state: StateView, xwm_id: u32, window_id: u32) -> bool {
    &&& state.policy.keyboard_window() is Some
    &&& state.policy.keyboard_window()->0.xwm_id == Some(xwm_id)
    &&& state.policy.keyboard_window()->0.window_id == window_id
}

/// When the window that X11 gives the keyboard to changes, every server is told: the window's
/// own server of the window, every other one that it has none. Every window is told whether
/// it is the active one, and the window is raised where its server is known. While it stays
/// the same, nobody is told.
pub proof fn lemma_x11_focus_is_passed_on(state: StateView, server: int, window: int)
    requires
        0 <= server < state.policy.servers.len(),
        forall|i: int, j: int|
            0 <= i < j < state.policy.servers.len() ==> (
            #[trigger] state.policy.servers[i]).server_id != (
            #[trigger] state.policy.servers[j]).server_id,
        0 <= window < state.policy.windows.len(),
    ensures
        ({
            let after = state.with_x11_focus();
            let told = steam_worker::waiting_focus(
                after.mailbox.input_focus,
                state.policy.servers[server].server_id,
            );
            let manager = state.policy.servers[server].xwm_id;
            let shown = state.policy.windows[window];
            let fitted = state.effects.len() + state.fit_effects().len();
            let at = fitted + window;
            let raised = fitted + state.policy.windows.len();
            let changed = after.last_focus != state.last_focus;
            &&& forall|id: u32| #[trigger]
                is_x11_focus(state, manager, id) ==> after.last_focus == Some((manager, id))
            &&& after.last_focus matches Some((xwm_id, window_id)) ==> is_x11_focus(
                state,
                xwm_id,
                window_id,
            )
            &&& changed ==> told is Some
            &&& changed ==> (told->0 matches Some(id) ==> is_x11_focus(state, manager, id))
            &&& changed ==> (told->0 is None ==> forall|id: u32| !is_x11_focus(state, manager, id))
            &&& changed ==> after.effects[at] is SetActivated
            &&& changed ==> after.effects[at]->SetActivated_xwm_id == shown.xwm_id
            &&& changed ==> after.effects[at]->SetActivated_window_id == shown.window_id
            &&& changed ==> (after.effects[at]->SetActivated_active <==> shown.xwm_id is Some
                && is_x11_focus(state, shown.xwm_id->0, shown.window_id))
            &&& changed && is_x11_focus(state, manager, state.policy.keyboard_window()->0.window_id)
                ==> after.effects.len() == raised + 1 && after.effects.last() == (Effect::Raise {
                xwm_id: manager,
                window_id: state.policy.keyboard_window()->0.window_id,
            })
            &&& changed && after.last_focus is None ==> after.effects.len() == raised
            &&& !changed ==> after.mailbox == state.mailbox && after.effects.len() == fitted
            &&& after.mailbox.commands == state.mailbox.commands
        }),
{
    let key = state.focus_key();
    let servers = state.policy.servers;
    let manager = servers[server].xwm_id;
    let after = state.with_x11_focus();
    if key != state.last_focus {
        lemma_server_focus_waits(state.mailbox.input_focus, servers, key, server);
        let fitted = state.effects + state.fit_effects();
        let active = activations(state.policy.windows, key);
        assert(after.effects[fitted.len() + window] == active[window]);
        let wanted = window_policy::is_xwm(manager);
        lists::lemma_first_index_found(servers, wanted);
        assert(wanted(servers[server]));
        assert(lists::first_index(servers, wanted) < servers.len());
        assert(state.policy.server_of_xwm(manager) is Some);
    }
}

proof fn lemma_server_focus_waits(
    pending: Seq<InputFocus>,
    servers: Seq<XwmServer>,
    key: Option<(u32, u32)>,
    server: int,
)
    requires
        0 <= server < servers.len(),
        forall|i: int, j: int|
            0 <= i < j < servers.len() ==> (#[trigger] servers[i]).server_id != (
            #[trigger] servers[j]).server_id,
    ensures
        steam_worker::waiting_focus(
            focus_for_servers(pending, servers, key),
            servers[server].server_id,
        ) == Some(focus_target(key, servers[server].xwm_id)),
    decreases servers.len(),
{
    let before = servers.drop_last();
    let last = servers.last();
    steam_worker::lemma_latest_input_focus_waits(
        focus_for_servers(pending, before, key),
        last.server_id,
        focus_target(key, last.xwm_id),
        servers[server].server_id,
    );
    if server < before.len() {
        assert(before[server] == servers[server]);
        assert(servers[server].server_id != last.server_id);
        lemma_server_focus_waits(pending, before, key, server);
    }
}

/// Whether a person can give a window the focus: it is a live, managed window that may have
/// it, is shown with some size, and is no popup.
pub open spec fn can_be_picked(policy: PolicyView, window: X11Window) -> bool {
    &&& policy.candidate(window) is Some
    &&& window.mapped && window.width > 1 && window.height > 1
    &&& !window.override_redirect
}

/// Steam is told of every window that a person can give the focus, with its app and its
/// process, in the order of the windows.
pub proof fn lemma_pickable_windows_are_listed(
    policy: PolicyView,
    windows: Seq<X11Window>,
    window: X11Window,
)
    ensures
        ({
            let app = policy.metadata_of(window).app(policy.steam_mode, window.window_id);
            &&& can_be_picked(policy, window) ==> focusable_windows(policy, windows.push(window))
                == focusable_windows(policy, windows) + seq![
                window.window_id,
                app,
                policy.metadata_of(window).pid,
            ]
            &&& !can_be_picked(policy, window) ==> focusable_windows(policy, windows.push(window))
                == focusable_windows(policy, windows)
            &&& focusable_windows(policy, Seq::empty()).len() == 0
        }),
{
    let more = windows.push(window);
    assert(more.drop_last() =~= windows);
    assert(more.last() == window);
    let before = focusable_windows(policy, windows);
    let app = policy.metadata_of(window).app(policy.steam_mode, window.window_id);
    let pid = policy.metadata_of(window).pid;
    assert(before.push(window.window_id).push(app).push(pid) =~= before + seq![
        window.window_id,
        app,
        pid,
    ]);
}

/// Steam is told of every app with such a window, once, and of no other. Zero is no app.
pub proof fn lemma_pickable_apps_are_listed(policy: PolicyView, windows: Seq<X11Window>, app: u32)
    ensures
        focusable_apps(policy, windows).contains(app) <==> app != 0 && exists|i: int|
            0 <= i < windows.len() && can_be_picked(policy, #[trigger] windows[i])
                && policy.metadata_of(windows[i]).app(policy.steam_mode, windows[i].window_id)
                == app,
        focusable_apps(policy, windows).no_duplicates(),
    decreases windows.len(),
{
    if windows.len() > 0 {
        let init = windows.drop_last();
        let last = windows.last();
        let before = focusable_apps(policy, init);
        lemma_pickable_apps_are_listed(policy, init, app);
        let last_app = policy.metadata_of(last).app(policy.steam_mode, last.window_id);
        let after = focusable_apps(policy, windows);
        if user_focusable(policy, last) && last_app != 0 && !before.contains(last_app) {
            assert(after == before.push(last_app));
            assert(after[before.len() as int] == last_app);
            if before.contains(app) {
                let at = choose|i: int| 0 <= i < before.len() && before[i] == app;
                assert(after[at] == app);
            }
        }
        assert(can_be_picked(policy, last) <==> user_focusable(policy, last));
        if exists|i: int|
            0 <= i < init.len() && can_be_picked(policy, #[trigger] init[i]) && policy.metadata_of(
                init[i],
            ).app(policy.steam_mode, init[i].window_id) == app {
            let i = choose|i: int|
                0 <= i < init.len() && can_be_picked(policy, #[trigger] init[i])
                    && policy.metadata_of(init[i]).app(policy.steam_mode, init[i].window_id) == app;
            assert(windows[i] == init[i]);
        }
        if exists|i: int|
            0 <= i < windows.len() && can_be_picked(policy, #[trigger] windows[i])
                && policy.metadata_of(windows[i]).app(policy.steam_mode, windows[i].window_id)
                == app {
            let i = choose|i: int|
                0 <= i < windows.len() && can_be_picked(policy, #[trigger] windows[i])
                    && policy.metadata_of(windows[i]).app(policy.steam_mode, windows[i].window_id)
                    == app;
            if i < init.len() {
                assert(init[i] == windows[i]);
            } else {
                assert(windows[windows.len() - 1] == last);
            }
        }
        assert(windows[windows.len() - 1] == last);
    }
}

/// What Steam is told of focus: the window with the base layer, its app unless that is zero,
/// and the display that it is on. Without a window, or where its display is unknown, that is
/// the display of the first server. Nothing is told before that server has a display.
pub proof fn lemma_focus_is_told_to_steam(
    state: StateView,
    after: StateView,
    root_display: u32,
)
    requires
        state.is_refreshed(after),
    ensures
        state.display_number(0) is None ==> after.mailbox.focus == state.mailbox.focus,
        state.display_number(0) == Some(root_display) ==> {
            &&& after.mailbox.focus is Some
            &&& {
                let told = after.mailbox.focus->0@;
                &&& told.steam_mode == state.policy.steam_mode
                &&& told.focused_gfx_app == told.focused_app
                &&& match state.policy.selected_window() {
                    Some(window) => {
                        let app = state.policy.metadata_of(window).app(
                            state.policy.steam_mode,
                            window.window_id,
                        );
                        &&& told.focused_window == Some(window.window_id)
                        &&& app != 0 ==> told.focused_app == Some(app)
                        &&& app == 0 ==> told.focused_app is None
                        &&& window.xwm_id matches Some(xwm_id) ==> (
                        state.policy.server_of_xwm(xwm_id) matches Some(server) ==> (
                        state.display_number(server) matches Some(number) ==> told.focus_display
                            == seq![':'] + crate::text::decimal(number as nat)))
                        &&& (window.xwm_id is None || state.policy.server_of_xwm(
                            window.xwm_id->0,
                        ) is None) ==> told.focus_display == seq![':'] + crate::text::decimal(
                            root_display as nat,
                        )
                    },
                    None => {
                        &&& told.focused_window is None && told.focused_app is None
                        &&& told.focus_display == seq![':'] + crate::text::decimal(
                            root_display as nat,
                        )
                    },
                }
            }
        },
{
    reveal_strlit(":");
    assert(":"@ =~= seq![':']);
}

/// A server that is registered is known by its display from then on, at the worker too, which
/// is told the rate of the output, or sixty hertz without one. Displays of other servers stay
/// as they were. The first server's display is that of the session.
pub proof fn lemma_registered_servers_have_displays(
    state: StateView,
    xwm_id: u32,
    server_id: u32,
    number: u32,
    other: u32,
)
    ensures
        ({
            let after = state.with_xwayland(xwm_id, server_id, number);
            &&& after.display_number(server_id) == Some(number)
            &&& other != server_id ==> after.display_number(other) == state.display_number(other)
            &&& server_id == 0 ==> after.first_display == Some(number)
            &&& server_id != 0 ==> after.first_display == state.first_display
            &&& after.policy.server_of_xwm(xwm_id) == Some(server_id)
            &&& after.mailbox.commands == state.mailbox.commands.push(
                steam_worker::SteamWorkerCommand::Register {
                    display_number: number,
                    server_id,
                    refresh_millihz: match state.output {
                        Some(mode) => mode.refresh,
                        None => 60_000,
                    },
                },
            )
            &&& after.effects == state.effects && after.policy.windows == state.policy.windows
        }),
{
    let displays = state.displays;
    let after = with_display(displays, server_id, number);
    let wanted = display_of(server_id);
    lists::lemma_first_index_found(displays, wanted);
    let index = lists::first_index(displays, wanted);
    assert forall|j: int| 0 <= j < index implies !wanted(#[trigger] after[j]) by {
        assert(after[j] == displays[j]);
    }
    assert(wanted(after[index]));
    lists::lemma_first_index(after, wanted, index);
    window_policy::lemma_registered_servers_are_found(state.policy, xwm_id, server_id, xwm_id);
    if other != server_id {
        let sought = display_of(other);
        lists::lemma_first_index_found(displays, sought);
        let at = lists::first_index(displays, sought);
        assert forall|j: int| 0 <= j < at implies !sought(#[trigger] after[j]) by {
            if j != index {
                assert(after[j] == displays[j]);
            }
        }
        if at < displays.len() {
            assert(at != index);
            assert(after[at] == displays[at]);
            lists::lemma_first_index(after, sought, at);
        } else {
            assert forall|j: int| 0 <= j < after.len() implies !sought(#[trigger] after[j]) by {
                if j < displays.len() && j != index {
                    assert(after[j] == displays[j]);
                }
            }
            lists::lemma_first_index(after, sought, after.len() as int);
        }
    }
}

/// A window that is first seen is younger than every window before it, and keeps its age for
/// as long as it is known. The worker is asked to watch it and to read it, on the server that
/// it is on. A window without a window manager is not followed.
pub proof fn lemma_windows_are_followed(state: StateView, window: X11Window, server_id: u32)
    ensures
        ({
            let after = state.with_tracked(window);
            match window.xwm_id {
                Some(xwm_id) => {
                    let key = steam_worker::window_key(xwm_id, window.window_id);
                    let known = state.policy.sequences.contains_key(key);
                    let asked = after.mailbox.commands;
                    let before = state.mailbox.commands.len() as int;
                    &&& after.policy.sequences.contains_key(key)
                    &&& known ==> after.policy.sequences == state.policy.sequences
                        && after.next_sequence == state.next_sequence
                    &&& !known ==> after.policy.sequences == state.policy.sequences.insert(
                        key,
                        state.next_sequence,
                    )
                    &&& !known && state.next_sequence < u64::MAX ==> after.next_sequence
                        == state.next_sequence + 1
                    &&& state.policy.server_of_xwm(xwm_id) == Some(server_id) ==> {
                        &&& asked.len() == before + 2
                        &&& asked[before] == (steam_worker::SteamWorkerCommand::WatchWindow {
                            server_id,
                            window: window.window_id,
                            pid: window.pid,
                        })
                        &&& asked[before + 1] is ReadWindow
                        &&& asked[before + 1]->ReadWindow_server_id == server_id
                        &&& asked[before + 1]->ReadWindow_window == window.window_id
                    }
                    &&& state.mailbox.commands.is_prefix_of(asked)
                    &&& after.effects == state.effects && after.keyboard_focus
                        == state.keyboard_focus
                },
                None => after == state,
            }
        }),
{
    if let Some(xwm_id) = window.xwm_id {
        let asked = state.with_tracked(window).mailbox.commands;
        assert(state.mailbox.commands =~= asked.take(state.mailbox.commands.len() as int));
    }
}

/// What is asked of a window is asked with the process that the window is known to have.
pub proof fn lemma_windows_are_read_with_their_process(
    state: StateView,
    xwm_id: u32,
    window_id: u32,
    server_id: u32,
    at: int,
)
    requires
        state.policy.server_of_xwm(xwm_id) == Some(server_id),
        0 <= at < state.policy.windows.len(),
        state.policy.windows[at].has_identity(xwm_id, window_id),
        forall|i: int|
            0 <= i < at ==> !(#[trigger] state.policy.windows[i]).has_identity(xwm_id, window_id),
    ensures
        state.with_metadata_request(xwm_id, window_id).mailbox.commands
            == state.mailbox.commands.push(
            steam_worker::SteamWorkerCommand::ReadWindow {
                server_id,
                window: window_id,
                pid: state.policy.windows[at].pid,
            },
        ),
{
    lists::lemma_first_index(
        state.policy.windows,
        window_policy::is_window(xwm_id, window_id),
        at,
    );
}

/// A window that had the keyboard before it had a surface loses it, so that it is given anew;
/// no other window does.
pub proof fn lemma_early_focus_is_given_anew(state: StateView, window: X11Window)
    ensures
        ({
            let after = state.with_early_focus_cleared(window);
            let had = window.xwm_id is Some && state.keyboard_focus is Some
                && state.keyboard_focus->0 is X11 && state.keyboard_focus->0->X11_0.xwm_id
                == window.xwm_id && state.keyboard_focus->0->X11_0.window_id == window.window_id;
            &&& had ==> after.keyboard_focus is None && after.last_focus is None
                && after.focused_surface is None && after.effects == state.effects.push(
                Effect::SetKeyboardFocus(None),
            )
            &&& !had ==> after == state
        }),
{
}

/// A surface that asks for the keyboard gets it as the window that shows it, if there is one,
/// and else as itself, unless a window is to have the keyboard.
pub proof fn lemma_surfaces_get_the_keyboard(state: StateView, surface: u64, at: int)
    ensures
        0 <= at < state.policy.windows.len() && state.policy.windows[at].surface == Some(surface)
            && (forall|i: int|
            0 <= i < at ==> (#[trigger] state.policy.windows[i]).surface != Some(surface))
            ==> state.with_wayland_focus(surface) == state.with_keyboard_focus(
            Some(KeyboardFocusTarget::X11(state.policy.windows[at])),
        ),
        (forall|i: int|
            0 <= i < state.policy.windows.len() ==> (
            #[trigger] state.policy.windows[i]).surface != Some(surface)) ==> {
            &&& state.policy.keyboard_window() is None ==> state.with_wayland_focus(
                surface,
            ).keyboard_focus == Some(KeyboardFocusTarget::Wayland(surface))
            &&& state.policy.keyboard_window() is Some ==> state.with_wayland_focus(surface)
                == state
        },
{
    let windows = state.policy.windows;
    if 0 <= at < windows.len() && windows[at].surface == Some(surface) && forall|i: int|
        0 <= i < at ==> (#[trigger] windows[i]).surface != Some(surface) {
        lists::lemma_first_index(windows, shows(surface), at);
    }
    if forall|i: int| 0 <= i < windows.len() ==> (#[trigger] windows[i]).surface != Some(surface) {
        lists::lemma_first_index(windows, shows(surface), windows.len() as int);
    }
}

/// What Steam asks for through the first server is asked of the backend, in order and once;
/// other servers ask for nothing. When the first server is ready, the backend is told of the
/// wishes that Steam wrote before.
pub proof fn lemma_reports_become_requests(
    events: Seq<SteamWorkerEvent>,
    server_id: u32,
    initial: BridgeInitialState,
    identifier: u32,
    flag: bool,
    screen: ScreenType,
)
    ensures
        all_requests(Seq::empty()).len() == 0,
        all_requests(events.push(SteamWorkerEvent::Ready { server_id, initial })) == all_requests(
            events,
        ) + (if server_id == 0 {
            seq![
                SteamRuntimeRequest::SetForceInternal { force: initial.force_internal },
                SteamRuntimeRequest::SetCompositeForce { force: initial.composite_force },
            ]
        } else {
            Seq::empty()
        }),
        forall|event: BridgeEvent| #[trigger]
            all_requests(events.push(SteamWorkerEvent::Event { server_id, event }))
                == all_requests(events) + (if server_id == 0 {
                bridge_request(event)
            } else {
                Seq::empty()
            }),
        bridge_request(BridgeEvent::CreateXwayland(identifier)) == seq![
            SteamRuntimeRequest::CreateXwayland { identifier },
        ],
        bridge_request(BridgeEvent::DestroyXwayland(identifier)) == seq![
            SteamRuntimeRequest::DestroyXwayland { server_id: identifier },
        ],
        bridge_request(BridgeEvent::VrrEnabledChanged(flag)) == seq![
            SteamRuntimeRequest::SetVrr { enabled: flag },
        ],
        bridge_request(BridgeEvent::DisplayForceInternalChanged(flag)) == seq![
            SteamRuntimeRequest::SetForceInternal { force: flag },
        ],
        bridge_request(BridgeEvent::DisplayModeNudge) == seq![SteamRuntimeRequest::RescanDisplay],
        bridge_request(BridgeEvent::DynamicRefreshChanged { screen, refresh_hz: identifier })
            == seq![SteamRuntimeRequest::SetDynamicRefresh { screen, refresh_hz: identifier }],
        bridge_request(BridgeEvent::CompositeForceChanged(flag)) == seq![
            SteamRuntimeRequest::SetCompositeForce { force: flag },
        ],
        bridge_request(BridgeEvent::GamesRunningChanged(identifier)).len() == 0,
        bridge_request(BridgeEvent::SteamMaxHeightChanged(identifier)).len() == 0,
        bridge_request(BridgeEvent::FpsLimitChanged(identifier)).len() == 0,
{
    let ready = SteamWorkerEvent::Ready { server_id, initial };
    assert(events.push(ready).drop_last() =~= events);
    assert forall|event: BridgeEvent| #[trigger]
        all_requests(events.push(SteamWorkerEvent::Event { server_id, event })) == all_requests(
            events,
        ) + (if server_id == 0 {
            bridge_request(event)
        } else {
            Seq::empty()
        }) by {
        let more = events.push(SteamWorkerEvent::Event { server_id, event });
        assert(more.drop_last() =~= events);
    }
}

/// What Steam writes to the first server is kept: how many games run, how high its windows
/// may be and how fast frames may come. The layer that limits frames is told at once whether
/// they are limited, if it is there to be told. Other servers change none of this.
pub proof fn lemma_wishes_of_steam_are_kept(state: StateView, server_id: u32, value: u32)
    ensures
        ({
            let games = state.after_event(
                SteamWorkerEvent::Event {
                    server_id,
                    event: BridgeEvent::GamesRunningChanged(value),
                },
            );
            let height = state.after_event(
                SteamWorkerEvent::Event {
                    server_id,
                    event: BridgeEvent::SteamMaxHeightChanged(value),
                },
            );
            let limit = state.after_event(
                SteamWorkerEvent::Event { server_id, event: BridgeEvent::FpsLimitChanged(value) },
            );
            let scale = state.after_event(
                SteamWorkerEvent::ScreenScale { server_id, scale: value, magnification: value },
            );
            &&& server_id != 0 ==> games == state && height == state && limit == state && scale
                == state
            &&& server_id == 0 ==> {
                &&& games == (StateView { games_running: value, ..state })
                &&& height == (StateView { steam_max_height: value, ..state })
                &&& limit.fps_limit == value
                &&& state.has_limiter ==> limit.effects == state.effects.push(
                    Effect::WriteLimiter { enabled: value > 0 },
                )
                &&& !state.has_limiter ==> limit.effects == state.effects
                &&& scale == (StateView {
                    screen_scale: value,
                    screen_magnification: value,
                    ..state
                })
            }
        }),
{
    let limited = seq![Effect::WriteLimiter { enabled: value != 0 }];
    assert(state.effects + limited =~= state.effects.push(limited[0]));
    assert(state.effects + Seq::<Effect>::empty() =~= state.effects);
}

/// The two scales of the screen are kept apart.
pub proof fn lemma_scales_are_kept_apart(state: StateView, scale: u32, magnification: u32)
    ensures
        ({
            let after = state.after_event(
                SteamWorkerEvent::ScreenScale { server_id: 0, scale, magnification },
            );
            after.screen_scale == scale && after.screen_magnification == magnification
        }),
{
}

/// A server that has been dealt with is ready, whether or not that went well, and stays so.
/// With the first server comes all that Steam wrote to it before.
pub proof fn lemma_servers_become_ready(
    state: StateView,
    server_id: u32,
    initial: BridgeInitialState,
    message: String,
    other: u32,
)
    ensures
        ({
            let ready = state.after_event(SteamWorkerEvent::Ready { server_id, initial });
            let failed = state.after_event(
                SteamWorkerEvent::Error { server_id: Some(server_id), message },
            );
            let lost = state.after_event(SteamWorkerEvent::Error { server_id: None, message });
            &&& ready.ready.contains(server_id) && failed.ready.contains(server_id)
            &&& state.ready.contains(other) ==> ready.ready.contains(other)
                && failed.ready.contains(other)
            &&& ready.ready.contains(other) ==> other == server_id || state.ready.contains(other)
            &&& lost == state
            &&& failed == (StateView { ready: failed.ready, ..state })
            &&& server_id != 0 ==> ready == (StateView { ready: ready.ready, ..state })
            &&& server_id == 0 ==> {
                &&& ready.policy.control_window == initial.focus_control.window
                &&& ready.policy.control_app_ids == initial.focus_control.app_ids@
                &&& ready.games_running == initial.games_running
                &&& ready.steam_max_height == initial.steam_max_height
                &&& ready.fps_limit == initial.fps_limit
                &&& ready.screen_scale == initial.screen_scale
                &&& ready.screen_magnification == initial.screen_magnification
                &&& state.has_limiter ==> ready.effects == state.effects.push(
                    Effect::WriteLimiter { enabled: initial.fps_limit > 0 },
                )
                &&& !state.has_limiter ==> ready.effects == state.effects
            }
        }),
{
    let before = state.ready;
    let after = before.push(server_id);
    assert(after[before.len() as int] == server_id);
    if before.contains(other) {
        let at = choose|i: int| 0 <= i < before.len() && before[i] == other;
        assert(after[at] == other);
    }
    let limited = seq![Effect::WriteLimiter { enabled: initial.fps_limit != 0 }];
    assert(state.effects + limited =~= state.effects.push(limited[0]));
    assert(state.effects + Seq::<Effect>::empty() =~= state.effects);
}

/// What the worker finds out about a window is kept for the window of that server's window
/// manager, and dropped where there is none. What Steam asks to have focused counts only on
/// the first server.
pub proof fn lemma_findings_are_kept(
    state: StateView,
    server_id: u32,
    window: u32,
    metadata: steam::WindowMetadata,
    control: FocusControl,
)
    ensures
        ({
            let read = state.after_event(
                SteamWorkerEvent::WindowMetadata { server_id, window, metadata },
            );
            let asked = state.after_event(SteamWorkerEvent::FocusControl { server_id, control });
            &&& match state.policy.xwm_of_server(server_id) {
                Some(xwm_id) => read.policy.metadata == state.policy.metadata.insert(
                    steam_worker::window_key(xwm_id, window),
                    metadata,
                ) && read.policy.windows == state.policy.windows && read.mailbox == state.mailbox,
                None => read == state,
            }
            &&& server_id == 0 ==> asked.policy.control_window == control.window
                && asked.policy.control_app_ids == control.app_ids@
            &&& server_id != 0 ==> asked == state
            &&& asked.policy.windows == state.policy.windows && asked.mailbox == state.mailbox
        }),
{
}

/// Focus is looked at again after reports exactly if one of them may change it: a server that
/// became ready, a window of a known server that was read, what the first server asks to have
/// focused, and the height that it gives Steam's windows.
pub proof fn lemma_reports_refresh_focus(
    state: StateView,
    events: Seq<SteamWorkerEvent>,
    event: SteamWorkerEvent,
)
    ensures
        state.events_dirty(events.push(event)) <==> state.events_dirty(events) || match event {
            SteamWorkerEvent::Ready { .. } => true,
            SteamWorkerEvent::WindowMetadata { server_id, .. } => exists|i: int|
                0 <= i < state.policy.servers.len() && (
                #[trigger] state.policy.servers[i]).server_id == server_id,
            SteamWorkerEvent::FocusControl { server_id, .. } => server_id == 0,
            SteamWorkerEvent::Event { server_id, event } => server_id == 0 && event
                is SteamMaxHeightChanged,
            SteamWorkerEvent::WindowAncestors { .. } => false,
            SteamWorkerEvent::ScreenScale { .. } => false,
            SteamWorkerEvent::Error { .. } => false,
        },
        !state.events_dirty(Seq::empty()),
        state.after_events(events.push(event)) == state.after_events(events).after_event(event),
        state.after_events(Seq::empty()) == state,
{
    let more = events.push(event);
    assert(more.drop_last() =~= events);
    assert(more.last() == event);
    lemma_reports_keep_windows(state, events);
    if let SteamWorkerEvent::WindowMetadata { server_id, .. } = event {
        let servers = state.policy.servers;
        let wanted = window_policy::is_server(server_id);
        lists::lemma_first_index_found(servers, wanted);
        if exists|i: int|
            0 <= i < servers.len() && (#[trigger] servers[i]).server_id == server_id {
            let at = choose|i: int|
                0 <= i < servers.len() && (#[trigger] servers[i]).server_id == server_id;
            assert(wanted(servers[at]));
        }
    }
}

/// A drawable belongs to the nearest of its ancestors that is a managed window of its server.
/// Once that is known, the drawable is no longer looked for, and what was to replace its
/// contents replaces those of the window.
pub proof fn lemma_drawables_find_their_window(
    state: StateView,
    server_id: u32,
    window: u32,
    ancestors: Seq<u32>,
    surface: u64,
    at: int,
)
    requires
        0 <= at < ancestors.len(),
        state.policy.managed(server_id).contains(ancestors[at]),
        forall|i: int|
            0 <= i < at ==> !state.policy.managed(server_id).contains(#[trigger] ancestors[i]),
    ensures
        ({
            let key = steam_worker::window_key(server_id, window);
            let place = steam_worker::window_key(server_id, ancestors[at]);
            let after = state.after_ancestors(server_id, window, ancestors);
            let overridden = state.with_override(surface, server_id, window).after_ancestors(
                server_id,
                window,
                ancestors,
            );
            &&& after.parents == state.parents.insert(key, ancestors[at])
            &&& after.resolving == state.resolving.remove(key)
            &&& after.override_target(server_id, window) == ancestors[at]
            &&& !state.parents.contains_key(key) ==> {
                &&& overridden.policy.content_overrides.contains_key(place)
                &&& overridden.policy.content_overrides[place] == surface
                &&& ancestors[at] != window
                    ==> !overridden.policy.content_overrides.contains_key(key)
            }
        }),
{
    let managed = state.policy.managed(server_id);
    assert forall|i: int| 0 <= i < at implies !steam::is_managed(managed)(
        #[trigger] ancestors[i],
    ) by {
        assert(!managed.contains(ancestors[i]));
    }
    lists::lemma_first_index(ancestors, steam::is_managed(managed), at);
    let key = steam_worker::window_key(server_id, window);
    let place = steam_worker::window_key(server_id, ancestors[at]);
    let replaced = state.with_override(surface, server_id, window);
    assert(replaced.policy.managed(server_id) == managed) by {
        assert(replaced.policy.windows.filter(
            window_policy::on_server(replaced.policy, server_id),
        ) =~= state.policy.windows.filter(window_policy::on_server(state.policy, server_id))) by {
            assert(window_policy::on_server(replaced.policy, server_id)
                =~= window_policy::on_server(state.policy, server_id));
        }
    }
    if ancestors[at] != window {
        assert(key != place) by {
            steam_worker::lemma_window_keys(server_id, window, server_id, ancestors[at]);
        }
    }
}

/// A drawable with no managed ancestor is no longer looked for, and nothing else changes.
pub proof fn lemma_lost_drawables_are_let_go(
    state: StateView,
    server_id: u32,
    window: u32,
    ancestors: Seq<u32>,
)
    requires
        forall|i: int|
            0 <= i < ancestors.len() ==> !state.policy.managed(server_id).contains(
                #[trigger] ancestors[i],
            ),
    ensures
        state.after_ancestors(server_id, window, ancestors) == (StateView {
            resolving: state.resolving.remove(steam_worker::window_key(server_id, window)),
            ..state
        }),
{
    let managed = state.policy.managed(server_id);
    assert forall|i: int| 0 <= i < ancestors.len() implies !steam::is_managed(managed)(
        #[trigger] ancestors[i],
    ) by {
        assert(!managed.contains(ancestors[i]));
    }
    lists::lemma_first_index(ancestors, steam::is_managed(managed), ancestors.len() as int);
}

/// New contents replace those of the window that a drawable is known to belong to, and else
/// of the drawable itself, whose ancestors are then asked for.
pub proof fn lemma_contents_are_replaced(
    state: StateView,
    surface: u64,
    server_id: u32,
    window: u32,
    parent: u32,
)
    ensures
        ({
            let key = steam_worker::window_key(server_id, window);
            let after = state.with_override(surface, server_id, window);
            let known = StateView { parents: state.parents.insert(key, parent), ..state };
            let replaced = known.with_override(surface, server_id, window);
            &&& !state.parents.contains_key(key) ==> {
                &&& after.policy.content_overrides == state.policy.content_overrides.insert(
                    key,
                    surface,
                )
                &&& after.resolving.contains_key(key)
                &&& !state.resolving.contains_key(key) ==> after.mailbox.commands
                    == state.mailbox.commands.push(
                    steam_worker::SteamWorkerCommand::ResolveWindow { server_id, window },
                )
                &&& state.resolving.contains_key(key) ==> after.mailbox == state.mailbox
            }
            &&& replaced.policy.content_overrides == state.policy.content_overrides.insert(
                steam_worker::window_key(server_id, parent),
                surface,
            )
            &&& parent != window ==> replaced.mailbox == state.mailbox && replaced.resolving
                == state.resolving
        }),
{
}

/// What becomes of a command: input that is to be typed, shader effects and private commands
/// are dealt with by the compositor, the last only while whoever asked is there to be
/// answered, and so is new content for a window. All others are passed on to the backend.
pub proof fn lemma_commands_are_dealt_with_or_passed_on(state: StateView, command: Command)
    ensures
        ({
            let after = state.after_gamescope_command(command);
            match command {
                Command::InputMethod(typed) => {
                    &&& !is_backend_command(command)
                    &&& after.effects == state.effects.push(Effect::InputMethod(typed))
                    &&& after == (StateView { effects: after.effects, ..state })
                },
                Command::ExecutePrivate { reply, .. } => {
                    &&& !is_backend_command(command)
                    &&& state.server.privates.contains(reply.0) ==> after.effects
                        == state.effects.push(
                        Effect::Send(ServerEvent::CommandExecuted { resource: reply.0 }),
                    )
                    &&& !state.server.privates.contains(reply.0) ==> after.effects
                        == state.effects
                    &&& after == (StateView { effects: after.effects, ..state })
                },
                Command::SetReshadeEffect { reply, path } => {
                    &&& !is_backend_command(command)
                    &&& after.effects == state.effects.push(Effect::EffectReady { reply, path })
                    &&& after == (StateView { effects: after.effects, ..state })
                },
                Command::OverrideWindowContent { surface, xwayland_server_id, x11_window } => {
                    &&& !is_backend_command(command)
                    &&& after == state.with_override(surface, xwayland_server_id, x11_window)
                },
                _ => is_backend_command(command) && after == state,
            }
        }),
{
    let after = state.after_gamescope_command(command);
    match command {
        Command::InputMethod(typed) => {
            assert(after.effects =~= state.effects.push(Effect::InputMethod(typed)));
        },
        Command::ExecutePrivate { reply, .. } => {
            if state.server.privates.contains(reply.0) {
                assert(after.effects =~= state.effects.push(
                    Effect::Send(ServerEvent::CommandExecuted { resource: reply.0 }),
                ));
            }
        },
        Command::SetReshadeEffect { reply, path } => {
            assert(after.effects =~= state.effects.push(Effect::EffectReady { reply, path }));
        },
        _ => {},
    }
}

/// Commands are dealt with one after the other, in the order in which they came.
pub proof fn lemma_commands_are_dealt_with_in_order(
    state: StateView,
    commands: Seq<Command>,
    command: Command,
)
    ensures
        state.after_gamescope_commands(commands.push(command))
            == state.after_gamescope_commands(commands).after_gamescope_command(command),
        state.after_gamescope_commands(Seq::empty()) == state,
        commands.push(command).filter(backend_commands()) == commands.filter(backend_commands()) + (
        if is_backend_command(command) {
            seq![command]
        } else {
            Seq::empty()
        }),
{
    let more = commands.push(command);
    assert(more.drop_last() =~= commands);
    assert(more.last() == command);
    reveal(Seq::filter);
}

/// A surface is presented if a layer shows it or it is the cursor's, and two neighbours among
/// the surfaces are never the same.
pub proof fn lemma_shown_surfaces_are_presented(
    state: StateView,
    cursor: Option<u64>,
    surface: u64,
)
    ensures
        ({
            let layers = state.policy.layers(state.fallback());
            let presented = state.presented_surfaces(cursor);
            &&& presented.contains(surface) <==> cursor == Some(surface) || exists|i: int|
                0 <= i < layers.len() && (#[trigger] layers[i]).surface == surface
            &&& forall|i: int| 0 < i < presented.len() ==> presented[i - 1] != #[trigger] presented[i]
        }),
{
    let layers = state.policy.layers(state.fallback());
    let shown = layer_surfaces(layers);
    let all = match cursor {
        Some(cursor) => shown.push(cursor),
        None => shown,
    };
    lemma_repeats_are_dropped(all, surface);
    assert(forall|i: int| 0 <= i < layers.len() ==> #[trigger] shown[i] == layers[i].surface);
    if let Some(cursor) = cursor {
        assert(all[shown.len() as int] == cursor);
    }
    if exists|i: int| 0 <= i < layers.len() && (#[trigger] layers[i]).surface == surface {
        let at = choose|i: int| 0 <= i < layers.len() && (#[trigger] layers[i]).surface == surface;
        assert(shown[at] == surface);
        assert(all[at] == surface);
    }
    if all.contains(surface) {
        let at = choose|i: int| 0 <= i < all.len() && all[i] == surface;
        if at < shown.len() {
            assert(layers[at].surface == shown[at]);
        }
    }
}

proof fn lemma_repeats_are_dropped(surfaces: Seq<u64>, surface: u64)
    ensures
        without_repeats(surfaces).contains(surface) <==> surfaces.contains(surface),
        forall|i: int|
            0 < i < without_repeats(surfaces).len() ==> without_repeats(surfaces)[i - 1]
                != #[trigger] without_repeats(surfaces)[i],
        surfaces.len() > 0 ==> without_repeats(surfaces).len() > 0 && without_repeats(
            surfaces,
        ).last() == surfaces.last(),
    decreases surfaces.len(),
{
    if surfaces.len() >= 2 {
        let init = surfaces.drop_last();
        let last = surfaces.last();
        lemma_repeats_are_dropped(init, surface);
        let before = without_repeats(init);
        let after = without_repeats(surfaces);
        assert(init.last() == surfaces[surfaces.len() - 2]);
        assert(surfaces =~= init.push(last));
        if init.contains(surface) {
            let at = choose|i: int| 0 <= i < init.len() && init[i] == surface;
            assert(surfaces[at] == surface);
        }
        assert(surfaces[surfaces.len() - 1] == last);
        if init.last() != last {
            assert(after == before.push(last));
            assert(after[before.len() as int] == last);
            if before.contains(surface) {
                let at = choose|i: int| 0 <= i < before.len() && before[i] == surface;
                assert(after[at] == surface);
            }
        } else {
            assert(init[init.len() - 1] == last);
        }
        if surfaces.contains(surface) && !init.contains(surface) {
            let at = choose|i: int| 0 <= i < surfaces.len() && surfaces[i] == surface;
            if at < init.len() {
                assert(init[at] == surface);
            }
        }
    }
}

/// A frame that was presented counts for the latest commit of the surface in front, which is
/// then settled, with all others left as they are; without one, nothing is settled and nobody
/// told. The frame has the backend's number, or the next one where the backend has none, and
/// the time in whole milliseconds.
pub proof fn lemma_presented_frames_settle_commits(
    state: StateView,
    at_ns: u128,
    refresh_ns: u128,
    sequence: u64,
    cursor: Option<u64>,
    presentation: Presentation,
    after: StateView,
) -> (at: int)
    requires
        state.is_presented(at_ns, refresh_ns, sequence, cursor, presentation, after),
    ensures
        after.frame_sequence == presentation.sequence,
        sequence != 0 ==> presentation.sequence == sequence,
        sequence == 0 && state.frame_sequence < u64::MAX ==> presentation.sequence
            == state.frame_sequence + 1,
        at_ns < 0x1_0000_0000 * 1_000_000 ==> presentation.callback_msec * 1_000_000 <= at_ns < (
        presentation.callback_msec + 1) * 1_000_000,
        at_ns >= 0x1_0000_0000 * 1_000_000 ==> presentation.callback_msec == 0xffff_ffff,
        match state.policy.primary(state.fallback()) {
            Some(surface) => {
                ||| {
                    &&& 0 <= at < state.commits.len()
                    &&& state.commits[at].surface == surface
                    &&& forall|i: int|
                        at < i < state.commits.len() ==> (#[trigger] state.commits[i]).surface
                            != surface
                    &&& after.commits == state.commits.remove(at)
                }
                ||| {
                    &&& forall|i: int|
                        0 <= i < state.commits.len() ==> (#[trigger] state.commits[i]).surface
                            != surface
                    &&& after.commits == state.commits && after.server == state.server
                    &&& presentation.events@.len() == 0
                }
            },
            None => {
                &&& after.commits == state.commits && after.server == state.server
                &&& presentation.events@.len() == 0
            },
        },
        after.policy == state.policy && after.effects == state.effects && after.keyboard_focus
            == state.keyboard_focus,
{
    if let Some(surface) = state.policy.primary(state.fallback()) {
        lemma_latest_commit_is_last(state.commits, surface);
    }
    state.presented_commit()
}

proof fn lemma_latest_commit_is_last(commits: Seq<PendingCommit>, surface: u64)
    ensures
        ({
            let at = last_commit(commits, surface);
            &&& -1 <= at < commits.len()
            &&& at >= 0 ==> commits[at].surface == surface
            &&& forall|i: int|
                at < i < commits.len() ==> (#[trigger] commits[i]).surface != surface
        }),
    decreases commits.len(),
{
    if commits.len() > 0 && commits.last().surface != surface {
        let init = commits.drop_last();
        lemma_latest_commit_is_last(init, surface);
        let at = last_commit(commits, surface);
        assert forall|i: int| at < i < commits.len() implies (
        #[trigger] commits[i]).surface != surface by {
            if i < init.len() {
                assert(init[i] == commits[i]);
            }
        }
        if at >= 0 {
            assert(init[at] == commits[at]);
        }
    }
}

/// Every swapchain of a presented commit's surface is told when it was presented, if the
/// commit has a number, and how long refresh takes, if that changed since it was last told.
/// Times that do not fit sixty-four bits are told as the longest that do.
pub proof fn lemma_swapchains_hear_of_presentation(
    state: StateView,
    commit: PendingCommit,
    at_ns: u128,
    refresh_ns: u128,
    events: Seq<ServerEvent>,
    after: ServerView,
    index: int,
    i: int,
)
    requires
        at_ns <= u64::MAX,
        refresh_ns <= u64::MAX,
        state.tells_presented(
            commit,
            limited_ns(at_ns),
            limited_ns(refresh_ns),
            events,
            after,
        ),
        0 <= index < state.server.surfaces.len(),
        state.server.surfaces[index].surface == commit.surface,
        forall|j: int|
            0 <= j < index ==> (#[trigger] state.server.surfaces[j]).surface != commit.surface,
        0 <= i < state.server.surfaces[index].resources.len(),
    ensures
        after.surfaces.len() == state.server.surfaces.len(),
        after.surfaces[index].last_refresh_cycle_ns == Some(refresh_ns as u64),
        after.surfaces[index].resources == state.server.surfaces[index].resources,
        forall|j: int|
            0 <= j < after.surfaces.len() && j != index ==> #[trigger] after.surfaces[j]
                == state.server.surfaces[j],
        ({
            let resources = state.server.surfaces[index].resources;
            let changed = state.server.surfaces[index].last_refresh_cycle_ns != Some(
                refresh_ns as u64,
            );
            let timed = commit.metadata.present_id is Some;
            let each = (if changed {
                1int
            } else {
                0
            }) + (if timed {
                1int
            } else {
                0
            });
            &&& events.len() == resources.len() * each
            &&& changed ==> (events[i * each] matches ServerEvent::RefreshCycle {
                resource,
                high,
                low,
            } && resource == resources[i] && high * 0x1_0000_0000 + low == refresh_ns)
            &&& timed ==> events[i * each + each - 1] == (ServerEvent::PastPresentTiming {
                resource: resources[i],
                timing: swapchain::PastPresentTiming {
                    present_id: commit.metadata.present_id->0,
                    desired_present_time_ns: commit.metadata.desired_present_time_ns,
                    actual_present_time_ns: at_ns as u64,
                    earliest_present_time_ns: at_ns as u64,
                    present_margin_ns: 0,
                },
            })
        }),
        limited_ns((u64::MAX as u128 + 1) as u128) == u64::MAX,
{
    let surfaces = state.server.surfaces;
    lists::lemma_first_index(surfaces, server::is_surface(commit.surface), index);
    let told = surfaces[index];
    let refresh = refresh_ns as u64;
    let time = at_ns as u64;
    server::lemma_presentations_reach_every_swapchain(
        told.resources,
        if told.last_refresh_cycle_ns != Some(refresh) {
            Some(refresh)
        } else {
            None
        },
        match commit.metadata.present_id {
            Some(present_id) => Some(
                swapchain::PastPresentTiming {
                    present_id,
                    desired_present_time_ns: commit.metadata.desired_present_time_ns,
                    actual_present_time_ns: time,
                    earliest_present_time_ns: time,
                    present_margin_ns: 0,
                },
            ),
            None => None,
        },
        i,
    );
}

/// A compositor starts with the output that it was given and with nothing else: no window, no
/// server, no focus, nothing to do, unscaled, and with ages that start at one.
pub proof fn lemma_states_start_empty(
    state: StateView,
    output_config: OutputConfig,
    steam_mode: bool,
    display: Option<ActiveDisplayView>,
)
    requires
        is_fresh(state, output_config, steam_mode, display),
    ensures
        state.policy.windows.len() == 0 && state.policy.servers.len() == 0,
        state.policy.steam_mode == steam_mode,
        state.policy.control_window is None && state.policy.control_app_ids.len() == 0,
        state.mailbox.commands.len() == 0 && state.mailbox.focus is None,
        state.displays.len() == 0 && state.first_display is None && state.ready.len() == 0,
        state.events.len() == 0 && state.effects.len() == 0 && state.commits.len() == 0,
        state.games_running == 0 && state.steam_max_height == 0 && state.fps_limit == 0,
        state.screen_scale == 0xffff_ffff && state.screen_magnification == 0xffff,
        state.next_sequence == 1 && state.frame_sequence == 0 && state.input_counter == 0,
        state.keyboard_focus is None && state.fallback() is None,
        !state.vt.enabled && !state.has_limiter,
        state.output matches Some(mode) ==> mode.width == output_config.spec_mode().width
            && mode.height == output_config.spec_mode().height && mode.refresh
            == output_config.spec_mode().refresh,
        state.output is Some,
{
    assert(state.policy.windows =~= Seq::<X11Window>::empty());
}

/// A display that stands for a window on another compositor claims no features and offers
/// one rate: the nearest in whole hertz.
pub proof fn lemma_nested_displays_are_plain(refresh_millihz: i32)
    ensures
        ({
            let display = nested_display(refresh_millihz);
            &&& display.connector_name == "gamescope"@ && display.display_make == "Valve"@
                && display.display_model == "Gamescope"@
            &&& display.flags == 0
            &&& display.valid_refresh_rates_hz.len() == 1
            &&& refresh_millihz >= 0 ==> -500 <= refresh_millihz - 1000
                * display.valid_refresh_rates_hz[0] <= 500
            &&& refresh_millihz <= -1500 ==> display.valid_refresh_rates_hz[0] == 60
        }),
{
}

/// Contents of other drawables, and of a drawable that none were to replace, stay as they are
/// when its window is found.
pub proof fn lemma_found_windows_keep_other_contents(
    state: StateView,
    server_id: u32,
    window: u32,
    ancestors: Seq<u32>,
)
    ensures
        ({
            let key = steam_worker::window_key(server_id, window);
            let before = state.policy.content_overrides;
            let after = state.after_ancestors(server_id, window, ancestors);
            &&& !before.contains_key(key) ==> after.policy.content_overrides == before
            &&& after.policy.windows == state.policy.windows && after.policy.metadata
                == state.policy.metadata && after.effects == state.effects && after.mailbox
                == state.mailbox
            &&& forall|other: u32|
                #![trigger steam_worker::window_key(server_id, other)]
                other != window && state.managed_ancestor(server_id, ancestors) != Some(other) ==> {
                    let place = steam_worker::window_key(server_id, other);
                    &&& before.contains_key(place) <==> after.policy.content_overrides.contains_key(
                        place,
                    )
                    &&& before.contains_key(place) ==> after.policy.content_overrides[place]
                        == before[place]
                }
        }),
{
    let before = state.policy.content_overrides;
    let after = state.after_ancestors(server_id, window, ancestors);
    assert forall|other: u32|
        #![trigger steam_worker::window_key(server_id, other)]
        other != window && state.managed_ancestor(server_id, ancestors) != Some(other) implies {
        let place = steam_worker::window_key(server_id, other);
        &&& before.contains_key(place) <==> after.policy.content_overrides.contains_key(place)
        &&& before.contains_key(place) ==> after.policy.content_overrides[place] == before[place]
    } by {
        steam_worker::lemma_window_keys(server_id, other, server_id, window);
        if let Some(parent) = state.managed_ancestor(server_id, ancestors) {
            steam_worker::lemma_window_keys(server_id, other, server_id, parent);
        }
    }
}

/// A size that a window asks for is used if it is asked for and fits, and else the size that
/// it has.
pub proof fn lemma_asked_sizes_are_used(requested: u32, current: i32)
    ensures
        requested <= 0x7fff_ffff ==> dimension_or(Some(requested), current) == requested,
        requested > 0x7fff_ffff ==> dimension_or(Some(requested), current) == current,
        dimension_or(None, current) == current,
{
}

/// Input is counted one by one, and the latest count is what the worker is to publish. The
/// count starts again from zero behind the highest number.
pub proof fn lemma_input_is_counted(state: StateView)
    ensures
        ({
            let after = state.with_input_counted();
            &&& state.input_counter < u32::MAX ==> after.input_counter == state.input_counter + 1
            &&& state.input_counter == u32::MAX ==> after.input_counter == 0
            &&& after.mailbox.input_counter == Some(after.input_counter)
            &&& after.mailbox.commands == state.mailbox.commands && after.effects == state.effects
        }),
{
}

/// A display of another server is kept when one is forgotten, and the display of that one is
/// not.
pub proof fn lemma_other_displays_are_kept(state: StateView, xwm_id: u32, server_id: u32, i: int)
    requires
        0 <= i < state.displays.len(),
    ensures
        state.without_xwayland(xwm_id, server_id).displays.contains(state.displays[i])
            <==> state.displays[i].server_id != server_id,
{
    let keep = other_display(server_id);
    let left = state.displays.filter(keep);
    if keep(state.displays[i]) {
        state.displays.lemma_filter_contains(keep, i);
    }
    if left.contains(state.displays[i]) {
        let at = choose|j: int| 0 <= j < left.len() && left[j] == state.displays[i];
        state.displays.lemma_filter_pred(keep, at);
    }
}

} // verus!
