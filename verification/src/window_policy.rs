//! Which X11 windows are shown, and which of them get input.

use vstd::prelude::*;

use crate::lists;
use crate::steam;
use crate::steam::{
    select_focus, select_override, FocusCandidate, FocusControl, WindowMetadata, OPAQUE,
};
use crate::steam_worker;
use crate::steam_worker::key_of_window;
use crate::tables::Table;

verus! {

/// An overlay is the Steam interface rather than a notification when it is wider than
/// this.
pub const OVERLAY_WIDTH: i32 = 1200;

/// An X11 window as the window manager sees it.
#[derive(Clone, Copy, Debug, PartialEq, Eq, Structural)]
pub struct X11Window {
    /// The window manager that the window belongs to.
    pub xwm_id: Option<u32>,
    pub window_id: u32,
    pub alive: bool,
    pub mapped: bool,
    pub override_redirect: bool,
    pub transient_for: Option<u32>,
    pub width: i32,
    pub height: i32,
    pub pid: Option<u32>,
    /// The Wayland surface that Xwayland has associated with the window.
    pub surface: Option<u64>,
}

/// Whether a window has the given identity.
#[must_use]
pub fn x11_window_identity_matches(
    candidate_xwm_id: Option<u32>,
    candidate_window_id: u32,
    xwm_id: u32,
    window_id: u32,
) -> (matches: bool)
    ensures
        matches == (candidate_xwm_id == Some(xwm_id) && candidate_window_id == window_id),
{
    match candidate_xwm_id {
        Some(candidate) => candidate == xwm_id && candidate_window_id == window_id,
        None => false,
    }
}

impl X11Window {
    pub open spec fn has_identity(self, xwm_id: u32, window_id: u32) -> bool {
        self.xwm_id == Some(xwm_id) && self.window_id == window_id
    }

    /// Live windows with the same identity are the same; a dead window is the same as
    /// none, not even as itself.
    pub open spec fn same_as(self, other: X11Window) -> bool {
        self.xwm_id == other.xwm_id && self.window_id == other.window_id && self.alive
            && other.alive
    }

    /// Whether two windows are the same live window.
    #[must_use]
    pub fn is_same(&self, other: &X11Window) -> (same: bool)
        ensures
            same == self.same_as(*other),
    {
        let same_xwm = match (self.xwm_id, other.xwm_id) {
            (Some(left), Some(right)) => left == right,
            (None, None) => true,
            _ => false,
        };
        same_xwm && self.window_id == other.window_id && self.alive && other.alive
    }
}

/// The Xwayland server that a window manager belongs to.
#[derive(Clone, Copy, Debug, PartialEq, Eq, Structural)]
pub struct XwmServer {
    pub xwm_id: u32,
    pub server_id: u32,
}

/// A surface selected for composition.
#[derive(Clone, Copy, Debug, PartialEq, Eq, Structural)]
pub struct RenderLayer {
    pub surface: u64,
    /// In units of [`OPAQUE`].
    pub opacity: u32,
    /// The layer contains per-pixel transparency and must not occlude lower
    /// layers based solely on Xwayland's opaque-region hint.
    pub force_blend: bool,
}

/// What a window is looked for as.
#[derive(Clone, Copy, Debug, PartialEq, Eq, Structural)]
pub enum WindowRole {
    /// The video of a streaming client on the given server.
    StreamVideo { server_id: u32 },
    /// The Steam interface.
    PrimaryOverlay,
    /// Another overlay than the Steam interface.
    Notification { interface: Option<X11Window> },
    ExternalOverlay,
    /// The Steam interface while it wants input.
    InputOverlay,
}

/// The windows and what is known of them.
pub struct WindowPolicy {
    windows: Vec<X11Window>,
    metadata: Table<WindowMetadata>,
    sequences: Table<u64>,
    servers: Vec<XwmServer>,
    content_overrides: Table<u64>,
    focus_control: FocusControl,
    steam_mode: bool,
}

/// What the policy knows.
#[verifier::ext_equal]
pub struct PolicyView {
    /// Windows, oldest first.
    pub windows: Seq<X11Window>,
    /// Metadata by window manager and window.
    pub metadata: Map<u64, WindowMetadata>,
    /// Age by window manager and window.
    pub sequences: Map<u64, u64>,
    pub servers: Seq<XwmServer>,
    /// Surfaces that replace the contents of windows, by server and window.
    pub content_overrides: Map<u64, u64>,
    pub control_window: Option<u32>,
    pub control_app_ids: Seq<u32>,
    pub steam_mode: bool,
}

impl View for WindowPolicy {
    type V = PolicyView;

    closed spec fn view(&self) -> PolicyView {
        PolicyView {
            windows: self.windows@,
            metadata: self.metadata@,
            sequences: self.sequences@,
            servers: self.servers@,
            content_overrides: self.content_overrides@,
            control_window: self.focus_control.window,
            control_app_ids: self.focus_control.app_ids@,
            steam_mode: self.steam_mode,
        }
    }
}

/// The predicate of being the server of a window manager.
pub open spec fn is_xwm(xwm_id: u32) -> spec_fn(XwmServer) -> bool {
    |entry: XwmServer| entry.xwm_id == xwm_id
}

/// The predicate of being a window manager of a server.
pub open spec fn is_server(server_id: u32) -> spec_fn(XwmServer) -> bool {
    |entry: XwmServer| entry.server_id == server_id
}

/// The predicate of being a candidate for the base layer.
pub open spec fn is_candidate(policy: PolicyView) -> spec_fn(X11Window) -> bool {
    |window: X11Window| policy.candidate(window) is Some
}

/// The projection of candidates into the focus policy.
pub open spec fn to_candidate(policy: PolicyView) -> spec_fn(X11Window) -> FocusCandidate {
    |window: X11Window| policy.candidate(window).unwrap()
}

/// The predicate of being the live window of a candidate.
pub open spec fn is_chosen(policy: PolicyView, chosen: FocusCandidate) -> spec_fn(
    X11Window,
) -> bool {
    |window: X11Window|
        window.alive && policy.server_of(window) == chosen.server_id && window.window_id
            == chosen.window_id
}

/// The predicate of having a role.
pub open spec fn has_role(policy: PolicyView, role: WindowRole) -> spec_fn(X11Window) -> bool {
    |window: X11Window| policy.fits(role, window)
}

/// The order among the windows with a role.
pub open spec fn role_rank(policy: PolicyView, role: WindowRole) -> spec_fn(X11Window) -> int {
    |window: X11Window| policy.rank(role, window)
}

/// A layer of a window that covers others.
pub open spec fn blended_layer(surface: Option<u64>, opacity: u32) -> Seq<RenderLayer> {
    match surface {
        Some(surface) => if opacity != 0 {
            seq![RenderLayer { surface, opacity, force_blend: true }]
        } else {
            Seq::empty()
        },
        None => Seq::empty(),
    }
}

/// A layer that nothing needs to shine through.
pub open spec fn base_layer(surface: Option<u64>) -> Seq<RenderLayer> {
    match surface {
        Some(surface) => seq![RenderLayer { surface, opacity: OPAQUE, force_blend: false }],
        None => Seq::empty(),
    }
}

impl PolicyView {
    /// The server of a window manager.
    pub open spec fn server_of_xwm(self, xwm_id: u32) -> Option<u32> {
        let index = lists::first_index(self.servers, is_xwm(xwm_id));
        if index < self.servers.len() {
            Some(self.servers[index].server_id)
        } else {
            None
        }
    }

    /// The window manager of a server.
    pub open spec fn xwm_of_server(self, server_id: u32) -> Option<u32> {
        let index = lists::first_index(self.servers, is_server(server_id));
        if index < self.servers.len() {
            Some(self.servers[index].xwm_id)
        } else {
            None
        }
    }

    /// The server of a window, the first one if its window manager is unknown.
    pub open spec fn server_of(self, window: X11Window) -> u32 {
        match window.xwm_id {
            Some(xwm_id) => match self.server_of_xwm(xwm_id) {
                Some(server_id) => server_id,
                None => 0,
            },
            None => 0,
        }
    }

    pub open spec fn metadata_of(self, window: X11Window) -> WindowMetadata {
        match window.xwm_id {
            Some(xwm_id) => {
                let key = steam_worker::window_key(xwm_id, window.window_id);
                if self.metadata.contains_key(key) {
                    self.metadata[key]
                } else {
                    steam::plain_metadata()
                }
            },
            None => steam::plain_metadata(),
        }
    }

    pub open spec fn sequence_of(self, window: X11Window) -> u64 {
        match window.xwm_id {
            Some(xwm_id) => {
                let key = steam_worker::window_key(xwm_id, window.window_id);
                if self.sequences.contains_key(key) {
                    self.sequences[key]
                } else {
                    0
                }
            },
            None => 0,
        }
    }

    /// A live window that may have the base layer, projected into the focus policy.
    pub open spec fn candidate(self, window: X11Window) -> Option<FocusCandidate> {
        let metadata = self.metadata_of(window);
        if window.alive && window.xwm_id is Some && metadata.focusable() {
            Some(
                FocusCandidate {
                    server_id: self.server_of(window),
                    window_id: window.window_id,
                    app_id: metadata.app(self.steam_mode, window.window_id),
                    mapped: window.mapped,
                    override_redirect: window.override_redirect,
                    transient_for: window.transient_for,
                    width: window.width,
                    height: window.height,
                    sequence: self.sequence_of(window),
                },
            )
        } else {
            None
        }
    }

    pub open spec fn candidates(self) -> Seq<FocusCandidate> {
        self.windows.filter(is_candidate(self)).map_values(to_candidate(self))
    }

    /// The live window of a candidate.
    pub open spec fn chosen_window(self, chosen: Option<FocusCandidate>) -> Option<X11Window> {
        match chosen {
            Some(chosen) => {
                let index = lists::first_index(self.windows, is_chosen(self, chosen));
                if index < self.windows.len() {
                    Some(self.windows[index])
                } else {
                    None
                }
            },
            None => None,
        }
    }

    /// The window that has the base layer.
    pub open spec fn selected_window(self) -> Option<X11Window> {
        self.chosen_window(
            steam::focus_choice(self.candidates(), self.control_window, self.control_app_ids),
        )
    }

    /// The popup that covers a window.
    pub open spec fn override_window(self, focus: X11Window) -> Option<X11Window> {
        match self.candidate(focus) {
            Some(candidate) => self.chosen_window(
                steam::override_choice(candidate, self.candidates()),
            ),
            None => None,
        }
    }

    /// Whether a window has a role.
    pub open spec fn fits(self, role: WindowRole, window: X11Window) -> bool {
        let metadata = self.metadata_of(window);
        window.mapped && match role {
            WindowRole::StreamVideo { server_id } => self.server_of(window) == server_id
                && metadata.streaming_client_video,
            WindowRole::PrimaryOverlay => window.width > OVERLAY_WIDTH && metadata.overlay,
            WindowRole::Notification { interface } => metadata.overlay && !(
            interface matches Some(interface) && interface.same_as(window)),
            WindowRole::ExternalOverlay => metadata.external_overlay,
            WindowRole::InputOverlay => window.width > OVERLAY_WIDTH && metadata.overlay
                && metadata.input_focus_mode != 0,
        }
    }

    /// The order among the windows with a role: streams and notifications by recency,
    /// overlays by opacity.
    pub open spec fn rank(self, role: WindowRole, window: X11Window) -> int {
        match role {
            WindowRole::StreamVideo { .. } | WindowRole::Notification { .. } => {
                self.sequence_of(window) as int
            },
            _ => self.metadata_of(window).opacity as int,
        }
    }

    /// The window with a role that ranks highest, the last known one of several.
    pub open spec fn window_in_role(self, role: WindowRole) -> Option<X11Window> {
        lists::last_max(self.windows, has_role(self, role), role_rank(self, role))
    }

    /// The window whose pixels are the base layer: the video of a streaming client in
    /// place of the client itself.
    pub open spec fn base_window(self) -> Option<X11Window> {
        match self.selected_window() {
            Some(focus) => if self.metadata_of(focus).streaming_client {
                match self.window_in_role(
                    WindowRole::StreamVideo { server_id: self.server_of(focus) },
                ) {
                    Some(video) => Some(video),
                    None => Some(focus),
                }
            } else {
                Some(focus)
            },
            None => None,
        }
    }

    /// The surface that carries the pixels of a window.
    pub open spec fn render_surface(self, window: X11Window) -> Option<u64> {
        let key = steam_worker::window_key(self.server_of(window), window.window_id);
        if self.content_overrides.contains_key(key) {
            Some(self.content_overrides[key])
        } else {
            window.surface
        }
    }

    pub open spec fn surface_in_role(self, window: Option<X11Window>) -> Option<u64> {
        match window {
            Some(window) => self.render_surface(window),
            None => None,
        }
    }

    /// The surface to show as the base: that of the base window, or the one that stands in
    /// for it.
    pub open spec fn primary(self, fallback: Option<u64>) -> Option<u64> {
        match self.surface_in_role(self.base_window()) {
            Some(surface) => Some(surface),
            None => fallback,
        }
    }

    /// The layers of a frame from bottom to top: the base, its popup, a notification, the
    /// Steam interface and an external overlay. Invisible overlays are left out.
    pub open spec fn layers(self, fallback: Option<u64>) -> Seq<RenderLayer> {
        match self.selected_window() {
            Some(focus) => {
                let popup = self.override_window(focus);
                let interface = self.window_in_role(WindowRole::PrimaryOverlay);
                let notification = self.window_in_role(WindowRole::Notification { interface });
                let external = self.window_in_role(WindowRole::ExternalOverlay);
                base_layer(self.surface_in_role(self.base_window())) + blended_layer(
                    self.surface_in_role(popup),
                    OPAQUE,
                ) + self.overlay_layer(notification) + self.overlay_layer(interface)
                    + self.overlay_layer(external)
            },
            None => base_layer(self.primary(fallback)),
        }
    }

    pub open spec fn overlay_layer(self, window: Option<X11Window>) -> Seq<RenderLayer> {
        match window {
            Some(window) => blended_layer(
                self.render_surface(window),
                self.metadata_of(window).opacity,
            ),
            None => Seq::empty(),
        }
    }

    /// The window that gets the keyboard: the Steam interface unless it asks for the
    /// pointer alone, else the popup of the base window, else the base window.
    pub open spec fn keyboard_window(self) -> Option<X11Window> {
        match self.selected_window() {
            Some(focus) => match self.window_in_role(WindowRole::InputOverlay) {
                Some(overlay) if self.metadata_of(overlay).input_focus_mode != 2 => Some(overlay),
                _ => match self.override_window(focus) {
                    Some(popup) => Some(popup),
                    None => Some(focus),
                },
            },
            None => None,
        }
    }

    /// The X11 surface that gets the pointer.
    pub open spec fn pointer_surface(self) -> Option<u64> {
        match self.window_in_role(WindowRole::InputOverlay) {
            Some(overlay) => overlay.surface,
            None => match self.selected_window() {
                Some(focus) => match self.override_window(focus) {
                    Some(popup) if popup.surface is Some => popup.surface,
                    _ => focus.surface,
                },
                None => None,
            },
        }
    }

    /// The surface that gets input when no other does.
    pub open spec fn primary_input(self, fallback: Option<u64>) -> Option<u64> {
        match self.selected_window() {
            Some(focus) => focus.surface,
            None => fallback,
        }
    }
}

fn first_of(first: Option<u64>, second: Option<u64>) -> (either: Option<u64>)
    ensures
        either == (if first is Some {
            first
        } else {
            second
        }),
{
    if first.is_some() {
        first
    } else {
        second
    }
}

fn push_blended(layers: &mut Vec<RenderLayer>, surface: Option<u64>, opacity: u32)
    ensures
        final(layers)@ == old(layers)@ + blended_layer(surface, opacity),
{
    if let Some(surface) = surface {
        if opacity != 0 {
            layers.push(RenderLayer { surface, opacity, force_blend: true });
        }
    }
    assert(layers@ =~= old(layers)@ + blended_layer(surface, opacity));
}

fn push_base(layers: &mut Vec<RenderLayer>, surface: Option<u64>)
    ensures
        final(layers)@ == old(layers)@ + base_layer(surface),
{
    if let Some(surface) = surface {
        layers.push(RenderLayer { surface, opacity: OPAQUE, force_blend: false });
    }
    assert(layers@ =~= old(layers)@ + base_layer(surface));
}

impl WindowPolicy {
    /// A policy without windows.
    #[must_use]
    pub fn new(steam_mode: bool) -> (policy: Self)
        ensures
            policy@ == (PolicyView {
                windows: Seq::empty(),
                metadata: Map::empty(),
                sequences: Map::empty(),
                servers: Seq::empty(),
                content_overrides: Map::empty(),
                control_window: None,
                control_app_ids: Seq::empty(),
                steam_mode,
            }),
    {
        Self {
            windows: Vec::new(),
            metadata: Table::new(),
            sequences: Table::new(),
            servers: Vec::new(),
            content_overrides: Table::new(),
            focus_control: FocusControl::default(),
            steam_mode,
        }
    }

    /// The windows, oldest first.
    #[must_use]
    pub fn windows(&self) -> (windows: &Vec<X11Window>)
        ensures
            windows@ == self@.windows,
    {
        &self.windows
    }

    /// The server of a window manager.
    #[must_use]
    pub fn server_for_xwm(&self, xwm_id: u32) -> (server_id: Option<u32>)
        ensures
            server_id == self@.server_of_xwm(xwm_id),
    {
        let ghost wanted = is_xwm(xwm_id);
        let mut i: usize = 0;
        while i < self.servers.len()
            invariant
                i <= self.servers@.len(),
                wanted == is_xwm(xwm_id),
                forall|j: int| 0 <= j < i ==> !wanted(#[trigger] self.servers@[j]),
            decreases self.servers@.len() - i,
        {
            if self.servers[i].xwm_id == xwm_id {
                proof {
                    lists::lemma_first_index(self.servers@, wanted, i as int);
                }
                return Some(self.servers[i].server_id);
            }
            i = i + 1;
        }
        proof {
            lists::lemma_first_index(self.servers@, wanted, i as int);
        }
        None
    }

    /// The window manager of a server.
    #[must_use]
    pub fn xwm_for_server(&self, server_id: u32) -> (xwm_id: Option<u32>)
        ensures
            xwm_id == self@.xwm_of_server(server_id),
    {
        let ghost wanted = is_server(server_id);
        let mut i: usize = 0;
        while i < self.servers.len()
            invariant
                i <= self.servers@.len(),
                wanted == is_server(server_id),
                forall|j: int| 0 <= j < i ==> !wanted(#[trigger] self.servers@[j]),
            decreases self.servers@.len() - i,
        {
            if self.servers[i].server_id == server_id {
                proof {
                    lists::lemma_first_index(self.servers@, wanted, i as int);
                }
                return Some(self.servers[i].xwm_id);
            }
            i = i + 1;
        }
        proof {
            lists::lemma_first_index(self.servers@, wanted, i as int);
        }
        None
    }

    /// The server of a window.
    #[must_use]
    pub fn server_id_for(&self, window: &X11Window) -> (server_id: u32)
        ensures
            server_id == self@.server_of(*window),
    {
        match window.xwm_id {
            Some(xwm_id) => match self.server_for_xwm(xwm_id) {
                Some(server_id) => server_id,
                None => 0,
            },
            None => 0,
        }
    }

    /// What is known of a window.
    #[must_use]
    pub fn metadata_for(&self, window: &X11Window) -> (metadata: WindowMetadata)
        ensures
            metadata == self@.metadata_of(*window),
    {
        match window.xwm_id {
            Some(xwm_id) => match self.metadata.get(key_of_window(xwm_id, window.window_id)) {
                Some(metadata) => *metadata,
                None => WindowMetadata::default(),
            },
            None => WindowMetadata::default(),
        }
    }

    fn sequence_for(&self, window: &X11Window) -> (sequence: u64)
        ensures
            sequence == self@.sequence_of(*window),
    {
        match window.xwm_id {
            Some(xwm_id) => match self.sequences.get(key_of_window(xwm_id, window.window_id)) {
                Some(sequence) => *sequence,
                None => 0,
            },
            None => 0,
        }
    }

    /// Project a window into the focus policy.
    #[must_use]
    pub fn focus_candidate(&self, window: &X11Window) -> (candidate: Option<FocusCandidate>)
        ensures
            candidate == self@.candidate(*window),
    {
        if !window.alive || window.xwm_id.is_none() {
            return None;
        }
        let metadata = self.metadata_for(window);
        if !metadata.is_focus_candidate() {
            return None;
        }
        Some(
            FocusCandidate {
                server_id: self.server_id_for(window),
                window_id: window.window_id,
                app_id: metadata.effective_app_id(self.steam_mode, window.window_id),
                mapped: window.mapped,
                override_redirect: window.override_redirect,
                transient_for: window.transient_for,
                width: window.width,
                height: window.height,
                sequence: self.sequence_for(window),
            },
        )
    }

    fn focus_candidates(&self) -> (candidates: Vec<FocusCandidate>)
        ensures
            candidates@ == self@.candidates(),
    {
        let ghost windows = self.windows@;
        let ghost wanted = is_candidate(self@);
        let ghost project = to_candidate(self@);
        let mut candidates: Vec<FocusCandidate> = Vec::new();
        let mut i: usize = 0;
        proof {
            lists::lemma_filter_empty(windows.take(0), wanted);
        }
        assert(candidates@ =~= windows.take(0).filter(wanted).map_values(project));
        while i < self.windows.len()
            invariant
                i <= self.windows@.len(),
                windows == self.windows@,
                wanted == is_candidate(self@),
                project == to_candidate(self@),
                candidates@ == windows.take(i as int).filter(wanted).map_values(project),
            decreases self.windows@.len() - i,
        {
            proof {
                lists::lemma_filter_take_next(windows, wanted, i as int);
            }
            let ghost before = candidates@;
            if let Some(candidate) = self.focus_candidate(&self.windows[i]) {
                candidates.push(candidate);
                assert(candidates@ =~= windows.take(i + 1).filter(wanted).map_values(project));
            }
            i = i + 1;
        }
        assert(windows.take(i as int) =~= windows);
        candidates
    }

    fn window_of(&self, choice: Option<FocusCandidate>) -> (window: Option<X11Window>)
        ensures
            window == self@.chosen_window(choice),
    {
        let chosen = match choice {
            Some(chosen) => chosen,
            None => {
                return None;
            },
        };
        let ghost windows = self.windows@;
        let ghost wanted = is_chosen(self@, chosen);
        let mut i: usize = 0;
        while i < self.windows.len()
            invariant
                i <= self.windows@.len(),
                choice == Some(chosen),
                windows == self.windows@,
                wanted == is_chosen(self@, chosen),
                forall|j: int| 0 <= j < i ==> !wanted(#[trigger] windows[j]),
            decreases self.windows@.len() - i,
        {
            let window = self.windows[i];
            if window.alive && self.server_id_for(&window) == chosen.server_id && window.window_id
                == chosen.window_id {
                proof {
                    lists::lemma_first_index(windows, wanted, i as int);
                }
                return Some(window);
            }
            i = i + 1;
        }
        proof {
            lists::lemma_first_index(windows, wanted, i as int);
        }
        None
    }

    /// The window that has the base layer.
    #[must_use]
    pub fn selected_x11_window(&self) -> (window: Option<X11Window>)
        ensures
            window == self@.selected_window(),
    {
        let candidates = self.focus_candidates();
        self.window_of(select_focus(candidates.as_slice(), &self.focus_control))
    }

    /// The popup that covers a window.
    #[must_use]
    pub fn selected_override(&self, focus: &X11Window) -> (window: Option<X11Window>)
        ensures
            window == self@.override_window(*focus),
    {
        match self.focus_candidate(focus) {
            Some(candidate) => {
                let candidates = self.focus_candidates();
                self.window_of(select_override(candidate, candidates.as_slice()))
            },
            None => None,
        }
    }

    fn has_role(&self, role: WindowRole, window: &X11Window) -> (fits: bool)
        ensures
            fits == self@.fits(role, *window),
    {
        let metadata = self.metadata_for(window);
        window.mapped && match role {
            WindowRole::StreamVideo { server_id } => self.server_id_for(window) == server_id
                && metadata.streaming_client_video,
            WindowRole::PrimaryOverlay => window.width > OVERLAY_WIDTH && metadata.overlay,
            WindowRole::Notification { interface } => metadata.overlay && !match interface {
                Some(interface) => interface.is_same(window),
                None => false,
            },
            WindowRole::ExternalOverlay => metadata.external_overlay,
            WindowRole::InputOverlay => window.width > OVERLAY_WIDTH && metadata.overlay
                && metadata.input_focus_mode != 0,
        }
    }

    fn rank_in_role(&self, role: WindowRole, window: &X11Window) -> (rank: u64)
        ensures
            rank == self@.rank(role, *window),
    {
        match role {
            WindowRole::StreamVideo { .. } | WindowRole::Notification { .. } => self.sequence_for(
                window,
            ),
            _ => self.metadata_for(window).opacity as u64,
        }
    }

    /// The first window in a role.
    #[must_use]
    pub fn window_with_role(&self, role: WindowRole) -> (window: Option<X11Window>)
        ensures
            window == self@.window_in_role(role),
    {
        let ghost windows = self.windows@;
        let ghost wanted = has_role(self@, role);
        let ghost rank = role_rank(self@, role);
        let mut best: Option<X11Window> = None;
        let mut i: usize = 0;
        while i < self.windows.len()
            invariant
                i <= self.windows@.len(),
                windows == self.windows@,
                wanted == has_role(self@, role),
                rank == role_rank(self@, role),
                best == lists::last_max(windows.take(i as int), wanted, rank),
            decreases self.windows@.len() - i,
        {
            proof {
                lists::lemma_last_max_take_next(windows, wanted, rank, i as int);
            }
            let window = self.windows[i];
            if self.has_role(role, &window) {
                let better = match best {
                    Some(best) => self.rank_in_role(role, &best) <= self.rank_in_role(
                        role,
                        &window,
                    ),
                    None => true,
                };
                if better {
                    best = Some(window);
                }
            }
            i = i + 1;
        }
        assert(windows.take(i as int) =~= windows);
        best
    }

    /// The window whose pixels are the base layer.
    #[must_use]
    pub fn base_render_window(&self) -> (window: Option<X11Window>)
        ensures
            window == self@.base_window(),
    {
        match self.selected_x11_window() {
            Some(focus) => {
                if !self.metadata_for(&focus).streaming_client {
                    return Some(focus);
                }
                let server_id: u32 = self.server_id_for(&focus);
                match self.window_with_role(WindowRole::StreamVideo { server_id }) {
                    Some(video) => Some(video),
                    None => Some(focus),
                }
            },
            None => None,
        }
    }

    /// Surface carrying pixels for an X11 window. The WSI layer may replace Xwayland's
    /// normally blank surface with a private Vulkan surface.
    #[must_use]
    pub fn render_surface_for_x11(&self, window: &X11Window) -> (surface: Option<u64>)
        ensures
            surface == self@.render_surface(*window),
    {
        match self.content_overrides.get(
            key_of_window(self.server_id_for(window), window.window_id),
        ) {
            Some(surface) => Some(*surface),
            None => window.surface,
        }
    }

    fn surface_of(&self, window: &Option<X11Window>) -> (surface: Option<u64>)
        ensures
            surface == self@.surface_in_role(*window),
    {
        match window {
            Some(window) => self.render_surface_for_x11(window),
            None => None,
        }
    }

    /// The surface to composite as the primary game layer. `fallback` is the focused
    /// Wayland surface or the latest toplevel.
    #[must_use]
    pub fn primary_surface(&self, fallback: Option<u64>) -> (surface: Option<u64>)
        ensures
            surface == self@.primary(fallback),
    {
        first_of(self.surface_of(&self.base_render_window()), fallback)
    }

    fn push_overlay(&self, layers: &mut Vec<RenderLayer>, window: &Option<X11Window>)
        ensures
            final(layers)@ == old(layers)@ + self@.overlay_layer(*window),
    {
        if let Some(window) = window {
            push_blended(
                layers,
                self.render_surface_for_x11(window),
                self.metadata_for(window).opacity,
            );
        }
        assert(layers@ =~= old(layers)@ + self@.overlay_layer(*window));
    }

    /// All layers selected for the current frame, bottom to top.
    #[must_use]
    pub fn render_layers(&self, fallback: Option<u64>) -> (layers: Vec<RenderLayer>)
        ensures
            layers@ == self@.layers(fallback),
            shows_what_is_visible(self@, fallback, layers@),
    {
        let mut layers: Vec<RenderLayer> = Vec::new();
        match self.selected_x11_window() {
            Some(focus) => {
                let popup = self.selected_override(&focus);
                let interface = self.window_with_role(WindowRole::PrimaryOverlay);
                let notification = self.window_with_role(WindowRole::Notification { interface });
                let external = self.window_with_role(WindowRole::ExternalOverlay);
                push_base(&mut layers, self.surface_of(&self.base_render_window()));
                push_blended(&mut layers, self.surface_of(&popup), OPAQUE);
                self.push_overlay(&mut layers, &notification);
                self.push_overlay(&mut layers, &interface);
                self.push_overlay(&mut layers, &external);
            },
            None => {
                push_base(&mut layers, self.primary_surface(fallback));
            },
        }
        assert(layers@ =~= self@.layers(fallback));
        proof {
            lemma_layers_show_what_is_visible(self@, fallback);
        }
        layers
    }

    /// The window that gets the keyboard.
    #[must_use]
    pub fn keyboard_x11_window(&self) -> (window: Option<X11Window>)
        ensures
            window == self@.keyboard_window(),
            is_in_front(self@, window),
    {
        proof {
            lemma_input_goes_to_the_front(self@);
        }
        match self.selected_x11_window() {
            Some(focus) => {
                if let Some(overlay) = self.window_with_role(WindowRole::InputOverlay) {
                    if self.metadata_for(&overlay).input_focus_mode != 2 {
                        return Some(overlay);
                    }
                }
                match self.selected_override(&focus) {
                    Some(popup) => Some(popup),
                    None => Some(focus),
                }
            },
            None => None,
        }
    }

    /// Surface carrying input for the pointer. Content overrides affect buffer submission
    /// only; Xwayland retains keyboard, pointer, touch, gesture, and cursor ownership.
    #[must_use]
    pub fn pointer_focus_surface(&self) -> (surface: Option<u64>)
        ensures
            surface == self@.pointer_surface(),
    {
        if let Some(overlay) = self.window_with_role(WindowRole::InputOverlay) {
            return overlay.surface;
        }
        match self.selected_x11_window() {
            Some(focus) => {
                let popup: Option<u64> = match self.selected_override(&focus) {
                    Some(popup) => popup.surface,
                    None => None,
                };
                first_of(popup, focus.surface)
            },
            None => None,
        }
    }

    /// The surface that gets input when no other does.
    #[must_use]
    pub fn primary_input_surface(&self, fallback: Option<u64>) -> (surface: Option<u64>)
        ensures
            surface == self@.primary_input(fallback),
    {
        match self.selected_x11_window() {
            Some(focus) => focus.surface,
            None => fallback,
        }
    }
}

/// The predicate of not being a dead window with the given identity.
pub open spec fn not_dead_twin(xwm_id: u32, window_id: u32) -> spec_fn(X11Window) -> bool {
    |window: X11Window| !window.has_identity(xwm_id, window_id) || window.alive
}

/// The predicate of having the given identity.
pub open spec fn is_window(xwm_id: u32, window_id: u32) -> spec_fn(X11Window) -> bool {
    |window: X11Window| window.has_identity(xwm_id, window_id)
}

/// The predicate of having another identity.
pub open spec fn not_window(xwm_id: u32, window_id: u32) -> spec_fn(X11Window) -> bool {
    |window: X11Window| !window.has_identity(xwm_id, window_id)
}

/// The predicate of belonging to another window manager.
pub open spec fn not_of_xwm(xwm_id: u32) -> spec_fn(X11Window) -> bool {
    |window: X11Window| window.xwm_id != Some(xwm_id)
}

/// The predicate of being another window manager.
pub open spec fn not_xwm(xwm_id: u32) -> spec_fn(XwmServer) -> bool {
    |entry: XwmServer| entry.xwm_id != xwm_id
}

/// The predicate of belonging to a server.
pub open spec fn on_server(policy: PolicyView, server_id: u32) -> spec_fn(X11Window) -> bool {
    |window: X11Window| policy.server_of(window) == server_id
}

/// The windows once a window has shown itself: a dead one with its identity is forgotten,
/// and the window is added unless it is known. X11 reuses identities, so that an old
/// window must not shadow a new one.
pub open spec fn remembered(windows: Seq<X11Window>, window: X11Window) -> Seq<X11Window> {
    match window.xwm_id {
        Some(xwm_id) => {
            let kept = windows.filter(not_dead_twin(xwm_id, window.window_id));
            if lists::first_index(kept, is_window(xwm_id, window.window_id)) < kept.len() {
                kept
            } else {
                kept.push(window)
            }
        },
        None => windows,
    }
}

/// The server of a window manager is replaced, or added at the end.
pub open spec fn with_server(
    servers: Seq<XwmServer>,
    xwm_id: u32,
    server_id: u32,
) -> Seq<XwmServer> {
    let index = lists::first_index(servers, is_xwm(xwm_id));
    if index < servers.len() {
        servers.update(index, XwmServer { xwm_id, server_id })
    } else {
        servers.push(XwmServer { xwm_id, server_id })
    }
}

/// The latest state of a window among the given ones, or the state known so far.
pub open spec fn refreshed_window(window: X11Window, current: Seq<X11Window>) -> X11Window {
    match window.xwm_id {
        Some(xwm_id) => {
            let index = lists::first_index(current, is_window(xwm_id, window.window_id));
            if index < current.len() {
                current[index]
            } else {
                window
            }
        },
        None => window,
    }
}

impl PolicyView {
    /// The policy once a server and its window manager are gone.
    pub open spec fn without_xwm(self, xwm_id: u32, server_id: u32) -> PolicyView {
        PolicyView {
            windows: self.windows.filter(not_of_xwm(xwm_id)),
            metadata: self.metadata.remove_keys(steam_worker::server_keys(xwm_id)),
            sequences: self.sequences.remove_keys(steam_worker::server_keys(xwm_id)),
            servers: self.servers.filter(not_xwm(xwm_id)),
            content_overrides: self.content_overrides.remove_keys(
                steam_worker::server_keys(server_id),
            ),
            ..self
        }
    }

    /// The policy once a window is gone.
    pub open spec fn without_window(
        self,
        xwm_id: u32,
        window_id: u32,
        server_id: u32,
    ) -> PolicyView {
        let key = steam_worker::window_key(xwm_id, window_id);
        PolicyView {
            windows: self.windows.filter(not_window(xwm_id, window_id)),
            metadata: self.metadata.remove(key),
            sequences: self.sequences.remove(key),
            content_overrides: self.content_overrides.remove(
                steam_worker::window_key(server_id, window_id),
            ),
            ..self
        }
    }

    /// The windows of a server, by ID.
    pub open spec fn managed(self, server_id: u32) -> Seq<u32> {
        self.windows.filter(on_server(self, server_id)).map_values(
            |window: X11Window| window.window_id,
        )
    }
}

/// The first window with an identity.
fn find_window(windows: &Vec<X11Window>, xwm_id: u32, window_id: u32) -> (index: usize)
    ensures
        index == lists::first_index(windows@, is_window(xwm_id, window_id)),
        index <= windows@.len(),
{
    let ghost wanted = is_window(xwm_id, window_id);
    let mut i: usize = 0;
    while i < windows.len()
        invariant
            i <= windows@.len(),
            wanted == is_window(xwm_id, window_id),
            forall|j: int| 0 <= j < i ==> !wanted(#[trigger] windows@[j]),
        decreases windows@.len() - i,
    {
        if x11_window_identity_matches(windows[i].xwm_id, windows[i].window_id, xwm_id, window_id) {
            proof {
                lists::lemma_first_index(windows@, wanted, i as int);
            }
            return i;
        }
        i = i + 1;
    }
    proof {
        lists::lemma_first_index(windows@, wanted, i as int);
    }
    i
}

impl WindowPolicy {
    /// Take over the focus requests of Steam.
    pub fn set_focus_control(&mut self, control: FocusControl)
        ensures
            final(self)@ == (PolicyView {
                control_window: control.window,
                control_app_ids: control.app_ids@,
                ..old(self)@
            }),
    {
        self.focus_control = control;
    }

    /// Take over the metadata of a window.
    pub fn set_metadata(&mut self, xwm_id: u32, window_id: u32, metadata: WindowMetadata)
        ensures
            final(self)@ == (PolicyView {
                metadata: old(self)@.metadata.insert(
                    steam_worker::window_key(xwm_id, window_id),
                    metadata,
                ),
                ..old(self)@
            }),
    {
        self.metadata.insert(key_of_window(xwm_id, window_id), metadata);
    }

    /// Connect a window manager with its server.
    pub fn register_server(&mut self, xwm_id: u32, server_id: u32)
        ensures
            final(self)@ == (PolicyView {
                servers: with_server(old(self)@.servers, xwm_id, server_id),
                ..old(self)@
            }),
    {
        let ghost wanted = is_xwm(xwm_id);
        let ghost before = *self;
        let mut i: usize = 0;
        while i < self.servers.len()
            invariant
                i <= self.servers@.len(),
                *self == before,
                before == *old(self),
                wanted == is_xwm(xwm_id),
                forall|j: int| 0 <= j < i ==> !wanted(#[trigger] self.servers@[j]),
            decreases self.servers@.len() - i,
        {
            if self.servers[i].xwm_id == xwm_id {
                proof {
                    lists::lemma_first_index(self.servers@, wanted, i as int);
                }
                self.servers.set(i, XwmServer { xwm_id, server_id });
                return;
            }
            i = i + 1;
        }
        proof {
            lists::lemma_first_index(self.servers@, wanted, i as int);
        }
        self.servers.push(XwmServer { xwm_id, server_id });
    }

    fn forget_windows_of(&mut self, xwm_id: u32)
        ensures
            final(self)@ == (PolicyView {
                windows: old(self)@.windows.filter(not_of_xwm(xwm_id)),
                ..old(self)@
            }),
    {
        let ghost before = self.windows@;
        let ghost keep = not_of_xwm(xwm_id);
        let mut kept: Vec<X11Window> = Vec::new();
        let mut i: usize = 0;
        proof {
            lists::lemma_filter_empty(before.take(0), keep);
        }
        while i < self.windows.len()
            invariant
                i <= self.windows@.len(),
                *self == *old(self),
                before == self.windows@,
                keep == not_of_xwm(xwm_id),
                kept@ == before.take(i as int).filter(keep),
            decreases self.windows@.len() - i,
        {
            proof {
                lists::lemma_filter_take_next(before, keep, i as int);
            }
            let window = self.windows[i];
            let belongs = match window.xwm_id {
                Some(candidate) => candidate == xwm_id,
                None => false,
            };
            if !belongs {
                kept.push(window);
            }
            i = i + 1;
        }
        assert(before.take(i as int) =~= before);
        self.windows = kept;
    }

    fn forget_server_of(&mut self, xwm_id: u32)
        ensures
            final(self)@ == (PolicyView {
                servers: old(self)@.servers.filter(not_xwm(xwm_id)),
                ..old(self)@
            }),
    {
        let ghost before = self.servers@;
        let ghost keep = not_xwm(xwm_id);
        let mut kept: Vec<XwmServer> = Vec::new();
        let mut i: usize = 0;
        proof {
            lists::lemma_filter_empty(before.take(0), keep);
        }
        while i < self.servers.len()
            invariant
                i <= self.servers@.len(),
                *self == *old(self),
                before == self.servers@,
                keep == not_xwm(xwm_id),
                kept@ == before.take(i as int).filter(keep),
            decreases self.servers@.len() - i,
        {
            proof {
                lists::lemma_filter_take_next(before, keep, i as int);
            }
            let entry = self.servers[i];
            if entry.xwm_id != xwm_id {
                kept.push(entry);
            }
            i = i + 1;
        }
        assert(before.take(i as int) =~= before);
        self.servers = kept;
    }

    /// Forget everything of a window manager and its server.
    pub fn forget_xwm(&mut self, xwm_id: u32, server_id: u32)
        ensures
            final(self)@ == old(self)@.without_xwm(xwm_id, server_id),
    {
        self.forget_windows_of(xwm_id);
        self.forget_server_of(xwm_id);
        let low: u64 = key_of_window(xwm_id, 0);
        let high: u64 = key_of_window(xwm_id, u32::MAX);
        self.metadata.remove_range(low, high);
        self.sequences.remove_range(low, high);
        self.content_overrides.remove_range(
            key_of_window(server_id, 0),
            key_of_window(server_id, u32::MAX),
        );
    }

    /// Take note of a window that has shown itself.
    pub fn remember_x11_window(&mut self, window: X11Window)
        ensures
            final(self)@ == (PolicyView {
                windows: remembered(old(self)@.windows, window),
                ..old(self)@
            }),
    {
        if let Some(xwm_id) = window.xwm_id {
            let ghost before = self.windows@;
            let ghost keep = not_dead_twin(xwm_id, window.window_id);
            let mut kept: Vec<X11Window> = Vec::new();
            let mut i: usize = 0;
            proof {
                lists::lemma_filter_empty(before.take(0), keep);
            }
            while i < self.windows.len()
                invariant
                    i <= self.windows@.len(),
                    *self == *old(self),
                    before == self.windows@,
                    keep == not_dead_twin(xwm_id, window.window_id),
                    kept@ == before.take(i as int).filter(keep),
                decreases self.windows@.len() - i,
            {
                proof {
                    lists::lemma_filter_take_next(before, keep, i as int);
                }
                let candidate = self.windows[i];
                if !x11_window_identity_matches(
                    candidate.xwm_id,
                    candidate.window_id,
                    xwm_id,
                    window.window_id,
                ) || candidate.alive {
                    kept.push(candidate);
                }
                i = i + 1;
            }
            assert(before.take(i as int) =~= before);
            let index: usize = find_window(&kept, xwm_id, window.window_id);
            if index >= kept.len() {
                kept.push(window);
            }
            self.windows = kept;
        }
    }

    /// Give a window its place in the order of windows, unless it has one. Tells whether
    /// the number was used.
    pub fn stamp(&mut self, xwm_id: u32, window_id: u32, sequence: u64) -> (used: bool)
        ensures
            ({
                let key = steam_worker::window_key(xwm_id, window_id);
                &&& used == !old(self)@.sequences.contains_key(key)
                &&& final(self)@ == (if used {
                    PolicyView {
                        sequences: old(self)@.sequences.insert(key, sequence),
                        ..old(self)@
                    }
                } else {
                    old(self)@
                })
            }),
    {
        let key: u64 = key_of_window(xwm_id, window_id);
        if self.sequences.contains(key) {
            false
        } else {
            self.sequences.insert(key, sequence);
            true
        }
    }

    /// The process of a window.
    #[must_use]
    pub fn pid_of(&self, xwm_id: u32, window_id: u32) -> (pid: Option<u32>)
        ensures
            pid == ({
                let index = lists::first_index(self@.windows, is_window(xwm_id, window_id));
                if index < self@.windows.len() {
                    self@.windows[index].pid
                } else {
                    None
                }
            }),
    {
        let index: usize = find_window(&self.windows, xwm_id, window_id);
        if index < self.windows.len() {
            self.windows[index].pid
        } else {
            None
        }
    }

    /// Bring the known windows up to date.
    pub fn update_windows(&mut self, current: &Vec<X11Window>)
        ensures
            final(self)@ == (PolicyView {
                windows: old(self)@.windows.map_values(
                    |window: X11Window| refreshed_window(window, current@),
                ),
                ..old(self)@
            }),
    {
        let ghost before = self.windows@;
        let ghost refresh = |window: X11Window| refreshed_window(window, current@);
        let mut updated: Vec<X11Window> = Vec::new();
        let mut i: usize = 0;
        while i < self.windows.len()
            invariant
                i <= self.windows@.len(),
                *self == *old(self),
                before == self.windows@,
                refresh == (|window: X11Window| refreshed_window(window, current@)),
                updated@ == before.take(i as int).map_values(refresh),
            decreases self.windows@.len() - i,
        {
            let window = self.windows[i];
            let latest = match window.xwm_id {
                Some(xwm_id) => {
                    let index: usize = find_window(current, xwm_id, window.window_id);
                    if index < current.len() {
                        current[index]
                    } else {
                        window
                    }
                },
                None => window,
            };
            updated.push(latest);
            i = i + 1;
        }
        assert(before.take(i as int) =~= before);
        self.windows = updated;
    }

    /// Forget a window.
    pub fn forget_window(&mut self, xwm_id: u32, window_id: u32, server_id: u32)
        ensures
            final(self)@ == old(self)@.without_window(xwm_id, window_id, server_id),
    {
        let ghost before = self.windows@;
        let ghost keep = not_window(xwm_id, window_id);
        let mut kept: Vec<X11Window> = Vec::new();
        let mut i: usize = 0;
        proof {
            lists::lemma_filter_empty(before.take(0), keep);
        }
        while i < self.windows.len()
            invariant
                i <= self.windows@.len(),
                *self == *old(self),
                before == self.windows@,
                keep == not_window(xwm_id, window_id),
                kept@ == before.take(i as int).filter(keep),
            decreases self.windows@.len() - i,
        {
            proof {
                lists::lemma_filter_take_next(before, keep, i as int);
            }
            let window = self.windows[i];
            if !x11_window_identity_matches(
                window.xwm_id,
                window.window_id,
                xwm_id,
                window_id,
            ) {
                kept.push(window);
            }
            i = i + 1;
        }
        assert(before.take(i as int) =~= before);
        self.windows = kept;
        let key: u64 = key_of_window(xwm_id, window_id);
        let _metadata = self.metadata.remove(key);
        let _sequence = self.sequences.remove(key);
        let _surface = self.content_overrides.remove(key_of_window(server_id, window_id));
    }

    /// Replace the contents of a window.
    pub fn override_content(&mut self, server_id: u32, window_id: u32, surface: u64)
        ensures
            final(self)@ == (PolicyView {
                content_overrides: old(self)@.content_overrides.insert(
                    steam_worker::window_key(server_id, window_id),
                    surface,
                ),
                ..old(self)@
            }),
    {
        self.content_overrides.insert(key_of_window(server_id, window_id), surface);
    }

    /// Take back what replaces the contents of a window.
    pub fn take_override(&mut self, server_id: u32, window_id: u32) -> (surface: Option<u64>)
        ensures
            ({
                let key = steam_worker::window_key(server_id, window_id);
                &&& surface == (if old(self)@.content_overrides.contains_key(key) {
                    Some(old(self)@.content_overrides[key])
                } else {
                    None
                })
                &&& final(self)@ == (PolicyView {
                    content_overrides: old(self)@.content_overrides.remove(key),
                    ..old(self)@
                })
            }),
    {
        self.content_overrides.remove(key_of_window(server_id, window_id))
    }

    /// The windows of a server, by ID.
    #[must_use]
    pub fn managed_windows(&self, server_id: u32) -> (managed: Vec<u32>)
        ensures
            managed@ == self@.managed(server_id),
    {
        let ghost windows = self.windows@;
        let ghost wanted = on_server(self@, server_id);
        let ghost id = |window: X11Window| window.window_id;
        let mut managed: Vec<u32> = Vec::new();
        let mut i: usize = 0;
        proof {
            lists::lemma_filter_empty(windows.take(0), wanted);
        }
        assert(managed@ =~= windows.take(0).filter(wanted).map_values(id));
        while i < self.windows.len()
            invariant
                i <= self.windows@.len(),
                windows == self.windows@,
                wanted == on_server(self@, server_id),
                id == (|window: X11Window| window.window_id),
                managed@ == windows.take(i as int).filter(wanted).map_values(id),
            decreases self.windows@.len() - i,
        {
            proof {
                lists::lemma_filter_take_next(windows, wanted, i as int);
            }
            if self.server_id_for(&self.windows[i]) == server_id {
                managed.push(self.windows[i].window_id);
                assert(managed@ =~= windows.take(i + 1).filter(wanted).map_values(id));
            }
            i = i + 1;
        }
        assert(windows.take(i as int) =~= windows);
        managed
    }

    /// The window managers and their servers.
    #[must_use]
    pub fn servers(&self) -> (servers: &Vec<XwmServer>)
        ensures
            servers@ == self@.servers,
    {
        &self.servers
    }

    #[must_use]
    pub fn steam_mode(&self) -> (steam_mode: bool)
        ensures
            steam_mode == self@.steam_mode,
    {
        self.steam_mode
    }
}

/// Every window belongs to a window manager, and no two windows have the same identity.
pub open spec fn unique_windows(windows: Seq<X11Window>) -> bool {
    &&& forall|i: int| 0 <= i < windows.len() ==> (#[trigger] windows[i]).xwm_id is Some
    &&& forall|i: int, j: int|
        0 <= i < j < windows.len() ==> (#[trigger] windows[i]).xwm_id != (
        #[trigger] windows[j]).xwm_id || windows[i].window_id != windows[j].window_id
}

proof fn lemma_filter_keeps_unique(windows: Seq<X11Window>, keep: spec_fn(X11Window) -> bool)
    requires
        unique_windows(windows),
    ensures
        unique_windows(windows.filter(keep)),
    decreases windows.len(),
{
    reveal(Seq::filter);
    broadcast use vstd::seq_lib::group_filter_ensures;

    if windows.len() > 0 {
        let init = windows.drop_last();
        assert forall|i: int| 0 <= i < init.len() implies #[trigger] init[i] == windows[i] by {}
        lemma_filter_keeps_unique(init, keep);
        let kept = init.filter(keep);
        let last = windows.last();
        if keep(last) {
            let all = windows.filter(keep);
            assert(all == kept.push(last));
            assert forall|i: int, j: int| 0 <= i < j < all.len() implies (
            #[trigger] all[i]).xwm_id != (#[trigger] all[j]).xwm_id || all[i].window_id
                != all[j].window_id by {
                if j == kept.len() {
                    assert(kept.contains(kept[i]));
                    init.lemma_filter_contains_rev(keep, kept[i]);
                    let k = init.index_of(kept[i]);
                    assert(windows[k] == kept[i]);
                    assert(windows[windows.len() - 1] == last);
                } else {
                    assert(all[i] == kept[i] && all[j] == kept[j]);
                }
            }
            assert forall|i: int| 0 <= i < all.len() implies (#[trigger] all[i]).xwm_id is Some by {
                if i < kept.len() {
                    assert(all[i] == kept[i]);
                }
            }
        }
    }
}

/// No way of learning of windows or forgetting them gives two windows the same identity.
pub proof fn lemma_windows_stay_unique(
    windows: Seq<X11Window>,
    window: X11Window,
    xwm_id: u32,
    window_id: u32,
)
    requires
        unique_windows(windows),
    ensures
        unique_windows(remembered(windows, window)),
        unique_windows(windows.filter(not_window(xwm_id, window_id))),
        unique_windows(windows.filter(not_of_xwm(xwm_id))),
{
    lemma_filter_keeps_unique(windows, not_window(xwm_id, window_id));
    lemma_filter_keeps_unique(windows, not_of_xwm(xwm_id));
    if let Some(xwm) = window.xwm_id {
        let kept = windows.filter(not_dead_twin(xwm, window.window_id));
        lemma_filter_keeps_unique(windows, not_dead_twin(xwm, window.window_id));
        let wanted = is_window(xwm, window.window_id);
        lists::lemma_first_index_found(kept, wanted);
        if lists::first_index(kept, wanted) == kept.len() {
            assert forall|i: int| 0 <= i < kept.len() implies (#[trigger] kept[i]).xwm_id
                != window.xwm_id || kept[i].window_id != window.window_id by {
                assert(!wanted(kept[i]));
            }
        }
    }
}

/// After a window has shown itself, the window with its identity is alive if it is, and a
/// dead predecessor is gone.
pub proof fn lemma_remembered_window_is_known(windows: Seq<X11Window>, window: X11Window)
    requires
        window.xwm_id is Some,
        window.alive,
    ensures
        exists|i: int|
            0 <= i < remembered(windows, window).len() && (#[trigger] remembered(
                windows,
                window,
            )[i]).same_as(window),
        forall|i: int|
            0 <= i < remembered(windows, window).len() && (#[trigger] remembered(
                windows,
                window,
            )[i]).has_identity(window.xwm_id.unwrap(), window.window_id) ==> remembered(
                windows,
                window,
            )[i].alive,
{
    broadcast use vstd::seq_lib::group_filter_ensures;

    let xwm = window.xwm_id.unwrap();
    let keep = not_dead_twin(xwm, window.window_id);
    let kept = windows.filter(keep);
    let wanted = is_window(xwm, window.window_id);
    let index = lists::first_index(kept, wanted);
    lists::lemma_first_index_found(kept, wanted);
    let all = remembered(windows, window);
    assert forall|i: int| 0 <= i < all.len() && (#[trigger] all[i]).has_identity(
        xwm,
        window.window_id,
    ) implies all[i].alive by {
        if i < kept.len() {
            assert(all[i] == kept[i]);
            assert(keep(kept[i]));
        }
    }
    if index < kept.len() {
        assert(keep(kept[index]));
        assert(all[index].same_as(window));
    } else {
        assert(all[kept.len() as int] == window);
        assert(all[kept.len() as int].same_as(window));
    }
}

/// Replacing the contents of windows changes what is rendered and nothing of what gets
/// input.
pub proof fn lemma_overrides_affect_rendering_only(
    policy: PolicyView,
    overrides: Map<u64, u64>,
    fallback: Option<u64>,
)
    ensures
        ({
            let after = PolicyView { content_overrides: overrides, ..policy };
            &&& after.keyboard_window() == policy.keyboard_window()
            &&& after.pointer_surface() == policy.pointer_surface()
            &&& after.primary_input(fallback) == policy.primary_input(fallback)
        }),
{
    let after = PolicyView { content_overrides: overrides, ..policy };
    assert forall|window: X11Window| #[trigger] after.candidate(window) == policy.candidate(
        window,
    ) by {}
    assert(is_candidate(after) =~= is_candidate(policy));
    assert(to_candidate(after) =~= to_candidate(policy));
    assert(after.candidates() == policy.candidates());
    assert forall|chosen: FocusCandidate| #[trigger] is_chosen(after, chosen) == is_chosen(
        policy,
        chosen,
    ) by {
        assert(is_chosen(after, chosen) =~= is_chosen(policy, chosen));
    }
    assert(after.selected_window() == policy.selected_window());
    let role = WindowRole::InputOverlay;
    assert(has_role(after, role) =~= has_role(policy, role));
    assert(role_rank(after, role) =~= role_rank(policy, role));
}

/// The base layer is at the bottom and the only one that may hide what is below it; every
/// layer is visible.
pub proof fn lemma_layers_are_ordered(policy: PolicyView, fallback: Option<u64>, i: int)
    requires
        0 <= i < policy.layers(fallback).len(),
    ensures
        i > 0 ==> policy.layers(fallback)[i].force_blend,
        policy.layers(fallback)[i].opacity != 0,
{
}

/// Whether a window could be chosen for a role, in terms of the window and its metadata.
pub open spec fn may_play(policy: PolicyView, role: WindowRole, window: X11Window) -> bool {
    let metadata = policy.metadata_of(window);
    match role {
        WindowRole::StreamVideo { server_id } => {
            window.mapped && metadata.streaming_client_video && policy.server_of(window)
                == server_id
        },
        WindowRole::PrimaryOverlay => window.mapped && window.width > 1200 && metadata.overlay,
        WindowRole::Notification { interface } => {
            &&& window.mapped && metadata.overlay
            &&& match interface {
                Some(interface) => !(interface.alive && window.alive && interface.xwm_id
                    == window.xwm_id && interface.window_id == window.window_id),
                None => true,
            }
        },
        WindowRole::ExternalOverlay => window.mapped && metadata.external_overlay,
        WindowRole::InputOverlay => {
            window.mapped && window.width > 1200 && metadata.overlay && metadata.input_focus_mode
                != 0
        },
    }
}

/// Whether one window goes before another in a role: the more recent one as a video or a
/// notification, the more opaque one as an overlay.
pub open spec fn goes_before(
    policy: PolicyView,
    role: WindowRole,
    left: X11Window,
    right: X11Window,
) -> bool {
    if role is StreamVideo || role is Notification {
        policy.sequence_of(left) > policy.sequence_of(right)
    } else {
        policy.metadata_of(left).opacity > policy.metadata_of(right).opacity
    }
}

/// A role is filled whenever some window may play it, by a window that no other goes
/// before. Of windows that are alike the last one counts.
pub proof fn lemma_roles_are_filled(policy: PolicyView, role: WindowRole) -> (place: int)
    ensures
        match policy.window_in_role(role) {
            Some(window) => {
                &&& 0 <= place < policy.windows.len()
                &&& policy.windows[place] == window
                &&& may_play(policy, role, window)
                &&& forall|i: int|
                    0 <= i < policy.windows.len() && may_play(
                        policy,
                        role,
                        #[trigger] policy.windows[i],
                    ) ==> {
                        &&& !goes_before(policy, role, policy.windows[i], window)
                        &&& i > place ==> goes_before(policy, role, window, policy.windows[i])
                    }
            },
            None => forall|i: int|
                0 <= i < policy.windows.len() ==> !may_play(
                    policy,
                    role,
                    #[trigger] policy.windows[i],
                ),
        },
{
    let wanted = has_role(policy, role);
    let rank = role_rank(policy, role);
    lists::lemma_last_max(policy.windows, wanted, rank);
    let place = lists::lemma_last_max_place(policy.windows, wanted, rank);
    assert forall|window: X11Window| #[trigger] wanted(window) == may_play(
        policy,
        role,
        window,
    ) by {}
    if let Some(window) = policy.window_in_role(role) {
        assert forall|i: int|
            0 <= i < policy.windows.len() && may_play(
                policy,
                role,
                #[trigger] policy.windows[i],
            ) implies {
            &&& !goes_before(policy, role, policy.windows[i], window)
            &&& i > place ==> goes_before(policy, role, window, policy.windows[i])
        } by {
            assert(wanted(policy.windows[i]));
            assert(rank(policy.windows[i]) <= rank(window));
        }
    } else {
        assert forall|i: int| 0 <= i < policy.windows.len() implies !may_play(
            policy,
            role,
            #[trigger] policy.windows[i],
        ) by {
            assert(!wanted(policy.windows[i]));
        }
    }
    place
}

/// What a layer of an overlay looks like: it shows the surface that carries the window's
/// pixels at the window's opacity, and does not hide what is below it.
pub open spec fn is_layer_of(policy: PolicyView, layer: RenderLayer, window: X11Window) -> bool {
    &&& policy.render_surface(window) == Some(layer.surface)
    &&& layer.opacity == policy.metadata_of(window).opacity
    &&& layer.force_blend
}

/// Whether an overlay has something to show.
pub open spec fn is_visible(policy: PolicyView, window: Option<X11Window>) -> bool {
    window matches Some(window) && policy.render_surface(window) is Some && policy.metadata_of(
        window,
    ).opacity != 0
}

/// One more if something is there.
pub open spec fn one_if(present: bool) -> int {
    if present {
        1
    } else {
        0
    }
}

/// Whether layers are those that can be seen, from bottom to top: the base without blending,
/// the popup of the selected window directly above it at full opacity, and then the
/// notification, the Steam interface and the external overlay, each exactly when it is
/// visible, and nothing else. Without a selected window the base is all there is.
pub open spec fn shows_what_is_visible(
    policy: PolicyView,
    fallback: Option<u64>,
    layers: Seq<RenderLayer>,
) -> bool {
    match policy.selected_window() {
        Some(focus) => {
            let base = policy.base_window().unwrap();
            let popup = policy.override_window(focus);
            let interface = policy.window_in_role(WindowRole::PrimaryOverlay);
            let notification = policy.window_in_role(
                WindowRole::Notification { interface },
            );
            let external = policy.window_in_role(WindowRole::ExternalOverlay);
            let has_base = policy.render_surface(base) is Some;
            let has_popup = popup matches Some(popup) && policy.render_surface(
                popup,
            ) is Some;
            let above_base = one_if(has_base);
            let above_popup = above_base + one_if(has_popup);
            let above_notice = above_popup + one_if(is_visible(policy, notification));
            let above_interface = above_notice + one_if(is_visible(policy, interface));
            &&& policy.base_window() is Some
            &&& has_base ==> layers[0] == (RenderLayer {
                surface: policy.render_surface(base).unwrap(),
                opacity: 0xffff_ffff,
                force_blend: false,
            })
            &&& has_popup ==> layers[above_base] == (RenderLayer {
                surface: policy.render_surface(popup.unwrap()).unwrap(),
                opacity: 0xffff_ffff,
                force_blend: true,
            })
            &&& is_visible(policy, notification) ==> is_layer_of(
                policy,
                layers[above_popup],
                notification.unwrap(),
            )
            &&& is_visible(policy, interface) ==> is_layer_of(
                policy,
                layers[above_notice],
                interface.unwrap(),
            )
            &&& is_visible(policy, external) ==> is_layer_of(
                policy,
                layers[above_interface],
                external.unwrap(),
            )
            &&& layers.len() == above_interface + one_if(is_visible(policy, external))
        },
        None => match fallback {
            Some(surface) => layers.len() == 1 && layers[0] == (RenderLayer {
                surface,
                opacity: 0xffff_ffff,
                force_blend: false,
            }),
            None => layers.len() == 0,
        },
    }
}

/// The layers of a frame, from bottom to top: the base without blending, the popup of the
/// selected window directly above it at full opacity, and then the notification, the Steam
/// interface and the external overlay, each exactly when it is visible, and nothing else.
/// Without a selected window the base is all there is.
pub proof fn lemma_layers_show_what_is_visible(policy: PolicyView, fallback: Option<u64>)
    ensures
        shows_what_is_visible(policy, fallback, policy.layers(fallback)),
{
}

/// The pixels of the base: those of the selected window, except that a streaming client
/// gives way to the most recent video on its server that can be seen.
pub proof fn lemma_streams_replace_their_client(policy: PolicyView, fallback: Option<u64>)
    ensures
        match policy.selected_window() {
            Some(focus) => {
                let video = policy.window_in_role(
                    WindowRole::StreamVideo { server_id: policy.server_of(focus) },
                );
                &&& policy.base_window() == Some(
                    if policy.metadata_of(focus).streaming_client && video is Some {
                        video.unwrap()
                    } else {
                        focus
                    },
                )
                &&& policy.render_surface(policy.base_window().unwrap()) is Some
                    ==> policy.primary(fallback) == policy.render_surface(
                    policy.base_window().unwrap(),
                )
                &&& policy.render_surface(policy.base_window().unwrap()) is None
                    ==> policy.primary(fallback) == fallback
                &&& policy.primary_input(fallback) == focus.surface
            },
            None => {
                &&& policy.base_window() is None
                &&& policy.primary(fallback) == fallback
                &&& policy.primary_input(fallback) == fallback
            },
        },
{
}

/// Who gets the keyboard and the pointer. An interface that wants input gets the pointer,
/// and the keyboard too unless its mode leaves the keyboard with the game. Otherwise they go
/// to the popup of the selected window, and without a popup to the window itself.
pub proof fn lemma_input_goes_to_the_front(policy: PolicyView)
    ensures
        ({
            let overlay = policy.window_in_role(WindowRole::InputOverlay);
            match policy.selected_window() {
                Some(focus) => {
                    let popup = policy.override_window(focus);
                    let behind = if popup is Some {
                        popup
                    } else {
                        Some(focus)
                    };
                    &&& overlay matches Some(window) ==> (policy.metadata_of(
                        window,
                    ).input_focus_mode == 2 ==> policy.keyboard_window() == behind) && (
                    policy.metadata_of(window).input_focus_mode != 2 ==> policy.keyboard_window()
                        == overlay)
                    &&& overlay is None ==> policy.keyboard_window() == behind
                    &&& overlay is None ==> policy.pointer_surface() == (if popup is Some
                        && popup.unwrap().surface is Some {
                        popup.unwrap().surface
                    } else {
                        focus.surface
                    })
                },
                None => {
                    &&& policy.keyboard_window() is None
                    &&& overlay is None ==> policy.pointer_surface() is None
                },
            }
        }),
        policy.window_in_role(WindowRole::InputOverlay) matches Some(window)
            ==> policy.pointer_surface() == window.surface,
{
}

/// An interface that is wide, mapped and more opaque than any other takes the pointer as
/// soon as it asks for input, and the keyboard too if it asks for all input.
pub proof fn lemma_open_interface_takes_input(policy: PolicyView, i: int)
    requires
        0 <= i < policy.windows.len(),
        policy.windows[i].mapped,
        policy.windows[i].width > 1200,
        policy.metadata_of(policy.windows[i]).overlay,
        policy.metadata_of(policy.windows[i]).input_focus_mode == 1 || policy.metadata_of(
            policy.windows[i],
        ).input_focus_mode == 2,
        forall|j: int|
            0 <= j < policy.windows.len() && j != i && policy.metadata_of(
                #[trigger] policy.windows[j],
            ).overlay ==> policy.metadata_of(policy.windows[j]).opacity < policy.metadata_of(
                policy.windows[i],
            ).opacity,
        policy.selected_window() is Some,
    ensures
        policy.pointer_surface() == policy.windows[i].surface,
        policy.metadata_of(policy.windows[i]).input_focus_mode == 1 ==> policy.keyboard_window()
            == Some(policy.windows[i]),
        policy.metadata_of(policy.windows[i]).input_focus_mode == 2 ==> ({
            let focus = policy.selected_window().unwrap();
            policy.keyboard_window() == Some(focus) || policy.keyboard_window()
                == policy.override_window(focus)
        }),
{
    let place = lemma_roles_are_filled(policy, WindowRole::InputOverlay);
    assert(may_play(policy, WindowRole::InputOverlay, policy.windows[i]));
    assert(policy.windows[place] == policy.windows[i]);
    lemma_input_goes_to_the_front(policy);
}

/// What the focus policy sees of a window: a window that is alive, managed and of no
/// special role, with its size, age and server as they are, and the app it counts for.
pub proof fn lemma_candidates_mirror_windows(policy: PolicyView, window: X11Window)
    ensures
        ({
            let metadata = policy.metadata_of(window);
            match policy.candidate(window) {
                Some(candidate) => {
                    &&& window.alive && window.xwm_id is Some
                    &&& !metadata.overlay && !metadata.external_overlay
                        && !metadata.streaming_client_video
                    &&& candidate.server_id == policy.server_of(window)
                    &&& candidate.window_id == window.window_id
                    &&& candidate.app_id == metadata.app(policy.steam_mode, window.window_id)
                    &&& candidate.mapped == window.mapped
                    &&& candidate.override_redirect == window.override_redirect
                    &&& candidate.transient_for == window.transient_for
                    &&& candidate.width == window.width && candidate.height == window.height
                    &&& candidate.sequence == policy.sequence_of(window)
                },
                None => !window.alive || window.xwm_id is None || metadata.overlay
                    || metadata.external_overlay || metadata.streaming_client_video,
            }
        }),
{
}

proof fn lemma_candidates_of_windows(policy: PolicyView)
    ensures
        forall|i: int|
            0 <= i < policy.windows.len() && policy.candidate(
                #[trigger] policy.windows[i],
            ) is Some ==> policy.candidates().contains(
                policy.candidate(policy.windows[i]).unwrap(),
            ),
        forall|candidate: FocusCandidate| #[trigger]
            policy.candidates().contains(candidate) ==> exists|i: int|
                0 <= i < policy.windows.len() && policy.candidate(#[trigger] policy.windows[i])
                    == Some(candidate),
{
    let keep = is_candidate(policy);
    let kept = policy.windows.filter(keep);
    broadcast use vstd::seq_lib::group_filter_ensures;

    assert forall|i: int|
        0 <= i < policy.windows.len() && policy.candidate(
            #[trigger] policy.windows[i],
        ) is Some implies policy.candidates().contains(
        policy.candidate(policy.windows[i]).unwrap(),
    ) by {
        assert(keep(policy.windows[i]));
        policy.windows.lemma_filter_contains(keep, i);
        let k = kept.index_of(policy.windows[i]);
        assert(policy.candidates()[k] == policy.candidate(policy.windows[i]).unwrap());
    }
    assert forall|candidate: FocusCandidate| #[trigger]
        policy.candidates().contains(candidate) implies exists|i: int|
        0 <= i < policy.windows.len() && policy.candidate(#[trigger] policy.windows[i]) == Some(
            candidate,
        ) by {
        let k = policy.candidates().index_of(candidate);
        assert(keep(kept[k]));
        assert(kept.contains(kept[k]));
        policy.windows.lemma_filter_contains_rev(keep, kept[k]);
        let i = policy.windows.index_of(kept[k]);
        assert(policy.candidate(policy.windows[i]) == Some(candidate));
    }
}

/// The window that has the base layer is the live window that the focus policy chose from
/// what it sees of all windows, and some window has it whenever any window that may have it
/// can be seen.
pub proof fn lemma_selected_window_is_the_choice(policy: PolicyView)
    ensures
        ({
            let choice = steam::focus_choice(
                policy.candidates(),
                policy.control_window,
                policy.control_app_ids,
            );
            match policy.selected_window() {
                Some(window) => {
                    &&& policy.windows.contains(window)
                    &&& window.alive
                    &&& choice matches Some(chosen) && chosen.window_id == window.window_id
                        && chosen.server_id == policy.server_of(window)
                },
                None => choice is None && forall|i: int|
                    0 <= i < policy.windows.len() && policy.candidate(
                        #[trigger] policy.windows[i],
                    ) is Some ==> !(policy.windows[i].mapped && policy.windows[i].width > 1
                        && policy.windows[i].height > 1),
            }
        }),
{
    let candidates = policy.candidates();
    let place = steam::lemma_focus_follows_requests(
        candidates,
        policy.control_window,
        policy.control_app_ids,
    );
    lemma_candidates_of_windows(policy);
    match steam::focus_choice(candidates, policy.control_window, policy.control_app_ids) {
        Some(chosen) => {
            let wanted = is_chosen(policy, chosen);
            lists::lemma_first_index_found(policy.windows, wanted);
            assert(candidates.contains(candidates[place.0]));
            let i = choose|i: int|
                0 <= i < policy.windows.len() && policy.candidate(#[trigger] policy.windows[i])
                    == Some(chosen);
            assert(wanted(policy.windows[i]));
            let index = lists::first_index(policy.windows, wanted);
            assert(wanted(policy.windows[index]));
        },
        None => {
            assert forall|i: int|
                0 <= i < policy.windows.len() && policy.candidate(
                    #[trigger] policy.windows[i],
                ) is Some implies !(policy.windows[i].mapped && policy.windows[i].width > 1
                && policy.windows[i].height > 1) by {
                let candidate = policy.candidate(policy.windows[i]).unwrap();
                let k = candidates.index_of(candidate);
                assert(candidates[k] == candidate);
            }
        },
    }
}

/// The popup that covers the selected window is the live window at the end of the chain of
/// popups that the focus policy follows.
pub proof fn lemma_popup_window_is_the_choice(policy: PolicyView, focus: X11Window)
    requires
        policy.candidate(focus) is Some,
    ensures
        ({
            let choice = steam::override_choice(
                policy.candidate(focus).unwrap(),
                policy.candidates(),
            );
            match policy.override_window(focus) {
                Some(window) => {
                    &&& policy.windows.contains(window)
                    &&& window.alive
                    &&& choice matches Some(chosen) && chosen.window_id == window.window_id
                        && chosen.server_id == policy.server_of(window)
                },
                None => choice is None,
            }
        }),
{
    let candidates = policy.candidates();
    let candidate = policy.candidate(focus).unwrap();
    lemma_candidates_of_windows(policy);
    steam::lemma_popup_belongs_to_focus(candidate, candidates);
    if let Some(chosen) = steam::override_choice(candidate, candidates) {
        let wanted = is_chosen(policy, chosen);
        lists::lemma_first_index_found(policy.windows, wanted);
        let i = choose|i: int|
            0 <= i < policy.windows.len() && policy.candidate(#[trigger] policy.windows[i])
                == Some(chosen);
        assert(wanted(policy.windows[i]));
        let index = lists::first_index(policy.windows, wanted);
        assert(wanted(policy.windows[index]));
    }
}

/// What is written of a window is read of it and of no other: its metadata, its age, and
/// the surface that replaces its contents. A window of which nothing was written is plain,
/// has no age and shows its own surface.
pub proof fn lemma_windows_are_read_back(
    policy: PolicyView,
    window: X11Window,
    other: X11Window,
    metadata: WindowMetadata,
    sequence: u64,
    surface: u64,
)
    requires
        window.xwm_id is Some,
    ensures
        ({
            let key = steam_worker::window_key(window.xwm_id.unwrap(), window.window_id);
            let place = steam_worker::window_key(policy.server_of(window), window.window_id);
            let described = PolicyView { metadata: policy.metadata.insert(key, metadata), ..policy };
            let aged = PolicyView { sequences: policy.sequences.insert(key, sequence), ..policy };
            let replaced = PolicyView {
                content_overrides: policy.content_overrides.insert(place, surface),
                ..policy
            };
            let same = window.xwm_id == other.xwm_id && window.window_id == other.window_id;
            let same_place = policy.server_of(window) == policy.server_of(other)
                && window.window_id == other.window_id;
            &&& described.metadata_of(other) == (if same {
                metadata
            } else {
                policy.metadata_of(other)
            })
            &&& aged.sequence_of(other) == (if same {
                sequence
            } else {
                policy.sequence_of(other)
            })
            &&& replaced.render_surface(other) == (if same_place {
                Some(surface)
            } else {
                policy.render_surface(other)
            })
            &&& !policy.metadata.contains_key(key) ==> policy.metadata_of(window)
                == steam::plain_metadata()
            &&& !policy.sequences.contains_key(key) ==> policy.sequence_of(window) == 0
            &&& !policy.content_overrides.contains_key(place) ==> policy.render_surface(window)
                == window.surface
        }),
{
    if other.xwm_id is Some {
        steam_worker::lemma_window_keys(
            window.xwm_id.unwrap(),
            window.window_id,
            other.xwm_id.unwrap(),
            other.window_id,
        );
    }
    steam_worker::lemma_window_keys(
        policy.server_of(window),
        window.window_id,
        policy.server_of(other),
        other.window_id,
    );
    let place = steam_worker::window_key(policy.server_of(window), window.window_id);
    let replaced = PolicyView {
        content_overrides: policy.content_overrides.insert(place, surface),
        ..policy
    };
    assert(replaced.server_of(other) == policy.server_of(other));
}

/// A window manager and its server find each other once they are registered, and registering
/// one leaves the servers of all others alone.
pub proof fn lemma_registered_servers_are_found(
    policy: PolicyView,
    xwm_id: u32,
    server_id: u32,
    other: u32,
)
    ensures
        ({
            let after = PolicyView {
                servers: with_server(policy.servers, xwm_id, server_id),
                ..policy
            };
            &&& after.server_of_xwm(xwm_id) == Some(server_id)
            &&& other != xwm_id ==> after.server_of_xwm(other) == policy.server_of_xwm(other)
            &&& after.xwm_of_server(server_id) is Some
        }),
{
    let servers = policy.servers;
    let after = with_server(servers, xwm_id, server_id);
    let wanted = is_xwm(xwm_id);
    lists::lemma_first_index_found(servers, wanted);
    let index = lists::first_index(servers, wanted);
    assert forall|j: int| 0 <= j < index implies !wanted(#[trigger] after[j]) by {
        assert(after[j] == servers[j]);
    }
    lists::lemma_first_index(after, wanted, index);
    let same = is_server(server_id);
    lists::lemma_first_index_found(after, same);
    assert(same(after[index]));
    if other != xwm_id {
        let sought = is_xwm(other);
        lists::lemma_first_index_found(servers, sought);
        let at = lists::first_index(servers, sought);
        assert forall|j: int| 0 <= j < at implies !sought(#[trigger] after[j]) by {
            if j != index {
                assert(after[j] == servers[j]);
            }
        }
        if at < servers.len() {
            assert(at != index);
            assert(after[at] == servers[at]);
            lists::lemma_first_index(after, sought, at);
        } else {
            assert forall|j: int| 0 <= j < after.len() implies !sought(#[trigger] after[j]) by {
                if j < servers.len() && j != index {
                    assert(after[j] == servers[j]);
                }
            }
            lists::lemma_first_index(after, sought, after.len() as int);
        }
    }
}

/// A window without a window manager, or with one that is not known, counts for the first
/// server; one that was never described is plain, and one that was never seen is the oldest.
pub proof fn lemma_strange_windows_have_defaults(policy: PolicyView, window: X11Window)
    ensures
        window.xwm_id is None ==> policy.server_of(window) == 0 && policy.sequence_of(window) == 0
            && policy.metadata_of(window) == steam::plain_metadata(),
        window.xwm_id matches Some(xwm_id) ==> {
            let key = steam_worker::window_key(xwm_id, window.window_id);
            &&& policy.server_of_xwm(xwm_id) is None ==> policy.server_of(window) == 0
            &&& policy.server_of_xwm(xwm_id) matches Some(server_id) ==> policy.server_of(window)
                == server_id
            &&& !policy.sequences.contains_key(key) ==> policy.sequence_of(window) == 0
            &&& !policy.metadata.contains_key(key) ==> policy.metadata_of(window)
                == steam::plain_metadata()
        },
{
}

/// The window manager of a server is that of the first entry with the server, and the server
/// of a window manager that of the first entry with the window manager; without an entry
/// there is none.
pub proof fn lemma_servers_and_managers_are_looked_up(policy: PolicyView, id: u32, at: int)
    ensures
        0 <= at < policy.servers.len() && policy.servers[at].server_id == id && (forall|i: int|
            0 <= i < at ==> (#[trigger] policy.servers[i]).server_id != id)
            ==> policy.xwm_of_server(id) == Some(policy.servers[at].xwm_id),
        (forall|i: int|
            0 <= i < policy.servers.len() ==> (#[trigger] policy.servers[i]).server_id != id)
            ==> policy.xwm_of_server(id) is None,
        0 <= at < policy.servers.len() && policy.servers[at].xwm_id == id && (forall|i: int|
            0 <= i < at ==> (#[trigger] policy.servers[i]).xwm_id != id) ==> policy.server_of_xwm(
            id,
        ) == Some(policy.servers[at].server_id),
        (forall|i: int|
            0 <= i < policy.servers.len() ==> (#[trigger] policy.servers[i]).xwm_id != id)
            ==> policy.server_of_xwm(id) is None,
{
    let servers = policy.servers;
    if forall|i: int| 0 <= i < servers.len() ==> (#[trigger] servers[i]).server_id != id {
        lists::lemma_first_index(servers, is_server(id), servers.len() as int);
    }
    if forall|i: int| 0 <= i < servers.len() ==> (#[trigger] servers[i]).xwm_id != id {
        lists::lemma_first_index(servers, is_xwm(id), servers.len() as int);
    }
    if 0 <= at < servers.len() && servers[at].server_id == id && forall|i: int|
        0 <= i < at ==> (#[trigger] servers[i]).server_id != id {
        lists::lemma_first_index(servers, is_server(id), at);
    }
    if 0 <= at < servers.len() && servers[at].xwm_id == id && forall|i: int|
        0 <= i < at ==> (#[trigger] servers[i]).xwm_id != id {
        lists::lemma_first_index(servers, is_xwm(id), at);
    }
}

/// The window of a candidate is the first live one with its number on its server; where there
/// is none, no window is used.
pub proof fn lemma_candidates_stand_for_windows(policy: PolicyView, chosen: FocusCandidate, at: int)
    ensures
        0 <= at < policy.windows.len() && policy.windows[at].alive
            && policy.windows[at].window_id == chosen.window_id && policy.server_of(
            policy.windows[at],
        ) == chosen.server_id && (forall|i: int|
            0 <= i < at ==> !((#[trigger] policy.windows[i]).alive && policy.windows[i].window_id
                == chosen.window_id && policy.server_of(policy.windows[i]) == chosen.server_id))
            ==> policy.chosen_window(Some(chosen)) == Some(policy.windows[at]),
        (forall|i: int|
            0 <= i < policy.windows.len() ==> !((#[trigger] policy.windows[i]).alive
                && policy.windows[i].window_id == chosen.window_id && policy.server_of(
                policy.windows[i],
            ) == chosen.server_id)) ==> policy.chosen_window(Some(chosen)) is None,
        policy.chosen_window(None) is None,
{
    let windows = policy.windows;
    let wanted = is_chosen(policy, chosen);
    if forall|i: int|
        0 <= i < windows.len() ==> !((#[trigger] windows[i]).alive && windows[i].window_id
            == chosen.window_id && policy.server_of(windows[i]) == chosen.server_id) {
        lists::lemma_first_index(windows, wanted, windows.len() as int);
    }
    if 0 <= at < windows.len() && windows[at].alive && windows[at].window_id == chosen.window_id
        && policy.server_of(windows[at]) == chosen.server_id && forall|i: int|
        0 <= i < at ==> !((#[trigger] windows[i]).alive && windows[i].window_id
            == chosen.window_id && policy.server_of(windows[i]) == chosen.server_id) {
        lists::lemma_first_index(windows, wanted, at);
    }
}

/// Windows and window managers are forgotten by identity, and no others are.
pub proof fn lemma_others_are_not_forgotten(
    windows: Seq<X11Window>,
    servers: Seq<XwmServer>,
    xwm_id: u32,
    window_id: u32,
    i: int,
)
    ensures
        0 <= i < windows.len() ==> {
            let window = windows[i];
            let same = window.xwm_id == Some(xwm_id) && window.window_id == window_id;
            &&& windows.filter(not_window(xwm_id, window_id)).contains(window) <==> !same
            &&& windows.filter(not_of_xwm(xwm_id)).contains(window) <==> window.xwm_id != Some(
                xwm_id,
            )
        },
        0 <= i < servers.len() ==> (servers.filter(not_xwm(xwm_id)).contains(servers[i])
            <==> servers[i].xwm_id != xwm_id),
{
    if 0 <= i < windows.len() {
        lemma_filter_keeps(windows, not_window(xwm_id, window_id), i);
        lemma_filter_keeps(windows, not_of_xwm(xwm_id), i);
    }
    if 0 <= i < servers.len() {
        lemma_filter_keeps(servers, not_xwm(xwm_id), i);
    }
}

proof fn lemma_filter_keeps<A>(items: Seq<A>, keep: spec_fn(A) -> bool, i: int)
    requires
        0 <= i < items.len(),
    ensures
        items.filter(keep).contains(items[i]) <==> keep(items[i]),
{
    let left = items.filter(keep);
    if keep(items[i]) {
        items.lemma_filter_contains(keep, i);
    }
    if left.contains(items[i]) {
        let at = choose|j: int| 0 <= j < left.len() && left[j] == items[i];
        items.lemma_filter_pred(keep, at);
    }
}

/// Whether a window is the one in front for the keyboard: the interface that wants input,
/// unless its mode leaves the keyboard with the game, and else the popup of the selected
/// window, or the window itself.
pub open spec fn is_in_front(policy: PolicyView, window: Option<X11Window>) -> bool {
    let overlay = policy.window_in_role(WindowRole::InputOverlay);
    match policy.selected_window() {
        Some(focus) => {
            let takes = overlay is Some && policy.metadata_of(overlay->0).input_focus_mode != 2;
            let popup = policy.override_window(focus);
            &&& takes ==> window == overlay
            &&& !takes && popup is Some ==> window == popup
            &&& !takes && popup is None ==> window == Some(focus)
        },
        None => window is None,
    }
}

} // verus!
