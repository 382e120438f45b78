//! Steam's observable X11 contract and the window-selection policy.

use std::collections::HashSet;

use vstd::prelude::*;

use crate::control::ScreenType;
use crate::lists;
use crate::lists::has_number;

verus! {

pub const STEAM_APP_ID: u32 = 769;

pub const OPAQUE: u32 = 0xffff_ffff;

/// Environment that tells Steam what the compositor can do.
pub const STEAM_COMPAT_ENV: [(&'static str, &'static str); 10] = [
    ("STEAM_GAMESCOPE_NIS_SUPPORTED", "1"),
    ("SRT_URLOPEN_PREFER_STEAM", "1"),
    ("STEAM_GAMESCOPE_VRR_SUPPORTED", "1"),
    ("STEAM_DISABLE_MANGOAPP_ATOM_WORKAROUND", "1"),
    ("STEAM_MANGOAPP_HORIZONTAL_SUPPORTED", "1"),
    ("STEAM_GAMESCOPE_FANCY_SCALING_SUPPORT", "1"),
    ("STEAM_GAMESCOPE_HDR_SUPPORTED", "1"),
    ("STEAM_GAMESCOPE_DYNAMIC_FPSLIMITER", "1"),
    ("STEAM_MANGOAPP_PRESETS_SUPPORTED", "1"),
    ("STEAM_USE_MANGOAPP", "1"),
];

/// Environment shared by Steam mode and ordinary nested applications.
pub const COMMON_COMPAT_ENV: [(&'static str, &'static str); 4] = [
    ("vk_xwayland_wait_ready", "false"),
    ("XWAYLAND_FORCE_ENABLE_EXTRA_MODES", "1"),
    ("SDL_VIDEO_MINIMIZE_ON_FOCUS_LOSS", "0"),
    ("ENABLE_GAMESCOPE_WSI", "1"),
];

/// Steam-specific metadata attached to an X11 window.
#[derive(Clone, Copy, Debug, PartialEq, Eq, Structural)]
pub struct WindowMetadata {
    pub app_id: u32,
    pub pid: u32,
    pub legacy_big_picture: bool,
    pub overlay: bool,
    pub external_overlay: bool,
    pub streaming_client: bool,
    pub streaming_client_video: bool,
    pub input_focus_mode: u32,
    pub opacity: u32,
}

/// The metadata of a window without any property.
pub open spec fn plain_metadata() -> WindowMetadata {
    WindowMetadata {
        app_id: 0,
        pid: 0,
        legacy_big_picture: false,
        overlay: false,
        external_overlay: false,
        streaming_client: false,
        streaming_client_video: false,
        input_focus_mode: 0,
        opacity: OPAQUE,
    }
}

impl Default for WindowMetadata {
    fn default() -> (metadata: Self)
        ensures
            metadata == plain_metadata(),
    {
        Self {
            app_id: 0,
            pid: 0,
            legacy_big_picture: false,
            overlay: false,
            external_overlay: false,
            streaming_client: false,
            streaming_client_video: false,
            input_focus_mode: 0,
            opacity: OPAQUE,
        }
    }
}

/// What is known of a window before its metadata is derived.
#[derive(Clone, Copy, Debug, PartialEq, Eq, Structural)]
pub struct WindowProperties {
    /// Process of the window, zero if unknown.
    pub pid: u32,
    /// App ID inferred from the ancestry of the process, zero if unknown.
    pub inferred_app_id: u32,
    pub steam_game: Option<u32>,
    pub steam_big_picture: Option<u32>,
    pub steam_overlay: Option<u32>,
    pub external_overlay: Option<u32>,
    pub streaming_client: Option<u32>,
    pub streaming_client_video: Option<u32>,
    pub input_focus: Option<u32>,
    pub opacity: Option<u32>,
}

/// The value of a property, or another one when it is not set.
pub open spec fn value_or(property: Option<u32>, otherwise: u32) -> u32 {
    match property {
        Some(value) => value,
        None => otherwise,
    }
}

/// A property that is set to something other than zero.
pub open spec fn is_set(property: Option<u32>) -> bool {
    value_or(property, 0) != 0
}

fn read_or(property: Option<u32>, otherwise: u32) -> (value: u32)
    ensures
        value == value_or(property, otherwise),
{
    match property {
        Some(value) => value,
        None => otherwise,
    }
}

impl WindowProperties {
    /// The metadata that properties give: an app ID of their own comes before the
    /// inferred one, and a window is opaque unless it says otherwise.
    pub open spec fn spec_metadata(self) -> WindowMetadata {
        WindowMetadata {
            app_id: if is_set(self.steam_game) {
                value_or(self.steam_game, 0)
            } else {
                self.inferred_app_id
            },
            pid: self.pid,
            legacy_big_picture: is_set(self.steam_big_picture),
            overlay: is_set(self.steam_overlay),
            external_overlay: is_set(self.external_overlay),
            streaming_client: is_set(self.streaming_client),
            streaming_client_video: is_set(self.streaming_client_video),
            input_focus_mode: value_or(self.input_focus, 0),
            opacity: value_or(self.opacity, OPAQUE),
        }
    }

    /// Derive the metadata of a window.
    #[must_use]
    pub fn metadata(self) -> (metadata: WindowMetadata)
        ensures
            metadata == self.spec_metadata(),
    {
        let app_id: u32 = read_or(self.steam_game, 0);
        WindowMetadata {
            app_id: if app_id != 0 {
                app_id
            } else {
                self.inferred_app_id
            },
            pid: self.pid,
            legacy_big_picture: read_or(self.steam_big_picture, 0) != 0,
            overlay: read_or(self.steam_overlay, 0) != 0,
            external_overlay: read_or(self.external_overlay, 0) != 0,
            streaming_client: read_or(self.streaming_client, 0) != 0,
            streaming_client_video: read_or(self.streaming_client_video, 0) != 0,
            input_focus_mode: read_or(self.input_focus, 0),
            opacity: read_or(self.opacity, OPAQUE),
        }
    }
}

impl WindowMetadata {
    /// The app that a window counts for.
    pub open spec fn app(self, steam_mode: bool, window_id: u32) -> u32 {
        if self.external_overlay {
            0
        } else if self.legacy_big_picture {
            STEAM_APP_ID
        } else if steam_mode {
            self.app_id
        } else {
            window_id
        }
    }

    #[must_use]
    pub fn effective_app_id(&self, steam_mode: bool, window_id: u32) -> (app_id: u32)
        ensures
            app_id == self.app(steam_mode, window_id),
    {
        if self.external_overlay {
            0
        } else if self.legacy_big_picture {
            STEAM_APP_ID
        } else if steam_mode {
            self.app_id
        } else {
            window_id
        }
    }

    /// Windows that may have the base layer.
    pub open spec fn focusable(self) -> bool {
        !self.overlay && !self.external_overlay && !self.streaming_client_video
    }

    #[must_use]
    pub fn is_focus_candidate(&self) -> (candidate: bool)
        ensures
            candidate == self.focusable(),
    {
        !self.overlay && !self.external_overlay && !self.streaming_client_video
    }
}

/// A window projected into the pure focus policy.
#[derive(Clone, Copy, Debug, PartialEq, Eq, Structural)]
pub struct FocusCandidate {
    pub server_id: u32,
    pub window_id: u32,
    pub app_id: u32,
    pub mapped: bool,
    pub override_redirect: bool,
    pub transient_for: Option<u32>,
    pub width: i32,
    pub height: i32,
    pub sequence: u64,
}

impl FocusCandidate {
    /// Mapped and larger than a placeholder.
    pub open spec fn is_useful(self) -> bool {
        self.mapped && self.width > 1 && self.height > 1
    }

    #[must_use]
    pub fn useful(self) -> (useful: bool)
        ensures
            useful == self.is_useful(),
    {
        self.mapped && self.width > 1 && self.height > 1
    }

    /// The priority of a window: windows of an app before others, managed windows
    /// before override-redirect ones, and then the most recent.
    pub open spec fn priority(self) -> int {
        (if self.app_id != 0 {
            0x2_0000_0000_0000_0000int
        } else {
            0
        }) + (if !self.override_redirect {
            0x1_0000_0000_0000_0000int
        } else {
            0
        }) + self.sequence
    }

    fn priority_value(self) -> (priority: u128)
        ensures
            priority == self.priority(),
    {
        let app: u128 = if self.app_id != 0 {
            0x2_0000_0000_0000_0000
        } else {
            0
        };
        let managed: u128 = if !self.override_redirect {
            0x1_0000_0000_0000_0000
        } else {
            0
        };
        app + managed + self.sequence as u128
    }
}

/// Explicit focus requests written by Steam to the root window.
#[derive(Debug, PartialEq, Eq)]
pub struct FocusControl {
    pub window: Option<u32>,
    pub app_ids: Vec<u32>,
}

impl Default for FocusControl {
    fn default() -> (control: Self)
        ensures
            control.window is None,
            control.app_ids@ == Seq::<u32>::empty(),
    {
        Self { window: None, app_ids: Vec::new() }
    }
}

impl Clone for FocusControl {
    fn clone(&self) -> (copy: Self)
        ensures
            copy.window == self.window,
            copy.app_ids@ == self.app_ids@,
    {
        let copy = Self { window: self.window, app_ids: self.app_ids.clone() };
        assert(copy.app_ids@ =~= self.app_ids@);
        copy
    }
}

/// The predicate of being useful.
pub open spec fn useful_windows() -> spec_fn(FocusCandidate) -> bool {
    |candidate: FocusCandidate| candidate.is_useful()
}

/// The predicate of being useful and having a window ID.
pub open spec fn useful_window(window: u32) -> spec_fn(FocusCandidate) -> bool {
    |candidate: FocusCandidate| candidate.is_useful() && candidate.window_id == window
}

/// The predicate of being useful and belonging to an app.
pub open spec fn useful_app(app_id: u32) -> spec_fn(FocusCandidate) -> bool {
    |candidate: FocusCandidate| candidate.is_useful() && candidate.app_id == app_id
}

/// The priority as a function of candidates.
pub open spec fn by_priority() -> spec_fn(FocusCandidate) -> int {
    |candidate: FocusCandidate| candidate.priority()
}

/// The best window of the first app that has a useful one.
pub open spec fn first_app_window(
    candidates: Seq<FocusCandidate>,
    app_ids: Seq<u32>,
) -> Option<FocusCandidate>
    decreases app_ids.len(),
{
    if app_ids.len() == 0 {
        None
    } else {
        match lists::last_max(candidates, useful_app(app_ids[0]), by_priority()) {
            Some(candidate) => Some(candidate),
            None => first_app_window(candidates, app_ids.drop_first()),
        }
    }
}

/// The first useful window with the given ID.
pub open spec fn requested_window(
    candidates: Seq<FocusCandidate>,
    window: Option<u32>,
) -> Option<FocusCandidate> {
    match window {
        Some(window) => {
            let index = lists::first_index(candidates, useful_window(window));
            if index < candidates.len() {
                Some(candidates[index])
            } else {
                None
            }
        },
        None => None,
    }
}

/// The window that gets the base layer: the requested window, else the best window of the
/// first requested app, else the best window of all.
pub open spec fn focus_choice(
    candidates: Seq<FocusCandidate>,
    window: Option<u32>,
    app_ids: Seq<u32>,
) -> Option<FocusCandidate> {
    match requested_window(candidates, window) {
        Some(candidate) => Some(candidate),
        None => match first_app_window(candidates, app_ids) {
            Some(candidate) => Some(candidate),
            None => lists::last_max(candidates, useful_windows(), by_priority()),
        },
    }
}

/// The useful candidate of highest priority, of one app if an app is given.
fn best_candidate(candidates: &[FocusCandidate], app_id: Option<u32>) -> (best: Option<
    FocusCandidate,
>)
    ensures
        best == (match app_id {
            Some(app_id) => lists::last_max(candidates@, useful_app(app_id), by_priority()),
            None => lists::last_max(candidates@, useful_windows(), by_priority()),
        }),
{
    let ghost wanted = match app_id {
        Some(app_id) => useful_app(app_id),
        None => useful_windows(),
    };
    let ghost rank = by_priority();
    let mut best: Option<FocusCandidate> = None;
    let mut i: usize = 0;
    while i < candidates.len()
        invariant
            i <= candidates@.len(),
            wanted == (match app_id {
                Some(app_id) => useful_app(app_id),
                None => useful_windows(),
            }),
            rank == by_priority(),
            best == lists::last_max(candidates@.take(i as int), wanted, rank),
        decreases candidates@.len() - i,
    {
        proof {
            lists::lemma_last_max_take_next(candidates@, wanted, rank, i as int);
        }
        let candidate = candidates[i];
        let eligible = candidate.useful() && match app_id {
            Some(app_id) => candidate.app_id == app_id,
            None => true,
        };
        if eligible {
            let better = match best {
                Some(best) => best.priority_value() <= candidate.priority_value(),
                None => true,
            };
            if better {
                best = Some(candidate);
            }
        }
        i = i + 1;
    }
    assert(candidates@.take(i as int) =~= candidates@);
    best
}

/// Pick the base window by its externally visible priority.
#[must_use]
pub fn select_focus(candidates: &[FocusCandidate], control: &FocusControl) -> (focus: Option<
    FocusCandidate,
>)
    ensures
        focus == focus_choice(candidates@, control.window, control.app_ids@),
{
    if let Some(window) = control.window {
        let ghost wanted = useful_window(window);
        let mut i: usize = 0;
        while i < candidates.len()
            invariant
                i <= candidates@.len(),
                control.window == Some(window),
                wanted == useful_window(window),
                forall|j: int| 0 <= j < i ==> !wanted(#[trigger] candidates@[j]),
            decreases candidates@.len() - i,
        {
            if candidates[i].useful() && candidates[i].window_id == window {
                proof {
                    lists::lemma_first_index(candidates@, wanted, i as int);
                }
                return Some(candidates[i]);
            }
            i = i + 1;
        }
        proof {
            lists::lemma_first_index(candidates@, wanted, i as int);
        }
    }
    let ghost app_ids = control.app_ids@;
    let mut i: usize = 0;
    assert(app_ids.skip(0) =~= app_ids);
    while i < control.app_ids.len()
        invariant
            i <= control.app_ids@.len(),
            app_ids == control.app_ids@,
            requested_window(candidates@, control.window) is None,
            first_app_window(candidates@, app_ids) == first_app_window(
                candidates@,
                app_ids.skip(i as int),
            ),
        decreases control.app_ids@.len() - i,
    {
        assert(app_ids.skip(i as int).drop_first() =~= app_ids.skip(i + 1));
        let best = best_candidate(candidates, Some(control.app_ids[i]));
        if best.is_some() {
            return best;
        }
        i = i + 1;
    }
    assert(app_ids.skip(i as int) =~= Seq::<u32>::empty());
    best_candidate(candidates, None)
}

/// The predicate of being a popup of `parent` that belongs to the focused window.
pub open spec fn popup_of(focus: FocusCandidate, parent: u32) -> spec_fn(FocusCandidate) -> bool {
    |candidate: FocusCandidate|
        {
            &&& candidate.is_useful()
            &&& candidate.server_id == focus.server_id
            &&& candidate.window_id != focus.window_id
            &&& candidate.transient_for == Some(parent)
            &&& candidate.override_redirect || candidate.app_id == focus.app_id
        }
}

/// The sequence number as a function of candidates.
pub open spec fn by_sequence() -> spec_fn(FocusCandidate) -> int {
    |candidate: FocusCandidate| candidate.sequence as int
}

/// The most recent popup of a window.
pub open spec fn latest_popup(
    focus: FocusCandidate,
    candidates: Seq<FocusCandidate>,
    parent: u32,
) -> Option<FocusCandidate> {
    lists::last_max(candidates, popup_of(focus, parent), by_sequence())
}

/// The predicate of not having been visited.
pub open spec fn unvisited(visited: Set<u32>) -> spec_fn(FocusCandidate) -> bool {
    |candidate: FocusCandidate| !visited.contains(candidate.window_id)
}

/// The end of the chain of popups above `parent`: each link is the most recent popup of
/// the one before, and the chain stops at a window that it has visited.
pub open spec fn popup_chain(
    focus: FocusCandidate,
    candidates: Seq<FocusCandidate>,
    parent: u32,
    selected: Option<FocusCandidate>,
    visited: Set<u32>,
) -> Option<FocusCandidate>
    decreases candidates.filter(unvisited(visited)).len(),
{
    match latest_popup(focus, candidates, parent) {
        Some(next) => if visited.contains(next.window_id) {
            selected
        } else {
            proof {
                lemma_fewer_unvisited(focus, candidates, parent, visited);
            }
            popup_chain(
                focus,
                candidates,
                next.window_id,
                Some(next),
                visited.insert(next.window_id),
            )
        },
        None => selected,
    }
}

/// Visiting a popup leaves fewer windows to visit.
pub proof fn lemma_fewer_unvisited(
    focus: FocusCandidate,
    candidates: Seq<FocusCandidate>,
    parent: u32,
    visited: Set<u32>,
)
    requires
        latest_popup(focus, candidates, parent) matches Some(next) && !visited.contains(
            next.window_id,
        ),
    ensures
        candidates.filter(
            unvisited(
                visited.insert(latest_popup(focus, candidates, parent).unwrap().window_id),
            ),
        ).len() < candidates.filter(unvisited(visited)).len(),
{
    let next = latest_popup(focus, candidates, parent).unwrap();
    lists::lemma_last_max(candidates, popup_of(focus, parent), by_sequence());
    lemma_visit_shrinks(candidates, visited, next);
}

proof fn lemma_visit_shrinks(
    candidates: Seq<FocusCandidate>,
    visited: Set<u32>,
    next: FocusCandidate,
)
    requires
        candidates.contains(next),
        !visited.contains(next.window_id),
    ensures
        candidates.filter(unvisited(visited.insert(next.window_id))).len() < candidates.filter(
            unvisited(visited),
        ).len(),
    decreases candidates.len(),
{
    reveal(Seq::filter);
    let init = candidates.drop_last();
    let last = candidates.last();
    lemma_visit_no_more(init, visited, next.window_id);
    if last != next {
        let i = candidates.index_of(next);
        assert(init[i] == next);
        lemma_visit_shrinks(init, visited, next);
    }
}

proof fn lemma_visit_no_more(candidates: Seq<FocusCandidate>, visited: Set<u32>, window: u32)
    ensures
        candidates.filter(unvisited(visited.insert(window))).len() <= candidates.filter(
            unvisited(visited),
        ).len(),
    decreases candidates.len(),
{
    reveal(Seq::filter);
    if candidates.len() > 0 {
        lemma_visit_no_more(candidates.drop_last(), visited, window);
    }
}

/// The popup that covers the focused window, if there is one.
pub open spec fn override_choice(
    focus: FocusCandidate,
    candidates: Seq<FocusCandidate>,
) -> Option<FocusCandidate> {
    popup_chain(focus, candidates, focus.window_id, None, set![focus.window_id])
}

fn find_latest_popup(focus: FocusCandidate, candidates: &[FocusCandidate], parent: u32) -> (popup:
    Option<FocusCandidate>)
    ensures
        popup == latest_popup(focus, candidates@, parent),
{
    let ghost wanted = popup_of(focus, parent);
    let ghost rank = by_sequence();
    let mut best: Option<FocusCandidate> = None;
    let mut i: usize = 0;
    while i < candidates.len()
        invariant
            i <= candidates@.len(),
            wanted == popup_of(focus, parent),
            rank == by_sequence(),
            best == lists::last_max(candidates@.take(i as int), wanted, rank),
        decreases candidates@.len() - i,
    {
        proof {
            lists::lemma_last_max_take_next(candidates@, wanted, rank, i as int);
        }
        let candidate = candidates[i];
        let child = match candidate.transient_for {
            Some(owner) => owner == parent,
            None => false,
        };
        if candidate.useful() && candidate.server_id == focus.server_id && candidate.window_id
            != focus.window_id && child && (candidate.override_redirect || candidate.app_id
            == focus.app_id) {
            let later = match best {
                Some(best) => best.sequence <= candidate.sequence,
                None => true,
            };
            if later {
                best = Some(candidate);
            }
        }
        i = i + 1;
    }
    assert(candidates@.take(i as int) =~= candidates@);
    best
}

/// Follow transient children and select a popup/override for the focused app.
#[must_use]
pub fn select_override(focus: FocusCandidate, candidates: &[FocusCandidate]) -> (popup: Option<
    FocusCandidate,
>)
    ensures
        popup == override_choice(focus, candidates@),
{
    broadcast use vstd::std_specs::hash::group_hash_axioms;

    let mut parent: u32 = focus.window_id;
    let mut selected: Option<FocusCandidate> = None;
    let mut visited: HashSet<u32> = HashSet::new();
    let _added = visited.insert(parent);
    assert(visited@ =~= set![focus.window_id]);
    loop
        invariant
            override_choice(focus, candidates@) == popup_chain(
                focus,
                candidates@,
                parent,
                selected,
                visited@,
            ),
        decreases candidates@.filter(unvisited(visited@)).len(),
    {
        match find_latest_popup(focus, candidates, parent) {
            None => {
                return selected;
            },
            Some(next) => {
                let ghost before = visited@;
                if !visited.insert(next.window_id) {
                    return selected;
                }
                proof {
                    lemma_fewer_unvisited(focus, candidates@, parent, before);
                }
                parent = next.window_id;
                selected = Some(next);
            },
        }
    }
}

/// The predicate of being a managed window.
pub open spec fn is_managed(managed: Seq<u32>) -> spec_fn(u32) -> bool {
    |window: u32| managed.contains(window)
}

/// Select the first managed X11 ancestor of a swapchain's drawable window.
/// Games commonly create a full-size Vulkan child below their WM-managed
/// toplevel, while the Gamescope WSI protocol identifies the child.
#[must_use]
pub fn select_managed_ancestor(ancestors: &[u32], managed: &Vec<u32>) -> (ancestor: Option<u32>)
    ensures
        ancestor == ({
            let index = lists::first_index(ancestors@, is_managed(managed@));
            if index < ancestors@.len() {
                Some(ancestors@[index])
            } else {
                None
            }
        }),
{
    let ghost wanted = is_managed(managed@);
    let mut i: usize = 0;
    while i < ancestors.len()
        invariant
            i <= ancestors@.len(),
            wanted == is_managed(managed@),
            forall|j: int| 0 <= j < i ==> !wanted(#[trigger] ancestors@[j]),
        decreases ancestors@.len() - i,
    {
        if has_number(managed, ancestors[i]) {
            proof {
                lists::lemma_first_index(ancestors@, wanted, i as int);
            }
            return Some(ancestors[i]);
        }
        i = i + 1;
    }
    proof {
        lists::lemma_first_index(ancestors@, wanted, i as int);
    }
    None
}

/// A change that Steam made through an X11 property.
#[derive(Clone, Copy, Debug, PartialEq, Eq, Structural)]
pub enum BridgeEvent {
    WindowChanged(u32),
    FocusControlChanged,
    CreateXwayland(u32),
    DestroyXwayland(u32),
    GamesRunningChanged(u32),
    SteamMaxHeightChanged(u32),
    FpsLimitChanged(u32),
    ScreenScaleChanged,
    VrrEnabledChanged(bool),
    DisplayForceInternalChanged(bool),
    DisplayModeNudge,
    DynamicRefreshChanged { screen: ScreenType, refresh_hz: u32 },
    CompositeForceChanged(bool),
}

/// Nothing gets the base layer but a useful window, and something gets it whenever there
/// is a useful window.
pub proof fn lemma_focus_is_useful(
    candidates: Seq<FocusCandidate>,
    window: Option<u32>,
    app_ids: Seq<u32>,
)
    ensures
        match focus_choice(candidates, window, app_ids) {
            Some(focus) => candidates.contains(focus) && focus.is_useful(),
            None => forall|i: int|
                0 <= i < candidates.len() ==> !(#[trigger] candidates[i]).is_useful(),
        },
{
    lists::lemma_last_max(candidates, useful_windows(), by_priority());
    if let Some(window) = window {
        lists::lemma_first_index_found(candidates, useful_window(window));
    }
    lemma_app_window_is_useful(candidates, app_ids);
    assert(focus_choice(candidates, window, app_ids) is None ==> forall|i: int|
        0 <= i < candidates.len() ==> !useful_windows()(#[trigger] candidates[i]));
}

proof fn lemma_app_window_is_useful(candidates: Seq<FocusCandidate>, app_ids: Seq<u32>)
    ensures
        first_app_window(candidates, app_ids) matches Some(focus) ==> candidates.contains(focus)
            && focus.is_useful() && app_ids.contains(focus.app_id),
    decreases app_ids.len(),
{
    if app_ids.len() > 0 {
        lists::lemma_last_max(candidates, useful_app(app_ids[0]), by_priority());
        lemma_app_window_is_useful(candidates, app_ids.drop_first());
        if let Some(focus) = first_app_window(candidates, app_ids) {
            if lists::last_max(candidates, useful_app(app_ids[0]), by_priority()) is Some {
                assert(app_ids[0] == focus.app_id);
            } else {
                let i = app_ids.drop_first().index_of(focus.app_id);
                assert(app_ids[i + 1] == focus.app_id);
            }
        }
    }
}

/// A requested window that is useful gets the base layer, whatever else is there.
pub proof fn lemma_requested_window_wins(
    candidates: Seq<FocusCandidate>,
    window: u32,
    app_ids: Seq<u32>,
    i: int,
)
    requires
        0 <= i < candidates.len(),
        candidates[i].is_useful(),
        candidates[i].window_id == window,
    ensures
        focus_choice(candidates, Some(window), app_ids) matches Some(focus) && focus.window_id
            == window,
{
    lists::lemma_first_index_found(candidates, useful_window(window));
    assert(useful_window(window)(candidates[i]));
}

/// Without requests, a window of an app gets the base layer before windows of none,
/// managed windows get it before override-redirect ones, and recency decides the rest.
pub proof fn lemma_priority_order(candidates: Seq<FocusCandidate>, i: int)
    requires
        0 <= i < candidates.len(),
        candidates[i].is_useful(),
    ensures
        focus_choice(candidates, None, Seq::empty()) matches Some(focus) && ({
            let other = candidates[i];
            &&& other.app_id != 0 ==> focus.app_id != 0
            &&& (other.app_id != 0) == (focus.app_id != 0) && !other.override_redirect
                ==> !focus.override_redirect
            &&& (other.app_id != 0) == (focus.app_id != 0) && other.override_redirect
                == focus.override_redirect ==> other.sequence <= focus.sequence
        }),
{
    lists::lemma_last_max(candidates, useful_windows(), by_priority());
    assert(useful_windows()(candidates[i]));
}

/// A popup is a useful window of the focused server other than the focused window, and
/// is override-redirect or belongs to the focused app.
pub proof fn lemma_popup_belongs_to_focus(focus: FocusCandidate, candidates: Seq<FocusCandidate>)
    ensures
        override_choice(focus, candidates) matches Some(popup) ==> {
            &&& candidates.contains(popup)
            &&& popup.is_useful()
            &&& popup.server_id == focus.server_id
            &&& popup.window_id != focus.window_id
            &&& popup.override_redirect || popup.app_id == focus.app_id
        },
{
    lemma_chain_belongs_to_focus(
        focus,
        candidates,
        focus.window_id,
        None,
        set![focus.window_id],
    );
}

spec fn is_popup(
    focus: FocusCandidate,
    candidates: Seq<FocusCandidate>,
    popup: FocusCandidate,
) -> bool {
    &&& candidates.contains(popup)
    &&& popup.is_useful()
    &&& popup.server_id == focus.server_id
    &&& popup.window_id != focus.window_id
    &&& popup.override_redirect || popup.app_id == focus.app_id
}

proof fn lemma_chain_belongs_to_focus(
    focus: FocusCandidate,
    candidates: Seq<FocusCandidate>,
    parent: u32,
    selected: Option<FocusCandidate>,
    visited: Set<u32>,
)
    requires
        selected matches Some(popup) ==> is_popup(focus, candidates, popup),
    ensures
        popup_chain(focus, candidates, parent, selected, visited) matches Some(popup) ==> is_popup(
            focus,
            candidates,
            popup,
        ),
    decreases candidates.filter(unvisited(visited)).len(),
{
    lists::lemma_last_max(candidates, popup_of(focus, parent), by_sequence());
    if let Some(next) = latest_popup(focus, candidates, parent) {
        if !visited.contains(next.window_id) {
            lemma_fewer_unvisited(focus, candidates, parent, visited);
            lemma_chain_belongs_to_focus(
                focus,
                candidates,
                next.window_id,
                Some(next),
                visited.insert(next.window_id),
            );
        }
    }
}

/// One window gets the base layer before another if it belongs to an app and the other does
/// not; among those alike in this, if it is managed and the other is override-redirect; and
/// among those alike in both, if it came later.
pub open spec fn comes_before(left: FocusCandidate, right: FocusCandidate) -> bool {
    if (left.app_id == 0) != (right.app_id == 0) {
        right.app_id == 0
    } else if left.override_redirect != right.override_redirect {
        right.override_redirect
    } else {
        left.sequence > right.sequence
    }
}

/// Place `at` is that of the window of an app that gets the base layer: the window can be
/// seen, and no other such window of the app comes before it. Of windows that are alike the
/// last one counts.
pub open spec fn leads(candidates: Seq<FocusCandidate>, at: int, app_id: Option<u32>) -> bool {
    &&& 0 <= at < candidates.len()
    &&& candidates[at].mapped && candidates[at].width > 1 && candidates[at].height > 1
    &&& app_id matches Some(app_id) ==> candidates[at].app_id == app_id
    &&& forall|i: int|
        #![trigger candidates[i]]
        0 <= i < candidates.len() && candidates[i].mapped && candidates[i].width > 1
            && candidates[i].height > 1 && (app_id matches Some(app_id) ==> candidates[i].app_id
            == app_id) ==> {
            &&& !comes_before(candidates[i], candidates[at])
            &&& i > at ==> comes_before(candidates[at], candidates[i])
        }
}

/// Whether an app has a window that can be seen.
pub open spec fn app_shows(candidates: Seq<FocusCandidate>, app_id: u32) -> bool {
    exists|i: int|
        0 <= i < candidates.len() && (#[trigger] candidates[i]).app_id == app_id
            && candidates[i].mapped && candidates[i].width > 1 && candidates[i].height > 1
}

/// Whether a window of that ID can be seen.
pub open spec fn window_shows(candidates: Seq<FocusCandidate>, window: u32) -> bool {
    exists|i: int|
        0 <= i < candidates.len() && (#[trigger] candidates[i]).window_id == window
            && candidates[i].mapped && candidates[i].width > 1 && candidates[i].height > 1
}

proof fn lemma_best_leads(candidates: Seq<FocusCandidate>, app_id: Option<u32>) -> (at: int)
    ensures
        ({
            let best = match app_id {
                Some(app_id) => lists::last_max(candidates, useful_app(app_id), by_priority()),
                None => lists::last_max(candidates, useful_windows(), by_priority()),
            };
            match best {
                Some(best) => leads(candidates, at, app_id) && candidates[at] == best,
                None => forall|i: int|
                    0 <= i < candidates.len() ==> !((#[trigger] candidates[i]).mapped
                        && candidates[i].width > 1 && candidates[i].height > 1 && (app_id matches Some(
                        app_id,
                    ) ==> candidates[i].app_id == app_id)),
            }
        }),
{
    let wanted = match app_id {
        Some(app_id) => useful_app(app_id),
        None => useful_windows(),
    };
    lists::lemma_last_max(candidates, wanted, by_priority());
    let at = lists::lemma_last_max_place(candidates, wanted, by_priority());
    if let Some(best) = lists::last_max(candidates, wanted, by_priority()) {
        assert forall|i: int|
            #![trigger candidates[i]]
            0 <= i < candidates.len() && candidates[i].mapped && candidates[i].width > 1
                && candidates[i].height > 1 && (app_id matches Some(app_id)
                ==> candidates[i].app_id == app_id) implies {
            &&& !comes_before(candidates[i], candidates[at])
            &&& i > at ==> comes_before(candidates[at], candidates[i])
        } by {
            assert(wanted(candidates[i]));
            assert(by_priority()(candidates[i]) <= by_priority()(candidates[at]));
        }
    } else {
        assert forall|i: int| 0 <= i < candidates.len() implies !((
        #[trigger] candidates[i]).mapped && candidates[i].width > 1 && candidates[i].height > 1 && (
        app_id matches Some(app_id) ==> candidates[i].app_id == app_id)) by {
            assert(!wanted(candidates[i]));
        }
    }
    at
}

proof fn lemma_first_app_leads(candidates: Seq<FocusCandidate>, app_ids: Seq<u32>) -> (place: (
    int,
    int,
))
    ensures
        match first_app_window(candidates, app_ids) {
            Some(focus) => {
                &&& 0 <= place.0 < app_ids.len()
                &&& leads(candidates, place.1, Some(app_ids[place.0]))
                &&& candidates[place.1] == focus
                &&& forall|k: int|
                    0 <= k < place.0 ==> !app_shows(candidates, #[trigger] app_ids[k])
            },
            None => forall|k: int|
                0 <= k < app_ids.len() ==> !app_shows(candidates, #[trigger] app_ids[k]),
        },
    decreases app_ids.len(),
{
    if app_ids.len() == 0 {
        (0, 0)
    } else {
        let at = lemma_best_leads(candidates, Some(app_ids[0]));
        if lists::last_max(candidates, useful_app(app_ids[0]), by_priority()) is Some {
            (0, at)
        } else {
            let rest = app_ids.drop_first();
            let (k, at) = lemma_first_app_leads(candidates, rest);
            assert(!app_shows(candidates, app_ids[0]));
            assert forall|j: int|
                0 <= j < app_ids.len() && (first_app_window(candidates, rest) is Some ==> j < k
                    + 1) implies !app_shows(candidates, #[trigger] app_ids[j]) by {
                if j > 0 {
                    assert(rest[j - 1] == app_ids[j]);
                }
            }
            (k + 1, at)
        }
    }
}

/// Steam's wishes decide who gets the base layer. A requested window that can be seen gets
/// it. Otherwise the requested apps are gone through in order, and the first one with a
/// window that can be seen gives its leading window. Only when no requested app shows a
/// window does the leading window of all get it. Nothing gets it only when nothing can be
/// seen.
pub proof fn lemma_focus_follows_requests(
    candidates: Seq<FocusCandidate>,
    window: Option<u32>,
    app_ids: Seq<u32>,
) -> (place: (int, int))
    ensures
        match focus_choice(candidates, window, app_ids) {
            Some(focus) => {
                let (at, k) = place;
                &&& 0 <= at < candidates.len()
                &&& focus == candidates[at]
                &&& focus.mapped && focus.width > 1 && focus.height > 1
                &&& if window matches Some(window) && window_shows(candidates, window) {
                    &&& window == Some(focus.window_id)
                    &&& forall|i: int|
                        0 <= i < at && (#[trigger] candidates[i]).mapped && candidates[i].width > 1
                            && candidates[i].height > 1 ==> candidates[i].window_id
                            != focus.window_id
                } else if exists|j: int|
                    0 <= j < app_ids.len() && app_shows(candidates, #[trigger] app_ids[j]) {
                    &&& 0 <= k < app_ids.len()
                    &&& focus.app_id == app_ids[k]
                    &&& leads(candidates, at, Some(app_ids[k]))
                    &&& forall|j: int|
                        0 <= j < k ==> !app_shows(candidates, #[trigger] app_ids[j])
                } else {
                    leads(candidates, at, None)
                }
            },
            None => forall|i: int|
                0 <= i < candidates.len() ==> !((#[trigger] candidates[i]).mapped
                    && candidates[i].width > 1 && candidates[i].height > 1),
        },
{
    let of_all = lemma_best_leads(candidates, None);
    let (k, of_app) = lemma_first_app_leads(candidates, app_ids);
    if requested_window(candidates, window) is Some {
        let requested = window.unwrap();
        lists::lemma_first_index_found(candidates, useful_window(requested));
        let at = lists::first_index(candidates, useful_window(requested));
        assert(useful_window(requested)(candidates[at]));
        assert(window_shows(candidates, requested));
        assert forall|i: int|
            0 <= i < at && (#[trigger] candidates[i]).mapped && candidates[i].width > 1
                && candidates[i].height > 1 implies candidates[i].window_id != requested by {
            assert(!useful_window(requested)(candidates[i]));
        }
        (at, 0)
    } else {
        if let Some(requested) = window {
            lists::lemma_first_index_found(candidates, useful_window(requested));
            if window_shows(candidates, requested) {
                let i = choose|i: int|
                    0 <= i < candidates.len() && (#[trigger] candidates[i]).window_id == requested
                        && candidates[i].mapped && candidates[i].width > 1
                        && candidates[i].height > 1;
                assert(useful_window(requested)(candidates[i]));
            }
        }
        if first_app_window(candidates, app_ids) is Some {
            assert(app_shows(candidates, app_ids[k])) by {
                assert(candidates[of_app].app_id == app_ids[k]);
            }
            (of_app, k)
        } else {
            (of_all, 0)
        }
    }
}

/// Whether a window is a popup of `parent` that may cover the focused window: it can be seen,
/// shares the focused window's server, and is override-redirect or of the focused app.
pub open spec fn may_cover(focus: FocusCandidate, parent: u32, popup: FocusCandidate) -> bool {
    &&& popup.mapped && popup.width > 1 && popup.height > 1
    &&& popup.server_id == focus.server_id
    &&& popup.window_id != focus.window_id
    &&& popup.transient_for == Some(parent)
    &&& popup.override_redirect || popup.app_id == focus.app_id
}

/// Whether a window is the most recent popup of `parent`.
pub open spec fn covers(
    focus: FocusCandidate,
    candidates: Seq<FocusCandidate>,
    parent: u32,
    popup: FocusCandidate,
) -> bool {
    &&& candidates.contains(popup)
    &&& may_cover(focus, parent, popup)
    &&& forall|i: int|
        0 <= i < candidates.len() && may_cover(focus, parent, #[trigger] candidates[i])
            ==> candidates[i].sequence <= popup.sequence
}

/// The window that the next popup of a chain belongs to.
pub open spec fn chain_tip(focus: FocusCandidate, chain: Seq<FocusCandidate>) -> u32 {
    if chain.len() == 0 {
        focus.window_id
    } else {
        chain.last().window_id
    }
}

/// A chain of popups: each covers the one before it, the first one the focused window, and
/// no window comes twice.
pub open spec fn is_popup_chain(
    focus: FocusCandidate,
    candidates: Seq<FocusCandidate>,
    chain: Seq<FocusCandidate>,
) -> bool {
    &&& forall|n: int|
        0 <= n < chain.len() ==> covers(
            focus,
            candidates,
            chain_tip(focus, chain.take(n)),
            #[trigger] chain[n],
        )
    &&& forall|m: int, n: int|
        0 <= m < n < chain.len() ==> (#[trigger] chain[m]).window_id != (
        #[trigger] chain[n]).window_id
}

proof fn lemma_latest_popup_covers(
    focus: FocusCandidate,
    candidates: Seq<FocusCandidate>,
    parent: u32,
)
    ensures
        match latest_popup(focus, candidates, parent) {
            Some(popup) => covers(focus, candidates, parent, popup),
            None => forall|i: int|
                0 <= i < candidates.len() ==> !may_cover(focus, parent, #[trigger] candidates[i]),
        },
{
    let wanted = popup_of(focus, parent);
    lists::lemma_last_max(candidates, wanted, by_sequence());
    assert forall|popup: FocusCandidate| #[trigger] wanted(popup) == may_cover(
        focus,
        parent,
        popup,
    ) by {}
    if let Some(popup) = latest_popup(focus, candidates, parent) {
        assert forall|i: int|
            0 <= i < candidates.len() && may_cover(focus, parent, #[trigger] candidates[i]) implies
            candidates[i].sequence <= popup.sequence by {
            assert(wanted(candidates[i]));
        }
    } else {
        assert forall|i: int| 0 <= i < candidates.len() implies !may_cover(
            focus,
            parent,
            #[trigger] candidates[i],
        ) by {
            assert(!wanted(candidates[i]));
        }
    }
}

proof fn lemma_chain_is_followed(
    focus: FocusCandidate,
    candidates: Seq<FocusCandidate>,
    before: Seq<FocusCandidate>,
    visited: Set<u32>,
) -> (chain: Seq<FocusCandidate>)
    requires
        is_popup_chain(focus, candidates, before),
        visited.contains(focus.window_id),
        forall|n: int| 0 <= n < before.len() ==> visited.contains((#[trigger] before[n]).window_id),
        forall|id: u32| #[trigger]
            visited.contains(id) ==> id == focus.window_id || exists|n: int|
                0 <= n < before.len() && (#[trigger] before[n]).window_id == id,
    ensures
        is_popup_chain(focus, candidates, chain),
        popup_chain(
            focus,
            candidates,
            chain_tip(focus, before),
            if before.len() == 0 {
                None
            } else {
                Some(before.last())
            },
            visited,
        ) == (if chain.len() == 0 {
            None
        } else {
            Some(chain.last())
        }),
        forall|popup: FocusCandidate| #[trigger]
            candidates.contains(popup) && may_cover(focus, chain_tip(focus, chain), popup)
                ==> exists|again: FocusCandidate, n: int|
                #![trigger chain[n], covers(focus, candidates, chain_tip(focus, chain), again)]
                covers(focus, candidates, chain_tip(focus, chain), again) && 0 <= n < chain.len()
                    && chain[n].window_id == again.window_id,
    decreases candidates.filter(unvisited(visited)).len(),
{
    let parent = chain_tip(focus, before);
    lemma_latest_popup_covers(focus, candidates, parent);
    match latest_popup(focus, candidates, parent) {
        Some(next) => {
            if visited.contains(next.window_id) {
                let n = choose|n: int|
                    0 <= n < before.len() && (#[trigger] before[n]).window_id == next.window_id;
                assert(before[n].window_id == next.window_id);
                before
            } else {
                lemma_fewer_unvisited(focus, candidates, parent, visited);
                let longer = before.push(next);
                assert(is_popup_chain(focus, candidates, longer)) by {
                    assert forall|n: int| 0 <= n < longer.len() implies covers(
                        focus,
                        candidates,
                        chain_tip(focus, longer.take(n)),
                        #[trigger] longer[n],
                    ) by {
                        if n < before.len() {
                            assert(longer.take(n) =~= before.take(n));
                            assert(longer[n] == before[n]);
                        } else {
                            assert(longer.take(n) =~= before);
                        }
                    }
                }
                let more = visited.insert(next.window_id);
                assert forall|id: u32| #[trigger] more.contains(id) implies id == focus.window_id
                    || exists|n: int|
                    0 <= n < longer.len() && (#[trigger] longer[n]).window_id == id by {
                    if id == next.window_id {
                        assert(longer[before.len() as int].window_id == id);
                    } else if id != focus.window_id {
                        let n = choose|n: int|
                            0 <= n < before.len() && (#[trigger] before[n]).window_id == id;
                        assert(longer[n].window_id == id);
                    }
                }
                lemma_chain_is_followed(focus, candidates, longer, more)
            }
        },
        None => {
            assert forall|popup: FocusCandidate| #[trigger]
                candidates.contains(popup) && may_cover(focus, parent, popup) implies false by {
                let i = candidates.index_of(popup);
                assert(!may_cover(focus, parent, candidates[i]));
            }
            before
        },
    }
}

/// Popups are followed to the end: from the focused window to its most recent popup, from
/// there to the most recent popup of that one, and so on. The end of this chain is chosen,
/// and the chain ends only where no popup is left, or where it would come back to a window
/// that it has passed.
pub proof fn lemma_popups_are_followed(
    focus: FocusCandidate,
    candidates: Seq<FocusCandidate>,
) -> (chain: Seq<FocusCandidate>)
    ensures
        is_popup_chain(focus, candidates, chain),
        override_choice(focus, candidates) == (if chain.len() == 0 {
            None
        } else {
            Some(chain.last())
        }),
        forall|popup: FocusCandidate| #[trigger]
            candidates.contains(popup) && may_cover(focus, chain_tip(focus, chain), popup)
                ==> exists|again: FocusCandidate, n: int|
                #![trigger chain[n], covers(focus, candidates, chain_tip(focus, chain), again)]
                covers(focus, candidates, chain_tip(focus, chain), again) && 0 <= n < chain.len()
                    && chain[n].window_id == again.window_id,
{
    lemma_chain_is_followed(focus, candidates, Seq::empty(), set![focus.window_id])
}

/// A popup of the focused window that can be seen is enough for some popup to be chosen.
pub proof fn lemma_popup_is_found(
    focus: FocusCandidate,
    candidates: Seq<FocusCandidate>,
    popup: FocusCandidate,
)
    requires
        candidates.contains(popup),
        may_cover(focus, focus.window_id, popup),
    ensures
        override_choice(focus, candidates) is Some,
{
    let chain = lemma_popups_are_followed(focus, candidates);
    if chain.len() == 0 {
        assert(chain_tip(focus, chain) == focus.window_id);
    }
}

/// What a window's properties make of it: its own app ID comes before the inferred one,
/// a role is taken by any value but zero, and a window without an opacity is opaque.
pub proof fn lemma_properties_give_roles(properties: WindowProperties)
    ensures
        ({
            let metadata = properties.spec_metadata();
            &&& properties.steam_game matches Some(app_id) ==> app_id != 0 ==> metadata.app_id
                == app_id
            &&& properties.steam_game is None || properties.steam_game == Some(0u32)
                ==> metadata.app_id == properties.inferred_app_id
            &&& metadata.pid == properties.pid
            &&& metadata.legacy_big_picture <==> properties.steam_big_picture is Some
                && properties.steam_big_picture != Some(0u32)
            &&& metadata.overlay <==> properties.steam_overlay is Some
                && properties.steam_overlay != Some(0u32)
            &&& metadata.external_overlay <==> properties.external_overlay is Some
                && properties.external_overlay != Some(0u32)
            &&& metadata.streaming_client <==> properties.streaming_client is Some
                && properties.streaming_client != Some(0u32)
            &&& metadata.streaming_client_video <==> properties.streaming_client_video is Some
                && properties.streaming_client_video != Some(0u32)
            &&& properties.input_focus matches Some(mode) ==> metadata.input_focus_mode == mode
            &&& properties.input_focus is None ==> metadata.input_focus_mode == 0
            &&& properties.opacity matches Some(opacity) ==> metadata.opacity == opacity
            &&& properties.opacity is None ==> metadata.opacity == 0xffff_ffff
        }),
{
}

/// The app that a window counts for: none for an external overlay, Steam for its old
/// interface, the app of its metadata in Steam mode, and otherwise the window alone. No
/// overlay and no streamed video may have the base layer; every other window may.
pub proof fn lemma_windows_count_for_apps(
    metadata: WindowMetadata,
    steam_mode: bool,
    window_id: u32,
)
    ensures
        metadata.external_overlay ==> metadata.app(steam_mode, window_id) == 0,
        !metadata.external_overlay && metadata.legacy_big_picture ==> metadata.app(
            steam_mode,
            window_id,
        ) == 769,
        !metadata.external_overlay && !metadata.legacy_big_picture ==> metadata.app(
            true,
            window_id,
        ) == metadata.app_id && metadata.app(false, window_id) == window_id,
        metadata.focusable() <==> !(metadata.overlay || metadata.external_overlay
            || metadata.streaming_client_video),
{
}

/// A window of which nothing is known has no role and no app, asks for no input, is opaque,
/// and may have the base layer.
pub proof fn lemma_unknown_windows_are_plain(window_id: u32)
    ensures
        ({
            let plain = plain_metadata();
            &&& plain.app_id == 0 && plain.pid == 0
            &&& !plain.legacy_big_picture && !plain.overlay && !plain.external_overlay
            &&& !plain.streaming_client && !plain.streaming_client_video
            &&& plain.input_focus_mode == 0
            &&& plain.opacity == 0xffff_ffff
            &&& plain.focusable()
            &&& plain.app(true, window_id) == 0 && plain.app(false, window_id) == window_id
        }),
{
}

} // verus!
