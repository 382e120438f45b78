//! The worker that isolates X11 property traffic from the Wayland thread: what is handed
//! to it, and what it does next.

use vstd::prelude::*;

use crate::lists;
use crate::lists::{has_number, remove_number};
use crate::steam::{BridgeEvent, FocusControl, WindowMetadata};
use crate::steam;
use crate::steam_properties::{FocusPublication, VrrFeedback};
use crate::tables;
use crate::tables::Table;

verus! {

/// Fixed-point one of the screen scale.
pub const SCREEN_SCALE_ONE: u32 = 0xffff_ffff;

/// Fixed-point one of the screen magnification.
pub const SCREEN_MAGNIFICATION_ONE: u32 = 0xffff;

/// The properties of a root window that are read when a server connects.
#[derive(Debug)]
pub struct RootProperties {
    pub focus_control: FocusControl,
    pub games_running: Option<u32>,
    pub steam_max_height: Option<u32>,
    pub fps_limit: Option<u32>,
    pub screen_scale: Option<u32>,
    pub screen_magnification: Option<u32>,
    pub force_internal: Option<u32>,
    pub composite_force: Option<u32>,
}

/// What Steam had asked for when a server connected.
#[derive(Clone, Debug, PartialEq, Eq)]
pub struct BridgeInitialState {
    pub focus_control: FocusControl,
    pub games_running: u32,
    pub steam_max_height: u32,
    pub fps_limit: u32,
    /// In units of [`SCREEN_SCALE_ONE`].
    pub screen_scale: u32,
    /// In units of [`SCREEN_MAGNIFICATION_ONE`].
    pub screen_magnification: u32,
    pub force_internal: bool,
    pub composite_force: bool,
}

/// Derive the initial state of a server from its properties.
#[must_use]
pub fn bridge_initial_state(properties: RootProperties) -> (initial: BridgeInitialState)
    ensures
        initial == (BridgeInitialState {
            focus_control: properties.focus_control,
            games_running: steam::value_or(properties.games_running, 0),
            steam_max_height: steam::value_or(properties.steam_max_height, 0),
            fps_limit: steam::value_or(properties.fps_limit, 0),
            screen_scale: steam::value_or(properties.screen_scale, SCREEN_SCALE_ONE),
            screen_magnification: steam::value_or(
                properties.screen_magnification,
                SCREEN_MAGNIFICATION_ONE,
            ),
            force_internal: steam::is_set(properties.force_internal),
            composite_force: steam::is_set(properties.composite_force),
        }),
{
    BridgeInitialState {
        focus_control: properties.focus_control,
        games_running: properties.games_running.unwrap_or(0),
        steam_max_height: properties.steam_max_height.unwrap_or(0),
        fps_limit: properties.fps_limit.unwrap_or(0),
        screen_scale: properties.screen_scale.unwrap_or(SCREEN_SCALE_ONE),
        screen_magnification: properties.screen_magnification.unwrap_or(SCREEN_MAGNIFICATION_ONE),
        force_internal: properties.force_internal.unwrap_or(0) != 0,
        composite_force: properties.composite_force.unwrap_or(0) != 0,
    }
}

/// What the worker reports to the Wayland thread.
#[derive(Clone, Debug, PartialEq, Eq)]
#[allow(inconsistent_fields)]
pub enum SteamWorkerEvent {
    Ready { server_id: u32, initial: BridgeInitialState },
    WindowMetadata { server_id: u32, window: u32, metadata: WindowMetadata },
    WindowAncestors { server_id: u32, window: u32, ancestors: Vec<u32> },
    FocusControl { server_id: u32, control: FocusControl },
    ScreenScale { server_id: u32, scale: u32, magnification: u32 },
    Event { server_id: u32, event: BridgeEvent },
    Error { server_id: Option<u32>, message: String },
}

/// What the Wayland thread asks of the worker.
#[derive(Debug, PartialEq, Eq)]
pub enum SteamWorkerCommand {
    Register { display_number: u32, server_id: u32, refresh_millihz: i32 },
    Remove { server_id: u32 },
    WatchWindow { server_id: u32, window: u32, pid: Option<u32> },
    ReadWindow { server_id: u32, window: u32, pid: Option<u32> },
    ResolveWindow { server_id: u32, window: u32 },
    CreateFeedback { identifier: u32, server_id: u32, display_name: String },
}

/// The X input focus that a server is to have.
#[derive(Clone, Copy, Debug, PartialEq, Eq, Structural)]
pub struct InputFocus {
    pub server_id: u32,
    pub window: Option<u32>,
}

/// What the Wayland thread has left for the worker. Publications replace one another, so
/// that only the latest is written.
#[derive(Debug)]
pub struct SteamBridgeWorker {
    commands: Vec<SteamWorkerCommand>,
    focus: Option<FocusPublication>,
    input_counter: Option<u32>,
    input_focus: Vec<InputFocus>,
    direct_scanout_status: Option<u32>,
    vrr_feedback: Option<VrrFeedback>,
    refresh_millihz: Option<i32>,
}

/// What waits for the worker.
pub struct MailboxView {
    /// Commands, oldest first.
    pub commands: Seq<SteamWorkerCommand>,
    pub focus: Option<FocusPublication>,
    pub input_counter: Option<u32>,
    pub input_focus: Seq<InputFocus>,
    pub direct_scanout_status: Option<u32>,
    pub vrr_feedback: Option<VrrFeedback>,
    pub refresh_millihz: Option<i32>,
}

impl View for SteamBridgeWorker {
    type V = MailboxView;

    closed spec fn view(&self) -> MailboxView {
        MailboxView {
            commands: self.commands@,
            focus: self.focus,
            input_counter: self.input_counter,
            input_focus: self.input_focus@,
            direct_scanout_status: self.direct_scanout_status,
            vrr_feedback: self.vrr_feedback,
            refresh_millihz: self.refresh_millihz,
        }
    }
}

/// The predicate of being the focus of a server.
pub open spec fn focus_of(server_id: u32) -> spec_fn(InputFocus) -> bool {
    |focus: InputFocus| focus.server_id == server_id
}

/// The focus of a server is replaced, or added at the end.
pub open spec fn with_input_focus(
    pending: Seq<InputFocus>,
    server_id: u32,
    window: Option<u32>,
) -> Seq<InputFocus> {
    let index = lists::first_index(pending, focus_of(server_id));
    if index < pending.len() {
        pending.update(index, InputFocus { server_id, window })
    } else {
        pending.push(InputFocus { server_id, window })
    }
}

/// The foci of one mailbox replace those of another, server by server.
pub open spec fn with_input_foci(pending: Seq<InputFocus>, newer: Seq<InputFocus>) -> Seq<InputFocus>
    decreases newer.len(),
{
    if newer.len() == 0 {
        pending
    } else {
        with_input_focus(
            with_input_foci(pending, newer.drop_last()),
            newer.last().server_id,
            newer.last().window,
        )
    }
}

/// A publication replaces an older one.
pub open spec fn latest<T>(older: Option<T>, newer: Option<T>) -> Option<T> {
    if newer is Some {
        newer
    } else {
        older
    }
}

/// What two mailboxes hold together.
pub open spec fn joined(older: MailboxView, newer: MailboxView) -> MailboxView {
    MailboxView {
        commands: older.commands + newer.commands,
        focus: latest(older.focus, newer.focus),
        input_counter: latest(older.input_counter, newer.input_counter),
        input_focus: with_input_foci(older.input_focus, newer.input_focus),
        direct_scanout_status: latest(older.direct_scanout_status, newer.direct_scanout_status),
        vrr_feedback: latest(older.vrr_feedback, newer.vrr_feedback),
        refresh_millihz: latest(older.refresh_millihz, newer.refresh_millihz),
    }
}

impl SteamBridgeWorker {
    /// A mailbox with nothing in it.
    #[must_use]
    pub fn new() -> (worker: Self)
        ensures
            worker@ == (MailboxView {
                commands: Seq::empty(),
                focus: None,
                input_counter: None,
                input_focus: Seq::empty(),
                direct_scanout_status: None,
                vrr_feedback: None,
                refresh_millihz: None,
            }),
    {
        Self {
            commands: Vec::new(),
            focus: None,
            input_counter: None,
            input_focus: Vec::new(),
            direct_scanout_status: None,
            vrr_feedback: None,
            refresh_millihz: None,
        }
    }

    fn send(&mut self, command: SteamWorkerCommand)
        ensures
            final(self)@ == (MailboxView {
                commands: old(self)@.commands.push(command),
                ..old(self)@
            }),
    {
        self.commands.push(command);
    }

    pub fn register(&mut self, display_number: u32, server_id: u32, refresh_millihz: i32)
        ensures
            final(self)@ == (MailboxView {
                commands: old(self)@.commands.push(
                    SteamWorkerCommand::Register { display_number, server_id, refresh_millihz },
                ),
                ..old(self)@
            }),
    {
        self.send(SteamWorkerCommand::Register { display_number, server_id, refresh_millihz });
    }

    pub fn remove(&mut self, server_id: u32)
        ensures
            final(self)@ == (MailboxView {
                commands: old(self)@.commands.push(SteamWorkerCommand::Remove { server_id }),
                ..old(self)@
            }),
    {
        self.send(SteamWorkerCommand::Remove { server_id });
    }

    pub fn watch_window(&mut self, server_id: u32, window: u32, pid: Option<u32>)
        ensures
            final(self)@ == (MailboxView {
                commands: old(self)@.commands.push(
                    SteamWorkerCommand::WatchWindow { server_id, window, pid },
                ),
                ..old(self)@
            }),
    {
        self.send(SteamWorkerCommand::WatchWindow { server_id, window, pid });
    }

    pub fn read_window(&mut self, server_id: u32, window: u32, pid: Option<u32>)
        ensures
            final(self)@ == (MailboxView {
                commands: old(self)@.commands.push(
                    SteamWorkerCommand::ReadWindow { server_id, window, pid },
                ),
                ..old(self)@
            }),
    {
        self.send(SteamWorkerCommand::ReadWindow { server_id, window, pid });
    }

    /// Resolve a Vulkan drawable's X11 parent chain on the isolated worker, never on the
    /// latency-sensitive Wayland thread.
    pub fn resolve_window(&mut self, server_id: u32, window: u32)
        ensures
            final(self)@ == (MailboxView {
                commands: old(self)@.commands.push(
                    SteamWorkerCommand::ResolveWindow { server_id, window },
                ),
                ..old(self)@
            }),
    {
        self.send(SteamWorkerCommand::ResolveWindow { server_id, window });
    }

    pub fn publish_create_feedback(
        &mut self,
        identifier: u32,
        server_id: u32,
        display_name: String,
    )
        ensures
            final(self)@ == (MailboxView {
                commands: old(self)@.commands.push(
                    SteamWorkerCommand::CreateFeedback { identifier, server_id, display_name },
                ),
                ..old(self)@
            }),
    {
        self.send(SteamWorkerCommand::CreateFeedback { identifier, server_id, display_name });
    }

    pub fn publish_input_counter(&mut self, counter: u32)
        ensures
            final(self)@ == (MailboxView { input_counter: Some(counter), ..old(self)@ }),
    {
        self.input_counter = Some(counter);
    }

    /// X input focus is set explicitly instead of relying on `WM_TAKE_FOCUS` clients to
    /// do so.
    pub fn set_input_focus(&mut self, server_id: u32, window: Option<u32>)
        ensures
            final(self)@ == (MailboxView {
                input_focus: with_input_focus(old(self)@.input_focus, server_id, window),
                ..old(self)@
            }),
    {
        let ghost wanted = focus_of(server_id);
        let ghost before = *self;
        let mut i: usize = 0;
        while i < self.input_focus.len()
            invariant
                i <= self.input_focus@.len(),
                *self == before,
                before == *old(self),
                wanted == focus_of(server_id),
                forall|j: int| 0 <= j < i ==> !wanted(#[trigger] self.input_focus@[j]),
            decreases self.input_focus@.len() - i,
        {
            if self.input_focus[i].server_id == server_id {
                proof {
                    lists::lemma_first_index(self.input_focus@, wanted, i as int);
                }
                self.input_focus.set(i, InputFocus { server_id, window });
                return;
            }
            i = i + 1;
        }
        proof {
            lists::lemma_first_index(self.input_focus@, wanted, i as int);
        }
        self.input_focus.push(InputFocus { server_id, window });
    }

    /// Leave hardware feedback on variable refresh. Whether Steam asked for it is not for
    /// the hardware to say.
    pub fn publish_vrr(&mut self, capable: bool, in_use: bool)
        ensures
            final(self)@ == (MailboxView {
                vrr_feedback: Some(VrrFeedback { capable, in_use }),
                ..old(self)@
            }),
    {
        self.vrr_feedback = Some(VrrFeedback { capable, in_use });
    }

    pub fn publish_direct_scanout_status(&mut self, status: u32)
        ensures
            final(self)@ == (MailboxView { direct_scanout_status: Some(status), ..old(self)@ }),
    {
        self.direct_scanout_status = Some(status);
    }

    pub fn publish_refresh(&mut self, refresh_millihz: i32)
        ensures
            final(self)@ == (MailboxView { refresh_millihz: Some(refresh_millihz), ..old(self)@ }),
    {
        self.refresh_millihz = Some(refresh_millihz);
    }

    pub fn publish_focus(&mut self, publication: FocusPublication)
        ensures
            final(self)@ == (MailboxView { focus: Some(publication), ..old(self)@ }),
    {
        self.focus = Some(publication);
    }

    /// Take the commands, oldest first.
    pub fn take_commands(&mut self) -> (commands: Vec<SteamWorkerCommand>)
        ensures
            commands@ == old(self)@.commands,
            final(self)@ == (MailboxView { commands: Seq::empty(), ..old(self)@ }),
    {
        let mut commands: Vec<SteamWorkerCommand> = Vec::new();
        std::mem::swap(&mut commands, &mut self.commands);
        commands
    }

    /// Add what has been left in a newer mailbox.
    pub fn absorb(&mut self, newer: SteamBridgeWorker)
        ensures
            final(self)@ == joined(old(self)@, newer@),
    {
        let mut newer = newer;
        self.commands.append(&mut newer.commands);
        if newer.focus.is_some() {
            self.focus = newer.focus;
        }
        if newer.input_counter.is_some() {
            self.input_counter = newer.input_counter;
        }
        if newer.direct_scanout_status.is_some() {
            self.direct_scanout_status = newer.direct_scanout_status;
        }
        if newer.vrr_feedback.is_some() {
            self.vrr_feedback = newer.vrr_feedback;
        }
        if newer.refresh_millihz.is_some() {
            self.refresh_millihz = newer.refresh_millihz;
        }
        let ghost before = self@;
        let ghost foci = newer.input_focus@;
        let mut i: usize = 0;
        while i < newer.input_focus.len()
            invariant
                i <= newer.input_focus@.len(),
                foci == newer.input_focus@,
                self@ == (MailboxView {
                    input_focus: with_input_foci(before.input_focus, foci.take(i as int)),
                    ..before
                }),
            decreases newer.input_focus@.len() - i,
        {
            let focus = newer.input_focus[i];
            self.set_input_focus(focus.server_id, focus.window);
            assert(foci.take(i + 1).drop_last() =~= foci.take(i as int));
            i = i + 1;
        }
        assert(foci.take(i as int) =~= foci);
    }
}

/// What the worker does on an X11 connection.
#[derive(Debug, PartialEq, Eq)]
#[allow(inconsistent_fields)]
pub enum WorkerAction {
    /// Connect to a display and, on success, write its initial properties.
    Connect { display_number: u32, server_id: u32, refresh_millihz: i32 },
    Disconnect { server_id: u32 },
    /// Ask for the property changes of a window.
    Watch { server_id: u32, window: u32 },
    /// Read the metadata of a window and report it.
    ReadMetadata { server_id: u32, window: u32, pid: Option<u32> },
    /// Find the ancestors of a window and report them.
    FindAncestors { server_id: u32, window: u32 },
    WriteCreateFeedback { identifier: u32, server_id: u32, display_name: String },
    WriteFocus(FocusPublication),
    WriteInputCounter(u32),
    WriteScanoutStatus(u32),
    WriteVrr { last: Option<VrrFeedback>, feedback: VrrFeedback },
    WriteRefresh(i32),
    SetInputFocus { server_id: u32, window: Option<u32> },
    /// Read the focus requests and report them.
    ReadFocusControl { server_id: u32 },
    /// Read the screen scale and magnification and report them.
    ReadScreenScale { server_id: u32 },
    /// Report an event as it is.
    Report { server_id: u32, event: BridgeEvent },
}

/// The state of the worker: its connections, the processes of the windows it was told of,
/// and the variable-refresh feedback it has written.
pub struct SteamWorkerState {
    bridges: Vec<u32>,
    window_pids: Table<Option<u32>>,
    vrr_written: Option<VrrFeedback>,
}

/// What the worker knows.
pub struct WorkerView {
    /// Connected servers.
    pub bridges: Seq<u32>,
    /// The process of a window, by [`window_key`].
    pub window_pids: Map<u64, Option<u32>>,
    pub vrr_written: Option<VrrFeedback>,
}

impl View for SteamWorkerState {
    type V = WorkerView;

    closed spec fn view(&self) -> WorkerView {
        WorkerView {
            bridges: self.bridges@,
            window_pids: self.window_pids@,
            vrr_written: self.vrr_written,
        }
    }
}

/// One number for a server and a window.
pub open spec fn window_key(server_id: u32, window: u32) -> u64 {
    (server_id * 0x1_0000_0000 + window) as u64
}

/// One number for a server and a window.
#[must_use]
pub fn key_of_window(server_id: u32, window: u32) -> (key: u64)
    ensures
        key == window_key(server_id, window),
        key == server_id * 0x1_0000_0000 + window,
{
    server_id as u64 * 0x1_0000_0000 + window as u64
}

/// The keys of all windows of a server.
pub open spec fn server_keys(server_id: u32) -> Set<u64> {
    tables::key_range(window_key(server_id, 0), window_key(server_id, u32::MAX))
}

/// A key names one window of one server.
pub proof fn lemma_window_keys(server_id: u32, window: u32, other_server: u32, other: u32)
    ensures
        window_key(server_id, window) == window_key(other_server, other) <==> server_id
            == other_server && window == other,
        server_keys(other_server).contains(window_key(server_id, window)) <==> server_id
            == other_server,
{
}

impl WorkerView {
    pub open spec fn connected(self, server_id: u32) -> bool {
        self.bridges.contains(server_id)
    }

    /// The worker after a command.
    pub open spec fn after_command(self, command: SteamWorkerCommand) -> WorkerView {
        match command {
            SteamWorkerCommand::Remove { server_id } => WorkerView {
                bridges: lists::without_number(self.bridges, server_id),
                window_pids: self.window_pids.remove_keys(server_keys(server_id)),
                vrr_written: if server_id == 0 {
                    None
                } else {
                    self.vrr_written
                },
            },
            SteamWorkerCommand::WatchWindow { server_id, window, pid } => WorkerView {
                window_pids: self.window_pids.insert(window_key(server_id, window), pid),
                ..self
            },
            SteamWorkerCommand::ReadWindow { server_id, window, pid } => WorkerView {
                window_pids: self.window_pids.insert(window_key(server_id, window), pid),
                ..self
            },
            _ => self,
        }
    }

    /// What a command makes the worker do. Without a connection to the server concerned
    /// there is nothing to do but to connect.
    pub open spec fn command_actions(self, command: SteamWorkerCommand) -> Seq<WorkerAction> {
        match command {
            SteamWorkerCommand::Register { display_number, server_id, refresh_millihz } => seq![
                WorkerAction::Connect { display_number, server_id, refresh_millihz },
            ],
            SteamWorkerCommand::Remove { server_id } => seq![
                WorkerAction::Disconnect { server_id },
            ],
            SteamWorkerCommand::WatchWindow { server_id, window, pid } => if self.connected(
                server_id,
            ) {
                seq![
                    WorkerAction::Watch { server_id, window },
                    WorkerAction::ReadMetadata { server_id, window, pid },
                ]
            } else {
                Seq::empty()
            },
            SteamWorkerCommand::ReadWindow { server_id, window, pid } => if self.connected(
                server_id,
            ) {
                seq![WorkerAction::ReadMetadata { server_id, window, pid }]
            } else {
                Seq::empty()
            },
            SteamWorkerCommand::ResolveWindow { server_id, window } => if self.connected(
                server_id,
            ) {
                seq![WorkerAction::FindAncestors { server_id, window }]
            } else {
                Seq::empty()
            },
            SteamWorkerCommand::CreateFeedback { identifier, server_id, display_name } => {
                if self.connected(0) {
                    seq![
                        WorkerAction::WriteCreateFeedback { identifier, server_id, display_name },
                    ]
                } else {
                    Seq::empty()
                }
            },
        }
    }

    /// What an event of a connection makes the worker do.
    pub open spec fn event_action(self, server_id: u32, event: BridgeEvent) -> WorkerAction {
        match event {
            BridgeEvent::WindowChanged(window) => WorkerAction::ReadMetadata {
                server_id,
                window,
                pid: if self.window_pids.contains_key(window_key(server_id, window)) {
                    self.window_pids[window_key(server_id, window)]
                } else {
                    None
                },
            },
            BridgeEvent::FocusControlChanged => WorkerAction::ReadFocusControl { server_id },
            BridgeEvent::ScreenScaleChanged => WorkerAction::ReadScreenScale { server_id },
            _ => WorkerAction::Report { server_id, event },
        }
    }
}

/// The predicate of being the focus of a connected server.
pub open spec fn is_connected(bridges: Seq<u32>) -> spec_fn(InputFocus) -> bool {
    |focus: InputFocus| bridges.contains(focus.server_id)
}

/// The predicate of being the focus of a server without a connection.
pub open spec fn is_waiting(bridges: Seq<u32>) -> spec_fn(InputFocus) -> bool {
    |focus: InputFocus| !bridges.contains(focus.server_id)
}

/// The publications that wait for the root window of the first server.
pub open spec fn root_publications(
    mailbox: MailboxView,
    vrr_written: Option<VrrFeedback>,
) -> Seq<WorkerAction> {
    (match mailbox.focus {
        Some(publication) => seq![WorkerAction::WriteFocus(publication)],
        None => Seq::empty(),
    }) + (match mailbox.input_counter {
        Some(counter) => seq![WorkerAction::WriteInputCounter(counter)],
        None => Seq::empty(),
    }) + (match mailbox.direct_scanout_status {
        Some(status) => seq![WorkerAction::WriteScanoutStatus(status)],
        None => Seq::empty(),
    }) + (match mailbox.vrr_feedback {
        Some(feedback) => seq![WorkerAction::WriteVrr { last: vrr_written, feedback }],
        None => Seq::empty(),
    }) + (match mailbox.refresh_millihz {
        Some(refresh_millihz) => seq![WorkerAction::WriteRefresh(refresh_millihz)],
        None => Seq::empty(),
    })
}

/// The focus changes for connected servers.
pub open spec fn focus_actions(pending: Seq<InputFocus>, bridges: Seq<u32>) -> Seq<WorkerAction> {
    pending.filter(is_connected(bridges)).map_values(
        |focus: InputFocus|
            WorkerAction::SetInputFocus { server_id: focus.server_id, window: focus.window },
    )
}

impl SteamWorkerState {
    /// A worker without connections.
    #[must_use]
    pub fn new() -> (state: Self)
        ensures
            state@ == (WorkerView {
                bridges: Seq::empty(),
                window_pids: Map::empty(),
                vrr_written: None,
            }),
    {
        Self { bridges: Vec::new(), window_pids: Table::new(), vrr_written: None }
    }

    /// The connected servers.
    #[must_use]
    pub fn bridges(&self) -> (servers: &Vec<u32>)
        ensures
            servers@ == self@.bridges,
    {
        &self.bridges
    }

    /// A connection has been set up and its initial properties written.
    pub fn bridge_ready(&mut self, server_id: u32)
        ensures
            final(self)@ == (WorkerView {
                bridges: lists::without_number(old(self)@.bridges, server_id).push(server_id),
                vrr_written: if server_id == 0 {
                    Some(VrrFeedback { capable: false, in_use: false })
                } else {
                    old(self)@.vrr_written
                },
                ..old(self)@
            }),
    {
        remove_number(&mut self.bridges, server_id);
        self.bridges.push(server_id);
        if server_id == 0 {
            self.vrr_written = Some(VrrFeedback { capable: false, in_use: false });
        }
    }

    /// Handle one command.
    pub fn process_worker_command(&mut self, command: SteamWorkerCommand) -> (actions: Vec<
        WorkerAction,
    >)
        ensures
            final(self)@ == old(self)@.after_command(command),
            actions@ == old(self)@.command_actions(command),
    {
        let mut actions: Vec<WorkerAction> = Vec::new();
        match command {
            SteamWorkerCommand::Register { display_number, server_id, refresh_millihz } => {
                actions.push(WorkerAction::Connect { display_number, server_id, refresh_millihz });
            },
            SteamWorkerCommand::Remove { server_id } => {
                remove_number(&mut self.bridges, server_id);
                let low: u64 = key_of_window(server_id, 0);
                let high: u64 = key_of_window(server_id, u32::MAX);
                self.window_pids.remove_range(low, high);
                if server_id == 0 {
                    self.vrr_written = None;
                }
                actions.push(WorkerAction::Disconnect { server_id });
            },
            SteamWorkerCommand::WatchWindow { server_id, window, pid } => {
                self.window_pids.insert(key_of_window(server_id, window), pid);
                if has_number(&self.bridges, server_id) {
                    actions.push(WorkerAction::Watch { server_id, window });
                    actions.push(WorkerAction::ReadMetadata { server_id, window, pid });
                }
            },
            SteamWorkerCommand::ReadWindow { server_id, window, pid } => {
                self.window_pids.insert(key_of_window(server_id, window), pid);
                if has_number(&self.bridges, server_id) {
                    actions.push(WorkerAction::ReadMetadata { server_id, window, pid });
                }
            },
            SteamWorkerCommand::ResolveWindow { server_id, window } => {
                if has_number(&self.bridges, server_id) {
                    actions.push(WorkerAction::FindAncestors { server_id, window });
                }
            },
            SteamWorkerCommand::CreateFeedback { identifier, server_id, display_name } => {
                if has_number(&self.bridges, 0) {
                    actions.push(
                        WorkerAction::WriteCreateFeedback { identifier, server_id, display_name },
                    );
                }
            },
        }
        assert(actions@ =~= old(self)@.command_actions(command));
        actions
    }

    /// Take the latest publications out of the mailbox. They wait until the first server is
    /// connected, and input focus waits until its own server is.
    pub fn take_publications(&mut self, mailbox: &mut SteamBridgeWorker) -> (actions: Vec<
        WorkerAction,
    >)
        ensures
            ({
                let bridges = old(self)@.bridges;
                let waiting = old(mailbox)@;
                let focus = focus_actions(waiting.input_focus, bridges);
                let still_waiting = waiting.input_focus.filter(is_waiting(bridges));
                if old(self)@.connected(0) {
                    &&& actions@ == root_publications(waiting, old(self)@.vrr_written) + focus
                    &&& final(mailbox)@ == (MailboxView {
                        commands: waiting.commands,
                        focus: None,
                        input_counter: None,
                        input_focus: still_waiting,
                        direct_scanout_status: None,
                        vrr_feedback: None,
                        refresh_millihz: None,
                    })
                    &&& final(self)@ == (WorkerView {
                        vrr_written: if waiting.vrr_feedback is Some {
                            waiting.vrr_feedback
                        } else {
                            old(self)@.vrr_written
                        },
                        ..old(self)@
                    })
                } else {
                    &&& actions@ == focus
                    &&& final(mailbox)@ == (MailboxView {
                        input_focus: still_waiting,
                        ..waiting
                    })
                    &&& final(self)@ == old(self)@
                }
            }),
    {
        let mut actions: Vec<WorkerAction> = Vec::new();
        if has_number(&self.bridges, 0) {
            if let Some(publication) = mailbox.focus.take() {
                actions.push(WorkerAction::WriteFocus(publication));
            }
            if let Some(counter) = mailbox.input_counter.take() {
                actions.push(WorkerAction::WriteInputCounter(counter));
            }
            if let Some(status) = mailbox.direct_scanout_status.take() {
                actions.push(WorkerAction::WriteScanoutStatus(status));
            }
            if let Some(feedback) = mailbox.vrr_feedback.take() {
                actions.push(WorkerAction::WriteVrr { last: self.vrr_written, feedback });
                self.vrr_written = Some(feedback);
            }
            if let Some(refresh_millihz) = mailbox.refresh_millihz.take() {
                actions.push(WorkerAction::WriteRefresh(refresh_millihz));
            }
            assert(actions@ =~= root_publications(old(mailbox)@, old(self)@.vrr_written));
        }
        let mut focus = self.take_input_focus(mailbox);
        let ghost root = actions@;
        actions.append(&mut focus);
        assert(actions@ =~= root + focus_actions(
            old(mailbox)@.input_focus,
            old(self)@.bridges,
        ));
        actions
    }

    fn take_input_focus(&self, mailbox: &mut SteamBridgeWorker) -> (actions: Vec<WorkerAction>)
        ensures
            actions@ == focus_actions(old(mailbox)@.input_focus, self@.bridges),
            final(mailbox)@ == (MailboxView {
                input_focus: old(mailbox)@.input_focus.filter(is_waiting(self@.bridges)),
                ..old(mailbox)@
            }),
    {
        let ghost pending = mailbox.input_focus@;
        let ghost connected = is_connected(self.bridges@);
        let ghost waiting = is_waiting(self.bridges@);
        let ghost set_focus = |focus: InputFocus|
            WorkerAction::SetInputFocus { server_id: focus.server_id, window: focus.window };
        let mut actions: Vec<WorkerAction> = Vec::new();
        let mut kept: Vec<InputFocus> = Vec::new();
        let mut i: usize = 0;
        proof {
            lists::lemma_filter_empty(pending.take(0), connected);
            lists::lemma_filter_empty(pending.take(0), waiting);
        }
        assert(actions@ =~= pending.take(0).filter(connected).map_values(set_focus));
        while i < mailbox.input_focus.len()
            invariant
                i <= mailbox.input_focus@.len(),
                *mailbox == *old(mailbox),
                pending == mailbox.input_focus@,
                connected == is_connected(self.bridges@),
                waiting == is_waiting(self.bridges@),
                set_focus == (|focus: InputFocus|
                    WorkerAction::SetInputFocus {
                        server_id: focus.server_id,
                        window: focus.window,
                    }),
                kept@ == pending.take(i as int).filter(waiting),
                actions@ == pending.take(i as int).filter(connected).map_values(set_focus),
            decreases mailbox.input_focus@.len() - i,
        {
            proof {
                lists::lemma_filter_take_next(pending, connected, i as int);
                lists::lemma_filter_take_next(pending, waiting, i as int);
            }
            let focus = mailbox.input_focus[i];
            let ghost before = actions@;
            if has_number(&self.bridges, focus.server_id) {
                actions.push(
                    WorkerAction::SetInputFocus {
                        server_id: focus.server_id,
                        window: focus.window,
                    },
                );
                assert(pending.take(i + 1).filter(connected).map_values(set_focus)
                    =~= before.push(set_focus(focus)));
            } else {
                kept.push(focus);
            }
            i = i + 1;
        }
        assert(pending.take(i as int) =~= pending);
        mailbox.input_focus = kept;
        actions
    }

    /// What an event of a connection makes the worker do.
    #[must_use]
    pub fn bridge_event(&self, server_id: u32, event: BridgeEvent) -> (action: WorkerAction)
        ensures
            action == self@.event_action(server_id, event),
    {
        match event {
            BridgeEvent::WindowChanged(window) => {
                let pid: Option<u32> = match self.window_pids.get(
                    key_of_window(server_id, window),
                ) {
                    Some(pid) => *pid,
                    None => None,
                };
                WorkerAction::ReadMetadata { server_id, window, pid }
            },
            BridgeEvent::FocusControlChanged => WorkerAction::ReadFocusControl { server_id },
            BridgeEvent::ScreenScaleChanged => WorkerAction::ReadScreenScale { server_id },
            _ => WorkerAction::Report { server_id, event },
        }
    }
}

/// After a server is removed the worker neither is connected to it nor knows any of its
/// windows, and knows of all others what it knew before.
pub proof fn lemma_removed_server_is_forgotten(
    worker: WorkerView,
    server_id: u32,
    other: u32,
    window: u32,
)
    ensures
        ({
            let after = worker.after_command(SteamWorkerCommand::Remove { server_id });
            &&& !after.connected(server_id)
            &&& !after.window_pids.contains_key(window_key(server_id, window))
            &&& other != server_id ==> after.connected(other) == worker.connected(other)
            &&& other != server_id ==> after.window_pids.contains_key(window_key(other, window))
                == worker.window_pids.contains_key(window_key(other, window))
            &&& other != server_id && worker.window_pids.contains_key(window_key(other, window))
                ==> after.window_pids[window_key(other, window)]
                == worker.window_pids[window_key(other, window)]
        }),
{
    lemma_window_keys(server_id, window, server_id, window);
    lemma_window_keys(other, window, server_id, window);
    lists::lemma_without_number(worker.bridges, server_id, server_id);
    lists::lemma_without_number(worker.bridges, server_id, other);
}

/// Input focus is handed over at most once and never lost: every pending focus is either
/// set now or still waiting.
pub proof fn lemma_input_focus_is_set_or_waits(
    pending: Seq<InputFocus>,
    bridges: Seq<u32>,
    i: int,
)
    requires
        0 <= i < pending.len(),
    ensures
        bridges.contains(pending[i].server_id) ==> focus_actions(pending, bridges).contains(
            WorkerAction::SetInputFocus {
                server_id: pending[i].server_id,
                window: pending[i].window,
            },
        ),
        !bridges.contains(pending[i].server_id) ==> pending.filter(is_waiting(bridges)).contains(
            pending[i],
        ),
{
    broadcast use vstd::seq_lib::group_filter_ensures;

    if bridges.contains(pending[i].server_id) {
        pending.lemma_filter_contains(is_connected(bridges), i);
        let set_now = pending.filter(is_connected(bridges));
        let j = set_now.index_of(pending[i]);
        assert(focus_actions(pending, bridges)[j] == (WorkerAction::SetInputFocus {
            server_id: pending[i].server_id,
            window: pending[i].window,
        }));
    } else {
        pending.lemma_filter_contains(is_waiting(bridges), i);
    }
}

/// The X input focus that waits for a server: that of its first entry.
pub open spec fn waiting_focus(pending: Seq<InputFocus>, server_id: u32) -> Option<Option<u32>> {
    let index = lists::first_index(pending, focus_of(server_id));
    if index < pending.len() {
        Some(pending[index].window)
    } else {
        None
    }
}

/// The latest focus of a server is the one that waits for it, whatever waited before, and the
/// focus of every other server is left alone. No server ever has two.
pub proof fn lemma_latest_input_focus_waits(
    pending: Seq<InputFocus>,
    server_id: u32,
    window: Option<u32>,
    other: u32,
)
    ensures
        ({
            let after = with_input_focus(pending, server_id, window);
            &&& waiting_focus(after, server_id) == Some(window)
            &&& other != server_id ==> waiting_focus(after, other) == waiting_focus(pending, other)
            &&& (forall|i: int, j: int|
                0 <= i < j < pending.len() ==> (#[trigger] pending[i]).server_id != (
                #[trigger] pending[j]).server_id) ==> forall|i: int, j: int|
                0 <= i < j < after.len() ==> (#[trigger] after[i]).server_id != (
                #[trigger] after[j]).server_id
        }),
{
    let after = with_input_focus(pending, server_id, window);
    let wanted = focus_of(server_id);
    lists::lemma_first_index_found(pending, wanted);
    let index = lists::first_index(pending, wanted);
    assert forall|j: int| 0 <= j < index implies !wanted(#[trigger] after[j]) by {
        assert(after[j] == pending[j]);
    }
    assert(wanted(after[index]));
    lists::lemma_first_index(after, wanted, index);
    if forall|i: int, j: int|
        0 <= i < j < pending.len() ==> (#[trigger] pending[i]).server_id != (
        #[trigger] pending[j]).server_id {
        assert forall|i: int, j: int| 0 <= i < j < after.len() implies (
        #[trigger] after[i]).server_id != (#[trigger] after[j]).server_id by {
            if j < pending.len() {
                assert(pending[i].server_id != pending[j].server_id);
                assert(after[i].server_id == pending[i].server_id);
                assert(after[j].server_id == pending[j].server_id);
            } else {
                assert(!wanted(pending[i]));
            }
        }
    }
    if other != server_id {
        let sought = focus_of(other);
        lists::lemma_first_index_found(pending, sought);
        let at = lists::first_index(pending, sought);
        assert forall|j: int| 0 <= j < at implies !sought(#[trigger] after[j]) by {
            if j != index {
                assert(after[j] == pending[j]);
            }
        }
        if at < pending.len() {
            assert(at != index);
            assert(after[at] == pending[at]);
            lists::lemma_first_index(after, sought, at);
        } else {
            assert forall|j: int| 0 <= j < after.len() implies !sought(#[trigger] after[j]) by {
                if j < pending.len() && j != index {
                    assert(after[j] == pending[j]);
                }
            }
            lists::lemma_first_index(after, sought, after.len() as int);
        }
    }
}

/// Two mailboxes that are put together lose nothing: commands stay in order, the older ones
/// first, and of two publications the newer one is kept.
pub proof fn lemma_mailboxes_are_joined_in_order(older: MailboxView, newer: MailboxView)
    ensures
        ({
            let all = joined(older, newer);
            &&& all.commands == older.commands + newer.commands
            &&& newer.focus is Some ==> all.focus == newer.focus
            &&& newer.focus is None ==> all.focus == older.focus
            &&& newer.input_counter is Some ==> all.input_counter == newer.input_counter
            &&& newer.input_counter is None ==> all.input_counter == older.input_counter
            &&& newer.direct_scanout_status is Some ==> all.direct_scanout_status
                == newer.direct_scanout_status
            &&& newer.direct_scanout_status is None ==> all.direct_scanout_status
                == older.direct_scanout_status
            &&& newer.vrr_feedback is Some ==> all.vrr_feedback == newer.vrr_feedback
            &&& newer.vrr_feedback is None ==> all.vrr_feedback == older.vrr_feedback
            &&& newer.refresh_millihz is Some ==> all.refresh_millihz == newer.refresh_millihz
            &&& newer.refresh_millihz is None ==> all.refresh_millihz == older.refresh_millihz
        }),
{
}

/// A newer mailbox's focus replaces the older one of the same server.
pub proof fn lemma_newer_focus_is_joined(
    pending: Seq<InputFocus>,
    newer: Seq<InputFocus>,
    focus: InputFocus,
    other: u32,
)
    ensures
        waiting_focus(with_input_foci(pending, newer.push(focus)), focus.server_id) == Some(
            focus.window,
        ),
        other != focus.server_id ==> waiting_focus(
            with_input_foci(pending, newer.push(focus)),
            other,
        ) == waiting_focus(with_input_foci(pending, newer), other),
        with_input_foci(pending, Seq::empty()) == pending,
{
    assert(newer.push(focus).drop_last() =~= newer);
    lemma_latest_input_focus_waits(
        with_input_foci(pending, newer),
        focus.server_id,
        focus.window,
        other,
    );
}

/// What the worker does with commands. It connects to every server that it is told of and
/// disconnects from every one that goes. Windows are watched and read, and their ancestors
/// looked for, only on servers that are connected; a watched window is read at once. The
/// answer to a created server is written while the first server is connected.
pub proof fn lemma_commands_are_carried_out(worker: WorkerView, command: SteamWorkerCommand)
    ensures
        ({
            let actions = worker.command_actions(command);
            let after = worker.after_command(command);
            match command {
                SteamWorkerCommand::Register { display_number, server_id, refresh_millihz } => {
                    &&& actions == seq![
                        WorkerAction::Connect { display_number, server_id, refresh_millihz },
                    ]
                    &&& after == worker
                },
                SteamWorkerCommand::Remove { server_id } => {
                    &&& actions == seq![WorkerAction::Disconnect { server_id }]
                    &&& server_id == 0 ==> after.vrr_written is None
                    &&& server_id != 0 ==> after.vrr_written == worker.vrr_written
                },
                SteamWorkerCommand::WatchWindow { server_id, window, pid } => {
                    &&& worker.bridges.contains(server_id) ==> actions == seq![
                        WorkerAction::Watch { server_id, window },
                        WorkerAction::ReadMetadata { server_id, window, pid },
                    ]
                    &&& !worker.bridges.contains(server_id) ==> actions.len() == 0
                    &&& after.window_pids.contains_key(window_key(server_id, window))
                    &&& after.window_pids[window_key(server_id, window)] == pid
                    &&& after.bridges == worker.bridges && after.vrr_written == worker.vrr_written
                },
                SteamWorkerCommand::ReadWindow { server_id, window, pid } => {
                    &&& worker.bridges.contains(server_id) ==> actions == seq![
                        WorkerAction::ReadMetadata { server_id, window, pid },
                    ]
                    &&& !worker.bridges.contains(server_id) ==> actions.len() == 0
                    &&& after.window_pids.contains_key(window_key(server_id, window))
                    &&& after.window_pids[window_key(server_id, window)] == pid
                    &&& after.bridges == worker.bridges && after.vrr_written == worker.vrr_written
                },
                SteamWorkerCommand::ResolveWindow { server_id, window } => {
                    &&& worker.bridges.contains(server_id) ==> actions == seq![
                        WorkerAction::FindAncestors { server_id, window },
                    ]
                    &&& !worker.bridges.contains(server_id) ==> actions.len() == 0
                    &&& after == worker
                },
                SteamWorkerCommand::CreateFeedback { identifier, server_id, display_name } => {
                    &&& worker.bridges.contains(0) ==> actions == seq![
                        WorkerAction::WriteCreateFeedback { identifier, server_id, display_name },
                    ]
                    &&& !worker.bridges.contains(0) ==> actions.len() == 0
                    &&& after == worker
                },
            }
        }),
{
}

/// What the worker does with changes of properties: a window that changed is read again for
/// the process that was last named for it, focus requests and scales are read again, and
/// everything else is reported as it is.
pub proof fn lemma_changes_are_read_or_reported(
    worker: WorkerView,
    server_id: u32,
    event: BridgeEvent,
    pid: Option<u32>,
)
    ensures
        match event {
            BridgeEvent::WindowChanged(window) => {
                let watched = worker.after_command(
                    SteamWorkerCommand::WatchWindow { server_id, window, pid },
                );
                &&& watched.event_action(server_id, event) == (WorkerAction::ReadMetadata {
                    server_id,
                    window,
                    pid,
                })
                &&& !worker.window_pids.contains_key(window_key(server_id, window))
                    ==> worker.event_action(server_id, event) == (WorkerAction::ReadMetadata {
                    server_id,
                    window,
                    pid: None,
                })
            },
            BridgeEvent::FocusControlChanged => worker.event_action(server_id, event) == (
            WorkerAction::ReadFocusControl { server_id }),
            BridgeEvent::ScreenScaleChanged => worker.event_action(server_id, event) == (
            WorkerAction::ReadScreenScale { server_id }),
            _ => worker.event_action(server_id, event) == (WorkerAction::Report {
                server_id,
                event,
            }),
        },
{
}

/// Every publication that waits is written, once and in a fixed order, and nothing else is.
/// What is written of variable refresh is told what was written last.
pub proof fn lemma_publications_are_written(
    mailbox: MailboxView,
    vrr_written: Option<VrrFeedback>,
)
    ensures
        ({
            let actions = root_publications(mailbox, vrr_written);
            let focus = one_if(mailbox.focus is Some);
            let counter = focus + one_if(mailbox.input_counter is Some);
            let status = counter + one_if(mailbox.direct_scanout_status is Some);
            let vrr = status + one_if(mailbox.vrr_feedback is Some);
            &&& mailbox.focus matches Some(publication) ==> actions[0] == WorkerAction::WriteFocus(
                publication,
            )
            &&& mailbox.input_counter matches Some(value) ==> actions[focus]
                == WorkerAction::WriteInputCounter(value)
            &&& mailbox.direct_scanout_status matches Some(value) ==> actions[counter]
                == WorkerAction::WriteScanoutStatus(value)
            &&& mailbox.vrr_feedback matches Some(feedback) ==> actions[status] == (
            WorkerAction::WriteVrr { last: vrr_written, feedback })
            &&& mailbox.refresh_millihz matches Some(value) ==> actions[vrr]
                == WorkerAction::WriteRefresh(value)
            &&& actions.len() == vrr + one_if(mailbox.refresh_millihz is Some)
        }),
{
}

/// One if something is there.
pub open spec fn one_if(present: bool) -> int {
    if present {
        1
    } else {
        0
    }
}

} // verus!
