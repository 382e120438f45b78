//! The environment of the command that runs in the compositor.

use vstd::prelude::*;

use crate::options::{Options, OptionsView};
use crate::state::{State, StateView};
use crate::steam::{COMMON_COMPAT_ENV, STEAM_COMPAT_ENV};
use crate::steam_properties;
use crate::steam_properties::display_name;
use crate::text;
use crate::text::{push_decimal, push_text, string_from};

verus! {

/// What becomes of an environment variable.
#[derive(Debug, PartialEq, Eq)]
pub enum VariableValue {
    Text(String),
    /// The path of the file that tells the WSI layer of the frame limit.
    LimiterFile,
    Unset,
}

/// A change of the environment.
#[derive(Debug, PartialEq, Eq)]
pub struct EnvironmentChange {
    pub name: String,
    pub value: VariableValue,
}

/// What becomes of an environment variable.
pub enum ValueView {
    Text(Seq<char>),
    LimiterFile,
    Unset,
}

/// A change of the environment.
pub struct ChangeView {
    pub name: Seq<char>,
    pub value: ValueView,
}

impl View for EnvironmentChange {
    type V = ChangeView;

    open spec fn view(&self) -> ChangeView {
        ChangeView {
            name: self.name@,
            value: match self.value {
                VariableValue::Text(text) => ValueView::Text(text@),
                VariableValue::LimiterFile => ValueView::LimiterFile,
                VariableValue::Unset => ValueView::Unset,
            },
        }
    }
}

/// What becomes of the environment.
pub open spec fn made(changes: Seq<EnvironmentChange>) -> Seq<ChangeView> {
    changes.map_values(|change: EnvironmentChange| change@)
}

/// A variable that is set.
pub open spec fn variable(name: Seq<char>, value: Seq<char>) -> ChangeView {
    ChangeView { name, value: ValueView::Text(value) }
}

/// A variable that is unset.
pub open spec fn unset(name: Seq<char>) -> ChangeView {
    ChangeView { name, value: ValueView::Unset }
}

/// The variables of a table.
pub open spec fn listed(table: Seq<(&'static str, &'static str)>) -> Seq<ChangeView> {
    table.map_values(|entry: (&'static str, &'static str)| variable(entry.0@, entry.1@))
}

fn push_set(changes: &mut Vec<EnvironmentChange>, name: &str, value: &str)
    ensures
        made(final(changes)@) == made(old(changes)@).push(variable(name@, value@)),
{
    let ghost before = made(changes@);
    changes.push(
        EnvironmentChange {
            name: string_from(name),
            value: VariableValue::Text(string_from(value)),
        },
    );
    assert(made(changes@) =~= before.push(variable(name@, value@)));
}

fn push_unset(changes: &mut Vec<EnvironmentChange>, name: &str)
    ensures
        made(final(changes)@) == made(old(changes)@).push(unset(name@)),
{
    let ghost before = made(changes@);
    changes.push(EnvironmentChange { name: string_from(name), value: VariableValue::Unset });
    assert(made(changes@) =~= before.push(unset(name@)));
}

fn push_listed(changes: &mut Vec<EnvironmentChange>, table: &[(&'static str, &'static str)])
    ensures
        made(final(changes)@) == made(old(changes)@) + listed(table@),
{
    let ghost before = made(changes@);
    let ghost all = listed(table@);
    let mut i: usize = 0;
    assert(before + all.take(0) =~= before);
    while i < table.len()
        invariant
            i <= table@.len(),
            all == listed(table@),
            made(changes@) == before + all.take(i as int),
        decreases table@.len() - i,
    {
        push_set(changes, table[i].0, table[i].1);
        assert(before + all.take(i + 1) =~= (before + all.take(i as int)).push(all[i as int]));
        i = i + 1;
    }
    assert(all.take(i as int) =~= all);
}

/// Variables that are set or unset for every command.
pub open spec fn base_changes(socket: Seq<char>) -> Seq<ChangeView> {
    seq![
        variable("GAMESCOPE_WAYLAND_DISPLAY"@, socket),
        variable("XDG_CURRENT_DESKTOP"@, "gamescope"@),
        ChangeView { name: "GAMESCOPE_LIMITER_FILE"@, value: ValueView::LimiterFile },
        unset("ENABLE_VKBASALT"@),
        unset("SDL_VIDEODRIVER"@),
        unset("SDL_VIDEO_DRIVER"@),
    ]
}

fn push_base(changes: &mut Vec<EnvironmentChange>, socket: &str)
    ensures
        made(final(changes)@) == made(old(changes)@) + base_changes(socket@),
{
    let ghost before = made(changes@);
    push_set(changes, "GAMESCOPE_WAYLAND_DISPLAY", socket);
    push_set(changes, "XDG_CURRENT_DESKTOP", "gamescope");
    let ghost so_far = made(changes@);
    changes.push(
        EnvironmentChange {
            name: string_from("GAMESCOPE_LIMITER_FILE"),
            value: VariableValue::LimiterFile,
        },
    );
    assert(made(changes@) =~= so_far.push(
        ChangeView { name: "GAMESCOPE_LIMITER_FILE"@, value: ValueView::LimiterFile },
    ));
    push_unset(changes, "ENABLE_VKBASALT");
    push_unset(changes, "SDL_VIDEODRIVER");
    push_unset(changes, "SDL_VIDEO_DRIVER");
    assert(made(changes@) =~= before + base_changes(socket@));
}

/// Variables of Steam mode.
pub open spec fn steam_changes(options: OptionsView) -> Seq<ChangeView> {
    if options.steam {
        listed(STEAM_COMPAT_ENV@) + if options.xwayland_count > 1 {
            seq![variable("STEAM_MULTIPLE_XWAYLANDS"@, "1"@)]
        } else {
            Seq::empty()
        }
    } else {
        Seq::empty()
    }
}

/// Variables that lead clients to Wayland or away from it.
pub open spec fn session_changes(options: OptionsView, socket: Seq<char>) -> Seq<ChangeView> {
    if options.expose_wayland || options.xwayland_count == 0 {
        seq![variable("WAYLAND_DISPLAY"@, socket), variable("XDG_SESSION_TYPE"@, "wayland"@)]
    } else {
        seq![unset("WAYLAND_DISPLAY"@), variable("XDG_SESSION_TYPE"@, "x11"@)]
    }
}

/// The name of the variable for a game's display.
pub open spec fn game_display_name(index: nat) -> Seq<char> {
    "STEAM_GAME_DISPLAY_"@ + text::decimal(index)
}

/// The number of a server, limited to 32 bits.
pub open spec fn server_number(index: nat) -> u32 {
    if index > u32::MAX {
        u32::MAX
    } else {
        index as u32
    }
}

/// Variables for the displays of the servers below `count` other than the first.
pub open spec fn server_displays(state: StateView, count: nat) -> Seq<ChangeView>
    decreases count,
{
    if count <= 1 {
        Seq::empty()
    } else {
        let server = (count - 1) as nat;
        server_displays(state, server) + match state.display_number(server_number(server)) {
            Some(number) => seq![
                variable(
                    game_display_name((server - 1) as nat),
                    steam_properties::display_text(number),
                ),
            ],
            None => Seq::empty(),
        }
    }
}

/// Variables for the displays that games run on: those of the servers other than Steam's
/// own, or its own if there is no other.
pub open spec fn game_displays(state: StateView, count: nat) -> Seq<ChangeView> {
    if count > 1 {
        server_displays(state, count)
    } else {
        match state.first_display {
            Some(number) => seq![
                variable(game_display_name(0), steam_properties::display_text(number)),
            ],
            None => Seq::empty(),
        }
    }
}

/// The display of ordinary X clients.
pub open spec fn own_display(state: StateView) -> Seq<ChangeView> {
    match state.first_display {
        Some(number) => seq![variable("DISPLAY"@, steam_properties::display_text(number))],
        None => Seq::empty(),
    }
}

/// What becomes of the environment of the command, in the order of the changes.
pub open spec fn command_environment(
    options: OptionsView,
    state: StateView,
    socket: Seq<char>,
) -> Seq<ChangeView> {
    base_changes(socket) + listed(COMMON_COMPAT_ENV@) + steam_changes(options) + session_changes(
        options,
        socket,
    ) + game_displays(state, options.xwayland_count as nat) + own_display(state)
}

fn game_display_variable(index: usize) -> (name: String)
    ensures
        name@ == game_display_name(index as nat),
{
    let mut name = string_from("STEAM_GAME_DISPLAY_");
    push_decimal(&mut name, index as u64);
    name
}

fn push_game_displays(changes: &mut Vec<EnvironmentChange>, state: &State, count: usize)
    ensures
        made(final(changes)@) == made(old(changes)@) + game_displays(state@, count as nat),
{
    let ghost before = made(changes@);
    if count > 1 {
        let mut server: usize = 1;
        assert(before + server_displays(state@, 1) =~= before);
        while server < count
            invariant
                1 <= server <= count,
                made(changes@) == before + server_displays(state@, server as nat),
            decreases count - server,
        {
            let ghost so_far = server_displays(state@, server as nat);
            let number: u32 = if server as u64 > u32::MAX as u64 {
                u32::MAX
            } else {
                server as u32
            };
            match state.display_number(number) {
                Some(display) => {
                    let name = game_display_variable(server - 1);
                    let value = display_name(display);
                    push_set(changes, name.as_str(), value.as_str());
                    assert(made(changes@) =~= before + (so_far + seq![
                        variable(name@, value@),
                    ]));
                },
                None => {
                    assert(so_far + Seq::<ChangeView>::empty() =~= so_far);
                },
            }
            server = server + 1;
        }
    } else {
        match state.xdisplay() {
            Some(display) => {
                let name = game_display_variable(0);
                let value = display_name(display);
                push_set(changes, name.as_str(), value.as_str());
                assert(made(changes@) =~= before + game_displays(state@, count as nat));
            },
            None => {
                assert(before + Seq::<ChangeView>::empty() =~= before);
            },
        }
    }
}

/// What becomes of the environment of the command, in the order of the changes.
#[must_use]
pub fn configure_child_environment(
    options: &Options,
    state: &State,
    socket: &str,
) -> (changes: Vec<EnvironmentChange>)
    ensures
        made(changes@) == command_environment(options@, state@, socket@),
{
    let mut changes: Vec<EnvironmentChange> = Vec::new();
    push_base(&mut changes, socket);
    push_listed(&mut changes, &COMMON_COMPAT_ENV);
    let ghost before = made(changes@);
    if options.steam {
        push_listed(&mut changes, &STEAM_COMPAT_ENV);
        if options.xwayland_count > 1 {
            push_set(&mut changes, "STEAM_MULTIPLE_XWAYLANDS", "1");
        }
    }
    assert(made(changes@) =~= before + steam_changes(options@));
    let ghost before = made(changes@);
    if options.expose_wayland || options.xwayland_count == 0 {
        push_set(&mut changes, "WAYLAND_DISPLAY", socket);
        push_set(&mut changes, "XDG_SESSION_TYPE", "wayland");
    } else {
        push_unset(&mut changes, "WAYLAND_DISPLAY");
        push_set(&mut changes, "XDG_SESSION_TYPE", "x11");
    }
    assert(made(changes@) =~= before + session_changes(options@, socket@));
    push_game_displays(&mut changes, state, options.xwayland_count);
    let ghost before = made(changes@);
    if let Some(display) = state.xdisplay() {
        let value = display_name(display);
        push_set(&mut changes, "DISPLAY", value.as_str());
    }
    assert(made(changes@) =~= before + own_display(state@));
    assert(made(changes@) =~= command_environment(options@, state@, socket@));
    changes
}

/// How many names are tried for the limiter file.
pub const LIMITER_FILE_ATTEMPTS: u32 = 32;

/// The name of a limiter file.
pub open spec fn limiter_name(process: u32, suffix: u32) -> Seq<char> {
    "gamescope-limiter-"@ + text::decimal(process as nat) + "-"@ + text::decimal(suffix as nat)
}

/// The search for a name that no file has.
#[derive(Debug, PartialEq, Eq)]
pub struct LimiterFileSearch {
    pub process: u32,
    pub next_suffix: u32,
}

impl LimiterFileSearch {
    #[must_use]
    pub fn new(process: u32) -> (search: Self)
        ensures
            search == (LimiterFileSearch { process, next_suffix: 0 }),
    {
        Self { process, next_suffix: 0 }
    }

    /// The name to try next; `None` when all names are taken.
    pub fn next_name(&mut self) -> (name: Option<String>)
        ensures
            if old(self).next_suffix < LIMITER_FILE_ATTEMPTS {
                &&& name matches Some(name) && name@ == limiter_name(
                    old(self).process,
                    old(self).next_suffix,
                )
                &&& *final(self) == (LimiterFileSearch {
                    next_suffix: (old(self).next_suffix + 1) as u32,
                    ..*old(self)
                })
            } else {
                name is None && *final(self) == *old(self)
            },
    {
        if self.next_suffix >= LIMITER_FILE_ATTEMPTS {
            return None;
        }
        let mut name = string_from("gamescope-limiter-");
        push_decimal(&mut name, self.process as u64);
        push_text(&mut name, "-");
        push_decimal(&mut name, self.next_suffix as u64);
        assert(name@ =~= limiter_name(self.process, self.next_suffix));
        self.next_suffix = self.next_suffix + 1;
        Some(name)
    }
}

/// One if something holds.
pub open spec fn one_if(holds: bool) -> nat {
    if holds {
        1
    } else {
        0
    }
}

/// What a command finds in its environment: the compositor's own socket in any case; the way
/// to Wayland where it is offered or is the only one, and else the way to X11; and the
/// display of the first server, which is the last word on the matter.
pub proof fn lemma_commands_find_their_displays(
    options: OptionsView,
    state: StateView,
    socket: Seq<char>,
)
    ensures
        ({
            let all = command_environment(options, state, socket);
            let wayland = options.expose_wayland || options.xwayland_count == 0;
            &&& all[0] == variable("GAMESCOPE_WAYLAND_DISPLAY"@, socket)
            &&& all.contains(variable("XDG_CURRENT_DESKTOP"@, "gamescope"@))
            &&& all.contains(
                ChangeView { name: "GAMESCOPE_LIMITER_FILE"@, value: ValueView::LimiterFile },
            )
            &&& all.contains(unset("ENABLE_VKBASALT"@))
            &&& all.contains(unset("SDL_VIDEODRIVER"@))
            &&& all.contains(unset("SDL_VIDEO_DRIVER"@))
            &&& wayland ==> all.contains(variable("WAYLAND_DISPLAY"@, socket)) && all.contains(
                variable("XDG_SESSION_TYPE"@, "wayland"@),
            )
            &&& !wayland ==> all.contains(unset("WAYLAND_DISPLAY"@)) && all.contains(
                variable("XDG_SESSION_TYPE"@, "x11"@),
            )
            &&& options.steam && options.xwayland_count > 1 ==> all.contains(
                variable("STEAM_MULTIPLE_XWAYLANDS"@, "1"@),
            )
            &&& forall|i: int|
                0 <= i < COMMON_COMPAT_ENV@.len() ==> all.contains(
                    variable(
                        (#[trigger] COMMON_COMPAT_ENV@[i]).0@,
                        COMMON_COMPAT_ENV@[i].1@,
                    ),
                )
            &&& options.steam ==> forall|i: int|
                0 <= i < STEAM_COMPAT_ENV@.len() ==> all.contains(
                    variable((#[trigger] STEAM_COMPAT_ENV@[i]).0@, STEAM_COMPAT_ENV@[i].1@),
                )
            &&& state.first_display matches Some(number) ==> all.last() == variable(
                "DISPLAY"@,
                seq![':'] + text::decimal(number as nat),
            )
            &&& options.xwayland_count <= 1 ==> all.len() == 8 + COMMON_COMPAT_ENV@.len() + (
            if options.steam {
                STEAM_COMPAT_ENV@.len()
            } else {
                0
            }) + 2 * one_if(state.first_display is Some)
            &&& options.xwayland_count <= 1 && state.first_display is Some ==> all[all.len() - 2]
                == variable(
                "STEAM_GAME_DISPLAY_0"@,
                seq![':'] + text::decimal(state.first_display->0 as nat),
            )
        }),
{
    reveal_strlit(":");
    reveal_strlit("STEAM_GAME_DISPLAY_");
    reveal_strlit("STEAM_GAME_DISPLAY_0");
    assert(":"@ =~= seq![':']);
    assert(text::decimal(0) =~= seq!['0']);
    assert("STEAM_GAME_DISPLAY_0"@ =~= game_display_name(0));
    let all = command_environment(options, state, socket);
    let base = base_changes(socket);
    let common = listed(COMMON_COMPAT_ENV@);
    let steam = steam_changes(options);
    let session = session_changes(options, socket);
    let displays = game_displays(state, options.xwayland_count as nat);
    let own = own_display(state);
    assert(all == base + common + steam + session + displays + own);
    assert forall|i: int| 0 <= i < base.len() implies all.contains(#[trigger] base[i]) by {
        assert(all[i] == base[i]);
    }
    assert(base[1] == variable("XDG_CURRENT_DESKTOP"@, "gamescope"@));
    assert(base[2] == (ChangeView {
        name: "GAMESCOPE_LIMITER_FILE"@,
        value: ValueView::LimiterFile,
    }));
    assert(base[3] == unset("ENABLE_VKBASALT"@));
    assert(base[4] == unset("SDL_VIDEODRIVER"@));
    assert(base[5] == unset("SDL_VIDEO_DRIVER"@));
    let before_session = (base.len() + common.len() + steam.len()) as int;
    assert(all[before_session] == session[0]);
    assert(all[before_session + 1] == session[1]);
    assert forall|i: int| 0 <= i < COMMON_COMPAT_ENV@.len() implies all.contains(
        variable((#[trigger] COMMON_COMPAT_ENV@[i]).0@, COMMON_COMPAT_ENV@[i].1@),
    ) by {
        assert(all[base.len() + i] == common[i]);
    }
    if options.steam {
        assert forall|i: int| 0 <= i < STEAM_COMPAT_ENV@.len() implies all.contains(
            variable((#[trigger] STEAM_COMPAT_ENV@[i]).0@, STEAM_COMPAT_ENV@[i].1@),
        ) by {
            assert(steam[i] == listed(STEAM_COMPAT_ENV@)[i]);
            assert(all[base.len() + common.len() + i] == steam[i]);
        }
        if options.xwayland_count > 1 {
            assert(all[before_session - 1] == steam.last());
        }
    }
}

/// With several servers, games are told the display of every server behind the first that has
/// one, numbered from zero, and of no other.
pub proof fn lemma_games_find_their_displays(
    options: OptionsView,
    state: StateView,
    socket: Seq<char>,
    server: u32,
)
    requires
        0 < server < options.xwayland_count,
    ensures
        state.display_number(server) matches Some(number) ==> command_environment(
            options,
            state,
            socket,
        ).contains(
            variable(
                "STEAM_GAME_DISPLAY_"@ + text::decimal((server - 1) as nat),
                seq![':'] + text::decimal(number as nat),
            ),
        ),
        server_displays(state, (server + 1) as nat).len() == server_displays(
            state,
            server as nat,
        ).len() + one_if(state.display_number(server) is Some),
        server_displays(state, 1).len() == 0,
{
    reveal_strlit(":");
    assert(":"@ =~= seq![':']);
    let all = command_environment(options, state, socket);
    let count = options.xwayland_count as nat;
    let displays = game_displays(state, count);
    if let Some(number) = state.display_number(server) {
        let told = variable(
            "STEAM_GAME_DISPLAY_"@ + text::decimal((server - 1) as nat),
            seq![':'] + text::decimal(number as nat),
        );
        let at = lemma_server_is_told(state, count, server as nat);
        let before = all.len() - own_display(state).len() - displays.len();
        assert(all[before + at] == displays[at]);
    }
}

proof fn lemma_server_is_told(state: StateView, count: nat, server: nat) -> (at: int)
    requires
        0 < server < count,
        server <= u32::MAX,
        state.display_number(server as u32) is Some,
    ensures
        0 <= at < server_displays(state, count).len(),
        server_displays(state, count)[at] == variable(
            game_display_name((server - 1) as nat),
            steam_properties::display_text(state.display_number(server as u32)->0),
        ),
    decreases count,
{
    if count == server + 1 {
        server_displays(state, count).len() - 1
    } else {
        lemma_server_is_told(state, (count - 1) as nat, server)
    }
}

/// Servers are numbered by their place, as far as numbers go.
pub proof fn lemma_servers_are_numbered(index: nat)
    ensures
        index <= 0xffff_ffff ==> server_number(index) == index,
        index > 0xffff_ffff ==> server_number(index) == 0xffff_ffff,
{
}

/// The file that tells of the frame limit is named after the process and a number that is
/// tried, with a hyphen in front of each.
pub proof fn lemma_limiter_files_are_named(process: u32, suffix: u32)
    ensures
        limiter_name(process, suffix) == "gamescope-limiter"@ + seq!['-'] + text::decimal(
            process as nat,
        ) + seq!['-'] + text::decimal(suffix as nat),
{
    reveal_strlit("gamescope-limiter-");
    reveal_strlit("gamescope-limiter");
    reveal_strlit("-");
    assert("gamescope-limiter-"@ =~= "gamescope-limiter"@ + seq!['-']);
    assert("-"@ =~= seq!['-']);
}

} // verus!
