//! The Xwayland servers that run, and requests to start and stop them.

use vstd::prelude::*;

use crate::drm;
use crate::drm::HardwareControl;
use crate::lists;
use crate::lists::{has_number, insert_number, remove_number};
use crate::state::SteamRuntimeRequest;

verus! {

/// The server that Steam itself runs on.
pub const ROOT_SERVER: u32 = 0;

/// What to do about an Xwayland server.
#[derive(Clone, Copy, Debug, PartialEq, Eq, Structural)]
pub enum XwaylandStep {
    /// Start a server and, once it is ready, answer the request with the identifier.
    Start { server_id: u32, identifier: u32 },
    /// Stop a server.
    Stop { server_id: u32 },
    /// The root server is not stopped.
    RefuseRoot,
    /// There is no such server.
    Unknown { server_id: u32 },
}

/// The servers that run.
#[derive(Debug, PartialEq, Eq)]
pub struct XwaylandServers {
    pub running: Vec<u32>,
    pub next_server_id: u32,
}

impl XwaylandServers {
    /// No server runs yet; the first ones are to be numbered from the root server on.
    #[must_use]
    pub fn new(count: u32) -> (servers: Self)
        ensures
            servers.running@ == Seq::<u32>::empty(),
            servers.next_server_id == count,
    {
        Self { running: Vec::new(), next_server_id: count }
    }

    /// A server was started.
    pub fn started(&mut self, server_id: u32)
        ensures
            final(self).running@ == lists::with_number(old(self).running@, server_id),
            final(self).next_server_id == old(self).next_server_id,
    {
        let _added = insert_number(&mut self.running, server_id);
    }

    /// Number a server that is to be started.
    fn number(&mut self) -> (server_id: u32)
        ensures
            server_id == old(self).next_server_id,
            final(self).running@ == old(self).running@,
            final(self).next_server_id == ((old(self).next_server_id + 1) % 0x1_0000_0000) as u32,
    {
        let server_id: u32 = self.next_server_id;
        self.next_server_id = self.next_server_id.wrapping_add(1);
        server_id
    }

    fn stop(&mut self, server_id: u32) -> (step: XwaylandStep)
        ensures
            step == (if server_id == ROOT_SERVER {
                XwaylandStep::RefuseRoot
            } else if old(self).running@.contains(server_id) {
                XwaylandStep::Stop { server_id }
            } else {
                XwaylandStep::Unknown { server_id }
            }),
            final(self).running@ == (if step is Stop {
                lists::without_number(old(self).running@, server_id)
            } else {
                old(self).running@
            }),
            final(self).next_server_id == old(self).next_server_id,
    {
        if server_id == ROOT_SERVER {
            XwaylandStep::RefuseRoot
        } else if has_number(&self.running, server_id) {
            remove_number(&mut self.running, server_id);
            XwaylandStep::Stop { server_id }
        } else {
            XwaylandStep::Unknown { server_id }
        }
    }

    /// What a request of Steam asks of the servers.
    pub open spec fn step_for(
        running: Seq<u32>,
        next_server_id: u32,
        request: SteamRuntimeRequest,
    ) -> Option<XwaylandStep> {
        match request {
            SteamRuntimeRequest::CreateXwayland { identifier } => Some(
                XwaylandStep::Start { server_id: next_server_id, identifier },
            ),
            SteamRuntimeRequest::DestroyXwayland { server_id } => Some(
                if server_id == ROOT_SERVER {
                    XwaylandStep::RefuseRoot
                } else if running.contains(server_id) {
                    XwaylandStep::Stop { server_id }
                } else {
                    XwaylandStep::Unknown { server_id }
                },
            ),
            _ => None,
        }
    }

    /// The servers that run after a request of Steam.
    pub open spec fn running_after(running: Seq<u32>, request: SteamRuntimeRequest) -> Seq<u32> {
        match request {
            SteamRuntimeRequest::DestroyXwayland { server_id } => if server_id != ROOT_SERVER {
                lists::without_number(running, server_id)
            } else {
                running
            },
            _ => running,
        }
    }

    /// Take up a request of Steam. Requests about displays wait for the display hardware.
    pub fn route_steam_request(
        &mut self,
        request: SteamRuntimeRequest,
        control: &mut HardwareControl,
    ) -> (step: Option<XwaylandStep>)
        ensures
            step == Self::step_for(old(self).running@, old(self).next_server_id, request),
            final(self).running@ == Self::running_after(old(self).running@, request),
            final(self).next_server_id == (if request is CreateXwayland {
                ((old(self).next_server_id + 1) % 0x1_0000_0000) as u32
            } else {
                old(self).next_server_id
            }),
            *final(control) == asked(*old(control), request),
    {
        match request {
            SteamRuntimeRequest::CreateXwayland { identifier } => {
                let server_id: u32 = self.number();
                Some(XwaylandStep::Start { server_id, identifier })
            },
            SteamRuntimeRequest::DestroyXwayland { server_id } => {
                proof {
                    lemma_without_absent(self.running@, server_id);
                }
                Some(self.stop(server_id))
            },
            request => {
                ask(control, request);
                None
            },
        }
    }
}

/// What waits for the display hardware after a request of Steam.
pub open spec fn asked(control: HardwareControl, request: SteamRuntimeRequest) -> HardwareControl {
    match request {
        SteamRuntimeRequest::SetVrr { enabled } => HardwareControl {
            vrr: Some(enabled),
            ..control
        },
        SteamRuntimeRequest::SetForceInternal { force } => HardwareControl {
            force_internal: Some(force),
            rescan: true,
            ..control
        },
        SteamRuntimeRequest::RescanDisplay => HardwareControl {
            force_modeset: true,
            rescan: true,
            ..control
        },
        SteamRuntimeRequest::SetDynamicRefresh { screen, refresh_hz } => HardwareControl {
            dynamic_refresh: control.dynamic_refresh.with(
                screen,
                (drm::REFRESH_REQUEST_VALID + refresh_hz) as u64,
            ),
            ..control
        },
        SteamRuntimeRequest::SetCompositeForce { force } => HardwareControl {
            composite_force: Some(force),
            ..control
        },
        _ => control,
    }
}

fn ask(control: &mut HardwareControl, request: SteamRuntimeRequest)
    ensures
        *final(control) == asked(*old(control), request),
{
    match request {
        SteamRuntimeRequest::SetVrr { enabled } => {
            control.set_vrr(enabled);
        },
        SteamRuntimeRequest::SetForceInternal { force } => {
            control.set_force_internal(force);
        },
        SteamRuntimeRequest::RescanDisplay => {
            control.nudge_modeset();
        },
        SteamRuntimeRequest::SetDynamicRefresh { screen, refresh_hz } => {
            control.set_dynamic_refresh(screen, refresh_hz);
        },
        SteamRuntimeRequest::SetCompositeForce { force } => {
            control.set_composite_force(force);
        },
        _ => {},
    }
}

proof fn lemma_without_absent(numbers: Seq<u32>, number: u32)
    ensures
        !numbers.contains(number) ==> lists::without_number(numbers, number) == numbers,
    decreases numbers.len(),
{
    reveal(Seq::filter);
    if numbers.len() > 0 && !numbers.contains(number) {
        let init = numbers.drop_last();
        if init.contains(number) {
            let i = init.index_of(number);
            assert(numbers[i] == number);
        }
        lemma_without_absent(init, number);
        assert(numbers[numbers.len() - 1] == numbers.last());
        assert(lists::unlike(number)(numbers.last()));
        assert(init.push(numbers.last()) =~= numbers);
    } else if numbers.len() == 0 {
        assert(lists::without_number(numbers, number) =~= numbers);
    }
}

/// The root server keeps running, whatever Steam asks for.
pub proof fn lemma_root_server_keeps_running(running: Seq<u32>, request: SteamRuntimeRequest)
    requires
        running.contains(ROOT_SERVER),
    ensures
        XwaylandServers::running_after(running, request).contains(ROOT_SERVER),
{
    if let SteamRuntimeRequest::DestroyXwayland { server_id } = request {
        lists::lemma_without_number(running, server_id, ROOT_SERVER);
    }
}

/// While numbers have not run out, a new server gets a number that no server has.
pub proof fn lemma_server_numbers_are_fresh(
    running: Seq<u32>,
    next_server_id: u32,
    identifier: u32,
)
    requires
        forall|i: int| 0 <= i < running.len() ==> #[trigger] running[i] < next_server_id,
    ensures
        XwaylandServers::step_for(
            running,
            next_server_id,
            SteamRuntimeRequest::CreateXwayland { identifier },
        ) matches Some(XwaylandStep::Start { server_id, .. }) && !running.contains(server_id),
{
    if running.contains(next_server_id) {
        let i = running.index_of(next_server_id);
        assert(running[i] < next_server_id);
    }
}

/// What becomes of a request of Steam for servers. A server that is created gets the next
/// number and is told the identifier that was asked with. The first server is never stopped,
/// any other one that runs is, and one that does not run is reported. Only a server that is
/// stopped stops running.
pub proof fn lemma_server_requests_are_answered(
    running: Seq<u32>,
    next_server_id: u32,
    request: SteamRuntimeRequest,
    other: u32,
)
    ensures
        ({
            let step = XwaylandServers::step_for(running, next_server_id, request);
            let after = XwaylandServers::running_after(running, request);
            match request {
                SteamRuntimeRequest::CreateXwayland { identifier } => {
                    &&& step == Some(XwaylandStep::Start { server_id: next_server_id, identifier })
                    &&& after == running
                },
                SteamRuntimeRequest::DestroyXwayland { server_id } => {
                    &&& server_id == 0 ==> step == Some(XwaylandStep::RefuseRoot) && after
                        == running
                    &&& server_id != 0 && running.contains(server_id) ==> step == Some(
                        XwaylandStep::Stop { server_id },
                    )
                    &&& server_id != 0 && !running.contains(server_id) ==> step == Some(
                        XwaylandStep::Unknown { server_id },
                    )
                    &&& server_id != 0 ==> (after.contains(other) <==> other != server_id
                        && running.contains(other))
                },
                _ => step is None && after == running,
            }
        }),
{
    if let SteamRuntimeRequest::DestroyXwayland { server_id } = request {
        lists::lemma_without_number(running, server_id, other);
    }
}

/// What displays are asked for on Steam's behalf: the wish that a request names, a new look
/// at the displays where the choice of one may change, and nothing else. A dynamic rate is
/// marked as asked for, so that a rate of zero is a request too.
pub proof fn lemma_display_requests_are_kept(
    control: HardwareControl,
    request: SteamRuntimeRequest,
)
    ensures
        ({
            let after = asked(control, request);
            &&& after.latest_frame == control.latest_frame && after.paused == control.paused
                && after.shutdown == control.shutdown && after.refresh == control.refresh
                && after.sleep == control.sleep
            &&& after.vrr == (match request {
                SteamRuntimeRequest::SetVrr { enabled } => Some(enabled),
                _ => control.vrr,
            })
            &&& after.force_internal == (match request {
                SteamRuntimeRequest::SetForceInternal { force } => Some(force),
                _ => control.force_internal,
            })
            &&& after.rescan == (request is SetForceInternal || request is RescanDisplay
                || control.rescan)
            &&& after.force_modeset == (request is RescanDisplay || control.force_modeset)
            &&& after.composite_force == (match request {
                SteamRuntimeRequest::SetCompositeForce { force } => Some(force),
                _ => control.composite_force,
            })
            &&& match request {
                SteamRuntimeRequest::SetDynamicRefresh { screen, refresh_hz } => match screen {
                    crate::control::ScreenType::Internal => {
                        &&& after.dynamic_refresh.internal == 0x8000_0000_0000_0000 + refresh_hz
                        &&& after.dynamic_refresh.external == control.dynamic_refresh.external
                    },
                    crate::control::ScreenType::External => {
                        &&& after.dynamic_refresh.external == 0x8000_0000_0000_0000 + refresh_hz
                        &&& after.dynamic_refresh.internal == control.dynamic_refresh.internal
                    },
                },
                _ => after.dynamic_refresh == control.dynamic_refresh,
            }
        }),
{
}

} // verus!
