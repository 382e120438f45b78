//! Fields and flows of trace events.

use perfetto_sdk::track_event::TrackEventFlow;
use vstd::prelude::*;

verus! {

/// Field number of the Gamescope extension of a trace event.
pub const GAMESCOPE_EVENT_FIELD_NUMBER: u32 = 3200;

/// A typed field accepted by Gamescope's trace event extension.
#[derive(Clone, Copy, Debug, PartialEq, Eq, Structural)]
pub enum EventField {
    FrameId(u64),
    ReplacedFrameId(u64),
    NewFrameId(u64),
    LayerCount(u64),
    HasCursor(bool),
    DirectScanout(bool),
    Sequence(u64),
    ElapsedNs(u64),
    QueuedEvents(u64),
    TimerLateNs(u64),
    WinitQueueDepth(u64),
    QueueDelayNs(u64),
    ReadyToRenderNs(u64),
    RequestedTimeoutNs(u64),
    HardwareEventQueueDepth(u64),
    CallbackQueueDelayNs(u64),
    WorkerToFrontendNs(u64),
    RepaintLateNs(u64),
    Keycode(u64),
    Pressed(bool),
    EventTimeUs(u64),
    SurfaceAlive(bool),
    Window(u64),
    SurfaceAssociated(bool),
    Keysym(u64),
    Intercepted(bool),
    PressedKeys(u64),
    ServerId(u64),
    EventCount(u64),
    BridgeCount(u64),
    MailboxWakeDelayNs(u64),
}

/// A flag as a number.
pub open spec fn flag(value: bool) -> u64 {
    if value {
        1
    } else {
        0
    }
}

fn read_flag(value: bool) -> (number: u64)
    ensures
        number == flag(value),
{
    if value {
        1
    } else {
        0
    }
}

impl EventField {
    /// The number of the field and its value.
    pub open spec fn encoded(self) -> (u32, u64) {
        match self {
            EventField::FrameId(value) => (1, value),
            EventField::ReplacedFrameId(value) => (2, value),
            EventField::NewFrameId(value) => (3, value),
            EventField::LayerCount(value) => (4, value),
            EventField::HasCursor(value) => (5, flag(value)),
            EventField::DirectScanout(value) => (6, flag(value)),
            EventField::Sequence(value) => (7, value),
            EventField::ElapsedNs(value) => (8, value),
            EventField::QueuedEvents(value) => (9, value),
            EventField::TimerLateNs(value) => (10, value),
            EventField::WinitQueueDepth(value) => (11, value),
            EventField::QueueDelayNs(value) => (12, value),
            EventField::ReadyToRenderNs(value) => (13, value),
            EventField::RequestedTimeoutNs(value) => (14, value),
            EventField::HardwareEventQueueDepth(value) => (15, value),
            EventField::CallbackQueueDelayNs(value) => (16, value),
            EventField::WorkerToFrontendNs(value) => (17, value),
            EventField::RepaintLateNs(value) => (18, value),
            EventField::Keycode(value) => (19, value),
            EventField::Pressed(value) => (20, flag(value)),
            EventField::EventTimeUs(value) => (21, value),
            EventField::SurfaceAlive(value) => (22, flag(value)),
            EventField::Window(value) => (23, value),
            EventField::SurfaceAssociated(value) => (24, flag(value)),
            EventField::Keysym(value) => (25, value),
            EventField::Intercepted(value) => (26, flag(value)),
            EventField::PressedKeys(value) => (27, value),
            EventField::ServerId(value) => (28, value),
            EventField::EventCount(value) => (29, value),
            EventField::BridgeCount(value) => (30, value),
            EventField::MailboxWakeDelayNs(value) => (31, value),
        }
    }

    /// The number of the field and its value, a variable-length integer on the wire.
    #[must_use]
    pub fn encode(self) -> (field: (u32, u64))
        ensures
            field == self.encoded(),
    {
        match self {
            EventField::FrameId(value) => (1, value),
            EventField::ReplacedFrameId(value) => (2, value),
            EventField::NewFrameId(value) => (3, value),
            EventField::LayerCount(value) => (4, value),
            EventField::HasCursor(value) => (5, read_flag(value)),
            EventField::DirectScanout(value) => (6, read_flag(value)),
            EventField::Sequence(value) => (7, value),
            EventField::ElapsedNs(value) => (8, value),
            EventField::QueuedEvents(value) => (9, value),
            EventField::TimerLateNs(value) => (10, value),
            EventField::WinitQueueDepth(value) => (11, value),
            EventField::QueueDelayNs(value) => (12, value),
            EventField::ReadyToRenderNs(value) => (13, value),
            EventField::RequestedTimeoutNs(value) => (14, value),
            EventField::HardwareEventQueueDepth(value) => (15, value),
            EventField::CallbackQueueDelayNs(value) => (16, value),
            EventField::WorkerToFrontendNs(value) => (17, value),
            EventField::RepaintLateNs(value) => (18, value),
            EventField::Keycode(value) => (19, value),
            EventField::Pressed(value) => (20, read_flag(value)),
            EventField::EventTimeUs(value) => (21, value),
            EventField::SurfaceAlive(value) => (22, read_flag(value)),
            EventField::Window(value) => (23, value),
            EventField::SurfaceAssociated(value) => (24, read_flag(value)),
            EventField::Keysym(value) => (25, value),
            EventField::Intercepted(value) => (26, read_flag(value)),
            EventField::PressedKeys(value) => (27, value),
            EventField::ServerId(value) => (28, value),
            EventField::EventCount(value) => (29, value),
            EventField::BridgeCount(value) => (30, value),
            EventField::MailboxWakeDelayNs(value) => (31, value),
        }
    }
}

/// The fields of an extension, in their order.
#[must_use]
pub fn encode_fields(fields: &[EventField]) -> (encoded: Vec<(u32, u64)>)
    ensures
        encoded@ == fields@.map_values(|field: EventField| field.encoded()),
{
    let ghost all = fields@.map_values(|field: EventField| field.encoded());
    let mut encoded: Vec<(u32, u64)> = Vec::new();
    let mut i: usize = 0;
    while i < fields.len()
        invariant
            i <= fields@.len(),
            all == fields@.map_values(|field: EventField| field.encoded()),
            encoded@ == all.take(i as int),
        decreases fields@.len() - i,
    {
        encoded.push(fields[i].encode());
        assert(all.take(i + 1) =~= all.take(i as int).push(all[i as int]));
        i = i + 1;
    }
    assert(all.take(i as int) =~= all);
    encoded
}

/// Fields have numbers from 1 on, and fields of different kinds have different numbers:
/// equal numbers and values mean equal fields.
pub proof fn lemma_fields_are_distinct(left: EventField, right: EventField)
    ensures
        left.encoded().0 >= 1,
        left.encoded() == right.encoded() <==> left == right,
{
}

/// A duration in nanoseconds, limited to 64 bits.
#[must_use]
pub fn duration_ns(nanoseconds: u128) -> (limited: u64)
    ensures
        limited == (if nanoseconds > u64::MAX {
            u64::MAX
        } else {
            nanoseconds as u64
        }),
{
    if nanoseconds > u64::MAX as u128 {
        u64::MAX
    } else {
        nanoseconds as u64
    }
}

/// One number for each hand-off in a frame's lifetime.
pub open spec fn flow_number(frame_id: u64, handoff: u64) -> u64 {
    ((frame_id * 4 + handoff) % 0x1_0000_0000_0000_0000) as u64
}

/// One number for each hand-off in a frame's lifetime.
#[must_use]
pub fn flow_id(frame_id: u64, handoff: u64) -> (id: u64)
    ensures
        id == flow_number(frame_id, handoff),
{
    let sum: u128 = frame_id as u128 * 4 + handoff as u128;
    (sum % 0x1_0000_0000_0000_0000) as u64
}

/// Different hand-offs of a frame, and hand-offs of different frames, have different
/// numbers; frame numbers repeat after a quarter of the range.
pub proof fn lemma_flows_are_distinct(frame: u64, handoff: u64, other_frame: u64, other: u64)
    requires
        handoff < 4,
        other < 4,
    ensures
        flow_number(frame, handoff) == flow_number(other_frame, other) <==> handoff == other
            && frame % 0x4000_0000_0000_0000 == other_frame % 0x4000_0000_0000_0000,
{
}

/// A flow that connects trace events.
#[verifier::external_type_specification]
#[verifier::external_body]
pub struct ExTrackEventFlow(TrackEventFlow);

/// `TrackEventFlow::process_scoped_flow`: the flow with a number, told from those of other
/// processes by a value that every process draws for itself. That value is why nothing is
/// promised of the flow.
pub assume_specification[ TrackEventFlow::process_scoped_flow ](id: u64) -> (flow: TrackEventFlow);

/// A distinct process-scoped flow for each hand-off in a frame's lifetime: what
/// `TrackEventFlow::process_scoped_flow` gives for their number.
#[must_use]
pub fn frame_flow(frame_id: u64, handoff: u64) -> (flow: TrackEventFlow)
    ensures
        call_ensures(
            TrackEventFlow::process_scoped_flow,
            (flow_number(frame_id, handoff),),
            flow,
        ),
{
    TrackEventFlow::process_scoped_flow(flow_id(frame_id, handoff))
}

/// The number under which each detail of an event is recorded. A number is recorded as it is,
/// and what holds or does not as one or zero.
pub proof fn lemma_details_have_numbers(field: EventField)
    ensures
        match field {
            EventField::FrameId(value) => field.encoded().0 == 1 && field.encoded().1 == value,
            EventField::ReplacedFrameId(value) => field.encoded().0 == 2
                && field.encoded().1 == value,
            EventField::NewFrameId(value) => field.encoded().0 == 3 && field.encoded().1 == value,
            EventField::LayerCount(value) => field.encoded().0 == 4 && field.encoded().1 == value,
            EventField::HasCursor(value) => field.encoded().0 == 5
                && field.encoded().1 == (if value {
                1u64
            } else {
                0
            }),
            EventField::DirectScanout(value) => field.encoded().0 == 6
                && field.encoded().1 == (if value {
                1u64
            } else {
                0
            }),
            EventField::Sequence(value) => field.encoded().0 == 7 && field.encoded().1 == value,
            EventField::ElapsedNs(value) => field.encoded().0 == 8 && field.encoded().1 == value,
            EventField::QueuedEvents(value) => field.encoded().0 == 9 && field.encoded().1 == value,
            EventField::TimerLateNs(value) => field.encoded().0 == 10 && field.encoded().1 == value,
            EventField::WinitQueueDepth(value) => field.encoded().0 == 11
                && field.encoded().1 == value,
            EventField::QueueDelayNs(value) => field.encoded().0 == 12
                && field.encoded().1 == value,
            EventField::ReadyToRenderNs(value) => field.encoded().0 == 13
                && field.encoded().1 == value,
            EventField::RequestedTimeoutNs(value) => field.encoded().0 == 14
                && field.encoded().1 == value,
            EventField::HardwareEventQueueDepth(value) => field.encoded().0 == 15
                && field.encoded().1 == value,
            EventField::CallbackQueueDelayNs(value) => field.encoded().0 == 16
                && field.encoded().1 == value,
            EventField::WorkerToFrontendNs(value) => field.encoded().0 == 17
                && field.encoded().1 == value,
            EventField::RepaintLateNs(value) => field.encoded().0 == 18
                && field.encoded().1 == value,
            EventField::Keycode(value) => field.encoded().0 == 19 && field.encoded().1 == value,
            EventField::Pressed(value) => field.encoded().0 == 20
                && field.encoded().1 == (if value {
                1u64
            } else {
                0
            }),
            EventField::EventTimeUs(value) => field.encoded().0 == 21 && field.encoded().1 == value,
            EventField::SurfaceAlive(value) => field.encoded().0 == 22
                && field.encoded().1 == (if value {
                1u64
            } else {
                0
            }),
            EventField::Window(value) => field.encoded().0 == 23 && field.encoded().1 == value,
            EventField::SurfaceAssociated(value) => field.encoded().0 == 24
                && field.encoded().1 == (if value {
                1u64
            } else {
                0
            }),
            EventField::Keysym(value) => field.encoded().0 == 25 && field.encoded().1 == value,
            EventField::Intercepted(value) => field.encoded().0 == 26
                && field.encoded().1 == (if value {
                1u64
            } else {
                0
            }),
            EventField::PressedKeys(value) => field.encoded().0 == 27 && field.encoded().1 == value,
            EventField::ServerId(value) => field.encoded().0 == 28 && field.encoded().1 == value,
            EventField::EventCount(value) => field.encoded().0 == 29 && field.encoded().1 == value,
            EventField::BridgeCount(value) => field.encoded().0 == 30 && field.encoded().1 == value,
            EventField::MailboxWakeDelayNs(value) => field.encoded().0 == 31
                && field.encoded().1 == value,
        },
{
}

/// The flows of a frame are numbered in fours.
pub proof fn lemma_flows_are_numbered_in_fours(frame: u64, handoff: u64)
    requires
        frame < 0x4000_0000_0000_0000,
        handoff < 4,
    ensures
        flow_number(frame, handoff) == 4 * frame + handoff,
{
}

} // verus!
