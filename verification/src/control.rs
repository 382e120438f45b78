//! Behavior behind the version 6 `gamescope_control` global.

use vstd::prelude::*;

use crate::lists;
use crate::wire;
use crate::wire::split_u64;

verus! {

/// Features advertised to every control binding.
#[derive(Clone, Copy, Debug, PartialEq, Eq, Structural)]
pub enum Feature {
    Done,
    ReshadeShaders,
    DisplayInfo,
    PixelFilter,
    RefreshCycleOnlyChangeRefreshRate,
    MuraCorrection,
    Look,
    PerfQuery,
}

impl Feature {
    /// The protocol number of a feature.
    pub open spec fn number(self) -> u32 {
        match self {
            Feature::Done => 0,
            Feature::ReshadeShaders => 1,
            Feature::DisplayInfo => 2,
            Feature::PixelFilter => 3,
            Feature::RefreshCycleOnlyChangeRefreshRate => 4,
            Feature::MuraCorrection => 5,
            Feature::Look => 6,
            Feature::PerfQuery => 7,
        }
    }

    /// The number sent in a `feature_support` event.
    #[must_use]
    pub fn code(self) -> (code: u32)
        ensures
            code == self.number(),
    {
        match self {
            Feature::Done => 0,
            Feature::ReshadeShaders => 1,
            Feature::DisplayInfo => 2,
            Feature::PixelFilter => 3,
            Feature::RefreshCycleOnlyChangeRefreshRate => 4,
            Feature::MuraCorrection => 5,
            Feature::Look => 6,
            Feature::PerfQuery => 7,
        }
    }
}

/// One `feature_support` event.
#[derive(Clone, Copy, Debug, PartialEq, Eq, Structural)]
pub struct FeatureSupport {
    pub feature: Feature,
    pub version: u32,
    pub flags: u32,
}

/// Exact feature sequence sent to every control binding.
pub open spec fn advertised_features() -> Seq<FeatureSupport> {
    seq![
        FeatureSupport { feature: Feature::ReshadeShaders, version: 1, flags: 0 },
        FeatureSupport { feature: Feature::DisplayInfo, version: 1, flags: 0 },
        FeatureSupport { feature: Feature::PixelFilter, version: 1, flags: 0 },
        FeatureSupport { feature: Feature::RefreshCycleOnlyChangeRefreshRate, version: 1, flags: 0 },
        FeatureSupport { feature: Feature::MuraCorrection, version: 1, flags: 0 },
        FeatureSupport { feature: Feature::Look, version: 1, flags: 0 },
        FeatureSupport { feature: Feature::PerfQuery, version: 1, flags: 0 },
        FeatureSupport { feature: Feature::Done, version: 0, flags: 0 },
    ]
}

/// The events that announce the supported features, closed by `Done`.
#[must_use]
pub fn feature_advertisement() -> (features: [FeatureSupport; 8])
    ensures
        features@ == advertised_features(),
{
    let features = [
        FeatureSupport { feature: Feature::ReshadeShaders, version: 1, flags: 0 },
        FeatureSupport { feature: Feature::DisplayInfo, version: 1, flags: 0 },
        FeatureSupport { feature: Feature::PixelFilter, version: 1, flags: 0 },
        FeatureSupport { feature: Feature::RefreshCycleOnlyChangeRefreshRate, version: 1, flags: 0 },
        FeatureSupport { feature: Feature::MuraCorrection, version: 1, flags: 0 },
        FeatureSupport { feature: Feature::Look, version: 1, flags: 0 },
        FeatureSupport { feature: Feature::PerfQuery, version: 1, flags: 0 },
        FeatureSupport { feature: Feature::Done, version: 0, flags: 0 },
    ];
    assert(features@ =~= advertised_features());
    features
}

pub const TARGET_REFRESH_INTERNAL_DISPLAY: u32 = 0x1;

pub const TARGET_REFRESH_ALLOW_SWITCHING: u32 = 0x2;

pub const TARGET_REFRESH_ONLY_CHANGE_REFRESH_RATE: u32 = 0x4;

/// Which physical display group an operation targets.
#[derive(Clone, Copy, Debug, PartialEq, Eq, Structural)]
pub enum ScreenType {
    Internal,
    External,
}

/// A refresh-cycle override requested for one display group.
#[derive(Clone, Copy, Debug, PartialEq, Eq, Structural)]
pub struct RefreshCycleOverride {
    pub screen: ScreenType,
    pub frames_per_second: u32,
    pub allow_refresh_switching: bool,
    pub apply_frame_limiter: bool,
}

/// The override that a request asks for.
pub open spec fn refresh_override(fps: u32, flags: u32) -> RefreshCycleOverride {
    RefreshCycleOverride {
        screen: if flags & TARGET_REFRESH_INTERNAL_DISPLAY != 0 {
            ScreenType::Internal
        } else {
            ScreenType::External
        },
        frames_per_second: fps,
        allow_refresh_switching: flags & TARGET_REFRESH_ALLOW_SWITCHING != 0,
        apply_frame_limiter: flags & TARGET_REFRESH_ONLY_CHANGE_REFRESH_RATE == 0,
    }
}

/// Decode the override request. External is the default unless the internal bit is
/// set.
#[must_use]
pub fn decode_refresh_cycle_override(fps: u32, flags: u32) -> (decoded: RefreshCycleOverride)
    ensures
        decoded == refresh_override(fps, flags),
{
    RefreshCycleOverride {
        screen: if flags & TARGET_REFRESH_INTERNAL_DISPLAY != 0 {
            ScreenType::Internal
        } else {
            ScreenType::External
        },
        frames_per_second: fps,
        allow_refresh_switching: flags & TARGET_REFRESH_ALLOW_SWITCHING != 0,
        apply_frame_limiter: flags & TARGET_REFRESH_ONLY_CHANGE_REFRESH_RATE == 0,
    }
}

pub const DISPLAY_TYPE_INTERNAL: u32 = 0x1;

pub const DISPLAY_TYPE_EXTERNAL: u32 = 0x2;

pub const DISPLAY_SLEEP: u32 = 0x1;

pub const DISPLAY_WAKE: u32 = 0x2;

/// One backend screen power operation.
#[derive(Clone, Copy, Debug, PartialEq, Eq, Structural)]
pub struct DisplayPowerOperation {
    pub screen: ScreenType,
    pub sleep: bool,
}

/// The operation on `screen` alone, when its bit is among the display types.
pub open spec fn power_operation(
    display_types: u32,
    bit: u32,
    screen: ScreenType,
    sleep: bool,
) -> Seq<DisplayPowerOperation> {
    if display_types & bit != 0 {
        seq![DisplayPowerOperation { screen, sleep }]
    } else {
        Seq::empty()
    }
}

/// The operations of a `display_sleep` request: external display first, and none
/// when it names neither sleep nor wake.
pub open spec fn power_operations(display_types: u32, flags: u32) -> Seq<DisplayPowerOperation> {
    if flags & (DISPLAY_SLEEP | DISPLAY_WAKE) == 0 {
        Seq::empty()
    } else {
        let sleep = flags & DISPLAY_SLEEP != 0;
        power_operation(display_types, DISPLAY_TYPE_EXTERNAL, ScreenType::External, sleep)
            + power_operation(display_types, DISPLAY_TYPE_INTERNAL, ScreenType::Internal, sleep)
    }
}

/// Decode `display_sleep`. When both conflicting bits are supplied, `sleep` has
/// precedence.
#[must_use]
pub fn decode_display_sleep(display_types: u32, flags: u32) -> (operations: Vec<
    DisplayPowerOperation,
>)
    ensures
        operations@ == power_operations(display_types, flags),
{
    let mut operations: Vec<DisplayPowerOperation> = Vec::new();
    if flags & (DISPLAY_SLEEP | DISPLAY_WAKE) == 0 {
        return operations;
    }
    let sleep = flags & DISPLAY_SLEEP != 0;
    if display_types & DISPLAY_TYPE_EXTERNAL != 0 {
        operations.push(DisplayPowerOperation { screen: ScreenType::External, sleep });
    }
    if display_types & DISPLAY_TYPE_INTERNAL != 0 {
        operations.push(DisplayPowerOperation { screen: ScreenType::Internal, sleep });
    }
    operations
}

/// A request that names sleep puts every screen it names to sleep, whether or not it
/// also names wake.
pub proof fn lemma_sleep_precedes_wake(display_types: u32, flags: u32, i: int)
    requires
        flags & DISPLAY_SLEEP != 0,
        0 <= i < power_operations(display_types, flags).len(),
    ensures
        power_operations(display_types, flags)[i].sleep,
{
}

/// A response to `request_app_performance_stats`, low word before high word.
#[derive(Clone, Copy, Debug, PartialEq, Eq, Structural)]
pub struct PerformanceStatsEvent {
    pub control_id: u64,
    pub app_id: u32,
    pub frametime_ns_low: u32,
    pub frametime_ns_high: u32,
}

/// A control resource waiting for the next frame of one app.
#[derive(Clone, Copy, Debug, PartialEq, Eq, Structural)]
pub struct PerformanceRequest {
    pub control_id: u64,
    pub app_id: u32,
}

/// One-shot requests for performance statistics, oldest first.
#[derive(Clone, Debug, PartialEq, Eq)]
pub struct PerformanceRequests {
    requests: Vec<PerformanceRequest>,
}

impl View for PerformanceRequests {
    type V = Seq<PerformanceRequest>;

    closed spec fn view(&self) -> Seq<PerformanceRequest> {
        self.requests@
    }
}

impl Default for PerformanceRequests {
    fn default() -> (requests: Self)
        ensures
            requests@ == Seq::<PerformanceRequest>::empty(),
    {
        Self { requests: Vec::new() }
    }
}

/// The controls waiting for `app_id`, in the order of their requests.
pub open spec fn waiting_controls(requests: Seq<PerformanceRequest>, app_id: u32) -> Seq<u64> {
    requests.filter(|request: PerformanceRequest| request.app_id == app_id).map_values(
        |request: PerformanceRequest| request.control_id,
    )
}

impl PerformanceRequests {
    /// Register one control resource. Duplicate requests are retained.
    pub fn request(&mut self, control_id: u64, app_id: u32)
        ensures
            final(self)@ == old(self)@.push(PerformanceRequest { control_id, app_id }),
    {
        self.requests.push(PerformanceRequest { control_id, app_id });
    }

    /// Remove a destroyed control from every outstanding app request.
    pub fn remove_control(&mut self, control_id: u64)
        ensures
            final(self)@ == old(self)@.filter(
                |request: PerformanceRequest| request.control_id != control_id,
            ),
    {
        let ghost keep = |request: PerformanceRequest| request.control_id != control_id;
        let ghost before = self.requests@;
        let mut kept: Vec<PerformanceRequest> = Vec::new();
        let mut i: usize = 0;
        proof {
            lists::lemma_filter_empty(before.take(0), keep);
        }
        while i < self.requests.len()
            invariant
                i <= self.requests@.len(),
                self.requests@ == before,
                keep == (|request: PerformanceRequest| request.control_id != control_id),
                kept@ == before.take(i as int).filter(keep),
            decreases self.requests@.len() - i,
        {
            proof {
                lists::lemma_filter_take_next(before, keep, i as int);
            }
            let request = self.requests[i];
            if request.control_id != control_id {
                kept.push(request);
            }
            i = i + 1;
        }
        assert(before.take(i as int) =~= before);
        self.requests = kept;
    }

    /// Send to all requesters and consume the app's request list.
    pub fn app_presented(&mut self, app_id: u32, frametime_ns: u64) -> (events: Vec<
        PerformanceStatsEvent,
    >)
        ensures
            final(self)@ == old(self)@.filter(
                |request: PerformanceRequest| request.app_id != app_id,
            ),
            events@.map_values(|event: PerformanceStatsEvent| event.control_id)
                == waiting_controls(old(self)@, app_id),
            forall|i: int|
                #![trigger events@[i]]
                0 <= i < events@.len() ==> events@[i].app_id == app_id
                    && events@[i].frametime_ns_high == wire::high_word(frametime_ns)
                    && events@[i].frametime_ns_low == wire::low_word(frametime_ns),
    {
        let ghost keep = |request: PerformanceRequest| request.app_id != app_id;
        let ghost wanted = |request: PerformanceRequest| request.app_id == app_id;
        let ghost control = |request: PerformanceRequest| request.control_id;
        let ghost sent = |event: PerformanceStatsEvent| event.control_id;
        let ghost before = self.requests@;
        let (high, low) = split_u64(frametime_ns);
        let mut kept: Vec<PerformanceRequest> = Vec::new();
        let mut events: Vec<PerformanceStatsEvent> = Vec::new();
        let mut i: usize = 0;
        proof {
            lists::lemma_filter_empty(before.take(0), keep);
            lists::lemma_filter_empty(before.take(0), wanted);
        }
        assert(events@.map_values(sent) =~= before.take(0).filter(wanted).map_values(control));
        while i < self.requests.len()
            invariant
                i <= self.requests@.len(),
                self.requests@ == before,
                keep == (|request: PerformanceRequest| request.app_id != app_id),
                wanted == (|request: PerformanceRequest| request.app_id == app_id),
                control == (|request: PerformanceRequest| request.control_id),
                sent == (|event: PerformanceStatsEvent| event.control_id),
                high == wire::high_word(frametime_ns),
                low == wire::low_word(frametime_ns),
                kept@ == before.take(i as int).filter(keep),
                events@.map_values(sent) == before.take(i as int).filter(wanted).map_values(
                    control,
                ),
                forall|j: int|
                    #![trigger events@[j]]
                    0 <= j < events@.len() ==> events@[j].app_id == app_id
                        && events@[j].frametime_ns_high == wire::high_word(frametime_ns)
                        && events@[j].frametime_ns_low == wire::low_word(frametime_ns),
            decreases self.requests@.len() - i,
        {
            proof {
                lists::lemma_filter_take_next(before, keep, i as int);
                lists::lemma_filter_take_next(before, wanted, i as int);
            }
            let request = self.requests[i];
            let ghost sent_before = events@.map_values(sent);
            if request.app_id == app_id {
                events.push(
                    PerformanceStatsEvent {
                        control_id: request.control_id,
                        app_id,
                        frametime_ns_low: low,
                        frametime_ns_high: high,
                    },
                );
                assert(events@.map_values(sent) =~= sent_before.push(request.control_id));
                assert(before.take(i + 1).filter(wanted).map_values(control) =~= before.take(
                    i as int,
                ).filter(wanted).map_values(control).push(request.control_id));
            } else {
                kept.push(request);
            }
            i = i + 1;
        }
        assert(before.take(i as int) =~= before);
        self.requests = kept;
        events
    }
}

/// Once an app has presented, nobody waits for it until the next request, and the
/// controls waiting for other apps still wait.
pub proof fn lemma_requests_fan_out_once(
    requests: Seq<PerformanceRequest>,
    presented: u32,
    other: u32,
)
    ensures
        ({
            let left = requests.filter(
                |request: PerformanceRequest| request.app_id != presented,
            );
            &&& waiting_controls(left, presented).len() == 0
            &&& other != presented ==> waiting_controls(left, other) == waiting_controls(
                requests,
                other,
            )
        }),
    decreases requests.len(),
{
    reveal(Seq::filter);
    let keep = |request: PerformanceRequest| request.app_id != presented;
    let wanted = |request: PerformanceRequest| request.app_id == presented;
    let others = |request: PerformanceRequest| request.app_id == other;
    let control = |request: PerformanceRequest| request.control_id;
    let left = requests.filter(keep);
    if requests.len() != 0 {
        let init = requests.drop_last();
        let last = requests.last();
        lemma_requests_fan_out_once(init, presented, other);
        let left_init = init.filter(keep);
        if keep(last) {
            assert(left == left_init.push(last));
            assert(left.drop_last() =~= left_init);
            assert(left.filter(wanted) == left_init.filter(wanted));
            if other == last.app_id {
                assert(left.filter(others).map_values(control) =~= left_init.filter(
                    others,
                ).map_values(control).push(last.control_id));
                assert(requests.filter(others).map_values(control) =~= init.filter(
                    others,
                ).map_values(control).push(last.control_id));
            }
        }
    }
}

/// A destroyed control waits for no app, and every other control keeps its place.
pub proof fn lemma_destroyed_control_waits_for_nothing(
    requests: Seq<PerformanceRequest>,
    control_id: u64,
    app_id: u32,
)
    ensures
        waiting_controls(
            requests.filter(|request: PerformanceRequest| request.control_id != control_id),
            app_id,
        ) == waiting_controls(requests, app_id).filter(|control: u64| control != control_id),
    decreases requests.len(),
{
    reveal(Seq::filter);
    let keep = |request: PerformanceRequest| request.control_id != control_id;
    let wanted = |request: PerformanceRequest| request.app_id == app_id;
    let control = |request: PerformanceRequest| request.control_id;
    let remaining = |control: u64| control != control_id;
    let left = requests.filter(keep);
    if requests.len() == 0 {
        assert(waiting_controls(left, app_id) =~= Seq::<u64>::empty());
        assert(waiting_controls(requests, app_id) =~= Seq::<u64>::empty());
    } else {
        let init = requests.drop_last();
        let last = requests.last();
        lemma_destroyed_control_waits_for_nothing(init, control_id, app_id);
        let left_init = init.filter(keep);
        if keep(last) {
            assert(left.drop_last() =~= left_init);
        }
        if wanted(last) {
            let all = waiting_controls(requests, app_id);
            assert(all =~= waiting_controls(init, app_id).push(last.control_id));
            assert(all.drop_last() =~= waiting_controls(init, app_id));
            if keep(last) {
                assert(waiting_controls(left, app_id) =~= waiting_controls(left_init, app_id).push(
                    last.control_id,
                ));
            }
        }
    }
}

/// How a refresh-cycle request is read: its lowest bit names the built-in display, the next
/// one lets the mode change, and the one after that asks for a change of mode alone, so that
/// frames are limited exactly when it is clear.
pub proof fn lemma_refresh_requests_are_read(fps: u32, flags: u32)
    ensures
        ({
            let request = refresh_override(fps, flags);
            &&& request.frames_per_second == fps
            &&& request.screen == ScreenType::Internal <==> flags & 1 != 0
            &&& request.screen == ScreenType::External <==> flags & 1 == 0
            &&& request.allow_refresh_switching <==> flags & 2 != 0
            &&& request.apply_frame_limiter <==> flags & 4 == 0
        }),
{
}

/// How a power request is carried out: nothing happens unless it asks for sleep or wake;
/// otherwise every display that it names, and no other, gets one operation, the external one
/// first, and sleep is what it gets whenever sleep is asked for.
pub proof fn lemma_power_requests_reach_displays(display_types: u32, flags: u32)
    ensures
        ({
            let operations = power_operations(display_types, flags);
            let asked = flags & 1 != 0 || flags & 2 != 0;
            let external = asked && display_types & 2 != 0;
            let internal = asked && display_types & 1 != 0;
            let sleep = flags & 1 != 0;
            &&& external ==> operations.len() > 0 && operations[0] == (DisplayPowerOperation {
                screen: ScreenType::External,
                sleep,
            })
            &&& internal ==> operations.len() > 0 && operations.last() == (DisplayPowerOperation {
                screen: ScreenType::Internal,
                sleep,
            })
            &&& operations.len() == (if external {
                1int
            } else {
                0
            }) + (if internal {
                1int
            } else {
                0
            })
        }),
{
    assert(flags & (1u32 | 2u32) == 0 <==> flags & 1 == 0 && flags & 2 == 0) by (bit_vector);
}

/// Every control is told of every feature once, in the order of the protocol's numbers, and
/// then that there are no more.
pub proof fn lemma_features_are_advertised(left: Feature, right: Feature)
    ensures
        ({
            let features = advertised_features();
            &&& features.len() == 8
            &&& forall|i: int|
                0 <= i < 7 ==> (#[trigger] features[i]).feature.number() == i + 1
                    && features[i].version == 1 && features[i].flags == 0
            &&& features[7].feature is Done && features[7].version == 0 && features[7].flags == 0
        }),
        Feature::Done.number() == 0,
        Feature::ReshadeShaders.number() == 1,
        Feature::DisplayInfo.number() == 2,
        Feature::PixelFilter.number() == 3,
        Feature::RefreshCycleOnlyChangeRefreshRate.number() == 4,
        Feature::MuraCorrection.number() == 5,
        Feature::Look.number() == 6,
        Feature::PerfQuery.number() == 7,
        left.number() == right.number() <==> left == right,
{
}

/// The controls that wait for an app are those that asked about it, in the order in which
/// they asked and as often as they asked.
pub proof fn lemma_requests_are_queued(
    requests: Seq<PerformanceRequest>,
    request: PerformanceRequest,
    app_id: u32,
)
    ensures
        waiting_controls(Seq::empty(), app_id).len() == 0,
        request.app_id == app_id ==> waiting_controls(requests.push(request), app_id)
            == waiting_controls(requests, app_id).push(request.control_id),
        request.app_id != app_id ==> waiting_controls(requests.push(request), app_id)
            == waiting_controls(requests, app_id),
{
    reveal(Seq::filter);
    let more = requests.push(request);
    assert(more.drop_last() =~= requests);
    let wanted = |request: PerformanceRequest| request.app_id == app_id;
    if request.app_id == app_id {
        assert(more.filter(wanted) == requests.filter(wanted).push(request));
        assert(waiting_controls(more, app_id) =~= waiting_controls(requests, app_id).push(
            request.control_id,
        ));
    }
}

} // verus!
