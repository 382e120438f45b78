//! Choice of connectors and of their modes.

use vstd::prelude::*;

use crate::control::ScreenType;
use crate::lists;
use crate::text;
use crate::text::{chars_of, same_text};

verus! {

/// The interfaces that tell built-in displays from others.
#[derive(Clone, Copy, Debug, PartialEq, Eq, Structural)]
pub enum ConnectorInterface {
    EmbeddedDisplayPort,
    Lvds,
    Dsi,
    /// Any other interface.
    Pluggable,
}

pub open spec fn screen_type(interface: ConnectorInterface) -> ScreenType {
    match interface {
        ConnectorInterface::Pluggable => ScreenType::External,
        _ => ScreenType::Internal,
    }
}

/// The display group of a connector.
#[must_use]
pub fn connector_screen_type(interface: ConnectorInterface) -> (screen: ScreenType)
    ensures
        screen == screen_type(interface),
{
    match interface {
        ConnectorInterface::EmbeddedDisplayPort | ConnectorInterface::Lvds
        | ConnectorInterface::Dsi => ScreenType::Internal,
        ConnectorInterface::Pluggable => ScreenType::External,
    }
}

/// A mode of a connector: its size in pixels, its refresh rate in whole hertz, and its
/// exact refresh rate. A number stands for what else the device says of a mode, such as its
/// clock, its blanking, its flags and its name: two modes have the same number exactly if
/// the device says the same of both.
#[derive(Clone, Copy, Debug, PartialEq, Eq, Structural)]
pub struct DisplayMode {
    pub width: u16,
    pub height: u16,
    pub vrefresh: u32,
    pub refresh_millihz: i32,
    pub timing: u64,
}

impl DisplayMode {
    pub open spec fn same_size(self, other: DisplayMode) -> bool {
        self.width == other.width && self.height == other.height
    }

    /// Whether two modes have the same size.
    pub fn has_size_of(&self, other: &DisplayMode) -> (same: bool)
        ensures
            same == self.same_size(*other),
    {
        self.width == other.width && self.height == other.height
    }
}

/// A refresh rate in whole hertz, rounded as `(millihertz + 499) / 1000` towards zero, or
/// none for a negative rate.
pub open spec fn target_hz(refresh_millihz: Option<i32>) -> Option<u32> {
    match refresh_millihz {
        Some(rate) => if rate + 499 >= 0 {
            Some(((rate + 499) / 1000) as u32)
        } else if rate + 499 > -1000 {
            Some(0)
        } else {
            None
        },
        None => None,
    }
}

/// A refresh rate in whole hertz, or none for a negative rate.
#[must_use]
pub fn read_target_hz(refresh_millihz: Option<i32>) -> (target: Option<u32>)
    requires
        refresh_millihz matches Some(rate) ==> rate <= i32::MAX - 499,
    ensures
        target == target_hz(refresh_millihz),
{
    match refresh_millihz {
        Some(rate) => {
            let sum: i32 = rate + 499;
            if sum >= 0 {
                Some(sum as u32 / 1000)
            } else if sum > -1000 {
                Some(0)
            } else {
                None
            }
        },
        None => None,
    }
}

/// Whether a wish, if there is one, is a given value.
pub open spec fn unset_or(wish: Option<u32>, value: u32) -> bool {
    wish is None || wish == Some(value)
}

fn is_unset_or(wish: Option<u32>, value: u32) -> (met: bool)
    ensures
        met == unset_or(wish, value),
{
    match wish {
        Some(wanted) => wanted == value,
        None => true,
    }
}

/// The predicate of being a mode of the wanted size and rate. Modes of 4096x2160 are never
/// wanted.
pub open spec fn wanted_mode(
    width: Option<u32>,
    height: Option<u32>,
    hz: Option<u32>,
) -> spec_fn(DisplayMode) -> bool {
    |mode: DisplayMode|
        !(mode.width == 4096 && mode.height == 2160) && unset_or(width, mode.width as u32)
            && unset_or(height, mode.height as u32) && unset_or(hz, mode.vrefresh)
}

/// The index of the mode that is used at first: the first wanted one.
#[must_use]
pub fn select_mode(
    modes: &[DisplayMode],
    width: Option<u32>,
    height: Option<u32>,
    refresh_millihz: Option<i32>,
) -> (index: Option<usize>)
    requires
        refresh_millihz matches Some(rate) ==> rate <= i32::MAX - 499,
    ensures
        ({
            let first = lists::first_index(
                modes@,
                wanted_mode(width, height, target_hz(refresh_millihz)),
            );
            match index {
                Some(index) => index == first && index < modes@.len(),
                None => first == modes@.len(),
            }
        }),
{
    let hz = read_target_hz(refresh_millihz);
    let ghost wanted = wanted_mode(width, height, hz);
    let mut i: usize = 0;
    while i < modes.len()
        invariant
            i <= modes@.len(),
            hz == target_hz(refresh_millihz),
            wanted == wanted_mode(width, height, hz),
            forall|j: int| 0 <= j < i ==> !wanted(#[trigger] modes@[j]),
        decreases modes@.len() - i,
    {
        let mode = modes[i];
        if !(mode.width == 4096 && mode.height == 2160) && is_unset_or(width, mode.width as u32)
            && is_unset_or(height, mode.height as u32) && is_unset_or(hz, mode.vrefresh) {
            proof {
                assert(wanted(modes@[i as int]));
                lists::lemma_first_index(modes@, wanted, i as int);
            }
            return Some(i);
        }
        i = i + 1;
    }
    proof {
        lists::lemma_first_index(modes@, wanted, i as int);
    }
    None
}

/// Numbers in increasing order, none twice.
pub open spec fn is_increasing(numbers: Seq<u32>) -> bool {
    forall|i: int, j: int| 0 <= i < j < numbers.len() ==> numbers[i] < numbers[j]
}

/// Whether some mode has the size of another and a refresh rate.
pub open spec fn offers(modes: Seq<DisplayMode>, selected: DisplayMode, hz: u32) -> bool {
    exists|i: int|
        0 <= i < modes.len() && (#[trigger] modes[i]).same_size(selected) && modes[i].vrefresh
            == hz
}

/// Inserts a number into numbers in increasing order, unless it is there.
fn insert_sorted(numbers: &mut Vec<u32>, number: u32)
    requires
        is_increasing(old(numbers)@),
    ensures
        is_increasing(final(numbers)@),
        forall|other: u32| #[trigger]
            final(numbers)@.contains(other) <==> old(numbers)@.contains(other) || other == number,
{
    let ghost before = numbers@;
    let mut i: usize = 0;
    while i < numbers.len() && numbers[i] < number
        invariant
            i <= numbers@.len(),
            numbers@ == before,
            before == old(numbers)@,
            forall|j: int| 0 <= j < i ==> before[j] < number,
        decreases numbers@.len() - i,
    {
        i = i + 1;
    }
    if i < numbers.len() && numbers[i] == number {
        assert(before[i as int] == number);
        return;
    }
    numbers.insert(i, number);
    let ghost after = numbers@;
    assert(after == before.insert(i as int, number));
    assert forall|a: int, b: int| 0 <= a < b < after.len() implies after[a] < after[b] by {
        if a < i && b > i {
            assert(before[a] < before[b - 1]);
        } else if a == i {
            assert(after[b] == before[b - 1]);
            assert(before[i as int] <= before[b - 1]);
        }
    }
    assert forall|other: u32| #[trigger]
        after.contains(other) <==> before.contains(other) || other == number by {
        if before.contains(other) {
            let k = before.index_of(other);
            if k < i {
                assert(after[k] == other);
            } else {
                assert(after[k + 1] == other);
            }
        }
        if other == number {
            assert(after[i as int] == other);
        }
        if after.contains(other) {
            let k = after.index_of(other);
            if k < i {
                assert(before[k] == other);
            } else if k > i {
                assert(before[k - 1] == other);
            }
        }
    }
}

/// The refresh rates that clients may ask for: of a built-in display those of all modes of
/// the selected size, of another display that of the selected mode alone.
#[must_use]
pub fn valid_refresh_rates(
    modes: &[DisplayMode],
    selected: &DisplayMode,
    screen: ScreenType,
) -> (rates: Vec<u32>)
    ensures
        screen == ScreenType::External ==> rates@ == seq![selected.vrefresh],
        screen == ScreenType::Internal ==> is_increasing(rates@) && forall|hz: u32| #[trigger]
            rates@.contains(hz) <==> offers(modes@, *selected, hz),
{
    let mut rates: Vec<u32> = Vec::new();
    if screen == ScreenType::External {
        rates.push(selected.vrefresh);
        assert(rates@ =~= seq![selected.vrefresh]);
        return rates;
    }
    let mut i: usize = 0;
    while i < modes.len()
        invariant
            i <= modes@.len(),
            is_increasing(rates@),
            forall|hz: u32| #[trigger]
                rates@.contains(hz) <==> offers(modes@.take(i as int), *selected, hz),
        decreases modes@.len() - i,
    {
        let ghost before = rates@;
        let ghost prefix = modes@.take(i as int);
        let ghost longer = modes@.take(i + 1);
        let mode = modes[i];
        if mode.has_size_of(selected) {
            insert_sorted(&mut rates, mode.vrefresh);
        }
        assert forall|hz: u32| #[trigger]
            rates@.contains(hz) <==> offers(longer, *selected, hz) by {
            if offers(prefix, *selected, hz) {
                let k = choose|k: int|
                    0 <= k < prefix.len() && (#[trigger] prefix[k]).same_size(*selected)
                        && prefix[k].vrefresh == hz;
                assert(longer[k] == prefix[k]);
            }
            if mode.same_size(*selected) && mode.vrefresh == hz {
                assert(longer[i as int] == mode);
            }
            if offers(longer, *selected, hz) {
                let k = choose|k: int|
                    0 <= k < longer.len() && (#[trigger] longer[k]).same_size(*selected)
                        && longer[k].vrefresh == hz;
                if k < i {
                    assert(prefix[k] == longer[k]);
                }
            }
            assert(before.contains(hz) <==> offers(prefix, *selected, hz));
        }
        i = i + 1;
    }
    assert(modes@.take(i as int) =~= modes@);
    rates
}

/// The predicate of being a text.
pub open spec fn is_text(wanted: Seq<char>) -> spec_fn(Seq<char>) -> bool {
    |candidate: Seq<char>| candidate == wanted
}

/// The rank of a connector among preferences; lower ranks are preferred. A connector that
/// is not listed has the rank of the wildcard, or comes last.
pub open spec fn priority_of(priorities: Seq<Seq<char>>, connector: Seq<char>) -> int {
    let listed = lists::first_index(priorities, is_text(connector));
    if listed < priorities.len() {
        listed
    } else {
        lists::first_index(priorities, is_text("*"@))
    }
}

fn find_text(candidates: &[String], wanted: &str) -> (index: usize)
    ensures
        index == lists::first_index(text::texts(candidates@), is_text(wanted@)),
        index <= candidates@.len(),
{
    let ghost all = text::texts(candidates@);
    let ghost matches = is_text(wanted@);
    let mut i: usize = 0;
    while i < candidates.len()
        invariant
            i <= candidates@.len(),
            all == text::texts(candidates@),
            matches == is_text(wanted@),
            forall|j: int| 0 <= j < i ==> !matches(#[trigger] all[j]),
        decreases candidates@.len() - i,
    {
        if same_text(candidates[i].as_str(), wanted) {
            proof {
                assert(matches(all[i as int]));
                lists::lemma_first_index(all, matches, i as int);
            }
            return i;
        }
        i = i + 1;
    }
    proof {
        lists::lemma_first_index(all, matches, i as int);
    }
    i
}

/// The rank of a connector among preferences; lower ranks are preferred.
#[must_use]
pub fn connector_priority(priorities: &[String], connector: &str) -> (rank: usize)
    ensures
        rank == priority_of(text::texts(priorities@), connector@),
        rank <= priorities@.len(),
{
    let listed: usize = find_text(priorities, connector);
    if listed < priorities.len() {
        listed
    } else {
        find_text(priorities, "*")
    }
}

/// Whether one text stands before another in the order of their characters.
pub open spec fn text_before(left: Seq<char>, right: Seq<char>) -> bool
    decreases left.len(),
{
    right.len() > 0 && (left.len() == 0 || left[0] < right[0] || (left[0] == right[0]
        && text_before(left.skip(1), right.skip(1))))
}

fn is_text_before(left: &str, right: &str) -> (before: bool)
    ensures
        before == text_before(left@, right@),
{
    let left_chars = chars_of(left);
    let right_chars = chars_of(right);
    let mut i: usize = 0;
    assert(left@.skip(0) =~= left@);
    assert(right@.skip(0) =~= right@);
    while i < left_chars.len() && i < right_chars.len() && left_chars[i] == right_chars[i]
        invariant
            left_chars@ == left@,
            right_chars@ == right@,
            i <= left@.len(),
            i <= right@.len(),
            text_before(left@, right@) == text_before(left@.skip(i as int), right@.skip(i as int)),
        decreases left@.len() - i,
    {
        assert(left@.skip(i as int).skip(1) =~= left@.skip(i + 1));
        assert(right@.skip(i as int).skip(1) =~= right@.skip(i + 1));
        i = i + 1;
    }
    if i >= right_chars.len() {
        false
    } else if i >= left_chars.len() {
        true
    } else {
        left_chars[i] < right_chars[i]
    }
}

/// A connector that can be driven, as a scan reports it.
#[derive(Debug, PartialEq, Eq)]
pub struct Connector {
    pub name: String,
    pub handle: u32,
    /// The display engine that would drive it.
    pub crtc: u32,
    pub interface: ConnectorInterface,
    pub connected: bool,
    pub modes: Vec<DisplayMode>,
}

/// Whether a connector can be used.
pub open spec fn is_usable(connector: Connector, force_internal: bool) -> bool {
    connector.connected && (!force_internal || screen_type(connector.interface)
        == ScreenType::Internal)
}

/// Whether one connector is preferred to another: by rank, then by name.
pub open spec fn preferred_to(
    priorities: Seq<Seq<char>>,
    left: Connector,
    right: Connector,
) -> bool {
    let left_rank = priority_of(priorities, left.name@);
    let right_rank = priority_of(priorities, right.name@);
    left_rank < right_rank || (left_rank == right_rank && text_before(left.name@, right.name@))
}

/// The index of the usable connector that is preferred to all others; of several, the
/// first.
pub open spec fn best_connector(
    connectors: Seq<Connector>,
    priorities: Seq<Seq<char>>,
    force_internal: bool,
) -> Option<int>
    decreases connectors.len(),
{
    if connectors.len() == 0 {
        None
    } else {
        let last = connectors.last();
        let best = best_connector(connectors.drop_last(), priorities, force_internal);
        if is_usable(last, force_internal) && (best matches Some(index) ==> preferred_to(
            priorities,
            last,
            connectors[index],
        )) {
            Some(connectors.len() - 1)
        } else {
            best
        }
    }
}

proof fn lemma_best_index(
    connectors: Seq<Connector>,
    priorities: Seq<Seq<char>>,
    force_internal: bool,
)
    ensures
        best_connector(connectors, priorities, force_internal) matches Some(index) ==> 0 <= index
            < connectors.len(),
    decreases connectors.len(),
{
    if connectors.len() > 0 {
        lemma_best_index(connectors.drop_last(), priorities, force_internal);
    }
}

/// The index of the connector to use.
#[must_use]
pub fn choose_connector(
    connectors: &Vec<Connector>,
    priorities: &[String],
    force_internal: bool,
) -> (index: Option<usize>)
    ensures
        match index {
            Some(index) => index < connectors@.len() && best_connector(
                connectors@,
                text::texts(priorities@),
                force_internal,
            ) == Some(index as int),
            None => best_connector(connectors@, text::texts(priorities@), force_internal) is None,
        },
{
    let ghost ranks = text::texts(priorities@);
    let mut best: Option<usize> = None;
    let mut i: usize = 0;
    while i < connectors.len()
        invariant
            i <= connectors@.len(),
            ranks == text::texts(priorities@),
            match best {
                Some(index) => index < i && best_connector(
                    connectors@.take(i as int),
                    ranks,
                    force_internal,
                ) == Some(index as int),
                None => best_connector(connectors@.take(i as int), ranks, force_internal) is None,
            },
        decreases connectors@.len() - i,
    {
        let ghost prefix = connectors@.take(i + 1);
        assert(prefix.drop_last() =~= connectors@.take(i as int));
        let connector = &connectors[i];
        let usable = connector.connected && (!force_internal || connector_screen_type(
            connector.interface,
        ) == ScreenType::Internal);
        if usable {
            let better = match best {
                Some(index) => {
                    let other = &connectors[index];
                    let rank: usize = connector_priority(priorities, connector.name.as_str());
                    let other_rank: usize = connector_priority(priorities, other.name.as_str());
                    assert(prefix[index as int] == *other);
                    rank < other_rank || (rank == other_rank && is_text_before(
                        connector.name.as_str(),
                        other.name.as_str(),
                    ))
                },
                None => true,
            };
            if better {
                best = Some(i);
            }
        }
        i = i + 1;
    }
    assert(connectors@.take(i as int) =~= connectors@);
    best
}

proof fn lemma_text_order(a: Seq<char>, b: Seq<char>, c: Seq<char>)
    ensures
        !(text_before(a, b) && text_before(b, a)),
        text_before(a, b) && text_before(b, c) ==> text_before(a, c),
        text_before(a, b) || text_before(b, a) || a == b,
    decreases a.len(),
{
    if a.len() > 0 && b.len() > 0 {
        lemma_text_order(a.skip(1), b.skip(1), c.skip(1));
        if a[0] == b[0] && a.skip(1) == b.skip(1) {
            assert(a =~= seq![a[0]] + a.skip(1));
            assert(b =~= seq![b[0]] + b.skip(1));
        }
    } else if a.len() == 0 && b.len() == 0 {
        assert(a =~= b);
    }
}

/// The connector in use is usable and no usable connector is preferred to it; there is one
/// exactly when some connector is usable.
pub proof fn lemma_best_connector(
    connectors: Seq<Connector>,
    priorities: Seq<Seq<char>>,
    force_internal: bool,
)
    ensures
        match best_connector(connectors, priorities, force_internal) {
            Some(best) => {
                &&& 0 <= best < connectors.len()
                &&& is_usable(connectors[best], force_internal)
                &&& forall|i: int|
                    0 <= i < connectors.len() && is_usable(
                        #[trigger] connectors[i],
                        force_internal,
                    ) ==> !preferred_to(priorities, connectors[i], connectors[best])
            },
            None => forall|i: int|
                0 <= i < connectors.len() ==> !is_usable(#[trigger] connectors[i], force_internal),
        },
    decreases connectors.len(),
{
    lemma_best_index(connectors, priorities, force_internal);
    if connectors.len() > 0 {
        let init = connectors.drop_last();
        let last = connectors.last();
        lemma_best_connector(init, priorities, force_internal);
        lemma_best_index(init, priorities, force_internal);
        assert forall|i: int| 0 <= i < init.len() implies #[trigger] connectors[i] == init[i] by {}
        let before = best_connector(init, priorities, force_internal);
        if best_connector(connectors, priorities, force_internal) == Some(connectors.len() - 1) {
            if let Some(index) = before {
                assert forall|i: int|
                    0 <= i < connectors.len() && is_usable(
                        #[trigger] connectors[i],
                        force_internal,
                    ) implies !preferred_to(priorities, connectors[i], last) by {
                    lemma_text_order(connectors[i].name@, last.name@, connectors[index].name@);
                    lemma_text_order(last.name@, connectors[i].name@, connectors[i].name@);
                    if i < init.len() {
                        assert(!preferred_to(priorities, init[i], init[index]));
                    }
                }
            } else {
                lemma_text_order(last.name@, last.name@, last.name@);
            }
        }
    }
}

/// A connector that preferences list by name goes before one that they do not list, unless
/// a wildcard stands further ahead.
pub proof fn lemma_listed_connector_is_preferred(
    priorities: Seq<Seq<char>>,
    listed: Connector,
    other: Connector,
)
    requires
        priorities.contains(listed.name@),
        !priorities.contains(other.name@),
        !priorities.contains("*"@),
    ensures
        preferred_to(priorities, listed, other),
{
    lists::lemma_first_index_found(priorities, is_text(listed.name@));
    lists::lemma_first_index_found(priorities, is_text(other.name@));
    lists::lemma_first_index_found(priorities, is_text("*"@));
    let i = priorities.index_of(listed.name@);
    assert(is_text(listed.name@)(priorities[i]));
    let j = lists::first_index(priorities, is_text(other.name@));
    if j < priorities.len() {
        assert(is_text(other.name@)(priorities[j]));
    }
    let k = lists::first_index(priorities, is_text("*"@));
    if k < priorities.len() {
        assert(is_text("*"@)(priorities[k]));
    }
}

/// A connector belongs to a display outside exactly if something can be plugged into it.
pub proof fn lemma_pluggable_connectors_are_external(interface: ConnectorInterface)
    ensures
        screen_type(interface) == ScreenType::External <==> interface is Pluggable,
        screen_type(interface) == ScreenType::Internal <==> !(interface is Pluggable),
{
}

/// The rate that is asked for is the nearest in whole hertz, with halves rounded down. A rate
/// that is clearly negative asks for nothing.
pub proof fn lemma_wished_rates_are_nearest(rate: i32)
    ensures
        rate >= 0 ==> (target_hz(Some(rate)) matches Some(hz) && -500 < rate - 1000 * hz <= 500),
        rate > -1499 ==> target_hz(Some(rate)) is Some,
        -1499 < rate <= 0 ==> target_hz(Some(rate)) == Some(0u32),
        rate <= -1499 ==> target_hz(Some(rate)) is None,
        target_hz(None) is None,
{
}

/// The mode that is picked is the first one that meets every wish that was made, and is not
/// the cinema size, which is never picked.
pub proof fn lemma_first_fitting_mode_is_picked(
    modes: Seq<DisplayMode>,
    width: Option<u32>,
    height: Option<u32>,
    hz: Option<u32>,
)
    ensures
        ({
            let at = lists::first_index(modes, wanted_mode(width, height, hz));
            &&& 0 <= at <= modes.len()
            &&& at < modes.len() ==> fits_wishes(modes[at], width, height, hz)
            &&& forall|i: int|
                0 <= i < at ==> !fits_wishes(#[trigger] modes[i], width, height, hz)
        }),
{
    let wanted = wanted_mode(width, height, hz);
    lists::lemma_first_index_found(modes, wanted);
    assert(forall|mode: DisplayMode|
        #![trigger wanted(mode)]
        wanted(mode) <==> fits_wishes(mode, width, height, hz));
    assert forall|i: int| 0 <= i < lists::first_index(modes, wanted) implies !fits_wishes(
        #[trigger] modes[i],
        width,
        height,
        hz,
    ) by {
        assert(!wanted(modes[i]));
    }
}

/// Whether a mode meets every wish that was made.
pub open spec fn fits_wishes(
    mode: DisplayMode,
    width: Option<u32>,
    height: Option<u32>,
    hz: Option<u32>,
) -> bool {
    &&& width matches Some(wish) ==> mode.width == wish
    &&& height matches Some(wish) ==> mode.height == wish
    &&& hz matches Some(wish) ==> mode.vrefresh == wish
    &&& mode.width != 4096 || mode.height != 2160
}

/// A display offers a rate if one of its modes has the size in use and that rate.
pub proof fn lemma_offered_rates_have_modes(
    modes: Seq<DisplayMode>,
    selected: DisplayMode,
    more: DisplayMode,
    hz: u32,
)
    ensures
        !offers(Seq::empty(), selected, hz),
        offers(modes.push(more), selected, hz) <==> offers(modes, selected, hz) || (more.width
            == selected.width && more.height == selected.height && more.vrefresh == hz),
{
    let all = modes.push(more);
    assert(all[modes.len() as int] == more);
    if offers(modes, selected, hz) {
        let at = choose|i: int|
            0 <= i < modes.len() && (#[trigger] modes[i]).same_size(selected) && modes[i].vrefresh
                == hz;
        assert(all[at] == modes[at]);
    }
    if offers(all, selected, hz) {
        let at = choose|i: int|
            0 <= i < all.len() && (#[trigger] all[i]).same_size(selected) && all[i].vrefresh == hz;
        if at < modes.len() {
            assert(modes[at] == all[at]);
        }
    }
}

/// The rank of a connector: its first place in the list of preferences; else that of the
/// star, which stands for every connector; else behind all that are listed.
pub proof fn lemma_preferences_rank_connectors(priorities: Seq<Seq<char>>, connector: Seq<char>)
    ensures
        ({
            let rank = priority_of(priorities, connector);
            &&& 0 <= rank <= priorities.len()
            &&& priorities.contains(connector) ==> rank < priorities.len() && priorities[rank]
                == connector && forall|i: int|
                0 <= i < rank ==> #[trigger] priorities[i] != connector
            &&& !priorities.contains(connector) && priorities.contains("*"@) ==> rank
                < priorities.len() && priorities[rank] == "*"@ && forall|i: int|
                0 <= i < rank ==> #[trigger] priorities[i] != "*"@
            &&& !priorities.contains(connector) && !priorities.contains("*"@) ==> rank
                == priorities.len()
        }),
{
    lists::lemma_first_index_found(priorities, is_text(connector));
    lists::lemma_first_index_found(priorities, is_text("*"@));
    assert forall|i: int|
        0 <= i < lists::first_index(priorities, is_text(connector)) implies #[trigger] priorities[i]
        != connector by {
        assert(!is_text(connector)(priorities[i]));
    }
    assert forall|i: int|
        0 <= i < lists::first_index(priorities, is_text("*"@)) implies #[trigger] priorities[i]
        != "*"@ by {
        assert(!is_text("*"@)(priorities[i]));
    }
    if priorities.contains(connector) {
        let at = choose|i: int| 0 <= i < priorities.len() && priorities[i] == connector;
        assert(is_text(connector)(priorities[at]));
    }
    if priorities.contains("*"@) {
        let at = choose|i: int| 0 <= i < priorities.len() && priorities[i] == "*"@;
        assert(is_text("*"@)(priorities[at]));
    }
}

/// Names are compared as in a dictionary: the first character in which they differ decides,
/// and a name comes before every longer one that starts with it.
pub proof fn lemma_names_are_ordered(
    front: Seq<char>,
    left: Seq<char>,
    right: Seq<char>,
)
    ensures
        left.len() > 0 && right.len() > 0 && left[0] < right[0] ==> text_before(
            front + left,
            front + right,
        ) && !text_before(front + right, front + left),
        right.len() > 0 ==> text_before(front, front + right) && !text_before(front + right, front),
        !text_before(front, front),
    decreases front.len(),
{
    if front.len() == 0 {
        assert(front + left =~= left);
        assert(front + right =~= right);
    } else {
        lemma_names_are_ordered(front.skip(1), left, right);
        assert((front + left).skip(1) =~= front.skip(1) + left);
        assert((front + right).skip(1) =~= front.skip(1) + right);
        assert((front + left)[0] == front[0]);
        assert((front + right)[0] == front[0]);
    }
}

/// The connector that is picked is connected, and built in where only such may be used. No
/// other such connector has a better rank, nor an earlier name at the same rank. One is picked
/// wherever there is one.
pub proof fn lemma_best_ranked_connector_is_picked(
    connectors: Seq<Connector>,
    priorities: Seq<Seq<char>>,
    force_internal: bool,
)
    ensures
        match best_connector(connectors, priorities, force_internal) {
            Some(best) => {
                &&& 0 <= best < connectors.len()
                &&& connectors[best].connected
                &&& force_internal ==> !(connectors[best].interface is Pluggable)
                &&& forall|i: int|
                    0 <= i < connectors.len() && (#[trigger] connectors[i]).connected && (
                    force_internal ==> !(connectors[i].interface is Pluggable)) ==> {
                        let rank = priority_of(priorities, connectors[i].name@);
                        let chosen = priority_of(priorities, connectors[best].name@);
                        chosen < rank || (chosen == rank && !text_before(
                            connectors[i].name@,
                            connectors[best].name@,
                        ))
                    }
            },
            None => forall|i: int|
                0 <= i < connectors.len() ==> !(#[trigger] connectors[i]).connected || (
                force_internal && connectors[i].interface is Pluggable),
        },
{
    lemma_best_connector(connectors, priorities, force_internal);
    if let Some(best) = best_connector(connectors, priorities, force_internal) {
        assert forall|i: int|
            0 <= i < connectors.len() && (#[trigger] connectors[i]).connected && (force_internal
                ==> !(connectors[i].interface is Pluggable)) implies {
            let rank = priority_of(priorities, connectors[i].name@);
            let chosen = priority_of(priorities, connectors[best].name@);
            chosen < rank || (chosen == rank && !text_before(
                connectors[i].name@,
                connectors[best].name@,
            ))
        } by {
            assert(is_usable(connectors[i], force_internal));
        }
    } else {
        assert forall|i: int|
            0 <= i < connectors.len() implies !(#[trigger] connectors[i]).connected || (
        force_internal && connectors[i].interface is Pluggable) by {
            assert(!is_usable(connectors[i], force_internal));
        }
    }
}

/// Rates that are listed grow from each to the next, and are then all different.
pub proof fn lemma_listed_rates_grow(rates: Seq<u32>)
    ensures
        is_increasing(rates) <==> forall|i: int, j: int|
            0 <= i < rates.len() && i < j < rates.len() ==> #[trigger] rates[i]
                < #[trigger] rates[j],
        is_increasing(rates) ==> rates.no_duplicates(),
{
    if is_increasing(rates) {
        assert forall|i: int, j: int|
            0 <= i < rates.len() && 0 <= j < rates.len() && i != j implies rates[i] != rates[j] by {
            if i < j {
                assert(rates[i] < rates[j]);
            } else {
                assert(rates[j] < rates[i]);
            }
        }
    }
}

} // verus!
