//! Action-binding matching and arming behavior.

use std::collections::BTreeSet;

use vstd::prelude::*;

use crate::lists;
use crate::wire;
use crate::wire::split_u64;

verus! {

broadcast use {vstd::std_specs::btree::group_btree_axioms, vstd::laws_cmp::group_laws_cmp};

pub const ARM_ONE_SHOT: u32 = 0x1;

pub const ARM_NO_BLOCK: u32 = 0x2;

pub const TRIGGER_KEYBOARD: u32 = 0x1;

pub const ISO_LEVEL3_SHIFT: u32 = 0xfe03;

pub const ISO_LEFT_TAB: u32 = 0xfe20;

pub const ISO_ENTER: u32 = 0xfe34;

pub const TAB: u32 = 0xff09;

pub const RETURN: u32 = 0xff0d;

pub const META_L: u32 = 0xffe7;

pub const META_R: u32 = 0xffe8;

pub const ALT_R: u32 = 0xffea;

pub const SUPER_L: u32 = 0xffeb;

pub const SUPER_R: u32 = 0xffec;

/// The character that `xkeysym` gives for a keysym.
pub uninterp spec fn keysym_char(keysym: u32) -> Option<char>;

/// The keysym that `xkeysym` gives for a character.
pub uninterp spec fn char_keysym(character: char) -> u32;

/// The characters that std gives as the upper case of a character.
pub uninterp spec fn uppercase_chars(character: char) -> Seq<char>;

/// Keysyms whose number is that of a printable Latin-1 character.
pub open spec fn is_latin1(keysym: u32) -> bool {
    0x20 <= keysym <= 0x7e || 0xa0 <= keysym <= 0xff
}

/// `xkeysym::Keysym::key_char`: the character of a keysym, if it has one. A printable
/// Latin-1 keysym stands for the character of its number. The ISO function keysyms
/// `0xfe00..=0xfeff` and the modifiers `0xffe1..=0xffee` have no character.
#[verifier::external_body]
fn char_of_keysym(keysym: u32) -> (character: Option<char>)
    ensures
        character == keysym_char(keysym),
        is_latin1(keysym) ==> character == Some(keysym as char),
        0xfe00 <= keysym <= 0xfeff || 0xffe1 <= keysym <= 0xffee ==> character is None,
{
    xkeysym::Keysym::new(keysym).key_char()
}

/// `xkeysym::Keysym::from_char`: the keysym of a character. A printable Latin-1
/// character has the keysym of its number.
#[verifier::external_body]
fn keysym_of_char(character: char) -> (keysym: u32)
    ensures
        keysym == char_keysym(character),
        is_latin1(character as u32) ==> keysym == character as u32,
{
    xkeysym::Keysym::from_char(character).raw()
}

/// `char::to_uppercase`: the upper case of a character, which may be several
/// characters. An ASCII character has one: the capital of a small letter, and every
/// other character itself.
#[verifier::external_body]
fn uppercase_of(character: char) -> (uppercase: Vec<char>)
    ensures
        uppercase@ == uppercase_chars(character),
        'a' <= character <= 'z' ==> uppercase@ == seq![(character as u32 - 0x20) as char],
        (character as u32) < 0x80 && !('a' <= character <= 'z') ==> uppercase@ == seq![character],
{
    character.to_uppercase().collect()
}

/// The keysym of the one-character upper case of a keysym's character.
pub open spec fn uppercase_keysym(raw: u32) -> Option<u32> {
    match keysym_char(raw) {
        Some(character) => if uppercase_chars(character).len() == 1 {
            Some(char_keysym(uppercase_chars(character)[0]))
        } else {
            None
        },
        None => None,
    }
}

/// The keysym that a hotkey alias stands for; every other keysym stands for itself.
pub open spec fn alias_target(keysym: u32) -> u32 {
    if keysym == ISO_LEFT_TAB {
        TAB
    } else if keysym == ISO_ENTER {
        RETURN
    } else if keysym == META_L {
        SUPER_L
    } else if keysym == META_R {
        SUPER_R
    } else if keysym == ISO_LEVEL3_SHIFT {
        ALT_R
    } else {
        keysym
    }
}

/// A keysym as hotkeys compare it: in upper case where that is one character, with
/// aliases replaced.
pub open spec fn normalized(raw: u32) -> u32 {
    alias_target(
        match uppercase_keysym(raw) {
            Some(keysym) => keysym,
            None => raw,
        },
    )
}

/// Replace the aliases handled for hotkeys in a keysym whose case has been looked up.
#[must_use]
pub fn resolve_alias(raw: u32, uppercase: Option<u32>) -> (keysym: u32)
    ensures
        keysym == alias_target(
            match uppercase {
                Some(keysym) => keysym,
                None => raw,
            },
        ),
{
    let keysym: u32 = match uppercase {
        Some(keysym) => keysym,
        None => raw,
    };
    match keysym {
        ISO_LEFT_TAB => TAB,
        ISO_ENTER => RETURN,
        META_L => SUPER_L,
        META_R => SUPER_R,
        ISO_LEVEL3_SHIFT => ALT_R,
        _ => keysym,
    }
}

/// Normalize case and the aliases handled for hotkeys.
#[must_use]
pub fn normalize_keysym(raw: u32) -> (keysym: u32)
    ensures
        keysym == normalized(raw),
        'a' as u32 <= raw <= 'z' as u32 ==> keysym == raw - 0x20,
        0x20 <= raw <= 0x7e && !('a' as u32 <= raw <= 'z' as u32) ==> keysym == raw,
        alias_target(raw) != raw ==> keysym == alias_target(raw),
        0xffe1 <= raw <= 0xffee ==> keysym == alias_target(raw),
{
    let uppercase: Option<u32> = match char_of_keysym(raw) {
        Some(character) => {
            let uppercase = uppercase_of(character);
            if uppercase.len() == 1 {
                Some(keysym_of_char(uppercase[0]))
            } else {
                None
            }
        },
        None => None,
    };
    resolve_alias(raw, uppercase)
}

/// A set of keysyms.
#[derive(Debug, PartialEq, Eq)]
pub struct KeySet {
    keys: BTreeSet<u32>,
}

impl View for KeySet {
    type V = Set<u32>;

    closed spec fn view(&self) -> Set<u32> {
        self.keys@
    }
}

impl Clone for KeySet {
    fn clone(&self) -> (set: Self)
        ensures
            set@ == self@,
    {
        Self { keys: self.keys.clone() }
    }
}

impl KeySet {
    /// The empty set.
    pub fn new() -> (set: Self)
        ensures
            set@ == Set::<u32>::empty(),
    {
        Self { keys: BTreeSet::new() }
    }

    /// Add a keysym, which may already be there.
    pub fn insert(&mut self, key: u32)
        ensures
            final(self)@ == old(self)@.insert(key),
    {
        let _added = self.keys.insert(key);
    }

    fn is_within(&self, other: &Self) -> (within: bool)
        ensures
            within == self@.subset_of(other@),
    {
        let mut within = true;
        for key in it: self.keys.iter()
            invariant
                it.seq().unref().to_set() == self.keys@,
                within == forall|i: int|
                    0 <= i < it.index() ==> other.keys@.contains(#[trigger] it.seq().unref()[i]),
                it.index() == it.seq().len() ==> within == self@.subset_of(other@),
        {
            within = within && other.keys.contains(key);
        }
        within
    }

    /// Whether two sets have the same keysyms.
    #[must_use]
    pub fn same(&self, other: &Self) -> (same: bool)
        ensures
            same == (self@ == other@),
    {
        let same = self.is_within(other) && other.is_within(self);
        assert(same ==> self@ =~= other@);
        same
    }
}

/// The set of normalized keysyms.
pub open spec fn normalized_set(keysyms: Seq<u32>) -> Set<u32> {
    keysyms.map_values(|raw: u32| normalized(raw)).to_set()
}

/// Normalize a list of keysyms, deduplicating aliases.
#[must_use]
pub fn normalize_keysyms(keysyms: &[u32]) -> (set: KeySet)
    ensures
        set@ == normalized_set(keysyms@),
{
    let mut set = KeySet::new();
    let ghost all = keysyms@.map_values(|raw: u32| normalized(raw));
    let mut i: usize = 0;
    assert(all.take(0).to_set() =~= Set::<u32>::empty());
    while i < keysyms.len()
        invariant
            i <= keysyms@.len(),
            all == keysyms@.map_values(|raw: u32| normalized(raw)),
            set@ == all.take(i as int).to_set(),
        decreases keysyms@.len() - i,
    {
        set.insert(normalize_keysym(keysyms[i]));
        assert(all.take(i + 1) =~= all.take(i as int).push(all[i as int]));
        assert(all.take(i + 1).to_set() =~= all.take(i as int).to_set().insert(all[i as int])) by {
            broadcast use vstd::seq_lib::group_seq_properties;

        }
        i = i + 1;
    }
    assert(all.take(i as int) =~= all);
    set
}

/// Event fields in the order declared by the XML protocol.
#[derive(Clone, Copy, Debug, PartialEq, Eq, Structural)]
pub struct TriggeredEvent {
    pub sequence: u32,
    pub time_low: u32,
    pub time_high: u32,
    pub trigger_flags: u32,
}

/// Result of executing an armed action.
#[derive(Clone, Copy, Debug, PartialEq, Eq, Structural)]
pub struct ActionExecution {
    pub event: TriggeredEvent,
    /// Whether the key press goes no further.
    pub blocks_input: bool,
}

/// What an action binding holds.
pub struct ActionBindingView {
    pub description: Seq<char>,
    pub triggers: Seq<Set<u32>>,
    pub arm_flags: Option<u32>,
}

/// A protocol action with any number of exact pressed-key-set triggers.
#[derive(Clone, Debug, PartialEq, Eq)]
pub struct ActionBinding {
    description: String,
    keyboard_triggers: Vec<KeySet>,
    arm_flags: Option<u32>,
}

spec fn trigger_sets(triggers: Seq<KeySet>) -> Seq<Set<u32>> {
    triggers.map_values(|trigger: KeySet| trigger@)
}

impl View for ActionBinding {
    type V = ActionBindingView;

    closed spec fn view(&self) -> ActionBindingView {
        ActionBindingView {
            description: self.description@,
            triggers: trigger_sets(self.keyboard_triggers@),
            arm_flags: self.arm_flags,
        }
    }
}

/// The predicate of being exactly the pressed set.
pub open spec fn is_pressed(pressed: Set<u32>) -> spec_fn(Set<u32>) -> bool {
    |trigger: Set<u32>| trigger == pressed
}

/// The triggers that are exactly the pressed set.
pub open spec fn equal_sets(triggers: Seq<Set<u32>>, pressed: Set<u32>) -> Seq<Set<u32>> {
    triggers.filter(is_pressed(pressed))
}

impl ActionBindingView {
    /// How many triggers are exactly the pressed set, for an armed binding.
    pub open spec fn matches(self, pressed: Set<u32>) -> nat {
        if self.arm_flags is Some {
            equal_sets(self.triggers, pressed).len()
        } else {
            0
        }
    }
}

impl Default for ActionBinding {
    fn default() -> (binding: Self)
        ensures
            binding@ == (ActionBindingView {
                description: Seq::empty(),
                triggers: Seq::empty(),
                arm_flags: None,
            }),
    {
        let binding = Self {
            description: String::new(),
            keyboard_triggers: Vec::new(),
            arm_flags: None,
        };
        assert(binding@.triggers =~= Seq::<Set<u32>>::empty());
        binding
    }
}

impl ActionBinding {
    pub fn set_description(&mut self, description: &str)
        ensures
            final(self)@ == (ActionBindingView { description: description@, ..old(self)@ }),
    {
        self.description = description.to_owned();
    }

    #[must_use]
    pub fn description(&self) -> (description: &str)
        ensures
            description@ == self@.description,
    {
        self.description.as_str()
    }

    /// Add an exact key combination, deduplicating aliases within that trigger.
    pub fn add_keyboard_trigger(&mut self, keysyms: &[u32])
        ensures
            final(self)@ == (ActionBindingView {
                triggers: old(self)@.triggers.push(normalized_set(keysyms@)),
                ..old(self)@
            }),
    {
        self.keyboard_triggers.push(normalize_keysyms(keysyms));
        assert(self@.triggers =~= old(self)@.triggers.push(normalized_set(keysyms@)));
    }

    pub fn clear_triggers(&mut self)
        ensures
            final(self)@ == (ActionBindingView { triggers: Seq::empty(), ..old(self)@ }),
    {
        self.keyboard_triggers.clear();
        assert(self@.triggers =~= Seq::<Set<u32>>::empty());
    }

    pub fn arm(&mut self, flags: u32)
        ensures
            final(self)@ == (ActionBindingView { arm_flags: Some(flags), ..old(self)@ }),
    {
        self.arm_flags = Some(flags);
    }

    pub fn disarm(&mut self)
        ensures
            final(self)@ == (ActionBindingView { arm_flags: None, ..old(self)@ }),
    {
        self.arm_flags = None;
    }

    #[must_use]
    pub fn is_armed(&self) -> (armed: bool)
        ensures
            armed == (self@.arm_flags is Some),
    {
        self.arm_flags.is_some()
    }

    /// Whether any trigger exactly equals the current normalized pressed set.
    #[must_use]
    pub fn matches_pressed(&self, pressed: &[u32]) -> (matches: bool)
        ensures
            matches == (self@.arm_flags is Some && self@.triggers.contains(
                normalized_set(pressed@),
            )),
    {
        proof {
            lemma_some_trigger_matches(self@.triggers, normalized_set(pressed@));
        }
        self.matching_trigger_count(pressed) != 0
    }

    /// Number of triggers exactly equal to the current normalized pressed set.
    /// Duplicate triggers remain observable because each matching entry executes
    /// until one-shot disarming or input blocking stops the loop.
    #[must_use]
    pub fn matching_trigger_count(&self, pressed: &[u32]) -> (count: usize)
        ensures
            count == self@.matches(normalized_set(pressed@)),
    {
        if !self.is_armed() {
            return 0;
        }
        let pressed_set = normalize_keysyms(pressed);
        let ghost sets = trigger_sets(self.keyboard_triggers@);
        let ghost wanted = is_pressed(pressed_set@);
        let mut count: usize = 0;
        let mut i: usize = 0;
        proof {
            lists::lemma_filter_empty(sets.take(0), wanted);
        }
        while i < self.keyboard_triggers.len()
            invariant
                count <= i <= self.keyboard_triggers@.len(),
                sets == trigger_sets(self.keyboard_triggers@),
                wanted == is_pressed(pressed_set@),
                count == sets.take(i as int).filter(wanted).len(),
            decreases self.keyboard_triggers@.len() - i,
        {
            proof {
                lists::lemma_filter_take_next(sets, wanted, i as int);
            }
            if self.keyboard_triggers[i].same(&pressed_set) {
                count = count + 1;
            }
            i = i + 1;
        }
        assert(sets.take(i as int) =~= sets);
        count
    }

    /// Execute an action and apply one-shot disarming.
    ///
    /// `blocks_input` is set when the protocol's `no_block` bit is present. This is
    /// the inverse of the XML prose and is kept as a compatibility quirk.
    pub fn execute(&mut self, sequence: u32, monotonic_time_ns: u64) -> (execution: Option<
        ActionExecution,
    >)
        ensures
            match old(self)@.arm_flags {
                None => execution is None && final(self)@ == old(self)@,
                Some(flags) => {
                    &&& execution matches Some(execution)
                    &&& execution.event.sequence == sequence
                    &&& wire::word_value(execution.event.time_high, execution.event.time_low)
                        == monotonic_time_ns
                    &&& execution.event.trigger_flags == TRIGGER_KEYBOARD
                    &&& execution.blocks_input == (flags & ARM_NO_BLOCK != 0)
                    &&& final(self)@ == (ActionBindingView {
                        arm_flags: if flags & ARM_ONE_SHOT != 0 {
                            None
                        } else {
                            Some(flags)
                        },
                        ..old(self)@
                    })
                },
            },
    {
        match self.arm_flags {
            None => None,
            Some(flags) => {
                let (time_high, time_low) = split_u64(monotonic_time_ns);
                let result = ActionExecution {
                    event: TriggeredEvent {
                        sequence,
                        time_low,
                        time_high,
                        trigger_flags: TRIGGER_KEYBOARD,
                    },
                    blocks_input: flags & ARM_NO_BLOCK != 0,
                };
                if flags & ARM_ONE_SHOT != 0 {
                    self.disarm();
                }
                Some(result)
            },
        }
    }
}

proof fn lemma_some_trigger_matches(triggers: Seq<Set<u32>>, pressed: Set<u32>)
    ensures
        (equal_sets(triggers, pressed).len() != 0) == triggers.contains(pressed),
{
    broadcast use vstd::seq_lib::group_filter_ensures;

    let wanted = is_pressed(pressed);
    let matching = triggers.filter(wanted);
    if matching.len() != 0 {
        assert(matching.contains(matching[0]));
        assert(wanted(matching[0]));
        triggers.lemma_filter_contains_rev(wanted, matching[0]);
    }
    if triggers.contains(pressed) {
        let i = triggers.index_of(pressed);
        triggers.lemma_filter_contains(wanted, i);
        assert(matching.contains(pressed));
    }
}

/// The order in which keys are held, and repetitions among them, do not matter: only
/// the set of normalized keysyms decides which triggers match.
pub proof fn lemma_matching_ignores_order(
    binding: ActionBindingView,
    first: Seq<u32>,
    second: Seq<u32>,
)
    requires
        forall|raw: u32| #[trigger] first.contains(raw) <==> second.contains(raw),
    ensures
        binding.matches(normalized_set(first)) == binding.matches(normalized_set(second)),
{
    let all_first = first.map_values(|raw: u32| normalized(raw));
    let all_second = second.map_values(|raw: u32| normalized(raw));
    assert forall|key: u32| #[trigger] all_first.contains(key) implies all_second.contains(
        key,
    ) by {
        let i = all_first.index_of(key);
        assert(first.contains(first[i]));
        let j = second.index_of(first[i]);
        assert(all_second[j] == key);
    }
    assert forall|key: u32| #[trigger] all_second.contains(key) implies all_first.contains(
        key,
    ) by {
        let i = all_second.index_of(key);
        assert(second.contains(second[i]));
        assert(first.contains(second[i]));
        let j = first.index_of(second[i]);
        assert(all_first[j] == key);
    }
    assert(normalized_set(first) =~= normalized_set(second));
}

/// A hotkey matches when exactly its keys are held, and only while it is armed. Every trigger
/// counts on its own: one more trigger adds one match if it is the held set, and none
/// otherwise.
pub proof fn lemma_hotkeys_match_exactly(
    binding: ActionBindingView,
    pressed: Set<u32>,
    trigger: Set<u32>,
)
    ensures
        binding.arm_flags is None ==> binding.matches(pressed) == 0,
        binding.arm_flags is Some ==> (binding.matches(pressed) > 0 <==> exists|i: int|
            0 <= i < binding.triggers.len() && #[trigger] binding.triggers[i] == pressed),
        ({
            let more = ActionBindingView { triggers: binding.triggers.push(trigger), ..binding };
            more.matches(pressed) == binding.matches(pressed) + (if binding.arm_flags is Some
                && trigger == pressed {
                1int
            } else {
                0
            })
        }),
        (ActionBindingView { triggers: Seq::empty(), ..binding }).matches(pressed) == 0,
{
    broadcast use vstd::seq_lib::group_filter_ensures;

    let wanted = is_pressed(pressed);
    let found = binding.triggers.filter(wanted);
    let more = binding.triggers.push(trigger);
    assert(more.drop_last() =~= binding.triggers);
    assert(more.filter(wanted) == (if wanted(trigger) {
        found.push(trigger)
    } else {
        found
    })) by {
        reveal(Seq::filter);
    }
    assert(Seq::<Set<u32>>::empty().filter(wanted).len() == 0) by {
        reveal(Seq::filter);
    }
    if found.len() > 0 {
        assert(wanted(found[0]));
        assert(found.contains(found[0]));
        binding.triggers.lemma_filter_contains_rev(wanted, found[0]);
        let i = binding.triggers.index_of(found[0]);
        assert(binding.triggers[i] == pressed);
    }
    if exists|i: int|
        0 <= i < binding.triggers.len() && #[trigger] binding.triggers[i] == pressed {
        let i = choose|i: int|
            0 <= i < binding.triggers.len() && #[trigger] binding.triggers[i] == pressed;
        assert(wanted(binding.triggers[i]));
        binding.triggers.lemma_filter_contains(wanted, i);
        assert(found.contains(pressed));
    }
}

/// How keys are compared: the second tab, the second return, the meta keys and the third
/// level shift count as tab, return, the super keys and the right alt key; no other key is
/// an alias. Keys whose character has one upper-case character are compared by that one. A
/// set of keys holds what its keys are compared by, and nothing else.
pub proof fn lemma_keys_are_compared_by_meaning(raw: u32, keysyms: Seq<u32>, key: u32)
    ensures
        alias_target(0xfe20) == 0xff09,
        alias_target(0xfe34) == 0xff0d,
        alias_target(0xffe7) == 0xffeb,
        alias_target(0xffe8) == 0xffec,
        alias_target(0xfe03) == 0xffea,
        raw != 0xfe20 && raw != 0xfe34 && raw != 0xffe7 && raw != 0xffe8 && raw != 0xfe03
            ==> alias_target(raw) == raw,
        keysym_char(raw) is None ==> normalized(raw) == alias_target(raw),
        keysym_char(raw) matches Some(character) ==> (uppercase_chars(character).len() == 1
            ==> normalized(raw) == alias_target(char_keysym(uppercase_chars(character)[0]))) && (
        uppercase_chars(character).len() != 1 ==> normalized(raw) == alias_target(raw)),
        normalized_set(keysyms).contains(key) <==> exists|i: int|
            0 <= i < keysyms.len() && normalized(#[trigger] keysyms[i]) == key,
{
    let all = keysyms.map_values(|raw: u32| normalized(raw));
    if all.contains(key) {
        let i = all.index_of(key);
        assert(normalized(keysyms[i]) == key);
    }
    if exists|i: int| 0 <= i < keysyms.len() && normalized(#[trigger] keysyms[i]) == key {
        let i = choose|i: int| 0 <= i < keysyms.len() && normalized(#[trigger] keysyms[i]) == key;
        assert(all[i] == key);
    }
}

/// The printable characters of Latin-1 are those of both halves of its table, without their
/// control characters.
pub proof fn lemma_latin1_is_printable(keysym: u32)
    ensures
        is_latin1(keysym) <==> keysym < 256 && keysym % 128 >= 32 && keysym != 127,
{
}

} // verus!
