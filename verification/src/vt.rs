//! Switching virtual terminals with Ctrl+Alt and a function key.

use vstd::prelude::*;

use crate::lists;
use crate::lists::{has_number, insert_number, remove_number};

verus! {

pub const KEY_LEFTCTRL: u32 = 29;

pub const KEY_RIGHTCTRL: u32 = 97;

pub const KEY_LEFTALT: u32 = 56;

pub const KEY_RIGHTALT: u32 = 100;

pub const KEY_F1: u32 = 59;

pub const KEY_F10: u32 = 68;

pub const KEY_F11: u32 = 87;

pub const KEY_F12: u32 = 88;

/// Distance between keycodes of X11 and those of the kernel.
pub const XKB_OFFSET: u32 = 8;

/// The terminal of a function key.
pub open spec fn terminal_of(key: u32) -> Option<i32> {
    if KEY_F1 <= key <= KEY_F10 {
        Some((key - KEY_F1 + 1) as i32)
    } else if key == KEY_F11 {
        Some(11)
    } else if key == KEY_F12 {
        Some(12)
    } else {
        None
    }
}

fn terminal_for(key: u32) -> (vt: Option<i32>)
    ensures
        vt == terminal_of(key),
{
    if KEY_F1 <= key && key <= KEY_F10 {
        Some((key - KEY_F1 + 1) as i32)
    } else if key == KEY_F11 {
        Some(11)
    } else if key == KEY_F12 {
        Some(12)
    } else {
        None
    }
}

/// A control key and an alt key are held.
pub open spec fn chord_held(pressed: Seq<u32>) -> bool {
    (pressed.contains(KEY_LEFTCTRL) || pressed.contains(KEY_RIGHTCTRL)) && (pressed.contains(
        KEY_LEFTALT,
    ) || pressed.contains(KEY_RIGHTALT))
}

/// The predicate of being a function key.
pub open spec fn selects_terminal() -> spec_fn(u32) -> bool {
    |key: u32| terminal_of(key) is Some
}

/// The terminal that held keys ask for: that of the function key held longest, while
/// control and alt are held.
pub open spec fn requested_terminal(pressed: Seq<u32>) -> Option<i32> {
    let index = lists::first_index(pressed, selects_terminal());
    if chord_held(pressed) && index < pressed.len() {
        terminal_of(pressed[index])
    } else {
        None
    }
}

/// The terminal that held keys ask for. Keys are those of the kernel, independent of the
/// keyboard layout.
#[must_use]
pub fn vt_from_pressed_evdev_keys(pressed: &Vec<u32>) -> (vt: Option<i32>)
    ensures
        vt == requested_terminal(pressed@),
{
    let control = has_number(pressed, KEY_LEFTCTRL) || has_number(pressed, KEY_RIGHTCTRL);
    let alt = has_number(pressed, KEY_LEFTALT) || has_number(pressed, KEY_RIGHTALT);
    if !control || !alt {
        return None;
    }
    let ghost wanted = selects_terminal();
    let mut i: usize = 0;
    while i < pressed.len()
        invariant
            i <= pressed@.len(),
            chord_held(pressed@),
            wanted == selects_terminal(),
            forall|j: int| 0 <= j < i ==> !wanted(#[trigger] pressed@[j]),
        decreases pressed@.len() - i,
    {
        let vt = terminal_for(pressed[i]);
        if vt.is_some() {
            proof {
                lists::lemma_first_index(pressed@, wanted, i as int);
            }
            return vt;
        }
        i = i + 1;
    }
    proof {
        lists::lemma_first_index(pressed@, wanted, i as int);
    }
    None
}

/// The keys held in a session that may switch terminals.
#[derive(Debug)]
pub struct VtSwitcher {
    enabled: bool,
    pressed: Vec<u32>,
    intercepted: Vec<u32>,
    pending: Option<i32>,
}

/// What a terminal switcher knows.
pub struct VtView {
    pub enabled: bool,
    /// Held keys, longest held first.
    pub pressed: Seq<u32>,
    /// Held keys that were kept from clients.
    pub intercepted: Seq<u32>,
    /// The terminal to switch to.
    pub pending: Option<i32>,
}

impl View for VtSwitcher {
    type V = VtView;

    closed spec fn view(&self) -> VtView {
        VtView {
            enabled: self.enabled,
            pressed: self.pressed@,
            intercepted: self.intercepted@,
            pending: self.pending,
        }
    }
}

impl VtView {
    pub open spec fn after_press(self, key: u32) -> VtView {
        let pressed = lists::with_number(self.pressed, key);
        match requested_terminal(pressed) {
            Some(vt) => VtView {
                pressed,
                intercepted: lists::with_number(self.intercepted, key),
                pending: Some(vt),
                ..self
            },
            None => VtView { pressed, ..self },
        }
    }

    pub open spec fn after_release(self, key: u32) -> VtView {
        VtView {
            pressed: lists::without_number(self.pressed, key),
            intercepted: lists::without_number(self.intercepted, key),
            ..self
        }
    }

    /// The switcher after a key was pressed or released.
    pub open spec fn after_key(self, keycode: u32, pressed: bool) -> VtView {
        if !self.enabled {
            self
        } else if pressed {
            self.after_press(evdev_key(keycode))
        } else {
            self.after_release(evdev_key(keycode))
        }
    }

    /// Whether a key is kept from clients: a press that asks for a terminal, and the release
    /// of a key whose press was kept.
    pub open spec fn keeps(self, keycode: u32, pressed: bool) -> bool {
        let key = evdev_key(keycode);
        self.enabled && if pressed {
            requested_terminal(lists::with_number(self.pressed, key)) is Some
        } else {
            self.intercepted.contains(key)
        }
    }
}

/// The kernel's code of a key.
pub open spec fn evdev_key(keycode: u32) -> u32 {
    if keycode < XKB_OFFSET {
        0
    } else {
        (keycode - XKB_OFFSET) as u32
    }
}

impl VtSwitcher {
    /// A switcher that lets every key through.
    #[must_use]
    pub fn new() -> (switcher: Self)
        ensures
            switcher@ == (VtView {
                enabled: false,
                pressed: Seq::empty(),
                intercepted: Seq::empty(),
                pending: None,
            }),
    {
        Self { enabled: false, pressed: Vec::new(), intercepted: Vec::new(), pending: None }
    }

    /// Enable Ctrl+Alt+F1…F12 handling for a libseat-owned hardware session.
    pub fn enable_vt_switching(&mut self)
        ensures
            final(self)@ == (VtView { enabled: true, ..old(self)@ }),
    {
        self.enabled = true;
    }

    /// Take the terminal to switch to.
    pub fn take_vt_switch(&mut self) -> (vt: Option<i32>)
        ensures
            vt == old(self)@.pending,
            final(self)@ == (VtView { pending: None, ..old(self)@ }),
    {
        self.pending.take()
    }

    /// Forget the held keys before input is suspended.
    pub fn release_all_keys(&mut self)
        ensures
            final(self)@ == (VtView {
                pressed: Seq::empty(),
                intercepted: Seq::empty(),
                ..old(self)@
            }),
    {
        self.pressed.clear();
        self.intercepted.clear();
    }

    /// Detect the kernel's layout-independent Ctrl+Alt+Fn chord before the keyboard layout
    /// transforms it. Tells whether the key is kept from clients: a press that asks for a
    /// terminal, and the release of a key whose press was kept.
    pub fn filter_vt_keycode(&mut self, keycode: u32, pressed: bool) -> (kept: bool)
        ensures
            kept == old(self)@.keeps(keycode, pressed),
            final(self)@ == old(self)@.after_key(keycode, pressed),
    {
        if !self.enabled {
            return false;
        }
        let key: u32 = if keycode < XKB_OFFSET {
            0
        } else {
            keycode - XKB_OFFSET
        };
        if pressed {
            let _added = insert_number(&mut self.pressed, key);
            match vt_from_pressed_evdev_keys(&self.pressed) {
                Some(vt) => {
                    self.pending = Some(vt);
                    let _intercepted = insert_number(&mut self.intercepted, key);
                    true
                },
                None => false,
            }
        } else {
            remove_number(&mut self.pressed, key);
            let kept = has_number(&self.intercepted, key);
            remove_number(&mut self.intercepted, key);
            kept
        }
    }
}

/// The release of a key is kept from clients exactly when its press was, so that no client
/// sees half of a key stroke.
pub proof fn lemma_release_matches_press(switcher: VtView, key: u32)
    requires
        switcher.enabled,
        !switcher.intercepted.contains(key),
    ensures
        switcher.after_press(key).intercepted.contains(key) == (requested_terminal(
            lists::with_number(switcher.pressed, key),
        ) is Some),
        !switcher.after_press(key).after_release(key).intercepted.contains(key),
        !switcher.after_press(key).after_release(key).pressed.contains(key),
{
    let held = switcher.after_press(key);
    if requested_terminal(lists::with_number(switcher.pressed, key)) is Some {
        assert(switcher.intercepted.push(key)[switcher.intercepted.len() as int] == key);
    }
    lists::lemma_without_number(held.intercepted, key, key);
    lists::lemma_without_number(held.pressed, key, key);
}

/// The number of a function key, and zero for every other key.
pub open spec fn function_number(key: u32) -> int {
    if 59 <= key <= 68 {
        key - 58
    } else if key == 87 {
        11
    } else if key == 88 {
        12
    } else {
        0
    }
}

/// A terminal is asked for exactly while control, alt and a function key are down, on either
/// side of the keyboard: the one of the function key that went down first.
pub proof fn lemma_chords_ask_for_terminals(pressed: Seq<u32>) -> (at: int)
    ensures
        ({
            let control = pressed.contains(29) || pressed.contains(97);
            let alt = pressed.contains(56) || pressed.contains(100);
            match requested_terminal(pressed) {
                Some(terminal) => {
                    &&& control && alt
                    &&& 0 <= at < pressed.len()
                    &&& terminal > 0
                    &&& function_number(pressed[at]) == terminal
                    &&& forall|i: int| 0 <= i < at ==> function_number(#[trigger] pressed[i]) == 0
                },
                None => control && alt ==> forall|i: int|
                    0 <= i < pressed.len() ==> function_number(#[trigger] pressed[i]) == 0,
            }
        }),
{
    lists::lemma_first_index_found(pressed, selects_terminal());
    let at = lists::first_index(pressed, selects_terminal());
    assert(forall|i: int|
        0 <= i < pressed.len() ==> (selects_terminal()(#[trigger] pressed[i]) <==> function_number(
            pressed[i],
        ) != 0));
    at
}

/// Keys are tracked one by one, under the kernel's numbers, which are eight less than the
/// keyboard's. A key that completes a chord is kept from clients, and so is its release; no
/// other key is. A switcher that is off tracks and keeps nothing.
pub proof fn lemma_keys_are_tracked(switcher: VtView, keycode: u32, other: u32)
    requires
        keycode >= 8,
    ensures
        ({
            let key = (keycode - 8) as u32;
            let down = switcher.after_key(keycode, true);
            let up = switcher.after_key(keycode, false);
            let asked = requested_terminal(down.pressed);
            &&& down.enabled == switcher.enabled && up.enabled == switcher.enabled
            &&& up.pending == switcher.pending
            &&& !switcher.enabled ==> down == switcher && up == switcher && !switcher.keeps(
                keycode,
                true,
            ) && !switcher.keeps(keycode, false)
            &&& switcher.enabled ==> {
                &&& down.pressed.contains(other) <==> other == key || switcher.pressed.contains(
                    other,
                )
                &&& up.pressed.contains(other) <==> other != key && switcher.pressed.contains(other)
                &&& down.intercepted.contains(other) <==> (other == key && asked is Some)
                    || switcher.intercepted.contains(other)
                &&& up.intercepted.contains(other) <==> other != key
                    && switcher.intercepted.contains(other)
                &&& switcher.keeps(keycode, true) <==> asked is Some
                &&& switcher.keeps(keycode, false) <==> switcher.intercepted.contains(key)
                &&& asked is Some ==> down.pending == asked
                &&& asked is None ==> down.pending == switcher.pending
                &&& switcher.pressed.is_prefix_of(down.pressed)
            }
        }),
{
    let key = (keycode - 8) as u32;
    lists::lemma_without_number(switcher.pressed, key, other);
    lists::lemma_without_number(switcher.intercepted, key, other);
    lemma_with_number(switcher.pressed, key, other);
    lemma_with_number(switcher.intercepted, key, other);
}

proof fn lemma_with_number(numbers: Seq<u32>, number: u32, candidate: u32)
    ensures
        lists::with_number(numbers, number).contains(candidate) <==> candidate == number
            || numbers.contains(candidate),
        numbers.is_prefix_of(lists::with_number(numbers, number)),
{
    let after = numbers.push(number);
    assert(after[numbers.len() as int] == number);
    if numbers.contains(candidate) {
        let i = choose|i: int| 0 <= i < numbers.len() && numbers[i] == candidate;
        assert(after[i] == candidate);
    }
    assert(numbers =~= after.take(numbers.len() as int));
    assert(numbers =~= numbers.take(numbers.len() as int));
}

/// Numbers of keys below eight belong to no key of the kernel's and are taken for none.
pub proof fn lemma_low_keycodes_are_no_keys(keycode: u32)
    ensures
        keycode < 8 ==> evdev_key(keycode) == 0,
        keycode >= 8 ==> evdev_key(keycode) == keycode - 8,
        function_number(0) == 0,
{
}

} // verus!
