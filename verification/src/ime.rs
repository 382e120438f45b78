//! Typing committed text through a keymap made for it.

use vstd::prelude::*;

use crate::input_method::{InputMethodAction, InputMethodCommit};
use crate::text;
use crate::text::{chars_of, push_decimal, push_hex4};

verus! {

/// How many keys there are for characters.
pub const CHARACTER_KEYS: usize = 48;

/// The keycode that types the character with an index: the keys of the four rows of
/// letters and digits, over and over.
pub open spec fn keycode_at(index: nat) -> u32 {
    let key = index % 48;
    if key < 12 {
        (2 + key) as u32
    } else if key < 24 {
        (16 + (key - 12)) as u32
    } else if key < 36 {
        (30 + (key - 24)) as u32
    } else if key < 47 {
        (43 + (key - 36)) as u32
    } else {
        86
    }
}

fn keycode_for(index: usize) -> (keycode: u32)
    ensures
        keycode == keycode_at(index as nat),
        keycode <= 86,
{
    let key: u32 = (index % CHARACTER_KEYS) as u32;
    if key < 12 {
        2 + key
    } else if key < 24 {
        16 + (key - 12)
    } else if key < 36 {
        30 + (key - 24)
    } else if key < 47 {
        43 + (key - 36)
    } else {
        86
    }
}

/// The keycodes that type a text, one for each character.
pub open spec fn text_keycodes(length: nat) -> Seq<u32> {
    Seq::new(length, |i: int| keycode_at(i as nat))
}

/// The keycodes that type a text.
#[must_use]
pub fn ime_character_keycodes(text: &str) -> (keycodes: Vec<u32>)
    ensures
        keycodes@ == text_keycodes(text@.len()),
{
    let chars = chars_of(text);
    let mut keycodes: Vec<u32> = Vec::new();
    let mut i: usize = 0;
    while i < chars.len()
        invariant
            i <= chars@.len(),
            keycodes@ == text_keycodes(i as nat),
        decreases chars@.len() - i,
    {
        keycodes.push(keycode_for(i));
        assert(keycodes@ =~= text_keycodes((i + 1) as nat));
        i = i + 1;
    }
    keycodes
}

/// The declaration of a keycode.
pub open spec fn keycode_line(keycode: nat) -> Seq<char> {
    "key <K"@ + text::decimal(keycode) + "> = "@ + text::decimal(keycode + 8) + ";\n"@
}

/// The declaration of the symbol of a key.
pub open spec fn symbol_line(keycode: nat, symbol: Seq<char>) -> Seq<char> {
    "key <K"@ + text::decimal(keycode) + "> { [ "@ + symbol + " ] };\n"@
}

/// The symbol of a character.
pub open spec fn character_symbol(character: char) -> Seq<char> {
    "U"@ + text::hex4(character as u32 as nat, true)
}

/// The declarations of the keycodes of a text.
pub open spec fn keycode_lines(length: nat) -> Seq<char>
    decreases length,
{
    if length == 0 {
        Seq::empty()
    } else {
        keycode_lines((length - 1) as nat) + keycode_line(
            keycode_at((length - 1) as nat) as nat,
        )
    }
}

/// The declarations of the symbols of a text.
pub open spec fn symbol_lines(characters: Seq<char>) -> Seq<char>
    decreases characters.len(),
{
    if characters.len() == 0 {
        Seq::empty()
    } else {
        symbol_lines(characters.drop_last()) + symbol_line(
            keycode_at((characters.len() - 1) as nat) as nat,
            character_symbol(characters.last()),
        )
    }
}

/// The declarations of the keycodes of the editing keys.
pub open spec fn editing_keycodes() -> Seq<char> {
    keycode_line(28) + keycode_line(14) + keycode_line(111) + keycode_line(105) + keycode_line(106)
        + keycode_line(103) + keycode_line(108)
}

/// The declarations of the symbols of the editing keys.
pub open spec fn editing_symbols() -> Seq<char> {
    symbol_line(28, "Return"@) + symbol_line(14, "BackSpace"@) + symbol_line(111, "Delete"@)
        + symbol_line(105, "Left"@) + symbol_line(106, "Right"@) + symbol_line(103, "Up"@)
        + symbol_line(108, "Down"@)
}

/// The keymap in which the keys of a text type its characters.
pub open spec fn keymap_for(characters: Seq<char>) -> Seq<char> {
    "xkb_keymap {\nxkb_keycodes \"gamescope-ime\" { minimum = 9; maximum = 255; "@ + (
    keycode_lines(characters.len()) + editing_keycodes())
        + " };\nxkb_types \"gamescope-ime\" { include \"complete\" };\nxkb_compatibility \"gamescope-ime\" { include \"complete\" };\nxkb_symbols \"gamescope-ime\" { "@
        + (symbol_lines(characters) + editing_symbols()) + " };\n};"@
}

fn push_keycode_line(lines: &mut String, keycode: u32)
    requires
        keycode <= 255,
    ensures
        final(lines)@ == old(lines)@ + keycode_line(keycode as nat),
{
    lines.append("key <K");
    push_decimal(lines, keycode as u64);
    lines.append("> = ");
    push_decimal(lines, (keycode + 8) as u64);
    lines.append(";\n");
    assert(lines@ =~= old(lines)@ + keycode_line(keycode as nat));
}

fn push_symbol_line(lines: &mut String, keycode: u32, symbol: &str)
    ensures
        final(lines)@ == old(lines)@ + symbol_line(keycode as nat, symbol@),
{
    lines.append("key <K");
    push_decimal(lines, keycode as u64);
    lines.append("> { [ ");
    lines.append(symbol);
    lines.append(" ] };\n");
    assert(lines@ =~= old(lines)@ + symbol_line(keycode as nat, symbol@));
}

/// Make the keymap in which the keys of a text type its characters.
#[must_use]
pub fn ime_keymap(text: &str) -> (keymap: String)
    ensures
        keymap@ == keymap_for(text@),
{
    let chars = chars_of(text);
    let mut keycodes = String::new();
    let mut symbols = String::new();
    let mut i: usize = 0;
    while i < chars.len()
        invariant
            i <= chars@.len(),
            keycodes@ == keycode_lines(i as nat),
            symbols@ == symbol_lines(chars@.take(i as int)),
        decreases chars@.len() - i,
    {
        let keycode: u32 = keycode_for(i);
        push_keycode_line(&mut keycodes, keycode);
        let mut symbol = String::new();
        symbol.append("U");
        let character = chars[i];
        push_hex4(&mut symbol, character as u32, true);
        assert(symbol@ =~= character_symbol(chars@[i as int]));
        push_symbol_line(&mut symbols, keycode, symbol.as_str());
        assert(chars@.take(i + 1).drop_last() =~= chars@.take(i as int));
        i = i + 1;
    }
    assert(chars@.take(i as int) =~= chars@);
    push_keycode_line(&mut keycodes, 28);
    push_symbol_line(&mut symbols, 28, "Return");
    push_keycode_line(&mut keycodes, 14);
    push_symbol_line(&mut symbols, 14, "BackSpace");
    push_keycode_line(&mut keycodes, 111);
    push_symbol_line(&mut symbols, 111, "Delete");
    push_keycode_line(&mut keycodes, 105);
    push_symbol_line(&mut symbols, 105, "Left");
    push_keycode_line(&mut keycodes, 106);
    push_symbol_line(&mut symbols, 106, "Right");
    push_keycode_line(&mut keycodes, 103);
    push_symbol_line(&mut symbols, 103, "Up");
    push_keycode_line(&mut keycodes, 108);
    push_symbol_line(&mut symbols, 108, "Down");
    assert(keycodes@ =~= keycode_lines(chars@.len()) + editing_keycodes());
    assert(symbols@ =~= symbol_lines(chars@) + editing_symbols());
    let mut keymap = String::new();
    keymap.append("xkb_keymap {\nxkb_keycodes \"gamescope-ime\" { minimum = 9; maximum = 255; ");
    keymap.append(keycodes.as_str());
    keymap.append(
        " };\nxkb_types \"gamescope-ime\" { include \"complete\" };\nxkb_compatibility \"gamescope-ime\" { include \"complete\" };\nxkb_symbols \"gamescope-ime\" { ",
    );
    keymap.append(symbols.as_str());
    keymap.append(" };\n};");
    assert(keymap@ =~= keymap_for(text@));
    keymap
}

/// The keycode of an editing action.
pub open spec fn editing_keycode(action: InputMethodAction) -> Option<u32> {
    match action {
        InputMethodAction::NoAction => None,
        InputMethodAction::Submit => Some(28),
        InputMethodAction::DeleteLeft => Some(14),
        InputMethodAction::DeleteRight => Some(111),
        InputMethodAction::MoveLeft => Some(105),
        InputMethodAction::MoveRight => Some(106),
        InputMethodAction::MoveUp => Some(103),
        InputMethodAction::MoveDown => Some(108),
    }
}

/// The keycode of an editing action.
#[must_use]
pub fn action_keycode(action: InputMethodAction) -> (keycode: Option<u32>)
    ensures
        keycode == editing_keycode(action),
{
    match action {
        InputMethodAction::NoAction => None,
        InputMethodAction::Submit => Some(28),
        InputMethodAction::DeleteLeft => Some(14),
        InputMethodAction::DeleteRight => Some(111),
        InputMethodAction::MoveLeft => Some(105),
        InputMethodAction::MoveRight => Some(106),
        InputMethodAction::MoveUp => Some(103),
        InputMethodAction::MoveDown => Some(108),
    }
}

/// One half of a key stroke.
#[derive(Clone, Copy, Debug, PartialEq, Eq, Structural)]
pub struct KeyStroke {
    pub keycode: u32,
    pub pressed: bool,
    pub serial: u32,
}

/// The serial number `offset` after another.
pub open spec fn serial_after(serial: u32, offset: int) -> u32 {
    ((serial + offset) % 0x1_0000_0000) as u32
}

/// Press and release of each key in turn, with consecutive serial numbers.
pub open spec fn key_strokes(keycodes: Seq<u32>, serial: u32) -> Seq<KeyStroke> {
    Seq::new(
        keycodes.len() * 2,
        |i: int|
            KeyStroke {
                keycode: keycodes[i / 2],
                pressed: i % 2 == 0,
                serial: serial_after(serial, i),
            },
    )
}

/// Hand out a serial number.
pub fn next_serial(serial: &mut u32) -> (current: u32)
    ensures
        current == *old(serial),
        *final(serial) == serial_after(*old(serial), 1),
{
    let current: u32 = *serial;
    *serial = serial.wrapping_add(1);
    current
}

/// How a commit is typed: under a keymap of its own if it has text, and then the editing
/// key.
#[derive(Debug, PartialEq, Eq)]
pub struct TypingPlan {
    pub keymap: Option<String>,
    pub strokes: Vec<KeyStroke>,
}

/// The characters of a commit.
pub open spec fn commit_text(commit: InputMethodCommit) -> Seq<char> {
    match commit.text {
        Some(text) => text@,
        None => Seq::empty(),
    }
}

/// The keys of a commit: those of its text and that of its action.
pub open spec fn commit_keycodes(commit: InputMethodCommit) -> Seq<u32> {
    text_keycodes(commit_text(commit).len()) + (match editing_keycode(commit.action) {
        Some(keycode) => seq![keycode],
        None => Seq::empty(),
    })
}

fn push_strokes(strokes: &mut Vec<KeyStroke>, keycode: u32, serial: &mut u32)
    ensures
        final(strokes)@ == old(strokes)@.push(
            KeyStroke { keycode, pressed: true, serial: *old(serial) },
        ).push(KeyStroke { keycode, pressed: false, serial: serial_after(*old(serial), 1) }),
        *final(serial) == serial_after(*old(serial), 2),
{
    let press: u32 = next_serial(serial);
    strokes.push(KeyStroke { keycode, pressed: true, serial: press });
    let release: u32 = next_serial(serial);
    strokes.push(KeyStroke { keycode, pressed: false, serial: release });
}

/// Plan how a commit is typed, taking serial numbers as needed.
pub fn type_input_method_commit(commit: &InputMethodCommit, serial: &mut u32) -> (plan: TypingPlan)
    ensures
        plan.strokes@ == key_strokes(commit_keycodes(*commit), *old(serial)),
        is_typed_in_full(*commit, plan.strokes@),
        *final(serial) == serial_after(
            *old(serial),
            commit_keycodes(*commit).len() as int * 2,
        ),
        match plan.keymap {
            Some(keymap) => commit_text(*commit).len() > 0 && keymap@ == keymap_for(
                commit_text(*commit),
            ),
            None => commit_text(*commit).len() == 0,
        },
{
    let ghost start = *serial;
    let ghost all = commit_keycodes(*commit);
    let mut keycodes: Vec<u32> = Vec::new();
    let mut keymap: Option<String> = None;
    if let Some(text) = &commit.text {
        keycodes = ime_character_keycodes(text.as_str());
        if keycodes.len() > 0 {
            keymap = Some(ime_keymap(text.as_str()));
        }
    }
    assert(keycodes@ =~= text_keycodes(commit_text(*commit).len()));
    if let Some(keycode) = action_keycode(commit.action) {
        keycodes.push(keycode);
    }
    assert(keycodes@ =~= all);
    let mut strokes: Vec<KeyStroke> = Vec::new();
    let mut i: usize = 0;
    assert(strokes@ =~= key_strokes(all.take(0), start));
    while i < keycodes.len()
        invariant
            i <= keycodes@.len(),
            all == keycodes@,
            strokes@ == key_strokes(all.take(i as int), start),
            *serial == serial_after(start, i * 2),
        decreases keycodes@.len() - i,
    {
        push_strokes(&mut strokes, keycodes[i], serial);
        assert(strokes@ =~= key_strokes(all.take(i + 1), start)) by {
            let after = key_strokes(all.take(i + 1), start);
            assert forall|k: int| 0 <= k < 2 * i implies #[trigger] after[k] == key_strokes(
                all.take(i as int),
                start,
            )[k] by {
                assert(all.take(i + 1)[k / 2] == all.take(i as int)[k / 2]);
            }
            assert((2 * i) / 2 == i && (2 * i + 1) / 2 == i);
        }
        i = i + 1;
    }
    assert(all.take(i as int) =~= all);
    proof {
        lemma_commits_are_typed_in_full(*commit, start);
    }
    TypingPlan { keymap, strokes }
}

/// The key that an editing action presses.
pub open spec fn is_key_of(action: InputMethodAction, keycode: u32) -> bool {
    match action {
        InputMethodAction::NoAction => false,
        InputMethodAction::Submit => keycode == 28,
        InputMethodAction::DeleteLeft => keycode == 14,
        InputMethodAction::DeleteRight => keycode == 111,
        InputMethodAction::MoveLeft => keycode == 105,
        InputMethodAction::MoveRight => keycode == 106,
        InputMethodAction::MoveUp => keycode == 103,
        InputMethodAction::MoveDown => keycode == 108,
    }
}

/// Whether two strokes are the press and the release of one key.
pub open spec fn is_full_stroke(press: KeyStroke, release: KeyStroke) -> bool {
    press.pressed && !release.pressed && press.keycode == release.keycode
}

/// A commit is typed in full, whatever it holds: every character of its text in order, and
/// then its action, which does not need any text. Each key is pressed and released before
/// the next one, serial numbers count up from the first, and nothing else is typed.
pub proof fn lemma_commits_are_typed_in_full(commit: InputMethodCommit, serial: u32)
    ensures
        ({
            let strokes = key_strokes(commit_keycodes(commit), serial);
            let length = match commit.text {
                Some(text) => text@.len(),
                None => 0,
            };
            let last = strokes.len() as int;
            &&& commit.action is NoAction ==> last == 2 * length
            &&& !(commit.action is NoAction) ==> last == 2 * length + 2 && is_full_stroke(
                strokes[last - 2],
                strokes[last - 1],
            ) && is_key_of(commit.action, strokes[last - 2].keycode)
            &&& forall|i: int|
                0 <= i < length ==> is_full_stroke(
                    #[trigger] strokes[2 * i],
                    strokes[2 * i + 1],
                ) && strokes[2 * i].keycode == keycode_at(i as nat)
            &&& forall|i: int|
                0 <= i < last ==> (#[trigger] strokes[i]).serial as int == (serial + i)
                    % 0x1_0000_0000
            &&& commit_keycodes(commit).len() * 2 == last
            &&& commit_text(commit).len() == length
        }),
{
    let keycodes = commit_keycodes(commit);
    let strokes = key_strokes(keycodes, serial);
    let length = commit_text(commit).len();
    assert forall|i: int| 0 <= i < length implies is_full_stroke(
        #[trigger] strokes[2 * i],
        strokes[2 * i + 1],
    ) && strokes[2 * i].keycode == keycode_at(i as nat) by {
        assert((2 * i) / 2 == i && (2 * i + 1) / 2 == i);
        assert(keycodes[i] == keycode_at(i as nat));
    }
    if !(commit.action is NoAction) {
        assert((2 * length) / 2 == length && (2 * length + 1) / 2 == length);
        assert(keycodes.last() == editing_keycode(commit.action).unwrap());
    }
}

/// The keys for characters are the keys of letters, digits and punctuation, in the order of
/// their codes and over again after the last. No editing key is among them.
pub proof fn lemma_character_keys_are_distinct(left: nat, right: nat)
    ensures
        ({
            let key = keycode_at(left);
            2 <= key <= 13 || 16 <= key <= 27 || 30 <= key <= 41 || 43 <= key <= 53 || key == 86
        }),
        left < right < 48 ==> keycode_at(left) < keycode_at(right),
        keycode_at(left + 48) == keycode_at(left),
        forall|action: InputMethodAction| !is_key_of(action, #[trigger] keycode_at(left)),
{
    assert((left + 48) % 48 == left % 48);
}

/// The keymap of a text lets the key of each character type that character: it gives the key
/// its code, and binds it to the character's symbol.
pub proof fn lemma_keymap_types_the_text(characters: Seq<char>, i: int) -> (around: (
    Seq<char>,
    Seq<char>,
    Seq<char>,
))
    requires
        0 <= i < characters.len(),
    ensures
        ({
            let code = text::decimal(keycode_at(i as nat) as nat);
            let declared = "key <K"@ + code + "> = "@ + text::decimal(
                (keycode_at(i as nat) + 8) as nat,
            ) + ";\n"@;
            let bound = "key <K"@ + code + "> { [ U"@ + text::hex4(
                characters[i] as u32 as nat,
                true,
            ) + " ] };\n"@;
            keymap_for(characters) == around.0 + declared + around.1 + bound + around.2
        }),
{
    reveal_strlit("> { [ ");
    reveal_strlit("U");
    reveal_strlit("> { [ U");
    let (code_before, code_after) = lemma_keycode_line_is_there(characters.len(), i as nat);
    let (symbol_before, symbol_after) = lemma_symbol_line_is_there(characters, i);
    let start = "xkb_keymap {\nxkb_keycodes \"gamescope-ime\" { minimum = 9; maximum = 255; "@;
    let middle =
        " };\nxkb_types \"gamescope-ime\" { include \"complete\" };\nxkb_compatibility \"gamescope-ime\" { include \"complete\" };\nxkb_symbols \"gamescope-ime\" { "@;
    let end = " };\n};"@;
    let code = text::decimal(keycode_at(i as nat) as nat);
    let symbol = text::hex4(characters[i] as u32 as nat, true);
    assert("> { [ "@ + ("U"@ + symbol) =~= "> { [ U"@ + symbol);
    let bound = "key <K"@ + code + "> { [ U"@ + symbol + " ] };\n"@;
    assert(symbol_line(keycode_at(i as nat) as nat, character_symbol(characters[i])) =~= bound) by {
        assert("key <K"@ + code + "> { [ "@ + ("U"@ + symbol) =~= "key <K"@ + code + ("> { [ "@ + (
        "U"@ + symbol)));
        assert("key <K"@ + code + "> { [ U"@ + symbol =~= "key <K"@ + code + ("> { [ U"@ + symbol));
    }
    let around = (
        start + code_before,
        (code_after + editing_keycodes()) + middle + symbol_before,
        (symbol_after + editing_symbols()) + end,
    );
    let declared = keycode_line(keycode_at(i as nat) as nat);
    assert(keycode_lines(characters.len()) + editing_keycodes() =~= code_before + declared + (
    code_after + editing_keycodes()));
    assert(symbol_lines(characters) + editing_symbols() =~= symbol_before + bound + (symbol_after
        + editing_symbols()));
    lemma_two_parts_are_there(
        (start, middle, end),
        (code_before, declared, code_after + editing_keycodes()),
        (symbol_before, bound, symbol_after + editing_symbols()),
    );
    around
}

/// What is known of two parts of a text is known of the text.
proof fn lemma_two_parts_are_there(
    frame: (Seq<char>, Seq<char>, Seq<char>),
    first: (Seq<char>, Seq<char>, Seq<char>),
    second: (Seq<char>, Seq<char>, Seq<char>),
)
    ensures
        frame.0 + (first.0 + first.1 + first.2) + frame.1 + (second.0 + second.1 + second.2)
            + frame.2 == (frame.0 + first.0) + first.1 + (first.2 + frame.1 + second.0) + second.1
            + (second.2 + frame.2),
{
    assert(frame.0 + (first.0 + first.1 + first.2) =~= (frame.0 + first.0) + first.1 + first.2);
    let front = (frame.0 + first.0) + first.1;
    assert(front + first.2 + frame.1 + (second.0 + second.1 + second.2) =~= front + (first.2
        + frame.1 + second.0) + second.1 + second.2);
    let most = front + (first.2 + frame.1 + second.0) + second.1;
    assert(most + second.2 + frame.2 =~= most + (second.2 + frame.2));
}

proof fn lemma_keycode_line_is_there(length: nat, i: nat) -> (around: (Seq<char>, Seq<char>))
    requires
        i < length,
    ensures
        keycode_lines(length) == around.0 + keycode_line(keycode_at(i) as nat) + around.1,
    decreases length,
{
    let before = keycode_lines((length - 1) as nat);
    let line = keycode_line(keycode_at((length - 1) as nat) as nat);
    if i + 1 == length {
        assert(keycode_lines(length) =~= before + line + Seq::<char>::empty());
        (before, Seq::empty())
    } else {
        let (left, right) = lemma_keycode_line_is_there((length - 1) as nat, i);
        assert(keycode_lines(length) =~= left + keycode_line(keycode_at(i) as nat) + (right
            + line));
        (left, right + line)
    }
}

proof fn lemma_symbol_line_is_there(characters: Seq<char>, i: int) -> (around: (
    Seq<char>,
    Seq<char>,
))
    requires
        0 <= i < characters.len(),
    ensures
        symbol_lines(characters) == around.0 + symbol_line(
            keycode_at(i as nat) as nat,
            character_symbol(characters[i]),
        ) + around.1,
    decreases characters.len(),
{
    let init = characters.drop_last();
    let before = symbol_lines(init);
    let line = symbol_line(
        keycode_at((characters.len() - 1) as nat) as nat,
        character_symbol(characters.last()),
    );
    if i + 1 == characters.len() {
        assert(symbol_lines(characters) =~= before + line + Seq::<char>::empty());
        (before, Seq::empty())
    } else {
        let (left, right) = lemma_symbol_line_is_there(init, i);
        assert(init[i] == characters[i]);
        let own = symbol_line(keycode_at(i as nat) as nat, character_symbol(characters[i]));
        assert(symbol_lines(characters) =~= left + own + (right + line));
        (left, right + line)
    }
}

/// The key that stands for an action, and what it means to clients.
pub open spec fn key_meaning(action: InputMethodAction) -> (nat, Seq<char>) {
    match action {
        InputMethodAction::NoAction => (0, Seq::empty()),
        InputMethodAction::Submit => (28, "Return"@),
        InputMethodAction::DeleteLeft => (14, "BackSpace"@),
        InputMethodAction::DeleteRight => (111, "Delete"@),
        InputMethodAction::MoveLeft => (105, "Left"@),
        InputMethodAction::MoveRight => (106, "Right"@),
        InputMethodAction::MoveUp => (103, "Up"@),
        InputMethodAction::MoveDown => (108, "Down"@),
    }
}

/// Whatever text a keymap is for, it declares the key of every action, with the number that
/// the display server knows it by, and gives it the action's meaning.
pub proof fn lemma_keymap_holds_the_actions(
    characters: Seq<char>,
    action: InputMethodAction,
) -> (around: (Seq<char>, Seq<char>, Seq<char>))
    requires
        !(action is NoAction),
    ensures
        ({
            let (code, meaning) = key_meaning(action);
            let declared = "key <K"@ + text::decimal(code) + "> = "@ + text::decimal(code + 8)
                + ";\n"@;
            let bound = "key <K"@ + text::decimal(code) + "> { [ "@ + meaning + " ] };\n"@;
            keymap_for(characters) == around.0 + declared + around.1 + bound + around.2
        }),
{
    let codes = lemma_editing_key_is_there(action);
    let symbols = lemma_editing_symbol_is_there(action);
    let (code, meaning) = key_meaning(action);
    let start = "xkb_keymap {\nxkb_keycodes \"gamescope-ime\" { minimum = 9; maximum = 255; "@;
    let middle =
        " };\nxkb_types \"gamescope-ime\" { include \"complete\" };\nxkb_compatibility \"gamescope-ime\" { include \"complete\" };\nxkb_symbols \"gamescope-ime\" { "@;
    let end = " };\n};"@;
    let lines = keycode_lines(characters.len());
    let bindings = symbol_lines(characters);
    let declared = keycode_line(code);
    let bound = symbol_line(code, meaning);
    assert(lines + editing_keycodes() =~= (lines + codes.0) + declared + codes.1);
    assert(bindings + editing_symbols() =~= (bindings + symbols.0) + bound + symbols.1);
    lemma_two_parts_are_there(
        (start, middle, end),
        (lines + codes.0, declared, codes.1),
        (bindings + symbols.0, bound, symbols.1),
    );
    (
        start + (lines + codes.0),
        codes.1 + middle + (bindings + symbols.0),
        symbols.1 + end,
    )
}

proof fn lemma_editing_key_is_there(action: InputMethodAction) -> (around: (Seq<char>, Seq<char>))
    requires
        !(action is NoAction),
    ensures
        editing_keycodes() == around.0 + keycode_line(key_meaning(action).0) + around.1,
{
    let parts = seq![
        keycode_line(28),
        keycode_line(14),
        keycode_line(111),
        keycode_line(105),
        keycode_line(106),
        keycode_line(103),
        keycode_line(108),
    ];
    let around = lemma_one_of_seven(parts, action_place(action));
    assert(parts[action_place(action)] == keycode_line(key_meaning(action).0));
    around
}

proof fn lemma_editing_symbol_is_there(action: InputMethodAction) -> (around: (
    Seq<char>,
    Seq<char>,
))
    requires
        !(action is NoAction),
    ensures
        editing_symbols() == around.0 + symbol_line(key_meaning(action).0, key_meaning(action).1)
            + around.1,
{
    let parts = seq![
        symbol_line(28, "Return"@),
        symbol_line(14, "BackSpace"@),
        symbol_line(111, "Delete"@),
        symbol_line(105, "Left"@),
        symbol_line(106, "Right"@),
        symbol_line(103, "Up"@),
        symbol_line(108, "Down"@),
    ];
    let around = lemma_one_of_seven(parts, action_place(action));
    assert(parts[action_place(action)] == symbol_line(
        key_meaning(action).0,
        key_meaning(action).1,
    ));
    around
}

/// The place of an action's key among those of all actions.
spec fn action_place(action: InputMethodAction) -> int {
    match action {
        InputMethodAction::NoAction => 7,
        InputMethodAction::Submit => 0,
        InputMethodAction::DeleteLeft => 1,
        InputMethodAction::DeleteRight => 2,
        InputMethodAction::MoveLeft => 3,
        InputMethodAction::MoveRight => 4,
        InputMethodAction::MoveUp => 5,
        InputMethodAction::MoveDown => 6,
    }
}

proof fn lemma_one_of_seven(parts: Seq<Seq<char>>, at: int) -> (around: (Seq<char>, Seq<char>))
    requires
        parts.len() == 7,
        0 <= at < 7,
    ensures
        parts[0] + parts[1] + parts[2] + parts[3] + parts[4] + parts[5] + parts[6] == around.0
            + parts[at] + around.1,
{
    let none = Seq::<char>::empty();
    let one = parts[0];
    let two = one + parts[1];
    let three = two + parts[2];
    let four = three + parts[3];
    let five = four + parts[4];
    let six = five + parts[5];
    let behind_six = parts[6];
    let behind_five = parts[5] + behind_six;
    let behind_four = parts[4] + behind_five;
    let behind_three = parts[3] + behind_four;
    let behind_two = parts[2] + behind_three;
    let behind_one = parts[1] + behind_two;
    let all = six + parts[6];
    assert(all =~= five + behind_five);
    assert(all =~= four + behind_four);
    assert(all =~= three + behind_three);
    assert(all =~= two + behind_two);
    assert(all =~= one + behind_one);
    assert(none + parts[0] =~= one);
    assert(six + parts[6] + none =~= all);
    if at == 0 {
        (none, behind_one)
    } else if at == 1 {
        (one, behind_two)
    } else if at == 2 {
        (two, behind_three)
    } else if at == 3 {
        (three, behind_four)
    } else if at == 4 {
        (four, behind_five)
    } else if at == 5 {
        (five, behind_six)
    } else {
        (six, none)
    }
}

/// Whether strokes type all of a commit and nothing else: every character of its text, and
/// then its action, whether or not there is text.
pub open spec fn is_typed_in_full(commit: InputMethodCommit, strokes: Seq<KeyStroke>) -> bool {
    let length = match commit.text {
        Some(text) => text@.len(),
        None => 0,
    };
    let last = strokes.len() as int;
    &&& commit.action is NoAction ==> last == 2 * length
    &&& !(commit.action is NoAction) ==> last == 2 * length + 2 && is_full_stroke(
        strokes[last - 2],
        strokes[last - 1],
    ) && is_key_of(commit.action, strokes[last - 2].keycode)
    &&& forall|i: int|
        0 <= i < length ==> is_full_stroke(#[trigger] strokes[2 * i], strokes[2 * i + 1])
}

} // verus!
