//! Display identity from EDID blocks.

use vstd::prelude::*;
use vstd::utf8::*;

use crate::text;
use crate::text::{chars_of, push_hex4, string_of, text_from_utf8};

verus! {

/// What the first bytes of a block are.
pub open spec fn edid_header() -> Seq<u8> {
    seq![0x00, 0xff, 0xff, 0xff, 0xff, 0xff, 0xff, 0x00]
}

/// What a descriptor with the name of the display starts with.
pub open spec fn name_tag() -> Seq<u8> {
    seq![0, 0, 0, 0xfc, 0]
}

/// A letter of the manufacturer, from five bits.
pub open spec fn letter(bits: int) -> char {
    (bits % 32 + 64) as char
}

/// The three letters of the manufacturer.
pub open spec fn make_letters(value: int) -> Seq<char> {
    seq![letter(value / 1024), letter(value / 32), letter(value)]
}

/// Where the first of four descriptors with the name of the display stands.
pub open spec fn name_descriptor(edid: Seq<u8>) -> Option<int> {
    if edid.subrange(54, 59) == name_tag() {
        Some(54)
    } else if edid.subrange(72, 77) == name_tag() {
        Some(72)
    } else if edid.subrange(90, 95) == name_tag() {
        Some(90)
    } else if edid.subrange(108, 113) == name_tag() {
        Some(108)
    } else {
        None
    }
}

/// What surrounds names.
pub open spec fn is_padding(character: char) -> bool {
    character == '\0' || character == '\n' || character == '\r' || character == ' '
}

pub open spec fn without_leading_padding(text: Seq<char>) -> Seq<char>
    decreases text.len(),
{
    if text.len() > 0 && is_padding(text[0]) {
        without_leading_padding(text.skip(1))
    } else {
        text
    }
}

pub open spec fn without_trailing_padding(text: Seq<char>) -> Seq<char>
    decreases text.len(),
{
    if text.len() > 0 && is_padding(text.last()) {
        without_trailing_padding(text.drop_last())
    } else {
        text
    }
}

/// A text without padding at both ends.
pub open spec fn unpadded(text: Seq<char>) -> Seq<char> {
    without_trailing_padding(without_leading_padding(text))
}

/// The name that a block gives its display, if it gives one.
pub open spec fn display_name(edid: Seq<u8>) -> Seq<char> {
    match name_descriptor(edid) {
        Some(start) => {
            let bytes = edid.subrange(start + 5, start + 18);
            if valid_utf8(bytes) {
                unpadded(decode_utf8(bytes))
            } else {
                Seq::empty()
            }
        },
        None => Seq::empty(),
    }
}

/// Make and model of the display that a block describes. A display without a name is
/// called by its product code.
pub open spec fn edid_identity(edid: Seq<u8>) -> Option<(Seq<char>, Seq<char>)> {
    if edid.len() < 128 || edid.take(8) != edid_header() {
        None
    } else {
        let name = display_name(edid);
        Some(
            (
                make_letters(edid[8] * 256 + edid[9]),
                if name.len() > 0 {
                    name
                } else {
                    text::hex4((edid[11] * 256 + edid[10]) as nat, false)
                },
            ),
        )
    }
}

fn starts_with_header(edid: &[u8]) -> (found: bool)
    requires
        edid@.len() >= 8,
    ensures
        found == (edid@.take(8) == edid_header()),
{
    let found = edid[0] == 0x00 && edid[1] == 0xff && edid[2] == 0xff && edid[3] == 0xff && edid[4]
        == 0xff && edid[5] == 0xff && edid[6] == 0xff && edid[7] == 0x00;
    proof {
        let start = edid@.take(8);
        if found {
            assert(start =~= edid_header());
        } else {
            assert(start[0] == edid@[0] && start[1] == edid@[1] && start[2] == edid@[2]
                && start[3] == edid@[3] && start[4] == edid@[4] && start[5] == edid@[5]
                && start[6] == edid@[6] && start[7] == edid@[7]);
        }
    }
    found
}

fn has_name_tag(edid: &[u8], start: usize) -> (found: bool)
    requires
        start + 5 <= edid@.len(),
        start < 128,
    ensures
        found == (edid@.subrange(start as int, start + 5) == name_tag()),
{
    let found = edid[start] == 0 && edid[start + 1] == 0 && edid[start + 2] == 0 && edid[start + 3]
        == 0xfc && edid[start + 4] == 0;
    proof {
        let tag = edid@.subrange(start as int, start + 5);
        if found {
            assert(tag =~= name_tag());
        } else {
            assert(tag[0] == edid@[start as int] && tag[1] == edid@[start + 1] && tag[2]
                == edid@[start + 2] && tag[3] == edid@[start + 3] && tag[4] == edid@[start + 4]);
        }
    }
    found
}

fn padding(character: char) -> (found: bool)
    ensures
        found == is_padding(character),
{
    character == '\0' || character == '\n' || character == '\r' || character == ' '
}

fn trim(name: &str) -> (trimmed: String)
    ensures
        trimmed@ == unpadded(name@),
{
    let chars = chars_of(name);
    let mut from: usize = 0;
    assert(chars@.skip(0) =~= chars@);
    while from < chars.len() && padding(chars[from])
        invariant
            from <= chars@.len(),
            without_leading_padding(chars@) == without_leading_padding(chars@.skip(from as int)),
        decreases chars@.len() - from,
    {
        assert(chars@.skip(from as int).skip(1) =~= chars@.skip(from + 1));
        from = from + 1;
    }
    let ghost led = without_leading_padding(chars@);
    assert(led == chars@.skip(from as int));
    let mut to: usize = chars.len();
    assert(chars@.subrange(from as int, to as int) =~= led);
    while to > from && padding(chars[to - 1])
        invariant
            from <= to <= chars@.len(),
            without_trailing_padding(led) == without_trailing_padding(
                chars@.subrange(from as int, to as int),
            ),
        decreases to,
    {
        assert(chars@.subrange(from as int, to as int).drop_last() =~= chars@.subrange(
            from as int,
            to - 1,
        ));
        to = to - 1;
    }
    string_of(&chars, from, to)
}

fn read_name(edid: &[u8]) -> (name: String)
    requires
        edid@.len() >= 128,
    ensures
        name@ == display_name(edid@),
{
    let start: usize = if has_name_tag(edid, 54) {
        54
    } else if has_name_tag(edid, 72) {
        72
    } else if has_name_tag(edid, 90) {
        90
    } else if has_name_tag(edid, 108) {
        108
    } else {
        return String::new();
    };
    let bytes = text::bytes_of(edid, start + 5, start + 18);
    match text_from_utf8(&bytes) {
        Some(name) => trim(&name),
        None => String::new(),
    }
}

fn letter_of(bits: u32) -> (character: char)
    ensures
        character == letter(bits as int),
{
    ((bits % 32) as u8 + 64) as char
}

/// Make and model of the display that an EDID block describes.
#[must_use]
pub fn parse_edid_identity(edid: &[u8]) -> (identity: Option<(String, String)>)
    ensures
        match identity {
            Some((make, model)) => edid_identity(edid@) == Some((make@, model@)),
            None => edid_identity(edid@) is None,
        },
{
    if edid.len() < 128 || !starts_with_header(edid) {
        return None;
    }
    let manufacturer: u32 = edid[8] as u32 * 256 + edid[9] as u32;
    let mut make = String::new();
    make.push(letter_of(manufacturer / 1024));
    make.push(letter_of(manufacturer / 32));
    make.push(letter_of(manufacturer));
    assert(make@ =~= make_letters(edid@[8] * 256 + edid@[9]));
    let name = read_name(edid);
    if !chars_of(&name).is_empty() {
        return Some((make, name));
    }
    let mut model = String::new();
    push_hex4(&mut model, edid[11] as u32 * 256 + edid[10] as u32, false);
    assert(model@ =~= text::hex4((edid@[11] * 256 + edid@[10]) as nat, false));
    Some((make, model))
}

proof fn lemma_trailing_shape(text: Seq<char>)
    ensures
        without_trailing_padding(text).len() <= text.len(),
        without_trailing_padding(text) == text.take(without_trailing_padding(text).len() as int),
        without_trailing_padding(text).len() > 0 ==> !is_padding(
            without_trailing_padding(text).last(),
        ),
    decreases text.len(),
{
    if text.len() > 0 && is_padding(text.last()) {
        let init = text.drop_last();
        lemma_trailing_shape(init);
        let n = without_trailing_padding(init).len() as int;
        assert(init.take(n) =~= text.take(n));
    } else {
        assert(text.take(text.len() as int) =~= text);
    }
}

proof fn lemma_leading_shape(text: Seq<char>)
    ensures
        without_leading_padding(text).len() > 0 ==> !is_padding(without_leading_padding(text)[0]),
    decreases text.len(),
{
    if text.len() > 0 && is_padding(text[0]) {
        lemma_leading_shape(text.skip(1));
    }
}

/// An unpadded name neither starts nor ends with padding.
pub proof fn lemma_unpadded_ends(name: Seq<char>)
    ensures
        unpadded(name).len() > 0 ==> !is_padding(unpadded(name)[0]) && !is_padding(
            unpadded(name).last(),
        ),
{
    lemma_leading_shape(name);
    lemma_trailing_shape(without_leading_padding(name));
}

/// The maker is spelled with three letters of five bits each, with A as one, in the two bytes
/// behind the header, the high byte first. The bit above them says nothing.
pub proof fn lemma_makers_are_spelled(edid: Seq<u8>, top: int, first: int, second: int, third: int)
    requires
        edid.len() >= 128,
        edid.take(8) == edid_header(),
        0 <= top <= 1,
        0 <= first < 32,
        0 <= second < 32,
        0 <= third < 32,
        edid[8] * 256 + edid[9] == top * 32_768 + first * 1024 + second * 32 + third,
    ensures
        edid_identity(edid) matches Some((make, _)) && make == seq![
            (64 + first) as char,
            (64 + second) as char,
            (64 + third) as char,
        ],
{
    let value = top * 32_768 + first * 1024 + second * 32 + third;
    assert((value / 1024) % 32 == first);
    assert((value / 32) % 32 == second);
    assert(value % 32 == third);
}

/// Only a block of at least a hundred and twenty-eight bytes that starts with the header has
/// an identity.
pub proof fn lemma_identities_need_the_header(edid: Seq<u8>)
    ensures
        edid_identity(edid) is Some <==> edid.len() >= 128 && edid[0] == 0 && edid[1] == 0xff
            && edid[2] == 0xff && edid[3] == 0xff && edid[4] == 0xff && edid[5] == 0xff && edid[6]
            == 0xff && edid[7] == 0,
{
    if edid.len() >= 128 {
        let header = edid.take(8);
        assert(header[0] == edid[0]);
        assert(header[1] == edid[1]);
        assert(header[2] == edid[2]);
        assert(header[3] == edid[3]);
        assert(header[4] == edid[4]);
        assert(header[5] == edid[5]);
        assert(header[6] == edid[6]);
        assert(header[7] == edid[7]);
        assert(header == edid_header() <==> header =~= edid_header());
    }
}

/// Whether the descriptor at a place holds a name.
pub open spec fn holds_name(edid: Seq<u8>, at: int) -> bool {
    edid[at] == 0 && edid[at + 1] == 0 && edid[at + 2] == 0 && edid[at + 3] == 0xfc && edid[at + 4]
        == 0
}

/// The model is the name in the first of the four descriptors that holds one, without what
/// pads it; where there is none, or nothing is left of it, it is the product number, the high
/// byte first.
pub proof fn lemma_models_are_named(edid: Seq<u8>, at: int)
    requires
        edid.len() >= 128,
        edid.take(8) == edid_header(),
    ensures
        ({
            let name = edid.subrange(at + 5, at + 18);
            let found = (at == 54 || at == 72 || at == 90 || at == 108) && holds_name(edid, at) && (
            at > 54 ==> !holds_name(edid, 54)) && (at > 72 ==> !holds_name(edid, 72)) && (at > 90
                ==> !holds_name(edid, 90));
            let none = !holds_name(edid, 54) && !holds_name(edid, 72) && !holds_name(edid, 90)
                && !holds_name(edid, 108);
            let number = text::hex4((edid[11] * 256 + edid[10]) as nat, false);
            let identity = edid_identity(edid);
            let model = identity.unwrap().1;
            &&& identity is Some
            &&& found && valid_utf8(name) && unpadded(decode_utf8(name)).len() > 0
                ==> model == unpadded(decode_utf8(name))
            &&& found && (!valid_utf8(name) || unpadded(decode_utf8(name)).len() == 0)
                ==> model == number
            &&& none ==> model == number
        }),
{
    lemma_name_tag(edid, 54);
    lemma_name_tag(edid, 72);
    lemma_name_tag(edid, 90);
    lemma_name_tag(edid, 108);
}

proof fn lemma_name_tag(edid: Seq<u8>, at: int)
    requires
        0 <= at,
        at + 5 <= edid.len(),
    ensures
        edid.subrange(at, at + 5) == name_tag() <==> holds_name(edid, at),
{
    let tag = edid.subrange(at, at + 5);
    assert(tag[0] == edid[at]);
    assert(tag[1] == edid[at + 1]);
    assert(tag[2] == edid[at + 2]);
    assert(tag[3] == edid[at + 3]);
    assert(tag[4] == edid[at + 4]);
    assert(tag == name_tag() <==> tag =~= name_tag());
}

/// Spaces, ends of lines and zeros around a name are dropped, one by one from either end, and
/// a name without any is left as it is.
pub proof fn lemma_padding_is_dropped(name: Seq<char>, pad: char)
    ensures
        pad == ' ' || pad == '\n' || pad == '\r' || pad == '\0' ==> unpadded(seq![pad] + name)
            == unpadded(name) && unpadded(name.push(pad)) == unpadded(name),
        name.len() > 0 && !is_padding(name[0]) && !is_padding(name.last()) ==> unpadded(name)
            == name,
        is_padding(pad) ==> pad == ' ' || pad == '\n' || pad == '\r' || pad == '\0',
    decreases name.len(),
{
    if is_padding(pad) {
        let led = seq![pad] + name;
        assert(led[0] == pad);
        assert(led.skip(1) =~= name);
        lemma_trailing_padding(name, pad);
    }
}

proof fn lemma_trailing_padding(name: Seq<char>, pad: char)
    requires
        is_padding(pad),
    ensures
        unpadded(name.push(pad)) == unpadded(name),
    decreases name.len(),
{
    let more = name.push(pad);
    if name.len() == 0 {
        assert(more[0] == pad);
        assert(more.skip(1) =~= name);
    } else {
        assert(more[0] == name[0]);
        if is_padding(name[0]) {
            assert(more.skip(1) =~= name.skip(1).push(pad));
            lemma_trailing_padding(name.skip(1), pad);
        } else {
            assert(more.last() == pad);
            assert(more.drop_last() =~= name);
        }
    }
}

} // verus!
