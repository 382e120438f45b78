//! Reading and writing plain text: numbers, separators and character ranges.

use vstd::prelude::*;
use vstd::utf8::*;

verus! {

/// `String::push` appends one character.
pub assume_specification[ String::push ](string: &mut String, character: char)
    ensures
        final(string)@ == old(string)@.push(character),
;

/// `std::str::from_utf8`: the text that the bytes encode, or `None` when they are not
/// valid UTF-8.
#[verifier::external_body]
pub(crate) fn text_from_utf8(bytes: &[u8]) -> (text: Option<String>)
    ensures
        match text {
            Some(text) => valid_utf8(bytes@) && text@ == decode_utf8(bytes@),
            None => !valid_utf8(bytes@),
        },
{
    std::str::from_utf8(bytes).ok().map(str::to_owned)
}

/// The characters of a string slice.
pub fn chars_of(text: &str) -> (chars: Vec<char>)
    ensures
        chars@ == text@,
{
    let mut chars: Vec<char> = Vec::new();
    for character in it: text.chars()
        invariant
            chars@ == it.seq().take(it.index() as int),
            it.seq() == text@,
    {
        chars.push(character);
    }
    chars
}

/// The string made of the characters `chars[from..to]`.
pub fn string_of(chars: &[char], from: usize, to: usize) -> (text: String)
    requires
        from <= to <= chars@.len(),
    ensures
        text@ == chars@.subrange(from as int, to as int),
{
    let mut text = String::new();
    let mut i: usize = from;
    while i < to
        invariant
            from <= i <= to <= chars@.len(),
            text@ == chars@.subrange(from as int, i as int),
        decreases to - i,
    {
        text.push(chars[i]);
        i = i + 1;
    }
    text
}

/// Whether two slices hold the same characters.
pub fn same_chars(left: &[char], right: &[char]) -> (same: bool)
    ensures
        same == (left@ == right@),
{
    if left.len() != right.len() {
        return false;
    }
    let mut i: usize = 0;
    while i < left.len()
        invariant
            i <= left@.len() == right@.len(),
            left@.take(i as int) == right@.take(i as int),
        decreases left@.len() - i,
    {
        if left[i] != right[i] {
            return false;
        }
        assert(left@.take(i + 1) =~= left@.take(i as int).push(left@[i as int]));
        assert(right@.take(i + 1) =~= right@.take(i as int).push(right@[i as int]));
        i = i + 1;
    }
    assert(left@.take(i as int) =~= left@);
    assert(right@.take(i as int) =~= right@);
    true
}

/// Whether two texts are the same.
#[must_use]
pub fn same_text(left: &str, right: &str) -> (same: bool)
    ensures
        same == (left@ == right@),
{
    let left_chars = chars_of(left);
    let right_chars = chars_of(right);
    same_chars(&left_chars, &right_chars)
}

pub open spec fn is_digit(character: char) -> bool {
    '0' <= character <= '9'
}

/// The number written by a sequence of decimal digits.
pub open spec fn digits_value(digits: Seq<char>) -> nat
    decreases digits.len(),
{
    if digits.len() == 0 {
        0
    } else {
        (digits_value(digits.drop_last()) * 10 + (digits.last() as int - '0' as int)) as nat
    }
}

pub open spec fn all_digits(text: Seq<char>) -> bool {
    text.len() > 0 && forall|i: int| 0 <= i < text.len() ==> is_digit(#[trigger] text[i])
}

/// Decimal digits behind an optional plus sign.
pub open spec fn parse_nat(text: Seq<char>) -> Option<nat> {
    let digits = if text.len() > 0 && text[0] == '+' {
        text.skip(1)
    } else {
        text
    };
    if all_digits(digits) {
        Some(digits_value(digits))
    } else {
        None
    }
}

/// `parse_nat`, when the number does not exceed `limit`.
pub open spec fn parse_nat_up_to(text: Seq<char>, limit: nat) -> Option<nat> {
    match parse_nat(text) {
        Some(value) if value <= limit => Some(value),
        _ => None,
    }
}

/// Decimal digits behind an optional sign, within the range of `i32`.
pub open spec fn parse_int(text: Seq<char>) -> Option<int> {
    if text.len() > 0 && text[0] == '-' {
        if all_digits(text.skip(1)) && digits_value(text.skip(1)) <= 0x8000_0000 {
            Some(-digits_value(text.skip(1)))
        } else {
            None
        }
    } else {
        match parse_nat_up_to(text, 0x7fff_ffff) {
            Some(value) => Some(value as int),
            None => None,
        }
    }
}

proof fn lemma_digits_value_prefix(digits: Seq<char>, i: int)
    requires
        forall|j: int| 0 <= j < digits.len() ==> is_digit(#[trigger] digits[j]),
        0 <= i <= digits.len(),
    ensures
        digits_value(digits.take(i)) <= digits_value(digits),
    decreases digits.len(),
{
    if i == digits.len() {
        assert(digits.take(i) =~= digits);
    } else {
        let init = digits.drop_last();
        assert(init.take(i) =~= digits.take(i));
        assert(forall|j: int| 0 <= j < init.len() ==> init[j] == digits[j]);
        lemma_digits_value_prefix(init, i);
    }
}

/// Reads `chars[from..]` as decimal digits.
fn read_digits(chars: &[char], from: usize, limit: u64) -> (value: Option<u64>)
    requires
        from <= chars@.len(),
    ensures
        ({
            let digits = chars@.skip(from as int);
            match value {
                Some(value) => all_digits(digits) && digits_value(digits) == value && value
                    <= limit,
                None => !all_digits(digits) || digits_value(digits) > limit,
            }
        }),
{
    let ghost digits = chars@.skip(from as int);
    if from == chars.len() {
        return None;
    }
    let mut value: u64 = 0;
    let mut over: bool = false;
    let mut i: usize = from;
    assert(digits.take(0) =~= Seq::<char>::empty());
    while i < chars.len()
        invariant
            from <= i <= chars@.len(),
            from < chars@.len(),
            digits == chars@.skip(from as int),
            forall|j: int| 0 <= j < i - from ==> is_digit(#[trigger] digits[j]),
            over ==> digits_value(digits.take(i - from)) > limit,
            !over ==> digits_value(digits.take(i - from)) == value && value <= limit,
        decreases chars@.len() - i,
    {
        let c = chars[i];
        assert(digits[i - from] == c);
        if !('0' <= c && c <= '9') {
            assert(!is_digit(digits[i - from]));
            return None;
        }
        let ghost next = digits.take(i - from + 1);
        assert(next.drop_last() =~= digits.take(i - from));
        assert(next.last() == c);
        let d: u64 = (c as u32 - 48) as u64;
        if !over {
            if d > limit || value > (limit - d) / 10 {
                over = true;
            } else {
                value = value * 10 + d;
            }
        }
        i = i + 1;
    }
    assert(digits.take(i - from) =~= digits);
    if over {
        None
    } else {
        Some(value)
    }
}

/// `str::parse` into an unsigned integer whose largest value is `limit`.
pub fn read_nat(chars: &[char], limit: u64) -> (value: Option<u64>)
    ensures
        match value {
            Some(value) => parse_nat_up_to(chars@, limit as nat) == Some(value as nat),
            None => parse_nat_up_to(chars@, limit as nat) is None,
        },
{
    if chars.len() > 0 && chars[0] == '+' {
        read_digits(chars, 1, limit)
    } else {
        assert(chars@.skip(0) =~= chars@);
        read_digits(chars, 0, limit)
    }
}

/// `str::parse::<u32>`.
pub fn read_u32(text: &str) -> (value: Option<u32>)
    ensures
        value == (match parse_nat_up_to(text@, u32::MAX as nat) {
            Some(value) => Some(value as u32),
            None => None,
        }),
{
    let chars = chars_of(text);
    match read_nat(&chars, u32::MAX as u64) {
        Some(value) => Some(value as u32),
        None => None,
    }
}

/// `str::parse::<usize>`.
pub fn read_usize(text: &str) -> (value: Option<usize>)
    ensures
        value == (match parse_nat_up_to(text@, usize::MAX as nat) {
            Some(value) => Some(value as usize),
            None => None,
        }),
{
    let chars = chars_of(text);
    match read_nat(&chars, usize::MAX as u64) {
        Some(value) => Some(value as usize),
        None => None,
    }
}

/// `str::parse::<i32>`.
pub fn read_i32(text: &str) -> (value: Option<i32>)
    ensures
        value == (match parse_int(text@) {
            Some(value) => Some(value as i32),
            None => None,
        }),
{
    let chars = chars_of(text);
    if chars.len() > 0 && chars[0] == '-' {
        match read_digits(&chars, 1, 0x8000_0000) {
            Some(value) => Some((-(value as i64)) as i32),
            None => None,
        }
    } else {
        match read_nat(&chars, 0x7fff_ffff) {
            Some(value) => Some(value as i32),
            None => None,
        }
    }
}

/// The digit for `value` in a base of at most sixteen.
pub open spec fn digit_char(value: nat, upper: bool) -> char {
    if value < 10 {
        ('0' as u32 + value) as char
    } else if upper {
        ('A' as u32 + (value - 10)) as char
    } else {
        ('a' as u32 + (value - 10)) as char
    }
}

/// `value` in positional notation, without leading zeros.
pub open spec fn numeral(value: nat, base: nat, upper: bool) -> Seq<char>
    decreases value,
{
    if base < 2 || value < base {
        seq![digit_char(value, upper)]
    } else {
        proof {
            assert(value / base < value) by (nonlinear_arith)
                requires
                    2 <= base <= value,
            ;
        }
        numeral(value / base, base, upper).push(digit_char(value % base, upper))
    }
}

/// `value` in decimal.
pub open spec fn decimal(value: nat) -> Seq<char> {
    numeral(value, 10, false)
}

/// `value` in hexadecimal, padded with zeros to four digits.
pub open spec fn hex4(value: nat, upper: bool) -> Seq<char> {
    let digits = numeral(value, 16, upper);
    if digits.len() >= 4 {
        digits
    } else {
        Seq::new((4 - digits.len()) as nat, |i: int| '0') + digits
    }
}

fn char_of_digit(value: u32, upper: bool) -> (digit: char)
    requires
        value < 16,
    ensures
        digit == digit_char(value as nat, upper),
{
    if value < 10 {
        (48 + value as u8) as char
    } else if upper {
        (65 + (value - 10) as u8) as char
    } else {
        (97 + (value - 10) as u8) as char
    }
}

fn digits_of(value: u64, base: u64, upper: bool) -> (digits: Vec<char>)
    requires
        2 <= base <= 16,
    ensures
        digits@ == numeral(value as nat, base as nat, upper),
        digits@.len() > 0,
    decreases value,
{
    if value < base {
        let mut digits: Vec<char> = Vec::new();
        digits.push(char_of_digit(value as u32, upper));
        assert(digits@ =~= seq![digit_char(value as nat, upper)]);
        digits
    } else {
        assert(value / base < value) by (nonlinear_arith)
            requires
                2 <= base <= value,
        ;
        assert(value % base < base) by (nonlinear_arith)
            requires
                2 <= base,
        ;
        let mut digits: Vec<char> = digits_of(value / base, base, upper);
        digits.push(char_of_digit((value % base) as u32, upper));
        digits
    }
}

/// Appends characters to a string.
pub fn push_chars(text: &mut String, chars: &[char])
    ensures
        final(text)@ == old(text)@ + chars@,
{
    let ghost start = text@;
    let mut i: usize = 0;
    while i < chars.len()
        invariant
            i <= chars@.len(),
            text@ == start + chars@.take(i as int),
        decreases chars@.len() - i,
    {
        text.push(chars[i]);
        assert(start + chars@.take(i + 1) =~= (start + chars@.take(i as int)).push(
            chars@[i as int],
        ));
        i = i + 1;
    }
    assert(chars@.take(i as int) =~= chars@);
}

/// A string with the characters of a text.
#[must_use]
pub fn string_from(text: &str) -> (string: String)
    ensures
        string@ == text@,
{
    let mut string = String::new();
    push_text(&mut string, text);
    assert(string@ =~= text@);
    string
}

/// Appends a text.
pub fn push_text(text: &mut String, more: &str)
    ensures
        final(text)@ == old(text)@ + more@,
{
    text.append(more);
}

/// Appends `value` in decimal.
pub fn push_decimal(text: &mut String, value: u64)
    ensures
        final(text)@ == old(text)@ + decimal(value as nat),
{
    let digits = digits_of(value, 10, false);
    push_chars(text, &digits);
}

/// Appends `value` in hexadecimal, padded with zeros to four digits.
pub fn push_hex4(text: &mut String, value: u32, upper: bool)
    ensures
        final(text)@ == old(text)@ + hex4(value as nat, upper),
{
    let ghost start = text@;
    let digits = digits_of(value as u64, 16, upper);
    let mut width: usize = digits.len();
    while width < 4
        invariant
            digits@.len() <= width,
            digits@.len() < 4 ==> width <= 4,
            digits@.len() >= 4 ==> width == digits@.len(),
            text@ == start + Seq::new((width - digits@.len()) as nat, |i: int| '0'),
        decreases 4 - width,
    {
        text.push('0');
        assert(Seq::new((width + 1 - digits@.len()) as nat, |i: int| '0') =~= Seq::new(
            (width - digits@.len()) as nat,
            |i: int| '0',
        ).push('0'));
        width = width + 1;
    }
    push_chars(text, &digits);
    assert(text@ =~= start + hex4(value as nat, upper));
}

/// Where `wanted` first occurs at or after `from`, or the length of the slice.
pub fn find_char(chars: &[char], wanted: char, from: usize) -> (index: usize)
    requires
        from <= chars@.len(),
    ensures
        from <= index <= chars@.len(),
        forall|i: int| from <= i < index ==> chars@[i] != wanted,
        index < chars@.len() ==> chars@[index as int] == wanted,
        from == 0 ==> chars@.index_of_first(wanted) == (if index < chars@.len() {
            Some(index as int)
        } else {
            None
        }),
{
    let mut i: usize = from;
    while i < chars.len()
        invariant
            from <= i <= chars@.len(),
            forall|j: int| from <= j < i ==> chars@[j] != wanted,
        decreases chars@.len() - i,
    {
        if chars[i] == wanted {
            proof {
                chars@.index_of_first_ensures(wanted);
            }
            return i;
        }
        i = i + 1;
    }
    proof {
        chars@.index_of_first_ensures(wanted);
    }
    i
}

/// The pieces of `text` between occurrences of `separator`, empty ones included.
pub open spec fn split<A>(text: Seq<A>, separator: A) -> Seq<Seq<A>>
    decreases text.len(),
{
    if !text.contains(separator) {
        seq![text]
    } else {
        let cut = text.index_of_first(separator)->0;
        if 0 <= cut < text.len() {
            seq![text.take(cut)] + split(text.skip(cut + 1), separator)
        } else {
            seq![text]
        }
    }
}

/// The text before and after the first `separator`.
pub open spec fn split_once(text: Seq<char>, separator: char) -> Option<(Seq<char>, Seq<char>)> {
    match text.index_of_first(separator) {
        Some(cut) => Some((text.take(cut), text.skip(cut + 1))),
        None => None,
    }
}

/// The non-empty pieces of `text` between occurrences of `separator`.
pub open spec fn split_nonempty<A>(text: Seq<A>, separator: A) -> Seq<Seq<A>> {
    split(text, separator).filter(|piece: Seq<A>| piece.len() > 0)
}

/// The contents of an optional string.
pub open spec fn optional(string: Option<String>) -> Option<Seq<char>> {
    match string {
        Some(string) => Some(string@),
        None => None,
    }
}

/// The contents of a vector of strings.
pub open spec fn texts(strings: Seq<String>) -> Seq<Seq<char>> {
    strings.map_values(|text: String| text@)
}

proof fn lemma_index_of_first<A>(text: Seq<A>, wanted: A, cut: int)
    requires
        0 <= cut < text.len(),
        text[cut] == wanted,
        forall|i: int| 0 <= i < cut ==> text[i] != wanted,
    ensures
        text.contains(wanted),
        text.index_of_first(wanted) == Some(cut),
{
    text.index_of_first_ensures(wanted);
}

/// `str::split` on a character, keeping the non-empty pieces.
pub fn split_nonempty_strings(text: &str, separator: char) -> (pieces: Vec<String>)
    ensures
        texts(pieces@) == split_nonempty(text@, separator),
{
    let chars = chars_of(text);
    let mut pieces: Vec<String> = Vec::new();
    let mut start: usize = 0;
    let ghost nonempty = |piece: Seq<char>| piece.len() > 0;
    assert(chars@.skip(0) =~= chars@);
    assert(texts(pieces@) =~= Seq::<Seq<char>>::empty());
    loop
        invariant
            start <= chars@.len(),
            chars@ == text@,
            nonempty == (|piece: Seq<char>| piece.len() > 0),
            split_nonempty(text@, separator) == texts(pieces@) + split(
                chars@.skip(start as int),
                separator,
            ).filter(nonempty),
        decreases chars@.len() - start,
    {
        let end = find_char(&chars, separator, start);
        let ghost rest = chars@.skip(start as int);
        let ghost piece = chars@.subrange(start as int, end as int);
        let ghost before = texts(pieces@);
        if end > start {
            let string = string_of(&chars, start, end);
            pieces.push(string);
            assert(texts(pieces@) =~= before.push(piece));
        }
        assert(texts(pieces@) =~= before + seq![piece].filter(nonempty)) by {
            reveal(Seq::filter);
            reveal_with_fuel(Seq::filter, 2);
            assert(seq![piece].drop_last() =~= Seq::<Seq<char>>::empty());
        }
        if end == chars.len() {
            assert(rest =~= piece);
            assert(!rest.contains(separator)) by {
                assert forall|i: int| 0 <= i < rest.len() implies rest[i] != separator by {
                    assert(rest[i] == chars@[start + i]);
                }
            }
            return pieces;
        }
        proof {
            let cut = end - start;
            assert forall|i: int| 0 <= i < cut implies rest[i] != separator by {
                assert(rest[i] == chars@[start + i]);
            }
            lemma_index_of_first(rest, separator, cut);
            assert(rest.take(cut) =~= piece);
            assert(rest.skip(cut + 1) =~= chars@.skip(end + 1));
            Seq::filter_distributes_over_add(seq![piece], split(chars@.skip(end + 1), separator), nonempty);
            assert(split_nonempty(text@, separator) =~= texts(pieces@) + split(
                chars@.skip(end + 1),
                separator,
            ).filter(nonempty));
        }
        start = end + 1;
    }
}

/// The contents of a vector of byte strings.
pub open spec fn byte_strings(strings: Seq<Vec<u8>>) -> Seq<Seq<u8>> {
    strings.map_values(|bytes: Vec<u8>| bytes@)
}

/// The bytes `bytes[from..to]`.
pub fn bytes_of(bytes: &[u8], from: usize, to: usize) -> (copy: Vec<u8>)
    requires
        from <= to <= bytes@.len(),
    ensures
        copy@ == bytes@.subrange(from as int, to as int),
{
    let mut copy: Vec<u8> = Vec::new();
    let mut i: usize = from;
    while i < to
        invariant
            from <= i <= to <= bytes@.len(),
            copy@ == bytes@.subrange(from as int, i as int),
        decreases to - i,
    {
        copy.push(bytes[i]);
        i = i + 1;
    }
    copy
}

/// Whether two slices hold the same bytes.
pub fn same_bytes(left: &[u8], right: &[u8]) -> (same: bool)
    ensures
        same == (left@ == right@),
{
    if left.len() != right.len() {
        return false;
    }
    let mut i: usize = 0;
    while i < left.len()
        invariant
            i <= left@.len() == right@.len(),
            forall|j: int| 0 <= j < i ==> left@[j] == right@[j],
        decreases left@.len() - i,
    {
        if left[i] != right[i] {
            return false;
        }
        i = i + 1;
    }
    assert(left@ =~= right@);
    true
}

/// Split bytes on a separator, keeping the non-empty pieces.
pub fn split_nonempty_bytes(bytes: &[u8], separator: u8) -> (pieces: Vec<Vec<u8>>)
    ensures
        byte_strings(pieces@) == split_nonempty(bytes@, separator),
{
    let mut pieces: Vec<Vec<u8>> = Vec::new();
    let mut start: usize = 0;
    let ghost nonempty = |piece: Seq<u8>| piece.len() > 0;
    assert(bytes@.skip(0) =~= bytes@);
    assert(byte_strings(pieces@) =~= Seq::<Seq<u8>>::empty());
    loop
        invariant
            start <= bytes@.len(),
            nonempty == (|piece: Seq<u8>| piece.len() > 0),
            split_nonempty(bytes@, separator) == byte_strings(pieces@) + split(
                bytes@.skip(start as int),
                separator,
            ).filter(nonempty),
        decreases bytes@.len() - start,
    {
        let mut end: usize = start;
        while end < bytes.len() && bytes[end] != separator
            invariant
                start <= end <= bytes@.len(),
                forall|j: int| start <= j < end ==> bytes@[j] != separator,
            decreases bytes@.len() - end,
        {
            end = end + 1;
        }
        let ghost rest = bytes@.skip(start as int);
        let ghost piece = bytes@.subrange(start as int, end as int);
        let ghost before = byte_strings(pieces@);
        if end > start {
            pieces.push(bytes_of(bytes, start, end));
            assert(byte_strings(pieces@) =~= before.push(piece));
        }
        assert(byte_strings(pieces@) =~= before + seq![piece].filter(nonempty)) by {
            reveal(Seq::filter);
            reveal_with_fuel(Seq::filter, 2);
            assert(seq![piece].drop_last() =~= Seq::<Seq<u8>>::empty());
        }
        if end == bytes.len() {
            assert(rest =~= piece);
            assert(!rest.contains(separator)) by {
                assert forall|i: int| 0 <= i < rest.len() implies rest[i] != separator by {
                    assert(rest[i] == bytes@[start + i]);
                }
            }
            return pieces;
        }
        proof {
            let cut = end - start;
            assert forall|i: int| 0 <= i < cut implies rest[i] != separator by {
                assert(rest[i] == bytes@[start + i]);
            }
            lemma_index_of_first(rest, separator, cut);
            assert(rest.take(cut) =~= piece);
            assert(rest.skip(cut + 1) =~= bytes@.skip(end + 1));
            Seq::filter_distributes_over_add(
                seq![piece],
                split(bytes@.skip(end + 1), separator),
                nonempty,
            );
            assert(split_nonempty(bytes@, separator) =~= byte_strings(pieces@) + split(
                bytes@.skip(end + 1),
                separator,
            ).filter(nonempty));
        }
        start = end + 1;
    }
}

/// The characters with the Unicode property `White_Space`.
pub open spec fn is_whitespace(character: char) -> bool {
    let code = character as u32;
    0x9 <= code <= 0xd || code == 0x20 || code == 0x85 || code == 0xa0 || code == 0x1680 || 0x2000
        <= code <= 0x200a || code == 0x2028 || code == 0x2029 || code == 0x202f || code == 0x205f
        || code == 0x3000
}

/// Whether a character is white space.
#[must_use]
pub fn whitespace(character: char) -> (found: bool)
    ensures
        found == is_whitespace(character),
{
    let code: u32 = character as u32;
    (0x9 <= code && code <= 0xd) || code == 0x20 || code == 0x85 || code == 0xa0 || code == 0x1680
        || (0x2000 <= code && code <= 0x200a) || code == 0x2028 || code == 0x2029 || code == 0x202f
        || code == 0x205f || code == 0x3000
}

/// Where the first run of characters other than white space starts, or the length.
pub open spec fn word_start(text: Seq<char>) -> int
    decreases text.len(),
{
    if text.len() == 0 || !is_whitespace(text[0]) {
        0
    } else {
        1 + word_start(text.skip(1))
    }
}

/// Where the run of characters other than white space at the front ends.
pub open spec fn word_end(text: Seq<char>) -> int
    decreases text.len(),
{
    if text.len() == 0 || is_whitespace(text[0]) {
        0
    } else {
        1 + word_end(text.skip(1))
    }
}

/// The runs of characters other than white space.
pub open spec fn words(text: Seq<char>) -> Seq<Seq<char>>
    decreases text.len(),
{
    let rest = text.skip(word_start(text));
    let end = word_end(rest);
    if 0 < end <= rest.len() && 0 <= word_start(text) <= text.len() {
        seq![rest.take(end)] + words(rest.skip(end))
    } else {
        Seq::empty()
    }
}

fn find_word_start(chars: &[char], from: usize) -> (index: usize)
    requires
        from <= chars@.len(),
    ensures
        from <= index <= chars@.len(),
        index - from == word_start(chars@.skip(from as int)),
{
    let ghost rest = chars@.skip(from as int);
    let mut i: usize = from;
    assert(rest.skip(0) =~= rest);
    while i < chars.len() && whitespace(chars[i])
        invariant
            from <= i <= chars@.len(),
            rest == chars@.skip(from as int),
            word_start(rest) == i - from + word_start(rest.skip(i - from)),
        decreases chars@.len() - i,
    {
        let ghost here = rest.skip(i - from);
        assert(here[0] == chars@[i as int]);
        assert(here.skip(1) =~= rest.skip(i + 1 - from));
        i = i + 1;
    }
    let ghost here = rest.skip(i - from);
    assert(i < chars@.len() ==> here[0] == chars@[i as int]);
    i
}

fn find_word_end(chars: &[char], from: usize) -> (index: usize)
    requires
        from <= chars@.len(),
    ensures
        from <= index <= chars@.len(),
        index - from == word_end(chars@.skip(from as int)),
{
    let ghost rest = chars@.skip(from as int);
    let mut i: usize = from;
    assert(rest.skip(0) =~= rest);
    while i < chars.len() && !whitespace(chars[i])
        invariant
            from <= i <= chars@.len(),
            rest == chars@.skip(from as int),
            word_end(rest) == i - from + word_end(rest.skip(i - from)),
        decreases chars@.len() - i,
    {
        let ghost here = rest.skip(i - from);
        assert(here[0] == chars@[i as int]);
        assert(here.skip(1) =~= rest.skip(i + 1 - from));
        i = i + 1;
    }
    let ghost here = rest.skip(i - from);
    assert(i < chars@.len() ==> here[0] == chars@[i as int]);
    i
}

/// `str::split_whitespace`, from the character with index `from`.
pub fn split_words(chars: &[char], from: usize) -> (pieces: Vec<String>)
    requires
        from <= chars@.len(),
    ensures
        texts(pieces@) == words(chars@.skip(from as int)),
{
    let mut pieces: Vec<String> = Vec::new();
    let mut i: usize = from;
    assert(texts(pieces@) =~= Seq::<Seq<char>>::empty());
    assert(texts(pieces@) + words(chars@.skip(i as int)) =~= words(chars@.skip(from as int)));
    loop
        invariant
            i <= chars@.len(),
            from <= chars@.len(),
            words(chars@.skip(from as int)) == texts(pieces@) + words(chars@.skip(i as int)),
        decreases chars@.len() - i,
    {
        let start: usize = find_word_start(chars, i);
        let end: usize = find_word_end(chars, start);
        let ghost here = chars@.skip(i as int);
        let ghost rest = here.skip(word_start(here));
        assert(rest =~= chars@.skip(start as int));
        if end == start {
            assert(words(here) =~= Seq::<Seq<char>>::empty());
            assert(texts(pieces@) =~= words(chars@.skip(from as int)));
            return pieces;
        }
        let ghost before = texts(pieces@);
        let word = string_of(chars, start, end);
        assert(word@ =~= rest.take(word_end(rest)));
        assert(rest.skip(word_end(rest)) =~= chars@.skip(end as int));
        pieces.push(word);
        assert(texts(pieces@) =~= before.push(word@));
        assert(words(chars@.skip(from as int)) =~= texts(pieces@) + words(
            chars@.skip(end as int),
        ));
        i = end;
    }
}

/// The text that `std::fmt::Debug` writes for a string: the string in double quotes, with
/// what could be misread in it escaped.
pub uninterp spec fn debug_quoted(text: Seq<char>) -> Seq<char>;

/// `std::fmt::Debug` for strings: the quoted string. Which characters are escaped is left
/// to the name of the result.
#[verifier::external_body]
pub(crate) fn quoted(text: &str) -> (quoted: String)
    ensures
        quoted@ == debug_quoted(text@),
{
    format!("{text:?}")
}

/// The last piece of a path that is neither empty nor the current directory.
pub open spec fn last_piece(pieces: Seq<Seq<char>>) -> Option<Seq<char>>
    decreases pieces.len(),
{
    if pieces.len() == 0 {
        None
    } else if pieces.last() == "."@ {
        last_piece(pieces.drop_last())
    } else {
        Some(pieces.last())
    }
}

/// The name of the file that a path leads to, if it leads to one.
pub open spec fn path_file_name(path: Seq<char>) -> Option<Seq<char>> {
    match last_piece(split_nonempty(path, '/')) {
        Some(name) if name != ".."@ => Some(name),
        _ => None,
    }
}

/// What stands behind the last dot of a file name that does not only start with a dot.
pub open spec fn name_extension(name: Seq<char>) -> Option<Seq<char>> {
    match name.index_of_last('.') {
        Some(dot) if dot > 0 => Some(name.skip(dot + 1)),
        _ => None,
    }
}

/// The extension of the file that a path leads to.
pub open spec fn path_extension(path: Seq<char>) -> Option<Seq<char>> {
    match path_file_name(path) {
        Some(name) => name_extension(name),
        None => None,
    }
}

fn read_name_extension(name: &str) -> (extension: Option<String>)
    ensures
        optional(extension) == name_extension(name@),
{
    let chars = chars_of(name);
    let mut i: usize = chars.len();
    while i > 0
        invariant
            i <= chars@.len(),
            chars@ == name@,
            forall|j: int| i <= j < chars@.len() ==> chars@[j] != '.',
        decreases i,
    {
        if chars[i - 1] == '.' {
            proof {
                assert(chars@.contains('.'));
                chars@.index_of_last_ensures('.');
            }
            if i == 1 {
                return None;
            }
            assert(chars@.subrange(i as int, chars@.len() as int) =~= chars@.skip(i as int));
            return Some(string_of(&chars, i, chars.len()));
        }
        i = i - 1;
    }
    proof {
        chars@.index_of_last_ensures('.');
    }
    None
}

/// The extension of the file that a path leads to, as `Path::extension` has it on Unix.
#[must_use]
pub fn extension_of(path: &str) -> (extension: Option<String>)
    ensures
        optional(extension) == path_extension(path@),
{
    let pieces = split_nonempty_strings(path, '/');
    let ghost all = texts(pieces@);
    let mut i: usize = pieces.len();
    assert(all.take(i as int) =~= all);
    while i > 0
        invariant
            i <= pieces@.len(),
            all == texts(pieces@),
            all == split_nonempty(path@, '/'),
            last_piece(all) == last_piece(all.take(i as int)),
        decreases i,
    {
        let ghost prefix = all.take(i as int);
        assert(prefix.last() == pieces@[i - 1]@);
        assert(prefix.drop_last() =~= all.take(i - 1));
        let piece = &pieces[i - 1];
        if !same_text(piece.as_str(), ".") {
            if same_text(piece.as_str(), "..") {
                return None;
            }
            return read_name_extension(piece.as_str());
        }
        i = i - 1;
    }
    None
}

/// A character in lower case, if it is an ASCII letter.
pub open spec fn ascii_lowercase(character: char) -> char {
    if 'A' <= character <= 'Z' {
        (character as u32 + 32) as char
    } else {
        character
    }
}

/// A text with its ASCII letters in lower case.
#[must_use]
pub fn lowercase(text: &str) -> (lower: String)
    ensures
        lower@ == text@.map_values(|character: char| ascii_lowercase(character)),
{
    let chars = chars_of(text);
    let ghost all = text@.map_values(|character: char| ascii_lowercase(character));
    let mut lower = String::new();
    let mut i: usize = 0;
    assert(all.take(0) =~= lower@);
    while i < chars.len()
        invariant
            i <= chars@.len(),
            chars@ == text@,
            all == text@.map_values(|character: char| ascii_lowercase(character)),
            lower@ == all.take(i as int),
        decreases chars@.len() - i,
    {
        let character = chars[i];
        let changed = if 'A' <= character && character <= 'Z' {
            (character as u8 + 32) as char
        } else {
            character
        };
        assert(changed == all[i as int]);
        lower.push(changed);
        assert(all.take(i + 1) =~= all.take(i as int).push(changed));
        i = i + 1;
    }
    assert(all.take(i as int) =~= all);
    lower
}

/// A number that is written in decimal is read back as it was, with or without a sign in
/// front, and a limit lets through exactly what does not exceed it.
pub proof fn lemma_decimals_are_read_back(value: nat, limit: nat)
    ensures
        parse_nat(decimal(value)) == Some(value),
        parse_nat(seq!['+'] + decimal(value)) == Some(value),
        value <= limit ==> parse_nat_up_to(decimal(value), limit) == Some(value),
        value > limit ==> parse_nat_up_to(decimal(value), limit) is None,
        value <= 0x7fff_ffff ==> parse_int(decimal(value)) == Some(value as int),
        value > 0x7fff_ffff ==> parse_int(decimal(value)) is None,
        value <= 0x8000_0000 ==> parse_int(seq!['-'] + decimal(value)) == Some(-value),
        value > 0x8000_0000 ==> parse_int(seq!['-'] + decimal(value)) is None,
{
    lemma_decimal_digits(value);
    let digits = decimal(value);
    assert(is_digit(digits[0]));
    assert((seq!['+'] + digits).skip(1) =~= digits);
    assert((seq!['-'] + digits).skip(1) =~= digits);
}

proof fn lemma_decimal_digits(value: nat)
    ensures
        all_digits(decimal(value)),
        digits_value(decimal(value)) == value,
    decreases value,
{
    let digits = decimal(value);
    let last = (value % 10) as nat;
    if value < 10 {
        assert(digits =~= seq![digit_char(value, false)]);
        assert(digits.drop_last() =~= Seq::<char>::empty());
        assert(digits_value(digits.drop_last()) == 0);
    } else {
        lemma_decimal_digits(value / 10);
        assert(digits.drop_last() =~= decimal(value / 10));
        assert(digits.last() == digit_char(last, false));
        assert forall|i: int| 0 <= i < digits.len() implies is_digit(#[trigger] digits[i]) by {
            if i < digits.len() - 1 {
                assert(digits[i] == decimal(value / 10)[i]);
            }
        }
    }
}

/// What is read as a number is made of digits alone, behind a sign where there is one, and
/// every digit behind a number multiplies it by ten and adds to it.
pub proof fn lemma_numbers_are_made_of_digits(text: Seq<char>, digit: char)
    ensures
        parse_nat(text) is Some <==> {
            let from = if text.len() > 0 && text[0] == '+' {
                1int
            } else {
                0
            };
            &&& from < text.len()
            &&& forall|i: int| from <= i < text.len() ==> '0' <= #[trigger] text[i] <= '9'
        },
        parse_nat(text) is Some && 48 <= digit as u32 <= 57 ==> parse_nat(text.push(digit)) == Some(
            (parse_nat(text)->0 * 10 + (digit as u32 - 48)) as nat,
        ),
        48 <= digit as u32 <= 57 ==> parse_nat(seq![digit]) == Some((digit as u32 - 48) as nat),
{
    let digits = if text.len() > 0 && text[0] == '+' {
        text.skip(1)
    } else {
        text
    };
    let from = text.len() - digits.len();
    assert(forall|i: int| 0 <= i < digits.len() ==> #[trigger] digits[i] == text[from + i]);
    assert(forall|i: int| from <= i < text.len() ==> #[trigger] text[i] == digits[i - from]);
    if all_digits(digits) {
        assert(forall|i: int| from <= i < text.len() ==> is_digit(#[trigger] text[i]));
    }
    if from < text.len() && forall|i: int|
        from <= i < text.len() ==> '0' <= #[trigger] text[i] <= '9' {
        assert forall|i: int| 0 <= i < digits.len() implies is_digit(#[trigger] digits[i]) by {
            let at = from + i;
            assert(digits[i] == text[at]);
        }
    }
    if 48 <= digit as u32 <= 57 {
        let single = seq![digit];
        assert(single.drop_last() =~= Seq::<char>::empty());
        assert(digits_value(single.drop_last()) == 0);
        if parse_nat(text) is Some {
            let more = text.push(digit);
            assert(more[0] == text[0]);
            let behind = if text[0] == '+' {
                more.skip(1)
            } else {
                more
            };
            assert(behind =~= digits.push(digit));
            assert(behind.drop_last() =~= digits);
            assert forall|i: int| 0 <= i < behind.len() implies is_digit(#[trigger] behind[i]) by {
                if i < digits.len() {
                    assert(behind[i] == digits[i]);
                }
            }
        }
    }
}

/// A digit of a number in base sixteen, as a character.
pub open spec fn hex_char(value: nat, upper: bool) -> nat {
    if value < 10 {
        48 + value
    } else if upper {
        55 + value
    } else {
        87 + value
    }
}

/// A number of sixteen bits is written as its four digits in base sixteen, the highest first.
pub proof fn lemma_hex_digits_are_in_order(value: u16, upper: bool)
    ensures
        hex4(value as nat, upper).len() == 4,
        hex4(value as nat, upper)[0] as u32 == hex_char((value / 4096) as nat, upper),
        hex4(value as nat, upper)[1] as u32 == hex_char((value / 256 % 16) as nat, upper),
        hex4(value as nat, upper)[2] as u32 == hex_char((value / 16 % 16) as nat, upper),
        hex4(value as nat, upper)[3] as u32 == hex_char((value % 16) as nat, upper),
{
    reveal_with_fuel(numeral, 5);
    let v = value as nat;
    assert(v / 16 / 16 == v / 256);
    assert(v / 256 / 16 == v / 4096);
    assert(v / 4096 < 16);
}

/// The pieces of a text, put together again with the separator between them.
pub open spec fn put_together<A>(pieces: Seq<Seq<A>>, separator: A) -> Seq<A>
    decreases pieces.len(),
{
    if pieces.len() == 0 {
        Seq::empty()
    } else if pieces.len() == 1 {
        pieces[0]
    } else {
        pieces[0] + seq![separator] + put_together(pieces.drop_first(), separator)
    }
}

/// The pieces that a separator leaves hold no separator, and give the text back when they are
/// put together.
pub proof fn lemma_pieces_make_the_text<A>(text: Seq<A>, separator: A)
    ensures
        put_together(split(text, separator), separator) == text,
        split(text, separator).len() > 0,
        forall|i: int|
            0 <= i < split(text, separator).len() ==> !(#[trigger] split(
                text,
                separator,
            )[i]).contains(separator),
    decreases text.len(),
{
    if text.contains(separator) {
        text.index_of_first_ensures(separator);
        let cut = text.index_of_first(separator)->0;
        let rest = text.skip(cut + 1);
        lemma_pieces_make_the_text(rest, separator);
        let pieces = split(text, separator);
        assert(pieces.drop_first() =~= split(rest, separator));
        assert(text =~= text.take(cut) + seq![separator] + rest);
        assert forall|i: int| 0 <= i < pieces.len() implies !(#[trigger] pieces[i]).contains(
            separator,
        ) by {
            if i > 0 {
                assert(pieces[i] == split(rest, separator)[i - 1]);
            }
        }
    }
}

/// Of the pieces, those that hold something are used, in order: what stands in front of a
/// separator comes first, if it is not empty, and is followed by what is behind.
pub proof fn lemma_filled_pieces_are_used<A>(front: Seq<A>, separator: A, behind: Seq<A>)
    requires
        !front.contains(separator),
    ensures
        split_nonempty(front + seq![separator] + behind, separator) == (if front.len() > 0 {
            seq![front]
        } else {
            Seq::empty()
        }) + split_nonempty(behind, separator),
        split_nonempty(front, separator) == (if front.len() > 0 {
            seq![front]
        } else {
            Seq::empty()
        }),
{
    let text = front + seq![separator] + behind;
    let cut = front.len() as int;
    assert(text[cut] == separator);
    assert forall|i: int| 0 <= i < cut implies text[i] != separator by {
        assert(text[i] == front[i]);
    }
    lemma_index_of_first(text, separator, cut);
    assert(text.contains(separator));
    assert(text.take(cut) =~= front);
    assert(text.skip(cut + 1) =~= behind);
    let filled = |piece: Seq<A>| piece.len() > 0;
    let first = seq![front];
    Seq::filter_distributes_over_add(first, split(behind, separator), filled);
    reveal(Seq::filter);
    assert(first.drop_last() =~= Seq::<Seq<A>>::empty());
    assert(first.drop_last().filter(filled) =~= Seq::<Seq<A>>::empty());
    assert(first.filter(filled) =~= (if front.len() > 0 {
        seq![front]
    } else {
        Seq::empty()
    }));
    assert(split(front, separator) == first);
}

/// A text is cut at the first separator, which belongs to neither part, and is not cut where
/// there is none.
pub proof fn lemma_texts_are_cut_once(front: Seq<char>, separator: char, behind: Seq<char>)
    requires
        !front.contains(separator),
    ensures
        split_once(front + seq![separator] + behind, separator) == Some((front, behind)),
        split_once(front, separator) is None,
{
    let text = front + seq![separator] + behind;
    let cut = front.len() as int;
    assert(text[cut] == separator);
    assert forall|i: int| 0 <= i < cut implies text[i] != separator by {
        assert(text[i] == front[i]);
    }
    lemma_index_of_first(text, separator, cut);
    assert(text.take(cut) =~= front);
    assert(text.skip(cut + 1) =~= behind);
    front.index_of_first_ensures(separator);
}

/// A text without white space: a word.
pub open spec fn is_word(text: Seq<char>) -> bool {
    text.len() > 0 && forall|i: int|
        0 <= i < text.len() ==> !is_whitespace(#[trigger] text[i])
}

/// White space in front of words is skipped, a word ends where white space follows or the
/// text does, and the words behind follow.
pub proof fn lemma_words_are_told_apart(word: Seq<char>, space: char, behind: Seq<char>)
    requires
        is_word(word),
        is_whitespace(space),
    ensures
        words(seq![space] + behind) == words(behind),
        words(word) == seq![word],
        words(word + seq![space] + behind) == seq![word] + words(behind),
        words(Seq::<char>::empty()) == Seq::<Seq<char>>::empty(),
{
    lemma_spaces_are_skipped(space, behind);
    let empty = Seq::<char>::empty();
    assert(empty.skip(0) =~= empty);
    assert(words(empty) == Seq::<Seq<char>>::empty());
    lemma_word_is_first(word, empty);
    assert(word + empty =~= word);
    let rest = seq![space] + behind;
    assert(rest[0] == space);
    lemma_word_is_first(word, rest);
    assert(word + rest =~= word + seq![space] + behind);
}

proof fn lemma_spaces_are_skipped(space: char, behind: Seq<char>)
    requires
        is_whitespace(space),
    ensures
        words(seq![space] + behind) == words(behind),
{
    let text = seq![space] + behind;
    assert(text[0] == space);
    assert(text.skip(1) =~= behind);
    lemma_word_start(behind);
    assert(word_start(text) == 1 + word_start(behind));
    assert(text.skip(word_start(text)) =~= behind.skip(word_start(behind)));
}

proof fn lemma_word_start(text: Seq<char>)
    ensures
        0 <= word_start(text) <= text.len(),
    decreases text.len(),
{
    if text.len() > 0 && is_whitespace(text[0]) {
        lemma_word_start(text.skip(1));
    }
}

proof fn lemma_word_is_first(word: Seq<char>, rest: Seq<char>)
    requires
        is_word(word),
        rest.len() > 0 ==> is_whitespace(rest[0]),
    ensures
        words(word + rest) == seq![word] + words(rest),
{
    let text = word + rest;
    assert(text[0] == word[0]);
    assert(word_start(text) == 0);
    assert(text.skip(0) =~= text);
    lemma_word_end(word, rest);
    assert(text.take(word.len() as int) =~= word);
    assert(text.skip(word.len() as int) =~= rest);
}

proof fn lemma_word_end(word: Seq<char>, rest: Seq<char>)
    requires
        forall|i: int| 0 <= i < word.len() ==> !is_whitespace(#[trigger] word[i]),
        rest.len() > 0 ==> is_whitespace(rest[0]),
    ensures
        word_end(word + rest) == word.len(),
    decreases word.len(),
{
    let text = word + rest;
    if word.len() == 0 {
        assert(text =~= rest);
    } else {
        assert(text[0] == word[0]);
        assert(text.skip(1) =~= word.skip(1) + rest);
        assert forall|i: int| 0 <= i < word.skip(1).len() implies !is_whitespace(
            #[trigger] word.skip(1)[i],
        ) by {
            assert(word.skip(1)[i] == word[i + 1]);
        }
        lemma_word_end(word.skip(1), rest);
    }
}

/// Of the characters that keyboards have, the space, the tab and the ends of lines and pages
/// are white space.
pub proof fn lemma_plain_white_space(character: char)
    requires
        (character as u32) < 0x80,
    ensures
        is_whitespace(character) <==> character == ' ' || 9 <= character as u32 <= 13,
{
}

/// The name of a file is what stands behind the last slash, whatever directories stand in
/// front; a slash or a dot that follows it changes nothing, and a way up names no file.
pub proof fn lemma_files_are_named_last(directory: Seq<char>, name: Seq<char>)
    requires
        name.len() > 0,
        !name.contains('/'),
    ensures
        name != "."@ && name != ".."@ ==> path_file_name(directory + seq!['/'] + name) == Some(
            name,
        ) && path_file_name(name) == Some(name),
        path_file_name(directory + seq!['/'] + ".."@) is None,
        path_file_name(directory + seq!['/']) == path_file_name(directory),
        path_file_name(directory + seq!['/'] + "."@) == path_file_name(directory),
{
    let empty = Seq::<char>::empty();
    reveal_strlit(".");
    reveal_strlit("..");
    lemma_pieces_behind(directory, '/', name);
    lemma_pieces_behind(directory, '/', empty);
    assert(directory + seq!['/'] + empty =~= directory + seq!['/']);
    lemma_pieces_behind(directory, '/', "."@);
    lemma_pieces_behind(directory, '/', ".."@);
    lemma_filled_pieces_are_used(name, '/', empty);
    assert("."@ != ".."@) by {
        assert("."@.len() != ".."@.len());
    }
    let before = split_nonempty(directory, '/');
    assert(before + Seq::<Seq<char>>::empty() =~= before);
    assert((before + seq![name]).drop_last() =~= before);
    assert((before + seq!["."@]).drop_last() =~= before);
    assert((before + seq![".."@]).last() == ".."@);
    assert((before + seq![name]).last() == name);
    assert(seq![name].last() == name);
}

/// The pieces of a text with something behind it: those of the text, and what is behind.
proof fn lemma_pieces_behind(text: Seq<char>, separator: char, behind: Seq<char>)
    requires
        !behind.contains(separator),
    ensures
        split_nonempty(text + seq![separator] + behind, separator) == split_nonempty(
            text,
            separator,
        ) + (if behind.len() > 0 {
            seq![behind]
        } else {
            Seq::empty()
        }),
    decreases text.len(),
{
    let none = Seq::<Seq<char>>::empty();
    lemma_filled_pieces_are_used(behind, separator, behind);
    if text.contains(separator) {
        text.index_of_first_ensures(separator);
        let cut = text.index_of_first(separator)->0;
        let front = text.take(cut);
        let rest = text.skip(cut + 1);
        lemma_filled_pieces_are_used(front, separator, rest);
        lemma_filled_pieces_are_used(front, separator, rest + seq![separator] + behind);
        lemma_pieces_behind(rest, separator, behind);
        assert(text =~= front + seq![separator] + rest);
        assert(text + seq![separator] + behind =~= front + seq![separator] + (rest + seq![separator]
            + behind));
    } else {
        lemma_filled_pieces_are_used(text, separator, behind);
        assert(none + split_nonempty(behind, separator) =~= split_nonempty(behind, separator));
    }
}

/// The extension of a name is what stands behind its last dot; a name without a dot, or with
/// one in front only, has none.
pub proof fn lemma_extensions_follow_dots(stem: Seq<char>, extension: Seq<char>)
    requires
        !extension.contains('.'),
    ensures
        stem.len() > 0 ==> name_extension(stem + seq!['.'] + extension) == Some(extension),
        name_extension(seq!['.'] + extension) is None,
        name_extension(extension) is None,
{
    let name = stem + seq!['.'] + extension;
    name.index_of_last_ensures('.');
    assert(name[stem.len() as int] == '.');
    assert forall|i: int| stem.len() < i < name.len() implies name[i] != '.' by {
        assert(name[i] == extension[i - stem.len() - 1]);
    }
    assert(name.index_of_last('.') == Some(stem.len() as int));
    assert(name.skip(stem.len() as int + 1) =~= extension);
    let hidden = seq!['.'] + extension;
    hidden.index_of_last_ensures('.');
    assert(hidden[0] == '.');
    assert forall|i: int| 0 < i < hidden.len() implies hidden[i] != '.' by {
        assert(hidden[i] == extension[i - 1]);
    }
    extension.index_of_last_ensures('.');
}

/// Capitals become small letters, and nothing else changes.
pub proof fn lemma_capitals_become_small(character: char)
    ensures
        65 <= character as u32 <= 90 ==> ascii_lowercase(character) as u32 == character as u32 + 32,
        !(65 <= character as u32 <= 90) ==> ascii_lowercase(character) == character,
        ascii_lowercase(ascii_lowercase(character)) == ascii_lowercase(character),
{
}

} // verus!
