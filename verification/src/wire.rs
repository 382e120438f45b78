//! Helpers for Wayland arguments: 64-bit values split into words, and arrays of words.

use vstd::prelude::*;

verus! {

/// The value a `(high, low)` pair of words stands for.
pub open spec fn word_value(high: u32, low: u32) -> int {
    high * 0x1_0000_0000 + low
}

/// The upper half of a value.
pub open spec fn high_word(value: u64) -> u32 {
    (value / 0x1_0000_0000) as u32
}

/// The lower half of a value.
pub open spec fn low_word(value: u64) -> u32 {
    (value % 0x1_0000_0000) as u32
}

/// Joins a high and low 32-bit word in that order.
#[must_use]
pub fn join_u64(high: u32, low: u32) -> (value: u64)
    ensures
        value == word_value(high, low),
{
    assert((((high as u64) << 32) | (low as u64)) == (high as u64) * 0x1_0000_0000u64 + (
    low as u64)) by (bit_vector);
    ((high as u64) << 32) | low as u64
}

/// Splits a value into `(high, low)` words.
#[must_use]
pub fn split_u64(value: u64) -> (words: (u32, u32))
    ensures
        words == (high_word(value), low_word(value)),
        value == word_value(words.0, words.1),
{
    assert(value == ((value >> 32) as u32) as u64 * 0x1_0000_0000u64 + (value as u32) as u64)
        by (bit_vector);
    ((value >> 32) as u32, value as u32)
}

/// A pair of words is fixed by its value, so splitting and joining are inverse to
/// each other in both directions.
pub proof fn lemma_word_value_injective(high1: u32, low1: u32, high2: u32, low2: u32)
    requires
        word_value(high1, low1) == word_value(high2, low2),
    ensures
        high1 == high2,
        low1 == low2,
{
}

/// Joining the halves of a value gives it back, and the halves of a joined value are
/// its words.
pub proof fn lemma_split_and_join(value: u64, high: u32, low: u32)
    ensures
        word_value(high_word(value), low_word(value)) == value,
        high_word(word_value(high, low) as u64) == high,
        low_word(word_value(high, low) as u64) == low,
{
}

/// The byte of a word that has the weight `256^index`.
pub open spec fn byte_of(word: u32, index: int) -> u8 {
    if index == 0 {
        (word % 0x100) as u8
    } else if index == 1 {
        (word / 0x100 % 0x100) as u8
    } else if index == 2 {
        (word / 0x1_0000 % 0x100) as u8
    } else {
        (word / 0x100_0000) as u8
    }
}

/// The four bytes of a word, least significant first if `little`.
pub open spec fn word_bytes(word: u32, little: bool) -> Seq<u8> {
    if little {
        seq![byte_of(word, 0), byte_of(word, 1), byte_of(word, 2), byte_of(word, 3)]
    } else {
        seq![byte_of(word, 3), byte_of(word, 2), byte_of(word, 1), byte_of(word, 0)]
    }
}

/// The word made of four bytes, least significant first if `little`.
pub open spec fn word_from(bytes: Seq<u8>, little: bool) -> u32 {
    if little {
        (bytes[0] + bytes[1] * 0x100 + bytes[2] * 0x1_0000 + bytes[3] * 0x100_0000) as u32
    } else {
        (bytes[3] + bytes[2] * 0x100 + bytes[1] * 0x1_0000 + bytes[0] * 0x100_0000) as u32
    }
}

/// The words of an array of bytes; up to three bytes at its end belong to none.
pub open spec fn words_in(bytes: Seq<u8>, little: bool) -> Seq<u32> {
    Seq::new(
        (bytes.len() / 4) as nat,
        |i: int| word_from(bytes.subrange(4 * i, 4 * i + 4), little),
    )
}

/// The bytes of an array of words.
pub open spec fn bytes_in(words: Seq<u32>, little: bool) -> Seq<u8> {
    Seq::new(words.len() * 4, |i: int| word_bytes(words[i / 4], little)[i % 4])
}

/// A word with its bytes in the other order.
pub open spec fn swapped(word: u32) -> u32 {
    word_from(word_bytes(word, true), false)
}

/// `u32::to_le`: the word itself on a machine that puts the least significant byte first,
/// and the word with its bytes in the other order on one that puts it last.
pub assume_specification[ u32::to_le ](word: u32) -> (converted: u32)
    ensures
        converted == word || converted == swapped(word),
;

/// Whether this machine puts the least significant byte of a word first, as `u32::to_le`
/// tells: it leaves the number one alone exactly then.
pub open spec fn is_native_order(little: bool) -> bool {
    exists|one: u32| #[trigger] call_ensures(u32::to_le, (1u32,), one) && little == (one == 1)
}

/// Whether this machine puts the least significant byte of a word first.
#[must_use]
pub fn native_is_little() -> (little: bool)
    ensures
        is_native_order(little),
{
    1u32.to_le() == 1
}

/// Read an array of words. Bytes after the last whole word are ignored.
#[must_use]
pub fn words_from_bytes(bytes: &[u8], little: bool) -> (words: Vec<u32>)
    ensures
        words@ == words_in(bytes@, little),
{
    let mut words: Vec<u32> = Vec::new();
    let length: usize = bytes.len();
    let count: usize = length / 4;
    let mut i: usize = 0;
    while i < count
        invariant
            length == bytes@.len(),
            i <= count == length / 4,
            words@.len() == i,
            forall|j: int| 0 <= j < i ==> words@[j] == words_in(bytes@, little)[j],
        decreases count - i,
    {
        let ghost chunk = bytes@.subrange(4 * i, 4 * i + 4);
        assert(chunk[0] == bytes@[4 * i]);
        assert(chunk[1] == bytes@[4 * i + 1]);
        assert(chunk[2] == bytes@[4 * i + 2]);
        assert(chunk[3] == bytes@[4 * i + 3]);
        let a: u32 = bytes[4 * i] as u32;
        let b: u32 = bytes[4 * i + 1] as u32;
        let c: u32 = bytes[4 * i + 2] as u32;
        let d: u32 = bytes[4 * i + 3] as u32;
        if little {
            words.push(a + b * 0x100 + c * 0x1_0000 + d * 0x100_0000);
        } else {
            words.push(d + c * 0x100 + b * 0x1_0000 + a * 0x100_0000);
        }
        i = i + 1;
    }
    assert(words@ =~= words_in(bytes@, little));
    words
}

/// Write an array of words.
#[must_use]
pub fn bytes_from_words(words: &[u32], little: bool) -> (bytes: Vec<u8>)
    ensures
        bytes@ == bytes_in(words@, little),
{
    let mut bytes: Vec<u8> = Vec::new();
    let mut i: usize = 0;
    while i < words.len()
        invariant
            i <= words@.len(),
            bytes@.len() == 4 * i,
            forall|j: int|
                0 <= j < 4 * i ==> #[trigger] bytes@[j] == word_bytes(words@[j / 4], little)[j % 4],
        decreases words@.len() - i,
    {
        let word: u32 = words[i];
        let a: u8 = (word % 0x100) as u8;
        let b: u8 = (word / 0x100 % 0x100) as u8;
        let c: u8 = (word / 0x1_0000 % 0x100) as u8;
        let d: u8 = (word / 0x100_0000) as u8;
        if little {
            bytes.push(a);
            bytes.push(b);
            bytes.push(c);
            bytes.push(d);
        } else {
            bytes.push(d);
            bytes.push(c);
            bytes.push(b);
            bytes.push(a);
        }
        i = i + 1;
    }
    assert(bytes@ =~= bytes_in(words@, little));
    bytes
}

/// An array of words survives the trip through bytes in either order.
pub proof fn lemma_words_round_trip(words: Seq<u32>, little: bool)
    ensures
        words_in(bytes_in(words, little), little) == words,
{
    let bytes = bytes_in(words, little);
    assert forall|i: int| 0 <= i < words.len() implies word_from(
        #[trigger] bytes.subrange(4 * i, 4 * i + 4),
        little,
    ) == words[i] by {
        let chunk = bytes.subrange(4 * i, 4 * i + 4);
        assert forall|k: int| 0 <= k < 4 implies #[trigger] chunk[k] == word_bytes(
            words[i],
            little,
        )[k] by {
            assert((4 * i + k) / 4 == i && (4 * i + k) % 4 == k);
        }
        let word = words[i];
        assert(word == word % 0x100 + (word / 0x100 % 0x100) * 0x100 + (word / 0x1_0000 % 0x100)
            * 0x1_0000 + (word / 0x100_0000) * 0x100_0000);
    }
    assert(words_in(bytes, little) =~= words);
}

/// A word is written byte by byte, the lowest first where the machine is little-endian and the
/// highest first where it is not, and is read in the same way.
pub proof fn lemma_words_are_written_in_order(word: u32, bytes: Seq<u8>)
    requires
        bytes.len() == 4,
    ensures
        ({
            let little = word_bytes(word, true);
            let big = word_bytes(word, false);
            &&& little.len() == 4 && big.len() == 4
            &&& little[0] + little[1] * 256 + little[2] * 65_536 + little[3] * 16_777_216 == word
            &&& big[3] + big[2] * 256 + big[1] * 65_536 + big[0] * 16_777_216 == word
            &&& word_from(bytes, true) == bytes[0] + bytes[1] * 256 + bytes[2] * 65_536 + bytes[3]
                * 16_777_216
            &&& word_from(bytes, false) == bytes[3] + bytes[2] * 256 + bytes[1] * 65_536 + bytes[0]
                * 16_777_216
        }),
{
}

/// Every four bytes make a word, in order; what is left behind the last four is dropped.
pub proof fn lemma_bytes_are_read_by_fours(bytes: Seq<u8>, little: bool, i: int)
    requires
        0 <= i,
        4 * i + 4 <= bytes.len(),
    ensures
        4 * words_in(bytes, little).len() <= bytes.len() < 4 * words_in(bytes, little).len() + 4,
        words_in(bytes, little)[i] == word_from(
            seq![bytes[4 * i], bytes[4 * i + 1], bytes[4 * i + 2], bytes[4 * i + 3]],
            little,
        ),
{
    assert(bytes.subrange(4 * i, 4 * i + 4) =~= seq![
        bytes[4 * i],
        bytes[4 * i + 1],
        bytes[4 * i + 2],
        bytes[4 * i + 3],
    ]);
}

/// The two halves of a long number, the high one worth two to the thirty-second.
pub proof fn lemma_halves_make_the_number(value: u64, high: u32, low: u32)
    ensures
        high_word(value) * 4_294_967_296 + low_word(value) == value,
        word_value(high, low) == high * 4_294_967_296 + low,
{
}

/// A machine that puts the least significant byte first is one on which the number one is the
/// same in either order, and only such a machine is.
pub proof fn lemma_native_order_is_told_by_one(little: bool)
    requires
        is_native_order(little),
    ensures
        little ==> call_ensures(u32::to_le, (1u32,), 1u32),
        !little ==> exists|one: u32| #[trigger] call_ensures(u32::to_le, (1u32,), one) && one != 1,
{
}

} // verus!
