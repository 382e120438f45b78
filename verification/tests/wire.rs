use gamescope::wire::{
    bytes_from_words, join_u64, native_is_little, split_u64, words_from_bytes,
};

#[test]
fn split_and_join_are_inverses() {
    for value in [
        0,
        1,
        u64::from(u32::MAX),
        1_u64 << 32,
        0x0123_4567_89ab_cdef,
        u64::MAX,
    ] {
        let (high, low) = split_u64(value);
        assert_eq!(join_u64(high, low), value);
    }
}

#[test]
fn words_and_bytes_have_a_byte_order() {
    assert_eq!(split_u64(0x0123_4567_89ab_cdef), (0x0123_4567, 0x89ab_cdef));
    assert_eq!(bytes_from_words(&[0x0102_0304], true), [4, 3, 2, 1]);
    assert_eq!(bytes_from_words(&[0x0102_0304], false), [1, 2, 3, 4]);
    assert_eq!(words_from_bytes(&[4, 3, 2, 1, 9], true), [0x0102_0304]);
}

#[test]
fn words_come_back_from_native_bytes() {
    let words = [0, 1, 0xdead_beef, u32::MAX];
    let little = native_is_little();
    let bytes = bytes_from_words(&words, little);
    assert_eq!(bytes[4..8], 1_u32.to_ne_bytes());
    assert_eq!(words_from_bytes(&bytes, little), words);
}

#[test]
fn the_byte_order_is_that_of_the_machine() {
    assert_eq!(native_is_little(), 1_u32.to_ne_bytes()[0] == 1);
    assert_eq!(
        bytes_from_words(&[0x0102_0304], native_is_little()),
        0x0102_0304_u32.to_ne_bytes()
    );
}
