use rustymd5::rounds::{rotate_left32, wrapping_add32, RoundFn};
use rustymd5::words::{u8_to_u32_array, words_to_hex};

#[test]
fn packs_little_endian_words() {
    assert_eq!(
        u8_to_u32_array(&[1, 2, 3, 4, 5]),
        vec![0x04030201, 0x00000005]
    );
    assert_eq!(u8_to_u32_array(&[0x80]), vec![0x80]);
    assert!(u8_to_u32_array(&[]).is_empty());
}

#[test]
fn renders_words_as_uppercase_hex() {
    assert_eq!(
        words_to_hex(&[0x04030201, 0xEFCDAB89]),
        "0102030489ABCDEF"
    );
    assert_eq!(words_to_hex(&[]), "");
}

#[test]
fn round_function_per_step() {
    assert_eq!(RoundFn::for_step(0), RoundFn::F);
    assert_eq!(RoundFn::for_step(15), RoundFn::F);
    assert_eq!(RoundFn::for_step(16), RoundFn::G);
    assert_eq!(RoundFn::for_step(47), RoundFn::H);
    assert_eq!(RoundFn::for_step(63), RoundFn::I);
    assert_eq!(
        RoundFn::G.apply(0x2C34DFA2, 0xDE1673BE, 0x4B976282),
        0x9C1453BE
    );
}

#[test]
fn wraparound_and_rotation() {
    assert_eq!(wrapping_add32(0xFFFFFFFF, 2), 1);
    assert_eq!(rotate_left32(0x80000001, 1), 0x00000003);
    assert_eq!(rotate_left32(0x12345678, 8), 0x34567812);
}

#[test]
fn rotation_by_any_amount() {
    assert_eq!(rotate_left32(0x12345678, 0), 0x12345678);
    assert_eq!(rotate_left32(0x12345678, 32), 0x12345678);
    assert_eq!(rotate_left32(0x12345678, 40), 0x34567812);
    assert_eq!(rotate_left32(0x80000001, 31), 0xC0000000);
    for s in [0u32, 1, 5, 31, 32, 33, 100, u32::MAX] {
        assert_eq!(rotate_left32(0xDEADBEEF, s), 0xDEADBEEFu32.rotate_left(s));
    }
}
