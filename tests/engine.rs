use rustymd5::engine::MAX_MESSAGE_LEN;
use rustymd5::{f, g, h, i, MD5Context};

#[test]
fn test_bitwise_operations() {
    assert_eq!(f(0x89ABCDEF, 0xFEDCBA98, 0x76543210), 0xFEDCBA98);
    assert_eq!(g(0x2C34DFA2, 0xDE1673BE, 0x4B976282), 0x9C1453BE);
    assert_eq!(h(0xD5071367, 0xC058ADE2, 0x63C603D7), 0x7699BD52);
    assert_eq!(i(0x7D502063, 0x8B3D715D, 0x1DE3A739), 0x746109BA);
}

#[test]
fn test_expected_final_output() {
    let mut context = MD5Context::new();
    assert_eq!(
        context.digest("Fuck you MD5"),
        String::from("0CCA3D88C27D3C9F6B8A3C025F638687")
    );
}

#[test]
fn empty_message_digest() {
    let mut context = MD5Context::new();
    assert_eq!(context.digest(""), "D41D8CD98F00B204E9800998ECF8427E");
}

#[test]
fn empty_message_digest_after_reset() {
    let mut context = MD5Context::new();
    context.digest("abc");
    context.reset();
    assert_eq!(context.digest(""), "D41D8CD98F00B204E9800998ECF8427E");
}

#[test]
fn well_known_short_digests() {
    let mut context = MD5Context::new();
    assert_eq!(context.digest("a"), "0CC175B9C0F1B6A831C399E269772661");
    context.reset();
    assert_eq!(context.digest("abc"), "900150983CD24FB0D6963F7D28E17F72");
    context.reset();
    assert_eq!(
        context.digest("message digest"),
        "F96B697D7CB7938D525A2F31AAF161D0"
    );
    context.reset();
    assert_eq!(
        context.digest("abcdefghijklmnopqrstuvwxyz"),
        "C3FCD3D76192E4007DFB496CCA67E13B"
    );
}

#[test]
fn digest_is_repeatable_after_reset() {
    let mut context = MD5Context::new();
    let first = context.digest("ckczppom117946");
    context.reset();
    let second = context.digest("ckczppom117946");
    assert_eq!(first, second);
}

#[test]
fn digest_without_reset_carries_state() {
    let mut fresh = MD5Context::new();
    let expected = fresh.digest("abc");
    let mut reused = MD5Context::new();
    reused.digest("a");
    let chained = reused.digest("abc");
    assert_ne!(chained, expected);
}

#[test]
fn longest_message_fits_one_block() {
    let message = "x".repeat(MAX_MESSAGE_LEN);
    assert_eq!(message.len(), 55);
    let mut context = MD5Context::new();
    assert_eq!(context.digest(&message), "04364420E25C512FD958A70738AA8F72");
}

#[test]
fn search_candidates_digest() {
    let mut context = MD5Context::new();
    assert_eq!(
        context.digest("ckczppom117946"),
        "00000FE1C139A2C710E9A5C03EC1AF03"
    );
    context.reset();
    assert_eq!(
        context.digest("ckczppom3938038"),
        "00000028023E3B4729684757F8DC3FBF"
    );
}

#[test]
fn digest_is_thirty_two_uppercase_hex_digits() {
    let mut context = MD5Context::new();
    let hash = context.digest("The quick brown fox");
    assert_eq!(hash.len(), 32);
    assert!(hash
        .chars()
        .all(|c| c.is_ascii_digit() || ('A'..='F').contains(&c)));
    assert_eq!(hash, "A2004F37730B9445670A738FA0FC9EE5");
}

#[test]
fn digest_bytes_matches_digest() {
    let mut a = MD5Context::new();
    let mut b = MD5Context::new();
    assert_eq!(a.digest_bytes(b"abc"), b.digest("abc"));
}
