use rustymd5::search::{has_zero_prefix, push_decimal, scan};

#[test]
fn decimal_digits() {
    let mut out: Vec<u8> = b"k".to_vec();
    push_decimal(&mut out, 0);
    assert_eq!(out, b"k0".to_vec());
    let mut out: Vec<u8> = Vec::new();
    push_decimal(&mut out, 4294967295);
    assert_eq!(out, b"4294967295".to_vec());
    let mut out: Vec<u8> = Vec::new();
    push_decimal(&mut out, 117946);
    assert_eq!(out, b"117946".to_vec());
}

#[test]
fn zero_prefix_checks() {
    assert!(has_zero_prefix("000001DBBFA3A5C83A2D506429C7B00E", 5));
    assert!(!has_zero_prefix("000001DBBFA3A5C83A2D506429C7B00E", 6));
    assert!(has_zero_prefix("anything", 0));
    assert!(!has_zero_prefix("000", 4));
}

#[test]
fn scan_finds_five_zero_secret() {
    let report = scan("ckczppom", 0, 117947);
    assert_eq!(report.fives, vec![117946]);
    assert_eq!(report.six, None);
}

#[test]
fn scan_finds_six_zero_secret() {
    let report = scan("ckczppom", 3938000, 3939000);
    assert_eq!(report.six, Some(3938038));
    assert_eq!(report.fives.last(), Some(&3938038));
}

#[test]
fn scan_empty_range() {
    let report = scan("ckczppom", 10, 10);
    assert!(report.fives.is_empty());
    assert_eq!(report.six, None);
}
