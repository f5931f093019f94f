use c_ares::version::{pack_version, parse_version, version, version_agrees};

#[test]
fn a_version_is_packed_eight_bits_each() {
    assert_eq!(pack_version(1, 2, 3), 0x010203);
    assert_eq!(pack_version(1, 2, 3), 66051);
    assert_eq!(pack_version(0, 0, 0), 0);
    assert_eq!(pack_version(255, 255, 255), 0xffffff);
    assert_eq!(pack_version(1, 34, 5), 0x012205);
}

#[test]
fn a_version_text_is_read_as_its_packed_number() {
    assert_eq!(parse_version("1.2.3"), Some(0x010203));
    assert_eq!(parse_version("1.34.5"), Some(0x012205));
    assert_eq!(parse_version("0.0.0"), Some(0));
    assert_eq!(parse_version("255.255.255"), Some(0xffffff));
    assert_eq!(parse_version("10.20.30"), Some(0x0a141e));
    assert_eq!(parse_version("01.002.3"), Some(0x010203));
}

#[test]
fn a_text_that_is_no_version_gives_nothing() {
    assert_eq!(parse_version(""), None);
    assert_eq!(parse_version("1"), None);
    assert_eq!(parse_version("1.2"), None);
    assert_eq!(parse_version("1.2."), None);
    assert_eq!(parse_version(".2.3"), None);
    assert_eq!(parse_version("1..3"), None);
    assert_eq!(parse_version("1.2.3.4"), None);
    assert_eq!(parse_version("1.2.3-dev"), None);
    assert_eq!(parse_version("256.0.0"), None);
    assert_eq!(parse_version("1.999.0"), None);
    assert_eq!(parse_version("1.2.0003"), None);
    assert_eq!(parse_version("a.b.c"), None);
    assert_eq!(parse_version(" 1.2.3"), None);
    assert_eq!(parse_version("1.2.\u{663}"), None);
}

#[test]
fn every_version_reads_back_from_its_text() {
    let samples: [(u8, u8, u8); 6] =
        [(1, 2, 3), (0, 0, 0), (255, 255, 255), (9, 10, 99), (100, 101, 199), (1, 33, 1)];
    for (major, minor, patch) in samples {
        let text = format!("{}.{}.{}", major, minor, patch);
        assert_eq!(parse_version(&text), Some(pack_version(major, minor, patch)));
        assert!(version_agrees(&text, pack_version(major, minor, patch)));
    }
}

#[test]
fn text_and_number_must_agree() {
    assert!(version_agrees("1.2.3", 0x010203));
    assert!(!version_agrees("1.2.3", 0x010204));
    assert!(!version_agrees("1.2", 0x010200));
}

#[test]
fn the_version_is_handed_on() {
    assert_eq!(version("1.34.5", 0x012205), ("1.34.5", 0x012205));
    assert_eq!(version("", 0), ("", 0));
    assert_eq!(version("odd", -1), ("odd", u32::MAX));
}
