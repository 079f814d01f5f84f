use fallible::version::{parse_version, Version};

#[test]
fn header_starting_with_one_is_version_one() {
    assert_eq!(parse_version(&[1, 2, 3, 4]), Ok(Version::Version1));
}

#[test]
fn header_starting_with_two_is_version_two() {
    assert_eq!(parse_version(&[2]), Ok(Version::Version2));
    assert_eq!(parse_version(&[2, 1]), Ok(Version::Version2));
}

#[test]
fn empty_header_has_an_invalid_length() {
    assert_eq!(parse_version(&[]), Err("invalid header length"));
}

#[test]
fn unknown_first_byte_is_an_invalid_version() {
    assert_eq!(parse_version(&[3]), Err("invalid version"));
    assert_eq!(parse_version(&[0, 1]), Err("invalid version"));
    assert_eq!(parse_version(&[255, 2, 2]), Err("invalid version"));
}

#[test]
fn only_the_first_byte_decides() {
    for first in 0..=255u8 {
        let alone = parse_version(&[first]);
        let followed = parse_version(&[first, 1, 2, 9]);
        assert_eq!(alone, followed);
        assert_eq!(alone.is_ok(), first == 1 || first == 2);
    }
}
