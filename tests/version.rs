use std::cmp::Ordering;

use pgdo::version::PartialVersion;
use pgdo::version::Version::{self, Post10, Pre10};
use pgdo::version::VersionError::{BadlyFormed, NotFound};

#[test]
fn parses_version_below_10() {
    assert_eq!(Ok(Pre10(9, 6, 17)), "9.6.17".parse());
}

#[test]
fn parses_version_above_10() {
    assert_eq!(Ok(Post10(12, 2)), "12.2".parse());
}

#[test]
fn parse_returns_error_when_version_is_invalid() {
    // 4294967296 is 2^32, so won't fit in a u32.
    assert!(matches!(
        "4294967296.0".parse::<Version>(),
        Err(BadlyFormed { .. })
    ));
}

#[test]
fn parse_returns_error_when_version_not_found() {
    assert!(matches!("foo".parse::<Version>(), Err(NotFound { .. })));
}

#[test]
fn displays_version_below_10() {
    assert_eq!("9.6.17", Pre10(9, 6, 17).to_string());
}

#[test]
fn displays_version_above_10() {
    assert_eq!("12.2", Post10(12, 2).to_string());
}

#[test]
fn derive_partial_ord_works_as_expected() {
    assert_eq!(Pre10(9, 10, 11).partial_cmp(&Post10(10, 11)), Some(Ordering::Less));
    assert_eq!(Post10(10, 11).partial_cmp(&Pre10(9, 10, 11)), Some(Ordering::Greater));
    assert_eq!(Pre10(9, 10, 11).partial_cmp(&Pre10(9, 10, 11)), Some(Ordering::Equal));
    assert_eq!(Post10(10, 11).partial_cmp(&Post10(10, 11)), Some(Ordering::Equal));
}

#[test]
fn derive_ord_works_as_expected() {
    let mut versions = vec![
        Pre10(9, 10, 11),
        Post10(10, 11),
        Post10(14, 2),
        Pre10(9, 10, 12),
        Post10(10, 12),
    ];
    versions.sort(); // Uses `Ord`.
    assert_eq!(
        versions,
        vec![
            Pre10(9, 10, 11),
            Pre10(9, 10, 12),
            Post10(10, 11),
            Post10(10, 12),
            Post10(14, 2)
        ]
    );
}

#[test]
fn parses_version_from_pg_ctl_output() {
    assert_eq!(Ok(Post10(14, 2)), Version::parse("pg_ctl (PostgreSQL) 14.2"));
    assert_eq!(Ok(Pre10(9, 6, 17)), Version::parse("9.6.17"));
    assert!(Pre10(9, 6, 17) < Post10(10, 0));
}

#[test]
fn parse_takes_the_first_version_between_word_boundaries() {
    assert_eq!(Ok(Post10(13, 4)), Version::parse("x13.4 13.4 and 15.1"));
    assert_eq!(Ok(Post10(16, 0)), Version::parse("v 16.0, built 2024"));
    assert_eq!(Ok(Post10(16, 0)), Version::parse("16.0.x"));
}

#[test]
fn parse_rejects_crossing_the_boundary() {
    assert!(matches!(Version::parse("10.1.2"), Err(BadlyFormed { .. })));
    assert!(matches!(Version::parse("9.6"), Err(BadlyFormed { .. })));
    assert!(matches!(Version::parse(""), Err(NotFound { .. })));
    assert!(matches!(Version::parse("9."), Err(NotFound { .. })));
}

#[test]
fn parse_error_keeps_the_text() {
    let error = Version::parse("10.1.2").unwrap_err();
    assert_eq!(Some("10.1.2"), error.text());
    let error = Version::parse("nothing here").unwrap_err();
    assert_eq!(Some("nothing here"), error.text());
    assert_eq!(None, BadlyFormed { text: None }.text());
}

#[test]
fn display_then_parse_round_trips() {
    for v in [Pre10(9, 0, 0), Pre10(9, 6, 24), Post10(10, 0), Post10(4294967295, 7)] {
        assert_eq!(Ok(v), Version::parse(&v.to_string()));
    }
}

#[test]
fn compare_orders_lexicographically_within_a_variant() {
    assert_eq!(Ordering::Less, Post10(10, 12).compare(&Post10(11, 0)));
    assert_eq!(Ordering::Greater, Pre10(9, 6, 1).compare(&Pre10(9, 5, 30)));
    assert_eq!(Ordering::Less, Pre10(9, 9, 9).compare(&Post10(10, 0)));
}

#[test]
fn partial_version_parses_pg_version_files() {
    assert_eq!(Ok(PartialVersion::Post10m(14)), PartialVersion::parse("14\n"));
    assert_eq!(Ok(PartialVersion::Pre10mm(9, 6)), PartialVersion::parse("9.6\n"));
    assert_eq!(Ok(PartialVersion::Post10mm(13, 2)), "13.2".parse());
    assert_eq!(Ok(PartialVersion::Pre10mmm(9, 6, 3)), PartialVersion::parse(" 9.6.3 "));
    assert_eq!(Ok(PartialVersion::Pre10m(9)), PartialVersion::parse("9"));
    assert!(matches!(PartialVersion::parse("  \n"), Err(NotFound { .. })));
    assert!(matches!(PartialVersion::parse("14.1.1"), Err(BadlyFormed { .. })));
    assert!(matches!(PartialVersion::parse("14a"), Err(BadlyFormed { .. })));
    assert!(matches!(PartialVersion::parse("99999999999"), Err(BadlyFormed { .. })));
}

#[test]
fn partial_version_compatibility() {
    assert!(PartialVersion::Post10m(14).compatible(Post10(14, 2)));
    assert!(!PartialVersion::Post10m(14).compatible(Post10(15, 2)));
    assert!(PartialVersion::Post10mm(14, 2).compatible(Post10(14, 2)));
    assert!(!PartialVersion::Post10mm(14, 2).compatible(Post10(14, 3)));
    assert!(PartialVersion::Pre10mm(9, 6).compatible(Pre10(9, 6, 17)));
    assert!(!PartialVersion::Pre10mm(9, 6).compatible(Pre10(9, 5, 17)));
    assert!(PartialVersion::Pre10m(9).compatible(Pre10(9, 1, 1)));
    assert!(PartialVersion::Pre10mmm(9, 6, 17).compatible(Pre10(9, 6, 17)));
    assert!(!PartialVersion::Pre10mmm(9, 6, 17).compatible(Pre10(9, 6, 18)));
    assert!(!PartialVersion::Pre10m(9).compatible(Post10(10, 0)));
}
