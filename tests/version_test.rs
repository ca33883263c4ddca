use phpvm::version::{install_key, PhpVersion, Variant, VersionError};
use std::cmp::Ordering;

#[test]
fn test_version_parsing() {
    let v = PhpVersion::from_string("8.2.0").unwrap();
    assert_eq!(v.major, 8);
    assert_eq!(v.minor, 2);
    assert_eq!(v.patch, 0);
    assert_eq!(v.suffix, None);
}

#[test]
fn test_version_with_suffix() {
    let v = PhpVersion::from_string("8.2.0-rc1").unwrap();
    assert_eq!(v.major, 8);
    assert_eq!(v.minor, 2);
    assert_eq!(v.patch, 0);
    assert_eq!(v.suffix, Some("rc1".to_string()));
}

#[test]
fn test_version_with_complex_suffix() {
    let v = PhpVersion::from_string("8.2.0-rc1-alpha").unwrap();
    assert_eq!(v.suffix, Some("rc1-alpha".to_string()));
}

#[test]
fn test_version_new() {
    let v = PhpVersion::new(8, 3, 1);
    assert_eq!(v.major, 8);
    assert_eq!(v.minor, 3);
    assert_eq!(v.patch, 1);
    assert_eq!(v.suffix, None);
}

#[test]
fn test_version_to_string() {
    let v = PhpVersion::new(8, 2, 0);
    assert_eq!(v.to_string(), "8.2.0");
}

#[test]
fn test_version_to_string_with_suffix() {
    let mut v = PhpVersion::new(8, 2, 0);
    v.suffix = Some("rc1".to_string());
    assert_eq!(v.to_string(), "8.2.0-rc1");
}

#[test]
fn test_version_directory_name() {
    let v = PhpVersion::new(8, 2, 0);
    assert_eq!(v.directory_name(), "php-8.2.0");
}

#[test]
fn test_version_directory_name_with_suffix() {
    let mut v = PhpVersion::new(8, 2, 0);
    v.suffix = Some("rc1".to_string());
    assert_eq!(v.directory_name(), "php-8.2.0-rc1");
}

#[test]
fn test_version_display() {
    let v = PhpVersion::new(8, 2, 0);
    assert_eq!(v.to_string(), "8.2.0");
}

#[test]
fn test_version_default() {
    let v = PhpVersion::default();
    assert_eq!(v.major, 0);
    assert_eq!(v.minor, 0);
    assert_eq!(v.patch, 0);
    assert_eq!(v.suffix, None);
}

#[test]
fn test_version_parsing_invalid_format() {
    assert!(PhpVersion::from_string("8.2").is_err());
    assert!(PhpVersion::from_string("8").is_err());
    assert!(PhpVersion::from_string("invalid").is_err());
}

#[test]
fn test_version_parsing_invalid_numbers() {
    assert!(PhpVersion::from_string("a.b.c").is_err());
    assert!(PhpVersion::from_string("8.b.0").is_err());
}

#[test]
fn version_test_version_comparison() {
    let v1 = PhpVersion::new(8, 2, 0);
    let v2 = PhpVersion::new(8, 3, 0);
    let v3 = PhpVersion::new(8, 2, 1);

    assert!(v1 < v2);
    assert!(v1 < v3);
    assert!(v2 > v1);
    assert!(v3 > v1);
}

#[test]
fn test_version_equality() {
    let v1 = PhpVersion::new(8, 2, 0);
    let v2 = PhpVersion::new(8, 2, 0);
    assert_eq!(v1, v2);
}

#[test]
fn test_version_parsing_various_versions() {
    let test_cases = vec![
        ("7.4.33", (7, 4, 33, None)),
        ("8.0.30", (8, 0, 30, None)),
        ("8.1.27", (8, 1, 27, None)),
        ("8.2.15", (8, 2, 15, None)),
        ("8.3.2", (8, 3, 2, None)),
        ("8.4.0", (8, 4, 0, None)),
    ];

    for (input, (major, minor, patch, suffix)) in test_cases {
        let v = PhpVersion::from_string(input).unwrap();
        assert_eq!(v.major, major);
        assert_eq!(v.minor, minor);
        assert_eq!(v.patch, patch);
        assert_eq!(v.suffix, suffix);
    }
}

#[test]
fn test_version_parsing_public_api() {
    let v = PhpVersion::from_string("8.2.0").unwrap();
    assert_eq!(v.major, 8);
    assert_eq!(v.minor, 2);
    assert_eq!(v.patch, 0);
    assert_eq!(v.suffix, None);
}

#[test]
fn test_version_with_suffix_public_api() {
    let v = PhpVersion::from_string("8.2.0-rc1").unwrap();
    assert_eq!(v.suffix, Some("rc1".to_string()));
}

#[test]
fn test_version_to_string_public_api() {
    let v = PhpVersion::new(8, 2, 0);
    assert_eq!(v.to_string(), "8.2.0");
}

#[test]
fn test_version_directory_name_public_api() {
    let v = PhpVersion::new(8, 2, 0);
    assert_eq!(v.directory_name(), "php-8.2.0");
}

#[test]
fn test_version_comparison_public_api() {
    let v1 = PhpVersion::new(8, 2, 0);
    let v2 = PhpVersion::new(8, 3, 0);
    assert!(v1 < v2);
}

#[test]
fn test_version_parsing_invalid_public_api() {
    assert!(PhpVersion::from_string("8.2").is_err());
    assert!(PhpVersion::from_string("invalid").is_err());
}

#[test]
fn parse_errors_name_their_cause() {
    assert_eq!(PhpVersion::from_string("8.2").unwrap_err(), VersionError::MissingComponents);
    assert_eq!(PhpVersion::from_string("invalid").unwrap_err(), VersionError::MissingComponents);
    assert_eq!(PhpVersion::from_string("a.b.c").unwrap_err(), VersionError::InvalidNumber);
    assert_eq!(PhpVersion::from_string("8.2.256").unwrap_err(), VersionError::InvalidNumber);
    assert_eq!(PhpVersion::from_string("8.2.-1").unwrap_err(), VersionError::InvalidNumber);
    assert_eq!(PhpVersion::from_string("").unwrap_err(), VersionError::MissingComponents);
}

#[test]
fn numbers_read_as_u8_from_str_reads_them() {
    let v = PhpVersion::from_string("+8.02.255").unwrap();
    assert_eq!((v.major, v.minor, v.patch), (8, 2, 255));
    assert_eq!(v.to_string(), "8.2.255");
}

#[test]
fn components_after_the_third_are_not_read() {
    let v = PhpVersion::from_string("8.2.0.7").unwrap();
    assert_eq!(v, PhpVersion::new(8, 2, 0));
}

#[test]
fn render_then_parse_round_trips() {
    for text in ["0.0.0", "8.2.0", "255.255.255", "8.2.0-rc1", "8.2.0-rc1-alpha", "7.4.33-"] {
        let v = PhpVersion::from_string(text).unwrap();
        assert_eq!(v.to_string(), text);
        assert_eq!(PhpVersion::from_string(&v.to_string()).unwrap(), v);
    }
}

#[test]
fn order_ignores_suffix() {
    let a = PhpVersion::from_string("8.2.0-rc1").unwrap();
    let b = PhpVersion::from_string("8.3.0").unwrap();
    let c = PhpVersion::from_string("8.2.1-beta").unwrap();
    assert!(a < b);
    assert!(a < c);
    assert_eq!(a.compare(&PhpVersion::new(8, 2, 0)), Ordering::Equal);
    assert_eq!(a.partial_cmp(&PhpVersion::new(8, 2, 0)), None);
    assert_ne!(a, PhpVersion::new(8, 2, 0));
}

#[test]
fn install_keys_carry_the_variant() {
    let v = PhpVersion::new(8, 2, 0);
    assert_eq!(install_key(&v, Variant::NonThreadSafe), "8.2.0-nts");
    assert_eq!(install_key(&v, Variant::ThreadSafe), "8.2.0-ts");
    assert_eq!(Variant::from_flag(None), Variant::ThreadSafe);
    assert_eq!(Variant::from_flag(Some(false)), Variant::NonThreadSafe);
    assert_eq!(Variant::from_flag(Some(true)), Variant::ThreadSafe);
}
