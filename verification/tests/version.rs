use ivm::version::Version;

#[test]
fn test_parse() {
    assert_eq!(Version::parse("1"), Ok(Version::new(1, 0, 0)));
    assert_eq!(Version::parse("1.1"), Ok(Version::new(1, 1, 0)));
    assert_eq!(Version::parse("1.0.0"), Ok(Version::new(1, 0, 0)));
    assert_eq!(Version::parse("1.0.1"), Ok(Version::new(1, 0, 1)));
    assert_eq!(Version::parse("1.1.1"), Ok(Version::new(1, 1, 1)));
    assert!(Version::parse("1.1.a").is_err());
    assert!(Version::parse("1.a.1").is_err());
    assert!(Version::parse("a.1.1").is_err());
    assert!(Version::parse("0.0.0").is_err());
}

#[test]
fn test_cmp() {
    assert!(Version::new(1, 0, 0) == Version::new(1, 0, 0));
    assert!(Version::new(1, 0, 1) > Version::new(1, 0, 0));
    assert!(Version::new(1, 1, 0) > Version::new(1, 0, 0));
    assert!(Version::new(0, 0, 2) > Version::new(0, 0, 1));
    assert!(Version::new(0, 1, 0) > Version::new(0, 0, 1));
    assert!(Version::new(0, 0, 1) > Version::new(0, 0, 0));
}

#[test]
fn test_to_string() {
    assert_eq!(Version::new(1, 2, 3).to_string(), "1.2.3");
}

#[test]
fn test_display() {
    assert_eq!(format!("{}", Version::new(1, 2, 3).to_string()), "1.2.3");
}

#[test]
fn test_debug() {
    assert_eq!(format!("Version({})", Version::new(1, 2, 3).to_string()), "Version(1.2.3)");
}

#[test]
fn test_parse_format_round_trip() {
    let samples = [
        Version::new(0, 0, 1),
        Version::new(1, 0, 0),
        Version::new(1, 2, 3),
        Version::new(0, 10, 0),
        Version::new(12, 34, 56),
        Version::new(255, 255, 255),
        Version::new(100, 0, 99),
    ];
    for v in samples {
        assert_eq!(Version::parse(&v.to_string()), Ok(v));
    }
}

#[test]
fn test_numeric_not_lexicographic_order() {
    assert!(Version::parse("1.2.0").unwrap() < Version::parse("1.10.0").unwrap());
    assert!(!(Version::parse("2").unwrap() > Version::parse("10.0.0").unwrap()));
}

#[test]
fn test_parse_rejects() {
    assert!(Version::parse("").is_err());
    assert!(Version::parse("1.").is_err());
    assert!(Version::parse("1..2").is_err());
    assert!(Version::parse("256").is_err());
    assert!(Version::parse("1.2.999999999999999999999").is_err());
    assert!(Version::parse("0").is_err());
    assert!(Version::parse("0.0").is_err());
    assert!(Version::parse(".1").is_err());
}

#[test]
fn test_parse_ignores_extra_groups() {
    assert_eq!(Version::parse("1.2.3.4"), Ok(Version::new(1, 2, 3)));
    assert_eq!(Version::parse("1.2.3.junk"), Ok(Version::new(1, 2, 3)));
}

#[test]
fn test_parse_error_messages() {
    let err = Version::parse("1.a").unwrap_err();
    assert_eq!(err.message(), "The version \"1.a\" is invalid");
    let err = Version::parse("0.0.0").unwrap_err();
    assert_eq!(err.message(), "The version \"0.0.0\" is invalid");
    let err = Version::parse("0").unwrap_err();
    assert_eq!(err.message(), "The version \"0.0.0\" is invalid");
}

#[test]
fn test_parse_accepts_leading_zeros() {
    assert_eq!(Version::parse("01.002.0"), Ok(Version::new(1, 2, 0)));
}
