use ivm::manifest::{Manifest, EXPIRE_AFTER_SECS};
use ivm::version::Version;

#[test]
fn test_latest() {
    let manifest1 = Manifest::new(vec![Version::new(1, 0, 0)]);
    let manifest2 = Manifest::new(Vec::new());

    assert_eq!(manifest1.latest(), Ok(Version::new(1, 0, 0)));
    assert!(manifest2.latest().is_err());
}

#[test]
fn test_latest_message_on_empty() {
    let manifest = Manifest::new(Vec::new());
    assert_eq!(manifest.latest().unwrap_err().message(), "There are no versions available");
}

#[test]
fn test_latest_picks_maximum() {
    let manifest = Manifest::parse("1.0.0\n2.0.0\n").unwrap();
    assert_eq!(manifest.latest(), Ok(Version::new(2, 0, 0)));
}

#[test]
fn test_parse_sorts_ascending() {
    let manifest = Manifest::parse("2.0.0\n0.9.0\n1.10.0\n1.2.0").unwrap();
    let versions: Vec<Version> = manifest.iter().clone();
    assert_eq!(
        versions,
        vec![
            Version::new(0, 9, 0),
            Version::new(1, 2, 0),
            Version::new(1, 10, 0),
            Version::new(2, 0, 0),
        ]
    );
}

#[test]
fn test_parse_empty_content() {
    let manifest = Manifest::parse("").unwrap();
    assert_eq!(manifest.len(), 0);
    assert!(manifest.latest().is_err());
}

#[test]
fn test_parse_rejects_corrupt_line() {
    let err = Manifest::parse("1.0.0\ngarbage\n2.0.0\n").unwrap_err();
    assert_eq!(err.message(), "The version \"garbage\" is invalid");
}

#[test]
fn test_parse_tolerates_carriage_returns() {
    let manifest = Manifest::parse("1.0.0\r\n2.0.0\r\n").unwrap();
    assert_eq!(manifest.latest(), Ok(Version::new(2, 0, 0)));
}

#[test]
fn test_needs_refresh() {
    // Absent cache file: always fetch.
    assert!(Manifest::needs_refresh(false, None));
    assert!(Manifest::needs_refresh(false, Some(0)));
    // Fresh cache file: no network call.
    assert!(!Manifest::needs_refresh(true, Some(0)));
    assert!(!Manifest::needs_refresh(true, Some(EXPIRE_AFTER_SECS - 1)));
    // Stale, or of unknown age (modified in the future): fetch.
    assert!(Manifest::needs_refresh(true, Some(EXPIRE_AFTER_SECS)));
    assert!(Manifest::needs_refresh(true, Some(EXPIRE_AFTER_SECS + 1)));
    assert!(Manifest::needs_refresh(true, None));
}

#[test]
fn test_expire_after_is_six_hours() {
    assert_eq!(EXPIRE_AFTER_SECS, 6 * 60 * 60);
}

#[test]
fn test_manifest_url() {
    assert_eq!(Manifest::url(), "https://releases.inko-lang.org/manifest.txt");
}
