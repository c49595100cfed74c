use ivm::store::{remove_cascade, DefaultPointer, VersionStore};
use ivm::version::Version;

fn store_of(names: &[&str]) -> VersionStore {
    VersionStore::new(names.iter().map(|n| n.to_string()).collect())
}

#[test]
fn test_list_ignores_non_version_entries() {
    let store = store_of(&["0.8.0", "lost+found", "0.10.0", ".DS_Store", "0.9.1"]);
    let listed = store.list();
    assert_eq!(
        listed,
        vec![Version::new(0, 8, 0), Version::new(0, 9, 1), Version::new(0, 10, 0)]
    );
}

#[test]
fn test_list_empty_root() {
    let store = store_of(&[]);
    assert!(store.list().is_empty());
    assert_eq!(store.latest_installed(), None);
}

#[test]
fn test_latest_installed() {
    let store = store_of(&["0.8.0", "junk", "0.9.1"]);
    assert_eq!(store.latest_installed(), Some(Version::new(0, 9, 1)));
}

#[test]
fn test_remove_missing_is_noop() {
    let mut store = store_of(&["0.8.0"]);
    let acted = store.remove(&Version::new(0, 9, 9));
    assert!(!acted);
    assert_eq!(store.list(), vec![Version::new(0, 8, 0)]);
}

#[test]
fn test_remove_installed() {
    let mut store = store_of(&["0.8.0", "0.9.1"]);
    let acted = store.remove(&Version::new(0, 8, 0));
    assert!(acted);
    assert_eq!(store.list(), vec![Version::new(0, 9, 1)]);
}

#[test]
fn test_set_default_requires_installed() {
    let store = store_of(&["0.8.0"]);
    let mut pointer = DefaultPointer::new(None, None);
    let err = pointer.set_default(&Version::new(1, 0, 0), &store, "/data/installed").unwrap_err();
    assert_eq!(err.message(), "The version 1.0.0 is not installed");
    assert_eq!(pointer.current_default(), None);
}

#[test]
fn test_current_default_is_tolerant() {
    let absent = DefaultPointer::new(None, None);
    assert_eq!(absent.current_default(), None);
    let garbage = DefaultPointer::new(Some("not a version".to_string()), None);
    assert_eq!(garbage.current_default(), None);
    let padded = DefaultPointer::new(Some("  0.9.1\n".to_string()), None);
    assert_eq!(padded.current_default(), Some(Version::new(0, 9, 1)));
}

#[test]
fn test_default_lifecycle() {
    // Install root holds 0.8.0 and 0.9.1.
    let mut store = store_of(&["0.8.0", "0.9.1"]);
    let mut pointer = DefaultPointer::new(None, None);

    let latest = store.latest_installed().unwrap();
    assert_eq!(latest, Version::new(0, 9, 1));

    pointer.set_default(&latest, &store, "/data/installed").unwrap();
    assert_eq!(pointer.current_default(), Some(Version::new(0, 9, 1)));
    assert_eq!(
        pointer.symlink_target().map(|t| t.as_str()),
        Some("/data/installed/0.9.1/bin/inko")
    );

    let (acted, cleared_default) = remove_cascade(&mut store, &mut pointer, &latest);
    assert!(acted);
    assert!(cleared_default);
    assert_eq!(pointer.current_default(), None);
    assert!(pointer.symlink_target().is_none());
    assert_eq!(store.list(), vec![Version::new(0, 8, 0)]);
}

#[test]
fn test_remove_cascade_missing_is_noop() {
    let mut store = store_of(&["0.8.0"]);
    let mut pointer = DefaultPointer::new(Some("0.8.0".to_string()), Some("x".to_string()));
    let (acted, cleared_default) = remove_cascade(&mut store, &mut pointer, &Version::new(9, 9, 9));
    assert!(!acted);
    assert!(!cleared_default);
    assert_eq!(pointer.current_default(), Some(Version::new(0, 8, 0)));
}

#[test]
fn test_remove_cascade_trims_marker() {
    // The marker is read with trim tolerance everywhere: a trailing newline
    // still names the version, so removing that version clears the default.
    let mut store = store_of(&["0.9.1"]);
    let mut pointer = DefaultPointer::new(Some("0.9.1\n".to_string()), Some("x".to_string()));
    assert_eq!(pointer.current_default(), Some(Version::new(0, 9, 1)));
    let (acted, cleared_default) = remove_cascade(&mut store, &mut pointer, &Version::new(0, 9, 1));
    assert!(acted);
    assert!(cleared_default);
    assert_eq!(pointer.current_default(), None);
    assert!(pointer.symlink_target().is_none());
}

#[test]
fn test_remove_cascade_keeps_other_default() {
    let mut store = store_of(&["0.8.0", "0.9.1"]);
    let mut pointer = DefaultPointer::new(None, None);
    pointer.set_default(&Version::new(0, 8, 0), &store, "/data/installed").unwrap();
    let (acted, cleared_default) =
        remove_cascade(&mut store, &mut pointer, &Version::new(0, 9, 1));
    assert!(acted);
    assert!(!cleared_default);
    assert_eq!(pointer.current_default(), Some(Version::new(0, 8, 0)));
}
