use ivm::config::{
    bin_directory, default_version_file, downloads_directory, executable_name, install_directory,
    manifest_file, version_bin_directory, version_directory, version_executable,
};
use ivm::version::Version;

#[test]
fn test_directory_layout() {
    assert_eq!(install_directory("/data/ivm"), "/data/ivm/installed");
    assert_eq!(bin_directory("/data/ivm"), "/data/ivm/bin");
    assert_eq!(downloads_directory("/cache/ivm"), "/cache/ivm/downloads");
    assert_eq!(default_version_file("/config/ivm"), "/config/ivm/version");
    assert_eq!(manifest_file("/cache/ivm"), "/cache/ivm/downloads/manifest.txt");
}

#[test]
fn test_version_paths() {
    let v = Version::new(0, 8, 0);
    assert_eq!(version_directory("/data/ivm/installed", &v), "/data/ivm/installed/0.8.0");
    assert_eq!(
        version_bin_directory("/data/ivm/installed", &v),
        "/data/ivm/installed/0.8.0/bin"
    );
    assert_eq!(
        version_executable("/data/ivm/installed", &v),
        "/data/ivm/installed/0.8.0/bin/inko"
    );
    assert_eq!(executable_name(), "inko");
}
