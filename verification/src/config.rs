//! Paths of the directories and files the version manager works with.
//!
//! The platform-dependent roots (cache, data and configuration directories)
//! are resolved by the caller and passed in; everything below them is a pure
//! path computation, so the whole directory layout can be pointed at any
//! root.

use crate::text::{path_join, spec_join};
use crate::version::{spec_version_str, Version};
use vstd::prelude::*;

verus! {

/// The name of the executable each installed version provides.
pub fn executable_name() -> (r: &'static str)
    ensures
        r@ == "inko"@,
{
    "inko"
}

/// The directory holding one subdirectory per installed version.
pub fn install_directory(data_dir: &str) -> (r: String)
    ensures
        r@ == spec_join(data_dir@, "installed"@),
{
    path_join(data_dir, "installed")
}

/// The directory holding the symbolic link to the default executable.
pub fn bin_directory(data_dir: &str) -> (r: String)
    ensures
        r@ == spec_join(data_dir@, "bin"@),
{
    path_join(data_dir, "bin")
}

/// The directory downloaded archives are extracted into.
pub fn downloads_directory(cache_dir: &str) -> (r: String)
    ensures
        r@ == spec_join(cache_dir@, "downloads"@),
{
    path_join(cache_dir, "downloads")
}

/// The marker file naming the default version.
pub fn default_version_file(config_dir: &str) -> (r: String)
    ensures
        r@ == spec_join(config_dir@, "version"@),
{
    path_join(config_dir, "version")
}

/// The manifest cache file, kept among the downloads.
pub fn manifest_file(cache_dir: &str) -> (r: String)
    ensures
        r@ == spec_join(spec_join(cache_dir@, "downloads"@), "manifest.txt"@),
{
    let downloads = downloads_directory(cache_dir);
    path_join(downloads.as_str(), "manifest.txt")
}

/// The install directory of one version: `<install root>/<version>`.
pub fn version_directory(install_dir: &str, version: &Version) -> (r: String)
    ensures
        r@ == spec_join(install_dir@, spec_version_str(*version)),
{
    let name = version.to_string();
    path_join(install_dir, name.as_str())
}

/// The `bin` directory of one installed version.
pub fn version_bin_directory(install_dir: &str, version: &Version) -> (r: String)
    ensures
        r@ == spec_join(spec_join(install_dir@, spec_version_str(*version)), "bin"@),
{
    let dir = version_directory(install_dir, version);
    path_join(dir.as_str(), "bin")
}

/// The path of a version's own executable inside its install directory.
pub open spec fn spec_version_executable(install_dir: Seq<char>, v: Version) -> Seq<char> {
    spec_join(spec_join(spec_join(install_dir, spec_version_str(v)), "bin"@), "inko"@)
}

/// The executable of one installed version: `<install root>/<version>/bin/inko`.
pub fn version_executable(install_dir: &str, version: &Version) -> (r: String)
    ensures
        r@ == spec_version_executable(install_dir@, *version),
{
    let dir = version_directory(install_dir, version);
    let bin = path_join(dir.as_str(), "bin");
    path_join(bin.as_str(), "inko")
}

} // verus!
