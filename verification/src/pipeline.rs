//! The install pipeline: existence check, download, extraction, build and
//! artifact placement, as a verified state machine.
//!
//! The pipeline owns every decision: which URL to probe, when the probe
//! outcome means "the version does not exist", what the archive's bytes
//! unpack to, when a build exit code is a failure, which directories and
//! copies make up the installed artifact tree, and what must be cleaned up.
//! The caller drives it: it performs each returned [`Action`] against the
//! network, the filesystem or a child process and answers with an [`Event`].

use crate::error::Error;
use crate::manifest::Manifest;
use crate::text::{path_join, spec_int_str, spec_join, str_eq, i32_to_string};
use crate::version::{spec_parse, spec_version_str, Version};
use vstd::prelude::*;

verus! {

// ---------------------------------------------------------------------------
// The archive URL
// ---------------------------------------------------------------------------

/// The well-known URL of a version's source archive.
pub open spec fn spec_archive_url(v: Version) -> Seq<char> {
    "https://releases.inko-lang.org/"@ + spec_version_str(v) + ".tar.gz"@
}

/// Builds the URL a version's archive is downloaded from.
pub fn archive_url(version: &Version) -> (r: String)
    ensures
        r@ == spec_archive_url(*version),
{
    proof {
        reveal_strlit("https://releases.inko-lang.org/");
        reveal_strlit(".tar.gz");
    }
    let mut url = String::from_str("https://releases.inko-lang.org/");
    let name = version.to_string();
    url.append(name.as_str());
    url.append(".tar.gz");
    proof {
        assert(url@ =~= spec_archive_url(*version));
    }
    url
}

/// Resolves what the user asked to install: the literal token `latest`
/// picks the newest manifest entry; anything else must parse as a version,
/// so that a version missing from a stale manifest can still be named.
pub fn resolve_version(token: &str, manifest: &Manifest) -> (r: Result<Version, Error>)
    ensures
        token@ == "latest"@ ==> match r {
            Ok(v) => manifest@.len() > 0 && v == manifest@.last(),
            Err(e) => manifest@.len() == 0 && e@ == "There are no versions available"@,
        },
        token@ != "latest"@ ==> match r {
            Ok(v) => spec_parse(token@) == Some(v),
            Err(e) => spec_parse(token@) is None && e@ == crate::version::parse_error_message(
                token@,
            ),
        },
{
    if str_eq(token, "latest") {
        manifest.latest()
    } else {
        Version::parse(token)
    }
}

// ---------------------------------------------------------------------------
// Archive decoding (gzip + tar, behind trusted wrappers)
// ---------------------------------------------------------------------------

/// One entry of the source archive: its path inside the archive, whether it
/// is a directory, and its bytes.
pub struct TarEntry {
    pub path: String,
    pub is_dir: bool,
    pub data: Vec<u8>,
}

/// The plain values of a sequence of entries.
pub open spec fn entries_model(es: Seq<TarEntry>) -> Seq<(Seq<char>, bool, Seq<u8>)> {
    es.map_values(|e: TarEntry| (e.path@, e.is_dir, e.data@))
}

/// What gzip decompression yields on the given bytes — a function of the
/// bytes alone — or `None` when they are not a well-formed gzip stream.
pub uninterp spec fn gunzip_of(b: Seq<u8>) -> Option<Seq<u8>>;

/// The entries a TAR stream holds — a function of the bytes alone — or
/// `None` when they are not a well-formed TAR stream.
pub uninterp spec fn tar_entries_of(b: Seq<u8>) -> Option<Seq<(Seq<char>, bool, Seq<u8>)>>;

/// What a downloaded `.tar.gz` body decodes to: gzip decompression, then
/// the TAR entries, `None` as soon as either stage rejects the bytes.
pub open spec fn spec_decoded(b: Seq<u8>) -> Option<Seq<(Seq<char>, bool, Seq<u8>)>> {
    match gunzip_of(b) {
        None => None,
        Some(t) => tar_entries_of(t),
    }
}

/// Relies on flate2's `GzDecoder`: decompresses a gzip stream held in
/// memory. Both success and result depend on the input bytes alone.
#[verifier::external_body]
fn gunzip(bytes: &Vec<u8>) -> (r: Result<Vec<u8>, String>)
    ensures
        (r is Ok) == (gunzip_of(bytes@) is Some),
        r is Ok ==> r.unwrap()@ == gunzip_of(bytes@).unwrap(),
{
    let mut out = Vec::new();
    let mut decoder = flate2::read::GzDecoder::new(&bytes[..]);
    match std::io::Read::read_to_end(&mut decoder, &mut out) {
        Ok(_) => Ok(out),
        Err(e) => Err(e.to_string()),
    }
}

/// Relies on tar's `Archive`: lists the entries of a TAR stream held in
/// memory, each with its path, kind and bytes. Both success and result
/// depend on the input bytes alone.
#[verifier::external_body]
fn tar_entries(bytes: &Vec<u8>) -> (r: Result<Vec<TarEntry>, String>)
    ensures
        (r is Ok) == (tar_entries_of(bytes@) is Some),
        r is Ok ==> entries_model(r.unwrap()@) == tar_entries_of(bytes@).unwrap(),
{
    let err = |e: std::io::Error| e.to_string();
    let mut archive = tar::Archive::new(&bytes[..]);
    let mut out = Vec::new();
    for entry in archive.entries().map_err(err)? {
        let mut entry = entry.map_err(err)?;
        let path = entry.path().map_err(err)?.to_string_lossy().into_owned();
        let is_dir = entry.header().entry_type().is_dir();
        let mut data = Vec::new();
        std::io::Read::read_to_end(&mut entry, &mut data).map_err(err)?;
        out.push(TarEntry { path, is_dir, data });
    }
    Ok(out)
}

/// Decodes a downloaded `.tar.gz` body into its entries: succeeds exactly
/// when both the gzip stream and the TAR stream inside it are well formed.
pub fn decode_archive(bytes: &Vec<u8>) -> (r: Result<Vec<TarEntry>, String>)
    ensures
        (r is Ok) == (spec_decoded(bytes@) is Some),
        r is Ok ==> entries_model(r.unwrap()@) == spec_decoded(bytes@).unwrap(),
{
    let decompressed = match gunzip(bytes) {
        Ok(d) => d,
        Err(m) => {
            return Err(m);
        },
    };
    tar_entries(&decompressed)
}

// ---------------------------------------------------------------------------
// Entry paths
// ---------------------------------------------------------------------------

/// True when `p` holds a `..` path component.
pub open spec fn has_dotdot_component(p: Seq<char>) -> bool {
    exists|i: int|
        {
            &&& 0 <= i
            &&& i + 2 <= p.len()
            &&& #[trigger] p[i] == '.'
            &&& p[i + 1] == '.'
            &&& (i == 0 || p[i - 1] == '/')
            &&& (i + 2 == p.len() || p[i + 2] == '/')
        }
}

/// An archive entry path that may be unpacked below the extraction
/// directory: non-empty, relative, and never stepping outside through `..`.
pub open spec fn safe_entry_path(p: Seq<char>) -> bool {
    p.len() > 0 && p.first() != '/' && !has_dotdot_component(p)
}

/// Checks a path against [`safe_entry_path`].
pub fn is_safe_path(p: &str) -> (r: bool)
    ensures
        r == safe_entry_path(p@),
{
    let n = p.unicode_len();
    if n == 0 {
        return false;
    }
    if p.get_char(0) == '/' {
        return false;
    }
    let mut i: usize = 0;
    while i < n
        invariant
            i <= n,
            n == p@.len(),
            forall|j: int|
                0 <= j < i ==> !{
                    &&& j + 2 <= p@.len()
                    &&& #[trigger] p@[j] == '.'
                    &&& p@[j + 1] == '.'
                    &&& (j == 0 || p@[j - 1] == '/')
                    &&& (j + 2 == p@.len() || p@[j + 2] == '/')
                },
        decreases n - i,
    {
        if n - i >= 2 && p.get_char(i) == '.' && p.get_char(i + 1) == '.' && (i == 0 || p.get_char(
            i - 1,
        ) == '/') && (n - i == 2 || p.get_char(i + 2) == '/') {
            assert(has_dotdot_component(p@));
            return false;
        }
        i = i + 1;
    }
    proof {
        if has_dotdot_component(p@) {
            let j = choose|j: int|
                {
                    &&& 0 <= j
                    &&& j + 2 <= p@.len()
                    &&& #[trigger] p@[j] == '.'
                    &&& p@[j + 1] == '.'
                    &&& (j == 0 || p@[j - 1] == '/')
                    &&& (j + 2 == p@.len() || p@[j + 2] == '/')
                };
            assert(j < n);
        }
    }
    true
}

/// Copies a byte vector.
fn copy_bytes(src: &Vec<u8>) -> (r: Vec<u8>)
    ensures
        r@ == src@,
{
    let mut r: Vec<u8> = Vec::new();
    let mut k: usize = 0;
    let n = src.len();
    while k < n
        invariant
            k <= n,
            n == src@.len(),
            r@ == src@.subrange(0, k as int),
        decreases n - k,
    {
        r.push(src[k]);
        proof {
            assert(r@ =~= src@.subrange(0, k as int + 1));
        }
        k = k + 1;
    }
    proof {
        assert(src@.subrange(0, n as int) =~= src@);
    }
    r
}

/// The same entries with each path placed below `dir`.
pub open spec fn prefixed_entries(
    es: Seq<(Seq<char>, bool, Seq<u8>)>,
    dir: Seq<char>,
) -> Seq<(Seq<char>, bool, Seq<u8>)> {
    es.map_values(|e: (Seq<char>, bool, Seq<u8>)| (spec_join(dir, e.0), e.1, e.2))
}

/// True when every entry's path is safe to unpack.
pub open spec fn all_entries_safe(es: Seq<(Seq<char>, bool, Seq<u8>)>) -> bool {
    forall|i: int| 0 <= i < es.len() ==> safe_entry_path(#[trigger] es[i].0)
}

/// Rejects any entry whose path could escape the extraction directory —
/// returning the offending path — and otherwise places every entry below
/// `dir`.
pub fn plan_entries(dir: &str, entries: Vec<TarEntry>) -> (r: Result<Vec<TarEntry>, String>)
    ensures
        match r {
            Ok(planned) => {
                &&& all_entries_safe(entries_model(entries@))
                &&& entries_model(planned@) == prefixed_entries(entries_model(entries@), dir@)
            },
            Err(bad) => exists|i: int|
                {
                    &&& 0 <= i < entries@.len()
                    &&& !safe_entry_path(#[trigger] entries_model(entries@)[i].0)
                    &&& bad@ == entries_model(entries@)[i].0
                },
        },
{
    let ghost models = entries_model(entries@);
    let mut planned: Vec<TarEntry> = Vec::new();
    let mut k: usize = 0;
    let n = entries.len();
    while k < n
        invariant
            k <= n,
            n == entries@.len(),
            models == entries_model(entries@),
            planned@.len() == k,
            forall|j: int| 0 <= j < k ==> safe_entry_path(#[trigger] models[j].0),
            forall|j: int|
                0 <= j < k ==> #[trigger] entries_model(planned@)[j] == (
                    spec_join(dir@, models[j].0),
                    models[j].1,
                    models[j].2,
                ),
        decreases n - k,
    {
        let entry = &entries[k];
        proof {
            assert(models[k as int] == (entry.path@, entry.is_dir, entry.data@));
        }
        if !is_safe_path(entry.path.as_str()) {
            proof {
                assert(entries_model(entries@)[k as int].0 == entry.path@);
                assert(!safe_entry_path(entries_model(entries@)[k as int].0));
            }
            return Err(entry.path.clone());
        }
        let ghost before = planned@;
        let placed = TarEntry {
            path: path_join(dir, entry.path.as_str()),
            is_dir: entry.is_dir,
            data: copy_bytes(&entry.data),
        };
        planned.push(placed);
        proof {
            assert forall|j: int| 0 <= j < k + 1 implies #[trigger] entries_model(planned@)[j] == (
                spec_join(dir@, models[j].0),
                models[j].1,
                models[j].2,
            ) by {
                if j < k {
                    assert(planned@[j] == before[j]);
                    assert(entries_model(before)[j] == (spec_join(dir@, models[j].0),
                    models[j].1, models[j].2));
                } else {
                    assert(planned@[j] == placed);
                }
            }
        }
        k = k + 1;
    }
    proof {
        assert(entries_model(planned@) =~= prefixed_entries(models, dir@));
    }
    Ok(planned)
}

/// The destinations of a recursive copy: each path, relative to the source
/// tree's root, recomputed against the destination root.
pub fn plan_copy_tree(rel_paths: &Vec<String>, src_root: &str, dst_root: &str) -> (r: Vec<
    (String, String),
>)
    ensures
        r@.len() == rel_paths@.len(),
        forall|i: int|
            0 <= i < r@.len() ==> #[trigger] r@[i].0@ == spec_join(src_root@, rel_paths@[i]@)
                && r@[i].1@ == spec_join(dst_root@, rel_paths@[i]@),
{
    let mut r: Vec<(String, String)> = Vec::new();
    let mut k: usize = 0;
    let n = rel_paths.len();
    while k < n
        invariant
            k <= n,
            n == rel_paths@.len(),
            r@.len() == k,
            forall|i: int|
                0 <= i < k ==> #[trigger] r@[i].0@ == spec_join(src_root@, rel_paths@[i]@)
                    && r@[i].1@ == spec_join(dst_root@, rel_paths@[i]@),
        decreases n - k,
    {
        let rel = rel_paths[k].as_str();
        let pair = (path_join(src_root, rel), path_join(dst_root, rel));
        r.push(pair);
        k = k + 1;
    }
    r
}

// ---------------------------------------------------------------------------
// The state machine
// ---------------------------------------------------------------------------

/// Where the pipeline stands between two actions.
#[derive(Clone, Copy, Debug, PartialEq, Eq, Structural)]
pub enum PipelineState {
    /// Looking whether the version's extraction directory already exists.
    CheckingSource,
    /// Probing the archive URL for existence.
    Probing,
    /// Fetching the archive.
    Downloading,
    /// Writing the unpacked entries into the extraction directory.
    Writing,
    /// Looking whether the version's install directory already exists.
    CheckingTarget,
    /// Building the sources.
    Building,
    /// Placing the built artifacts into the install directory.
    Placing,
    /// Removing the no longer needed extraction directory.
    Cleaning,
    /// Installed.
    Finished,
    /// Gave up; the final action carried the error.
    Failed,
}

/// What the caller observed while performing the previous action.
pub enum Event {
    /// Whether the checked directory exists, or whether the probe succeeded.
    Exists(bool),
    /// The fetched body, or the transport error's message.
    Body(Result<Vec<u8>, String>),
    /// The outcome of writing the unpacked entries, an error carrying the
    /// failing path.
    Wrote(Result<(), String>),
    /// The build child process's exit code — `None` when it ended without
    /// one, for instance killed by a signal — or the error message when it
    /// could not be spawned or awaited.
    Built(Result<Option<i32>, String>),
    /// The outcome of placing the artifacts, with the failing operation's
    /// message.
    Placed(Result<(), String>),
    /// The outcome of removing the extraction directory.
    Removed(Result<(), String>),
}

/// The build invocation: `cargo build --release`, pointed at the sources,
/// with the standard library steered into the install location.
pub struct BuildCommand {
    pub program: String,
    pub args: Vec<String>,
    /// The value the `RUSTFLAGS` variable must carry.
    pub rustflags: String,
    /// The value the `INKO_LIBSTD` variable must carry.
    pub library_dir: String,
    pub working_dir: String,
}

/// The directories to create and the copies to make once the build is done.
pub struct ArtifactPlan {
    /// Created first, parents included.
    pub dirs: Vec<String>,
    /// Single file copies, source to destination.
    pub copies: Vec<(String, String)>,
    /// The root of the standard library sources, copied recursively...
    pub tree_src: String,
    /// ...to here, relative paths preserved (see [`plan_copy_tree`]).
    pub tree_dst: String,
}

/// What the caller must do next.
pub enum Action {
    /// Tell whether this directory exists.
    CheckDir(String),
    /// Issue a HEAD request against this URL; answer whether it succeeded.
    Probe(String),
    /// Fetch this URL's body.
    Download(String),
    /// Create the named directory, then write the entries: each directory
    /// entry as a directory, each file entry's bytes under its path, parent
    /// directories on demand.
    WriteEntries(String, Vec<TarEntry>),
    /// Run the build synchronously and report its exit code.
    RunBuild(BuildCommand),
    /// Create the plan's directories and perform its copies.
    PlaceArtifacts(ArtifactPlan),
    /// Delete this directory tree.
    RemoveDir(String),
    /// The installation finished; stop.
    Finish,
    /// The installation failed with this error; stop.
    Abort(Error),
}

/// The message when the archive probe says the version is not there.
pub open spec fn missing_version_message() -> Seq<char> {
    "The version does not exist"@
}

/// The message when the install directory already exists.
pub open spec fn already_installed_message() -> Seq<char> {
    "The version is already installed"@
}

/// The message when fetching the archive failed.
pub open spec fn download_failed_message(url: Seq<char>, m: Seq<char>) -> Seq<char> {
    "GET "@ + url + " failed: "@ + m
}

/// The message when the archive could not be unpacked into `dir`.
pub open spec fn unpack_failed_message(dir: Seq<char>, m: Seq<char>) -> Seq<char> {
    "Failed to unpack the TAR archive into "@ + dir + ": "@ + m
}

/// The message when the build exited with a nonzero code.
pub open spec fn exit_code_message(code: int) -> Seq<char> {
    "The command exited with status code "@ + spec_int_str(code)
}

/// The message when the build child process ended without an exit code,
/// for instance killed by a signal: a missing code is fatal, like a
/// nonzero one.
pub open spec fn build_terminated_message() -> Seq<char> {
    "The command exited without a status code"@
}

/// The message when the extraction directory could not be removed.
pub open spec fn cleanup_failed_message(m: Seq<char>) -> Seq<char> {
    "Failed to remove the source directory: "@ + m
}

/// A correct build invocation for sources in `source_dir` whose standard
/// library must land in `library_dir`: `cargo build --release`, hardware AES
/// code generation on, and dynamic linking of libffi everywhere but on
/// Windows.
pub open spec fn build_command_ok(
    c: BuildCommand,
    source_dir: Seq<char>,
    library_dir: Seq<char>,
    windows: bool,
) -> bool {
    &&& c.program@ == "cargo"@
    &&& c.working_dir@ == source_dir
    &&& c.rustflags@ == "-C target-feature=+aes"@
    &&& c.library_dir@ == library_dir
    &&& c.args@.len() == (if windows { 2int } else { 4int })
    &&& c.args@[0]@ == "build"@
    &&& c.args@[1]@ == "--release"@
    &&& !windows ==> c.args@[2]@ == "--features"@ && c.args@[3]@ == "libffi-system"@
}

/// A correct artifact placement for sources in `source` and an install
/// directory `target`: `bin/`, `lib/inko/libstd/` and `share/licenses/inko/`
/// are created; the built executable, the license file and the standard
/// library sources land in them.
pub open spec fn artifact_plan_ok(p: ArtifactPlan, source: Seq<char>, target: Seq<char>) -> bool {
    let bin = spec_join(target, "bin"@);
    let lib = spec_join(spec_join(spec_join(target, "lib"@), "inko"@), "libstd"@);
    let lic = spec_join(spec_join(spec_join(target, "share"@), "licenses"@), "inko"@);
    &&& p.dirs@.len() == 3
    &&& p.dirs@[0]@ == bin
    &&& p.dirs@[1]@ == lib
    &&& p.dirs@[2]@ == lic
    &&& p.copies@.len() == 2
    &&& p.copies@[0].0@ == spec_join(spec_join(spec_join(source, "target"@), "release"@), "inko"@)
    &&& p.copies@[0].1@ == spec_join(bin, "inko"@)
    &&& p.copies@[1].0@ == spec_join(source, "LICENSE"@)
    &&& p.copies@[1].1@ == spec_join(lic, "LICENSE"@)
    &&& p.tree_src@ == spec_join(spec_join(source, "libstd"@), "src"@)
    &&& p.tree_dst@ == lib
}

/// The event each state awaits; the two terminal states await none.
pub open spec fn expects(state: PipelineState, event: Event) -> bool {
    match state {
        PipelineState::CheckingSource => event is Exists,
        PipelineState::Probing => event is Exists,
        PipelineState::Downloading => event is Body,
        PipelineState::Writing => event is Wrote,
        PipelineState::CheckingTarget => event is Exists,
        PipelineState::Building => event is Built,
        PipelineState::Placing => event is Placed,
        PipelineState::Cleaning => event is Removed,
        PipelineState::Finished => false,
        PipelineState::Failed => false,
    }
}

/// Installs one version: resolve, check for an existing download, probe,
/// download and extract, build, place artifacts, clean up — in that order,
/// never backwards.
pub struct InstallPipeline {
    pub version: Version,
    /// The version's archive URL.
    pub url: String,
    /// The extraction directory: `<downloads root>/<version>`.
    pub source_dir: String,
    /// The install directory: `<install root>/<version>`.
    pub target_dir: String,
    /// Where the built standard library must land: `<target>/lib/inko/libstd`.
    pub library_dir: String,
    pub windows: bool,
    pub state: PipelineState,
}

impl InstallPipeline {
    /// The derived paths agree with the version.
    pub open spec fn wf(&self) -> bool {
        &&& self.url@ == spec_archive_url(self.version)
        &&& self.library_dir@ == spec_join(
            spec_join(spec_join(self.target_dir@, "lib"@), "inko"@),
            "libstd"@,
        )
    }

    /// Everything but the state stands still across a step.
    pub open spec fn same_config(a: &InstallPipeline, b: &InstallPipeline) -> bool {
        &&& a.version == b.version
        &&& a.url@ == b.url@
        &&& a.source_dir@ == b.source_dir@
        &&& a.target_dir@ == b.target_dir@
        &&& a.library_dir@ == b.library_dir@
        &&& a.windows == b.windows
    }

    /// Starts installing `version`: the first action checks for a source
    /// directory left behind by an earlier run, the idempotent re-entry
    /// point.
    pub fn new(version: Version, downloads_dir: &str, install_dir: &str, windows: bool) -> (r: (
        InstallPipeline,
        Action,
    ))
        ensures
            r.0.wf(),
            r.0.version == version,
            r.0.source_dir@ == spec_join(downloads_dir@, spec_version_str(version)),
            r.0.target_dir@ == spec_join(install_dir@, spec_version_str(version)),
            r.0.windows == windows,
            r.0.state is CheckingSource,
            r.1 matches Action::CheckDir(p) && p@ == r.0.source_dir@,
    {
        let url = archive_url(&version);
        let source_dir = crate::config::version_directory(downloads_dir, &version);
        let target_dir = crate::config::version_directory(install_dir, &version);
        let lib = path_join(target_dir.as_str(), "lib");
        let lib_inko = path_join(lib.as_str(), "inko");
        let library_dir = path_join(lib_inko.as_str(), "libstd");
        let first = Action::CheckDir(source_dir.clone());
        let pipeline = InstallPipeline {
            version,
            url,
            source_dir,
            target_dir,
            library_dir,
            windows,
            state: PipelineState::CheckingSource,
        };
        (pipeline, first)
    }

    /// Feeds the outcome of the previous action in; returns what to do next.
    ///
    /// The contract enumerates every transition. In particular: a failed
    /// probe aborts with "the version does not exist" before any directory
    /// is created; a well-formed archive whose entry paths are all safe is
    /// always extracted, a malformed one always aborts; an existing install
    /// directory aborts; a nonzero or missing build exit code aborts, with
    /// a message carrying the code when there is one; and the extraction
    /// directory is removed only after the artifacts are fully placed.
    pub fn step(&mut self, event: Event) -> (action: Action)
        requires
            old(self).wf(),
            expects(old(self).state, event),
        ensures
            final(self).wf(),
            InstallPipeline::same_config(old(self), final(self)),
            match (old(self).state, event) {
                (PipelineState::CheckingSource, Event::Exists(found)) => {
                    if found {
                        &&& final(self).state is CheckingTarget
                        &&& action matches Action::CheckDir(p) && p@ == old(self).target_dir@
                    } else {
                        &&& final(self).state is Probing
                        &&& action matches Action::Probe(u) && u@ == old(self).url@
                    }
                },
                (PipelineState::Probing, Event::Exists(found)) => {
                    if found {
                        &&& final(self).state is Downloading
                        &&& action matches Action::Download(u) && u@ == old(self).url@
                    } else {
                        &&& final(self).state is Failed
                        &&& action matches Action::Abort(e) && e@ == missing_version_message()
                    }
                },
                (PipelineState::Downloading, Event::Body(body)) => {
                    match body {
                        Err(m) => {
                            &&& final(self).state is Failed
                            &&& action matches Action::Abort(e) && e@ == download_failed_message(
                                old(self).url@,
                                m@,
                            )
                        },
                        Ok(bytes) => {
                            match spec_decoded(bytes@) {
                                None => {
                                    &&& final(self).state is Failed
                                    &&& action matches Action::Abort(e) && exists|t: Seq<char>|
                                        e@ == unpack_failed_message(old(self).source_dir@, t)
                                },
                                Some(found) => {
                                    if all_entries_safe(found) {
                                        &&& final(self).state is Writing
                                        &&& action matches Action::WriteEntries(d, es) && d@
                                            == old(self).source_dir@ && entries_model(es@)
                                            == prefixed_entries(found, old(self).source_dir@)
                                    } else {
                                        &&& final(self).state is Failed
                                        &&& action matches Action::Abort(e) && exists|i: int|
                                            {
                                                &&& 0 <= i < found.len()
                                                &&& !safe_entry_path(#[trigger] found[i].0)
                                                &&& e@ == unpack_failed_message(
                                                    old(self).source_dir@,
                                                    found[i].0,
                                                )
                                            }
                                    }
                                },
                            }
                        },
                    }
                },
                (PipelineState::Writing, Event::Wrote(res)) => {
                    match res {
                        Ok(_) => {
                            &&& final(self).state is CheckingTarget
                            &&& action matches Action::CheckDir(p) && p@ == old(self).target_dir@
                        },
                        Err(m) => {
                            &&& final(self).state is Failed
                            &&& action matches Action::Abort(e) && e@ == unpack_failed_message(
                                old(self).source_dir@,
                                m@,
                            )
                        },
                    }
                },
                (PipelineState::CheckingTarget, Event::Exists(found)) => {
                    if found {
                        &&& final(self).state is Failed
                        &&& action matches Action::Abort(e) && e@ == already_installed_message()
                    } else {
                        &&& final(self).state is Building
                        &&& action matches Action::RunBuild(c) && build_command_ok(
                            c,
                            old(self).source_dir@,
                            old(self).library_dir@,
                            old(self).windows,
                        )
                    }
                },
                (PipelineState::Building, Event::Built(res)) => {
                    match res {
                        Err(m) => {
                            &&& final(self).state is Failed
                            &&& action matches Action::Abort(e) && e@ == m@
                        },
                        Ok(code) => {
                            match code {
                                Some(c) => {
                                    if c == 0 {
                                        &&& final(self).state is Placing
                                        &&& action matches Action::PlaceArtifacts(p)
                                            && artifact_plan_ok(
                                            p,
                                            old(self).source_dir@,
                                            old(self).target_dir@,
                                        )
                                    } else {
                                        &&& final(self).state is Failed
                                        &&& action matches Action::Abort(e) && e@
                                            == exit_code_message(c as int)
                                    }
                                },
                                None => {
                                    &&& final(self).state is Failed
                                    &&& action matches Action::Abort(e) && e@
                                        == build_terminated_message()
                                },
                            }
                        },
                    }
                },
                (PipelineState::Placing, Event::Placed(res)) => {
                    match res {
                        Ok(_) => {
                            &&& final(self).state is Cleaning
                            &&& action matches Action::RemoveDir(p) && p@ == old(self).source_dir@
                        },
                        Err(m) => {
                            &&& final(self).state is Failed
                            &&& action matches Action::Abort(e) && e@ == m@
                        },
                    }
                },
                (PipelineState::Cleaning, Event::Removed(res)) => {
                    match res {
                        Ok(_) => {
                            &&& final(self).state is Finished
                            &&& action is Finish
                        },
                        Err(m) => {
                            &&& final(self).state is Failed
                            &&& action matches Action::Abort(e) && e@ == cleanup_failed_message(m@)
                        },
                    }
                },
                _ => false,
            },
    {
        match self.state {
            PipelineState::CheckingSource => {
                match event {
                    Event::Exists(found) => {
                        if found {
                            self.state = PipelineState::CheckingTarget;
                            Action::CheckDir(self.target_dir.clone())
                        } else {
                            self.state = PipelineState::Probing;
                            Action::Probe(self.url.clone())
                        }
                    },
                    _ => vstd::pervasive::unreached(),
                }
            },
            PipelineState::Probing => {
                match event {
                    Event::Exists(found) => {
                        if found {
                            self.state = PipelineState::Downloading;
                            Action::Download(self.url.clone())
                        } else {
                            self.state = PipelineState::Failed;
                            Action::Abort(Error::generic("The version does not exist"))
                        }
                    },
                    _ => vstd::pervasive::unreached(),
                }
            },
            PipelineState::Downloading => {
                match event {
                    Event::Body(body) => {
                        match body {
                            Err(m) => {
                                self.state = PipelineState::Failed;
                                Action::Abort(download_failed_error(
                                    self.url.as_str(),
                                    m.as_str(),
                                ))
                            },
                            Ok(bytes) => {
                                match decode_archive(&bytes) {
                                    Err(m) => {
                                        self.state = PipelineState::Failed;
                                        Action::Abort(unpack_failed_error(
                                            self.source_dir.as_str(),
                                            m.as_str(),
                                        ))
                                    },
                                    Ok(entries) => {
                                        match plan_entries(self.source_dir.as_str(), entries) {
                                            Err(bad) => {
                                                self.state = PipelineState::Failed;
                                                Action::Abort(unpack_failed_error(
                                                    self.source_dir.as_str(),
                                                    bad.as_str(),
                                                ))
                                            },
                                            Ok(planned) => {
                                                self.state = PipelineState::Writing;
                                                Action::WriteEntries(
                                                    self.source_dir.clone(),
                                                    planned,
                                                )
                                            },
                                        }
                                    },
                                }
                            },
                        }
                    },
                    _ => vstd::pervasive::unreached(),
                }
            },
            PipelineState::Writing => {
                match event {
                    Event::Wrote(res) => {
                        match res {
                            Ok(_) => {
                                self.state = PipelineState::CheckingTarget;
                                Action::CheckDir(self.target_dir.clone())
                            },
                            Err(m) => {
                                self.state = PipelineState::Failed;
                                Action::Abort(unpack_failed_error(
                                    self.source_dir.as_str(),
                                    m.as_str(),
                                ))
                            },
                        }
                    },
                    _ => vstd::pervasive::unreached(),
                }
            },
            PipelineState::CheckingTarget => {
                match event {
                    Event::Exists(found) => {
                        if found {
                            self.state = PipelineState::Failed;
                            Action::Abort(Error::generic("The version is already installed"))
                        } else {
                            self.state = PipelineState::Building;
                            Action::RunBuild(self.build_command())
                        }
                    },
                    _ => vstd::pervasive::unreached(),
                }
            },
            PipelineState::Building => {
                match event {
                    Event::Built(res) => {
                        match res {
                            Err(m) => {
                                self.state = PipelineState::Failed;
                                Action::Abort(Error::generic(m.as_str()))
                            },
                            Ok(code) => {
                                match code {
                                    Some(c) => {
                                        if c == 0 {
                                            self.state = PipelineState::Placing;
                                            Action::PlaceArtifacts(self.artifact_plan())
                                        } else {
                                            self.state = PipelineState::Failed;
                                            Action::Abort(exit_code_error(c))
                                        }
                                    },
                                    None => {
                                        self.state = PipelineState::Failed;
                                        Action::Abort(Error::generic(
                                            "The command exited without a status code",
                                        ))
                                    },
                                }
                            },
                        }
                    },
                    _ => vstd::pervasive::unreached(),
                }
            },
            PipelineState::Placing => {
                match event {
                    Event::Placed(res) => {
                        match res {
                            Ok(_) => {
                                self.state = PipelineState::Cleaning;
                                Action::RemoveDir(self.source_dir.clone())
                            },
                            Err(m) => {
                                self.state = PipelineState::Failed;
                                Action::Abort(Error::generic(m.as_str()))
                            },
                        }
                    },
                    _ => vstd::pervasive::unreached(),
                }
            },
            PipelineState::Cleaning => {
                match event {
                    Event::Removed(res) => {
                        match res {
                            Ok(_) => {
                                self.state = PipelineState::Finished;
                                Action::Finish
                            },
                            Err(m) => {
                                self.state = PipelineState::Failed;
                                Action::Abort(cleanup_failed_error(m.as_str()))
                            },
                        }
                    },
                    _ => vstd::pervasive::unreached(),
                }
            },
            PipelineState::Finished => vstd::pervasive::unreached(),
            PipelineState::Failed => vstd::pervasive::unreached(),
        }
    }

    /// Builds the build invocation for this pipeline's directories.
    fn build_command(&self) -> (c: BuildCommand)
        ensures
            build_command_ok(c, self.source_dir@, self.library_dir@, self.windows),
    {
        let mut args: Vec<String> = Vec::new();
        args.push(String::from_str("build"));
        args.push(String::from_str("--release"));
        if !self.windows {
            args.push(String::from_str("--features"));
            args.push(String::from_str("libffi-system"));
        }
        BuildCommand {
            program: String::from_str("cargo"),
            args,
            rustflags: String::from_str("-C target-feature=+aes"),
            library_dir: self.library_dir.clone(),
            working_dir: self.source_dir.clone(),
        }
    }

    /// Builds the artifact placement plan for this pipeline's directories.
    fn artifact_plan(&self) -> (p: ArtifactPlan)
        requires
            self.wf(),
        ensures
            artifact_plan_ok(p, self.source_dir@, self.target_dir@),
    {
        let bin_dir = path_join(self.target_dir.as_str(), "bin");
        let share = path_join(self.target_dir.as_str(), "share");
        let licenses = path_join(share.as_str(), "licenses");
        let license_dir = path_join(licenses.as_str(), "inko");
        let release = path_join(path_join(self.source_dir.as_str(), "target").as_str(), "release");
        let mut dirs: Vec<String> = Vec::new();
        dirs.push(bin_dir.clone());
        dirs.push(self.library_dir.clone());
        dirs.push(license_dir.clone());
        let mut copies: Vec<(String, String)> = Vec::new();
        copies.push((path_join(release.as_str(), "inko"), path_join(bin_dir.as_str(), "inko")));
        copies.push((
            path_join(self.source_dir.as_str(), "LICENSE"),
            path_join(license_dir.as_str(), "LICENSE"),
        ));
        ArtifactPlan {
            dirs,
            copies,
            tree_src: path_join(path_join(self.source_dir.as_str(), "libstd").as_str(), "src"),
            tree_dst: self.library_dir.clone(),
        }
    }
}

/// Builds the error reported when fetching the archive failed.
fn download_failed_error(url: &str, m: &str) -> (r: Error)
    ensures
        r@ == download_failed_message(url@, m@),
{
    proof {
        reveal_strlit("GET ");
        reveal_strlit(" failed: ");
    }
    let mut s = String::from_str("GET ");
    s.append(url);
    s.append(" failed: ");
    s.append(m);
    proof {
        assert(s@ =~= download_failed_message(url@, m@));
    }
    Error::from_message(s)
}

/// Builds the error reported when the archive could not be unpacked.
fn unpack_failed_error(dir: &str, m: &str) -> (r: Error)
    ensures
        r@ == unpack_failed_message(dir@, m@),
{
    proof {
        reveal_strlit("Failed to unpack the TAR archive into ");
        reveal_strlit(": ");
    }
    let mut s = String::from_str("Failed to unpack the TAR archive into ");
    s.append(dir);
    s.append(": ");
    s.append(m);
    proof {
        assert(s@ =~= unpack_failed_message(dir@, m@));
    }
    Error::from_message(s)
}

/// Builds the error reported for a nonzero build exit code.
fn exit_code_error(code: i32) -> (r: Error)
    ensures
        r@ == exit_code_message(code as int),
{
    proof {
        reveal_strlit("The command exited with status code ");
    }
    let mut s = String::from_str("The command exited with status code ");
    let digits = i32_to_string(code);
    s.append(digits.as_str());
    proof {
        assert(s@ =~= exit_code_message(code as int));
    }
    Error::from_message(s)
}

/// Builds the error reported when the extraction directory stayed behind.
fn cleanup_failed_error(m: &str) -> (r: Error)
    ensures
        r@ == cleanup_failed_message(m@),
{
    proof {
        reveal_strlit("Failed to remove the source directory: ");
    }
    let mut s = String::from_str("Failed to remove the source directory: ");
    s.append(m);
    proof {
        assert(s@ =~= cleanup_failed_message(m@));
    }
    Error::from_message(s)
}


} // verus!
