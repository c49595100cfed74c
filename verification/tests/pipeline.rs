use ivm::manifest::Manifest;
use ivm::pipeline::{
    is_safe_path, plan_copy_tree, resolve_version, Action, Event, InstallPipeline, PipelineState,
};
use ivm::version::Version;

/// A gzip-compressed TAR archive holding the given files.
fn targz(entries: &[(&str, &[u8])]) -> Vec<u8> {
    let mut builder = tar::Builder::new(Vec::new());
    for (path, data) in entries {
        let mut header = tar::Header::new_gnu();
        header.set_size(data.len() as u64);
        header.set_mode(0o644);
        header.set_cksum();
        builder.append_data(&mut header, path, *data).unwrap();
    }
    let tar_bytes = builder.into_inner().unwrap();
    let mut encoder =
        flate2::write::GzEncoder::new(Vec::new(), flate2::Compression::default());
    std::io::Write::write_all(&mut encoder, &tar_bytes).unwrap();
    encoder.finish().unwrap()
}

fn new_pipeline(version: Version) -> (InstallPipeline, Action) {
    InstallPipeline::new(version, "/cache/downloads", "/data/installed", false)
}

#[test]
fn test_missing_version_aborts_before_any_extraction() {
    let (mut pipeline, first) = new_pipeline(Version::new(9, 9, 9));
    match first {
        Action::CheckDir(path) => assert_eq!(path, "/cache/downloads/9.9.9"),
        _ => panic!("expected a directory check"),
    }
    // No previously extracted sources.
    match pipeline.step(Event::Exists(false)) {
        Action::Probe(url) => {
            assert_eq!(url, "https://releases.inko-lang.org/9.9.9.tar.gz")
        },
        _ => panic!("expected a probe"),
    }
    // The probe fails: the pipeline gives up without creating anything.
    match pipeline.step(Event::Exists(false)) {
        Action::Abort(e) => assert_eq!(e.message(), "The version does not exist"),
        _ => panic!("expected an abort"),
    }
    assert_eq!(pipeline.state, PipelineState::Failed);
}

#[test]
fn test_build_exit_code_aborts_with_the_code() {
    let (mut pipeline, _) = new_pipeline(Version::new(1, 0, 0));
    // A previously extracted source tree is reused.
    match pipeline.step(Event::Exists(true)) {
        Action::CheckDir(path) => assert_eq!(path, "/data/installed/1.0.0"),
        _ => panic!("expected a directory check"),
    }
    // Not installed yet: build.
    match pipeline.step(Event::Exists(false)) {
        Action::RunBuild(cmd) => {
            assert_eq!(cmd.program, "cargo");
            assert_eq!(cmd.args, vec!["build", "--release", "--features", "libffi-system"]);
            assert_eq!(cmd.rustflags, "-C target-feature=+aes");
            assert_eq!(cmd.library_dir, "/data/installed/1.0.0/lib/inko/libstd");
            assert_eq!(cmd.working_dir, "/cache/downloads/1.0.0");
        },
        _ => panic!("expected a build"),
    }
    // The build exits with code 2.
    match pipeline.step(Event::Built(Ok(Some(2)))) {
        Action::Abort(e) => {
            assert_eq!(e.message(), "The command exited with status code 2");
            assert!(e.message().contains("2"));
        },
        _ => panic!("expected an abort"),
    }
    assert_eq!(pipeline.state, PipelineState::Failed);
}

#[test]
fn test_already_installed_aborts() {
    let (mut pipeline, _) = new_pipeline(Version::new(1, 0, 0));
    pipeline.step(Event::Exists(true));
    match pipeline.step(Event::Exists(true)) {
        Action::Abort(e) => assert_eq!(e.message(), "The version is already installed"),
        _ => panic!("expected an abort"),
    }
}

#[test]
fn test_full_install_run() {
    let (mut pipeline, _) = new_pipeline(Version::new(1, 0, 0));
    match pipeline.step(Event::Exists(false)) {
        Action::Probe(url) => {
            assert_eq!(url, "https://releases.inko-lang.org/1.0.0.tar.gz")
        },
        _ => panic!("expected a probe"),
    }
    match pipeline.step(Event::Exists(true)) {
        Action::Download(url) => {
            assert_eq!(url, "https://releases.inko-lang.org/1.0.0.tar.gz")
        },
        _ => panic!("expected a download"),
    }
    let body = targz(&[("readme.txt", b"hello"), ("libstd/src/std.inko", b"module")]);
    match pipeline.step(Event::Body(Ok(body))) {
        Action::WriteEntries(dir, entries) => {
            assert_eq!(dir, "/cache/downloads/1.0.0");
            assert_eq!(entries.len(), 2);
            assert_eq!(entries[0].path, "/cache/downloads/1.0.0/readme.txt");
            assert!(!entries[0].is_dir);
            assert_eq!(entries[0].data, b"hello");
            assert_eq!(entries[1].path, "/cache/downloads/1.0.0/libstd/src/std.inko");
            assert_eq!(entries[1].data, b"module");
        },
        _ => panic!("expected the entries"),
    }
    match pipeline.step(Event::Wrote(Ok(()))) {
        Action::CheckDir(path) => assert_eq!(path, "/data/installed/1.0.0"),
        _ => panic!("expected a directory check"),
    }
    match pipeline.step(Event::Exists(false)) {
        Action::RunBuild(cmd) => assert_eq!(cmd.working_dir, "/cache/downloads/1.0.0"),
        _ => panic!("expected a build"),
    }
    match pipeline.step(Event::Built(Ok(Some(0)))) {
        Action::PlaceArtifacts(plan) => {
            assert_eq!(
                plan.dirs,
                vec![
                    "/data/installed/1.0.0/bin",
                    "/data/installed/1.0.0/lib/inko/libstd",
                    "/data/installed/1.0.0/share/licenses/inko",
                ]
            );
            assert_eq!(
                plan.copies,
                vec![
                    (
                        "/cache/downloads/1.0.0/target/release/inko".to_string(),
                        "/data/installed/1.0.0/bin/inko".to_string()
                    ),
                    (
                        "/cache/downloads/1.0.0/LICENSE".to_string(),
                        "/data/installed/1.0.0/share/licenses/inko/LICENSE".to_string()
                    ),
                ]
            );
            assert_eq!(plan.tree_src, "/cache/downloads/1.0.0/libstd/src");
            assert_eq!(plan.tree_dst, "/data/installed/1.0.0/lib/inko/libstd");
        },
        _ => panic!("expected the artifact plan"),
    }
    match pipeline.step(Event::Placed(Ok(()))) {
        Action::RemoveDir(path) => assert_eq!(path, "/cache/downloads/1.0.0"),
        _ => panic!("expected the cleanup"),
    }
    match pipeline.step(Event::Removed(Ok(()))) {
        Action::Finish => {},
        _ => panic!("expected the end"),
    }
    assert_eq!(pipeline.state, PipelineState::Finished);
}

#[test]
fn test_corrupt_archive_aborts() {
    let (mut pipeline, _) = new_pipeline(Version::new(1, 0, 0));
    pipeline.step(Event::Exists(false));
    pipeline.step(Event::Exists(true));
    match pipeline.step(Event::Body(Ok(b"not a gzip stream".to_vec()))) {
        Action::Abort(e) => {
            assert!(e
                .message()
                .starts_with("Failed to unpack the TAR archive into /cache/downloads/1.0.0: "));
        },
        _ => panic!("expected an abort"),
    }
    assert_eq!(pipeline.state, PipelineState::Failed);
}

#[test]
fn test_download_failure_aborts() {
    let (mut pipeline, _) = new_pipeline(Version::new(1, 0, 0));
    pipeline.step(Event::Exists(false));
    pipeline.step(Event::Exists(true));
    match pipeline.step(Event::Body(Err("timed out".to_string()))) {
        Action::Abort(e) => {
            assert_eq!(
                e.message(),
                "GET https://releases.inko-lang.org/1.0.0.tar.gz failed: timed out"
            );
        },
        _ => panic!("expected an abort"),
    }
}

#[test]
fn test_write_failure_reports_the_path() {
    let (mut pipeline, _) = new_pipeline(Version::new(1, 0, 0));
    pipeline.step(Event::Exists(false));
    pipeline.step(Event::Exists(true));
    let body = targz(&[("a.txt", b"a")]);
    pipeline.step(Event::Body(Ok(body)));
    match pipeline.step(Event::Wrote(Err("/cache/downloads/1.0.0/a.txt".to_string()))) {
        Action::Abort(e) => {
            assert_eq!(
                e.message(),
                "Failed to unpack the TAR archive into /cache/downloads/1.0.0: \
                 /cache/downloads/1.0.0/a.txt"
            );
        },
        _ => panic!("expected an abort"),
    }
}

#[test]
fn test_killed_build_aborts() {
    // A missing exit code — the build ended by a signal — is as fatal as a
    // nonzero one.
    let (mut pipeline, _) = new_pipeline(Version::new(1, 0, 0));
    pipeline.step(Event::Exists(true));
    pipeline.step(Event::Exists(false));
    match pipeline.step(Event::Built(Ok(None))) {
        Action::Abort(e) => {
            assert_eq!(e.message(), "The command exited without a status code")
        },
        _ => panic!("expected an abort"),
    }
    assert_eq!(pipeline.state, PipelineState::Failed);
}

#[test]
fn test_negative_exit_code() {
    let (mut pipeline, _) = new_pipeline(Version::new(1, 0, 0));
    pipeline.step(Event::Exists(true));
    pipeline.step(Event::Exists(false));
    match pipeline.step(Event::Built(Ok(Some(-5)))) {
        Action::Abort(e) => {
            assert_eq!(e.message(), "The command exited with status code -5")
        },
        _ => panic!("expected an abort"),
    }
}

#[test]
fn test_extreme_exit_code() {
    let (mut pipeline, _) = new_pipeline(Version::new(1, 0, 0));
    pipeline.step(Event::Exists(true));
    pipeline.step(Event::Exists(false));
    match pipeline.step(Event::Built(Ok(Some(i32::MIN)))) {
        Action::Abort(e) => {
            assert_eq!(e.message(), "The command exited with status code -2147483648")
        },
        _ => panic!("expected an abort"),
    }
}

#[test]
fn test_spawn_failure_aborts_with_its_message() {
    let (mut pipeline, _) = new_pipeline(Version::new(1, 0, 0));
    pipeline.step(Event::Exists(true));
    pipeline.step(Event::Exists(false));
    match pipeline.step(Event::Built(Err("No such file or directory".to_string()))) {
        Action::Abort(e) => assert_eq!(e.message(), "No such file or directory"),
        _ => panic!("expected an abort"),
    }
}

#[test]
fn test_cleanup_failure_is_reported() {
    let (mut pipeline, _) = new_pipeline(Version::new(1, 0, 0));
    pipeline.step(Event::Exists(true));
    pipeline.step(Event::Exists(false));
    pipeline.step(Event::Built(Ok(Some(0))));
    pipeline.step(Event::Placed(Ok(())));
    match pipeline.step(Event::Removed(Err("directory busy".to_string()))) {
        Action::Abort(e) => {
            assert_eq!(e.message(), "Failed to remove the source directory: directory busy")
        },
        _ => panic!("expected an abort"),
    }
}

#[test]
fn test_unsafe_archive_entries_are_rejected() {
    assert!(!is_safe_path(""));
    assert!(!is_safe_path("/etc/passwd"));
    assert!(!is_safe_path(".."));
    assert!(!is_safe_path("../evil"));
    assert!(!is_safe_path("a/../b"));
    assert!(!is_safe_path("a/.."));
    assert!(is_safe_path("a..b"));
    assert!(is_safe_path("foo/bar.txt"));
    assert!(is_safe_path("foo/..bar/baz"));
}

#[test]
fn test_resolve_version() {
    let manifest = Manifest::parse("1.0.0\n2.0.0\n").unwrap();
    assert_eq!(resolve_version("latest", &manifest), Ok(Version::new(2, 0, 0)));
    // A literal version needs no manifest entry: the manifest may be stale.
    assert_eq!(resolve_version("3.0.0", &manifest), Ok(Version::new(3, 0, 0)));
    assert!(resolve_version("nonsense", &manifest).is_err());
    let empty = Manifest::new(Vec::new());
    assert!(resolve_version("latest", &empty).is_err());
}

#[test]
fn test_plan_copy_tree() {
    let rels = vec!["std.inko".to_string(), "net/http.inko".to_string()];
    let plan = plan_copy_tree(&rels, "/src/libstd/src", "/dst/libstd");
    assert_eq!(
        plan,
        vec![
            (
                "/src/libstd/src/std.inko".to_string(),
                "/dst/libstd/std.inko".to_string()
            ),
            (
                "/src/libstd/src/net/http.inko".to_string(),
                "/dst/libstd/net/http.inko".to_string()
            ),
        ]
    );
}
