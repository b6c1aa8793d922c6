use cdylib_build::cargo::metadata_from_output;
use cdylib_build::error::Error;
use cdylib_build::events::{resolve_events, ArtifactResolver, BuildEvent};

fn artifact(paths: &[&str]) -> BuildEvent {
    BuildEvent::CompilerArtifact(paths.iter().map(|p| p.to_string()).collect())
}

fn diagnostic(text: &str) -> BuildEvent {
    BuildEvent::CompilerDiagnostic(text.to_string())
}

#[test]
fn failing_exit_is_failure_despite_artifacts() {
    let events = vec![artifact(&["/out/liba.so"]), artifact(&["/out/libb.so"])];
    let r = resolve_events(events, false);
    assert!(matches!(r, Err(Error::ToolchainBuildFailed)));
}

#[test]
fn last_artifact_wins() {
    let events = vec![
        artifact(&["/out/first.so"]),
        diagnostic("warning: something"),
        artifact(&["/out/second.so", "/out/second.d"]),
        BuildEvent::Other,
    ];
    let r = resolve_events(events, true);
    assert_eq!(r.ok().as_deref(), Some("/out/second.so"));
}

#[test]
fn success_without_artifact_is_no_artifact_produced() {
    let events = vec![diagnostic("note: compiling"), BuildEvent::Other];
    let r = resolve_events(events, true);
    assert!(matches!(r, Err(Error::NoArtifactProduced)));
}

#[test]
fn empty_stream_with_success_is_no_artifact_produced() {
    let r = resolve_events(Vec::new(), true);
    assert!(matches!(r, Err(Error::NoArtifactProduced)));
}

#[test]
fn self_library_scenario_resolves_artifact_path() {
    // Intent: the current package's own library, default features.
    let events = vec![artifact(&["/out/libx.so"])];
    let r = resolve_events(events, true);
    assert_eq!(r.ok().as_deref(), Some("/out/libx.so"));
}

#[test]
fn example_scenario_with_failing_exit() {
    // Intent: a named example; the stream carries one diagnostic and the
    // subprocess exits with code 101.
    let events = vec![diagnostic("error: mismatched types")];
    let r = resolve_events(events, false);
    assert!(matches!(r, Err(Error::ToolchainBuildFailed)));
}

const ARTIFACT_LINE: &str = r#"{"reason":"compiler-artifact","package_id":"x 0.1.0 (path+file:///x)","target":{"name":"x","kind":["cdylib"],"src_path":"/x/src/lib.rs"},"profile":{"opt_level":"0","debug_assertions":true,"overflow_checks":true,"test":false},"features":[],"filenames":["/x/target/debug/libx.so","/x/target/debug/libx.d"],"executable":null,"fresh":false}"#;

const MESSAGE_LINE: &str = r#"{"reason":"compiler-message","package_id":"x 0.1.0 (path+file:///x)","target":{"name":"x","kind":["cdylib"],"src_path":"/x/src/lib.rs"},"message":{"message":"mismatched types","code":null,"level":"error","spans":[],"children":[],"rendered":"error: mismatched types"}}"#;

#[test]
fn decoded_artifact_line_resolves_to_first_path() {
    let mut resolver = ArtifactResolver::new();
    let forwarded = resolver.feed_line(ARTIFACT_LINE);
    assert!(matches!(forwarded, Ok(None)));
    let r = resolver.resolve(true);
    assert_eq!(r.ok().as_deref(), Some("/x/target/debug/libx.so"));
}

#[test]
fn decoded_diagnostic_line_is_forwarded() {
    let mut resolver = ArtifactResolver::new();
    let forwarded = resolver.feed_line(MESSAGE_LINE);
    match forwarded {
        Ok(Some(text)) => assert_eq!(text, "error: mismatched types"),
        _ => panic!("expected a forwarded diagnostic"),
    }
    let r = resolver.resolve(true);
    assert!(matches!(r, Err(Error::NoArtifactProduced)));
}

#[test]
fn plain_text_line_is_ignored() {
    let mut resolver = ArtifactResolver::new();
    let forwarded = resolver.feed_line("warning: build ran long");
    assert!(matches!(forwarded, Ok(None)));
    let forwarded = resolver.feed_line("");
    assert!(matches!(forwarded, Ok(None)));
    let r = resolver.resolve(true);
    assert!(matches!(r, Err(Error::NoArtifactProduced)));
}

#[test]
fn build_finished_line_is_ignored() {
    let mut resolver = ArtifactResolver::new();
    let forwarded = resolver.feed_line(r#"{"reason":"build-finished","success":true}"#);
    assert!(matches!(forwarded, Ok(None)));
}

#[test]
fn malformed_structured_line_is_a_decode_error() {
    let mut resolver = ArtifactResolver::new();
    let r = resolver.feed_line(r#"{"reason":"compiler-artifact""#);
    assert!(matches!(r, Err(Error::StreamDecode(_))));
}

#[test]
fn later_artifact_replaces_earlier_one_across_lines() {
    let mut resolver = ArtifactResolver::new();
    assert!(matches!(resolver.feed_line(ARTIFACT_LINE), Ok(None)));
    let second = ARTIFACT_LINE.replace("libx.so", "liby.so");
    assert!(matches!(resolver.feed_line(&second), Ok(None)));
    let r = resolver.resolve(true);
    assert_eq!(r.ok().as_deref(), Some("/x/target/debug/liby.so"));
}

#[test]
fn metadata_output_decodes_both_directories() {
    let raw = br#"{"workspace_root":"/home/u/proj","target_directory":"/home/u/proj/target","version":1}"#;
    match metadata_from_output(raw) {
        Ok(md) => {
            assert_eq!(md.target_directory, "/home/u/proj/target");
            assert_eq!(md.workspace_root, "/home/u/proj");
        },
        Err(_) => panic!("expected the metadata to decode"),
    }
}

#[test]
fn metadata_output_missing_field_is_a_decode_error() {
    let raw = br#"{"workspace_root":"/home/u/proj"}"#;
    assert!(matches!(metadata_from_output(raw), Err(Error::MetadataDecode)));
}

#[test]
fn metadata_output_malformed_is_a_decode_error() {
    assert!(matches!(metadata_from_output(b"not json at all"), Err(Error::MetadataDecode)));
}

#[test]
fn error_descriptions_are_stable() {
    assert_eq!(Error::ToolchainBuildFailed.describe(), "the toolchain build failed");
    assert_eq!(Error::NoArtifactProduced.describe(), "the build produced no artifact");
    assert_eq!(
        Error::MetadataDecode.describe(),
        "failed to decode the metadata output"
    );
    assert_eq!(
        Error::ToolchainSpawn("no such file".to_string()).describe(),
        "failed to spawn the toolchain: no such file"
    );
    assert_eq!(
        Error::StreamDecode("{oops".to_string()).describe(),
        "failed to decode a build event: {oops"
    );
}
