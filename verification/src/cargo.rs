//! Planning of toolchain invocations and decoding of the toolchain's
//! metadata query.
//!
//! Everything here is pure: the functions turn a build intent, a feature
//! selection and the outcome of the offline-capability probe into the exact
//! argument list, working directory and environment override that the
//! caller must apply to the subprocess it spawns.

use vstd::prelude::*;
use vstd::string::StringExecFns;

use crate::error::Error;
use crate::strings::{comma_join, join_with_commas};

verus! {

/// The two facts the metadata query exposes: where build artifacts are
/// written, and the root directory of the current workspace.
pub struct Metadata {
    pub target_directory: String,
    pub workspace_root: String,
}

/// What the caller wants built: an arbitrary package directory, the current
/// package's own library, or a named example target.  Each intent carries
/// its feature selection; `None` keeps the package's default feature set,
/// `Some(list)` disables the defaults and enables exactly `list`.
pub enum BuildIntent {
    ExternalPackage { dir: String, features: Option<Vec<String>> },
    SelfLibrary { features: Option<Vec<String>> },
    Example { name: String, features: Option<Vec<String>> },
}

/// Everything the caller must apply to the build subprocess: the argument
/// list, an optional working directory, and an optional override for the
/// artifact output directory (the value of the `CARGO_TARGET_DIR`
/// environment variable).
pub struct Invocation {
    pub args: Vec<String>,
    pub current_dir: Option<String>,
    pub target_dir_override: Option<String>,
}

/// The arguments a feature selection renders to: nothing for `None`,
/// and the disable-defaults flag followed by the explicit comma-joined
/// list for `Some`.
pub open spec fn feature_args_model(features: Option<Seq<Seq<char>>>) -> Seq<Seq<char>> {
    match features {
        Some(list) => seq!["--no-default-features"@, "--features"@, comma_join(list)],
        None => Seq::empty(),
    }
}

/// The arguments shared by every build invocation: the optional offline
/// flag, the build subcommand, the structured-output flag, and the
/// rendered feature selection.
pub open spec fn base_args(offline: bool, features: Option<Seq<Seq<char>>>) -> Seq<Seq<char>> {
    (if offline {
        seq!["--offline"@]
    } else {
        Seq::empty()
    }) + seq!["build"@, "--message-format=json"@] + feature_args_model(features)
}

/// The full argument list for a build intent.
pub open spec fn invocation_args(intent: BuildIntent, offline: bool) -> Seq<Seq<char>> {
    match intent {
        BuildIntent::ExternalPackage { dir, features } => base_args(offline, features.deep_view()),
        BuildIntent::SelfLibrary { features } => base_args(offline, features.deep_view())
            + seq!["--lib"@],
        BuildIntent::Example { name, features } => base_args(offline, features.deep_view())
            + seq!["--example"@, name@],
    }
}

/// Whether the offline flag is added, given the probe's outcome: `None`
/// when the probe subprocess could not be spawned, `Some(s)` when it exited
/// with success `s`.  Only a cleanly successful probe enables the flag.
pub open spec fn offline_enabled(probe: Option<bool>) -> bool {
    probe matches Some(true)
}

/// Decides from the offline-capability probe's outcome whether the
/// toolchain supports offline mode.  A probe that could not be spawned or
/// exited unsuccessfully means "unsupported", never an error.
pub fn cargo_supports_offline(probe: Option<bool>) -> (r: bool)
    ensures
        r == offline_enabled(probe),
{
    match probe {
        Some(success) => success,
        None => false,
    }
}

/// The arguments of the offline-capability probe: a version query plus the
/// offline flag.
pub fn offline_probe_args() -> (r: Vec<String>)
    ensures
        r.deep_view() =~= seq!["--version"@, "--offline"@],
{
    let mut args: Vec<String> = Vec::new();
    args.push(String::from_str("--version"));
    args.push(String::from_str("--offline"));
    args
}

/// The arguments of the metadata query, pinned to a stable output format.
pub fn metadata_args() -> (r: Vec<String>)
    ensures
        r.deep_view() =~= seq!["metadata"@, "--format-version=1"@],
{
    let mut args: Vec<String> = Vec::new();
    args.push(String::from_str("metadata"));
    args.push(String::from_str("--format-version=1"));
    args
}

/// The name of the environment variable that overrides the artifact output
/// directory.
pub fn target_dir_env_var() -> (r: &'static str)
    ensures
        r@ == "CARGO_TARGET_DIR"@,
{
    "CARGO_TARGET_DIR"
}

/// Renders a feature selection as toolchain arguments: for `Some(list)`,
/// the disable-defaults flag followed by the features flag and the
/// comma-join of `list` in original order; for `None`, nothing.
pub fn feature_args(features: &Option<Vec<String>>) -> (r: Vec<String>)
    ensures
        r.deep_view() == feature_args_model(features.deep_view()),
{
    match features {
        Some(list) => {
            let mut args: Vec<String> = Vec::new();
            args.push(String::from_str("--no-default-features"));
            args.push(String::from_str("--features"));
            args.push(join_with_commas(list));
            proof {
                assert(args.deep_view() =~= feature_args_model(features.deep_view()));
            }
            args
        },
        None => {
            let args: Vec<String> = Vec::new();
            proof {
                assert(args.deep_view() =~= feature_args_model(features.deep_view()));
            }
            args
        },
    }
}

/// Plans the subprocess invocation for a build intent, given the outcome
/// of the offline-capability probe.  For an external package the build
/// runs in the package directory and writes its artifacts to a `target`
/// subdirectory beneath it; the other intents run in place.
pub fn plan_build(intent: &BuildIntent, probe: Option<bool>) -> (inv: Invocation)
    ensures
        inv.args.deep_view() == invocation_args(*intent, offline_enabled(probe)),
        match *intent {
            BuildIntent::ExternalPackage { dir, features: _ } => {
                &&& inv.current_dir matches Some(d) && d@ == dir@
                &&& inv.target_dir_override matches Some(t) && t@ == dir@ + "/target"@
            },
            _ => inv.current_dir is None && inv.target_dir_override is None,
        },
{
    let offline = cargo_supports_offline(probe);
    let mut args: Vec<String> = Vec::new();
    if offline {
        args.push(String::from_str("--offline"));
    }
    args.push(String::from_str("build"));
    args.push(String::from_str("--message-format=json"));
    let features = match intent {
        BuildIntent::ExternalPackage { dir: _, features } => features,
        BuildIntent::SelfLibrary { features } => features,
        BuildIntent::Example { name: _, features } => features,
    };
    let mut fargs = feature_args(features);
    let ghost head = args.deep_view();
    let ghost tail = fargs.deep_view();
    args.append(&mut fargs);
    proof {
        assert(args.deep_view() =~= head + tail);
    }
    match intent {
        BuildIntent::ExternalPackage { dir, features: _ } => {
            proof {
                assert(args.deep_view() =~= invocation_args(*intent, offline_enabled(probe)));
            }
            Invocation {
                args,
                current_dir: Some(dir.clone()),
                target_dir_override: Some(dir.clone().concat("/target")),
            }
        },
        BuildIntent::SelfLibrary { features: _ } => {
            let ghost before = args.deep_view();
            args.push(String::from_str("--lib"));
            proof {
                assert(args.deep_view() =~= before + seq!["--lib"@]);
                assert(args.deep_view() =~= invocation_args(*intent, offline_enabled(probe)));
            }
            Invocation { args, current_dir: None, target_dir_override: None }
        },
        BuildIntent::Example { name, features: _ } => {
            let ghost before = args.deep_view();
            args.push(String::from_str("--example"));
            args.push(name.clone());
            proof {
                assert(args.deep_view() =~= before + seq!["--example"@, name@]);
                assert(args.deep_view() =~= invocation_args(*intent, offline_enabled(probe)));
            }
            Invocation { args, current_dir: None, target_dir_override: None }
        },
    }
}

/// The two directory fields of the decoded metadata output, or `None` when
/// the output cannot be decoded into the expected shape.  The result
/// depends on the bytes alone.
pub uninterp spec fn metadata_fields_of(bytes: Seq<u8>) -> Option<(Seq<char>, Seq<char>)>;

/// Relies on `serde_json::from_slice` to decode the captured output as a
/// JSON value, and on `serde_json::Value::get` and `serde_json::Value::as_str`
/// to extract the `target_directory` and `workspace_root` string fields;
/// yields `None` whenever the output is not such a record.
#[verifier::external_body]
fn decode_metadata_fields(bytes: &[u8]) -> (r: Option<(String, String)>)
    ensures
        r matches Some(f) ==> metadata_fields_of(bytes@) matches Some(m) && f.0@ == m.0 && f.1@
            == m.1,
        r is None ==> metadata_fields_of(bytes@) is None,
{
    let value: serde_json::Value = match serde_json::from_slice(bytes) {
        Ok(v) => v,
        Err(_) => return None,
    };
    let target = value.get("target_directory")?.as_str()?;
    let root = value.get("workspace_root")?.as_str()?;
    Some((target.to_owned(), root.to_owned()))
}

/// Decodes the captured output of the metadata query.  Succeeds exactly
/// when the output decodes to a record with the two expected directory
/// fields; anything else is a decode failure.
pub fn metadata_from_output(stdout: &[u8]) -> (r: Result<Metadata, Error>)
    ensures
        match metadata_fields_of(stdout@) {
            Some(m) => r matches Ok(md) && md.target_directory@ == m.0 && md.workspace_root@
                == m.1,
            None => r matches Err(e) && e matches Error::MetadataDecode,
        },
{
    match decode_metadata_fields(stdout) {
        Some(fields) => {
            let (target_directory, workspace_root) = fields;
            Ok(Metadata { target_directory, workspace_root })
        },
        None => Err(Error::MetadataDecode),
    }
}

/// For a `Some` feature selection, the planned argument list carries the
/// disable-defaults flag, the features flag, and the comma-join of the
/// list, adjacent and in that order.
pub proof fn lemma_feature_flags_present(intent: BuildIntent, offline: bool, list: Seq<Seq<char>>)
    requires
        match intent {
            BuildIntent::ExternalPackage { dir: _, features } => features.deep_view() == Some(
                list,
            ),
            BuildIntent::SelfLibrary { features } => features.deep_view() == Some(list),
            BuildIntent::Example { name: _, features } => features.deep_view() == Some(list),
        },
    ensures
        exists|k: int|
            {
                &&& 0 <= k
                &&& k + 2 < invocation_args(intent, offline).len()
                &&& #[trigger] invocation_args(intent, offline)[k] == "--no-default-features"@
                &&& invocation_args(intent, offline)[k + 1] == "--features"@
                &&& invocation_args(intent, offline)[k + 2] == comma_join(list)
            },
{
    let k: int = if offline {
        3
    } else {
        2
    };
    let args = invocation_args(intent, offline);
    assert(args[k] == "--no-default-features"@);
    assert(args[k + 1] == "--features"@);
    assert(args[k + 2] == comma_join(list));
}

/// For the default feature selection (`None`) neither feature flag occurs
/// anywhere in the shared build arguments.
pub proof fn lemma_no_feature_flags_when_default(offline: bool)
    ensures
        forall|j: int|
            0 <= j < base_args(offline, None).len() ==> base_args(offline, None)[j]
                != "--no-default-features"@ && base_args(offline, None)[j] != "--features"@,
{
    reveal_strlit("--offline");
    reveal_strlit("build");
    reveal_strlit("--message-format=json");
    reveal_strlit("--no-default-features");
    reveal_strlit("--features");
    assert("--offline"@.len() == 9);
    assert("build"@.len() == 5);
    assert("--message-format=json"@.len() == 21);
    assert("--no-default-features"@.len() == 21);
    assert("--features"@.len() == 10);
    assert("--message-format=json"@[2] == 'm');
    assert("--no-default-features"@[2] == 'n');
}

/// For the default selection neither feature flag occurs anywhere in the
/// whole planned argument list of a package or self-library build.  (An
/// example build is left out only because its target name is the caller's
/// own string and may collide with anything.)
pub proof fn lemma_no_feature_flags_in_plan(intent: BuildIntent, offline: bool)
    requires
        match intent {
            BuildIntent::ExternalPackage { dir: _, features } => features is None,
            BuildIntent::SelfLibrary { features } => features is None,
            BuildIntent::Example { name: _, features: _ } => false,
        },
    ensures
        forall|j: int|
            0 <= j < invocation_args(intent, offline).len() ==> invocation_args(intent, offline)[j]
                != "--no-default-features"@ && invocation_args(intent, offline)[j]
                != "--features"@,
{
    lemma_no_feature_flags_when_default(offline);
    reveal_strlit("--lib");
    reveal_strlit("--no-default-features");
    reveal_strlit("--features");
    assert("--lib"@.len() == 5);
    assert("--no-default-features"@.len() == 21);
    assert("--features"@.len() == 10);
}

} // verus!
