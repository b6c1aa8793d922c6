use cdylib_build::cargo::{
    cargo_supports_offline, feature_args, metadata_args, offline_probe_args, plan_build,
    target_dir_env_var, BuildIntent,
};

fn strings(items: &[&str]) -> Vec<String> {
    items.iter().map(|s| s.to_string()).collect()
}

#[test]
fn feature_args_some_renders_both_flags() {
    let args = feature_args(&Some(strings(&["a", "b"])));
    assert_eq!(args, strings(&["--no-default-features", "--features", "a,b"]));
}

#[test]
fn feature_args_some_preserves_order() {
    let args = feature_args(&Some(strings(&["zeta", "alpha", "mid"])));
    assert_eq!(args, strings(&["--no-default-features", "--features", "zeta,alpha,mid"]));
}

#[test]
fn feature_args_empty_list_is_no_features_at_all() {
    let args = feature_args(&Some(Vec::new()));
    assert_eq!(args, strings(&["--no-default-features", "--features", ""]));
}

#[test]
fn feature_args_none_renders_nothing() {
    let args = feature_args(&None);
    assert!(args.is_empty());
}

#[test]
fn self_library_args_with_features() {
    let intent = BuildIntent::SelfLibrary { features: Some(strings(&["a", "b"])) };
    let inv = plan_build(&intent, None);
    assert_eq!(
        inv.args,
        strings(&[
            "build",
            "--message-format=json",
            "--no-default-features",
            "--features",
            "a,b",
            "--lib",
        ])
    );
    assert!(inv.current_dir.is_none());
    assert!(inv.target_dir_override.is_none());
}

#[test]
fn example_args_name_last() {
    let intent = BuildIntent::Example { name: "demo".to_string(), features: None };
    let inv = plan_build(&intent, Some(true));
    assert_eq!(
        inv.args,
        strings(&["--offline", "build", "--message-format=json", "--example", "demo"])
    );
}

#[test]
fn external_package_sets_directory_and_target_override() {
    let intent = BuildIntent::ExternalPackage { dir: "/pkg".to_string(), features: None };
    let inv = plan_build(&intent, None);
    assert_eq!(inv.args, strings(&["build", "--message-format=json"]));
    assert_eq!(inv.current_dir.as_deref(), Some("/pkg"));
    assert_eq!(inv.target_dir_override.as_deref(), Some("/pkg/target"));
    assert_eq!(target_dir_env_var(), "CARGO_TARGET_DIR");
}

#[test]
fn failed_offline_probe_disables_offline_flag() {
    // The probe exited with code 1: offline mode stays unsupported and the
    // real invocation must not carry the flag.
    assert!(!cargo_supports_offline(Some(false)));
    let intent = BuildIntent::SelfLibrary { features: None };
    let inv = plan_build(&intent, Some(false));
    assert!(!inv.args.iter().any(|a| a == "--offline"));
}

#[test]
fn unspawnable_offline_probe_disables_offline_flag() {
    assert!(!cargo_supports_offline(None));
    let intent = BuildIntent::SelfLibrary { features: None };
    let inv = plan_build(&intent, None);
    assert!(!inv.args.iter().any(|a| a == "--offline"));
}

#[test]
fn successful_offline_probe_enables_offline_flag() {
    assert!(cargo_supports_offline(Some(true)));
    let intent = BuildIntent::SelfLibrary { features: None };
    let inv = plan_build(&intent, Some(true));
    assert_eq!(inv.args[0], "--offline");
}

#[test]
fn default_selection_has_no_feature_flags() {
    let intent = BuildIntent::SelfLibrary { features: None };
    let inv = plan_build(&intent, None);
    assert!(!inv
        .args
        .iter()
        .any(|a| a == "--no-default-features" || a == "--features"));
}

#[test]
fn probe_and_metadata_argument_lists() {
    assert_eq!(offline_probe_args(), strings(&["--version", "--offline"]));
    assert_eq!(metadata_args(), strings(&["metadata", "--format-version=1"]));
}
