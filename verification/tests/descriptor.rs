use cdylib_build::manifest::{
    Build, Config, EntryTable, FeatureMap, Lib, Manifest, Name, Package, Workspace,
};

fn package() -> Package {
    Package {
        name: "probe".to_string(),
        version: "0.0.0".to_string(),
        edition: "2021".to_string(),
        publish: false,
    }
}

fn bare_manifest() -> Manifest {
    Manifest {
        package: package(),
        features: FeatureMap::new(),
        dependencies: EntryTable::new(),
        lib: Lib::new("main.rs".to_string()),
        workspace: Some(Workspace {}),
        patch: EntryTable::new(),
        replace: EntryTable::new(),
    }
}

#[test]
fn bare_manifest_renders_expected_text() {
    let expected = "[package]\nname = \"probe\"\nversion = \"0.0.0\"\nedition = \"2021\"\npublish = false\n\n[dependencies]\n\n[lib]\npath = \"main.rs\"\ncrate-type = [\"cdylib\"]\n\n[workspace]\n";
    assert_eq!(bare_manifest().to_toml(), expected);
}

#[test]
fn empty_tables_are_omitted() {
    let text = bare_manifest().to_toml();
    assert!(!text.contains("[features]"));
    assert!(!text.contains("[patch]"));
    assert!(!text.contains("[replace]"));
}

#[test]
fn absent_workspace_marker_is_omitted() {
    let mut m = bare_manifest();
    m.workspace = None;
    assert!(!m.to_toml().contains("[workspace]"));
    m.workspace = Some(Workspace {});
    assert!(m.to_toml().contains("\n[workspace]\n"));
}

#[test]
fn dependency_keys_are_sorted() {
    let mut deps = EntryTable::new();
    deps.insert("serde".to_string(), "\"1.0\"".to_string());
    deps.insert("anyhow".to_string(), "\"1\"".to_string());
    deps.insert("quote".to_string(), "{ version = \"1\" }".to_string());
    let mut m = bare_manifest();
    m.dependencies = deps;
    let text = m.to_toml();
    let expected = "\n[dependencies]\nanyhow = \"1\"\nquote = { version = \"1\" }\nserde = \"1.0\"\n";
    assert!(text.contains(expected));
}

#[test]
fn duplicate_dependency_key_is_replaced() {
    let mut deps = EntryTable::new();
    deps.insert("serde".to_string(), "\"1.0\"".to_string());
    deps.insert("serde".to_string(), "\"2.0\"".to_string());
    let mut m = bare_manifest();
    m.dependencies = deps;
    let text = m.to_toml();
    assert!(text.contains("serde = \"2.0\"\n"));
    assert!(!text.contains("serde = \"1.0\""));
}

#[test]
fn populated_feature_map_renders_sorted_lines() {
    let mut features = FeatureMap::new();
    features.insert("extra".to_string(), vec!["base".to_string()]);
    features.insert("base".to_string(), Vec::new());
    let mut m = bare_manifest();
    m.features = features;
    let text = m.to_toml();
    assert!(text.contains("\n[features]\nbase = []\nextra = [\"base\"]\n"));
}

#[test]
fn patch_and_replace_render_when_populated() {
    let mut patch = EntryTable::new();
    patch.insert("crates-io".to_string(), "{ path = \"/vendor\" }".to_string());
    let mut replace = EntryTable::new();
    replace.insert("demo:1.0.0".to_string(), "{ path = \"/demo\" }".to_string());
    let mut m = bare_manifest();
    m.patch = patch;
    m.replace = replace;
    let text = m.to_toml();
    assert!(text.contains("\n[patch]\ncrates-io = { path = \"/vendor\" }\n"));
    assert!(text.contains("\n[replace]\ndemo:1.0.0 = { path = \"/demo\" }\n"));
}

#[test]
fn serialization_is_deterministic() {
    let build = |keys: &[(&str, &str)]| {
        let mut deps = EntryTable::new();
        for (k, v) in keys {
            deps.insert(k.to_string(), v.to_string());
        }
        let mut m = bare_manifest();
        m.dependencies = deps;
        m.to_toml()
    };
    // The same logical table, inserted in two different orders, renders to
    // byte-identical text.
    let a = build(&[("b", "\"1\""), ("a", "\"2\"")]);
    let b = build(&[("a", "\"2\""), ("b", "\"1\"")]);
    assert_eq!(a, b);
    assert_eq!(a, build(&[("b", "\"1\""), ("a", "\"2\"")]));
}

#[test]
fn config_renders_flag_array() {
    let config = Config {
        build: Build { rustflags: vec!["--cfg".to_string(), "probe".to_string()] },
    };
    assert_eq!(config.to_toml(), "[build]\nrustflags = [\"--cfg\", \"probe\"]\n");
    let empty = Config { build: Build { rustflags: Vec::new() } };
    assert_eq!(empty.to_toml(), "[build]\nrustflags = []\n");
}

#[test]
fn name_passes_through_verbatim() {
    let name = Name("my-example".to_string());
    assert_eq!(name.as_str(), "my-example");
    assert_eq!(name.0, "my-example");
}

#[test]
fn lib_target_keeps_its_path() {
    let lib = Lib::new("src/entry.rs".to_string());
    assert_eq!(lib.path, "src/entry.rs");
}
