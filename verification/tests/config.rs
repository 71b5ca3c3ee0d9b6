use cargo_reedme::config::{
    Config, ConfigToml, ConfigTomlRustdocShared, FeatureSelection, PackageMetadata, Target,
};

fn own(f: impl FnOnce(&mut ConfigToml)) -> Option<ConfigToml> {
    let mut c = ConfigToml::empty();
    f(&mut c);
    Some(c)
}

fn docs(f: impl FnOnce(&mut ConfigTomlRustdocShared)) -> Option<ConfigTomlRustdocShared> {
    let mut c = ConfigTomlRustdocShared::empty();
    f(&mut c);
    Some(c)
}

fn meta(
    cargo_reedme: Option<ConfigToml>,
    docs_rs: Option<ConfigTomlRustdocShared>,
) -> PackageMetadata {
    PackageMetadata { cargo_reedme, docs_rs }
}

fn strings(v: &[&str]) -> Vec<String> {
    v.iter().map(|s| s.to_string()).collect()
}

fn same_target(a: &Target, b: &Target) -> bool {
    a.to_string() == b.to_string()
}

/// The fields of two configurations agree.
fn assert_config_eq(a: &Config, b: &Config) {
    assert_eq!(a.base_url, b.base_url);
    assert_eq!(a.note, b.note);
    assert!(same_target(&a.target, &b.target));
    assert_eq!(a.increment_headings, b.increment_headings);
    assert_eq!(a.use_latest_version, b.use_latest_version);
    assert_eq!(a.features, b.features);
    assert_eq!(a.all_features, b.all_features);
    assert_eq!(a.no_default_features, b.no_default_features);
    assert_eq!(a.rustc_args, b.rustc_args);
    assert_eq!(a.rustdoc_args, b.rustdoc_args);
}

#[test]
fn workspace_inheritance() {
    let ws = meta(own(|c| c.base_url = Some("https://workspace.io".into())), None);
    let pkg = meta(own(|c| c.note = Some("Package Note".into())), None);
    let mut expected = Config::default_config();
    expected.base_url = "https://workspace.io".into();
    // Off the default base URL, links name the package's version
    expected.use_latest_version = false;
    expected.note = "Package Note".into();
    assert_config_eq(&Config::new(ws, pkg), &expected);
}

#[test]
fn docs_rs_fallback() {
    let pkg = meta(
        own(|c| c.base_url = Some("https://fixed.com".into())),
        docs(|d| d.rustdoc_args = Some(strings(&["--cfg", "docsrs"]))),
    );
    let mut expected = Config::default_config();
    expected.base_url = "https://fixed.com".into();
    expected.use_latest_version = false;
    expected.rustdoc_args = strings(&["--cfg", "docsrs"]);
    assert_config_eq(&Config::new(meta(None, None), pkg), &expected);
}

#[test]
fn package_priority_over_docs_rs() {
    let pkg = meta(own(|c| c.cargo.all_features = Some(false)), docs(|d| d.all_features = Some(true)));
    let mut expected = Config::default_config();
    expected.all_features = Some(false);
    assert_config_eq(&Config::new(meta(None, None), pkg), &expected);
}

#[test]
fn docs_rs_priority_over_workspace() {
    let ws = meta(own(|c| c.cargo.rustc_args = Some(strings(&["--generic"]))), None);
    let pkg = meta(None, docs(|d| d.rustc_args = Some(strings(&["--target-cpu=native"]))));
    let mut expected = Config::default_config();
    expected.rustc_args = strings(&["--target-cpu=native"]);
    assert_config_eq(&Config::new(ws, pkg), &expected);
}

#[test]
fn target_enum_deserialization() {
    let target = Target::from_str("bin:server-app").ok().unwrap();
    let pkg = meta(own(|c| c.target = Some(target)), None);
    let mut expected = Config::default_config();
    expected.target = Target::BinExact("server-app".into());
    assert_config_eq(&Config::new(meta(None, None), pkg), &expected);
}

#[test]
fn default_config_values() {
    let c = Config::default_config();
    assert_eq!(c.base_url, "https://docs.rs");
    assert!(c.note.contains("cargo reedme {args}"));
    assert!(c.increment_headings);
    assert!(matches!(c.target, Target::Heuristic));
    assert!(!c.affects_cargo_metadata());
}

#[test]
fn target_text_round_trip() {
    for text in ["lib", "bin", "heuristic", "bin:first"] {
        assert_eq!(Target::from_str(text).ok().unwrap().to_string(), text);
    }
    assert!(Target::from_str("library").is_err());
    assert!(Target::from_str("lib:x").is_err());
    assert!(Target::from_str("library").err().unwrap().message().contains("heuristic"));
}

#[test]
fn features_affect_metadata() {
    let mut c = Config::default_config();
    c.features = Some(vec!["a".into()]);
    assert!(c.affects_cargo_metadata());
}

#[test]
fn cli_overrides_config_features() {
    let mut c = Config::default_config();
    c.features = Some(strings(&["a"]));
    c.no_default_features = Some(false);
    c.all_features = Some(false);
    let cli = FeatureSelection { all_features: true, no_default_features: true, features: strings(&["b"]) };
    let s = FeatureSelection::for_config(&c, &cli);
    assert!(s.all_features);
    assert!(s.no_default_features);
    assert_eq!(s.features, strings(&["b"]));

    let none = FeatureSelection { all_features: false, no_default_features: false, features: vec![] };
    let s = FeatureSelection::for_config(&c, &none);
    assert!(!s.all_features);
    assert!(!s.no_default_features);
    assert_eq!(s.features, strings(&["a"]));
}

#[test]
fn workspace_fills_what_package_leaves_unset() {
    let ws = meta(own(|c| {
        c.increment_headings = Some(false);
        c.use_latest_version = Some(false);
        c.note = Some("ws".into());
    }), None);
    let pkg = meta(own(|c| c.note = Some("pkg".into())), None);
    let c = Config::new(ws, pkg);
    assert!(!c.increment_headings);
    assert!(!c.use_latest_version);
    assert_eq!(c.note, "pkg");
}

#[test]
fn latest_version_only_on_docs_rs_unless_set() {
    assert!(Config::new(meta(None, None), meta(None, None)).use_latest_version);
    let docs_rs = meta(own(|c| c.base_url = Some("https://docs.rs".into())), None);
    assert!(Config::new(meta(None, None), docs_rs).use_latest_version);
    let other = meta(own(|c| c.base_url = Some("https://example.com".into())), None);
    assert!(!Config::new(meta(None, None), other).use_latest_version);
    let forced = meta(own(|c| {
        c.base_url = Some("https://example.com".into());
        c.use_latest_version = Some(true);
    }), None);
    assert!(Config::new(meta(None, None), forced).use_latest_version);
}
