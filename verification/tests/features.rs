//! Which features the documentation is built with: the package's
//! configuration, overridden by the command line, decides the selection that
//! is handed to cargo. Each case documents a crate whose root documentation
//! has a line `f` for each enabled feature `f` and `!f` for each disabled one.

use cargo_reedme::config::{
    Config, ConfigToml, ConfigTomlRustdocShared, FeatureSelection, PackageMetadata,
};
use cargo_reedme::insert_into_readme::ReadmeContents;
use cargo_reedme::intralinks::{CrateModel, ItemInner, ItemModel};
use cargo_reedme::readme::generate_readme;

#[derive(Default)]
struct Case<'a> {
    expected_features: Vec<(&'a str, bool)>,
    cargo_default_features: Vec<&'a str>,

    cli_features: Vec<&'a str>,
    cli_no_default_features: bool,
    cli_all_features: bool,

    config_features: Option<Vec<&'a str>>,
    config_no_default_features: Option<bool>,
    config_all_features: Option<bool>,
}

fn strings(v: &[&str]) -> Vec<String> {
    v.iter().map(|s| s.to_string()).collect()
}

/// Whether cargo enables `feature` for the selection, with the package's
/// default features `defaults` and no feature enabling another.
fn enabled_by_cargo(selection: &FeatureSelection, defaults: &[&str], feature: &str) -> bool {
    selection.all_features
        || selection.features.iter().any(|f| f == feature)
        || (!selection.no_default_features && defaults.contains(&feature))
}

fn docs_crate(docs: &str) -> CrateModel {
    CrateModel {
        root: 0,
        root_docs: Some(docs.to_string()),
        root_links: vec![],
        index: vec![ItemModel { id: 0, crate_id: 0, name: Some("test_case".into()), inner: ItemInner::Module }],
        paths: vec![],
        external_crates: vec![],
    }
}

fn test(case: Case) {
    let mut shared = ConfigTomlRustdocShared::empty();
    shared.features = case.config_features.as_deref().map(strings);
    shared.no_default_features = case.config_no_default_features;
    shared.all_features = case.config_all_features;
    let mut table = ConfigToml::empty();
    table.cargo = shared;
    let config = Config::new(
        PackageMetadata { cargo_reedme: None, docs_rs: None },
        PackageMetadata { cargo_reedme: Some(table), docs_rs: None },
    );
    let cli = FeatureSelection {
        all_features: case.cli_all_features,
        no_default_features: case.cli_no_default_features,
        features: strings(&case.cli_features),
    };
    let selection = FeatureSelection::for_config(&config, &cli);

    // The crate's documentation as rustdoc reports it for that selection
    let docs = case
        .expected_features
        .iter()
        .map(|(feature, _)| {
            if enabled_by_cargo(&selection, &case.cargo_default_features, feature) {
                feature.to_string()
            } else {
                format!("!{feature}")
            }
        })
        .collect::<Vec<_>>()
        .join("\n");

    let generated = match generate_readme(&config, &docs_crate(&docs), "test_case", "0.0.0", "", None) {
        Ok(Some(ReadmeContents::NewlyCreated(s))) => s,
        _ => panic!("a README is generated"),
    };

    let expected = case
        .expected_features
        .iter()
        .map(|(feature, is_enabled)| if *is_enabled { feature.to_string() } else { format!("!{feature}") })
        .collect::<Vec<_>>()
        .join("\n");
    assert_eq!(generated, expected);
}

#[test]
fn disabled_feature() {
    test(Case { expected_features: vec![("a", false)], ..Default::default() });
}

#[test]
fn enabled_feature_via_cli() {
    test(Case { expected_features: vec![("a", true)], cli_features: vec!["a"], ..Default::default() });
}

#[test]
fn enabled_feature_via_config() {
    test(Case { expected_features: vec![("a", true)], config_features: Some(vec!["a"]), ..Default::default() });
}

/// CLI takes precedence over settings defined in Config
#[test]
fn enabled_feature_via_config_and_cli() {
    test(Case {
        // Now 'b' wins because CLI overrides Config's 'a'
        expected_features: vec![("a", false), ("b", true)],
        config_features: Some(vec!["a"]),
        cli_features: vec!["b"],
        ..Default::default()
    });
}

#[test]
fn default_feature_enabled_by_default() {
    test(Case { expected_features: vec![("a", true)], cargo_default_features: vec!["a"], ..Default::default() });
}

#[test]
fn disable_default_features_via_cli() {
    test(Case {
        expected_features: vec![("a", false)],
        cargo_default_features: vec!["a"],
        cli_no_default_features: true,
        ..Default::default()
    });
}

// Config says "use defaults", but CLI says "no defaults", which takes priority
#[test]
fn cli_overrides_config_no_default_features() {
    test(Case {
        expected_features: vec![("a", false)],
        cargo_default_features: vec!["a"],
        cli_no_default_features: true,
        config_no_default_features: Some(false),
        ..Default::default()
    });
}

#[test]
fn all_features_via_cli() {
    test(Case { expected_features: vec![("a", true), ("b", true)], cli_all_features: true, ..Default::default() });
}

#[test]
fn all_features_is_separate() {
    test(Case {
        expected_features: vec![("a", true), ("b", true)],
        cli_features: vec!["a"],
        config_all_features: Some(true),
        ..Default::default()
    });
}

/// Config says no to all-features, but CLI wants everything.
#[test]
fn cli_all_features_overrides_config_disabling() {
    test(Case {
        expected_features: vec![("a", true), ("b", true)],
        cli_all_features: true,
        config_all_features: Some(false),
        ..Default::default()
    });
}
