//! README generation from the documentation that rustdoc reports, as the
//! binary drives it: choosing the target, then generating the text.

use cargo_reedme::config::{Config, Target, TargetChoice, TargetInfo};
use cargo_reedme::insert_into_readme::ReadmeContents;
use cargo_reedme::intralinks::{CrateModel, ItemInner, ItemModel};
use cargo_reedme::readme::{documentation_is_empty, generate_readme, ReadmeError};

/// What rustdoc reports of a target whose root documentation is `docs`.
fn docs_crate(docs: &str) -> CrateModel {
    CrateModel {
        root: 0,
        root_docs: if docs.is_empty() { None } else { Some(docs.to_string()) },
        root_links: vec![],
        index: vec![ItemModel { id: 0, crate_id: 0, name: Some("test_case".into()), inner: ItemInner::Module }],
        paths: vec![],
        external_crates: vec![],
    }
}

/// The generated text, as it goes between the markers of the README.
fn generated(config: &Config, krate: &CrateModel, readme: Option<&str>) -> String {
    match generate_readme(config, krate, "test_case", "0.0.0", "", readme) {
        Ok(Some(ReadmeContents::NewlyCreated(s))) => s,
        Ok(Some(ReadmeContents::InsertedIntoExisting(parts))) => parts.inserted().to_string(),
        _ => panic!("a README is generated"),
    }
}

const INPUT: &str = "# a\n\n## b\n\n# c\n\n## d\n\n### e";
const INCREMENTED: &str = "## a\n\n### b\n\n## c\n\n### d\n\n#### e";
const NOT_INCREMENTED: &str = "# a\n\n## b\n\n# c\n\n## d\n\n### e";

/// Increments all headings by 1 level
#[test]
fn increment_headings_increment_headings() {
    let out = generated(&Config::default_config(), &docs_crate(INPUT), Some("# h1\n\n<!-- cargo-reedme -->"));
    assert_eq!(out, INCREMENTED);
}

/// Does not increment headings if it is explicitly disabled
#[test]
fn no_increment_if_option_is_turned_off() {
    let mut config = Config::default_config();
    config.increment_headings = false;
    let out = generated(&config, &docs_crate(INPUT), Some("# h1\n\n<!-- cargo-reedme -->"));
    assert_eq!(out, NOT_INCREMENTED);
}

/// When the level 1 heading is located AFTER the inserted region,
/// headings are not incremented
#[test]
fn no_increment_when_h1_after() {
    let out = generated(&Config::default_config(), &docs_crate(INPUT), Some("<!-- cargo-reedme -->\n\n# h1"));
    assert_eq!(out, NOT_INCREMENTED);
}

/// Does not increment headings when there is no level 1 heading in original README
#[test]
fn no_increment_when_no_h1_in_original() {
    let out = generated(&Config::default_config(), &docs_crate(INPUT), Some("## h2\n\n<!-- cargo-reedme -->"));
    assert_eq!(out, NOT_INCREMENTED);
}

/// A package target: a library, or a binary with the given name.
fn target(name: &str, lib: bool) -> TargetInfo {
    TargetInfo {
        name: name.to_string(),
        is_lib: lib,
        is_rlib: false,
        is_cdylib: false,
        is_proc_macro: false,
        is_staticlib: false,
        is_bin: !lib,
    }
}

/// Chooses the target as the binary does, asking whether the library's
/// documentation is empty where the choice depends on it, and generates the
/// README from the chosen target's documentation. Each target is given by
/// its name, whether it is the library, and its documentation.
fn generate_for(config: &Config, targets: &[(&str, bool, &str)]) -> String {
    let infos: Vec<TargetInfo> = targets.iter().map(|(name, lib, _)| target(name, *lib)).collect();
    let crates: Vec<CrateModel> = targets.iter().map(|(_, _, docs)| docs_crate(docs)).collect();
    let chosen = match config.target.select(&infos, None) {
        TargetChoice::Chosen(i) => i,
        TargetChoice::NeedsEmptinessCheck(lib) => {
            let empty = documentation_is_empty(&crates[lib]);
            match config.target.select(&infos, Some(empty)) {
                TargetChoice::Chosen(i) => i,
                _ => panic!("a target is chosen"),
            }
        }
        TargetChoice::Failed(_) => panic!("a target is chosen"),
    };
    generated(config, &crates[chosen], None)
}

fn with_target(text: &str) -> Config {
    let mut config = Config::default_config();
    config.target = Target::from_str(text).ok().unwrap();
    config
}

/// Prefers lib.rs over main.rs
#[test]
fn target_target_heuristic_lib_rs() {
    let out = generate_for(&Config::default_config(), &[("test_case", true, "lib"), ("test_case", false, "bin")]);
    assert_eq!(out, "lib");
}

/// If lib.rs is empty, use comments from main.rs
#[test]
fn target_target_heuristic_lib_rs_empty() {
    let out = generate_for(&Config::default_config(), &[("test_case", true, ""), ("test_case", false, "bin")]);
    assert_eq!(out, "bin");
}

#[test]
fn target_target_heuristic_main_rs() {
    let out = generate_for(&Config::default_config(), &[("test_case", false, "bin")]);
    assert_eq!(out, "bin");
}

#[test]
fn target_target_heuristic_lib_rs_only() {
    let out = generate_for(&Config::default_config(), &[("test_case", true, "lib")]);
    assert_eq!(out, "lib");
}

#[test]
fn target_target_lib() {
    let out = generate_for(&with_target("lib"), &[("test_case", true, "lib"), ("test_case", false, "bin")]);
    assert_eq!(out, "lib");
}

#[test]
fn target_target_bin() {
    let out = generate_for(&with_target("bin"), &[("test_case", true, "lib"), ("test_case", false, "bin")]);
    assert_eq!(out, "bin");
}

#[test]
fn target_target_bin_exact() {
    let targets = [("first", false, "first"), ("second", false, "second")];
    assert_eq!(generate_for(&with_target("bin:first"), &targets), "first");
    assert_eq!(generate_for(&with_target("bin:second"), &targets), "second");
}

#[test]
fn marker_missing_is_reported() {
    let r = generate_readme(&Config::default_config(), &docs_crate("text"), "test_case", "0.0.0", "", Some("no marker"));
    match r {
        Err(ReadmeError::MarkerMissing(text)) => assert_eq!(text, "text"),
        _ => panic!("the missing marker is reported with the generated text"),
    }
}

#[test]
fn marker_missing_with_empty_documentation_gives_no_readme() {
    let r = generate_readme(&Config::default_config(), &docs_crate(""), "test_case", "0.0.0", "", Some("no marker"));
    assert!(matches!(r, Ok(None)));
}

#[test]
fn empty_documentation_gives_no_readme() {
    let r = generate_readme(&Config::default_config(), &docs_crate(""), "test_case", "0.0.0", "", None);
    assert!(matches!(r, Ok(None)));
}

#[test]
fn generated_readme_is_inserted() {
    let r = generate_readme(&Config::default_config(), &docs_crate("Hello, world!"), "test_case", "0.0.0", "", Some("# my_crate\n\n<!-- cargo-reedme -->\n"));
    match r {
        Ok(Some(c)) => assert_eq!(
            c.to_string(),
            "# my_crate\n\n<!-- cargo-reedme: start -->\n\nHello, world!\n\n<!-- cargo-reedme: end -->\n"
        ),
        _ => panic!("a README is generated"),
    }
}

#[test]
fn whitespace_documentation_is_empty() {
    assert!(documentation_is_empty(&docs_crate(" \n\t")));
    assert!(documentation_is_empty(&docs_crate("")));
    assert!(!documentation_is_empty(&docs_crate(" x ")));
}

/// Prefers lib.rs over main.rs
#[test]
fn integration_target_heuristic_lib_rs() {
    let out = generate_for(&with_target("heuristic"), &[("test_case", true, "lib"), ("test_case", false, "bin")]);
    assert_eq!(out, "lib");
}

/// If lib.rs is empty, use comments from main.rs
#[test]
fn integration_target_heuristic_lib_rs_empty() {
    let out = generate_for(&with_target("heuristic"), &[("test_case", true, ""), ("test_case", false, "bin")]);
    assert_eq!(out, "bin");
}

#[test]
fn integration_target_heuristic_main_rs() {
    let out = generate_for(&with_target("heuristic"), &[("test_case", false, "bin")]);
    assert_eq!(out, "bin");
}

#[test]
fn integration_target_heuristic_lib_rs_only() {
    let out = generate_for(&with_target("heuristic"), &[("test_case", true, "lib")]);
    assert_eq!(out, "lib");
}

#[test]
fn integration_target_lib() {
    let out = generate_for(&with_target("lib"), &[("test_case", true, "lib"), ("test_case", false, "bin")]);
    assert_eq!(out, "lib");
}

#[test]
fn integration_target_bin() {
    let out = generate_for(&with_target("bin"), &[("test_case", true, "lib"), ("test_case", false, "bin")]);
    assert_eq!(out, "bin");
}

#[test]
fn integration_target_bin_exact() {
    let targets = [("first", false, "first"), ("second", false, "second")];
    assert_eq!(generate_for(&with_target("bin:first"), &targets), "first");
    assert_eq!(generate_for(&with_target("bin:second"), &targets), "second");
}

#[test]
fn target_choice_failures() {
    let infos = vec![target("a", false), target("b", false)];
    assert!(matches!(with_target("bin").target.select(&infos, None), TargetChoice::Failed(_)));
    match with_target("bin:c").target.select(&infos, None) {
        TargetChoice::Failed(err) => assert_eq!(err.message(), "binary target with the name `c` not found"),
        _ => panic!("no target is chosen"),
    }
    assert!(matches!(with_target("lib").target.select(&infos, None), TargetChoice::Failed(_)));
    assert!(matches!(Config::default_config().target.select(&[], None), TargetChoice::Failed(_)));
}
