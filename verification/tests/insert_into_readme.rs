use cargo_reedme::insert_into_readme::{ReadmeContents, ReadmeParts};

fn t(original: &str, insert: &str) -> Option<String> {
    ReadmeParts::new(original, insert).ok().map(|s| s.to_string())
}

#[test]
fn missing_marker() {
    assert!(t("Header\n\nFooter", "...").is_none());
}

/// Creating README file for the first time will insert markers,
/// so subsequent invocations won't error
#[test]
fn create() {
    assert_eq!(
        ReadmeContents::NewlyCreated("first".to_string()).to_string(),
        "<!-- cargo-reedme: start -->\n\nfirst\n\n<!-- cargo-reedme: end -->\n"
    );
}

#[test]
fn insert() {
    let output = t("Header\n\n<!-- cargo-reedme -->\n\nFooter", "hello world").unwrap();
    assert_eq!(
        output,
        "Header\n\n<!-- cargo-reedme: start -->\n\nhello world\n\n<!-- cargo-reedme: end -->\n\nFooter"
    );
}

#[test]
fn update() {
    let output = t(
        "Header\n\n<!-- cargo-reedme: start -->\n\nhello world\n\n<!-- cargo-reedme: end -->\n\nFooter",
        "goodbye moon",
    )
    .unwrap();
    assert_eq!(
        output,
        "Header\n\n<!-- cargo-reedme: start -->\n\ngoodbye moon\n\n<!-- cargo-reedme: end -->\n\nFooter"
    );
}

/// Generating twice gives the same README as generating once with the
/// second text.
#[test]
fn regeneration_replaces_region() {
    let original = "# Title\n\n<!-- cargo-reedme -->\n\nend";
    let once = t(original, "first").unwrap();
    let twice = t(&once, "second").unwrap();
    assert_eq!(twice, t(original, "second").unwrap());
}

#[test]
fn start_marker_without_end_marker() {
    assert!(t("a <!-- cargo-reedme: start --> b", "x").is_none());
}

#[test]
fn message_names_the_marker() {
    let err = ReadmeParts::new("nothing", "x").err().unwrap();
    assert!(err.message().contains("<!-- cargo-reedme -->"));
}

#[test]
fn parts_before() {
    let parts = ReadmeParts::new("head <!-- cargo-reedme --> tail", "x").ok().unwrap();
    assert_eq!(parts.before(), "head ");
    assert_eq!(
        ReadmeContents::InsertedIntoExisting(parts).to_string(),
        "head <!-- cargo-reedme: start -->\n\nx\n\n<!-- cargo-reedme: end --> tail"
    );
}

const DEFAULT_NOTE: &str = "Do not edit this region by hand\n===============================\n\nThis region was generated from Rust documentation comments by `cargo-reedme` using this command:\n\n    cargo reedme {args}\n\nfor more info: https://github.com/nik-rev/cargo-reedme\n";

const NOTE_COMMENT: &str = "<!-- cargo-reedme: info-start\n\n    Do not edit this region by hand\n    ===============================\n\n    This region was generated from Rust documentation comments by `cargo-reedme` using this command:\n\n        cargo reedme\n\n    for more info: https://github.com/nik-rev/cargo-reedme\n\ncargo-reedme: info-end -->";

#[test]
fn informational_note() {
    let parts = ReadmeParts::new("# my_crate\n\n<!-- cargo-reedme -->\n", "Your documentation").ok().unwrap();
    assert_eq!(
        ReadmeContents::InsertedIntoExisting(parts).to_readme(DEFAULT_NOTE, ""),
        format!("# my_crate\n\n<!-- cargo-reedme: start -->\n\n{NOTE_COMMENT}\n\nYour documentation\n\n<!-- cargo-reedme: end -->\n")
    );
}

#[test]
fn note_names_the_arguments() {
    let comment = cargo_reedme::note::info_comment_text("run `cargo reedme {args}` ", "--workspace");
    assert_eq!(
        comment,
        "<!-- cargo-reedme: info-start\n\n    run `cargo reedme --workspace`\ncargo-reedme: info-end -->"
    );
}

#[test]
fn newly_created_readme_has_the_note() {
    let text = ReadmeContents::NewlyCreated("docs".to_string()).to_readme(DEFAULT_NOTE, "");
    assert_eq!(
        text,
        format!("<!-- cargo-reedme: start -->\n\n{NOTE_COMMENT}\n\ndocs\n\n<!-- cargo-reedme: end -->\n")
    );
}

#[test]
fn notes_do_not_matter_when_checking() {
    let parts = |text: &str| ReadmeParts::new("# t\n\n<!-- cargo-reedme -->\nend", text).ok().unwrap();
    let current = ReadmeContents::InsertedIntoExisting(parts("docs")).to_readme(DEFAULT_NOTE, "");
    let new = ReadmeContents::InsertedIntoExisting(parts("docs")).to_readme(DEFAULT_NOTE, "--check");
    assert_ne!(current, new);
    assert_eq!(cargo_reedme::note::normalize_new_readme(&current, &new), current);
    let changed = ReadmeContents::InsertedIntoExisting(parts("other")).to_readme(DEFAULT_NOTE, "--check");
    assert_ne!(cargo_reedme::note::normalize_new_readme(&current, &changed), current);
}
