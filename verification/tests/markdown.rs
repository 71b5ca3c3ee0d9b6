use cargo_reedme::intralinks::Links;
use cargo_reedme::markdown::{has_h1_heading, is_rust_code_block, resolve_markdown};

fn links(pairs: &[(&str, &str)]) -> Links {
    let mut l = Links::new();
    for (a, b) in pairs {
        l.insert(a.to_string(), b.to_string());
    }
    l
}

fn t(input: &str, links: Links, expected: &str) {
    let out = resolve_markdown(input, &links, true).expect("the markdown can be rewritten");
    assert_eq!(out, expected);
}

fn unchanged(input: &str, links: Links) {
    t(input, links, input)
}

fn intra_doc_broken_link() {
    t("just a [link]", links(&[("link", "to_somewhere")]), "just a [link](to_somewhere)");
}

fn regular_broken_link() {
    t("just a [link]", links(&[]), "just a [link]");
}

fn intra_doc_inline_link() {
    t(
        "just a [link](where?)",
        links(&[("where?", "to somewhere")]),
        "just a [link](to somewhere)",
    );
    // Now there are 3X as many links to resolve
    t(
        "just a [link](where?)\njust a [link](where?)\njust a [link](where?)",
        links(&[("where?", "to somewhere")]),
        "just a [link](to somewhere)\njust a [link](to somewhere)\njust a [link](to somewhere)",
    );
    // Now there are 2 different links, and 1 of them is duplicated
    t(
        "just a [link](where?)\njust a [url](what?)\njust a [link](where?)",
        links(&[("where?", "to somewhere"), ("what?", "because")]),
        "just a [link](to somewhere)\njust a [url](because)\njust a [link](to somewhere)",
    );
}

fn intra_doc_inline_link_title() {
    t(
        "just a [link](where? \"title\")",
        links(&[("where?", "to_somewhere")]),
        "just a [link](to_somewhere \"title\")",
    );
    // 3 spaces at the front
    t(
        "just a [link](where?   \"title\")",
        links(&[("where?", "to_somewhere")]),
        "just a [link](to_somewhere   \"title\")",
    );
    // 2 spaces at the front and at the back
    t(
        "just a [link](where?  \"title\"  )",
        links(&[("where?", "to_somewhere")]),
        "just a [link](to_somewhere  \"title\"  )",
    );
}

fn regular_inline_link() {
    t("just a [link](where?)", links(&[]), "just a [link](where?)");
}

fn intra_doc_reference_link() {
    t(
        "just a [link]\n\n[link]: somewhere",
        links(&[("somewhere", "but where?")]),
        "just a [link]\n\n[link]: but where?",
    );
}

fn regular_doc_reference_link() {
    unchanged("just a [link]\n\n[link]: somewhere", links(&[("...", "...")]));
}

fn check_is_rust_code_block() {
    let pass = [
        "ignore",
        "should_panic",
        "no_run",
        "compile_fail",
        "edition2018",
        "rust",
        "rs",
        "standalone_crate",
        "ignore-x86_64",
        "ignore-x86_64,ignore-windows",
        "ignore,ignore-x86_64",
    ]
    .into_iter()
    .all(is_rust_code_block);
    assert!(pass);
}

fn check_is_rust_code_block_fail() {
    let fail = ["py", "js", "ts", "toml"].into_iter().all(|s| !is_rust_code_block(s));
    assert!(fail);
}

#[test]
fn markdown_intra_doc_broken_link() {
    intra_doc_broken_link();
}

#[test]
fn mod_intra_doc_broken_link() {
    intra_doc_broken_link();
}

#[test]
fn markdown_regular_broken_link() {
    regular_broken_link();
}

#[test]
fn mod_regular_broken_link() {
    regular_broken_link();
}

#[test]
fn markdown_intra_doc_inline_link() {
    intra_doc_inline_link();
}

#[test]
fn mod_intra_doc_inline_link() {
    intra_doc_inline_link();
}

#[test]
fn markdown_intra_doc_inline_link_title() {
    intra_doc_inline_link_title();
}

#[test]
fn mod_intra_doc_inline_link_title() {
    intra_doc_inline_link_title();
}

#[test]
fn markdown_regular_inline_link() {
    regular_inline_link();
}

#[test]
fn mod_regular_inline_link() {
    regular_inline_link();
}

#[test]
fn markdown_intra_doc_reference_link() {
    intra_doc_reference_link();
}

#[test]
fn mod_intra_doc_reference_link() {
    intra_doc_reference_link();
}

#[test]
fn markdown_regular_doc_reference_link() {
    regular_doc_reference_link();
}

#[test]
fn mod_regular_doc_reference_link() {
    regular_doc_reference_link();
}

#[test]
fn markdown_is_rust_code_block() {
    check_is_rust_code_block();
}

#[test]
fn mod_is_rust_code_block() {
    check_is_rust_code_block();
}

#[test]
fn markdown_is_rust_code_block_fail() {
    check_is_rust_code_block_fail();
}

#[test]
fn mod_is_rust_code_block_fail() {
    check_is_rust_code_block_fail();
}

#[test]
fn indented_code_block() {
    t(
        "- this is a list item\n\n  ```ignore\n  I am inside of a code block\n  ```",
        links(&[]),
        "- this is a list item\n\n  ```rust\n  I am inside of a code block\n  ```",
    );
}

#[test]
fn mod_increment_headings() {
    t(
        "# a\n\n ## b\n\n### c\n\n#### d\n\n##### e\n\n###### f",
        links(&[]),
        "## a\n\n ### b\n\n#### c\n\n##### d\n\n###### e\n\n###### f",
    );
}

#[test]
fn hidden_lines_are_removed() {
    t(
        "```\n# fn main() {\nprintln!(\"hi\");\n## kept\n#\n# }\n```",
        links(&[]),
        "```rust\nprintln!(\"hi\");\n## kept\n```",
    );
}

#[test]
fn non_rust_code_block_is_kept() {
    unchanged("```toml\n# comment\n[dependencies]\n```", links(&[]));
}

#[test]
fn collapsed_broken_link_covers_brackets() {
    t("see [foo][] here", links(&[("foo", "bar")]), "see [foo](bar) here");
}

#[test]
fn broken_link_with_fragment() {
    t(
        "see [Vec#method.push]",
        links(&[("Vec#method.push", "https://example.com/Vec.html")]),
        "see [Vec#method.push](https://example.com/Vec.html#method.push)",
    );
}

#[test]
fn headings_not_incremented_when_off() {
    let out = resolve_markdown("# a", &links(&[]), false).unwrap();
    assert_eq!(out, "# a");
}

#[test]
fn smart_punctuation() {
    t("a -- b... \"c\"", links(&[]), "a \u{2013} b\u{2026} \u{201c}c\u{201d}");
}

#[test]
fn h1_heading_found() {
    assert!(has_h1_heading("# title\n\ntext"));
    assert!(has_h1_heading("title\n====="));
    assert!(!has_h1_heading("## sub\n\ntext"));
    assert!(!has_h1_heading("text"));
}
