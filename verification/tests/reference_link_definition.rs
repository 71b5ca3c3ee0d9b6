use cargo_reedme::markdown::reference_link_definition::reference_link_definition;
use pulldown_cmark::{Event, Parser, Tag};
use rangemap::RangeSet;

enum Status {
    Found,
    Missing,
}

fn t(link_location: Status, id: &str, url: &str, md: &str) {
    let mut ranges = RangeSet::new();
    for (event, span) in Parser::new(md).into_offset_iter() {
        if let Event::Start(Tag::CodeBlock(_)) = event {
            ranges.insert(span);
        }
    }

    let url_span = reference_link_definition(md, url, id, &ranges).expect("the expression is built");

    match link_location {
        Status::Found => {
            let url_span = url_span.expect("link not found");
            assert_eq!(&md[url_span], url);
        }
        Status::Missing => assert!(url_span.is_none()),
    };
}

/// Bare URL
#[test]
fn url() {
    let id = "rust";
    let url = "https://rust-lang.org";
    t(Status::Found, "rust", "https://rust-lang.org", &format!("Check [{id}].\n\n[{id}]: {url}"));
}

/// URL angle brackets are ignored
#[test]
fn bracketed_url() {
    let id = "rust";
    let url = "https://rust-lang.org";
    t(Status::Found, id, url, &format!("[{id}]: <{url}>"));
}

/// Contents of code block are ignored when searching for links
#[test]
fn skip_code_block() {
    let id = "rust";
    let url = "https://rust-lang.org";
    t(Status::Missing, id, url, &format!("```\n[{id}]: {url}\n```"));
}

/// Comparisons between link IDs is case-insensitive
#[test]
fn case_insensitivity() {
    let id = "RUST_COMPILER";
    let url = "https://github.com/rust-lang/rust";
    t(Status::Found, "rust_compiler", url, &format!("[{id}]: {url}"));
}

/// Links that have a title
#[test]
fn title() {
    let id = "rust";
    let url = "https://rust-lang.org";
    t(Status::Found, id, url, &format!("[{id}]: {url} (A link title)"));
    t(Status::Found, id, url, &format!("[{id}]: {url} 'A link title'"));
    t(Status::Found, id, url, &format!("[{id}]: {url} \"A link title with \\\"escapes\\\"\""));
}

/// Nested in various Markdown elements
#[test]
fn nested() {
    let id = "rust";
    let url = "https://rust-lang.org";
    // Blockquote, list
    t(Status::Found, id, url, &format!("> [{id}]: {url}"));
    // Space, blockquote, list
    t(Status::Found, id, url, &format!(" > 1. [{id}]: {url}"));
}

#[test]
fn regex_characters_are_literal() {
    t(Status::Found, "a.b", "https://x.org/?q=(1)", "[a.b]: https://x.org/?q=(1)");
    t(Status::Missing, "a.b", "https://x.org", "[aXb]: https://x.org");
}

/// The documented example: an id with a space in it
#[test]
fn id_with_space() {
    let md = "The Rust compiler can be [found][rust compiler] on GitHub\n\n[rust compiler]: <https://github.com/rust-lang/rust> \"link title\"";
    t(Status::Found, "rust compiler", "https://github.com/rust-lang/rust", md);
    t(Status::Missing, "rust compiler", "https://github.com/rust-lang/rust", "[rustcompiler]: https://github.com/rust-lang/rust");
}
