use cargo_reedme::markdown::inline_link_destination::{
    inline_link_destination, locate_inline_link_destination,
};

/// Tests that the extracted destination of a link has a correct location.
///
/// The line after the link marks the expected destination: `^^^` under it,
/// or a single `|` where it is empty.
fn t(s: &str) {
    let lines: Vec<&str> = s.lines().collect();
    let (marker_index, marker) = lines
        .iter()
        .enumerate()
        .find(|(_, line)| {
            let chars: Vec<char> = line.chars().filter(|c| !c.is_whitespace()).collect();
            !chars.is_empty() && (chars == vec!['|'] || chars.iter().all(|c| *c == '^'))
        })
        .map(|(i, l)| (i, *l))
        .expect("expected a line that contains ^^^^^^^ or a single |");
    let input = lines
        .iter()
        .enumerate()
        .filter(|(i, _)| *i != marker_index)
        .map(|(_, l)| *l)
        .collect::<Vec<_>>()
        .join("\n");
    let obtained = inline_link_destination(&input).expect("we always pass a valid markdown inline link");
    let positions: Vec<usize> = marker
        .char_indices()
        .filter(|(_, c)| !c.is_whitespace())
        .map(|(i, _)| i)
        .collect();
    if marker.trim() == "|" {
        assert_eq!(positions[0]..positions[0], obtained);
    } else {
        let expected = positions[0]..positions[positions.len() - 1] + 1;
        assert_eq!(&input[obtained], &input[expected]);
    }
}

#[test]
fn with_title() {
    t("[link](/uri \"title\")\n       ^^^^");
}

/// The title, the link text and even the destination may be omitted:
#[test]
fn omitted_parts() {
    t("[link](/uri)\n       ^^^^");
    t("[](./target.md)\n   ^^^^^^^^^^^");
    t("[link]()\n       |");
    t("[link](<>)\n        |");
    t("[]()\n   |");
}

#[test]
fn unescaped_closing_paren_inside_destination() {
    t("[a](<b)c>)\n     ^^^");
}

/// Parentheses inside the link destination may be escaped:
#[test]
fn escaped_parens_inside_destination() {
    t("[link](\\(foo\\))\n       ^^^^^^^");
}

/// Any number of parentheses are allowed without escaping, as long as they are balanced:
#[test]
fn balanced_parentheses() {
    t("[link](foo(and(bar)))\n       ^^^^^^^^^^^^^");
}

/// However, if you have unbalanced parentheses, you need to escape or use the <...> form:
#[test]
fn unbalanced_parentheses() {
    t("[link](foo\\(and\\(bar\\))\n       ^^^^^^^^^^^^^^^");
}

/// Parentheses and other symbols can also be escaped, as usual in Markdown:
#[test]
fn escaped() {
    t("[link](foo\\)\\:)\n       ^^^^^^^");
}

/// A link can contain fragment identifiers and queries:
#[test]
fn fragment_identifier_and_queries() {
    t("[link](#fragment)\n       ^^^^^^^^^");
    t("[link](https://example.com#fragment)\n       ^^^^^^^^^^^^^^^^^^^^^^^^^^^^");
    t("[link](https://example.com?foo=3#frag)\n       ^^^^^^^^^^^^^^^^^^^^^^^^^^^^^^");
}

/// Note that a backslash before a non-escapable character is just a backslash:
#[test]
fn regular_backslash() {
    t("[link](foo\\bar)\n       ^^^^^^^");
}

#[test]
fn url_esaped() {
    t("[link](foo%20b&auml;)\n       ^^^^^^^^^^^^^");
}

#[test]
fn looks_like_title_but_is_dest() {
    t("[link](\"dest\")\n       ^^^^^^");
}

/// Titles may be in single quotes, double quotes, or parentheses:
#[test]
fn kinds_of_titles() {
    t("[link](/url \"title\")\n       ^^^^");
    t("[link](/url 'title')\n       ^^^^");
    t("[link](/url (title))\n       ^^^^");
}

/// Backslash escapes and entity and numeric character references may be used in titles
#[test]
fn escapes() {
    t("[link](/url \"title \\\"&quot;\")\n       ^^^^");
}

/// Titles must be separated from the link using spaces, tabs, and up to one line ending.
#[test]
fn title_basic() {
    t("[link](/url \"title\")\n       ^^^^");
}

#[test]
fn mixed_title_quotes() {
    t("[link](/url 'title \"and\" title')\n       ^^^^");
}

/// Spaces, tabs, and up to one line ending is allowed around the destination and title:
#[test]
fn mixed_whitespace() {
    t("[link](   /uri\n  \"title\"  )\n          ^^^^");
}

/// The link text may contain balanced brackets, but not unbalanced ones, unless they are escaped:
#[test]
fn link_brackets() {
    t("[link [foo [bar]]](/uri)\n                   ^^^^");
    t("[link \\[bar](/uri)\n             ^^^^");
}

/// The link text may contain inline content:
#[test]
fn link_nested() {
    t("[link *foo **bar** `#`*](/uri)\n                         ^^^^");
    t("[![moon](moon.jpg)](/uri)\n                    ^^^^");
}

/// The link text may contain inline content:
#[test]
fn broken_bold() {
    t("[foo *bar](baz*)\n           ^^^^");
}

#[test]
fn destination_in_multibyte_text() {
    let input = "[é](dé)";
    let r = inline_link_destination(input).unwrap();
    assert_eq!(&input[r], "dé");
}

#[test]
fn not_an_inline_link() {
    assert_eq!(locate_inline_link_destination(""), None);
    assert_eq!(locate_inline_link_destination("[a]"), None);
    assert_eq!(locate_inline_link_destination("a)"), None);
    assert_eq!(locate_inline_link_destination("[a](b>)"), None);
}
