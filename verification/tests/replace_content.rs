use cargo_reedme::replace_content::ReplaceContent;

#[test]
fn replace_iter() {
    let content = "00 aaa bbb ccc dd";

    let replacements = [("aaa", "11"), ("bbb", "222"), ("ccc", "3333")]
        .iter()
        .map(|(replace, with)| {
            let start = content
                .find(replace)
                .unwrap_or_else(|| panic!("failed to find pattern: {replace}"));

            let range = start..start + replace.len();

            assert_eq!(*replace, &content[range.clone()], "invalid range");

            ReplaceContent { range, content: with.to_string() }
        })
        .collect::<Vec<_>>();

    let replaced = ReplaceContent::replace_all(content.to_string(), replacements);

    assert_eq!(replaced, "00 11 222 3333 dd");
}

#[test]
fn no_replacements_keep_the_text() {
    assert_eq!(ReplaceContent::replace_all("abc".to_string(), vec![]), "abc");
}

#[test]
fn insertion_at_an_empty_range() {
    let r = ReplaceContent { range: 1..1, content: "XY".to_string() };
    assert_eq!(ReplaceContent::replace_all("abc".to_string(), vec![r]), "aXYbc");
}

#[test]
fn multibyte_text_keeps_positions() {
    // "é" takes two bytes
    let s = "é-a-b";
    let r1 = ReplaceContent { range: 3..4, content: "AA".to_string() };
    let r2 = ReplaceContent { range: 5..6, content: "".to_string() };
    assert_eq!(ReplaceContent::replace_all(s.to_string(), vec![r1, r2]), "é-AA-");
}

#[test]
fn try_replace_all_refuses_a_split_character() {
    let r = ReplaceContent { range: 1..2, content: "x".to_string() };
    assert_eq!(ReplaceContent::try_replace_all("é", &vec![r]), None);
}

#[test]
fn try_replace_all_refuses_a_range_past_the_end() {
    let r = ReplaceContent { range: 2..9, content: "x".to_string() };
    assert_eq!(ReplaceContent::try_replace_all("abc", &vec![r]), None);
}

#[test]
fn try_replace_all_refuses_a_reversed_range() {
    let r = ReplaceContent { range: 2..1, content: "x".to_string() };
    assert_eq!(ReplaceContent::try_replace_all("abc", &vec![r]), None);
}

#[test]
fn nested_replacement_follows_the_shift() {
    // A heading gains a `#`, and a link inside it is replaced afterwards.
    let r1 = ReplaceContent { range: 0..7, content: "## [a] x".to_string() };
    let r2 = ReplaceContent { range: 2..5, content: "[a](u)".to_string() };
    assert_eq!(ReplaceContent::replace_all("# [a] x".to_string(), vec![r1, r2]), "## [a](u) x");
}
