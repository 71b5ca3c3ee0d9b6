//! The passes of the markdown rewriting, on given parser events.

use cargo_reedme::intralinks::Links;
use cargo_reedme::markdown::events::{MdEvent, MdEventKind, TextEvent};
use cargo_reedme::markdown::{first_pass, markdown_options, second_pass, third_pass};
use cargo_reedme::replace_content::ReplaceContent;

fn ev(kind: MdEventKind, start: usize, end: usize) -> MdEvent {
    MdEvent { kind, start, end }
}

fn link(kind: &str, dest: &str, id: &str) -> MdEventKind {
    MdEventKind::Link(kind.to_string(), dest.to_string(), id.to_string())
}

fn links(pairs: &[(&str, &str)]) -> Links {
    let mut l = Links::new();
    for (a, b) in pairs {
        l.insert(a.to_string(), b.to_string());
    }
    l
}

fn reps(v: &[ReplaceContent]) -> Vec<(usize, usize, String)> {
    v.iter().map(|r| (r.range.start, r.range.end, r.content.clone())).collect()
}

#[test]
fn headings_gain_a_hash_below_level_six() {
    let md = "# a\n###### b";
    let events = vec![ev(MdEventKind::Heading(1), 0, 4), ev(MdEventKind::Heading(6), 4, 12)];
    let p = first_pass(md, &events, &links(&[]), true).unwrap();
    assert_eq!(reps(&p.replacements), vec![(0, 4, "## a\n".to_string())]);
    let p = first_pass(md, &events, &links(&[]), false).unwrap();
    assert!(p.replacements.is_empty());
}

#[test]
fn rust_code_blocks_are_rewritten() {
    let md = "````ignore\n# hidden\nshown\n  ````";
    let events = vec![ev(MdEventKind::FencedCode("ignore".into()), 0, md.len())];
    let p = first_pass(md, &events, &links(&[]), false).unwrap();
    assert_eq!(reps(&p.replacements), vec![(0, md.len(), "````rust\nshown\n  ````".to_string())]);
    assert!(p.code_blocks.overlaps(&(3..4)));
}

#[test]
fn other_code_blocks_are_only_recorded() {
    let md = "```py\nx\n```";
    let events = vec![
        ev(MdEventKind::FencedCode("py".into()), 0, md.len()),
        ev(MdEventKind::IndentedCode, 0, 3),
    ];
    let p = first_pass(md, &events, &links(&[]), false).unwrap();
    assert!(p.replacements.is_empty());
    assert!(p.code_blocks.overlaps(&(0..1)));
}

#[test]
fn empty_code_block_span_stops_the_pass() {
    let events = vec![ev(MdEventKind::IndentedCode, 2, 2)];
    assert!(first_pass("abc", &events, &links(&[]), false).is_none());
}

#[test]
fn resolved_broken_links_are_written_out() {
    let md = "[a] [b][]";
    let events = vec![
        ev(link("ShortcutUnknown", "u", "a"), 0, 3),
        ev(link("CollapsedUnknown", "v", "b"), 4, 7),
    ];
    let p = first_pass(md, &events, &links(&[]), false).unwrap();
    assert_eq!(
        reps(&p.replacements),
        vec![(0, 3, "[a](u)".to_string()), (4, 9, "[b](v)".to_string())]
    );
}

#[test]
fn reference_links_are_remembered() {
    let events = vec![
        ev(link("Reference", "dest", "id"), 0, 3),
        ev(link("Shortcut", "dest2", ""), 0, 3),
    ];
    let p = first_pass("[x][id]", &events, &links(&[]), false).unwrap();
    assert_eq!(p.reference_definitions, vec![("dest".to_string(), "id".to_string())]);
}

#[test]
fn inline_link_destinations_are_replaced() {
    let md = "see [a](x \"t\")";
    let events = vec![ev(link("Inline", "x", ""), 4, md.len())];
    let p = first_pass(md, &events, &links(&[("x", "https://x")]), false).unwrap();
    assert_eq!(reps(&p.replacements), vec![(8, 9, "https://x".to_string())]);
    let p = first_pass(md, &events, &links(&[]), false).unwrap();
    assert!(p.replacements.is_empty());
}

#[test]
fn span_outside_the_text_stops_the_pass() {
    let events = vec![ev(link("Inline", "x", ""), 0, 99)];
    assert!(first_pass("[a](x)", &events, &links(&[("x", "y")]), false).is_none());
}

#[test]
fn definitions_point_to_the_urls() {
    let md = "[a]: dest\n";
    let p = first_pass(md, &vec![ev(link("Reference", "dest", "a"), 0, 3)], &links(&[]), false).unwrap();
    let r = second_pass(md, &p.reference_definitions, &links(&[("dest", "https://d")]), &p.code_blocks).unwrap();
    assert_eq!(reps(&r), vec![(5, 9, "https://d".to_string())]);
    let r = second_pass(md, &p.reference_definitions, &links(&[]), &p.code_blocks).unwrap();
    assert!(r.is_empty());
}

#[test]
fn texts_replace_their_sources() {
    let texts = vec![
        TextEvent { text: Some("\u{201c}a\u{201d}".into()), start: 0, end: 3 },
        TextEvent { text: None, start: 3, end: 4 },
    ];
    assert_eq!(reps(&third_pass(&texts)), vec![(0, 3, "\u{201c}a\u{201d}".to_string())]);
}

#[test]
fn rustdoc_options() {
    // tables, footnotes, strikethrough, task lists and smart punctuation
    assert_eq!(markdown_options(), (1 << 1) | (1 << 2) | (1 << 3) | (1 << 4) | (1 << 5));
}
