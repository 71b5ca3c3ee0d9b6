//! The events that the markdown parser reports, as plain values.
//!
//! Parsing markdown is left to `pulldown_cmark`. What it reports of a text is
//! given a name here, and the rewriting of the markdown is verified for every
//! list of events that the parser could report.

use pulldown_cmark::{
    BrokenLink, CodeBlockKind::Fenced, Event::{Start, Text}, Options, Parser,
    Tag::{CodeBlock, Heading, Link},
};

use vstd::prelude::*;

use crate::intralinks::{broken_link_target, Links};

verus! {

/// What an event of the markdown parser is, as far as the rewriting reads
/// it.
pub enum MdEventKind {
    /// Start of a heading of the given level, from 1 to 6
    Heading(u8),
    /// Start of a fenced code block, with the text after its opening fence
    FencedCode(String),
    /// Start of an indented code block
    IndentedCode,
    /// Start of a link: the name of its kind (such as `Inline` or
    /// `ShortcutUnknown`), its destination and its reference id
    Link(String, String, String),
    /// Any other event
    Other,
}

/// An event of the markdown parser with the byte span of the text it stands
/// for.
pub struct MdEvent {
    pub kind: MdEventKind,
    pub start: usize,
    pub end: usize,
}

/// A text event of the markdown parser, as its options render it, with the
/// byte span of the source text it stands for; `None` for other events.
pub struct TextEvent {
    pub text: Option<String>,
    pub start: usize,
    pub end: usize,
}

/// The events that `pulldown_cmark` reports for `text`, parsed with the
/// options whose bits are `options`, where a broken reference link resolves
/// through `links`.
pub uninterp spec fn markdown_events(
    text: Seq<char>,
    options: u32,
    links: Map<Seq<char>, Seq<char>>,
) -> Seq<MdEvent>;

/// The events that `pulldown_cmark` reports for `text`, parsed with the
/// options whose bits are `options`, with the text of each text event.
pub uninterp spec fn markdown_text_events(text: Seq<char>, options: u32) -> Seq<TextEvent>;

/// The events that `pulldown_cmark` reports for `text`, parsed without
/// options, with the level of each event that starts a heading.
pub uninterp spec fn markdown_heading_levels(text: Seq<char>) -> Seq<Option<u8>>;

/// The events of `text` with their spans.
///
/// Trusted: calls `pulldown_cmark::Parser::new_with_broken_link_callback`,
/// whose callback resolves a broken reference link through
/// [`broken_link_target`], and reads the events with their source spans.
/// The contract only names the result.
#[verifier::external_body]
pub(crate) fn parse_events(text: &str, options: u32, links: &Links) -> (r: Vec<MdEvent>)
    requires
        links.wf(),
    ensures
        r@ == markdown_events(text@, options, links.view_map()),
{
    let callback = |b: BrokenLink| broken_link_target(links, &b.reference).map(|u| (u.into(), "".into()));
    let options = Options::from_bits_truncate(options);
    Parser::new_with_broken_link_callback(text, options, Some(callback)).into_offset_iter().map(|(e, s)| MdEvent { start: s.start, end: s.end, kind: match e {
        Start(Heading { level, .. }) => MdEventKind::Heading(level as u8),
        Start(CodeBlock(Fenced(t))) => MdEventKind::FencedCode(t.into_string()),
        Start(CodeBlock(_)) => MdEventKind::IndentedCode,
        Start(Link { link_type, dest_url, id, .. }) => MdEventKind::Link(format!("{link_type:?}"), dest_url.into_string(), id.into_string()),
        _ => MdEventKind::Other,
    } }).collect()
}

/// The events of `text` with their spans and the text of the text events.
///
/// Trusted: calls `pulldown_cmark::Parser::new_ext` and reads the events
/// with their source spans. The contract only names the result.
#[verifier::external_body]
pub(crate) fn parse_text_events(text: &str, options: u32) -> (r: Vec<TextEvent>)
    ensures
        r@ == markdown_text_events(text@, options),
{
    let parser = Parser::new_ext(text, Options::from_bits_truncate(options));
    parser.into_offset_iter().map(|(e, s)| TextEvent { start: s.start, end: s.end, text: match e {
        Text(t) => Some(t.into_string()),
        _ => None,
    } }).collect()
}

/// The heading levels of the events of `text`.
///
/// Trusted: calls `pulldown_cmark::Parser::new` and reads each event. The
/// contract only names the result.
#[verifier::external_body]
pub(crate) fn parse_heading_levels(text: &str) -> (r: Vec<Option<u8>>)
    ensures
        r@ == markdown_heading_levels(text@),
{
    Parser::new(text).map(|e| match e {
        Start(Heading { level, .. }) => Some(level as u8),
        _ => None,
    }).collect()
}

} // verus!
