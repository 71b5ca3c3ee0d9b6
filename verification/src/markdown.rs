//! Rewriting the markdown of documentation comments into the markdown of a
//! README: intra-doc links become URLs, code blocks are labelled as Rust and
//! lose their hidden lines, and headings may be incremented.

pub mod code_block;
pub mod events;
pub mod inline_link_destination;
pub mod reference_link_definition;

use vstd::prelude::*;

use crate::intralinks::Links;
use crate::markdown::code_block::{rewrite_rust_code_block, rust_code_block};
use crate::markdown::events::{
    markdown_events, markdown_heading_levels, markdown_text_events, parse_events,
    parse_heading_levels, parse_text_events, MdEvent, MdEventKind, TextEvent,
};
use crate::markdown::inline_link_destination::{destination_span, locate_inline_link_destination};
use crate::markdown::reference_link_definition::{
    definition_span, new_range_set, range_set_insert, range_set_points, reference_link_definition,
    };
use crate::replace_content::{
    range_replaceable, replaced_all, replacements_apply, rep_view, reps_view, ReplaceContent,
};
use crate::text::{
    byte_slice, chars_eq, chars_of, find_char_index, has_prefix, push_str, starts_with, str_eq,
    string_from_chars, string_of,
};

use rangemap::RangeSet;

verus! {

/// `s[i..j]` is one of the comma-separated parts of `s`.
pub open spec fn comma_part(s: Seq<char>, i: int, j: int) -> bool {
    &&& 0 <= i <= j <= s.len()
    &&& (i == 0 || s[i - 1] == ',')
    &&& (j == s.len() || s[j] == ',')
    &&& forall|k: int| i <= k < j ==> s[k] != ','
}

/// The attributes of a code block that rustdoc reads as Rust code; see
/// <https://doc.rust-lang.org/rustdoc/write-documentation/documentation-tests.html#attributes>.
pub open spec fn rust_code_tag(tag: Seq<char>) -> bool {
    ||| tag.len() == 0
    ||| tag == "should_panic"@
    ||| tag == "no_run"@
    ||| tag == "ignore"@
    ||| tag == "allow_fail"@
    ||| tag == "rust"@
    ||| tag == "rs"@
    ||| tag == "test_harness"@
    ||| tag == "standalone_crate"@
    ||| tag == "compile_fail"@
    ||| has_prefix(tag, "ignore-"@)
    ||| has_prefix(tag, "edition"@)
}

/// Every comma-separated attribute of the fence is one that rustdoc reads as
/// Rust code.
pub open spec fn rust_fence(tags: Seq<char>) -> bool {
    forall|i: int, j: int| #[trigger] comma_part(tags, i, j) ==> rust_code_tag(tags.subrange(i, j))
}

/// Whether a single attribute of a code fence keeps the block Rust code.
fn is_rust_code_tag(tag: &[char]) -> (r: bool)
    ensures
        r == rust_code_tag(tag@),
{
    let names = [
        "should_panic",
        "no_run",
        "ignore",
        "allow_fail",
        "rust",
        "rs",
        "test_harness",
        "standalone_crate",
        "compile_fail",
    ];
    if tag.len() == 0 {
        return true;
    }
    let mut i: usize = 0;
    while i < names.len()
        invariant
            0 <= i <= names@.len(),
            names@.len() == 9,
            names@[0]@ == "should_panic"@,
            names@[1]@ == "no_run"@,
            names@[2]@ == "ignore"@,
            names@[3]@ == "allow_fail"@,
            names@[4]@ == "rust"@,
            names@[5]@ == "rs"@,
            names@[6]@ == "test_harness"@,
            names@[7]@ == "standalone_crate"@,
            names@[8]@ == "compile_fail"@,
            forall|k: int| 0 <= k < i ==> tag@ != names@[k]@,
        decreases names@.len() - i,
    {
        let name = chars_of(names[i]);
        if chars_eq(tag, name.as_slice()) {
            return true;
        }
        i += 1;
    }
    let ignore_ = chars_of("ignore-");
    let edition = chars_of("edition");
    starts_with(tag, ignore_.as_slice()) || starts_with(tag, edition.as_slice())
}

/// Parts of `s` that end before `end` are all Rust attributes.
pub open spec fn parts_before_are_rust(s: Seq<char>, end: int) -> bool {
    forall|a: int, b: int| #[trigger] comma_part(s, a, b) && b < end ==> rust_code_tag(s.subrange(a, b))
}

/// If this markdown fence language can be considered to be a "rust" language
///
/// All attributes: <https://doc.rust-lang.org/rustdoc/write-documentation/documentation-tests.html#attributes>
pub fn is_rust_code_block(tags: &str) -> (r: bool)
    ensures
        r == rust_fence(tags@),
{
    let v = chars_of(tags);
    let n = v.len();
    let mut start: usize = 0;
    let mut i: usize = 0;
    while i < n
        invariant
            0 <= start <= i <= n,
            n == v@.len(),
            v@ == tags@,
            start == 0 || v@[start - 1] == ',',
            forall|k: int| start <= k < i ==> v@[k] != ',',
            parts_before_are_rust(v@, start as int),
        decreases n - i,
    {
        if v[i] == ',' {
            if !rust_part(v.as_slice(), start, i) {
                return false;
            }
            start = i + 1;
        }
        i += 1;
    }
    if !rust_part(v.as_slice(), start, n) {
        return false;
    }
    proof {
        assert forall|a: int, b: int| #[trigger] comma_part(v@, a, b) implies rust_code_tag(
            v@.subrange(a, b),
        ) by {
            if b >= start {
                if a < start {
                    assert(v@[start - 1] == ',');
                }
                if a > start {
                    assert(v@[a - 1] == ',');
                }
                if b < n {
                    assert(v@[b] == ',');
                }
            }
        }
    }
    true
}

/// Checks the part `v[start..i]`, which ends at a comma or at the end of `v`;
/// when it is a Rust attribute, every part up to it is.
fn rust_part(v: &[char], start: usize, i: usize) -> (r: bool)
    requires
        start <= i <= v@.len(),
        start == 0 || v@[start - 1] == ',',
        i == v@.len() || v@[i as int] == ',',
        forall|k: int| start <= k < i ==> v@[k] != ',',
        parts_before_are_rust(v@, start as int),
    ensures
        r ==> parts_before_are_rust(v@, i + 1),
        !r ==> comma_part(v@, start as int, i as int) && !rust_code_tag(
            v@.subrange(start as int, i as int),
        ),
{
    let tag = crate::text::string_from_chars(v, start, i);
    let t = chars_of(tag.as_str());
    let r = is_rust_code_tag(t.as_slice());
    proof {
        if r {
            assert forall|a: int, b: int| #[trigger] comma_part(v@, a, b) && b < i + 1 implies rust_code_tag(
                v@.subrange(a, b),
            ) by {
                if b >= start {
                    if a < start {
                        assert(v@[start - 1] == ',');
                    }
                    if a > start {
                        assert(v@[a - 1] == ',');
                    }
                    if b < i {
                        assert(v@[b] == ',');
                    }
                }
            }
        }
    }
    r
}

/// What handling one event of the first pass adds: a replacement, a
/// reference link definition to look for (its destination and id), and the
/// span of a code block.
pub struct StepV {
    pub rep: Option<(int, int, Seq<char>)>,
    pub reference: Option<(Seq<char>, Seq<char>)>,
    pub code: Option<(usize, usize)>,
}

/// A step that adds nothing.
pub open spec fn no_step() -> StepV {
    StepV { rep: None, reference: None, code: None }
}

/// The link kinds of links whose destination the broken link callback
/// supplied.
pub open spec fn unknown_link(kind: Seq<char>) -> bool {
    kind == "ShortcutUnknown"@ || kind == "CollapsedUnknown"@ || kind == "ReferenceUnknown"@
}

/// How the first pass handles the event `e` of `md`; `None` where the
/// handling cannot go on: a span that cannot be cut out of the text, an
/// empty code block span, a code block of fewer than two lines, an inline
/// link whose destination cannot be located, or a position past `usize`.
///
/// - A heading (below level 6, when headings are incremented) gets one more
///   `#`.
/// - A code block is recorded; a fenced block of Rust code is rewritten (see
///   [`rust_code_block`]).
/// - A link whose destination the callback supplied is written out as
///   `[id](destination)`, over the `[]` that follow a collapsed link too.
/// - A reference or shortcut link with an id is remembered, to rewrite its
///   definition later.
/// - The destination of an inline link is replaced by the URL that `links`
///   gives for it, if any.
pub open spec fn first_pass_step(
    md: Seq<char>,
    e: MdEvent,
    links: Map<Seq<char>, Seq<char>>,
    increment_headings: bool,
) -> Option<StepV> {
    let s = e.start as int;
    let t = e.end as int;
    match e.kind {
        MdEventKind::Heading(level) => if increment_headings && level != 6 {
            if range_replaceable(md, s, t) {
                Some(StepV { rep: Some((s, t, "#"@ + byte_slice(md, s, t))), ..no_step() })
            } else {
                None
            }
        } else {
            Some(no_step())
        },
        MdEventKind::IndentedCode => if s < t {
            Some(StepV { code: Some((e.start, e.end)), ..no_step() })
        } else {
            None
        },
        MdEventKind::FencedCode(info) => if !(s < t) {
            None
        } else if !rust_fence(info@) {
            Some(StepV { code: Some((e.start, e.end)), ..no_step() })
        } else if !range_replaceable(md, s, t) {
            None
        } else {
            match rust_code_block(byte_slice(md, s, t)) {
                Some(c) => Some(StepV { rep: Some((s, t, c)), code: Some((e.start, e.end)), reference: None }),
                None => None,
            }
        },
        MdEventKind::Link(kind, dest, id) => if unknown_link(kind@) {
            let end = if kind@ == "CollapsedUnknown"@ { t + 2 } else { t };
            if end > usize::MAX {
                None
            } else {
                Some(StepV { rep: Some((s, end, "["@ + id@ + "]("@ + dest@ + ")"@)), ..no_step() })
            }
        } else if (kind@ == "Reference"@ || kind@ == "Shortcut"@) && id@.len() > 0 {
            Some(StepV { reference: Some((dest@, id@)), ..no_step() })
        } else if kind@ == "Inline"@ {
            if !range_replaceable(md, s, t) {
                None
            } else {
                match destination_span(byte_slice(md, s, t)) {
                    None => None,
                    Some(d) => if s + d.0 > usize::MAX || s + d.1 > usize::MAX {
                        None
                    } else if links.contains_key(dest@) {
                        Some(StepV { rep: Some((s + d.0, s + d.1, links[dest@])), ..no_step() })
                    } else {
                        Some(no_step())
                    },
                }
            }
        } else {
            Some(no_step())
        },
        MdEventKind::Other => Some(no_step()),
    }
}

/// What the first pass gathers: the replacements, the reference link
/// definitions to look for, and the points covered by code blocks.
pub struct FirstPassV {
    pub reps: Seq<(int, int, Seq<char>)>,
    pub references: Seq<(Seq<char>, Seq<char>)>,
    pub code: Set<usize>,
}

/// `s` with `x` appended, if there is one.
pub open spec fn push_some<T>(s: Seq<T>, x: Option<T>) -> Seq<T> {
    match x {
        Some(v) => s.push(v),
        None => s,
    }
}

/// The first pass over the first `n` events.
pub open spec fn first_pass_upto(
    md: Seq<char>,
    events: Seq<MdEvent>,
    links: Map<Seq<char>, Seq<char>>,
    increment_headings: bool,
    n: int,
) -> Option<FirstPassV>
    decreases n,
{
    if n <= 0 {
        Some(FirstPassV { reps: Seq::empty(), references: Seq::empty(), code: Set::empty() })
    } else {
        match first_pass_upto(md, events, links, increment_headings, n - 1) {
            None => None,
            Some(acc) => match first_pass_step(md, events[n - 1], links, increment_headings) {
                None => None,
                Some(st) => Some(
                    FirstPassV {
                        reps: push_some(acc.reps, st.rep),
                        references: push_some(acc.references, st.reference),
                        code: match st.code {
                            Some(c) => acc.code.union(Set::new(|x: usize| c.0 <= x < c.1)),
                            None => acc.code,
                        },
                    },
                ),
            },
        }
    }
}

/// The destinations and ids of reference link definitions.
pub open spec fn references_view(v: Seq<(String, String)>) -> Seq<(Seq<char>, Seq<char>)> {
    v.map_values(|p: (String, String)| (p.0@, p.1@))
}

/// What the first pass gathers.
pub struct FirstPass {
    /// Replacements in the text of the documentation
    pub replacements: Vec<ReplaceContent>,
    /// Destinations and ids of reference links, whose definitions are
    /// rewritten in the second pass
    pub reference_definitions: Vec<(String, String)>,
    /// Spans of the code blocks
    pub code_blocks: RangeSet<usize>,
}

/// What handling one event adds.
struct Step {
    rep: Option<ReplaceContent>,
    reference: Option<(String, String)>,
    code: Option<(usize, usize)>,
}

/// The bytes `start..end` of `md`, whose characters are `v`, when they can be
/// cut out.
fn cut(v: &[char], start: usize, end: usize) -> (r: Option<String>)
    ensures
        r is Some <==> range_replaceable(v@, start as int, end as int),
        r matches Some(t) ==> t@ == byte_slice(v@, start as int, end as int),
{
    if start > end {
        return None;
    }
    let i = match find_char_index(v, start) {
        Some(i) => i,
        None => {
            return None;
        },
    };
    let j = match find_char_index(v, end) {
        Some(j) => j,
        None => {
            return None;
        },
    };
    if i > j {
        proof {
            crate::text::lemma_byte_len_take_mono(v@, j as int, i as int);
        }
        return None;
    }
    Some(string_from_chars(v, i, j))
}

/// Handles one event of the first pass; see [`first_pass_step`].
fn first_pass_event(
    v: &[char],
    e: &MdEvent,
    links: &Links,
    increment_headings: bool,
) -> (r: Option<Step>)
    requires
        links.wf(),
    ensures
        r is None <==> first_pass_step(v@, *e, links.view_map(), increment_headings) is None,
        r matches Some(st) ==> {
            let sv = first_pass_step(v@, *e, links.view_map(), increment_headings).unwrap();
            &&& sv.rep == match st.rep {
                Some(x) => Some(rep_view(x)),
                None => None::<(int, int, Seq<char>)>,
            }
            &&& sv.reference == match st.reference {
                Some(x) => Some((x.0@, x.1@)),
                None => None::<(Seq<char>, Seq<char>)>,
            }
            &&& sv.code == st.code
            &&& st.code matches Some(c) ==> c.0 < c.1
        },
{
    let none = Step { rep: None, reference: None, code: None };
    match &e.kind {
        MdEventKind::Heading(level) => {
            if increment_headings && *level != 6 {
                match cut(v, e.start, e.end) {
                    Some(text) => {
                        let mut content = string_of("#");
                        push_str(&mut content, text.as_str());
                        Some(Step { rep: Some(ReplaceContent { range: e.start..e.end, content }), ..none })
                    },
                    None => None,
                }
            } else {
                Some(none)
            }
        },
        MdEventKind::IndentedCode => {
            if e.start < e.end {
                Some(Step { code: Some((e.start, e.end)), ..none })
            } else {
                None
            }
        },
        MdEventKind::FencedCode(info) => {
            if !(e.start < e.end) {
                return None;
            }
            if !is_rust_code_block(info.as_str()) {
                return Some(Step { code: Some((e.start, e.end)), ..none });
            }
            match cut(v, e.start, e.end) {
                Some(text) => {
                    let block = chars_of(text.as_str());
                    match rewrite_rust_code_block(block.as_slice()) {
                        Some(content) => Some(
                            Step {
                                rep: Some(ReplaceContent { range: e.start..e.end, content }),
                                code: Some((e.start, e.end)),
                                reference: None,
                            },
                        ),
                        None => None,
                    }
                },
                None => None,
            }
        },
        MdEventKind::Link(kind, dest, id) => {
            let k = kind.as_str();
            proof {
                reveal_strlit("ShortcutUnknown");
                reveal_strlit("CollapsedUnknown");
                reveal_strlit("ReferenceUnknown");
                reveal_strlit("Reference");
                reveal_strlit("Shortcut");
                reveal_strlit("Inline");
            }
            if str_eq(k, "ShortcutUnknown") || str_eq(k, "CollapsedUnknown") || str_eq(
                k,
                "ReferenceUnknown",
            ) {
                let end = if str_eq(k, "CollapsedUnknown") {
                    if e.end > usize::MAX - 2 {
                        return None;
                    }
                    e.end + 2
                } else {
                    e.end
                };
                let mut content = string_of("[");
                push_str(&mut content, id.as_str());
                push_str(&mut content, "](");
                push_str(&mut content, dest.as_str());
                push_str(&mut content, ")");
                Some(Step { rep: Some(ReplaceContent { range: e.start..end, content }), ..none })
            } else if (str_eq(k, "Reference") || str_eq(k, "Shortcut")) && !id.as_str().is_empty() {
                Some(Step { reference: Some((dest.clone(), id.clone())), ..none })
            } else if str_eq(k, "Inline") {
                let text = match cut(v, e.start, e.end) {
                    Some(text) => text,
                    None => {
                        return None;
                    },
                };
                let d = match locate_inline_link_destination(text.as_str()) {
                    Some(d) => d,
                    None => {
                        return None;
                    },
                };
                if d.start > usize::MAX - e.start || d.end > usize::MAX - e.start {
                    return None;
                }
                match links.get(dest.as_str()) {
                    Some(url) => Some(
                        Step {
                            rep: Some(
                                ReplaceContent {
                                    range: e.start + d.start..e.start + d.end,
                                    content: url.clone(),
                                },
                            ),
                            ..none
                        },
                    ),
                    None => Some(none),
                }
            } else {
                Some(none)
            }
        },
        MdEventKind::Other => Some(none),
    }
}

/// Once the first pass cannot go on, it cannot go on over more events either.
proof fn lemma_first_pass_stops(
    md: Seq<char>,
    events: Seq<MdEvent>,
    links: Map<Seq<char>, Seq<char>>,
    increment_headings: bool,
    i: int,
    n: int,
)
    requires
        0 <= i <= n,
        first_pass_upto(md, events, links, increment_headings, i) is None,
    ensures
        first_pass_upto(md, events, links, increment_headings, n) is None,
    decreases n - i,
{
    if i < n {
        lemma_first_pass_stops(md, events, links, increment_headings, i, n - 1);
    }
}

/// Pass 1/3: goes over the `events` that the markdown parser reports for
/// `markdown` and gathers the replacements, the reference link definitions
/// to rewrite and the code blocks; see [`first_pass_step`]. `None` where the
/// handling of an event cannot go on.
pub fn first_pass(
    markdown: &str,
    events: &Vec<MdEvent>,
    links: &Links,
    increment_headings: bool,
) -> (r: Option<FirstPass>)
    requires
        links.wf(),
    ensures
        r is None <==> first_pass_upto(
            markdown@,
            events@,
            links.view_map(),
            increment_headings,
            events@.len() as int,
        ) is None,
        r matches Some(p) ==> first_pass_upto(
            markdown@,
            events@,
            links.view_map(),
            increment_headings,
            events@.len() as int,
        ) == Some(
            FirstPassV {
                reps: reps_view(p.replacements@),
                references: references_view(p.reference_definitions@),
                code: range_set_points(p.code_blocks),
            },
        ),
{
    let v = chars_of(markdown);
    let ghost links_map = links.view_map();
    let mut replacements: Vec<ReplaceContent> = Vec::new();
    let mut reference_definitions: Vec<(String, String)> = Vec::new();
    let mut code_blocks = new_range_set();
    let mut i: usize = 0;
    proof {
        assert(reps_view(replacements@) =~= Seq::empty());
        assert(references_view(reference_definitions@) =~= Seq::empty());
    }
    while i < events.len()
        invariant
            0 <= i <= events@.len(),
            v@ == markdown@,
            links.wf(),
            links_map == links.view_map(),
            first_pass_upto(markdown@, events@, links_map, increment_headings, i as int) == Some(
                FirstPassV {
                    reps: reps_view(replacements@),
                    references: references_view(reference_definitions@),
                    code: range_set_points(code_blocks),
                },
            ),
        decreases events@.len() - i,
    {
        let ghost acc = first_pass_upto(markdown@, events@, links_map, increment_headings, i as int).unwrap();
        match first_pass_event(v.as_slice(), &events[i], links, increment_headings) {
            None => {
                proof {
                    lemma_first_pass_stops(
                        markdown@,
                        events@,
                        links_map,
                        increment_headings,
                        i + 1,
                        events@.len() as int,
                    );
                }
                return None;
            },
            Some(st) => {
                let ghost sv = first_pass_step(markdown@, events@[i as int], links_map, increment_headings).unwrap();
                let ghost old_reps = replacements@;
                let ghost old_refs = reference_definitions@;
                match st.rep {
                    Some(x) => {
                        replacements.push(x);
                    },
                    None => {},
                }
                match st.reference {
                    Some(x) => {
                        reference_definitions.push(x);
                    },
                    None => {},
                }
                match st.code {
                    Some(c) => {
                        range_set_insert(&mut code_blocks, c.0, c.1);
                    },
                    None => {},
                }
                proof {
                    assert(reps_view(replacements@) =~= push_some(acc.reps, sv.rep));
                    assert(references_view(reference_definitions@) =~= push_some(
                        acc.references,
                        sv.reference,
                    ));
                    match sv.code {
                        Some(c) => {
                            assert(range_set_points(code_blocks) =~= acc.code.union(
                                Set::new(|x: usize| c.0 <= x < c.1),
                            ));
                        },
                        None => {},
                    }
                }
                i += 1;
            },
        }
    }
    Some(FirstPass { replacements, reference_definitions, code_blocks })
}

/// Pass 2/3 over the first `n` reference link definitions: for each whose
/// destination `links` maps to a URL, the span of its destination in `md`,
/// replaced by that URL. `None` when an expression to find a definition
/// cannot be built.
pub open spec fn second_pass_upto(
    md: Seq<char>,
    references: Seq<(Seq<char>, Seq<char>)>,
    links: Map<Seq<char>, Seq<char>>,
    code: Set<usize>,
    n: int,
) -> Option<Seq<(int, int, Seq<char>)>>
    decreases n,
{
    if n <= 0 {
        Some(Seq::empty())
    } else {
        match second_pass_upto(md, references, links, code, n - 1) {
            None => None,
            Some(acc) => {
                let (dest, id) = references[n - 1];
                if !links.contains_key(dest) {
                    Some(acc)
                } else {
                    match definition_span(md, dest, id, code) {
                        Err(_) => None,
                        Ok(None) => Some(acc),
                        Ok(Some(span)) => Some(acc.push((span.0 as int, span.1 as int, links[dest]))),
                    }
                }
            },
        }
    }
}

/// Once the second pass cannot go on, it cannot go on over more definitions either.
proof fn lemma_second_pass_stops(
    md: Seq<char>,
    references: Seq<(Seq<char>, Seq<char>)>,
    links: Map<Seq<char>, Seq<char>>,
    code: Set<usize>,
    i: int,
    n: int,
)
    requires
        0 <= i <= n,
        second_pass_upto(md, references, links, code, i) is None,
    ensures
        second_pass_upto(md, references, links, code, n) is None,
    decreases n - i,
{
    if i < n {
        lemma_second_pass_stops(md, references, links, code, i, n - 1);
    }
}

/// Pass 2/3: the replacements that point the definitions of the
/// `reference_definitions` in `markdown` to the URLs of `links`:
///
/// ```markdown
/// [clone method]: Clone::clone
///                 ^^^^^^^^^^^^
/// ```
///
/// becomes:
///
/// ```markdown
/// [clone method]: https://doc.rust-lang.org/std/clone/trait.Clone.html#tymethod.clone
/// ```
///
/// Definitions inside the `code_blocks` are skipped. `None` when an
/// expression to find a definition cannot be built.
pub fn second_pass(
    markdown: &str,
    reference_definitions: &Vec<(String, String)>,
    links: &Links,
    code_blocks: &RangeSet<usize>,
) -> (r: Option<Vec<ReplaceContent>>)
    requires
        links.wf(),
    ensures
        r is None <==> second_pass_upto(
            markdown@,
            references_view(reference_definitions@),
            links.view_map(),
            range_set_points(*code_blocks),
            reference_definitions@.len() as int,
        ) is None,
        r matches Some(v) ==> second_pass_upto(
            markdown@,
            references_view(reference_definitions@),
            links.view_map(),
            range_set_points(*code_blocks),
            reference_definitions@.len() as int,
        ) == Some(reps_view(v@)),
{
    let ghost refs = references_view(reference_definitions@);
    let ghost code = range_set_points(*code_blocks);
    let mut reps: Vec<ReplaceContent> = Vec::new();
    let mut i: usize = 0;
    assert(reps_view(reps@) =~= Seq::empty());
    while i < reference_definitions.len()
        invariant
            0 <= i <= reference_definitions@.len(),
            links.wf(),
            refs == references_view(reference_definitions@),
            code == range_set_points(*code_blocks),
            second_pass_upto(markdown@, refs, links.view_map(), code, i as int) == Some(
                reps_view(reps@),
            ),
        decreases reference_definitions@.len() - i,
    {
        let (dest, id) = &reference_definitions[i];
        assert(refs[i as int] == (dest@, id@));
        match links.get(dest.as_str()) {
            None => {},
            Some(url) => {
                match reference_link_definition(markdown, dest.as_str(), id.as_str(), code_blocks) {
                    Err(_) => {
                        proof {
                            lemma_second_pass_stops(
                                markdown@,
                                refs,
                                links.view_map(),
                                code,
                                i + 1,
                                reference_definitions@.len() as int,
                            );
                        }
                        return None;
                    },
                    Ok(None) => {},
                    Ok(Some(range)) => {
                        let ghost old_reps = reps_view(reps@);
                        reps.push(ReplaceContent { range, content: url.clone() });
                        assert(reps_view(reps@) =~= old_reps.push(
                            (range.start as int, range.end as int, url@),
                        ));
                    },
                }
            },
        }
        i += 1;
    }
    Some(reps)
}

/// The replacements that put, over the source of each text event, the text
/// that the parser renders for it.
pub open spec fn text_replacements(texts: Seq<TextEvent>) -> Seq<(int, int, Seq<char>)>
    decreases texts.len(),
{
    if texts.len() == 0 {
        Seq::empty()
    } else {
        let last = texts.last();
        let rest = text_replacements(texts.drop_last());
        match last.text {
            Some(t) => rest.push((last.start as int, last.end as int, t@)),
            None => rest,
        }
    }
}

/// Pass 3/3: the replacements that put the rendered text over the source of
/// each text event. With smart punctuation, `--` becomes `–`, `...` becomes
/// `…`, and straight quotes become curly ones.
pub fn third_pass(texts: &Vec<TextEvent>) -> (r: Vec<ReplaceContent>)
    ensures
        reps_view(r@) == text_replacements(texts@),
{
    let mut reps: Vec<ReplaceContent> = Vec::new();
    let mut i: usize = 0;
    assert(reps_view(reps@) =~= Seq::empty());
    while i < texts.len()
        invariant
            0 <= i <= texts@.len(),
            reps_view(reps@) == text_replacements(texts@.take(i as int)),
        decreases texts@.len() - i,
    {
        let ghost old_reps = reps_view(reps@);
        assert(texts@.take(i + 1).drop_last() =~= texts@.take(i as int));
        let e = &texts[i];
        match &e.text {
            Some(t) => {
                reps.push(ReplaceContent { range: e.start..e.end, content: t.clone() });
                assert(reps_view(reps@) =~= old_reps.push((e.start as int, e.end as int, t@)));
            },
            None => {},
        }
        i += 1;
    }
    assert(texts@.take(texts@.len() as int) =~= texts@);
    reps
}

/// The bits of the parser options that rustdoc enables: tables (bit 1),
/// footnotes (bit 2), strikethrough (bit 3), task lists (bit 4) and smart
/// punctuation (bit 5).
pub open spec fn markdown_option_bits() -> u32 {
    62
}

/// The parser options that rustdoc enables; see
/// <https://github.com/rust-lang/rust/blob/021fc25b7a48f6051bee1e1f06c7a277e4de1cc9/src/librustdoc/html/markdown.rs#L68-L74>.
pub fn markdown_options() -> (r: u32)
    ensures
        r == markdown_option_bits(),
{
    62
}

/// The README text for the documentation `md`, where intra-doc links
/// resolve through `links`; `None` where a pass cannot go on, or where its
/// replacements cannot be applied.
pub open spec fn resolved_markdown(
    md: Seq<char>,
    links: Map<Seq<char>, Seq<char>>,
    increment_headings: bool,
) -> Option<Seq<char>> {
    let events = markdown_events(md, markdown_option_bits(), links);
    match first_pass_upto(md, events, links, increment_headings, events.len() as int) {
        None => None,
        Some(p1) => if !replacements_apply(md, p1.reps, 0) {
            None
        } else {
            let md2 = replaced_all(md, p1.reps, 0);
            match second_pass_upto(md2, p1.references, links, p1.code, p1.references.len() as int) {
                None => None,
                Some(reps2) => if !replacements_apply(md2, reps2, 0) {
                    None
                } else {
                    let md3 = replaced_all(md2, reps2, 0);
                    let reps3 = text_replacements(markdown_text_events(md3, markdown_option_bits()));
                    if !replacements_apply(md3, reps3, 0) {
                        None
                    } else {
                        Some(replaced_all(md3, reps3, 0))
                    }
                },
            }
        },
    }
}

/// Given a `markdown` string:
///
/// - Resolves all `links` in it
/// - Strips rustdoc-specific tags from code fences, such as "edition2024,compile_fail"
/// - Makes text have "smart punctuation", since rustdoc does the same
/// - Labels code blocks without a language as "Rust"
///
/// `None` where the spans that the parser reports cannot be used.
pub fn resolve_markdown(markdown: &str, links: &Links, increment_headings: bool) -> (r: Option<String>)
    requires
        links.wf(),
    ensures
        r is None <==> resolved_markdown(markdown@, links.view_map(), increment_headings) is None,
        r matches Some(t) ==> resolved_markdown(markdown@, links.view_map(), increment_headings)
            == Some(t@),
{
    let options = markdown_options();
    // Pass 1/3: headings, code blocks, broken links and inline links
    let events = parse_events(markdown, options, links);
    let p1 = match first_pass(markdown, &events, links, increment_headings) {
        Some(p1) => p1,
        None => {
            return None;
        },
    };
    let md2 = match ReplaceContent::try_replace_all(markdown, &p1.replacements) {
        Some(t) => t,
        None => {
            return None;
        },
    };
    // Pass 2/3: reference link definitions
    let reps2 = match second_pass(md2.as_str(), &p1.reference_definitions, links, &p1.code_blocks) {
        Some(r) => r,
        None => {
            return None;
        },
    };
    let md3 = match ReplaceContent::try_replace_all(md2.as_str(), &reps2) {
        Some(t) => t,
        None => {
            return None;
        },
    };
    // Pass 3/3: smart punctuation, done apart so that it does not disturb
    // the link replacements
    let texts = parse_text_events(md3.as_str(), options);
    let reps3 = third_pass(&texts);
    ReplaceContent::try_replace_all(md3.as_str(), &reps3)
}

/// One of the events starts a level 1 heading.
pub open spec fn has_h1(levels: Seq<Option<u8>>) -> bool {
    exists|i: int| 0 <= i < levels.len() && levels[i] == Some(1u8)
}

/// Returns whether the passed markdown has any h1 headings
pub fn has_h1_heading(content: &str) -> (r: bool)
    ensures
        r == has_h1(markdown_heading_levels(content@)),
{
    let levels = parse_heading_levels(content);
    let mut i: usize = 0;
    while i < levels.len()
        invariant
            0 <= i <= levels@.len(),
            levels@ == markdown_heading_levels(content@),
            forall|k: int| 0 <= k < i ==> levels@[k] != Some(1u8),
        decreases levels@.len() - i,
    {
        if levels[i] == Some(1u8) {
            return true;
        }
        i += 1;
    }
    false
}

/// No heading event at all, or only ones of other levels, is no level 1
/// heading.
pub proof fn lemma_h1_empty_and_single(x: Option<u8>)
    ensures
        !has_h1(Seq::<Option<u8>>::empty()),
        has_h1(seq![x]) <==> x == Some(1u8),
{
    if has_h1(seq![x]) {
        let i = choose|i: int| 0 <= i < 1 && seq![x][i] == Some(1u8);
        assert(i == 0);
    }
    if x == Some(1u8) {
        assert(seq![x][0] == Some(1u8));
    }
}

/// A text has a level 1 heading where either part of it does: text before or
/// after a level 1 heading does not hide it.
pub proof fn lemma_h1_anywhere(a: Seq<Option<u8>>, b: Seq<Option<u8>>)
    ensures
        has_h1(a + b) <==> has_h1(a) || has_h1(b),
{
    if has_h1(a + b) {
        let i = choose|i: int| 0 <= i < (a + b).len() && (a + b)[i] == Some(1u8);
        if i < a.len() {
            assert(a[i] == Some(1u8));
        } else {
            assert(b[i - a.len()] == Some(1u8));
        }
    }
    if has_h1(a) {
        let i = choose|i: int| 0 <= i < a.len() && a[i] == Some(1u8);
        assert((a + b)[i] == Some(1u8));
    }
    if has_h1(b) {
        let i = choose|i: int| 0 <= i < b.len() && b[i] == Some(1u8);
        assert((a + b)[a.len() + i] == Some(1u8));
    }
}

/// A link whose destination the broken link callback supplied (pulldown's
/// `ShortcutUnknown`, `CollapsedUnknown` and `ReferenceUnknown` links, such
/// as `[Foo]`, `[Foo][]` and `[the type][Foo]`) is written out as
/// `[id](destination)` over its span, and over the `[]` after a collapsed
/// link.
pub proof fn lemma_unknown_links_written_out(
    md: Seq<char>,
    e: MdEvent,
    links: Map<Seq<char>, Seq<char>>,
    increment_headings: bool,
)
    ensures
        match e.kind {
            MdEventKind::Link(kind, dest, id) => {
                let written = "["@ + id@ + "]("@ + dest@ + ")"@;
                &&& (kind@ == "ShortcutUnknown"@ || kind@ == "ReferenceUnknown"@) ==> first_pass_step(
                    md,
                    e,
                    links,
                    increment_headings,
                ) == Some(StepV { rep: Some((e.start as int, e.end as int, written)), reference: None, code: None })
                &&& (kind@ == "CollapsedUnknown"@ && e.end + 2 <= usize::MAX) ==> first_pass_step(
                    md,
                    e,
                    links,
                    increment_headings,
                ) == Some(
                    StepV { rep: Some((e.start as int, e.end + 2, written)), reference: None, code: None },
                )
            },
            _ => true,
        },
{
    reveal_strlit("ShortcutUnknown");
    reveal_strlit("CollapsedUnknown");
    reveal_strlit("ReferenceUnknown");
    match e.kind {
        MdEventKind::Link(kind, dest, id) => {
            if kind@ == "ShortcutUnknown"@ || kind@ == "ReferenceUnknown"@ {
                assert(unknown_link(kind@));
                assert(kind@[0] != "CollapsedUnknown"@[0]);
                assert(kind@ != "CollapsedUnknown"@);
            }
            if kind@ == "CollapsedUnknown"@ {
                assert(unknown_link(kind@));
            }
        },
        _ => {},
    }
}

} // verus!
