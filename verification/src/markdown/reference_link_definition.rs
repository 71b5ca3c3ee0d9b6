//! Locating the definition of a reference link, which the markdown parser
//! does not report.

use std::ops::Range;

use rangemap::RangeSet;
use regex::RegexBuilder;

use vstd::prelude::*;

use crate::text::{push_str, string_of};

verus! {

#[verifier::external_type_specification]
#[verifier::external_body]
#[verifier::reject_recursive_types(T)]
pub struct ExRangeSet<T>(RangeSet<T>);

/// The points that a set of ranges covers.
pub uninterp spec fn range_set_points(s: RangeSet<usize>) -> Set<usize>;

/// Whether the query range `start..end` overlaps the ranges that cover the
/// points `p`, where ranges that touch are kept as one.
///
/// A non-empty query overlaps when it holds a point of `p`. A query that is
/// empty or reversed overlaps when one stored range reaches from before its
/// end to past its start, that is when every point from `end - 1` to `start`
/// is covered.
pub open spec fn overlaps_points(p: Set<usize>, start: usize, end: usize) -> bool {
    if start < end {
        exists|x: usize| start <= x < end && #[trigger] p.contains(x)
    } else {
        end >= 1 && forall|x: usize| end - 1 <= x <= start ==> #[trigger] p.contains(x)
    }
}

/// An empty set of ranges.
///
/// Trusted: calls `rangemap::RangeSet::new`, which creates a set that covers
/// nothing.
#[verifier::external_body]
pub(crate) fn new_range_set() -> (r: RangeSet<usize>)
    ensures
        range_set_points(r) == Set::<usize>::empty(),
{
    RangeSet::new()
}

/// Adds the range `start..end` to the set.
///
/// Trusted: calls `rangemap::RangeSet::insert`, which panics on an empty
/// range, and otherwise adds the points of the range, joining it with the
/// stored ranges that it overlaps or touches.
#[verifier::external_body]
pub(crate) fn range_set_insert(s: &mut RangeSet<usize>, start: usize, end: usize)
    requires
        start < end,
    ensures
        range_set_points(*final(s)) == range_set_points(*old(s)).union(
            Set::new(|x: usize| start <= x < end),
        ),
{
    s.insert(start..end);
}

/// Whether the range `start..end` overlaps a range of the set.
///
/// Trusted: calls `rangemap::RangeSet::overlaps`, which looks for the stored
/// range with the smallest end past `start` and tests whether it begins
/// before `end`. Since the stored ranges are disjoint, do not touch and are
/// ordered, that is [`overlaps_points`].
#[verifier::external_body]
pub(crate) fn range_set_overlaps(s: &RangeSet<usize>, start: usize, end: usize) -> (r: bool)
    ensures
        r == overlaps_points(range_set_points(*s), start, end),
{
    s.overlaps(&(start..end))
}

/// The characters that have a meaning in a regular expression.
pub open spec fn regex_meta(c: char) -> bool {
    c == '\\' || c == '.' || c == '+' || c == '*' || c == '?' || c == '(' || c == ')' || c == '|'
        || c == '[' || c == ']' || c == '{' || c == '}' || c == '^' || c == '$' || c == '#' || c
        == '&' || c == '-' || c == '~'
}

/// `s` with a backslash before each character that has a meaning in a
/// regular expression, so that the result matches `s` literally.
pub open spec fn regex_escaped(s: Seq<char>) -> Seq<char>
    decreases s.len(),
{
    if s.len() == 0 {
        Seq::empty()
    } else {
        let c = s[0];
        (if regex_meta(c) {
            seq!['\\', c]
        } else {
            seq![c]
        }) + regex_escaped(s.drop_first())
    }
}

/// Escapes the characters of `s` that have a meaning in a regular
/// expression.
///
/// Trusted: calls `regex::escape`, which puts a backslash before each meta
/// character (those of [`regex_meta`]) and keeps the others.
#[verifier::external_body]
fn escape(s: &str) -> (r: String)
    ensures
        r@ == regex_escaped(s@),
{
    regex::escape(s)
}

/// The spans of capture groups 1 and 2 of a match.
pub type GroupSpans = (Option<(usize, usize)>, Option<(usize, usize)>);

/// For each match of the regular expression `pattern` in `haystack`, in the
/// order in which the regex crate reports them, the spans of capture groups 1
/// and 2; `None` when the regex crate cannot build the expression.
pub uninterp spec fn regex_captures(
    pattern: Seq<char>,
    multi_line: bool,
    ignore_whitespace: bool,
    haystack: Seq<char>,
) -> Option<Seq<GroupSpans>>;

/// The spans of capture groups 1 and 2 of every match of `pattern` in
/// `haystack`.
///
/// Trusted: calls `regex::RegexBuilder::build` with the given flags, then
/// `Regex::captures_iter`. The contract only names the result.
#[verifier::external_body]
fn captures(
    pattern: &str,
    multi_line: bool,
    ignore_whitespace: bool,
    haystack: &str,
) -> (r: Option<Vec<GroupSpans>>)
    ensures
        r matches Some(v) ==> regex_captures(pattern@, multi_line, ignore_whitespace, haystack@)
            == Some(v@),
        r is None ==> regex_captures(pattern@, multi_line, ignore_whitespace, haystack@) is None,
{
    let regex = RegexBuilder::new(pattern).multi_line(multi_line).ignore_whitespace(ignore_whitespace).build().ok()?;
    let span = |m: Option<regex::Match>| m.map(|m| (m.start(), m.end()));
    Some(regex.captures_iter(haystack).map(|c| (span(c.get(1)), span(c.get(2)))).collect())
}

/// The regular expression that finds the definition of the reference link
/// with id `id` and destination `dest`: at the start of a line, after
/// spaces, block quote markers or list bullets, the id in brackets (in any
/// case), a colon, and the destination, in angle brackets (group 1) or not
/// (group 2). Each character of the id and the destination matches itself,
/// white space included.
pub open spec fn reference_pattern(dest: Seq<char>, id: Seq<char>) -> Seq<char> {
    "^[\\s>*\\-+0-9.]*?\\[(?i:"@ + regex_escaped(id) + ")\\]:\\s*(?:<("@ + regex_escaped(dest)
        + ")>|("@ + regex_escaped(dest) + "))"@
}

/// The span of a match: group 1, or else group 2.
pub open spec fn chosen_group(g: GroupSpans) -> Option<(usize, usize)> {
    match g.0 {
        Some(s) => Some(s),
        None => g.1,
    }
}

/// From match `i` on, the span of the first match whose chosen group does
/// not overlap a code block.
pub open spec fn first_definition(caps: Seq<GroupSpans>, code: Set<usize>, i: int) -> Option<(usize, usize)>
    decreases caps.len() - i,
{
    if i < 0 || i >= caps.len() {
        None
    } else {
        match chosen_group(caps[i]) {
            Some(s) if !overlaps_points(code, s.0, s.1) => Some(s),
            _ => first_definition(caps, code, i + 1),
        }
    }
}

/// The regular expression for the definition cannot be built.
#[derive(Debug)]
pub struct PatternError;

/// Where the definition of the reference link with id `id` and destination
/// `dest` stands in `markdown`, outside the code blocks `code`; `Err` when
/// the regex crate cannot build the expression.
pub open spec fn definition_span(
    markdown: Seq<char>,
    dest: Seq<char>,
    id: Seq<char>,
    code: Set<usize>,
) -> Result<Option<(usize, usize)>, PatternError> {
    match regex_captures(reference_pattern(dest, id), true, false, markdown) {
        Some(caps) => Ok(first_definition(caps, code, 0)),
        None => Err(PatternError),
    }
}

/// Locates reference link definition with the given `link_id` and
/// `link_destination`, in `markdown`, returns span of the link URL
///
/// With an id of `"rust_compiler"` and a destination of
/// `"https://github.com/rust-lang/rust"`, the span of the highlighted section
/// is returned:
///
/// ```markdown
/// The Rust compiler can be [found][rust compiler] on GitHub
///
/// [rust compiler]: <https://github.com/rust-lang/rust> "link title"
///                   ^^^^^^^^^^^^^^^^^^^^^^^^^^^^^^^^^
/// ```
///
/// Only the first definition counts, as in markdown, and definitions inside
/// code blocks are skipped.
pub fn reference_link_definition(
    markdown: &str,
    link_destination: &str,
    link_id: &str,
    code_blocks: &RangeSet<usize>,
) -> (r: Result<Option<Range<usize>>, PatternError>)
    ensures
        r matches Ok(Some(range)) ==> definition_span(
            markdown@,
            link_destination@,
            link_id@,
            range_set_points(*code_blocks),
        ) == Ok::<Option<(usize, usize)>, PatternError>(Some((range.start, range.end))),
        r matches Ok(None) ==> definition_span(
            markdown@,
            link_destination@,
            link_id@,
            range_set_points(*code_blocks),
        ) == Ok::<Option<(usize, usize)>, PatternError>(None),
        r is Err <==> definition_span(
            markdown@,
            link_destination@,
            link_id@,
            range_set_points(*code_blocks),
        ) is Err,
{
    // Must escape since we'll interpolate them into the regex.
    let dest = escape(link_destination);
    let id = escape(link_id);
    let mut pattern = string_of("^[\\s>*\\-+0-9.]*?\\[(?i:");
    push_str(&mut pattern, id.as_str());
    push_str(&mut pattern, ")\\]:\\s*(?:<(");
    push_str(&mut pattern, dest.as_str());
    push_str(&mut pattern, ")>|(");
    push_str(&mut pattern, dest.as_str());
    push_str(&mut pattern, "))");
    proof {
        assert(pattern@ =~= reference_pattern(link_destination@, link_id@));
    }
    let caps = match captures(pattern.as_str(), true, false, markdown) {
        Some(caps) => caps,
        None => {
            return Err(PatternError);
        },
    };
    let ghost code = range_set_points(*code_blocks);
    let mut i: usize = 0;
    while i < caps.len()
        invariant
            0 <= i <= caps@.len(),
            code == range_set_points(*code_blocks),
            regex_captures(reference_pattern(link_destination@, link_id@), true, false, markdown@)
                == Some(caps@),
            first_definition(caps@, code, i as int) == first_definition(caps@, code, 0),
        decreases caps@.len() - i,
    {
        let g = caps[i];
        let chosen = match g.0 {
            Some(s) => Some(s),
            None => g.1,
        };
        if let Some(s) = chosen {
            if !range_set_overlaps(code_blocks, s.0, s.1) {
                return Ok(Some(s.0..s.1));
            }
        }
        i += 1;
    }
    Ok(None)
}

} // verus!
