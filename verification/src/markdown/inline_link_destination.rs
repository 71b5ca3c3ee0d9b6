//! Locating the destination of a markdown inline link.
//!
//! The markdown parser reports where a whole link stands, but not where its
//! destination does. The destination is found by reading the link backwards,
//! from its closing parenthesis, past an optional title.

use std::ops::Range;

use vstd::prelude::*;

use crate::text::{
    byte_len, char_width, chars_of, is_white_space, is_whitespace, lemma_byte_len_concat,
    lemma_byte_len_single, prefix_byte_len, str_byte_len,
};

verus! {

/// Byte offset of the character at index `k`.
pub open spec fn byte_pos(s: Seq<char>, k: int) -> int {
    byte_len(s.take(k))
}

/// The character at index `p` is preceded by a backslash.
pub open spec fn escaped(s: Seq<char>, p: int) -> bool {
    p > 0 && s[p - 1] == '\\'
}

/// Reading backwards from index `p`, with `depth` closing parentheses still
/// open, the index of the `(` that closes the outermost of them.
/// Parentheses preceded by a backslash do not count.
pub open spec fn matching_open_paren(s: Seq<char>, p: int, depth: nat) -> Option<int>
    decreases p + 1,
{
    if p < 0 || p >= s.len() {
        None
    } else if s[p] == '(' && !escaped(s, p) {
        if depth <= 1 {
            Some(p)
        } else {
            matching_open_paren(s, p - 1, (depth - 1) as nat)
        }
    } else if s[p] == ')' && !escaped(s, p) {
        matching_open_paren(s, p - 1, depth + 1)
    } else {
        matching_open_paren(s, p - 1, depth)
    }
}

/// Reading backwards from index `p`, the index of the quote `q` that opens a
/// title.
pub open spec fn opening_quote(s: Seq<char>, p: int, q: char) -> Option<int>
    decreases p + 1,
{
    if p < 0 || p >= s.len() {
        None
    } else if s[p] == q && !escaped(s, p) {
        Some(p)
    } else {
        opening_quote(s, p - 1, q)
    }
}

/// Reading backwards from index `p`, the index of the `<` that opens a
/// destination in angle brackets.
pub open spec fn opening_angle(s: Seq<char>, p: int) -> Option<int>
    decreases p + 1,
{
    if p < 0 || p >= s.len() {
        None
    } else if s[p] == '<' && !escaped(s, p) {
        Some(p)
    } else {
        opening_angle(s, p - 1)
    }
}

/// The state after reading the optional title backwards from index `p`:
/// the byte offset where the part before the title ends, the index where the
/// title ends, and the index of the next character to read (`-1` when none
/// is left).
pub open spec fn after_title(s: Seq<char>, p: int, title_end: int) -> (int, int, int)
    decreases p + 1,
{
    if p < 0 || p >= s.len() {
        (0, title_end, -1)
    } else {
        let c = s[p];
        if c == '"' || c == '\'' {
            match opening_quote(s, p - 1, c) {
                Some(k) => (byte_pos(s, k), p + 1, k - 1),
                None => (0, p + 1, -1),
            }
        } else if c == ')' && !escaped(s, p) {
            // A title in parentheses is set apart from the destination by
            // white space; otherwise the parentheses belong to the
            // destination.
            match matching_open_paren(s, p - 1, 1) {
                Some(k) => if k >= 1 && is_white_space(s[k - 1]) {
                    (byte_pos(s, k), p + 1, k - 1)
                } else {
                    (byte_pos(s, s.len() - 1), title_end, p)
                },
                None => (0, p + 1, -1),
            }
        } else if is_white_space(c) {
            after_title(s, p - 1, title_end)
        } else {
            (byte_pos(s, s.len() - 1), title_end, p)
        }
    }
}

/// Skipping white space backwards from index `p`: the byte offset of the last
/// white space character skipped (or `end` if none), and the index of the
/// next character to read.
pub open spec fn skip_white_space_back(s: Seq<char>, p: int, end: int) -> (int, int)
    decreases p + 1,
{
    if 0 <= p < s.len() && is_white_space(s[p]) {
        skip_white_space_back(s, p - 1, byte_pos(s, p))
    } else {
        (end, p)
    }
}

/// The index of the first character from index `j` on that is not white
/// space.
pub open spec fn first_non_white_space(s: Seq<char>, j: int) -> Option<int>
    decreases s.len() - j,
{
    if j < 0 || j >= s.len() {
        None
    } else if !is_white_space(s[j]) {
        Some(j)
    } else {
        first_non_white_space(s, j + 1)
    }
}

/// The destination found once the title and the white space before it have
/// been read: `p` is the index of the next character to read, `end` the
/// byte offset where the destination ends unless it is in angle brackets, and
/// `title_end` the index where the title ends.
pub open spec fn destination_before(s: Seq<char>, p: int, end: int, title_end: int) -> Option<(int, int)> {
    if 0 <= p < s.len() && s[p] == '>' {
        match opening_angle(s, p - 1) {
            Some(k) => Some((byte_pos(s, k) + 1, byte_pos(s, p))),
            None => None,
        }
    } else {
        match matching_open_paren(s, p, 1) {
            None => None,
            Some(k) => if k == p {
                // What was read as a title is the destination itself.
                if k + 1 > title_end {
                    None
                } else if s.subrange(k + 1, title_end) == seq![')'] {
                    Some((byte_pos(s, k + 1), byte_pos(s, k + 1)))
                } else {
                    Some((byte_pos(s, k + 1), byte_pos(s, title_end)))
                }
            } else {
                let start = match first_non_white_space(s, k + 1) {
                    Some(j) => byte_pos(s, j),
                    None => byte_pos(s, k),
                };
                Some((start, end))
            },
        }
    }
}

/// The byte span of the destination of the inline link `s`, written
/// `[text](destination "title")`.
///
/// `None` when `s` cannot be read as an inline link: it does not end with
/// `)`, a destination in angle brackets has no opening `<`, or the opening
/// parenthesis of the link is missing.
pub open spec fn destination_span(s: Seq<char>) -> Option<(int, int)> {
    let n = s.len() as int;
    if n == 0 || s[n - 1] != ')' {
        None
    } else {
        let (end0, title_end, p1) = after_title(s, n - 2, n);
        let (end, p) = skip_white_space_back(s, p1, end0);
        destination_before(s, p, end, title_end)
    }
}

/// Byte offset of the character at index `k` of `v`.
fn byte_pos_of(v: &[char], k: usize, total: usize) -> (r: usize)
    requires
        k <= v@.len(),
        total == byte_len(v@),
        total <= usize::MAX,
    ensures
        r == byte_pos(v@, k as int),
{
    prefix_byte_len(v, k)
}

/// Reading backwards from index `q - 1`, the index of the `(` that matches a
/// `)` read just before.
fn find_matching_open_paren(v: &[char], q: usize) -> (r: Option<usize>)
    requires
        q < v@.len(),
    ensures
        r matches Some(k) ==> matching_open_paren(v@, q - 1, 1) == Some(k as int) && k < q,
        r is None ==> matching_open_paren(v@, q - 1, 1) is None,
{
    let mut depth: usize = 1;
    let mut q2: usize = q;
    while q2 > 0
        invariant
            q2 <= q < v@.len(),
            1 <= depth <= 1 + (q - q2),
            matching_open_paren(v@, q2 - 1, depth as nat) == matching_open_paren(v@, q - 1, 1),
        decreases q2,
    {
        let p = q2 - 1;
        let c = v[p];
        let esc = p > 0 && v[p - 1] == '\\';
        if c == '(' && !esc {
            if depth <= 1 {
                return Some(p);
            }
            depth = depth - 1;
        } else if c == ')' && !esc {
            depth = depth + 1;
        }
        q2 = p;
    }
    None
}

/// Reading backwards from index `q - 1`, the index of the quote `c` that
/// opens a title.
fn find_opening_quote(v: &[char], q: usize, c: char) -> (r: Option<usize>)
    requires
        q <= v@.len(),
    ensures
        r matches Some(k) ==> opening_quote(v@, q - 1, c) == Some(k as int) && k < q,
        r is None ==> opening_quote(v@, q - 1, c) is None,
{
    let mut q2: usize = q;
    while q2 > 0
        invariant
            q2 <= q <= v@.len(),
            opening_quote(v@, q2 - 1, c) == opening_quote(v@, q - 1, c),
        decreases q2,
    {
        let p = q2 - 1;
        if v[p] == c && !(p > 0 && v[p - 1] == '\\') {
            return Some(p);
        }
        q2 = p;
    }
    None
}

/// Reading backwards from index `q - 1`, the index of the opening `<`.
fn find_opening_angle(v: &[char], q: usize) -> (r: Option<usize>)
    requires
        q <= v@.len(),
    ensures
        r matches Some(k) ==> opening_angle(v@, q - 1) == Some(k as int) && k < q,
        r is None ==> opening_angle(v@, q - 1) is None,
{
    let mut q2: usize = q;
    while q2 > 0
        invariant
            q2 <= q <= v@.len(),
            opening_angle(v@, q2 - 1) == opening_angle(v@, q - 1),
        decreases q2,
    {
        let p = q2 - 1;
        if v[p] == '<' && !(p > 0 && v[p - 1] == '\\') {
            return Some(p);
        }
        q2 = p;
    }
    None
}

/// The index of the first character from index `j` on that is not white
/// space.
fn find_non_white_space(v: &[char], j: usize) -> (r: Option<usize>)
    ensures
        r matches Some(k) ==> first_non_white_space(v@, j as int) == Some(k as int) && k
            < v@.len(),
        r is None ==> first_non_white_space(v@, j as int) is None,
{
    let mut i = j;
    while i < v.len()
        invariant
            j <= i,
            first_non_white_space(v@, i as int) == first_non_white_space(v@, j as int),
        decreases v@.len() - i,
    {
        if !is_whitespace(v[i]) {
            return Some(i);
        }
        i += 1;
    }
    None
}

/// Whether `v[lo..hi]` is the single character `)`.
fn is_closing_paren_only(v: &[char], lo: usize, hi: usize) -> (r: bool)
    requires
        lo <= hi <= v@.len(),
    ensures
        r == (v@.subrange(lo as int, hi as int) == seq![')']),
{
    if hi - lo == 1 && v[lo] == ')' {
        assert(v@.subrange(lo as int, hi as int) =~= seq![')']);
        true
    } else {
        proof {
            if hi - lo == 1 {
                assert(v@.subrange(lo as int, hi as int)[0] != ')');
            } else {
                assert(v@.subrange(lo as int, hi as int).len() != seq![')'].len());
            }
        }
        false
    }
}

/// Reads the optional title backwards from index `q - 1`; see
/// [`after_title`].
fn read_title(v: &[char], q: usize, title_end: usize, total: usize) -> (r: (usize, usize, usize))
    requires
        q < v@.len(),
        title_end <= v@.len(),
        total == byte_len(v@),
        total <= usize::MAX,
    ensures
        after_title(v@, q - 1, title_end as int) == (r.0 as int, r.1 as int, r.2 - 1),
        r.1 <= v@.len(),
        r.2 <= q,
{
    let mut q2 = q;
    while q2 > 0
        invariant
            q2 <= q < v@.len(),
            title_end <= v@.len(),
            total == byte_len(v@),
            total <= usize::MAX,
            after_title(v@, q2 - 1, title_end as int) == after_title(v@, q - 1, title_end as int),
        decreases q2,
    {
        let p = q2 - 1;
        let c = v[p];
        if c == '"' || c == '\'' {
            return match find_opening_quote(v, p, c) {
                Some(k) => (byte_pos_of(v, k, total), p + 1, k),
                None => (0, p + 1, 0),
            };
        } else if c == ')' && !(p > 0 && v[p - 1] == '\\') {
            return match find_matching_open_paren(v, p) {
                Some(k) => if k >= 1 && is_whitespace(v[k - 1]) {
                    (byte_pos_of(v, k, total), p + 1, k)
                } else {
                    (byte_pos_of(v, v.len() - 1, total), title_end, q2)
                },
                None => (0, p + 1, 0),
            };
        } else if is_whitespace(c) {
            q2 = p;
        } else {
            return (byte_pos_of(v, v.len() - 1, total), title_end, q2);
        }
    }
    (0, title_end, 0)
}

/// The byte span of the destination of the inline link `input`, or `None`
/// when `input` cannot be read as an inline link (see [`destination_span`]).
pub fn locate_inline_link_destination(input: &str) -> (r: Option<Range<usize>>)
    ensures
        r matches Some(range) ==> destination_span(input@) == Some(
            (range.start as int, range.end as int),
        ),
        r is None ==> destination_span(input@) is None,
{
    let v = chars_of(input);
    let total = str_byte_len(input);
    let n = v.len();
    if n == 0 || v[n - 1] != ')' {
        return None;
    }
    let (end0, title_end, q1) = read_title(v.as_slice(), n - 1, n, total);
    // Skip white space before the title.
    let mut end = end0;
    let mut q = q1;
    while q > 0 && is_whitespace(v[q - 1])
        invariant
            q <= q1 < n == v@.len(),
            total == byte_len(v@),
            total <= usize::MAX,
            skip_white_space_back(v@, q - 1, end as int) == skip_white_space_back(
                v@,
                q1 - 1,
                end0 as int,
            ),
        decreases q,
    {
        end = byte_pos_of(v.as_slice(), q - 1, total);
        q = q - 1;
    }
    assert(skip_white_space_back(v@, q - 1, end as int) == (end as int, q - 1));
    find_destination(v.as_slice(), total, q, end, title_end)
}

/// The destination once the title and the white space before it have been
/// read; see [`destination_before`].
fn find_destination(v: &[char], total: usize, q: usize, end: usize, title_end: usize) -> (r: Option<Range<usize>>)
    requires
        q < v@.len(),
        title_end <= v@.len(),
        total == byte_len(v@),
        total <= usize::MAX,
    ensures
        r matches Some(range) ==> destination_before(v@, q - 1, end as int, title_end as int)
            == Some((range.start as int, range.end as int)),
        r is None ==> destination_before(v@, q - 1, end as int, title_end as int) is None,
{
    if q > 0 && v[q - 1] == '>' {
        let p = q - 1;
        return match find_opening_angle(v, p) {
            Some(k) => {
                let b = byte_pos_of(v, k, total);
                proof {
                    crate::text::lemma_byte_len_take_step(v@, k as int);
                    crate::text::lemma_byte_len_take_mono(v@, k + 1, v@.len() as int);
                    crate::text::lemma_take_all(v@);
                }
                Some(b + 1..byte_pos_of(v, p, total))
            },
            None => None,
        };
    }
    if q == 0 {
        return None;
    }
    let k = match find_matching_open_paren(v, q) {
        Some(k) => k,
        None => {
            return None;
        },
    };
    if k == q - 1 {
        let title_start = k + 1;
        if title_start > title_end {
            return None;
        }
        let b = byte_pos_of(v, title_start, total);
        if is_closing_paren_only(v, title_start, title_end) {
            return Some(b..b);
        }
        return Some(b..byte_pos_of(v, title_end, total));
    }
    let start = match find_non_white_space(v, k + 1) {
        Some(j) => byte_pos_of(v, j, total),
        None => byte_pos_of(v, k, total),
    };
    Some(start..end)
}

/// Returns span of link destination in the `input`, which must be a markdown
/// inline link:
///
/// ```markdown
/// This is an [inline link](<https://github.com> "Link to GitHub")
///                           ^^^^^^^^^^^^^^^^^^
/// ```
pub fn inline_link_destination(input: &str) -> (r: Option<Range<usize>>)
    requires
        destination_span(input@) is Some,
    ensures
        r matches Some(range) && destination_span(input@) == Some(
            (range.start as int, range.end as int),
        ),
{
    locate_inline_link_destination(input)
}

/// A destination that reading backwards takes whole: not empty, without
/// parentheses, not starting with white space, and not ending with white
/// space, a quote or `>`.
pub open spec fn simple_destination(d: Seq<char>) -> bool {
    &&& d.len() > 0
    &&& forall|i: int| 0 <= i < d.len() ==> #[trigger] d[i] != '(' && d[i] != ')'
    &&& !is_white_space(d[0])
    &&& !is_white_space(d.last())
    &&& d.last() != '"'
    &&& d.last() != '\''
    &&& d.last() != '>'
}

/// Reading backwards through a destination without parentheses reaches the
/// `(` before it.
proof fn lemma_scan_to_open_paren(s: Seq<char>, k: int, j: int)
    requires
        0 <= k <= j < s.len(),
        s[k] == '(',
        !escaped(s, k),
        forall|i: int| k < i <= j ==> #[trigger] s[i] != '(' && s[i] != ')',
    ensures
        matching_open_paren(s, j, 1) == Some(k),
    decreases j - k,
{
    if k < j {
        lemma_scan_to_open_paren(s, k, j - 1);
    }
}

/// The destination of the inline link `text(dest)`, where `dest` is a
/// simple destination and `text` does not end with a backslash, is `dest`.
pub proof fn lemma_simple_destination(text: Seq<char>, dest: Seq<char>)
    requires
        simple_destination(dest),
        text.len() == 0 || text.last() != '\\',
    ensures
        destination_span(text + seq!['('] + dest + seq![')']) == Some(
            (byte_len(text) + 1, byte_len(text) + 1 + byte_len(dest)),
        ),
{
    let open = text + seq!['('];
    let s = open + dest + seq![')'];
    let n = s.len() as int;
    let k = text.len() as int;
    assert(s[n - 1] == ')');
    assert(s[n - 2] == dest.last());
    assert(s[k] == '(');
    assert forall|i: int| k < i <= n - 2 implies #[trigger] s[i] != '(' && s[i] != ')' by {
        assert(s[i] == dest[i - k - 1]);
    }
    assert(!escaped(s, k)) by {
        if k > 0 {
            assert(s[k - 1] == text.last());
        }
    }
    lemma_scan_to_open_paren(s, k, n - 2);
    assert(s[k + 1] == dest[0]);
    assert(first_non_white_space(s, k + 1) == Some(k + 1));
    assert(s.take(k + 1) =~= open);
    assert(s.take(n - 1) =~= open + dest);
    lemma_byte_len_concat(text, seq!['(']);
    lemma_byte_len_single('(');
    assert(char_width('(') == 1);
    lemma_byte_len_concat(open, dest);
}

} // verus!
