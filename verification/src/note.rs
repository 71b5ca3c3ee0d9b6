//! The informational note at the beginning of the generated region of a
//! README, which says how the region was generated:
//!
//! ```markdown
//! <!-- cargo-reedme: info-start
//!
//!     Do not edit this region by hand
//!     ===============================
//!
//!     This region was generated from Rust documentation comments by `cargo-reedme` using this command:
//!
//!         cargo reedme
//!
//!     for more info: https://github.com/nik-rev/cargo-reedme
//!
//! cargo-reedme: info-end -->
//! ```

use vstd::prelude::*;

use crate::insert_into_readme::{marker_insert_start, readme_text, region_text};
use crate::markdown::code_block::{count_trailing_white_space, find_newline_from, trailing_white_space};
use crate::text::{
    chars_occur_at, chars_of, find_chars, first_char_index, first_occurrence,
    lemma_first_occurrence_after, occurs_in, push_char, push_str, string_from_chars,
    string_of,
};

verus! {

/// What the note's text writes where the command-line arguments go.
pub open spec fn args_placeholder() -> Seq<char> {
    "{args}"@
}

/// The start of the note's comment.
pub open spec fn info_start() -> Seq<char> {
    "<!-- cargo-reedme: info-start"@
}

/// The end of the note's comment.
pub open spec fn info_end() -> Seq<char> {
    "cargo-reedme: info-end -->"@
}

/// `s` from index `i` on, with each `{args}` (six characters) replaced by
/// `args`, from left to right.
pub open spec fn with_args_from(s: Seq<char>, args: Seq<char>, i: int) -> Seq<char>
    decreases s.len() - i,
{
    if i < 0 || i >= s.len() {
        Seq::empty()
    } else if i + 6 <= s.len() && s.subrange(i, i + 6) == args_placeholder() {
        args + with_args_from(s, args, i + 6)
    } else {
        seq![s[i]] + with_args_from(s, args, i + 1)
    }
}

/// A line of the note as the comment shows it: without trailing white space,
/// and indented by four spaces unless it is empty.
pub open spec fn indented_line(l: Seq<char>) -> Seq<char> {
    let t = l.take(l.len() - trailing_white_space(l));
    if t.len() == 0 {
        Seq::empty()
    } else {
        "    "@ + t
    }
}

/// Each line of `s` (split at `\n`) as the comment shows it.
pub open spec fn indented_lines(s: Seq<char>) -> Seq<char>
    decreases s.len(),
{
    match first_char_index(s, '\n') {
        Some(i) => if 0 <= i < s.len() {
            indented_line(s.take(i)) + "\n"@ + indented_lines(s.skip(i + 1))
        } else {
            indented_line(s)
        },
        None => indented_line(s),
    }
}

/// The note's comment, for the note text `note` and the command-line
/// arguments `args`.
pub open spec fn info_comment(note: Seq<char>, args: Seq<char>) -> Seq<char> {
    info_start() + "\n\n"@ + indented_lines(with_args_from(note, args, 0)) + "\n"@ + info_end()
}

/// Replaces each `{args}` of `note` by `args`.
fn interpolate_args(note: &[char], args: &str) -> (r: String)
    ensures
        r@ == with_args_from(note@, args@, 0),
{
    let placeholder = chars_of("{args}");
    proof {
        reveal_strlit("{args}");
    }
    let n = note.len();
    let mut i: usize = 0;
    let mut out = String::new();
    while i < n
        invariant
            0 <= i <= n == note@.len(),
            placeholder@ == args_placeholder(),
            args_placeholder().len() == 6,
            out@ + with_args_from(note@, args@, i as int) == with_args_from(note@, args@, 0),
        decreases n - i,
    {
        if chars_occur_at(note, placeholder.as_slice(), i) {
            let ghost before = out@;
            push_str(&mut out, args);
            assert(before + with_args_from(note@, args@, i as int) == before + (args@
                + with_args_from(note@, args@, i + 6)));
            assert((before + args@) + with_args_from(note@, args@, i + 6) =~= before + (args@
                + with_args_from(note@, args@, i + 6)));
            i = i + 6;
        } else {
            let ghost before = out@;
            push_char(&mut out, note[i]);
            assert((before + seq![note@[i as int]]) + with_args_from(note@, args@, i + 1) =~= before
                + (seq![note@[i as int]] + with_args_from(note@, args@, i + 1)));
            i = i + 1;
        }
    }
    assert(out@ + with_args_from(note@, args@, i as int) =~= out@);
    out
}

/// Appends the line `v[lo..hi]` as the comment shows it.
fn push_indented_line(out: &mut String, v: &[char], lo: usize, hi: usize)
    requires
        lo <= hi <= v@.len(),
    ensures
        final(out)@ == old(out)@ + indented_line(v@.subrange(lo as int, hi as int)),
{
    let line = string_from_chars(v, lo, hi);
    let l = chars_of(line.as_str());
    let trail = count_trailing_white_space(l.as_slice());
    let keep = l.len() - trail;
    if keep > 0 {
        push_str(out, "    ");
        let t = string_from_chars(l.as_slice(), 0, keep);
        push_str(out, t.as_str());
        proof {
            reveal_strlit("    ");
            assert(l@.subrange(0, keep as int) =~= l@.take(keep as int));
        }
    } else {
        assert(l@.take(keep as int) =~= Seq::<char>::empty());
    }
}

/// One step of [`indented_lines`]: the line up to the first `\n` from
/// index `pos`, or the rest when there is none.
proof fn lemma_indented_lines_step(v: Seq<char>, pos: int, newline: Option<int>)
    requires
        0 <= pos <= v.len(),
        match newline {
            Some(i) => pos <= i < v.len() && first_char_index(v.skip(pos), '\n') == Some(i - pos),
            None => first_char_index(v.skip(pos), '\n') is None,
        },
    ensures
        indented_lines(v.skip(pos)) == match newline {
            Some(i) => indented_line(v.subrange(pos, i)) + "\n"@ + indented_lines(v.skip(i + 1)),
            None => indented_line(v.subrange(pos, v.len() as int)),
        },
{
    let rest = v.skip(pos);
    match newline {
        Some(i) => {
            assert(rest.take(i - pos) =~= v.subrange(pos, i));
            assert(rest.skip(i - pos + 1) =~= v.skip(i + 1));
        },
        None => {
            assert(rest =~= v.subrange(pos, v.len() as int));
        },
    }
}

/// Each line of `v` as the comment shows it; see [`indented_lines`].
fn indent_lines(v: &[char]) -> (r: String)
    ensures
        r@ == indented_lines(v@),
{
    let mut out = String::new();
    let mut pos: usize = 0;
    let n = v.len();
    assert(v@.skip(0) =~= v@);
    proof {
        reveal_strlit("\n");
    }
    loop
        invariant
            pos <= v@.len(),
            n == v@.len(),
            "\n"@ == seq!['\n'],
            out@ + indented_lines(v@.skip(pos as int)) == indented_lines(v@),
        decreases v@.len() - pos,
    {
        match find_newline_from(v, pos) {
            Some(i) => {
                proof {
                    lemma_indented_lines_step(v@, pos as int, Some(i as int));
                }
                let ghost before = out@;
                push_indented_line(&mut out, v, pos, i);
                push_str(&mut out, "\n");
                proof {
                    let line = indented_line(v@.subrange(pos as int, i as int));
                    assert(out@ + indented_lines(v@.skip(i + 1)) =~= before + (line + "\n"@
                        + indented_lines(v@.skip(i + 1))));
                }
                pos = i + 1;
            },
            None => {
                proof {
                    lemma_indented_lines_step(v@, pos as int, None);
                }
                push_indented_line(&mut out, v, pos, n);
                return out;
            },
        }
    }
}

/// The note's comment, for the note text `note` and the command-line
/// arguments `args`: `{args}` in the note becomes the arguments, and each
/// line is indented by four spaces.
pub fn info_comment_text(note: &str, args: &str) -> (r: String)
    ensures
        r@ == info_comment(note@, args@),
{
    let v = chars_of(note);
    let with_args = interpolate_args(v.as_slice(), args);
    let w = chars_of(with_args.as_str());
    let body = indent_lines(w.as_slice());
    let mut r = string_of("<!-- cargo-reedme: info-start");
    push_str(&mut r, "\n\n");
    push_str(&mut r, body.as_str());
    push_str(&mut r, "\n");
    push_str(&mut r, "cargo-reedme: info-end -->");
    r
}

/// Where the note's comment stands in `s`: from its start to the end of its
/// end marker.
pub open spec fn info_region(s: Seq<char>) -> Option<(int, int)> {
    match first_occurrence(s, info_start()) {
        Some(a) => match first_occurrence(s.skip(a), info_end()) {
            Some(b) => Some((a, a + b + info_end().len())),
            None => None,
        },
        None => None,
    }
}

/// The README `new` with its note's comment replaced by that of `current`,
/// where both have one: two READMEs that differ only in their notes are
/// then equal.
pub open spec fn normalized_readme(current: Seq<char>, new: Seq<char>) -> Seq<char> {
    match (info_region(current), info_region(new)) {
        (Some(c), Some(n)) => new.take(n.0) + current.subrange(c.0, c.1) + new.skip(n.1),
        _ => new,
    }
}

/// Where the note's comment stands in `v`.
fn find_info_region(v: &[char]) -> (r: Option<(usize, usize)>)
    ensures
        r matches Some(p) ==> info_region(v@) == Some((p.0 as int, p.1 as int)) && p.0 <= p.1
            <= v@.len(),
        r is None ==> info_region(v@) is None,
{
    let start = chars_of("<!-- cargo-reedme: info-start");
    let end = chars_of("cargo-reedme: info-end -->");
    let a = match find_chars(v, start.as_slice()) {
        Some(a) => a,
        None => {
            return None;
        },
    };
    let rest = string_from_chars(v, a, v.len());
    let rv = chars_of(rest.as_str());
    assert(rv@ =~= v@.skip(a as int));
    match find_chars(rv.as_slice(), end.as_slice()) {
        Some(b) => Some((a, a + b + end.len())),
        None => None,
    }
}

/// The new README with its note's comment replaced by that of the current
/// README, where both have one; see [`normalized_readme`].
pub fn normalize_new_readme(current: &str, new_readme: &str) -> (r: String)
    ensures
        r@ == normalized_readme(current@, new_readme@),
{
    let c = chars_of(current);
    let n = chars_of(new_readme);
    match (find_info_region(c.as_slice()), find_info_region(n.as_slice())) {
        (Some(cr), Some(nr)) => {
            let mut r = string_from_chars(n.as_slice(), 0, nr.0);
            let middle = string_from_chars(c.as_slice(), cr.0, cr.1);
            push_str(&mut r, middle.as_str());
            let tail = string_from_chars(n.as_slice(), nr.1, n.len());
            push_str(&mut r, tail.as_str());
            assert(n@.subrange(0, nr.0 as int) =~= n@.take(nr.0 as int));
            assert(n@.subrange(nr.1 as int, n@.len() as int) =~= n@.skip(nr.1 as int));
            r
        },
        _ => string_of(new_readme),
    }
}

/// The note's comment up to its end marker.
pub open spec fn info_comment_body(note: Seq<char>, args: Seq<char>) -> Seq<char> {
    info_start() + "\n\n"@ + indented_lines(with_args_from(note, args, 0)) + "\n"@
}

/// The markers of the note's comment each begin with a character that they
/// do not hold again.
proof fn lemma_info_markers()
    ensures
        info_start().len() > 0,
        forall|j: int| 0 < j < info_start().len() ==> #[trigger] info_start()[j] != info_start()[0],
        info_end().len() > 0,
        forall|j: int| 0 < j < info_end().len() ==> #[trigger] info_end()[j] != info_end()[0],
{
    reveal_strlit("<!-- cargo-reedme: info-start");
    reveal_strlit("cargo-reedme: info-end -->");
}

/// The note's comment `b` + end marker, after a text `p` without a start
/// marker, is the region that normalization finds.
proof fn lemma_region_of(p: Seq<char>, b: Seq<char>, q: Seq<char>)
    requires
        !occurs_in(p, info_start()),
        !occurs_in(b, info_end()),
        b.len() >= info_start().len(),
        b.take(info_start().len() as int) == info_start(),
    ensures
        info_region(p + b + info_end() + q) == Some(
            (p.len() as int, (p.len() + b.len() + info_end().len()) as int),
        ),
{
    lemma_info_markers();
    let t = p + b + info_end() + q;
    let y = b.skip(info_start().len() as int) + info_end() + q;
    assert(b =~= info_start() + b.skip(info_start().len() as int));
    assert(t =~= p + info_start() + y);
    lemma_first_occurrence_after(p, info_start(), y);
    assert(t.skip(p.len() as int) =~= b + info_end() + q);
    lemma_first_occurrence_after(b, info_end(), q);
}

/// Two READMEs generated with the same text compare equal once the new one
/// is normalized, whatever their notes and the arguments in them: the
/// normalized README is the current one.
///
/// This holds where the README text before the generated region holds no
/// start marker of a note, and the notes' comments hold no end marker before
/// their own.
pub proof fn lemma_notes_do_not_matter(
    before: Seq<char>,
    inserted: Seq<char>,
    after: Seq<char>,
    current_note: Seq<char>,
    current_args: Seq<char>,
    new_note: Seq<char>,
    new_args: Seq<char>,
)
    requires
        !occurs_in(before + marker_insert_start() + "\n\n"@, info_start()),
        !occurs_in(info_comment_body(current_note, current_args), info_end()),
        !occurs_in(info_comment_body(new_note, new_args), info_end()),
    ensures
        normalized_readme(
            readme_text(before, region_text(current_note, current_args, inserted), after),
            readme_text(before, region_text(new_note, new_args, inserted), after),
        ) == readme_text(before, region_text(current_note, current_args, inserted), after),
{
    let p = before + marker_insert_start() + "\n\n"@;
    let q = "\n\n"@ + inserted + "\n\n"@ + crate::insert_into_readme::marker_insert_end() + after;
    let b1 = info_comment_body(current_note, current_args);
    let b2 = info_comment_body(new_note, new_args);
    let t1 = readme_text(before, region_text(current_note, current_args, inserted), after);
    let t2 = readme_text(before, region_text(new_note, new_args, inserted), after);
    assert(t1 =~= p + b1 + info_end() + q);
    assert(t2 =~= p + b2 + info_end() + q);
    assert(b1.take(info_start().len() as int) =~= info_start());
    assert(b2.take(info_start().len() as int) =~= info_start());
    lemma_region_of(p, b1, q);
    lemma_region_of(p, b2, q);
    let e1 = (p.len() + b1.len() + info_end().len()) as int;
    let e2 = (p.len() + b2.len() + info_end().len()) as int;
    assert(t2.take(p.len() as int) + t1.subrange(p.len() as int, e1) + t2.skip(e2) =~= t1);
}

} // verus!
