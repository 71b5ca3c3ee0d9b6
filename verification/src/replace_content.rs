//! Replacing byte ranges of a string.

use std::ops::Range;

use vstd::prelude::*;

use crate::text::{
    byte_len, char_index, chars_of, find_char_index, is_boundary, lemma_byte_len_concat,
    lemma_byte_len_take_mono, lemma_char_index, string_from_chars,
};

verus! {

/// Replace a part of the string with something else
pub struct ReplaceContent {
    /// Location of text to replace, as byte offsets
    ///
    /// Range can be empty to insert text
    pub range: Range<usize>,
    /// What to replace that text with
    pub content: String,
}

/// `s` with the bytes `start..end` replaced by `content`.
pub open spec fn replace_range(s: Seq<char>, start: int, end: int, content: Seq<char>) -> Seq<char> {
    s.take(char_index(s, start)) + content + s.skip(char_index(s, end))
}

/// Replacing `start..end` is possible: the range is ordered and both ends are
/// character boundaries.
pub open spec fn range_replaceable(s: Seq<char>, start: int, end: int) -> bool {
    &&& 0 <= start <= end <= usize::MAX
    &&& is_boundary(s, start)
    &&& is_boundary(s, end)
}

/// A replacement as plain values: the byte range it replaces and the text it
/// puts there.
pub open spec fn rep_view(r: ReplaceContent) -> (int, int, Seq<char>) {
    (r.range.start as int, r.range.end as int, r.content@)
}

/// The replacements as plain values.
pub open spec fn reps_view(rs: Seq<ReplaceContent>) -> Seq<(int, int, Seq<char>)> {
    rs.map_values(|r: ReplaceContent| rep_view(r))
}

/// The shift that a replacement causes for the positions after it.
pub open spec fn replacement_shift(r: (int, int, Seq<char>)) -> int {
    byte_len(r.2) - (r.1 - r.0)
}

/// Each replacement in `reps`, shifted by the growth of the text that the
/// earlier ones caused, can be applied to `s`, and the shifts stay within
/// `isize`.
pub open spec fn replacements_apply(s: Seq<char>, reps: Seq<(int, int, Seq<char>)>, offset: int) -> bool
    decreases reps.len(),
{
    if reps.len() == 0 {
        true
    } else {
        let r = reps[0];
        let start = r.0 + offset;
        let end = r.1 + offset;
        &&& range_replaceable(s, start, end)
        &&& byte_len(r.2) <= isize::MAX
        &&& isize::MIN <= offset + replacement_shift(r) <= isize::MAX
        &&& replacements_apply(
            replace_range(s, start, end, r.2),
            reps.drop_first(),
            offset + replacement_shift(r),
        )
    }
}

/// The text after applying `reps` in order, each shifted by `offset` plus the
/// growth caused by the ones before it.
pub open spec fn replaced_all(s: Seq<char>, reps: Seq<(int, int, Seq<char>)>, offset: int) -> Seq<char>
    decreases reps.len(),
{
    if reps.len() == 0 {
        s
    } else {
        let r = reps[0];
        replaced_all(
            replace_range(s, r.0 + offset, r.1 + offset, r.2),
            reps.drop_first(),
            offset + replacement_shift(r),
        )
    }
}

impl ReplaceContent {
    /// Applies all `replacements` to the given `string`
    ///
    /// The ranges of the replacements are positions in the original string:
    /// each is shifted by how much the earlier replacements grew or shrank
    /// the text before it is applied.
    pub fn replace_all(string: String, replacements: Vec<ReplaceContent>) -> (r: String)
        requires
            replacements_apply(string@, reps_view(replacements@), 0),
        ensures
            r@ == replaced_all(string@, reps_view(replacements@), 0),
    {
        match Self::try_replace_all(string.as_str(), &replacements) {
            Some(r) => r,
            None => string,
        }
    }

    /// Applies all `replacements` to `string`, as [`ReplaceContent::replace_all`]
    /// does; `None` when one of them cannot be applied: its range, once
    /// shifted, is reversed, out of the text or splits a character, or the
    /// shift leaves `isize`.
    pub fn try_replace_all(string: &str, replacements: &Vec<ReplaceContent>) -> (r: Option<String>)
        ensures
            r is Some <==> replacements_apply(string@, reps_view(replacements@), 0),
            r matches Some(t) ==> t@ == replaced_all(string@, reps_view(replacements@), 0),
    {
        let ghost all = reps_view(replacements@);
        let mut cur = chars_of(string);
        let mut offset: i128 = 0;
        let mut k: usize = 0;
        assert(all.skip(0) =~= all);
        while k < replacements.len()
            invariant
                0 <= k <= replacements@.len(),
                all == reps_view(replacements@),
                isize::MIN <= offset <= isize::MAX,
                replacements_apply(string@, all, 0) <==> replacements_apply(
                    cur@,
                    all.skip(k as int),
                    offset as int,
                ),
                replaced_all(cur@, all.skip(k as int), offset as int) == replaced_all(
                    string@,
                    all,
                    0,
                ),
            decreases replacements@.len() - k,
        {
            let ghost rest = all.skip(k as int);
            assert(rest[0] == rep_view(replacements@[k as int]));
            assert(rest.drop_first() =~= all.skip(k + 1));
            let rep = &replacements[k];
            let start_i: i128 = rep.range.start as i128 + offset;
            let end_i: i128 = rep.range.end as i128 + offset;
            if start_i < 0 || end_i < start_i || end_i > usize::MAX as i128 {
                return None;
            }
            let start = start_i as usize;
            let end = end_i as usize;
            let i = match find_char_index(cur.as_slice(), start) {
                Some(i) => i,
                None => {
                    return None;
                },
            };
            let j = match find_char_index(cur.as_slice(), end) {
                Some(j) => j,
                None => {
                    return None;
                },
            };
            let clen = crate::text::str_byte_len(rep.content.as_str());
            if clen > isize::MAX as usize {
                return None;
            }
            let new_offset: i128 = offset + (clen as i128 - (end_i - start_i));
            if new_offset < isize::MIN as i128 || new_offset > isize::MAX as i128 {
                return None;
            }
            proof {
                if i > j {
                    lemma_byte_len_take_mono(cur@, j as int, i as int);
                }
            }
            let content = chars_of(rep.content.as_str());
            let mut next: Vec<char> = Vec::new();
            let mut p: usize = 0;
            while p < i
                invariant
                    0 <= p <= i <= cur@.len(),
                    next@ == cur@.take(p as int),
                decreases i - p,
            {
                next.push(cur[p]);
                assert(next@ =~= cur@.take(p + 1));
                p += 1;
            }
            let mut q: usize = 0;
            while q < content.len()
                invariant
                    0 <= q <= content@.len(),
                    next@ == cur@.take(i as int) + content@.take(q as int),
                decreases content@.len() - q,
            {
                next.push(content[q]);
                assert(next@ =~= cur@.take(i as int) + content@.take(q + 1));
                q += 1;
            }
            let mut t: usize = j;
            while t < cur.len()
                invariant
                    j <= t <= cur@.len(),
                    next@ == cur@.take(i as int) + content@ + cur@.subrange(j as int, t as int),
                decreases cur@.len() - t,
            {
                next.push(cur[t]);
                assert(next@ =~= cur@.take(i as int) + content@ + cur@.subrange(j as int, t + 1));
                t += 1;
            }
            assert(content@.take(content@.len() as int) =~= content@);
            assert(cur@.subrange(j as int, cur@.len() as int) =~= cur@.skip(j as int));
            offset = new_offset;
            cur = next;
            k += 1;
        }
        Some(string_from_chars(cur.as_slice(), 0, cur.len()))
    }
}

/// The ranges of `reps` are ordered and do not overlap, and the first
/// starts at or after `from`.
pub open spec fn ordered_from(reps: Seq<(int, int, Seq<char>)>, from: int) -> bool
    decreases reps.len(),
{
    reps.len() == 0 || (from <= reps[0].0 <= reps[0].1 && ordered_from(reps.drop_first(), reps[0].1))
}

/// Every range of `reps` starts and ends on a character boundary of `s`.
pub open spec fn on_boundaries(s: Seq<char>, reps: Seq<(int, int, Seq<char>)>) -> bool {
    forall|i: int| 0 <= i < reps.len() ==> is_boundary(s, #[trigger] reps[i].0) && is_boundary(s, reps[i].1)
}

/// The text of `s` from byte offset `from` on, with each range of `reps`
/// (positions in `s`) replaced by its content.
pub open spec fn spliced(s: Seq<char>, reps: Seq<(int, int, Seq<char>)>, from: int) -> Seq<char>
    decreases reps.len(),
{
    if reps.len() == 0 {
        s.skip(char_index(s, from))
    } else {
        s.subrange(char_index(s, from), char_index(s, reps[0].0)) + reps[0].2 + spliced(
            s,
            reps.drop_first(),
            reps[0].1,
        )
    }
}

/// Character indices of boundaries grow with the boundaries.
proof fn lemma_char_index_mono(s: Seq<char>, a: int, b: int)
    requires
        is_boundary(s, a),
        is_boundary(s, b),
        a <= b,
    ensures
        0 <= char_index(s, a) <= char_index(s, b) <= s.len(),
        byte_len(s.take(char_index(s, a))) == a,
        byte_len(s.take(char_index(s, b))) == b,
{
    let i = char_index(s, a);
    let j = char_index(s, b);
    if j < i {
        lemma_byte_len_take_mono(s, j, i);
    }
}

/// Applying ordered replacements to the text `d` followed by `s` from byte
/// offset `from` on, with the offset that leads positions of `s` into that
/// text, gives `d` followed by the spliced rest of `s`.
proof fn lemma_apply_ordered(s: Seq<char>, d: Seq<char>, reps: Seq<(int, int, Seq<char>)>, from: int)
    requires
        is_boundary(s, from),
        ordered_from(reps, from),
        on_boundaries(s, reps),
        byte_len(s) <= isize::MAX,
        byte_len(d + spliced(s, reps, from)) <= isize::MAX,
    ensures
        replacements_apply(d + s.skip(char_index(s, from)), reps, byte_len(d) - from),
        replaced_all(d + s.skip(char_index(s, from)), reps, byte_len(d) - from) == d + spliced(
            s,
            reps,
            from,
        ),
    decreases reps.len(),
{
    let i_f = char_index(s, from);
    let cur = d + s.skip(i_f);
    let off = byte_len(d) - from;
    if reps.len() > 0 {
        let r = reps[0];
        let (a, b, c) = r;
        assert(is_boundary(s, reps[0].0) && is_boundary(s, reps[0].1));
        lemma_char_index_mono(s, from, a);
        lemma_char_index_mono(s, a, b);
        let i_a = char_index(s, a);
        let i_b = char_index(s, b);
        let p_a = d.len() + (i_a - i_f);
        let p_b = d.len() + (i_b - i_f);
        // Positions of `s` fall where the offset leads them.
        assert(cur.take(p_a) =~= d + s.subrange(i_f, i_a));
        assert(cur.take(p_b) =~= d + s.subrange(i_f, i_b));
        assert(s.take(i_a) =~= s.take(i_f) + s.subrange(i_f, i_a));
        assert(s.take(i_b) =~= s.take(i_f) + s.subrange(i_f, i_b));
        lemma_byte_len_concat(s.take(i_f), s.subrange(i_f, i_a));
        lemma_byte_len_concat(s.take(i_f), s.subrange(i_f, i_b));
        lemma_byte_len_concat(d, s.subrange(i_f, i_a));
        lemma_byte_len_concat(d, s.subrange(i_f, i_b));
        lemma_char_index(cur, p_a);
        lemma_char_index(cur, p_b);
        // The text after the replacement.
        let d2 = d + s.subrange(i_f, i_a) + c;
        let rest = reps.drop_first();
        assert(replace_range(cur, a + off, b + off, c) =~= d2 + s.skip(i_b));
        lemma_byte_len_concat(d + s.subrange(i_f, i_a), c);
        assert(d + spliced(s, reps, from) =~= d2 + spliced(s, rest, b));
        lemma_byte_len_concat(d2, spliced(s, rest, b));
        lemma_byte_len_concat(d + s.subrange(i_f, i_a), c);
        assert(s =~= s.take(i_f) + s.skip(i_f));
        lemma_byte_len_concat(s.take(i_f), s.skip(i_f));
        assert(cur =~= cur.take(p_b) + cur.skip(p_b));
        lemma_byte_len_concat(cur.take(p_b), cur.skip(p_b));
        lemma_byte_len_concat(d, s.skip(i_f));
        assert forall|k: int| 0 <= k < rest.len() implies is_boundary(s, #[trigger] rest[k].0) && is_boundary(s, rest[k].1) by {
            assert(rest[k] == reps[k + 1]);
        }
        lemma_apply_ordered(s, d2, rest, b);
        assert(byte_len(d2) - b == off + replacement_shift(r));
    } else {
        assert(d + spliced(s, reps, from) =~= cur);
    }
}

/// Replacements whose ranges are ordered and do not overlap all apply to the
/// positions of the original string: the result is the original with each
/// range replaced by its content.
///
/// This holds where the ranges lie on character boundaries of the string and
/// the string and the result have at most `isize::MAX` bytes.
pub proof fn lemma_replace_all_ordered(s: Seq<char>, reps: Seq<(int, int, Seq<char>)>)
    requires
        ordered_from(reps, 0),
        on_boundaries(s, reps),
        byte_len(s) <= isize::MAX,
        byte_len(spliced(s, reps, 0)) <= isize::MAX,
    ensures
        replacements_apply(s, reps, 0),
        replaced_all(s, reps, 0) == spliced(s, reps, 0),
{
    lemma_char_index(s, 0);
    assert(s.take(0) =~= Seq::<char>::empty());
    assert(byte_len(Seq::<char>::empty()) == 0) by {
        assert(vstd::utf8::encode_utf8(Seq::<char>::empty()) =~= Seq::<u8>::empty());
    }
    assert(char_index(s, 0) == 0);
    let e = Seq::<char>::empty();
    assert(e + s.skip(0) =~= s);
    assert(e + spliced(s, reps, 0) =~= spliced(s, reps, 0));
    lemma_apply_ordered(s, e, reps, 0);
}

} // verus!
