//! Rewriting a fenced code block of Rust code for a README: the fence is
//! labelled `rust`, and the lines that rustdoc hides are removed.

use vstd::prelude::*;

use crate::text::{chars_of, first_char_index, has_prefix, is_white_space, is_whitespace, push_chars, push_str, string_of};

verus! {

/// The number of times `c` repeats at the start of `s`.
pub open spec fn leading_count(s: Seq<char>, c: char) -> nat
    decreases s.len(),
{
    if s.len() > 0 && s[0] == c {
        1 + leading_count(s.drop_first(), c)
    } else {
        0
    }
}

/// The number of white space characters at the start of `s`.
pub open spec fn leading_white_space(s: Seq<char>) -> nat
    decreases s.len(),
{
    if s.len() > 0 && is_white_space(s[0]) {
        1 + leading_white_space(s.drop_first())
    } else {
        0
    }
}

/// The number of white space characters at the end of `s`.
pub open spec fn trailing_white_space(s: Seq<char>) -> nat
    decreases s.len(),
{
    if s.len() > 0 && is_white_space(s.last()) {
        1 + trailing_white_space(s.drop_last())
    } else {
        0
    }
}

/// `s` without its leading white space.
pub open spec fn trim_start(s: Seq<char>) -> Seq<char> {
    s.skip(leading_white_space(s) as int)
}

/// `s` without its leading and trailing white space.
pub open spec fn trim(s: Seq<char>) -> Seq<char> {
    let t = trim_start(s);
    t.take(t.len() - trailing_white_space(t))
}

/// A line without the carriage return of a `\r\n` line ending.
pub open spec fn without_cr(s: Seq<char>) -> Seq<char> {
    if s.len() > 0 && s.last() == '\r' {
        s.drop_last()
    } else {
        s
    }
}

/// The lines of `s`, as `str::lines` gives them: split at each `\n`, a `\r`
/// before a `\n` dropped, and no empty line after a final `\n`.
pub open spec fn text_lines(s: Seq<char>) -> Seq<Seq<char>>
    decreases s.len(),
{
    if s.len() == 0 {
        Seq::empty()
    } else {
        match first_char_index(s, '\n') {
            Some(i) => if 0 <= i < s.len() {
                seq![without_cr(s.take(i))] + text_lines(s.skip(i + 1))
            } else {
                seq![s]
            },
            None => seq![s],
        }
    }
}

/// A line of Rust code that rustdoc hides from the documentation.
pub open spec fn hidden_line(l: Seq<char>) -> bool {
    has_prefix(trim_start(l), "# "@) || trim(l) == "#"@
}

/// The lines that are shown: lines starting with `##` are shown (that is how
/// a line can start with `#`), hidden lines are not.
pub open spec fn shown_lines(ls: Seq<Seq<char>>) -> Seq<Seq<char>>
    decreases ls.len(),
{
    if ls.len() == 0 {
        Seq::empty()
    } else {
        let rest = shown_lines(ls.drop_first());
        if has_prefix(ls[0], "##"@) || !hidden_line(ls[0]) {
            seq![ls[0]] + rest
        } else {
            rest
        }
    }
}

/// The lines joined by `\n`.
pub open spec fn join_lines(ls: Seq<Seq<char>>) -> Seq<char>
    decreases ls.len(),
{
    if ls.len() == 0 {
        Seq::empty()
    } else if ls.len() == 1 {
        ls[0]
    } else {
        ls[0] + "\n"@ + join_lines(ls.drop_first())
    }
}

/// The code block `block` (from its opening fence to its closing fence) as
/// it appears in the README: the same fence labelled `rust`, the lines
/// between the fences without the hidden ones, and the closing fence with the
/// indentation that it had. `None` when the block has fewer than two lines.
pub open spec fn rust_code_block(block: Seq<char>) -> Option<Seq<char>> {
    let ls = text_lines(block);
    if ls.len() < 2 {
        None
    } else {
        let fence = Seq::new(leading_count(block, '`'), |i: int| '`');
        let last = ls[ls.len() - 1];
        let indent = last.take(leading_white_space(last) as int);
        let content = join_lines(shown_lines(ls.subrange(1, ls.len() - 1)));
        Some(fence + "rust\n"@ + content + "\n"@ + indent + fence)
    }
}

/// The index of the first `\n` of `v` from index `from` on.
pub(crate) fn find_newline_from(v: &[char], from: usize) -> (r: Option<usize>)
    requires
        from <= v@.len(),
    ensures
        r matches Some(i) ==> from <= i < v@.len() && first_char_index(v@.skip(from as int), '\n')
            == Some(i - from),
        r is None ==> first_char_index(v@.skip(from as int), '\n') is None,
{
    let ghost rest = v@.skip(from as int);
    let mut i = from;
    while i < v.len()
        invariant
            from <= i <= v@.len(),
            rest == v@.skip(from as int),
            forall|k: int| from <= k < i ==> v@[k] != '\n',
        decreases v@.len() - i,
    {
        if v[i] == '\n' {
            proof {
                assert(rest[i - from] == '\n');
                let j = choose|j: int|
                    0 <= j < rest.len() && rest[j] == '\n' && forall|k: int| 0 <= k < j ==> rest[k] != '\n';
                if j < i - from {
                    assert(v@[from + j] == '\n');
                } else if i - from < j {
                    assert(rest[i - from] == '\n');
                }
            }
            return Some(i);
        }
        i += 1;
    }
    proof {
        assert forall|j: int| 0 <= j < rest.len() implies rest[j] != '\n' by {
            assert(rest[j] == v@[from + j]);
        }
    }
    None
}

/// The lines of `v`; see [`text_lines`].
fn lines_of(v: &[char]) -> (r: Vec<Vec<char>>)
    ensures
        r@.map_values(|l: Vec<char>| l@) == text_lines(v@),
{
    let mut r: Vec<Vec<char>> = Vec::new();
    let mut pos: usize = 0;
    assert(v@.skip(0) =~= v@);
    while pos < v.len()
        invariant
            pos <= v@.len(),
            r@.map_values(|l: Vec<char>| l@) + text_lines(v@.skip(pos as int)) == text_lines(v@),
        decreases v@.len() - pos,
    {
        let ghost rest = v@.skip(pos as int);
        let ghost before = r@.map_values(|l: Vec<char>| l@);
        match find_newline_from(v, pos) {
            Some(i) => {
                let mut end = i;
                if end > pos && v[end - 1] == '\r' {
                    end = end - 1;
                }
                let mut line: Vec<char> = Vec::new();
                let mut k = pos;
                while k < end
                    invariant
                        pos <= k <= end <= v@.len(),
                        line@ == v@.subrange(pos as int, k as int),
                    decreases end - k,
                {
                    line.push(v[k]);
                    assert(line@ =~= v@.subrange(pos as int, k + 1));
                    k += 1;
                }
                proof {
                    let t = rest.take(i - pos);
                    assert(t =~= v@.subrange(pos as int, i as int));
                    assert(without_cr(t) =~= line@);
                    assert(rest.skip(i - pos + 1) =~= v@.skip(i + 1));
                }
                r.push(line);
                proof {
                    assert(r@.map_values(|l: Vec<char>| l@) =~= before.push(without_cr(rest.take(i - pos))));
                }
                pos = i + 1;
            },
            None => {
                let mut line: Vec<char> = Vec::new();
                let mut k = pos;
                while k < v.len()
                    invariant
                        pos <= k <= v@.len(),
                        line@ == v@.subrange(pos as int, k as int),
                    decreases v@.len() - k,
                {
                    line.push(v[k]);
                    assert(line@ =~= v@.subrange(pos as int, k + 1));
                    k += 1;
                }
                proof {
                    assert(line@ =~= rest);
                    assert(v@.skip(v@.len() as int) =~= Seq::<char>::empty());
                }
                r.push(line);
                proof {
                    assert(r@.map_values(|l: Vec<char>| l@) =~= before.push(rest));
                }
                pos = v.len();
            },
        }
    }
    proof {
        assert(v@.skip(pos as int) =~= Seq::<char>::empty());
        assert(r@.map_values(|l: Vec<char>| l@) + Seq::<Seq<char>>::empty() =~= r@.map_values(
            |l: Vec<char>| l@,
        ));
    }
    r
}

/// The number of times `c` repeats at the start of `v`.
fn count_leading(v: &[char], c: char) -> (r: usize)
    ensures
        r == leading_count(v@, c),
        r <= v@.len(),
{
    let mut i: usize = 0;
    assert(v@.skip(0) =~= v@);
    while i < v.len() && v[i] == c
        invariant
            i <= v@.len(),
            leading_count(v@, c) == i + leading_count(v@.skip(i as int), c),
        decreases v@.len() - i,
    {
        assert(v@.skip(i as int).drop_first() =~= v@.skip(i + 1));
        i += 1;
    }
    i
}

/// The number of white space characters at the start of `v`.
fn count_leading_white_space(v: &[char]) -> (r: usize)
    ensures
        r == leading_white_space(v@),
        r <= v@.len(),
{
    let mut i: usize = 0;
    assert(v@.skip(0) =~= v@);
    while i < v.len() && is_whitespace(v[i])
        invariant
            i <= v@.len(),
            leading_white_space(v@) == i + leading_white_space(v@.skip(i as int)),
        decreases v@.len() - i,
    {
        assert(v@.skip(i as int).drop_first() =~= v@.skip(i + 1));
        i += 1;
    }
    i
}

/// The number of white space characters at the end of `v`.
pub(crate) fn count_trailing_white_space(v: &[char]) -> (r: usize)
    ensures
        r == trailing_white_space(v@),
        r <= v@.len(),
{
    let n = v.len();
    let mut i: usize = n;
    assert(v@.take(n as int) =~= v@);
    while i > 0 && is_whitespace(v[i - 1])
        invariant
            i <= n == v@.len(),
            trailing_white_space(v@) == (n - i) + trailing_white_space(v@.take(i as int)),
        decreases i,
    {
        assert(v@.take(i as int).drop_last() =~= v@.take(i - 1));
        i -= 1;
    }
    n - i
}

/// Whether rustdoc hides the line `l`.
fn is_hidden_line(l: &[char]) -> (r: bool)
    ensures
        r == hidden_line(l@),
{
    let lead = count_leading_white_space(l);
    let mut t: Vec<char> = Vec::new();
    let mut k = lead;
    while k < l.len()
        invariant
            lead <= k <= l@.len(),
            t@ == l@.subrange(lead as int, k as int),
        decreases l@.len() - k,
    {
        t.push(l[k]);
        assert(t@ =~= l@.subrange(lead as int, k + 1));
        k += 1;
    }
    assert(t@ =~= trim_start(l@));
    let hash_space = chars_of("# ");
    if crate::text::starts_with(t.as_slice(), hash_space.as_slice()) {
        return true;
    }
    let trail = count_trailing_white_space(t.as_slice());
    let len = t.len() - trail;
    let r = len == 1 && t[0] == '#';
    proof {
        reveal_strlit("#");
        let tt = trim(l@);
        assert(tt =~= t@.take(len as int));
        if r {
            assert(tt =~= "#"@);
        } else if len == 1 {
            assert(tt[0] != "#"@[0]);
        } else {
            assert(tt.len() != "#"@.len());
        }
    }
    r
}

/// The code block `block` as it appears in the README; see
/// [`rust_code_block`].
pub fn rewrite_rust_code_block(block: &[char]) -> (r: Option<String>)
    ensures
        r matches Some(t) ==> rust_code_block(block@) == Some(t@),
        r is None ==> rust_code_block(block@) is None,
{
    let lines = lines_of(block);
    let ghost ls = text_lines(block@);
    assert(lines@.len() == ls.len());
    if lines.len() < 2 {
        return None;
    }
    let count = count_leading(block, '`');
    let mut fence = String::new();
    let mut i: usize = 0;
    while i < count
        invariant
            i <= count,
            fence@ == Seq::new(i as nat, |k: int| '`'),
        decreases count - i,
    {
        crate::text::push_char(&mut fence, '`');
        assert(fence@ =~= Seq::new((i + 1) as nat, |k: int| '`'));
        i += 1;
    }
    let mut r = string_of(fence.as_str());
    push_str(&mut r, "rust\n");
    // The shown lines between the fences, joined by `\n`.
    let n = lines.len();
    let ghost inner = ls.subrange(1, n - 1);
    let mut first = true;
    let mut j: usize = n - 1;
    let ghost start = r@;
    let mut body = String::new();
    while j > 1
        invariant
            1 <= j <= n - 1,
            n == ls.len(),
            lines@.map_values(|l: Vec<char>| l@) == ls,
            inner == ls.subrange(1, n - 1),
            first <==> shown_lines(inner.skip(j - 1)).len() == 0,
            body@ == join_lines(shown_lines(inner.skip(j - 1))),
        decreases j,
    {
        let l = &lines[j - 1];
        assert(l@ == ls[j - 1]);
        assert(inner.skip(j - 2)[0] == ls[j - 1]);
        assert(inner.skip(j - 2).drop_first() =~= inner.skip(j - 1));
        let hashes = chars_of("##");
        if crate::text::starts_with(l.as_slice(), hashes.as_slice()) || !is_hidden_line(l.as_slice()) {
            let mut nb = String::new();
            push_chars(&mut nb, l.as_slice());
            if !first {
                push_str(&mut nb, "\n");
            }
            push_str(&mut nb, body.as_str());
            proof {
                let rest = shown_lines(inner.skip(j - 1));
                assert(shown_lines(inner.skip(j - 2)) =~= seq![l@] + rest);
                if rest.len() == 0 {
                    assert(nb@ =~= l@);
                } else {
                    assert((seq![l@] + rest).drop_first() =~= rest);
                }
            }
            body = nb;
            first = false;
        }
        j -= 1;
    }
    assert(inner.skip(0) =~= inner);
    push_str(&mut r, body.as_str());
    push_str(&mut r, "\n");
    let last = &lines[n - 1];
    assert(last@ == ls[n - 1]);
    let lead = count_leading_white_space(last.as_slice());
    let mut k: usize = 0;
    let ghost before_indent = r@;
    while k < lead
        invariant
            k <= lead <= last@.len(),
            r@ == before_indent + last@.take(k as int),
        decreases lead - k,
    {
        crate::text::push_char(&mut r, last[k]);
        assert(r@ =~= before_indent + last@.take(k + 1));
        k += 1;
    }
    push_str(&mut r, fence.as_str());
    assert(r@ =~= rust_code_block(block@).unwrap());
    Some(r)
}

/// The leading white space of `s` is white space, and is followed by a
/// character that is not.
proof fn lemma_leading_white_space(s: Seq<char>)
    ensures
        leading_white_space(s) <= s.len(),
        forall|k: int| 0 <= k < leading_white_space(s) ==> is_white_space(#[trigger] s[k]),
        leading_white_space(s) < s.len() ==> !is_white_space(s[leading_white_space(s) as int]),
    decreases s.len(),
{
    if s.len() > 0 && is_white_space(s[0]) {
        lemma_leading_white_space(s.drop_first());
        assert forall|k: int| 0 <= k < leading_white_space(s) implies is_white_space(#[trigger] s[k]) by {
            if k > 0 {
                assert(s[k] == s.drop_first()[k - 1]);
            }
        }
    }
}

/// The trailing white space of `s` is white space, and is all of `s` when
/// `s` is all white space.
proof fn lemma_trailing_white_space(s: Seq<char>)
    ensures
        trailing_white_space(s) <= s.len(),
        forall|k: int| s.len() - trailing_white_space(s) <= k < s.len() ==> is_white_space(#[trigger] s[k]),
        (forall|k: int| 0 <= k < s.len() ==> is_white_space(#[trigger] s[k])) ==> trailing_white_space(s) == s.len(),
    decreases s.len(),
{
    if s.len() > 0 && is_white_space(s.last()) {
        lemma_trailing_white_space(s.drop_last());
        assert forall|k: int| s.len() - trailing_white_space(s) <= k < s.len() implies is_white_space(#[trigger] s[k]) by {
            if k < s.len() - 1 {
                assert(s[k] == s.drop_last()[k]);
            }
        }
        if forall|k: int| 0 <= k < s.len() ==> is_white_space(#[trigger] s[k]) {
            assert forall|k: int| 0 <= k < s.drop_last().len() implies is_white_space(#[trigger] s.drop_last()[k]) by {
                assert(s.drop_last()[k] == s[k]);
            }
        }
    }
}

/// `s` trims to nothing exactly when it is all white space.
pub proof fn lemma_trim_empty_iff(s: Seq<char>)
    ensures
        trim(s).len() == 0 <==> forall|k: int| 0 <= k < s.len() ==> is_white_space(#[trigger] s[k]),
{
    lemma_leading_white_space(s);
    let lw = leading_white_space(s) as int;
    let t = s.skip(lw);
    lemma_trailing_white_space(t);
    if forall|k: int| 0 <= k < s.len() ==> is_white_space(#[trigger] s[k]) {
        assert forall|k: int| 0 <= k < t.len() implies is_white_space(#[trigger] t[k]) by {
            assert(t[k] == s[lw + k]);
        }
    } else {
        let k = choose|k: int| 0 <= k < s.len() && !is_white_space(#[trigger] s[k]);
        assert(lw < s.len());
        assert(t[0] == s[lw]);
        if trailing_white_space(t) == t.len() {
            assert(is_white_space(t[0]));
        }
    }
}

/// White space before a text adds to the count of leading white space.
proof fn lemma_leading_white_space_prefix(w: Seq<char>, s: Seq<char>)
    requires
        forall|k: int| 0 <= k < w.len() ==> is_white_space(#[trigger] w[k]),
    ensures
        leading_white_space(w + s) == w.len() + leading_white_space(s),
    decreases w.len(),
{
    if w.len() > 0 {
        assert((w + s)[0] == w[0]);
        assert((w + s).drop_first() =~= w.drop_first() + s);
        assert forall|k: int| 0 <= k < w.drop_first().len() implies is_white_space(
            #[trigger] w.drop_first()[k],
        ) by {
            assert(w.drop_first()[k] == w[k + 1]);
        }
        lemma_leading_white_space_prefix(w.drop_first(), s);
    } else {
        assert(w + s =~= s);
    }
}

/// A line that starts with `# ` after any white space is hidden, however far
/// it is indented, and a block's hidden lines are dropped from what it shows.
pub proof fn lemma_indented_hidden_line(w: Seq<char>, r: Seq<char>, rest: Seq<Seq<char>>)
    requires
        forall|k: int| 0 <= k < w.len() ==> is_white_space(#[trigger] w[k]),
    ensures
        hidden_line(w + "# "@ + r),
        shown_lines(seq![w + "# "@ + r] + rest) == shown_lines(rest),
{
    reveal_strlit("# ");
    reveal_strlit("##");
    let hs = "# "@;
    let l = w + hs + r;
    assert(l =~= w + (hs + r));
    lemma_leading_white_space_prefix(w, hs + r);
    assert((hs + r)[0] == '#');
    assert(!is_white_space('#'));
    assert(leading_white_space(hs + r) == 0);
    assert(trim_start(l) =~= hs + r);
    assert((hs + r).take(2) =~= hs);
    assert(has_prefix(trim_start(l), hs));
    let ls = seq![l] + rest;
    assert(ls[0] == l);
    assert(ls.drop_first() =~= rest);
    if w.len() > 0 {
        assert(l[0] == w[0]);
        assert(l.take(2)[0] == l[0]);
    } else {
        assert(l[1] == ' ');
        assert(l.take(2)[1] == l[1]);
    }
    assert(!has_prefix(l, "##"@));
}

} // verus!
