//! Character and UTF-8 byte utilities shared by the text-rewriting code.
//!
//! Strings are viewed as sequences of `char`; positions handed out by the
//! markdown parser are byte offsets into the UTF-8 encoding of a string. The
//! functions here relate the two.

use vstd::prelude::*;
use vstd::utf8::*;

verus! {

/// Number of bytes in the UTF-8 encoding of a character sequence.
pub open spec fn byte_len(s: Seq<char>) -> int {
    encode_utf8(s).len() as int
}

/// Number of bytes in the UTF-8 encoding of one character.
pub open spec fn char_width(c: char) -> int {
    encode_scalar(c as u32).len() as int
}

/// Byte offset `b` is the start of a character of `s`, or its end.
pub open spec fn is_boundary(s: Seq<char>, b: int) -> bool {
    exists|i: int| 0 <= i <= s.len() && #[trigger] byte_len(s.take(i)) == b
}

/// The index of the character that starts at byte offset `b`.
pub open spec fn char_index(s: Seq<char>, b: int) -> int {
    choose|i: int| 0 <= i <= s.len() && #[trigger] byte_len(s.take(i)) == b
}

/// The characters between byte offsets `start` and `end`.
pub open spec fn byte_slice(s: Seq<char>, start: int, end: int) -> Seq<char> {
    s.subrange(char_index(s, start), char_index(s, end))
}

/// The encoding of a concatenation is the concatenation of the encodings.
pub proof fn lemma_encode_concat(a: Seq<char>, b: Seq<char>)
    ensures
        encode_utf8(a + b) == encode_utf8(a) + encode_utf8(b),
    decreases a.len(),
{
    if a.len() == 0 {
        assert(a + b =~= b);
        assert(encode_utf8(a) =~= Seq::<u8>::empty());
        assert(encode_utf8(a) + encode_utf8(b) =~= encode_utf8(b));
    } else {
        assert((a + b).drop_first() =~= a.drop_first() + b);
        assert((a + b)[0] == a[0]);
        lemma_encode_concat(a.drop_first(), b);
        assert(encode_utf8(a + b) =~= encode_scalar(a[0] as u32) + encode_utf8(a.drop_first() + b));
        assert(encode_utf8(a) =~= encode_scalar(a[0] as u32) + encode_utf8(a.drop_first()));
    }
}

/// The byte length of a concatenation.
pub proof fn lemma_byte_len_concat(a: Seq<char>, b: Seq<char>)
    ensures
        byte_len(a + b) == byte_len(a) + byte_len(b),
{
    lemma_encode_concat(a, b);
}

/// Byte length of a single character sequence.
pub proof fn lemma_byte_len_single(c: char)
    ensures
        byte_len(seq![c]) == char_width(c),
{
    assert(seq![c].drop_first() =~= Seq::<char>::empty());
    assert(encode_utf8(seq![c]) =~= encode_scalar(c as u32) + encode_utf8(Seq::<char>::empty()));
    assert(encode_utf8(Seq::<char>::empty()) =~= Seq::<u8>::empty());
}

/// Extending a prefix by one character adds the width of that character.
pub proof fn lemma_byte_len_take_step(s: Seq<char>, i: int)
    requires
        0 <= i < s.len(),
    ensures
        byte_len(s.take(i + 1)) == byte_len(s.take(i)) + char_width(s[i]),
{
    assert(s.take(i + 1) =~= s.take(i) + seq![s[i]]);
    lemma_byte_len_concat(s.take(i), seq![s[i]]);
    lemma_byte_len_single(s[i]);
}

/// Every character takes at least one byte.
pub proof fn lemma_char_width_pos(c: char)
    ensures
        1 <= char_width(c) <= 4,
{
    broadcast use char_is_scalar;
    assert(is_scalar(c as u32));
}

/// Byte lengths of prefixes grow strictly with the prefix.
pub proof fn lemma_byte_len_take_mono(s: Seq<char>, i: int, j: int)
    requires
        0 <= i <= j <= s.len(),
    ensures
        byte_len(s.take(i)) + (j - i) <= byte_len(s.take(j)),
        i < j ==> byte_len(s.take(i)) < byte_len(s.take(j)),
    decreases j - i,
{
    if i < j {
        lemma_byte_len_take_mono(s, i, j - 1);
        lemma_byte_len_take_step(s, j - 1);
        lemma_char_width_pos(s[j - 1]);
    }
}

/// Each byte offset names at most one character position.
pub proof fn lemma_char_index_unique(s: Seq<char>, i: int, j: int)
    requires
        0 <= i <= s.len(),
        0 <= j <= s.len(),
        byte_len(s.take(i)) == byte_len(s.take(j)),
    ensures
        i == j,
{
    if i < j {
        lemma_byte_len_take_mono(s, i, j);
    } else if j < i {
        lemma_byte_len_take_mono(s, j, i);
    }
}

/// `char_index` finds the position of a boundary.
pub proof fn lemma_char_index(s: Seq<char>, i: int)
    requires
        0 <= i <= s.len(),
    ensures
        char_index(s, byte_len(s.take(i))) == i,
        is_boundary(s, byte_len(s.take(i))),
{
    let b = byte_len(s.take(i));
    assert(0 <= i <= s.len() && byte_len(s.take(i)) == b);
    let k = char_index(s, b);
    lemma_char_index_unique(s, i, k);
}

/// The whole sequence is a prefix of itself.
pub proof fn lemma_take_all(s: Seq<char>)
    ensures
        s.take(s.len() as int) == s,
{
    assert(s.take(s.len() as int) =~= s);
}

/// Width in bytes of the UTF-8 encoding of `c`.
pub fn char_width_exec(c: char) -> (w: usize)
    ensures
        w == char_width(c),
        1 <= w <= 4,
{
    proof {
        broadcast use char_is_scalar;
        assert(is_scalar(c as u32));
    }
    let v = c as u32;
    if v <= 0x7f {
        1
    } else if v <= 0x7ff {
        2
    } else if v <= 0xffff {
        3
    } else {
        4
    }
}

/// The characters of a string slice.
pub fn chars_of(s: &str) -> (v: Vec<char>)
    ensures
        v@ == s@,
{
    let mut v: Vec<char> = Vec::new();
    for c in it: s.chars()
        invariant
            it.seq() == s@,
            v@ == it.seq().take(it.index() as int),
    {
        v.push(c);
        assert(v@ =~= it.seq().take(it.index() + 1));
    }
    proof {
        lemma_take_all(s@);
    }
    v
}

/// Appends a character to a string.
///
/// Trusted: calls `String::push`, whose documentation says that it appends
/// the given `char` to the end of the string.
#[verifier::external_body]
pub(crate) fn push_char(s: &mut String, c: char)
    ensures
        final(s)@ == old(s)@.push(c),
{
    s.push(c);
}

/// A string holding the characters `v[lo..hi]`.
pub fn string_from_chars(v: &[char], lo: usize, hi: usize) -> (s: String)
    requires
        lo <= hi <= v@.len(),
    ensures
        s@ == v@.subrange(lo as int, hi as int),
{
    let mut s = String::new();
    let mut i = lo;
    while i < hi
        invariant
            lo <= i <= hi <= v@.len(),
            s@ == v@.subrange(lo as int, i as int),
        decreases hi - i,
    {
        push_char(&mut s, v[i]);
        assert(s@ =~= v@.subrange(lo as int, i + 1));
        i += 1;
    }
    s
}

/// Appends the characters of `v` to `s`.
pub(crate) fn push_chars(s: &mut String, v: &[char])
    ensures
        final(s)@ == old(s)@ + v@,
{
    let mut i: usize = 0;
    while i < v.len()
        invariant
            0 <= i <= v@.len(),
            s@ == old(s)@ + v@.take(i as int),
        decreases v@.len() - i,
    {
        push_char(s, v[i]);
        assert(s@ =~= old(s)@ + v@.take(i + 1));
        i += 1;
    }
    assert(v@.take(v@.len() as int) =~= v@);
}

/// Appends the characters of `t` to `s`.
pub fn push_str(s: &mut String, t: &str)
    ensures
        final(s)@ == old(s)@ + t@,
{
    let v = chars_of(t);
    push_chars(s, v.as_slice());
}

/// Byte length of the UTF-8 encoding of `v[..n]`, or `None` when it does not
/// fit in a `usize`.
pub fn prefix_byte_len(v: &[char], n: usize) -> (r: usize)
    requires
        n <= v@.len(),
        byte_len(v@) <= usize::MAX,
    ensures
        r == byte_len(v@.take(n as int)),
{
    let mut b: usize = 0;
    let mut i: usize = 0;
    proof {
        assert(v@.take(0) =~= Seq::<char>::empty());
        assert(encode_utf8(Seq::<char>::empty()) =~= Seq::<u8>::empty());
    }
    while i < n
        invariant
            0 <= i <= n <= v@.len(),
            byte_len(v@) <= usize::MAX,
            b == byte_len(v@.take(i as int)),
        decreases n - i,
    {
        proof {
            lemma_byte_len_take_step(v@, i as int);
            lemma_byte_len_take_mono(v@, i + 1, v@.len() as int);
            lemma_take_all(v@);
        }
        b = b + char_width_exec(v[i]);
        i += 1;
    }
    b
}

/// The character index at which byte offset `b` falls, when `b` is a
/// boundary of `v`.
pub fn find_char_index(v: &[char], b: usize) -> (r: Option<usize>)
    ensures
        r is Some <==> is_boundary(v@, b as int),
        r matches Some(i) ==> i <= v@.len() && byte_len(v@.take(i as int)) == b && i
            == char_index(v@, b as int),
{
    let mut acc: usize = 0;
    let mut i: usize = 0;
    proof {
        assert(v@.take(0) =~= Seq::<char>::empty());
        assert(encode_utf8(Seq::<char>::empty()) =~= Seq::<u8>::empty());
    }
    while i <= v.len()
        invariant
            0 <= i <= v@.len() + 1,
            i <= v@.len() ==> acc == byte_len(v@.take(i as int)),
            acc <= b,
            forall|k: int| 0 <= k < i ==> byte_len(v@.take(k)) < b,
        decreases v@.len() + 1 - i,
    {
        if acc == b {
            proof {
                lemma_char_index(v@, i as int);
            }
            return Some(i);
        }
        if i == v.len() {
            proof {
                assert forall|k: int| 0 <= k <= v@.len() implies byte_len(v@.take(k)) != b by {}
            }
            return None;
        }
        let w = char_width_exec(v[i]);
        proof {
            lemma_byte_len_take_step(v@, i as int);
        }
        if w > b - acc {
            proof {
                assert forall|k: int| 0 <= k <= v@.len() implies byte_len(v@.take(k)) != b by {
                    if k > i {
                        lemma_byte_len_take_mono(v@, i + 1, k);
                    }
                }
            }
            return None;
        }
        acc = acc + w;
        i += 1;
    }
    None
}

} // verus!

verus! {

/// Whether two strings hold the same characters.
pub fn str_eq(a: &str, b: &str) -> (r: bool)
    ensures
        r == (a@ == b@),
{
    let x = chars_of(a);
    let y = chars_of(b);
    chars_eq(x.as_slice(), y.as_slice())
}

/// Whether two character slices are equal.
pub fn chars_eq(x: &[char], y: &[char]) -> (r: bool)
    ensures
        r == (x@ == y@),
{
    if x.len() != y.len() {
        return false;
    }
    let mut i: usize = 0;
    while i < x.len()
        invariant
            0 <= i <= x@.len(),
            x@.len() == y@.len(),
            forall|k: int| 0 <= k < i ==> x@[k] == y@[k],
        decreases x@.len() - i,
    {
        if x[i] != y[i] {
            return false;
        }
        i += 1;
    }
    assert(x@ =~= y@);
    true
}

/// A new string with the characters of `t`.
pub fn string_of(t: &str) -> (s: String)
    ensures
        s@ == t@,
{
    let mut s = String::new();
    push_str(&mut s, t);
    assert(s@ =~= t@);
    s
}

/// The index of the first occurrence of `c` in `v`.
pub open spec fn first_char_index(v: Seq<char>, c: char) -> Option<int> {
    if exists|i: int| 0 <= i < v.len() && v[i] == c && forall|k: int| 0 <= k < i ==> v[k] != c {
        Some(choose|i: int| 0 <= i < v.len() && v[i] == c && forall|k: int| 0 <= k < i ==> v[k] != c)
    } else {
        None
    }
}

/// Finds the first occurrence of `c` in `v`.
pub fn find_char(v: &[char], c: char) -> (r: Option<usize>)
    ensures
        r matches Some(i) ==> first_char_index(v@, c) == Some(i as int) && i < v@.len() && v@[i as int]
            == c,
        r is None ==> first_char_index(v@, c) is None,
{
    let mut i: usize = 0;
    while i < v.len()
        invariant
            0 <= i <= v@.len(),
            forall|k: int| 0 <= k < i ==> v@[k] != c,
        decreases v@.len() - i,
    {
        if v[i] == c {
            proof {
                let j = choose|j: int|
                    0 <= j < v@.len() && v@[j] == c && forall|k: int| 0 <= k < j ==> v@[k] != c;
                if j < i {
                } else if i < j {
                    assert(v@[i as int] == c);
                }
            }
            return Some(i);
        }
        i += 1;
    }
    None
}

} // verus!

verus! {

/// `p` occurs in `s` at index `i`.
pub open spec fn occurs_at(s: Seq<char>, p: Seq<char>, i: int) -> bool {
    0 <= i && i + p.len() <= s.len() && s.subrange(i, i + p.len()) == p
}

/// The index of the first occurrence of `p` in `s`.
pub open spec fn first_occurrence(s: Seq<char>, p: Seq<char>) -> Option<int> {
    if exists|i: int| occurs_at(s, p, i) && forall|k: int| 0 <= k < i ==> !occurs_at(s, p, k) {
        Some(choose|i: int| occurs_at(s, p, i) && forall|k: int| 0 <= k < i ==> !occurs_at(s, p, k))
    } else {
        None
    }
}

/// Whether `p` occurs in `s` at index `i`.
pub fn chars_occur_at(s: &[char], p: &[char], i: usize) -> (r: bool)
    ensures
        r == occurs_at(s@, p@, i as int),
{
    let n = s.len();
    if i > n || p.len() > n - i {
        return false;
    }
    let mut k: usize = 0;
    while k < p.len()
        invariant
            0 <= k <= p@.len(),
            i + p@.len() <= s@.len(),
            s@.len() <= usize::MAX,
            forall|m: int| 0 <= m < k ==> s@[i + m] == p@[m],
        decreases p@.len() - k,
    {
        if s[i + k] != p[k] {
            assert(s@.subrange(i as int, i + p@.len())[k as int] != p@[k as int]);
            return false;
        }
        k += 1;
    }
    assert(s@.subrange(i as int, i + p@.len()) =~= p@);
    true
}

/// Finds the first occurrence of `p` in `s`.
pub fn find_chars(s: &[char], p: &[char]) -> (r: Option<usize>)
    ensures
        r matches Some(i) ==> first_occurrence(s@, p@) == Some(i as int) && i + p@.len()
            <= s@.len(),
        r is None ==> first_occurrence(s@, p@) is None,
{
    let mut i: usize = 0;
    while i <= s.len()
        invariant
            0 <= i <= s@.len() + 1,
            forall|k: int| 0 <= k < i ==> !occurs_at(s@, p@, k),
        decreases s@.len() + 1 - i,
    {
        if chars_occur_at(s, p, i) {
            proof {
                let j = choose|j: int|
                    occurs_at(s@, p@, j) && forall|k: int| 0 <= k < j ==> !occurs_at(s@, p@, k);
                if j < i {
                } else if i < j {
                    assert(occurs_at(s@, p@, i as int));
                }
            }
            return Some(i);
        }
        if i == s.len() {
            proof {
                assert forall|k: int| !occurs_at(s@, p@, k) by {
                    if k > i {
                        assert(k + p@.len() > s@.len());
                    }
                }
            }
            return None;
        }
        i += 1;
    }
    None
}

} // verus!

verus! {

/// `s` begins with `p`.
pub open spec fn has_prefix(s: Seq<char>, p: Seq<char>) -> bool {
    p.len() <= s.len() && s.take(p.len() as int) == p
}

/// `s` ends with `p`.
pub open spec fn has_suffix(s: Seq<char>, p: Seq<char>) -> bool {
    p.len() <= s.len() && s.skip(s.len() - p.len()) == p
}

/// Whether `s` begins with `p`.
pub fn starts_with(s: &[char], p: &[char]) -> (r: bool)
    ensures
        r == has_prefix(s@, p@),
{
    let r = chars_occur_at(s, p, 0);
    proof {
        if p@.len() <= s@.len() {
            assert(s@.subrange(0, p@.len() as int) =~= s@.take(p@.len() as int));
        }
    }
    r
}

/// Whether `s` ends with `p`.
pub fn ends_with(s: &[char], p: &[char]) -> (r: bool)
    ensures
        r == has_suffix(s@, p@),
{
    if p.len() > s.len() {
        return false;
    }
    let r = chars_occur_at(s, p, s.len() - p.len());
    proof {
        assert(s@.subrange(s@.len() - p@.len(), s@.len() as int) =~= s@.skip(
            s@.len() - p@.len(),
        ));
    }
    r
}

} // verus!

verus! {

/// Number of bytes in the UTF-8 encoding of `s`.
pub fn str_byte_len(s: &str) -> (n: usize)
    ensures
        n == byte_len(s@),
{
    let b = s.as_bytes();
    b.len()
}

/// The characters with the Unicode `White_Space` property, which is what
/// `char::is_whitespace` tests for.
pub open spec fn is_white_space(c: char) -> bool {
    ||| '\t' <= c <= '\r'
    ||| c == ' '
    ||| c == '\u{85}'
    ||| c == '\u{a0}'
    ||| c == '\u{1680}'
    ||| '\u{2000}' <= c <= '\u{200a}'
    ||| c == '\u{2028}'
    ||| c == '\u{2029}'
    ||| c == '\u{202f}'
    ||| c == '\u{205f}'
    ||| c == '\u{3000}'
}

/// Whether `c` is white space in the sense of Unicode.
pub fn is_whitespace(c: char) -> (r: bool)
    ensures
        r == is_white_space(c),
{
    ('\t' <= c && c <= '\r') || c == ' ' || c == '\u{85}' || c == '\u{a0}' || c == '\u{1680}'
        || ('\u{2000}' <= c && c <= '\u{200a}') || c == '\u{2028}' || c == '\u{2029}' || c
        == '\u{202f}' || c == '\u{205f}' || c == '\u{3000}'
}

} // verus!

verus! {

/// The index of the last occurrence of `p` in `s`.
pub open spec fn last_occurrence(s: Seq<char>, p: Seq<char>) -> Option<int> {
    if exists|i: int| occurs_at(s, p, i) && forall|k: int| i < k ==> !occurs_at(s, p, k) {
        Some(choose|i: int| occurs_at(s, p, i) && forall|k: int| i < k ==> !occurs_at(s, p, k))
    } else {
        None
    }
}

/// Finds the last occurrence of `p` in `s`.
pub fn rfind_chars(s: &[char], p: &[char]) -> (r: Option<usize>)
    ensures
        r matches Some(i) ==> last_occurrence(s@, p@) == Some(i as int) && i + p@.len()
            <= s@.len(),
        r is None ==> last_occurrence(s@, p@) is None,
{
    if p.len() > s.len() {
        proof {
            assert forall|k: int| !occurs_at(s@, p@, k) by {}
        }
        return None;
    }
    let mut i: usize = s.len() - p.len();
    loop
        invariant
            0 <= i <= s@.len() - p@.len(),
            p@.len() <= s@.len(),
            forall|k: int| i < k ==> !occurs_at(s@, p@, k),
        decreases i,
    {
        if chars_occur_at(s, p, i) {
            proof {
                let j = choose|j: int|
                    occurs_at(s@, p@, j) && forall|k: int| j < k ==> !occurs_at(s@, p@, k);
                if j < i {
                    assert(occurs_at(s@, p@, i as int));
                }
            }
            return Some(i);
        }
        if i == 0 {
            proof {
                assert forall|k: int| !occurs_at(s@, p@, k) by {}
            }
            return None;
        }
        i -= 1;
    }
}

/// The characters of `s` before the first `c`, or all of them.
pub open spec fn before_char(s: Seq<char>, c: char) -> Seq<char> {
    match first_char_index(s, c) {
        Some(i) => s.take(i),
        None => s,
    }
}

} // verus!

verus! {

/// `p` occurs somewhere in `s`.
pub open spec fn occurs_in(s: Seq<char>, p: Seq<char>) -> bool {
    exists|i: int| occurs_at(s, p, i)
}

/// A text in which `p` does not occur has no first occurrence of it.
pub proof fn lemma_no_occurrence(s: Seq<char>, p: Seq<char>)
    requires
        !occurs_in(s, p),
    ensures
        first_occurrence(s, p) is None,
{
}

/// In `s`, `p` first occurs at `i` when it occurs there and at no earlier
/// index.
pub proof fn lemma_first_occurrence_at(s: Seq<char>, p: Seq<char>, i: int)
    requires
        occurs_at(s, p, i),
        forall|k: int| 0 <= k < i ==> !occurs_at(s, p, k),
    ensures
        first_occurrence(s, p) == Some(i),
{
    let j = choose|j: int| occurs_at(s, p, j) && forall|k: int| 0 <= k < j ==> !occurs_at(s, p, k);
    if j < i {
        assert(!occurs_at(s, p, j));
    } else if i < j {
        assert(!occurs_at(s, p, i));
    }
}

/// In `x + m + y`, where `x` does not hold `m` and the first character of
/// `m` does not occur again in `m`, the first occurrence of `m` is right
/// after `x`.
pub proof fn lemma_first_occurrence_after(x: Seq<char>, m: Seq<char>, y: Seq<char>)
    requires
        m.len() > 0,
        forall|j: int| 0 < j < m.len() ==> #[trigger] m[j] != m[0],
        !occurs_in(x, m),
    ensures
        first_occurrence(x + m + y, m) == Some(x.len() as int),
{
    let t = x + m + y;
    assert(t.subrange(x.len() as int, (x.len() + m.len()) as int) =~= m);
    assert forall|k: int| 0 <= k < x.len() implies !occurs_at(t, m, k) by {
        if occurs_at(t, m, k) {
            if k + m.len() <= x.len() {
                assert(x.subrange(k, k + m.len()) =~= t.subrange(k, k + m.len()));
                assert(occurs_at(x, m, k));
            } else {
                let j = x.len() - k;
                assert(t.subrange(k, k + m.len())[j] == t[x.len() as int]);
                assert(t[x.len() as int] == m[0]);
            }
        }
    }
    lemma_first_occurrence_at(t, m, x.len() as int);
}

} // verus!
