//! Inserting the generated text into an existing README file

use vstd::prelude::*;

use crate::note::{info_comment, info_comment_text};
use crate::text::{
    chars_of, find_chars, first_occurrence, lemma_first_occurrence_after, lemma_first_occurrence_at,
    lemma_no_occurrence,
    occurs_at, occurs_in, push_str, string_from_chars, string_of,
};

verus! {

/// The marker that the user places where the generated text goes.
pub open spec fn marker_insert() -> Seq<char> {
    "<!-- cargo-reedme -->"@
}

/// The marker that starts a region generated earlier.
pub open spec fn marker_insert_start() -> Seq<char> {
    "<!-- cargo-reedme: start -->"@
}

/// The marker that ends a region generated earlier.
pub open spec fn marker_insert_end() -> Seq<char> {
    "<!-- cargo-reedme: end -->"@
}

/// The README contents that the tool writes.
pub enum ReadmeContents {
    /// The README file did not exist before, so we created it
    ///
    /// Contains full README contents from documentation comments
    NewlyCreated(String),
    /// README file already existed, and we inserted our generated README in the middle of it
    InsertedIntoExisting(ReadmeParts),
}

/// An existing README split around the place where the generated text goes.
pub struct ReadmeParts {
    before: String,
    inserted: String,
    after: String,
}

/// The README text around the insertion point: the text before the first
/// marker and after it, or before and after the first region generated
/// earlier, if the README has either.
pub open spec fn readme_split(readme: Seq<char>) -> Option<(Seq<char>, Seq<char>)> {
    match first_occurrence(readme, marker_insert()) {
        Some(i) => Some((readme.take(i), readme.skip(i + marker_insert().len()))),
        None => match first_occurrence(readme, marker_insert_start()) {
            Some(i) => {
                let remaining = readme.skip(i + marker_insert_start().len());
                match first_occurrence(remaining, marker_insert_end()) {
                    Some(j) => Some(
                        (readme.take(i), remaining.skip(j + marker_insert_end().len())),
                    ),
                    None => None,
                }
            },
            None => None,
        },
    }
}

/// The text of a README with `inserted` placed between `before` and `after`.
pub open spec fn readme_text(before: Seq<char>, inserted: Seq<char>, after: Seq<char>) -> Seq<char> {
    before + marker_insert_start() + "\n\n"@ + inserted + "\n\n"@ + marker_insert_end() + after
}

/// The text of a newly created README.
pub open spec fn new_readme_text(contents: Seq<char>) -> Seq<char> {
    marker_insert_start() + "\n\n"@ + contents + "\n\n"@ + marker_insert_end() + "\n"@
}

/// The README has no place marked for the generated text.
#[derive(Debug)]
pub struct MarkerMissing;

impl MarkerMissing {
    /// What went wrong, for the user.
    pub fn message(&self) -> (r: String)
        ensures
            r@ == "please add `<!-- cargo-reedme -->` somewhere in your README, that's where the generated portion from rustdoc comments will be inserted!"@,
    {
        string_of(
            "please add `<!-- cargo-reedme -->` somewhere in your README, that's where the generated portion from rustdoc comments will be inserted!",
        )
    }
}

impl ReadmeParts {
    /// The text before the insertion point.
    pub closed spec fn before_view(&self) -> Seq<char> {
        self.before@
    }

    /// The generated text.
    pub closed spec fn inserted_view(&self) -> Seq<char> {
        self.inserted@
    }

    /// The text after the insertion point.
    pub closed spec fn after_view(&self) -> Seq<char> {
        self.after@
    }

    /// Splits `original_readme` at its marker and places `to_insert` there.
    pub fn new(original_readme: &str, to_insert: &str) -> (r: Result<Self, MarkerMissing>)
        ensures
            r is Err <==> readme_split(original_readme@) is None,
            r matches Ok(parts) ==> {
                &&& readme_split(original_readme@) == Some(
                    (parts.before_view(), parts.after_view()),
                )
                &&& parts.inserted_view() == to_insert@
            },
    {
        let s = chars_of(original_readme);
        let m = chars_of("<!-- cargo-reedme -->");
        let ms = chars_of("<!-- cargo-reedme: start -->");
        let me = chars_of("<!-- cargo-reedme: end -->");
        let n = s.len();
        if let Some(i) = find_chars(s.as_slice(), m.as_slice()) {
            let before = string_from_chars(s.as_slice(), 0, i);
            let after = string_from_chars(s.as_slice(), i + m.len(), n);
            assert(s@.subrange(0, i as int) =~= s@.take(i as int));
            assert(s@.subrange(i + m@.len(), n as int) =~= s@.skip(i + m@.len()));
            return Ok(ReadmeParts { before, inserted: string_of(to_insert), after });
        }
        if let Some(i) = find_chars(s.as_slice(), ms.as_slice()) {
            let rem_start = i + ms.len();
            let remaining = string_from_chars(s.as_slice(), rem_start, n);
            let rem = chars_of(remaining.as_str());
            assert(rem@ =~= s@.skip(rem_start as int));
            if let Some(j) = find_chars(rem.as_slice(), me.as_slice()) {
                let before = string_from_chars(s.as_slice(), 0, i);
                let after = string_from_chars(rem.as_slice(), j + me.len(), rem.len());
                assert(s@.subrange(0, i as int) =~= s@.take(i as int));
                assert(rem@.subrange(j + me@.len(), rem@.len() as int) =~= rem@.skip(
                    j + me@.len(),
                ));
                return Ok(ReadmeParts { before, inserted: string_of(to_insert), after });
            }
        }
        Err(MarkerMissing)
    }

    /// The text before the insertion point.
    pub fn before(&self) -> (r: &str)
        ensures
            r@ == self.before_view(),
    {
        self.before.as_str()
    }

    /// The generated text.
    pub fn inserted(&self) -> (r: &str)
        ensures
            r@ == self.inserted_view(),
    {
        self.inserted.as_str()
    }

    /// The full README text, with the generated text between the markers
    pub fn to_string(&self) -> (r: String)
        ensures
            r@ == readme_text(self.before_view(), self.inserted_view(), self.after_view()),
    {
        let mut r = string_of(self.before.as_str());
        push_str(&mut r, "<!-- cargo-reedme: start -->");
        push_str(&mut r, "\n\n");
        push_str(&mut r, self.inserted.as_str());
        push_str(&mut r, "\n\n");
        push_str(&mut r, "<!-- cargo-reedme: end -->");
        push_str(&mut r, self.after.as_str());
        r
    }
}

impl ReadmeContents {
    /// The full README text
    pub fn to_string(&self) -> (r: String)
        ensures
            r@ == match self {
                ReadmeContents::NewlyCreated(s) => new_readme_text(s@),
                ReadmeContents::InsertedIntoExisting(parts) => readme_text(
                    parts.before_view(),
                    parts.inserted_view(),
                    parts.after_view(),
                ),
            },
    {
        match self {
            ReadmeContents::NewlyCreated(s) => {
                let mut r = string_of("<!-- cargo-reedme: start -->");
                push_str(&mut r, "\n\n");
                push_str(&mut r, s.as_str());
                push_str(&mut r, "\n\n");
                push_str(&mut r, "<!-- cargo-reedme: end -->");
                push_str(&mut r, "\n");
                r
            },
            ReadmeContents::InsertedIntoExisting(parts) => parts.to_string(),
        }
    }
}

/// The text of the generated region: the informational note's comment, for
/// the note text `note` and the command-line arguments `args`, then the
/// generated text.
pub open spec fn region_text(note: Seq<char>, args: Seq<char>, inserted: Seq<char>) -> Seq<char> {
    info_comment(note, args) + "\n\n"@ + inserted
}

impl ReadmeContents {
    /// The full README text as it is written: the generated region begins
    /// with the informational note, whose `{args}` become `args`.
    pub fn to_readme(&self, note: &str, args: &str) -> (r: String)
        ensures
            r@ == match self {
                ReadmeContents::NewlyCreated(s) => new_readme_text(region_text(note@, args@, s@)),
                ReadmeContents::InsertedIntoExisting(parts) => readme_text(
                    parts.before_view(),
                    region_text(note@, args@, parts.inserted_view()),
                    parts.after_view(),
                ),
            },
    {
        let mut region = info_comment_text(note, args);
        push_str(&mut region, "\n\n");
        match self {
            ReadmeContents::NewlyCreated(s) => {
                push_str(&mut region, s.as_str());
                ReadmeContents::NewlyCreated(region).to_string()
            },
            ReadmeContents::InsertedIntoExisting(parts) => {
                push_str(&mut region, parts.inserted.as_str());
                let with_note = ReadmeParts {
                    before: string_of(parts.before.as_str()),
                    inserted: region,
                    after: string_of(parts.after.as_str()),
                };
                with_note.to_string()
            },
        }
    }
}

/// A marker starts with `<` and holds no other `<` and no line break.
proof fn lemma_marker_chars(m: Seq<char>)
    requires
        m == marker_insert_start() || m == marker_insert_end(),
    ensures
        m.len() > 1,
        m[0] == '<',
        forall|j: int| 0 < j < m.len() ==> m[j] != '<' && m[j] != '\n',
{
    reveal_strlit("<!-- cargo-reedme: start -->");
    reveal_strlit("<!-- cargo-reedme: end -->");
}

/// Generating the README again over a README that was generated keeps the
/// text around the generated region and replaces the region: the README text
/// splits into the text before and after the region again.
///
/// This holds as long as the README does not hold the marker
/// `<!-- cargo-reedme -->`, the text before the region holds no start marker
/// and the generated text holds no end marker.
pub proof fn lemma_regeneration_replaces_region(
    before: Seq<char>,
    inserted: Seq<char>,
    after: Seq<char>,
)
    requires
        !occurs_in(readme_text(before, inserted, after), marker_insert()),
        !occurs_in(before, marker_insert_start()),
        !occurs_in(inserted, marker_insert_end()),
    ensures
        readme_split(readme_text(before, inserted, after)) == Some((before, after)),
{
    let s = marker_insert_start();
    let e = marker_insert_end();
    let nl = "\n\n"@;
    reveal_strlit("\n\n");
    let t = readme_text(before, inserted, after);
    lemma_no_occurrence(t, marker_insert());
    let middle = nl + inserted + nl;
    let rest = middle + e + after;
    assert(t =~= before + s + rest);
    lemma_marker_chars(s);
    lemma_first_occurrence_after(before, s, rest);
    assert(t.skip((before.len() + s.len()) as int) =~= rest);
    lemma_marker_chars(e);
    assert(!occurs_in(middle, e)) by {
        if occurs_in(middle, e) {
            let k = choose|k: int| occurs_at(middle, e, k);
            assert(middle.subrange(k, k + e.len())[0] == e[0]);
            if k < 2 {
                assert(middle[k] == '\n');
            } else if k < 2 + inserted.len() {
                if k + e.len() <= 2 + inserted.len() {
                    assert(inserted.subrange(k - 2, k - 2 + e.len()) =~= middle.subrange(k, k + e.len()));
                    assert(occurs_at(inserted, e, k - 2));
                } else {
                    let j = 2 + inserted.len() - k;
                    assert(middle.subrange(k, k + e.len())[j] == middle[(2 + inserted.len()) as int]);
                }
            } else {
                assert(middle[k] == '\n');
            }
        }
    }
    lemma_first_occurrence_after(middle, e, after);
    assert(rest.skip((middle.len() + e.len()) as int) =~= after);
    assert(t.take(before.len() as int) =~= before);
}

/// `p` occurs in `s` exactly once.
pub open spec fn occurs_once(s: Seq<char>, p: Seq<char>) -> bool {
    &&& occurs_in(s, p)
    &&& forall|i: int, j: int| occurs_at(s, p, i) && occurs_at(s, p, j) ==> i == j
}

/// The insert marker starts with `<` and holds no other `<` and no line
/// break; the start and end markers differ from it at index 17.
proof fn lemma_marker_insert_chars()
    ensures
        marker_insert().len() == 21,
        marker_insert()[0] == '<',
        marker_insert()[17] == ' ',
        forall|j: int| 0 < j < marker_insert().len() ==> marker_insert()[j] != '<' && marker_insert()[j] != '\n',
        marker_insert_start().len() == 28,
        marker_insert_start()[17] == ':',
        marker_insert_end().len() == 26,
        marker_insert_end()[17] == ':',
{
    reveal_strlit("<!-- cargo-reedme -->");
    reveal_strlit("<!-- cargo-reedme: start -->");
    reveal_strlit("<!-- cargo-reedme: end -->");
}

/// The insert marker does not occur in the start or the end marker.
proof fn lemma_insert_not_in_markers(m: Seq<char>)
    requires
        m == marker_insert_start() || m == marker_insert_end(),
    ensures
        !occurs_in(m, marker_insert()),
{
    lemma_marker_insert_chars();
    lemma_marker_chars(m);
    let p = marker_insert();
    assert forall|k: int| !occurs_at(m, p, k) by {
        if occurs_at(m, p, k) {
            assert(m.subrange(k, k + p.len())[0] == m[k]);
            assert(m.subrange(k, k + p.len())[17] == m[k + 17]);
        }
    }
}

/// Joining `v` to `u` makes no occurrence of `p` where `v` starts with a
/// character that `p` holds only at its start, if at all.
proof fn lemma_join_at_fresh_char(u: Seq<char>, v: Seq<char>, p: Seq<char>)
    requires
        !occurs_in(u, p),
        !occurs_in(v, p),
        v.len() > 0,
        forall|j: int| 0 < j < p.len() ==> p[j] != v[0],
    ensures
        !occurs_in(u + v, p),
{
    let t = u + v;
    assert forall|k: int| !occurs_at(t, p, k) by {
        if occurs_at(t, p, k) {
            if k + p.len() <= u.len() {
                assert(u.subrange(k, k + p.len()) =~= t.subrange(k, k + p.len()));
                assert(occurs_at(u, p, k));
            } else if k >= u.len() {
                assert(v.subrange(k - u.len(), k - u.len() + p.len()) =~= t.subrange(k, k + p.len()));
                assert(occurs_at(v, p, k - u.len()));
            } else {
                assert(t.subrange(k, k + p.len())[u.len() - k] == t[u.len() as int]);
            }
        }
    }
}

/// Joining `v` to `w + z` makes no occurrence of `p` where `z` is at least
/// one shorter than `p` and does not hold its first character.
proof fn lemma_join_after_plain_tail(w: Seq<char>, z: Seq<char>, v: Seq<char>, p: Seq<char>)
    requires
        !occurs_in(w + z, p),
        !occurs_in(v, p),
        p.len() > 0,
        z.len() + 1 >= p.len(),
        forall|j: int| 0 <= j < z.len() ==> z[j] != p[0],
    ensures
        !occurs_in(w + z + v, p),
{
    let u = w + z;
    let t = u + v;
    assert forall|k: int| !occurs_at(t, p, k) by {
        if occurs_at(t, p, k) {
            if k + p.len() <= u.len() {
                assert(u.subrange(k, k + p.len()) =~= t.subrange(k, k + p.len()));
                assert(occurs_at(u, p, k));
            } else if k >= u.len() {
                assert(v.subrange(k - u.len(), k - u.len() + p.len()) =~= t.subrange(k, k + p.len()));
                assert(occurs_at(v, p, k - u.len()));
            } else {
                assert(t.subrange(k, k + p.len())[0] == t[k]);
                assert(t[k] == z[k - w.len()]);
            }
        }
    }
}

/// An occurrence in a part of a text is an occurrence in the text.
proof fn lemma_occurs_in_part(s: Seq<char>, p: Seq<char>, lo: int, hi: int, k: int)
    requires
        0 <= lo <= hi <= s.len(),
        occurs_at(s.subrange(lo, hi), p, k),
    ensures
        occurs_at(s, p, lo + k),
{
    assert(s.subrange(lo + k, lo + k + p.len()) =~= s.subrange(lo, hi).subrange(k, k + p.len()));
}

/// Inserting `x` around the insert marker of a README keeps the marker out
/// of the result when it occurred once and `x` holds none.
proof fn lemma_no_insert_marker_after_insertion(b: Seq<char>, x: Seq<char>, a: Seq<char>)
    requires
        !occurs_in(b, marker_insert()),
        !occurs_in(x, marker_insert()),
        !occurs_in(a, marker_insert()),
    ensures
        !occurs_in(readme_text(b, x, a), marker_insert()),
{
    let m = marker_insert();
    let s = marker_insert_start();
    let e = marker_insert_end();
    let nl = "\n\n"@;
    reveal_strlit("\n\n");
    lemma_marker_insert_chars();
    lemma_marker_chars(s);
    lemma_marker_chars(e);
    lemma_insert_not_in_markers(s);
    lemma_insert_not_in_markers(e);
    assert(!occurs_in(nl, m));
    lemma_join_at_fresh_char(b, s, m);
    lemma_join_at_fresh_char(b + s, nl, m);
    let w1 = b + s.take(1);
    let z1 = s.skip(1) + nl;
    assert(w1 + z1 =~= b + s + nl);
    lemma_join_after_plain_tail(w1, z1, x, m);
    assert(w1 + z1 + x =~= b + s + nl + x);
    lemma_join_at_fresh_char(b + s + nl + x, nl, m);
    lemma_join_at_fresh_char(b + s + nl + x + nl, e, m);
    let w2 = b + s + nl + x + nl + e.take(1);
    let z2 = e.skip(1);
    assert(w2 + z2 =~= b + s + nl + x + nl + e);
    lemma_join_after_plain_tail(w2, z2, a, m);
    assert(w2 + z2 + a =~= readme_text(b, x, a));
}

/// A later run replaces only the generated region: where a README holds the
/// marker `<!-- cargo-reedme -->` once and neither the start nor the end
/// marker, and the generated text `x` holds no marker, the README written
/// with `x` splits exactly where the first README did, so that generating
/// `y` into either gives the same README.
pub proof fn lemma_later_run_replaces_only_region(orig: Seq<char>, x: Seq<char>, y: Seq<char>)
    requires
        occurs_once(orig, marker_insert()),
        !occurs_in(orig, marker_insert_start()),
        !occurs_in(orig, marker_insert_end()),
        !occurs_in(x, marker_insert()),
        !occurs_in(x, marker_insert_start()),
        !occurs_in(x, marker_insert_end()),
    ensures
        readme_split(orig) is Some,
        ({
            let (b, a) = readme_split(orig).unwrap();
            &&& readme_split(readme_text(b, x, a)) == readme_split(orig)
            &&& readme_split(readme_text(b, x, a)) matches Some((b2, a2)) && readme_text(b2, y, a2)
                == readme_text(b, y, a)
        }),
{
    let m = marker_insert();
    lemma_marker_insert_chars();
    let i = choose|i: int| occurs_at(orig, m, i);
    assert forall|k: int| 0 <= k < i implies !occurs_at(orig, m, k) by {}
    lemma_first_occurrence_at(orig, m, i);
    let b = orig.take(i);
    let a = orig.skip(i + m.len());
    assert(readme_split(orig) == Some((b, a)));
    assert(!occurs_in(b, m)) by {
        if occurs_in(b, m) {
            let k = choose|k: int| occurs_at(b, m, k);
            assert(b =~= orig.subrange(0, i));
            lemma_occurs_in_part(orig, m, 0, i, k);
            assert(occurs_at(orig, m, k) && occurs_at(orig, m, i));
        }
    }
    assert(!occurs_in(a, m)) by {
        if occurs_in(a, m) {
            let k = choose|k: int| occurs_at(a, m, k);
            assert(a =~= orig.subrange(i + m.len(), orig.len() as int));
            lemma_occurs_in_part(orig, m, i + m.len(), orig.len() as int, k);
            assert(occurs_at(orig, m, i + m.len() + k) && occurs_at(orig, m, i));
        }
    }
    assert(!occurs_in(b, marker_insert_start())) by {
        if occurs_in(b, marker_insert_start()) {
            let k = choose|k: int| occurs_at(b, marker_insert_start(), k);
            assert(b =~= orig.subrange(0, i));
            lemma_occurs_in_part(orig, marker_insert_start(), 0, i, k);
        }
    }
    lemma_no_insert_marker_after_insertion(b, x, a);
    lemma_regeneration_replaces_region(b, x, a);
}

} // verus!
