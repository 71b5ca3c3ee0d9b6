//! The difference between the README that exists and the one that would be
//! written, grouped into sections with context lines.

use vstd::prelude::*;

verus! {

/// When to print the difference in colour.
#[derive(Clone, Copy)]
pub enum Color {
    /// Always use color, whether it is a piped or terminal output
    Always,
    /// Never use color
    Never,
    /// Automatically use color, if supported by terminal
    Auto,
}

impl Color {
    /// Whether we should use a coloured terminal.
    pub fn use_colored_tty(self) -> (r: bool)
        ensures
            r == !(self is Never),
    {
        match self {
            Color::Always | Color::Auto => true,
            Color::Never => false,
        }
    }
}

/// One line of the line-by-line difference of two texts.
pub enum DiffPiece {
    /// A line that only the first text has
    Left(String),
    /// A line that both texts have
    Both(String, String),
    /// A line that only the second text has
    Right(String),
}

/// A line of a section of the difference.
pub enum DiffLine {
    /// A line that both texts have, shown around a change
    Context(String),
    /// A line that only the expected text has
    Expected(String),
    /// A line that only the current text has
    Resulting(String),
}

/// A section of the difference: a run of changed lines with the unchanged
/// lines around them.
pub struct Mismatch {
    /// The line number in the expected version.
    pub line_number: u32,
    /// The line number in the original version.
    pub line_number_orig: u32,
    /// The set of lines (context and old/new) in the mismatch.
    pub lines: Vec<DiffLine>,
}

/// A piece of the difference with its text as characters.
pub enum DiffPieceV {
    Left(Seq<char>),
    Both(Seq<char>, Seq<char>),
    Right(Seq<char>),
}

/// A line of a section with its text as characters.
pub enum DiffLineV {
    Context(Seq<char>),
    Expected(Seq<char>),
    Resulting(Seq<char>),
}

/// A section with its texts as characters.
pub struct MismatchV {
    pub line_number: int,
    pub line_number_orig: int,
    pub lines: Seq<DiffLineV>,
}

/// A piece of the difference with its text as characters.
pub open spec fn piece_view(p: DiffPiece) -> DiffPieceV {
    match p {
        DiffPiece::Left(s) => DiffPieceV::Left(s@),
        DiffPiece::Both(s, t) => DiffPieceV::Both(s@, t@),
        DiffPiece::Right(s) => DiffPieceV::Right(s@),
    }
}

/// A line of a section with its text as characters.
pub open spec fn line_view(l: DiffLine) -> DiffLineV {
    match l {
        DiffLine::Context(s) => DiffLineV::Context(s@),
        DiffLine::Expected(s) => DiffLineV::Expected(s@),
        DiffLine::Resulting(s) => DiffLineV::Resulting(s@),
    }
}

/// A section with its texts as characters.
pub open spec fn mismatch_view(m: Mismatch) -> MismatchV {
    MismatchV {
        line_number: m.line_number as int,
        line_number_orig: m.line_number_orig as int,
        lines: m.lines@.map_values(|l: DiffLine| line_view(l)),
    }
}

/// The pieces of a difference with their texts as characters.
pub open spec fn pieces_view(ps: Seq<DiffPiece>) -> Seq<DiffPieceV> {
    ps.map_values(|p: DiffPiece| piece_view(p))
}

/// The sections with their texts as characters.
pub open spec fn mismatches_view(ms: Seq<Mismatch>) -> Seq<MismatchV> {
    ms.map_values(|m: Mismatch| mismatch_view(m))
}

/// What the grouping has built after a prefix of the difference.
pub struct DiffState {
    /// Finished sections; the first is the empty section the grouping starts with
    pub results: Seq<MismatchV>,
    /// The section being filled
    pub current: MismatchV,
    /// Unchanged lines kept in case a change follows
    pub queue: Seq<Seq<char>>,
    /// Unchanged lines since the last change
    pub since: int,
    /// Line number in the expected text
    pub line: int,
    /// Line number in the current text
    pub line_orig: int,
}

/// The queued lines, shown as context.
pub open spec fn context_lines(q: Seq<Seq<char>>) -> Seq<DiffLineV> {
    q.map_values(|s: Seq<char>| DiffLineV::Context(s))
}

/// The state before any line.
pub open spec fn diff_start(ctx: int) -> DiffState {
    DiffState {
        results: Seq::empty(),
        current: MismatchV { line_number: 0, line_number_orig: 0, lines: Seq::empty() },
        queue: Seq::empty(),
        since: ctx + 1,
        line: 1,
        line_orig: 1,
    }
}

/// The state after a changed line: a new section is started when enough
/// unchanged lines separate this change from the previous one; the kept
/// context lines and the changed line are added to the section.
pub open spec fn diff_change(st: DiffState, line: DiffLineV, ctx: int) -> DiffState {
    let start_new = st.since >= ctx && st.since > 0;
    let results = if start_new {
        st.results.push(st.current)
    } else {
        st.results
    };
    let cur = if start_new {
        MismatchV {
            line_number: st.line - st.queue.len(),
            line_number_orig: st.line_orig - st.queue.len(),
            lines: Seq::empty(),
        }
    } else {
        st.current
    };
    DiffState {
        results,
        current: MismatchV { lines: cur.lines + context_lines(st.queue) + seq![line], ..cur },
        queue: Seq::empty(),
        since: 0,
        ..st
    }
}

/// The state after one line of the difference.
pub open spec fn diff_step(st: DiffState, p: DiffPieceV, ctx: int) -> DiffState {
    match p {
        DiffPieceV::Left(s) => {
            let st2 = diff_change(st, DiffLineV::Resulting(s), ctx);
            DiffState { line_orig: st.line_orig + 1, ..st2 }
        },
        DiffPieceV::Right(s) => {
            let st2 = diff_change(st, DiffLineV::Expected(s), ctx);
            DiffState { line: st.line + 1, ..st2 }
        },
        DiffPieceV::Both(s, _) => {
            let q = if st.queue.len() >= ctx && st.queue.len() > 0 {
                st.queue.drop_first()
            } else {
                st.queue
            };
            let (current, queue) = if st.since < ctx {
                (MismatchV { lines: st.current.lines.push(DiffLineV::Context(s)), ..st.current }, q)
            } else if ctx > 0 {
                (st.current, q.push(s))
            } else {
                (st.current, q)
            };
            DiffState {
                results: st.results,
                current,
                queue,
                since: st.since + 1,
                line: st.line + 1,
                line_orig: st.line_orig + 1,
            }
        },
    }
}

/// The state after all of `ps`.
pub open spec fn diff_run(ps: Seq<DiffPieceV>, ctx: int) -> DiffState
    decreases ps.len(),
{
    if ps.len() == 0 {
        diff_start(ctx)
    } else {
        diff_step(diff_run(ps.drop_last(), ctx), ps.last(), ctx)
    }
}

/// The sections of the difference `ps`, each with up to `ctx` unchanged
/// lines around its changes.
pub open spec fn mismatches(ps: Seq<DiffPieceV>, ctx: int) -> Seq<MismatchV> {
    let st = diff_run(ps, ctx);
    st.results.push(st.current).drop_first()
}

/// The number of lines of `ps` that change the expected or the current text.
pub open spec fn lines_before(ps: Seq<DiffPieceV>, left: bool) -> int
    decreases ps.len(),
{
    if ps.len() == 0 {
        0
    } else {
        lines_before(ps.drop_last(), left) + match ps.last() {
            DiffPieceV::Left(_) => if left { 1int } else { 0 },
            DiffPieceV::Right(_) => if left { 0int } else { 1 },
            DiffPieceV::Both(..) => 1,
        }
    }
}

/// The counters of the grouping stay within what the pieces allow.
proof fn lemma_run_bounds(ps: Seq<DiffPieceV>, ctx: int)
    requires
        ctx >= 0,
    ensures
        diff_run(ps, ctx).line == 1 + lines_before(ps, false),
        diff_run(ps, ctx).line_orig == 1 + lines_before(ps, true),
        diff_run(ps, ctx).queue.len() <= lines_before(ps, false),
        diff_run(ps, ctx).queue.len() <= lines_before(ps, true),
        diff_run(ps, ctx).queue.len() <= ctx,
        0 <= diff_run(ps, ctx).since <= ctx + 1 + ps.len(),
        0 <= lines_before(ps, false) <= ps.len(),
        0 <= lines_before(ps, true) <= ps.len(),
    decreases ps.len(),
{
    if ps.len() > 0 {
        lemma_run_bounds(ps.drop_last(), ctx);
    }
}

impl Mismatch {
    /// An empty section starting at the given lines.
    pub fn new(line_number: u32, line_number_orig: u32) -> (r: Mismatch)
        ensures
            r.line_number == line_number,
            r.line_number_orig == line_number_orig,
            r.lines@.len() == 0,
    {
        Mismatch { line_number, line_number_orig, lines: Vec::new() }
    }
}

/// Groups the line-by-line difference `diff` of the expected and the
/// current text into sections with up to `context_size` unchanged lines
/// around the changes.
pub fn mismatches_of(diff: &Vec<DiffPiece>, context_size: usize) -> (r: Vec<Mismatch>)
    requires
        diff@.len() < u32::MAX,
        context_size + 1 + diff@.len() <= usize::MAX,
    ensures
        mismatches_view(r@) == mismatches(pieces_view(diff@), context_size as int),
{
    let ghost ctx = context_size as int;
    let ghost ps = pieces_view(diff@);
    let mut line_number: u32 = 1;
    let mut line_number_orig: u32 = 1;
    let mut queue: Vec<String> = Vec::new();
    let mut since: usize = context_size + 1;
    let mut results: Vec<Mismatch> = Vec::new();
    let mut mismatch = Mismatch::new(0, 0);
    let mut k: usize = 0;
    proof {
        assert(ps.take(0) =~= Seq::<DiffPieceV>::empty());
        assert(mismatch_view(mismatch).lines =~= Seq::<DiffLineV>::empty());
        assert(mismatches_view(results@) =~= Seq::<MismatchV>::empty());
        assert(queue@.map_values(|s: String| s@) =~= Seq::<Seq<char>>::empty());
    }
    while k < diff.len()
        invariant
            0 <= k <= diff@.len(),
            diff@.len() < u32::MAX,
            context_size + 1 + diff@.len() <= usize::MAX,
            ctx == context_size as int,
            ps == pieces_view(diff@),
            ({
                let st = diff_run(ps.take(k as int), ctx);
                &&& mismatches_view(results@) == st.results
                &&& mismatch_view(mismatch) == st.current
                &&& queue@.map_values(|s: String| s@) == st.queue
                &&& since as int == st.since
                &&& line_number as int == st.line
                &&& line_number_orig as int == st.line_orig
            }),
        decreases diff@.len() - k,
    {
        let ghost pre = ps.take(k as int);
        let ghost st = diff_run(pre, ctx);
        proof {
            assert(ps.take(k + 1).drop_last() =~= pre);
            assert(ps.take(k + 1).last() == ps[k as int]);
            lemma_run_bounds(pre, ctx);
        }
        match &diff[k] {
            DiffPiece::Left(s) => {
                if since >= context_size && since > 0 {
                    let qlen = queue.len() as u32;
                    let mut fresh = Mismatch::new(line_number - qlen, line_number_orig - qlen);
                    std::mem::swap(&mut mismatch, &mut fresh);
                    results.push(fresh);
                    proof {
                        assert(mismatches_view(results@) =~= st.results.push(st.current));
                        assert(mismatch_view(mismatch).lines =~= Seq::<DiffLineV>::empty());
                    }
                }
                let ghost before_lines = mismatch_view(mismatch).lines;
                let ghost ln = mismatch.line_number;
                let ghost lno = mismatch.line_number_orig;
                let mut qi: usize = 0;
                while qi < queue.len()
                    invariant
                        0 <= qi <= queue@.len(),
                        mismatch.line_number == ln,
                        mismatch.line_number_orig == lno,
                        mismatch_view(mismatch).lines == before_lines + context_lines(
                            queue@.map_values(|s: String| s@),
                        ).take(qi as int),
                    decreases queue@.len() - qi,
                {
                    let ghost old_lines = mismatch.lines@;
                    let c = queue[qi].clone();
                    mismatch.lines.push(DiffLine::Context(c));
                    proof {
                        let f = |l: DiffLine| line_view(l);
                        assert(mismatch.lines@ == old_lines.push(DiffLine::Context(c)));
                        assert(mismatch.lines@.map_values(f) =~= old_lines.map_values(f).push(
                            DiffLineV::Context(c@),
                        ));
                        assert(context_lines(queue@.map_values(|s: String| s@))[qi as int]
                            == DiffLineV::Context(c@));
                        assert(mismatch_view(mismatch).lines =~= before_lines + context_lines(
                            queue@.map_values(|s: String| s@),
                        ).take(qi + 1));
                    }
                    qi += 1;
                }
                mismatch.lines.push(DiffLine::Resulting(s.clone()));
                proof {
                    let cl = context_lines(queue@.map_values(|s: String| s@));
                    assert(cl.take(cl.len() as int) =~= cl);
                    assert(mismatch_view(mismatch).lines =~= before_lines + cl + seq![
                        DiffLineV::Resulting(s@),
                    ]);
                }
                queue = Vec::new();
                line_number_orig += 1;
                since = 0;
                proof {
                    assert(queue@.map_values(|s: String| s@) =~= Seq::<Seq<char>>::empty());
                }
            },
            DiffPiece::Right(s) => {
                if since >= context_size && since > 0 {
                    let qlen = queue.len() as u32;
                    let mut fresh = Mismatch::new(line_number - qlen, line_number_orig - qlen);
                    std::mem::swap(&mut mismatch, &mut fresh);
                    results.push(fresh);
                    proof {
                        assert(mismatches_view(results@) =~= st.results.push(st.current));
                        assert(mismatch_view(mismatch).lines =~= Seq::<DiffLineV>::empty());
                    }
                }
                let ghost before_lines = mismatch_view(mismatch).lines;
                let ghost ln = mismatch.line_number;
                let ghost lno = mismatch.line_number_orig;
                let mut qi: usize = 0;
                while qi < queue.len()
                    invariant
                        0 <= qi <= queue@.len(),
                        mismatch.line_number == ln,
                        mismatch.line_number_orig == lno,
                        mismatch_view(mismatch).lines == before_lines + context_lines(
                            queue@.map_values(|s: String| s@),
                        ).take(qi as int),
                    decreases queue@.len() - qi,
                {
                    let ghost old_lines = mismatch.lines@;
                    let c = queue[qi].clone();
                    mismatch.lines.push(DiffLine::Context(c));
                    proof {
                        let f = |l: DiffLine| line_view(l);
                        assert(mismatch.lines@ == old_lines.push(DiffLine::Context(c)));
                        assert(mismatch.lines@.map_values(f) =~= old_lines.map_values(f).push(
                            DiffLineV::Context(c@),
                        ));
                        assert(context_lines(queue@.map_values(|s: String| s@))[qi as int]
                            == DiffLineV::Context(c@));
                        assert(mismatch_view(mismatch).lines =~= before_lines + context_lines(
                            queue@.map_values(|s: String| s@),
                        ).take(qi + 1));
                    }
                    qi += 1;
                }
                mismatch.lines.push(DiffLine::Expected(s.clone()));
                proof {
                    let cl = context_lines(queue@.map_values(|s: String| s@));
                    assert(cl.take(cl.len() as int) =~= cl);
                    assert(mismatch_view(mismatch).lines =~= before_lines + cl + seq![
                        DiffLineV::Expected(s@),
                    ]);
                }
                queue = Vec::new();
                line_number += 1;
                since = 0;
                proof {
                    assert(queue@.map_values(|s: String| s@) =~= Seq::<Seq<char>>::empty());
                }
            },
            DiffPiece::Both(s, _) => {
                if queue.len() >= context_size && queue.len() > 0 {
                    queue.remove(0);
                    proof {
                        assert(queue@.map_values(|s: String| s@) =~= st.queue.drop_first());
                    }
                }
                if since < context_size {
                    mismatch.lines.push(DiffLine::Context(s.clone()));
                    proof {
                        assert(mismatch_view(mismatch).lines =~= st.current.lines.push(
                            DiffLineV::Context(s@),
                        ));
                    }
                } else if context_size > 0 {
                    let ghost q0 = queue@.map_values(|s: String| s@);
                    queue.push(s.clone());
                    proof {
                        assert(queue@.map_values(|s: String| s@) =~= q0.push(s@));
                    }
                }
                line_number += 1;
                line_number_orig += 1;
                since += 1;
            },
        }
        k += 1;
    }
    results.push(mismatch);
    results.remove(0);
    proof {
        assert(ps.take(diff@.len() as int) =~= ps);
        let st = diff_run(ps, ctx);
        assert(mismatches_view(results@) =~= st.results.push(st.current).drop_first());
    }
    results
}


/// Names the line-by-line difference that `diff::lines` computes.
pub uninterp spec fn line_diff(left: Seq<char>, right: Seq<char>) -> Seq<DiffPieceV>;

/// The line-by-line difference of two texts.
///
/// Trusted: calls `diff::lines`, a deterministic function of the two texts
/// whose result is named `line_diff`; each item is converted one for one.
/// Of which lines it matches, only this is claimed: two equal texts give
/// lines that both texts hold and nothing else (their common prefix is the
/// whole text, and the table between prefix and suffix is empty).
#[verifier::external_body]
fn diff_lines(left: &str, right: &str) -> (r: Vec<DiffPiece>)
    ensures
        pieces_view(r@) == line_diff(left@, right@),
        left@ == right@ ==> forall|i: int| 0 <= i < r@.len() ==> (#[trigger] r@[i]) is Both,
{
    diff::lines(left, right).into_iter().map(|piece| match piece {
        diff::Result::Left(l) => DiffPiece::Left(l.to_string()),
        diff::Result::Both(l, r) => DiffPiece::Both(l.to_string(), r.to_string()),
        diff::Result::Right(r) => DiffPiece::Right(r.to_string()),
    }).collect()
}

/// Produces a diff between the expected output and actual output, grouped into
/// sections with up to `context_size` lines of context.
///
/// Returns `None` when the texts have so many lines that the line numbers
/// would not fit in a `u32`.
pub fn make_diff(expected: &str, actual: &str, context_size: usize) -> (r: Option<Vec<Mismatch>>)
    ensures
        ({
            let d = line_diff(expected@, actual@);
            &&& r is None <==> (d.len() >= u32::MAX || context_size + 1 + d.len() > usize::MAX)
            &&& r matches Some(ms) ==> mismatches_view(ms@) == mismatches(d, context_size as int)
        }),
        expected@ == actual@ ==> (r matches Some(ms) ==> ms@.len() == 0),
{
    let d = diff_lines(expected, actual);
    let n = d.len();
    if n >= 0xffff_ffffusize || context_size == usize::MAX || n > usize::MAX - 1 - context_size {
        return None;
    }
    proof {
        assert(d@.len() == pieces_view(d@).len());
        if expected@ == actual@ {
            assert forall|i: int| 0 <= i < pieces_view(d@).len() implies pieces_view(d@)[i] is Both by {
                assert(d@[i] is Both);
            }
            lemma_no_change_no_mismatch(pieces_view(d@), context_size as int);
        }
    }
    let ms = mismatches_of(&d, context_size);
    proof {
        assert(ms@.len() == mismatches_view(ms@).len());
    }
    Some(ms)
}

/// The lines of `ls` that are changes, not context.
pub open spec fn non_context(ls: Seq<DiffLineV>) -> Seq<DiffLineV>
    decreases ls.len(),
{
    if ls.len() == 0 {
        Seq::empty()
    } else {
        non_context(ls.drop_last()) + if ls.last() is Context {
            Seq::empty()
        } else {
            seq![ls.last()]
        }
    }
}

/// The changed lines of all sections, in order.
pub open spec fn section_changes(ms: Seq<MismatchV>) -> Seq<DiffLineV>
    decreases ms.len(),
{
    if ms.len() == 0 {
        Seq::empty()
    } else {
        section_changes(ms.drop_last()) + non_context(ms.last().lines)
    }
}

/// The changes of a difference, each as the line a section shows for it.
pub open spec fn diff_changes(ps: Seq<DiffPieceV>) -> Seq<DiffLineV>
    decreases ps.len(),
{
    if ps.len() == 0 {
        Seq::empty()
    } else {
        diff_changes(ps.drop_last()) + match ps.last() {
            DiffPieceV::Left(s) => seq![DiffLineV::Resulting(s)],
            DiffPieceV::Right(s) => seq![DiffLineV::Expected(s)],
            DiffPieceV::Both(..) => Seq::empty(),
        }
    }
}

/// The changes of joined lines are the changes of each part.
proof fn lemma_non_context_concat(a: Seq<DiffLineV>, b: Seq<DiffLineV>)
    ensures
        non_context(a + b) == non_context(a) + non_context(b),
    decreases b.len(),
{
    if b.len() == 0 {
        assert(a + b =~= a);
        assert(non_context(a) + non_context(b) =~= non_context(a));
    } else {
        assert((a + b).drop_last() =~= a + b.drop_last());
        assert((a + b).last() == b.last());
        lemma_non_context_concat(a, b.drop_last());
        assert(non_context(a + b) =~= non_context(a) + non_context(b));
    }
}

/// Context lines hold no changes.
proof fn lemma_non_context_of_context(q: Seq<Seq<char>>)
    ensures
        non_context(context_lines(q)) == Seq::<DiffLineV>::empty(),
    decreases q.len(),
{
    if q.len() > 0 {
        assert(context_lines(q).drop_last() =~= context_lines(q.drop_last()));
        lemma_non_context_of_context(q.drop_last());
        assert(non_context(context_lines(q)) =~= Seq::<DiffLineV>::empty());
    } else {
        assert(context_lines(q) =~= Seq::<DiffLineV>::empty());
    }
}

/// The changes of a single line.
proof fn lemma_non_context_single(l: DiffLineV)
    ensures
        non_context(seq![l]) == (if l is Context {
            Seq::<DiffLineV>::empty()
        } else {
            seq![l]
        }),
{
    assert(seq![l].drop_last() =~= Seq::<DiffLineV>::empty());
    assert(non_context(Seq::<DiffLineV>::empty()) =~= Seq::<DiffLineV>::empty());
    if l is Context {
        assert(non_context(seq![l]) =~= Seq::<DiffLineV>::empty());
    } else {
        assert(non_context(seq![l]) =~= seq![l]);
    }
}

/// The changes of one more section.
proof fn lemma_section_changes_push(ms: Seq<MismatchV>, m: MismatchV)
    ensures
        section_changes(ms.push(m)) == section_changes(ms) + non_context(m.lines),
{
    assert(ms.push(m).drop_last() =~= ms);
}

/// The changes of the sections without the first.
proof fn lemma_section_changes_drop_first(ms: Seq<MismatchV>)
    requires
        ms.len() > 0,
    ensures
        section_changes(ms) == non_context(ms[0].lines) + section_changes(ms.drop_first()),
    decreases ms.len(),
{
    if ms.len() == 1 {
        assert(ms.drop_last() =~= Seq::<MismatchV>::empty());
        assert(ms.drop_first() =~= Seq::<MismatchV>::empty());
        assert(section_changes(ms) =~= non_context(ms[0].lines) + section_changes(
            ms.drop_first(),
        ));
    } else {
        lemma_section_changes_drop_first(ms.drop_last());
        assert(ms.drop_last().drop_first() =~= ms.drop_first().drop_last());
        assert(ms.drop_first().last() == ms.last());
        assert(section_changes(ms) =~= non_context(ms[0].lines) + section_changes(
            ms.drop_first(),
        ));
    }
}

/// Grouping keeps the changes of the pieces, in order.
proof fn lemma_run_changes(ps: Seq<DiffPieceV>, ctx: int)
    requires
        ctx >= 0,
    ensures
        ({
            let st = diff_run(ps, ctx);
            &&& section_changes(st.results.push(st.current)) == diff_changes(ps)
            &&& st.results.len() == 0 ==> non_context(st.current.lines) == Seq::<DiffLineV>::empty()
                && st.since >= ctx + 1
            &&& st.results.len() > 0 ==> non_context(st.results[0].lines) == Seq::<
                DiffLineV,
            >::empty()
        }),
    decreases ps.len(),
{
    if ps.len() == 0 {
        let st = diff_run(ps, ctx);
        assert(st.current.lines =~= Seq::<DiffLineV>::empty());
        assert(non_context(st.current.lines) =~= Seq::<DiffLineV>::empty());
        lemma_section_changes_push(st.results, st.current);
        assert(section_changes(st.results) =~= Seq::<DiffLineV>::empty());
        assert(diff_changes(ps) =~= Seq::<DiffLineV>::empty());
    } else {
        let pre = ps.drop_last();
        lemma_run_changes(pre, ctx);
        let st = diff_run(pre, ctx);
        let st2 = diff_run(ps, ctx);
        lemma_section_changes_push(st.results, st.current);
        lemma_section_changes_push(st2.results, st2.current);
        match ps.last() {
            DiffPieceV::Both(s, _) => {
                if st.since < ctx {
                    lemma_non_context_concat(st.current.lines, seq![DiffLineV::Context(s)]);
                    lemma_non_context_single(DiffLineV::Context(s));
                    assert(st.current.lines.push(DiffLineV::Context(s)) =~= st.current.lines
                        + seq![DiffLineV::Context(s)]);
                    assert(non_context(st2.current.lines) =~= non_context(st.current.lines));
                }
                assert(diff_changes(ps) =~= diff_changes(pre));
            },
            _ => {
                let line = match ps.last() {
                    DiffPieceV::Left(s) => DiffLineV::Resulting(s),
                    DiffPieceV::Right(s) => DiffLineV::Expected(s),
                    DiffPieceV::Both(s, _) => DiffLineV::Context(s),
                };
                let start_new = st.since >= ctx && st.since > 0;
                let cur = if start_new {
                    MismatchV {
                        line_number: st.line - st.queue.len(),
                        line_number_orig: st.line_orig - st.queue.len(),
                        lines: Seq::empty(),
                    }
                } else {
                    st.current
                };
                assert(st2.current.lines == cur.lines + context_lines(st.queue) + seq![line]);
                lemma_non_context_concat(cur.lines + context_lines(st.queue), seq![line]);
                lemma_non_context_concat(cur.lines, context_lines(st.queue));
                lemma_non_context_of_context(st.queue);
                lemma_non_context_single(line);
                if start_new {
                    assert(non_context(cur.lines) =~= Seq::<DiffLineV>::empty()) by {
                        assert(cur.lines =~= Seq::<DiffLineV>::empty());
                    }
                    lemma_section_changes_push(st.results, st.current);
                    assert(st2.results == st.results.push(st.current));
                    if st.results.len() == 0 {
                        assert(st2.results[0] == st.current);
                    } else {
                        assert(st2.results[0] == st.results[0]);
                    }
                }
                assert(non_context(st2.current.lines) =~= non_context(cur.lines) + seq![line]);
                assert(diff_changes(ps) =~= diff_changes(pre) + seq![line]);
                assert(section_changes(st2.results.push(st2.current)) =~= diff_changes(ps));
            },
        }
    }
}

/// Every changed line of the difference appears, in order, in exactly one
/// section of the grouping; the sections hold no other changed lines.
pub proof fn lemma_mismatches_keep_changes(ps: Seq<DiffPieceV>, ctx: int)
    requires
        ctx >= 0,
    ensures
        section_changes(mismatches(ps, ctx)) == diff_changes(ps),
{
    lemma_run_changes(ps, ctx);
    let st = diff_run(ps, ctx);
    let all = st.results.push(st.current);
    lemma_section_changes_drop_first(all);
    if st.results.len() == 0 {
        assert(all[0] == st.current);
    } else {
        assert(all[0] == st.results[0]);
    }
    assert(section_changes(all) =~= section_changes(all.drop_first()));
}

/// A difference without changed lines gives no section.
pub proof fn lemma_no_change_no_mismatch(ps: Seq<DiffPieceV>, ctx: int)
    requires
        ctx >= 0,
        forall|i: int| 0 <= i < ps.len() ==> ps[i] is Both,
    ensures
        mismatches(ps, ctx) == Seq::<MismatchV>::empty(),
    decreases ps.len(),
{
    lemma_results_empty(ps, ctx);
    let st = diff_run(ps, ctx);
    assert(st.results.push(st.current).drop_first() =~= Seq::<MismatchV>::empty());
}

/// Grouping pieces without changes finishes no section.
proof fn lemma_results_empty(ps: Seq<DiffPieceV>, ctx: int)
    requires
        forall|i: int| 0 <= i < ps.len() ==> ps[i] is Both,
    ensures
        diff_run(ps, ctx).results.len() == 0,
    decreases ps.len(),
{
    if ps.len() > 0 {
        assert(ps.last() is Both);
        lemma_results_empty(ps.drop_last(), ctx);
    }
}

/// Some line of `ls` is a change, not context.
pub open spec fn has_change(ls: Seq<DiffLineV>) -> bool {
    exists|j: int| 0 <= j < ls.len() && !(#[trigger] ls[j] is Context)
}

/// No line of `ls` is context.
pub open spec fn no_context(ls: Seq<DiffLineV>) -> bool {
    forall|j: int| 0 <= j < ls.len() ==> !(#[trigger] ls[j] is Context)
}

/// What the grouping keeps of its sections: until the first change nothing
/// is grouped; after it, every section holds a change; and without context
/// no section holds a context line.
proof fn lemma_run_sections(ps: Seq<DiffPieceV>, ctx: int)
    requires
        ctx >= 0,
    ensures
        ({
            let st = diff_run(ps, ctx);
            &&& st.results.len() == 0 ==> st.current.lines.len() == 0 && st.since >= ctx + 1
            &&& st.results.len() > 0 ==> has_change(st.current.lines)
            &&& forall|i: int| 1 <= i < st.results.len() ==> has_change(#[trigger] st.results[i].lines)
            &&& ctx == 0 ==> {
                &&& st.queue.len() == 0
                &&& no_context(st.current.lines)
                &&& forall|i: int| 0 <= i < st.results.len() ==> no_context(#[trigger] st.results[i].lines)
            }
        }),
    decreases ps.len(),
{
    if ps.len() > 0 {
        let pre = ps.drop_last();
        lemma_run_sections(pre, ctx);
        lemma_run_bounds(pre, ctx);
        let st = diff_run(pre, ctx);
        let st2 = diff_run(ps, ctx);
        assert(st2 == diff_step(st, ps.last(), ctx));
        match ps.last() {
            DiffPieceV::Both(s, _) => {
                if st.results.len() > 0 {
                    let j = choose|j: int| 0 <= j < st.current.lines.len() && !(st.current.lines[j] is Context);
                    assert(st2.current.lines[j] == st.current.lines[j]);
                }
                if ctx == 0 {
                    assert(no_context(st2.current.lines));
                }
            },
            _ => {
                let line = match ps.last() {
                    DiffPieceV::Left(t) => DiffLineV::Resulting(t),
                    DiffPieceV::Right(t) => DiffLineV::Expected(t),
                    DiffPieceV::Both(t, _) => DiffLineV::Context(t),
                };
                let start_new = st.since >= ctx && st.since > 0;
                let ch = diff_change(st, line, ctx);
                assert(st2.results == ch.results && st2.current == ch.current && st2.queue == ch.queue);
                let n = ch.current.lines.len();
                assert(ch.current.lines[n - 1] == line);
                assert(has_change(ch.current.lines));
                if start_new {
                    assert forall|i: int| 1 <= i < ch.results.len() implies has_change(#[trigger] ch.results[i].lines) by {
                        if i < st.results.len() {
                            assert(ch.results[i] == st.results[i]);
                        }
                    }
                    if ctx == 0 {
                        assert(context_lines(st.queue) =~= Seq::<DiffLineV>::empty());
                        assert(ch.current.lines =~= seq![line]);
                        assert forall|i: int| 0 <= i < ch.results.len() implies no_context(#[trigger] ch.results[i].lines) by {
                            if i < st.results.len() {
                                assert(ch.results[i] == st.results[i]);
                            }
                        }
                    }
                } else {
                    let j = choose|j: int| 0 <= j < st.current.lines.len() && !(st.current.lines[j] is Context);
                    if ctx == 0 {
                        assert(context_lines(st.queue) =~= Seq::<DiffLineV>::empty());
                        assert(ch.current.lines =~= st.current.lines.push(line));
                        assert(no_context(ch.current.lines)) by {
                            assert forall|k: int| 0 <= k < ch.current.lines.len() implies !(
                            #[trigger] ch.current.lines[k] is Context) by {
                                if k < st.current.lines.len() {
                                    assert(ch.current.lines[k] == st.current.lines[k]);
                                }
                            }
                        }
                    }
                }
            },
        }
    }
}

/// Every section of the difference holds a change.
pub proof fn lemma_sections_hold_changes(ps: Seq<DiffPieceV>, ctx: int)
    requires
        ctx >= 0,
    ensures
        forall|i: int| 0 <= i < mismatches(ps, ctx).len() ==> has_change(#[trigger] mismatches(ps, ctx)[i].lines),
{
    lemma_run_sections(ps, ctx);
    let st = diff_run(ps, ctx);
    let all = st.results.push(st.current);
    assert forall|i: int| 0 <= i < mismatches(ps, ctx).len() implies has_change(#[trigger] mismatches(ps, ctx)[i].lines) by {
        assert(mismatches(ps, ctx)[i] == all[i + 1]);
        if i + 1 < st.results.len() {
            assert(all[i + 1] == st.results[i + 1]);
        }
    }
}

/// Without context, the sections hold only changed lines.
pub proof fn lemma_no_context_at_zero(ps: Seq<DiffPieceV>)
    ensures
        forall|i: int| 0 <= i < mismatches(ps, 0).len() ==> no_context(#[trigger] mismatches(ps, 0)[i].lines),
{
    lemma_run_sections(ps, 0);
    let st = diff_run(ps, 0);
    let all = st.results.push(st.current);
    assert forall|i: int| 0 <= i < mismatches(ps, 0).len() implies no_context(#[trigger] mismatches(ps, 0)[i].lines) by {
        assert(mismatches(ps, 0)[i] == all[i + 1]);
        if i + 1 < st.results.len() {
            assert(all[i + 1] == st.results[i + 1]);
        }
    }
}

} // verus!
