//! Proved laws of the machine model: how a whole run decomposes, and what
//! the flush trace looks like for the three shapes of input the design
//! singles out (no sentinel, both sentinels in order, post sentinel first).

use vstd::prelude::*;

use crate::machine::{
    flush_trace, fold_lines, joined, line_matches, opt_seq, run_config, run_flushes, start_config,
    step_config, step_flush, BlockKind, Config, FlushSpec, ParserState,
};

verus! {

/// Consuming one more line steps the configuration and appends that step's
/// flush, if any.
pub(crate) proof fn lemma_run_push(
    c: Config,
    pre: Seq<char>,
    post: Seq<char>,
    lines: Seq<Seq<char>>,
    x: Seq<char>,
)
    ensures
        run_config(c, pre, post, lines.push(x)) == step_config(
            run_config(c, pre, post, lines),
            pre,
            post,
            x,
        ),
        run_flushes(c, pre, post, lines.push(x)) == run_flushes(c, pre, post, lines) + opt_seq(
            step_flush(run_config(c, pre, post, lines), pre, post, x),
        ),
{
    assert(lines.push(x).drop_last() =~= lines);
    assert(lines.push(x).last() == x);
}

/// A run over a single line is one step.
pub(crate) proof fn lemma_run_singleton(c: Config, pre: Seq<char>, post: Seq<char>, x: Seq<char>)
    ensures
        run_config(c, pre, post, seq![x]) == step_config(c, pre, post, x),
        run_flushes(c, pre, post, seq![x]) == opt_seq(step_flush(c, pre, post, x)),
{
    let e = Seq::<Seq<char>>::empty();
    assert(seq![x].drop_last() =~= e);
    assert(run_config(c, pre, post, e) == c);
    assert(run_flushes(c, pre, post, e) == Seq::<FlushSpec>::empty());
    assert(Seq::<FlushSpec>::empty() + opt_seq(step_flush(c, pre, post, x)) =~= opt_seq(
        step_flush(c, pre, post, x),
    ));
}

/// A run over a concatenation is the run over the first part followed by the
/// run over the second, and the flushes concatenate in the same order.
pub(crate) proof fn lemma_run_append(
    c: Config,
    pre: Seq<char>,
    post: Seq<char>,
    l1: Seq<Seq<char>>,
    l2: Seq<Seq<char>>,
)
    ensures
        run_config(c, pre, post, l1 + l2) == run_config(
            run_config(c, pre, post, l1),
            pre,
            post,
            l2,
        ),
        run_flushes(c, pre, post, l1 + l2) == run_flushes(c, pre, post, l1) + run_flushes(
            run_config(c, pre, post, l1),
            pre,
            post,
            l2,
        ),
    decreases l2.len(),
{
    let d = run_config(c, pre, post, l1);
    if l2.len() == 0 {
        assert(l1 + l2 =~= l1);
        assert(run_flushes(c, pre, post, l1) + run_flushes(d, pre, post, l2) =~= run_flushes(
            c,
            pre,
            post,
            l1,
        ));
    } else {
        let l2p = l2.drop_last();
        let x = l2.last();
        assert((l1 + l2).drop_last() =~= l1 + l2p);
        assert((l1 + l2).last() == x);
        lemma_run_append(c, pre, post, l1, l2p);
        assert(run_flushes(c, pre, post, l1) + (run_flushes(d, pre, post, l2p) + opt_seq(
            step_flush(run_config(d, pre, post, l2p), pre, post, x),
        )) =~= (run_flushes(c, pre, post, l1) + run_flushes(d, pre, post, l2p)) + opt_seq(
            step_flush(run_config(d, pre, post, l2p), pre, post, x),
        ));
    }
}

/// From the pre block, lines that match neither sentinel are only
/// accumulated: the state stays, the buffer folds them in, nothing flushes.
pub(crate) proof fn lemma_run_pre_no_match(
    c: Config,
    pre: Seq<char>,
    post: Seq<char>,
    lines: Seq<Seq<char>>,
)
    requires
        c.state == ParserState::PreBlock,
        forall|i: int|
            0 <= i < lines.len() ==> !line_matches(lines[i], pre) && !line_matches(lines[i], post),
    ensures
        run_config(c, pre, post, lines).state == ParserState::PreBlock,
        run_config(c, pre, post, lines).buf == fold_lines(c.buf, lines),
        run_flushes(c, pre, post, lines) == Seq::<FlushSpec>::empty(),
    decreases lines.len(),
{
    if lines.len() > 0 {
        let lp = lines.drop_last();
        assert(forall|i: int| 0 <= i < lp.len() ==> lp[i] == lines[i]);
        lemma_run_pre_no_match(c, pre, post, lp);
        assert(!line_matches(lines.last(), pre) && !line_matches(lines.last(), post));
        assert(Seq::<FlushSpec>::empty() + opt_seq(
            step_flush(run_config(c, pre, post, lp), pre, post, lines.last()),
        ) =~= Seq::<FlushSpec>::empty());
    }
}

/// From the central block, lines that do not match the post sentinel are
/// only accumulated.
pub(crate) proof fn lemma_run_central_no_post(
    c: Config,
    pre: Seq<char>,
    post: Seq<char>,
    lines: Seq<Seq<char>>,
)
    requires
        c.state == ParserState::CentralBlock,
        forall|i: int| 0 <= i < lines.len() ==> !line_matches(lines[i], post),
    ensures
        run_config(c, pre, post, lines).state == ParserState::CentralBlock,
        run_config(c, pre, post, lines).buf == fold_lines(c.buf, lines),
        run_flushes(c, pre, post, lines) == Seq::<FlushSpec>::empty(),
    decreases lines.len(),
{
    if lines.len() > 0 {
        let lp = lines.drop_last();
        assert(forall|i: int| 0 <= i < lp.len() ==> lp[i] == lines[i]);
        lemma_run_central_no_post(c, pre, post, lp);
        assert(!line_matches(lines.last(), post));
        assert(Seq::<FlushSpec>::empty() + opt_seq(
            step_flush(run_config(c, pre, post, lp), pre, post, lines.last()),
        ) =~= Seq::<FlushSpec>::empty());
    }
}

/// The post block absorbs every line, sentinel or not: nothing is checked
/// and nothing flushes any more.
pub(crate) proof fn lemma_run_post_absorbs(
    c: Config,
    pre: Seq<char>,
    post: Seq<char>,
    lines: Seq<Seq<char>>,
)
    requires
        c.state == ParserState::PostBlock,
    ensures
        run_config(c, pre, post, lines).state == ParserState::PostBlock,
        run_config(c, pre, post, lines).buf == fold_lines(c.buf, lines),
        run_flushes(c, pre, post, lines) == Seq::<FlushSpec>::empty(),
    decreases lines.len(),
{
    if lines.len() > 0 {
        let lp = lines.drop_last();
        lemma_run_post_absorbs(c, pre, post, lp);
        assert(Seq::<FlushSpec>::empty() + opt_seq(
            step_flush(run_config(c, pre, post, lp), pre, post, lines.last()),
        ) =~= Seq::<FlushSpec>::empty());
    }
}

/// Consuming lines never finishes the machine on its own: only finalization
/// reaches `Finished`.
pub proof fn lemma_run_not_finished(c: Config, pre: Seq<char>, post: Seq<char>, lines: Seq<Seq<char>>)
    requires
        c.state != ParserState::Finished,
    ensures
        run_config(c, pre, post, lines).state != ParserState::Finished,
    decreases lines.len(),
{
    if lines.len() > 0 {
        lemma_run_not_finished(c, pre, post, lines.drop_last());
    }
}

/// The flush trace of a complete run is never empty: the run itself never
/// reaches `Finished`, so finalization always flushes.
pub proof fn lemma_trace_not_empty(pre: Seq<char>, post: Seq<char>, lines: Seq<Seq<char>>)
    ensures
        flush_trace(pre, post, lines).len() >= 1,
{
    lemma_run_not_finished(start_config(), pre, post, lines);
}

/// Folding lines into an empty buffer with a newline separator before every
/// line but the first is the same as joining the lines by newlines —
/// provided the first of two or more lines is not empty. (An empty first
/// line is absorbed into the empty buffer and leaves no separator behind:
/// for the two lines `""` and `"a"` the buffer ends as `"a"`, not `"\na"`.)
pub proof fn lemma_fold_is_joined(lines: Seq<Seq<char>>)
    requires
        lines.len() < 2 || lines[0].len() > 0,
    ensures
        fold_lines(Seq::<char>::empty(), lines) == joined(lines),
{
    if lines.len() == 1 {
        assert(lines.drop_last() =~= Seq::<Seq<char>>::empty());
        assert(fold_lines(Seq::<char>::empty(), Seq::<Seq<char>>::empty()) == Seq::<char>::empty());
    }
    if lines.len() >= 2 {
        lemma_fold_is_joined_nonempty(lines);
    }
}

/// The strengthened induction behind `lemma_fold_is_joined`: with a
/// non-empty first line the buffer never returns to empty, so every later
/// line gets its separator.
proof fn lemma_fold_is_joined_nonempty(lines: Seq<Seq<char>>)
    requires
        lines.len() >= 1,
        lines[0].len() > 0,
    ensures
        fold_lines(Seq::<char>::empty(), lines) == joined(lines),
        fold_lines(Seq::<char>::empty(), lines).len() > 0,
    decreases lines.len(),
{
    if lines.len() == 1 {
        assert(lines.drop_last() =~= Seq::<Seq<char>>::empty());
        assert(fold_lines(Seq::<char>::empty(), Seq::<Seq<char>>::empty()) == Seq::<char>::empty());
    } else {
        let lp = lines.drop_last();
        assert(lp[0] == lines[0]);
        lemma_fold_is_joined_nonempty(lp);
    }
}

/// With no sentinel line in the input, exactly one flush happens, at
/// finalization: the whole input, folded into one block, goes to the pre
/// block's handler — the lines joined by newlines, up to the absorbed
/// leading empty line `lemma_fold_is_joined` describes.
pub proof fn lemma_no_sentinel_single_flush(pre: Seq<char>, post: Seq<char>, lines: Seq<Seq<char>>)
    requires
        forall|i: int|
            0 <= i < lines.len() ==> !line_matches(lines[i], pre) && !line_matches(lines[i], post),
    ensures
        flush_trace(pre, post, lines).len() == 1,
        flush_trace(pre, post, lines)[0].kind == BlockKind::Pre,
        flush_trace(pre, post, lines)[0].content == fold_lines(Seq::<char>::empty(), lines),
        lines.len() < 2 || lines[0].len() > 0 ==> flush_trace(pre, post, lines)[0].content
            == joined(lines),
{
    if lines.len() < 2 || lines[0].len() > 0 {
        lemma_fold_is_joined(lines);
    }
    lemma_run_pre_no_match(start_config(), pre, post, lines);
    let fin = FlushSpec {
        kind: BlockKind::Pre,
        content: fold_lines(Seq::<char>::empty(), lines),
    };
    assert(flush_trace(pre, post, lines) =~= seq![fin]);
}

/// With the pre sentinel once at position `i`, the post sentinel once at
/// position `j`, and `i` before `j`: exactly three flushes happen, one per
/// block in block order, each holding its section's lines with the sentinel
/// lines themselves excluded.
pub proof fn lemma_both_sentinels_three_flushes(
    pre: Seq<char>,
    post: Seq<char>,
    lines: Seq<Seq<char>>,
    i: int,
    j: int,
)
    requires
        0 <= i < j < lines.len(),
        line_matches(lines[i], pre),
        line_matches(lines[j], post),
        forall|k: int| 0 <= k < lines.len() && k != i ==> !line_matches(lines[k], pre),
        forall|k: int| 0 <= k < lines.len() && k != j ==> !line_matches(lines[k], post),
    ensures
        flush_trace(pre, post, lines).len() == 3,
        flush_trace(pre, post, lines)[0].kind == BlockKind::Pre,
        flush_trace(pre, post, lines)[0].content == fold_lines(
            Seq::<char>::empty(),
            lines.subrange(0, i),
        ),
        flush_trace(pre, post, lines)[1].kind == BlockKind::Central,
        flush_trace(pre, post, lines)[1].content == fold_lines(
            Seq::<char>::empty(),
            lines.subrange(i + 1, j),
        ),
        flush_trace(pre, post, lines)[2].kind == BlockKind::Post,
        flush_trace(pre, post, lines)[2].content == fold_lines(
            Seq::<char>::empty(),
            lines.subrange(j + 1, lines.len() as int),
        ),
{
    let s0 = lines.subrange(0, i);
    let s1 = lines.subrange(i + 1, j);
    let s2 = lines.subrange(j + 1, lines.len() as int);
    let m1 = seq![lines[i]];
    let m2 = seq![lines[j]];
    assert(lines =~= s0 + m1 + s1 + m2 + s2);

    let c = start_config();
    lemma_run_append(c, pre, post, s0 + m1 + s1 + m2, s2);
    lemma_run_append(c, pre, post, s0 + m1 + s1, m2);
    lemma_run_append(c, pre, post, s0 + m1, s1);
    lemma_run_append(c, pre, post, s0, m1);

    assert(forall|k: int| 0 <= k < s0.len() ==> s0[k] == lines[k]);
    lemma_run_pre_no_match(c, pre, post, s0);
    let c0 = run_config(c, pre, post, s0);
    let f0 = FlushSpec { kind: BlockKind::Pre, content: fold_lines(Seq::<char>::empty(), s0) };

    lemma_run_singleton(c0, pre, post, lines[i]);
    let c1 = run_config(c0, pre, post, m1);
    assert(c1.state == ParserState::CentralBlock);

    assert(forall|k: int| 0 <= k < s1.len() ==> s1[k] == lines[i + 1 + k]);
    lemma_run_central_no_post(c1, pre, post, s1);
    let c2 = run_config(c1, pre, post, s1);
    let f1 = FlushSpec {
        kind: BlockKind::Central,
        content: fold_lines(Seq::<char>::empty(), s1),
    };

    lemma_run_singleton(c2, pre, post, lines[j]);
    let c3 = run_config(c2, pre, post, m2);
    assert(c3.state == ParserState::PostBlock);

    lemma_run_post_absorbs(c3, pre, post, s2);
    let c4 = run_config(c3, pre, post, s2);
    let f2 = FlushSpec { kind: BlockKind::Post, content: fold_lines(Seq::<char>::empty(), s2) };
    assert(run_config(c, pre, post, lines) == c4);

    assert(flush_trace(pre, post, lines) =~= seq![f0, f1, f2]);
}

/// If the post sentinel appears before any pre sentinel, the central block
/// is skipped entirely: exactly two flushes happen — the pre block, then the
/// post block — and no flush ever addresses the central block, whatever
/// comes after the post sentinel.
pub proof fn lemma_post_first_skips_central(
    pre: Seq<char>,
    post: Seq<char>,
    lines: Seq<Seq<char>>,
    j: int,
)
    requires
        0 <= j < lines.len(),
        line_matches(lines[j], post),
        forall|k: int| 0 <= k <= j ==> !line_matches(lines[k], pre),
        forall|k: int| 0 <= k < j ==> !line_matches(lines[k], post),
    ensures
        flush_trace(pre, post, lines).len() == 2,
        flush_trace(pre, post, lines)[0].kind == BlockKind::Pre,
        flush_trace(pre, post, lines)[0].content == fold_lines(
            Seq::<char>::empty(),
            lines.subrange(0, j),
        ),
        flush_trace(pre, post, lines)[1].kind == BlockKind::Post,
        flush_trace(pre, post, lines)[1].content == fold_lines(
            Seq::<char>::empty(),
            lines.subrange(j + 1, lines.len() as int),
        ),
        forall|k: int|
            0 <= k < flush_trace(pre, post, lines).len() ==> flush_trace(pre, post, lines)[k].kind
                != BlockKind::Central,
{
    let s0 = lines.subrange(0, j);
    let s2 = lines.subrange(j + 1, lines.len() as int);
    let m = seq![lines[j]];
    assert(lines =~= s0 + m + s2);

    let c = start_config();
    lemma_run_append(c, pre, post, s0 + m, s2);
    lemma_run_append(c, pre, post, s0, m);

    assert(forall|k: int| 0 <= k < s0.len() ==> s0[k] == lines[k]);
    lemma_run_pre_no_match(c, pre, post, s0);
    let c0 = run_config(c, pre, post, s0);
    let f0 = FlushSpec { kind: BlockKind::Pre, content: fold_lines(Seq::<char>::empty(), s0) };

    lemma_run_singleton(c0, pre, post, lines[j]);
    let c1 = run_config(c0, pre, post, m);
    assert(c1.state == ParserState::PostBlock);

    lemma_run_post_absorbs(c1, pre, post, s2);
    let f1 = FlushSpec { kind: BlockKind::Post, content: fold_lines(Seq::<char>::empty(), s2) };

    assert(flush_trace(pre, post, lines) =~= seq![f0, f1]);
}

} // verus!
