//! The orchestrating processor: it binds a handler to each block and routes
//! every flush of a parser run to the handler of the block it closes.

use vstd::prelude::*;

use crate::handler::{BlockHandler, HandlerError};
use crate::machine::{
    contents_for, flush_trace, run_config, run_flushes, start_config, BlockKind, FlushSpec,
};
use crate::laws::{lemma_run_append, lemma_run_push};
use crate::parser::{FileParser, Flush};

verus! {

/// Routes flushes to handlers. The pre block's handler is mandatory; the
/// central and post handlers are optional — a flush whose handler is absent
/// is silently discarded, and still counts as a success.
pub struct FileProcessor<H> {
    pub pre_handler: H,
    pub central_handler: Option<H>,
    pub post_handler: Option<H>,
}

/// How the handler records of `after` relate to those of `before` once the
/// flushes `fs` have been delivered: every present handler has accepted
/// exactly the contents of its block's flushes, in order, and no handler has
/// appeared or disappeared.
pub open spec fn logs_advanced<H: BlockHandler>(
    before: FileProcessor<H>,
    after: FileProcessor<H>,
    fs: Seq<FlushSpec>,
) -> bool {
    &&& after.pre_handler.handled() == before.pre_handler.handled() + contents_for(
        BlockKind::Pre,
        fs,
    )
    &&& match (before.central_handler, after.central_handler) {
        (Some(h0), Some(h1)) => h1.handled() == h0.handled() + contents_for(BlockKind::Central, fs),
        (None, None) => true,
        _ => false,
    }
    &&& match (before.post_handler, after.post_handler) {
        (Some(h0), Some(h1)) => h1.handled() == h0.handled() + contents_for(BlockKind::Post, fs),
        (None, None) => true,
        _ => false,
    }
}

/// `contents_for` of an empty trace is empty.
proof fn lemma_contents_for_empty(kind: BlockKind)
    ensures
        contents_for(kind, Seq::<FlushSpec>::empty()) == Seq::<Seq<char>>::empty(),
{
    reveal(Seq::filter);
    assert(Seq::<FlushSpec>::empty().filter(|f: FlushSpec| f.kind == kind).map_values(
        |f: FlushSpec| f.content,
    ) =~= Seq::<Seq<char>>::empty());
}

/// `contents_for` distributes over appending one flush: the flush's content
/// joins the record of its own block and no other.
proof fn lemma_contents_for_push(kind: BlockKind, fs: Seq<FlushSpec>, f: FlushSpec)
    ensures
        f.kind == kind ==> contents_for(kind, fs.push(f)) == contents_for(kind, fs).push(f.content),
        f.kind != kind ==> contents_for(kind, fs.push(f)) == contents_for(kind, fs),
{
    let pred = |g: FlushSpec| g.kind == kind;
    fs.lemma_filter_push(f, pred);
    if f.kind == kind {
        assert(fs.push(f).filter(pred).map_values(|g: FlushSpec| g.content) =~= fs.filter(
            pred,
        ).map_values(|g: FlushSpec| g.content).push(f.content));
    }
}

/// One delivered flush extends an advanced record by that flush.
proof fn lemma_logs_advanced_snoc<H: BlockHandler>(
    a: FileProcessor<H>,
    b: FileProcessor<H>,
    c: FileProcessor<H>,
    fs: Seq<FlushSpec>,
    f: FlushSpec,
)
    requires
        logs_advanced(a, b, fs),
        logs_advanced(b, c, seq![f]),
    ensures
        logs_advanced(a, c, fs.push(f)),
{
    assert(seq![f] =~= Seq::<FlushSpec>::empty().push(f));
    lemma_log_slot_snoc(a.pre_handler.handled(), BlockKind::Pre, fs, f);
    match (a.central_handler, b.central_handler, c.central_handler) {
        (Some(h0), Some(_), Some(_)) => {
            lemma_log_slot_snoc(h0.handled(), BlockKind::Central, fs, f);
        },
        _ => {},
    }
    match (a.post_handler, b.post_handler, c.post_handler) {
        (Some(h0), Some(_), Some(_)) => {
            lemma_log_slot_snoc(h0.handled(), BlockKind::Post, fs, f);
        },
        _ => {},
    }
}

/// The single-slot calculation behind `lemma_logs_advanced_snoc`.
proof fn lemma_log_slot_snoc(base: Seq<Seq<char>>, kind: BlockKind, fs: Seq<FlushSpec>, f: FlushSpec)
    ensures
        (base + contents_for(kind, fs)) + contents_for(kind, seq![f]) == base + contents_for(
            kind,
            fs.push(f),
        ),
{
    lemma_contents_for_empty(kind);
    lemma_contents_for_push(kind, fs, f);
    assert(seq![f] =~= Seq::<FlushSpec>::empty().push(f));
    lemma_contents_for_push(kind, Seq::<FlushSpec>::empty(), f);
    if f.kind == kind {
        assert(contents_for(kind, seq![f]) == Seq::<Seq<char>>::empty().push(f.content));
        assert((base + contents_for(kind, fs)) + contents_for(kind, seq![f]) =~= base
            + contents_for(kind, fs).push(f.content));
    } else {
        assert(contents_for(kind, seq![f]) == Seq::<Seq<char>>::empty());
        assert((base + contents_for(kind, fs)) + contents_for(kind, seq![f]) =~= base
            + contents_for(kind, fs));
    }
}

/// A trace with no flush for `kind` contributes nothing to its record.
proof fn lemma_contents_for_absent(kind: BlockKind, fs: Seq<FlushSpec>)
    requires
        forall|k: int| 0 <= k < fs.len() ==> fs[k].kind != kind,
    ensures
        contents_for(kind, fs) == Seq::<Seq<char>>::empty(),
    decreases fs.len(),
{
    if fs.len() == 0 {
        lemma_contents_for_empty(kind);
    } else {
        let fp = fs.drop_last();
        assert(forall|k: int| 0 <= k < fp.len() ==> fp[k] == fs[k]);
        lemma_contents_for_absent(kind, fp);
        assert(fs =~= fp.push(fs.last()));
        lemma_contents_for_push(kind, fp, fs.last());
    }
}

/// Delivering a trace in which no flush addresses the central block leaves
/// the central handler's record exactly as it was. Together with
/// `lemma_post_first_skips_central`: when the post sentinel comes before any
/// pre sentinel, the central handler is never invoked.
pub proof fn lemma_central_handler_untouched<H: BlockHandler>(
    before: FileProcessor<H>,
    after: FileProcessor<H>,
    fs: Seq<FlushSpec>,
)
    requires
        logs_advanced(before, after, fs),
        forall|k: int| 0 <= k < fs.len() ==> fs[k].kind != BlockKind::Central,
    ensures
        match (before.central_handler, after.central_handler) {
            (Some(h0), Some(h1)) => h1.handled() == h0.handled(),
            (None, None) => true,
            _ => false,
        },
{
    lemma_contents_for_absent(BlockKind::Central, fs);
    match before.central_handler {
        Some(h0) => {
            assert(h0.handled() + Seq::<Seq<char>>::empty() =~= h0.handled());
        },
        None => {},
    }
}

/// Nothing delivered: the records stand still.
proof fn lemma_logs_advanced_empty<H: BlockHandler>(p: FileProcessor<H>)
    ensures
        logs_advanced(p, p, Seq::<FlushSpec>::empty()),
{
    lemma_contents_for_empty(BlockKind::Pre);
    lemma_contents_for_empty(BlockKind::Central);
    lemma_contents_for_empty(BlockKind::Post);
    assert(p.pre_handler.handled() + Seq::<Seq<char>>::empty() =~= p.pre_handler.handled());
    match p.central_handler {
        Some(h) => {
            assert(h.handled() + Seq::<Seq<char>>::empty() =~= h.handled());
        },
        None => {},
    }
    match p.post_handler {
        Some(h) => {
            assert(h.handled() + Seq::<Seq<char>>::empty() =~= h.handled());
        },
        None => {},
    }
}

/// A step that delivered nothing preserves an advanced record.
proof fn lemma_logs_advanced_same<H: BlockHandler>(
    a: FileProcessor<H>,
    b: FileProcessor<H>,
    c: FileProcessor<H>,
    fs: Seq<FlushSpec>,
)
    requires
        logs_advanced(a, b, fs),
        logs_advanced(b, c, Seq::<FlushSpec>::empty()),
    ensures
        logs_advanced(a, c, fs),
{
    lemma_contents_for_empty(BlockKind::Pre);
    lemma_contents_for_empty(BlockKind::Central);
    lemma_contents_for_empty(BlockKind::Post);
    assert(b.pre_handler.handled() + Seq::<Seq<char>>::empty() =~= b.pre_handler.handled());
    match b.central_handler {
        Some(h) => {
            assert(h.handled() + Seq::<Seq<char>>::empty() =~= h.handled());
        },
        None => {},
    }
    match b.post_handler {
        Some(h) => {
            assert(h.handled() + Seq::<Seq<char>>::empty() =~= h.handled());
        },
        None => {},
    }
}

impl<H: BlockHandler> FileProcessor<H> {
    /// Binds the three handlers. The pre handler is mandatory; the central
    /// and post handlers may be absent, in which case their blocks' contents
    /// are discarded.
    pub fn new(pre_handler: H, central_handler: Option<H>, post_handler: Option<H>) -> (r: Self)
        ensures
            r.pre_handler == pre_handler,
            r.central_handler == central_handler,
            r.post_handler == post_handler,
    {
        FileProcessor { pre_handler, central_handler, post_handler }
    }

    /// Delivers one flush to the handler of its block. A missing central or
    /// post handler swallows the flush and succeeds; a handler failure is
    /// returned and leaves every record unchanged.
    pub fn dispatch(&mut self, flush: &Flush) -> (r: Result<(), HandlerError>)
        ensures
            r is Ok ==> logs_advanced(*old(self), *final(self), seq![flush@]),
            r is Err ==> logs_advanced(*old(self), *final(self), Seq::<FlushSpec>::empty()),
            flush@.kind == BlockKind::Central && old(self).central_handler is None ==> r is Ok,
            flush@.kind == BlockKind::Post && old(self).post_handler is None ==> r is Ok,
    {
        proof {
            lemma_contents_for_empty(BlockKind::Pre);
            lemma_contents_for_empty(BlockKind::Central);
            lemma_contents_for_empty(BlockKind::Post);
            lemma_contents_for_push(BlockKind::Pre, Seq::<FlushSpec>::empty(), flush@);
            lemma_contents_for_push(BlockKind::Central, Seq::<FlushSpec>::empty(), flush@);
            lemma_contents_for_push(BlockKind::Post, Seq::<FlushSpec>::empty(), flush@);
            assert(seq![flush@] =~= Seq::<FlushSpec>::empty().push(flush@));
        }
        let r = match flush.kind {
            BlockKind::Pre => self.pre_handler.handle(flush.content.as_str()),
            BlockKind::Central => match &mut self.central_handler {
                Some(h) => h.handle(flush.content.as_str()),
                None => Ok(()),
            },
            BlockKind::Post => match &mut self.post_handler {
                Some(h) => h.handle(flush.content.as_str()),
                None => Ok(()),
            },
        };
        proof {
            assert(old(self).pre_handler.handled() + Seq::<Seq<char>>::empty()
                =~= old(self).pre_handler.handled());
            assert(old(self).pre_handler.handled().push(flush.content@)
                =~= old(self).pre_handler.handled() + Seq::<Seq<char>>::empty().push(flush@.content));
            match old(self).central_handler {
                Some(h) => {
                    assert(h.handled() + Seq::<Seq<char>>::empty() =~= h.handled());
                    assert(h.handled().push(flush.content@) =~= h.handled()
                        + Seq::<Seq<char>>::empty().push(flush@.content));
                },
                None => {},
            }
            match old(self).post_handler {
                Some(h) => {
                    assert(h.handled() + Seq::<Seq<char>>::empty() =~= h.handled());
                    assert(h.handled().push(flush.content@) =~= h.handled()
                        + Seq::<Seq<char>>::empty().push(flush@.content));
                },
                None => {},
            }
        }
        r
    }

    /// Feeds every line, in order, to a fresh parser built on the two
    /// sentinels, delivering each flush as it is emitted, then finalizes.
    /// On success every present handler has received exactly its block's
    /// contents from the run's flush trace, in order. A handler failure
    /// stops processing at that flush and is returned; the flushes before it
    /// have already been delivered.
    pub fn process_lines(&mut self, lines: &Vec<String>, pre_sentinel: &str, post_sentinel: &str) -> (r:
        Result<(), HandlerError>)
        ensures
            ({
                let fs = flush_trace(
                    pre_sentinel@,
                    post_sentinel@,
                    lines@.map_values(|s: String| s@),
                );
                &&& (r is Ok ==> logs_advanced(*old(self), *final(self), fs))
                &&& (r is Err ==> exists|n: int|
                    0 <= n < fs.len() && logs_advanced(*old(self), *final(self), fs.take(n)))
            }),
    {
        let ghost views = lines@.map_values(|s: String| s@);
        let ghost fs = flush_trace(pre_sentinel@, post_sentinel@, views);
        let mut parser = FileParser::new(pre_sentinel, post_sentinel);
        proof {
            assert(views.take(0) =~= Seq::<Seq<char>>::empty());
            lemma_logs_advanced_empty(*self);
        }
        let mut idx: usize = 0;
        while idx < lines.len()
            invariant
                0 <= idx <= lines@.len(),
                views == lines@.map_values(|s: String| s@),
                fs == flush_trace(pre_sentinel@, post_sentinel@, views),
                parser.cfg() == run_config(start_config(), pre_sentinel@, post_sentinel@, views.take(idx as int)),
                parser.spec_pre() == pre_sentinel@,
                parser.spec_post() == post_sentinel@,
                logs_advanced(
                    *old(self),
                    *self,
                    run_flushes(start_config(), pre_sentinel@, post_sentinel@, views.take(idx as int)),
                ),
            decreases lines@.len() - idx,
        {
            let ghost prefix = views.take(idx as int);
            let ghost pre_flushes = run_flushes(start_config(), pre_sentinel@, post_sentinel@, prefix);
            let line: &String = &lines[idx];
            proof {
                assert(views[idx as int] == line@);
                assert(views.take(idx as int + 1) =~= prefix.push(views[idx as int]));
                lemma_run_push(start_config(), pre_sentinel@, post_sentinel@, prefix, views[idx as int]);
            }
            let flush_opt = parser.process_line(line.as_str());
            match flush_opt {
                Some(f) => {
                    let ghost before = *self;
                    let res = self.dispatch(&f);
                    proof {
                        assert(run_flushes(
                            start_config(),
                            pre_sentinel@,
                            post_sentinel@,
                            views.take(idx as int + 1),
                        ) =~= pre_flushes.push(f@));
                    }
                    if let Err(e) = res {
                        proof {
                            lemma_logs_advanced_same(*old(self), before, *self, pre_flushes);
                            lemma_trace_prefix(pre_sentinel@, post_sentinel@, views, idx as int);
                            lemma_trace_prefix(pre_sentinel@, post_sentinel@, views, idx as int + 1);
                            assert(fs.take(pre_flushes.len() as int) == pre_flushes);
                            assert(pre_flushes.len() < fs.len());
                            assert(logs_advanced(*old(self), *self, fs.take(pre_flushes.len() as int)));
                        }
                        return Err(e);
                    }
                    proof {
                        lemma_logs_advanced_snoc(*old(self), before, *self, pre_flushes, f@);
                    }
                },
                None => {
                    proof {
                        assert(run_flushes(
                            start_config(),
                            pre_sentinel@,
                            post_sentinel@,
                            views.take(idx as int + 1),
                        ) =~= pre_flushes);
                    }
                },
            }
            idx = idx + 1;
        }
        proof {
            assert(views.take(lines@.len() as int) =~= views);
        }
        let ghost all_flushes = run_flushes(start_config(), pre_sentinel@, post_sentinel@, views);
        let last = parser.finish();
        match last {
            Some(f) => {
                let ghost before = *self;
                let res = self.dispatch(&f);
                proof {
                    assert(fs =~= all_flushes.push(f@));
                }
                match res {
                    Ok(()) => {
                        proof {
                            lemma_logs_advanced_snoc(*old(self), before, *self, all_flushes, f@);
                        }
                        Ok(())
                    },
                    Err(e) => {
                        proof {
                            lemma_logs_advanced_same(*old(self), before, *self, all_flushes);
                            assert(fs.take(all_flushes.len() as int) =~= all_flushes);
                            assert(all_flushes.len() < fs.len());
                            assert(logs_advanced(*old(self), *self, fs.take(all_flushes.len() as int)));
                        }
                        Err(e)
                    },
                }
            },
            None => {
                proof {
                    assert(fs =~= all_flushes);
                }
                Ok(())
            },
        }
    }
}

/// The flushes of a prefix of the input are a prefix of the whole run's
/// flush trace.
proof fn lemma_trace_prefix(pre: Seq<char>, post: Seq<char>, views: Seq<Seq<char>>, idx: int)
    requires
        0 <= idx <= views.len(),
    ensures
        ({
            let fs = flush_trace(pre, post, views);
            let part = run_flushes(start_config(), pre, post, views.take(idx));
            part.len() <= fs.len() && fs.take(part.len() as int) == part
        }),
{
    let prefix = views.take(idx);
    let rest = views.skip(idx);
    assert(views =~= prefix + rest);
    lemma_run_append(start_config(), pre, post, prefix, rest);
    let part = run_flushes(start_config(), pre, post, prefix);
    let fs = flush_trace(pre, post, views);
    assert(fs.take(part.len() as int) =~= part);
}

} // verus!
