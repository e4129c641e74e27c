//! The executable parser: it consumes lines one at a time, accumulates the
//! current block, and hands out a `Flush` whenever a sentinel line (or
//! finalization) closes a block. Every step is proved to follow the machine
//! model in `machine`.

use vstd::prelude::*;
use vstd::string::StrSliceExecFns;
use vstd::string::StringExecFns;

use crate::machine::{
    buf_extend, finish_flush, is_space, line_matches, start_config, step_config, step_flush,
    trim_back, trim_front, trimmed, BlockKind, Config, FlushSpec, ParserState,
};

verus! {

/// The string's characters, in order, as a vector.
fn chars_of(s: &str) -> (r: Vec<char>)
    ensures
        r@ == s@,
{
    let n = s.unicode_len();
    let mut v: Vec<char> = Vec::new();
    let mut i: usize = 0;
    while i < n
        invariant
            n as nat == s@.len(),
            0 <= i <= n,
            v@ == s@.subrange(0, i as int),
        decreases n - i,
    {
        v.push(s.get_char(i));
        proof {
            assert(v@ =~= s@.subrange(0, i as int + 1));
        }
        i = i + 1;
    }
    proof {
        assert(s@.subrange(0, n as int) =~= s@);
    }
    v
}

/// Whether `c` is whitespace, checked against the written-out set.
fn is_space_char(c: char) -> (r: bool)
    ensures
        r == is_space(c),
{
    ||| c == '\u{0009}'
    ||| c == '\u{000A}'
    ||| c == '\u{000B}'
    ||| c == '\u{000C}'
    ||| c == '\u{000D}'
    ||| c == '\u{0020}'
    ||| c == '\u{0085}'
    ||| c == '\u{00A0}'
    ||| c == '\u{1680}'
    ||| c == '\u{2000}'
    ||| c == '\u{2001}'
    ||| c == '\u{2002}'
    ||| c == '\u{2003}'
    ||| c == '\u{2004}'
    ||| c == '\u{2005}'
    ||| c == '\u{2006}'
    ||| c == '\u{2007}'
    ||| c == '\u{2008}'
    ||| c == '\u{2009}'
    ||| c == '\u{200A}'
    ||| c == '\u{2028}'
    ||| c == '\u{2029}'
    ||| c == '\u{202F}'
    ||| c == '\u{205F}'
    ||| c == '\u{3000}'
}

/// When the first `n` characters are whitespace and the character at `n` (if
/// any) is not, trimming the front removes exactly those `n` characters.
proof fn lemma_trim_front_skip(s: Seq<char>, n: int)
    requires
        0 <= n <= s.len(),
        forall|i: int| 0 <= i < n ==> is_space(s[i]),
        n == s.len() || !is_space(s[n]),
    ensures
        trim_front(s) == s.skip(n),
    decreases n,
{
    if n == 0 {
        assert(s.skip(0) =~= s);
    } else {
        let t = s.drop_first();
        assert(t =~= s.skip(1));
        lemma_trim_front_skip(t, n - 1);
        assert(t.skip(n - 1) =~= s.skip(n));
    }
}

/// When the characters from `n` on are whitespace and the character before
/// `n` (if any) is not, trimming the back keeps exactly the first `n`.
proof fn lemma_trim_back_take(s: Seq<char>, n: int)
    requires
        0 <= n <= s.len(),
        forall|i: int| n <= i < s.len() ==> is_space(s[i]),
        n == 0 || !is_space(s[n - 1]),
    ensures
        trim_back(s) == s.take(n),
    decreases s.len() - n,
{
    if n == s.len() {
        assert(s.take(n) =~= s);
    } else {
        let t = s.drop_last();
        lemma_trim_back_take(t, n);
        assert(t.take(n) =~= s.take(n));
    }
}

/// Whether `line` matches `sentinel`: equality after removing surrounding
/// whitespace.
fn matches_sentinel(line: &str, sentinel: &str) -> (r: bool)
    ensures
        r == line_matches(line@, sentinel@),
{
    let chars: Vec<char> = chars_of(line);
    let sent: Vec<char> = chars_of(sentinel);
    let mut start: usize = 0;
    while start < chars.len() && is_space_char(chars[start])
        invariant
            0 <= start <= chars@.len(),
            forall|i: int| 0 <= i < start ==> is_space(chars@[i]),
            chars@ == line@,
            sent@ == sentinel@,
        decreases chars@.len() - start,
    {
        start = start + 1;
    }
    let mut end: usize = chars.len();
    while end > start && is_space_char(chars[end - 1])
        invariant
            start <= end <= chars@.len(),
            forall|i: int| 0 <= i < start ==> is_space(chars@[i]),
            start == chars@.len() || !is_space(chars@[start as int]),
            forall|i: int| end <= i < chars@.len() ==> is_space(chars@[i]),
            chars@ == line@,
            sent@ == sentinel@,
        decreases end,
    {
        end = end - 1;
    }
    proof {
        lemma_trim_front_skip(line@, start as int);
        lemma_trim_back_take(line@.skip(start as int), end - start);
        assert(trimmed(line@) == line@.skip(start as int).take(end - start));
        assert(trimmed(line@) =~= line@.subrange(start as int, end as int));
    }
    if end - start != sent.len() {
        proof {
            assert(trimmed(line@).len() == end - start);
        }
        return false;
    }
    let mut i: usize = 0;
    while i < sent.len()
        invariant
            0 <= i <= sent@.len(),
            start + sent@.len() == end <= chars@.len(),
            trimmed(line@) == line@.subrange(start as int, end as int),
            forall|k: int| 0 <= k < i ==> chars@[start + k] == sent@[k],
            chars@ == line@,
            sent@ == sentinel@,
        decreases sent@.len() - i,
    {
        if chars[start + i] != sent[i] {
            proof {
                assert(trimmed(line@)[i as int] != sentinel@[i as int]);
            }
            return false;
        }
        i = i + 1;
    }
    proof {
        assert(trimmed(line@) =~= sentinel@);
    }
    true
}

/// One flush handed out by the parser: the block it closes and its full
/// accumulated text, lines joined by single newlines.
pub struct Flush {
    pub kind: BlockKind,
    pub content: String,
}

impl View for Flush {
    type V = FlushSpec;

    open spec fn view(&self) -> FlushSpec {
        FlushSpec { kind: self.kind, content: self.content@ }
    }
}

/// An optional flush, viewed.
pub open spec fn view_of(flush: Option<Flush>) -> Option<FlushSpec> {
    match flush {
        Some(f) => Some(f@),
        None => None,
    }
}

/// The four-state parser. It owns the buffer of the current block and the
/// two sentinel strings; it does not own the handlers, so its logic is
/// handler-agnostic: each step reports the flush to make, if any.
pub struct FileParser {
    state: ParserState,
    block_content: String,
    pre_sentinel: String,
    post_sentinel: String,
}

impl FileParser {
    /// The machine configuration this parser is in.
    pub closed spec fn cfg(self) -> Config {
        Config { state: self.state, buf: self.block_content@ }
    }

    pub closed spec fn spec_pre(self) -> Seq<char> {
        self.pre_sentinel@
    }

    pub closed spec fn spec_post(self) -> Seq<char> {
        self.post_sentinel@
    }

    /// A fresh parser for the two given sentinels.
    pub fn new(pre_sentinel: &str, post_sentinel: &str) -> (r: Self)
        ensures
            r.cfg() == start_config(),
            r.spec_pre() == pre_sentinel@,
            r.spec_post() == post_sentinel@,
    {
        FileParser {
            state: ParserState::PreBlock,
            block_content: String::new(),
            pre_sentinel: pre_sentinel.to_owned(),
            post_sentinel: post_sentinel.to_owned(),
        }
    }

    /// Empties the buffer and returns what it held.
    fn take_buffer(&mut self) -> (r: String)
        ensures
            r@ == old(self).block_content@,
            final(self).block_content@ == Seq::<char>::empty(),
            final(self).state == old(self).state,
            final(self).pre_sentinel == old(self).pre_sentinel,
            final(self).post_sentinel == old(self).post_sentinel,
    {
        let r = self.block_content.clone();
        self.block_content = String::new();
        r
    }

    /// Appends a line to the buffer, with a newline separator unless the
    /// buffer is empty.
    fn append_line(&mut self, line: &str)
        ensures
            final(self).block_content@ == buf_extend(old(self).block_content@, line@),
            final(self).state == old(self).state,
            final(self).pre_sentinel == old(self).pre_sentinel,
            final(self).post_sentinel == old(self).post_sentinel,
    {
        if !self.block_content.as_str().is_empty() {
            self.block_content.append("\n");
            proof {
                reveal_strlit("\n");
                assert("\n"@ =~= seq!['\n']);
            }
        }
        self.block_content.append(line);
    }

    /// Consumes one line: appends it to the current block, or, when it
    /// matches the sentinel the current state watches for, flushes the block
    /// and advances the state. A finished parser ignores the line.
    pub fn process_line(&mut self, line: &str) -> (flush: Option<Flush>)
        ensures
            final(self).cfg() == step_config(old(self).cfg(), old(self).spec_pre(), old(self).spec_post(), line@),
            view_of(flush) == step_flush(old(self).cfg(), old(self).spec_pre(), old(self).spec_post(), line@),
            final(self).spec_pre() == old(self).spec_pre(),
            final(self).spec_post() == old(self).spec_post(),
    {
        match self.state {
            ParserState::PreBlock => {
                if matches_sentinel(line, self.pre_sentinel.as_str()) {
                    let content = self.take_buffer();
                    self.state = ParserState::CentralBlock;
                    Some(Flush { kind: BlockKind::Pre, content })
                } else if matches_sentinel(line, self.post_sentinel.as_str()) {
                    let content = self.take_buffer();
                    self.state = ParserState::PostBlock;
                    Some(Flush { kind: BlockKind::Pre, content })
                } else {
                    self.append_line(line);
                    None
                }
            },
            ParserState::CentralBlock => {
                if matches_sentinel(line, self.post_sentinel.as_str()) {
                    let content = self.take_buffer();
                    self.state = ParserState::PostBlock;
                    Some(Flush { kind: BlockKind::Central, content })
                } else {
                    self.append_line(line);
                    None
                }
            },
            ParserState::PostBlock => {
                self.append_line(line);
                None
            },
            ParserState::Finished => None,
        }
    }

    /// Finalizes the parser: flushes whatever is buffered to the handler of
    /// the current state and moves to `Finished`. Finalizing an already
    /// finished parser is a no-op.
    pub fn finish(&mut self) -> (flush: Option<Flush>)
        ensures
            final(self).cfg().state == ParserState::Finished,
            final(self).cfg().buf == old(self).cfg().buf,
            view_of(flush) == finish_flush(old(self).cfg()),
            final(self).spec_pre() == old(self).spec_pre(),
            final(self).spec_post() == old(self).spec_post(),
    {
        let flush = match self.state {
            ParserState::PreBlock => Some(
                Flush { kind: BlockKind::Pre, content: self.block_content.clone() },
            ),
            ParserState::CentralBlock => Some(
                Flush { kind: BlockKind::Central, content: self.block_content.clone() },
            ),
            ParserState::PostBlock => Some(
                Flush { kind: BlockKind::Post, content: self.block_content.clone() },
            ),
            ParserState::Finished => None,
        };
        self.state = ParserState::Finished;
        flush
    }
}

} // verus!
