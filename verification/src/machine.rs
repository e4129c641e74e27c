//! The mathematical model of the block splitter: a four-state machine that
//! consumes lines one at a time, accumulates the current block, and emits a
//! flush whenever a sentinel line closes a block.

use vstd::prelude::*;

verus! {

/// The parser's state. Transitions are one-directional: no state is
/// revisited, and `Finished` is terminal.
#[derive(Clone, Copy, PartialEq, Eq, Structural, Debug)]
pub enum ParserState {
    PreBlock,
    CentralBlock,
    PostBlock,
    Finished,
}

/// The block a flush belongs to.
#[derive(Clone, Copy, PartialEq, Eq, Structural, Debug)]
pub enum BlockKind {
    Pre,
    Central,
    Post,
}

/// One flush: the block it closes and the accumulated text handed over.
pub ghost struct FlushSpec {
    pub kind: BlockKind,
    pub content: Seq<char>,
}

/// A machine configuration: the current state and the buffer holding the
/// lines accumulated since the last flush.
pub ghost struct Config {
    pub state: ParserState,
    pub buf: Seq<char>,
}

/// The characters Rust's `char::is_whitespace` accepts: the Unicode
/// `White_Space` set, written out.
pub open spec fn is_space(c: char) -> bool {
    ||| c == '\u{0009}'
    ||| c == '\u{000A}'
    ||| c == '\u{000B}'
    ||| c == '\u{000C}'
    ||| c == '\u{000D}'
    ||| c == '\u{0020}'
    ||| c == '\u{0085}'
    ||| c == '\u{00A0}'
    ||| c == '\u{1680}'
    ||| c == '\u{2000}'
    ||| c == '\u{2001}'
    ||| c == '\u{2002}'
    ||| c == '\u{2003}'
    ||| c == '\u{2004}'
    ||| c == '\u{2005}'
    ||| c == '\u{2006}'
    ||| c == '\u{2007}'
    ||| c == '\u{2008}'
    ||| c == '\u{2009}'
    ||| c == '\u{200A}'
    ||| c == '\u{2028}'
    ||| c == '\u{2029}'
    ||| c == '\u{202F}'
    ||| c == '\u{205F}'
    ||| c == '\u{3000}'
}

/// The line without its leading whitespace.
pub open spec fn trim_front(s: Seq<char>) -> Seq<char>
    decreases s.len(),
{
    if s.len() > 0 && is_space(s[0]) {
        trim_front(s.drop_first())
    } else {
        s
    }
}

/// The line without its trailing whitespace.
pub open spec fn trim_back(s: Seq<char>) -> Seq<char>
    decreases s.len(),
{
    if s.len() > 0 && is_space(s.last()) {
        trim_back(s.drop_last())
    } else {
        s
    }
}

/// The line with surrounding whitespace removed, as `str::trim` gives it.
pub open spec fn trimmed(s: Seq<char>) -> Seq<char> {
    trim_back(trim_front(s))
}

/// Sentinel matching: exact equality against the line with surrounding
/// whitespace removed (not a substring match).
pub open spec fn line_matches(line: Seq<char>, sentinel: Seq<char>) -> bool {
    trimmed(line) == sentinel
}

/// Appending a line to the buffer: a single newline separator goes first,
/// unless the buffer is still empty.
pub open spec fn buf_extend(buf: Seq<char>, line: Seq<char>) -> Seq<char> {
    if buf.len() == 0 {
        line
    } else {
        buf + seq!['\n'] + line
    }
}

/// The configuration after consuming one line.
pub open spec fn step_config(c: Config, pre: Seq<char>, post: Seq<char>, line: Seq<char>) -> Config {
    match c.state {
        ParserState::PreBlock => {
            if line_matches(line, pre) {
                Config { state: ParserState::CentralBlock, buf: Seq::empty() }
            } else if line_matches(line, post) {
                Config { state: ParserState::PostBlock, buf: Seq::empty() }
            } else {
                Config { state: ParserState::PreBlock, buf: buf_extend(c.buf, line) }
            }
        },
        ParserState::CentralBlock => {
            if line_matches(line, post) {
                Config { state: ParserState::PostBlock, buf: Seq::empty() }
            } else {
                Config { state: ParserState::CentralBlock, buf: buf_extend(c.buf, line) }
            }
        },
        ParserState::PostBlock => Config {
            state: ParserState::PostBlock,
            buf: buf_extend(c.buf, line),
        },
        ParserState::Finished => c,
    }
}

/// The flush emitted while consuming one line, if any. A sentinel seen from
/// `PreBlock` always flushes to the pre block, even when it is the post
/// sentinel: the central block is then skipped entirely.
pub open spec fn step_flush(c: Config, pre: Seq<char>, post: Seq<char>, line: Seq<char>) -> Option<
    FlushSpec,
> {
    match c.state {
        ParserState::PreBlock => {
            if line_matches(line, pre) || line_matches(line, post) {
                Some(FlushSpec { kind: BlockKind::Pre, content: c.buf })
            } else {
                None
            }
        },
        ParserState::CentralBlock => {
            if line_matches(line, post) {
                Some(FlushSpec { kind: BlockKind::Central, content: c.buf })
            } else {
                None
            }
        },
        ParserState::PostBlock => None,
        ParserState::Finished => None,
    }
}

/// The flush emitted by finalization: whatever is buffered goes to the
/// handler of the current state; a finished machine emits nothing.
pub open spec fn finish_flush(c: Config) -> Option<FlushSpec> {
    match c.state {
        ParserState::PreBlock => Some(FlushSpec { kind: BlockKind::Pre, content: c.buf }),
        ParserState::CentralBlock => Some(FlushSpec { kind: BlockKind::Central, content: c.buf }),
        ParserState::PostBlock => Some(FlushSpec { kind: BlockKind::Post, content: c.buf }),
        ParserState::Finished => None,
    }
}

/// A fresh machine: in the pre block, with an empty buffer.
pub open spec fn start_config() -> Config {
    Config { state: ParserState::PreBlock, buf: Seq::empty() }
}

/// The configuration after consuming a whole sequence of lines, in order.
pub open spec fn run_config(c: Config, pre: Seq<char>, post: Seq<char>, lines: Seq<Seq<char>>) -> Config
    decreases lines.len(),
{
    if lines.len() == 0 {
        c
    } else {
        step_config(run_config(c, pre, post, lines.drop_last()), pre, post, lines.last())
    }
}

/// An optional flush as a sequence of zero or one flushes.
pub open spec fn opt_seq(f: Option<FlushSpec>) -> Seq<FlushSpec> {
    match f {
        Some(x) => seq![x],
        None => Seq::empty(),
    }
}

/// The flushes emitted while consuming a whole sequence of lines, in order.
pub open spec fn run_flushes(c: Config, pre: Seq<char>, post: Seq<char>, lines: Seq<Seq<char>>) -> Seq<
    FlushSpec,
>
    decreases lines.len(),
{
    if lines.len() == 0 {
        Seq::empty()
    } else {
        run_flushes(c, pre, post, lines.drop_last()) + opt_seq(
            step_flush(run_config(c, pre, post, lines.drop_last()), pre, post, lines.last()),
        )
    }
}

/// Every flush of a complete run: feed all lines to a fresh machine, then
/// finalize.
pub open spec fn flush_trace(pre: Seq<char>, post: Seq<char>, lines: Seq<Seq<char>>) -> Seq<
    FlushSpec,
> {
    run_flushes(start_config(), pre, post, lines) + opt_seq(
        finish_flush(run_config(start_config(), pre, post, lines)),
    )
}

/// The buffer after appending a whole sequence of lines to `buf`, in order.
pub open spec fn fold_lines(buf: Seq<char>, lines: Seq<Seq<char>>) -> Seq<char>
    decreases lines.len(),
{
    if lines.len() == 0 {
        buf
    } else {
        buf_extend(fold_lines(buf, lines.drop_last()), lines.last())
    }
}

/// Lines joined by a single newline separator, with no leading or trailing
/// separator.
pub open spec fn joined(lines: Seq<Seq<char>>) -> Seq<char>
    decreases lines.len(),
{
    if lines.len() == 0 {
        Seq::empty()
    } else if lines.len() == 1 {
        lines[0]
    } else {
        joined(lines.drop_last()) + seq!['\n'] + lines.last()
    }
}

/// The contents flushed to one block's handler, in order.
pub open spec fn contents_for(kind: BlockKind, flushes: Seq<FlushSpec>) -> Seq<Seq<char>> {
    flushes.filter(|f: FlushSpec| f.kind == kind).map_values(|f: FlushSpec| f.content)
}

} // verus!
