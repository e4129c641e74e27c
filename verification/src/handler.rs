//! Block handlers: the capability of accepting a flushed block, a verified
//! capturing handler, and the banner formatting of the printing handler.

use vstd::prelude::*;
use vstd::string::StringExecFns;

verus! {

/// Why a handler refused a block.
#[derive(Debug)]
pub struct HandlerError {
    pub message: String,
}

/// A consumer of flushed blocks. `handled` is the abstract record of the
/// contents accepted so far, oldest first; `handle` either accepts the block
/// and records it, or refuses it and leaves the record as it was.
pub trait BlockHandler: Sized {
    spec fn handled(&self) -> Seq<Seq<char>>;

    fn handle(&mut self, content: &str) -> (r: Result<(), HandlerError>)
        ensures
            r is Ok ==> final(self).handled() == old(self).handled().push(content@),
            r is Err ==> final(self).handled() == old(self).handled(),
    ;
}

/// A handler that records every block it is given, in order, and never
/// fails.
pub struct CaptureHandler {
    captured: Vec<String>,
}

impl CaptureHandler {
    pub fn new() -> (r: Self)
        ensures
            r.handled() == Seq::<Seq<char>>::empty(),
    {
        let r = CaptureHandler { captured: Vec::new() };
        proof {
            assert(r.handled() =~= Seq::<Seq<char>>::empty());
        }
        r
    }

    /// The recorded blocks, oldest first.
    pub fn captured(&self) -> (r: &Vec<String>)
        ensures
            r@.map_values(|s: String| s@) == self.handled(),
    {
        &self.captured
    }
}

impl BlockHandler for CaptureHandler {
    closed spec fn handled(&self) -> Seq<Seq<char>> {
        self.captured@.map_values(|s: String| s@)
    }

    fn handle(&mut self, content: &str) -> (r: Result<(), HandlerError>)
        ensures
            r is Ok,
    {
        self.captured.push(content.to_owned());
        proof {
            assert(self.handled() =~= old(self).handled().push(content@));
        }
        Ok(())
    }
}

/// The text the printing handler emits for one block: nothing at all for an
/// empty block, otherwise an opening banner, the raw content, and a closing
/// banner — the closing banner carries two spaces on each side of its
/// `End: {label}` part, an exact-format detail.
pub open spec fn banner_output(label: Seq<char>, content: Seq<char>) -> Seq<char> {
    if content.len() == 0 {
        Seq::empty()
    } else {
        "=== Start: "@ + label + " ===\n"@ + content + "\n===  End: "@ + label + "  ===\n"@
    }
}

/// Prepares the banner text for a labelled block; printing it is the
/// caller's business.
pub struct PrintHandler {
    label: String,
}

impl PrintHandler {
    pub closed spec fn spec_label(self) -> Seq<char> {
        self.label@
    }

    pub fn new(label: &str) -> (r: Self)
        ensures
            r.spec_label() == label@,
    {
        PrintHandler { label: label.to_owned() }
    }

    /// The exact text to emit for `content`: an empty block produces no
    /// output and still succeeds as a no-op.
    pub fn render(&self, content: &str) -> (r: String)
        ensures
            r@ == banner_output(self.spec_label(), content@),
    {
        if content.is_empty() {
            String::new()
        } else {
            let mut out = String::new();
            out.append("=== Start: ");
            out.append(self.label.as_str());
            out.append(" ===\n");
            out.append(content);
            out.append("\n===  End: ");
            out.append(self.label.as_str());
            out.append("  ===\n");
            proof {
                assert(out@ =~= banner_output(self.spec_label(), content@));
            }
            out
        }
    }
}

} // verus!
