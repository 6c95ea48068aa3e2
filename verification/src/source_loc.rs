//! Positions in the source text.

use vstd::prelude::*;

verus! {

/// A flat byte offset into the source text.
///
/// No line or column is kept: whoever renders a diagnostic maps the offset
/// back into the text.
#[derive(Clone, Copy, Debug, PartialEq, Eq, Structural)]
pub struct SourceLoc {
    pub pos: usize,
}

impl Default for SourceLoc {
    /// The position of the first byte of the text.
    fn default() -> (loc: SourceLoc)
        ensures
            loc.pos == 0,
    {
        SourceLoc { pos: 0 }
    }
}

} // verus!
