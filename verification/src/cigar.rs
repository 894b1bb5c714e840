//! Alignments written as runs of edit operations.

use vstd::prelude::*;

verus! {

/// One kind of step in an alignment.
#[derive(Clone, Copy, Debug, PartialEq, Eq, Structural)]
pub enum CigarOp {
    /// Both sequences hold the same character.
    Match,
    /// The sequences hold different characters.
    Sub,
    /// A character of the first sequence has none in the second.
    Del,
    /// A character of the second sequence has none in the first.
    Ins,
}

/// A run of steps of one kind.
#[derive(Clone, Copy, Debug, PartialEq, Eq, Structural)]
pub struct CigarElem {
    pub op: CigarOp,
    pub cnt: i32,
}

/// An alignment: runs of steps from the start of both sequences to their
/// end.
#[derive(Clone, Debug)]
pub struct Cigar {
    pub ops: Vec<CigarElem>,
}

impl View for Cigar {
    type V = Seq<CigarElem>;

    open spec fn view(&self) -> Seq<CigarElem> {
        self.ops@
    }
}

} // verus!
