//! Game status classification as reported by the game server.

use vstd::prelude::*;

verus! {

/// The lifecycle status of a game record. Only finished games whose outcome
/// is meaningful are folded into the index.
#[derive(Copy, Clone, Debug, PartialEq, Eq, Structural)]
pub enum Status {
    Created,
    Started,
    Aborted,
    Mate,
    Resign,
    Stalemate,
    Timeout,
    Draw,
    OutOfTime,
    Cheat,
    NoStart,
    UnknownFinish,
    VariantEnd,
}

impl Status {
    /// The game is still in progress: it is excluded from indexing until it
    /// finishes.
    pub fn is_ongoing(self) -> (r: bool)
        ensures
            r == (self is Created || self is Started),
    {
        matches!(self, Status::Created | Status::Started)
    }

    /// The game ended without a meaningfully indexable outcome: it is
    /// excluded from indexing permanently.
    pub fn is_unindexable(self) -> (r: bool)
        ensures
            r == (self is UnknownFinish || self is NoStart || self is Aborted),
    {
        matches!(self, Status::UnknownFinish | Status::NoStart | Status::Aborted)
    }
}

} // verus!
