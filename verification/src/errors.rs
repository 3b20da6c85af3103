use vstd::prelude::*;

verus! {

/// Which of the three position-constrained syllable pools failed a
/// configuration check.
#[derive(Clone, Copy, Debug, PartialEq, Eq, Structural)]
pub enum PoolKind {
    First,
    Normal,
    Last,
}

/// A fatal failure of a run.  Configuration errors are detected while the
/// configuration is validated, before any word is generated; the remaining
/// variants can only arise while a batch is produced.
#[derive(Debug, PartialEq, Eq)]
pub enum GenError {
    /// A rewrite or reject pattern does not compile as a regular expression.
    InvalidPattern(String),
    /// A syllable pool that a draw may need is empty or has total weight zero.
    EmptyPool(PoolKind),
    /// A skeleton symbol unit has no grapheme group registered under its name.
    UnknownGraphemeGroup(String),
    /// A weighted candidate set is empty or carries only zero weights.
    EmptyCandidateSet,
    /// Drop-mode ran out of its attempt budget before enough words were
    /// accepted.
    GenerationExhausted,
}

} // verus!
