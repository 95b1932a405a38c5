//! Error conditions of the optimizer.

use vstd::prelude::*;

verus! {

/// What can go wrong while building layouts or scoring a corpus.
#[derive(Clone, Copy, Debug, PartialEq, Eq, Structural)]
pub enum OptError {
    /// A fixed layout description was not a bijection over the alphabet.
    ConfigurationError,
    /// The corpus holds a byte outside `a`..=`z` and newline.
    InvalidCharacter,
    /// The corpus has no countable keystroke or no finger travel at all,
    /// so the fitness formula would divide by zero.
    EvaluationDegenerate,
}

} // verus!
