//! The faults that stop a search before it starts.

use vstd::prelude::*;

verus! {

/// Why a pattern or a search configuration was refused.
#[derive(Clone, Copy, Debug, PartialEq, Eq, Structural)]
pub enum ValidationError {
    /// Neither a prefix nor a suffix was given.
    NoPatternSpecified,
    /// A prefix or suffix was given and holds no character.
    EmptyPattern,
    /// A prefix or suffix holds this character, which is not in the alphabet.
    IllegalCharacter(char),
    /// The number of results asked for is zero.
    InvalidTargetCount,
}

} // verus!
