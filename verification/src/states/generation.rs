//! The progress of world generation.
use vstd::prelude::*;

verus! {

/// How far the generation of the world has come.
#[derive(Clone, Copy, Eq, PartialEq, Debug, Hash, Structural)]
pub enum GenerationState {
    Idle,
    Initializing,
    Generating,
    Done,
}

impl Default for GenerationState {
    /// Generation has not started.
    fn default() -> (r: Self)
        ensures
            r == GenerationState::Idle,
    {
        GenerationState::Idle
    }
}

impl GenerationState {
    /// Whether the world is being built: generation has started and is not
    /// done.
    pub fn is_generating(&self) -> (r: bool)
        ensures
            r == (*self == GenerationState::Generating || *self == GenerationState::Initializing),
    {
        matches!(self, Self::Generating | Self::Initializing)
    }

    /// Whether the world is built.
    pub fn is_done(&self) -> (r: bool)
        ensures
            r == (*self == GenerationState::Done),
    {
        matches!(self, Self::Done)
    }
}

} // verus!
