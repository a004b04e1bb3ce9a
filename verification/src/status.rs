//! The status state machine of a submission.

use vstd::prelude::*;

verus! {

/// Lifecycle state of one flag attempt. A submission starts `Pending` and is
/// moved exactly once by the checker to one of the four terminal states.
#[derive(Clone, Copy, Debug, PartialEq, Eq, Structural)]
pub enum Status {
    /// Created, not yet verified.
    Pending,
    /// The flag was right and the solver had not been credited before.
    Correct,
    /// The flag matched nothing.
    Incorrect,
    /// The flag belongs to someone else's pod or is a known banned value.
    Cheat,
    /// The flag would have been correct, but the user or team was already
    /// credited for this challenge.
    Invalid,
}

impl Status {
    /// A terminal status is any status other than `Pending`; once a
    /// submission carries one, the checker never touches it again.
    pub open spec fn is_terminal(self) -> bool {
        self != Status::Pending
    }
}

} // verus!
