//! Submission-verification core of a capture-the-flag scoring platform.
//!
//! Given a flag attempt, the checker decides whether it is correct,
//! incorrect, a detected cheat, or an already-credited duplicate, and it
//! recovers unfinished work after a restart.
//!
//! The decision function lives in [`decision`], the per-submission step
//! over a store snapshot in [`store`], and the queue, worker loop and
//! recovery sweep in [`checker`]. What the whole of it guarantees is
//! stated and proved in [`laws`].

pub mod api;
pub mod categories;
pub mod checker;
pub mod clock;
pub mod decision;
pub mod laws;
pub mod model;
pub mod status;
pub mod store;
