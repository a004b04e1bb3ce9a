//! The records the checker reads and writes: submissions, challenges, pods.

use vstd::prelude::*;

use crate::status::Status;

verus! {

/// One entry of a static challenge's flag list. An entry marked `banned` is
/// a known-leaked or decoy value: matching it always counts as cheating.
#[derive(Debug, Clone)]
pub struct Flag {
    pub value: String,
    pub banned: bool,
}

/// The verification strategy of a challenge.
#[derive(Debug, Clone)]
pub enum ChallengeKind {
    /// A fixed flag list shared by all solvers, scanned in order.
    Static { flags: Vec<Flag> },
    /// Each running instance (pod) carries its own issued flag.
    Dynamic,
}

/// A challenge, reduced to what verification needs.
#[derive(Debug, Clone)]
pub struct Challenge {
    pub id: i64,
    pub kind: ChallengeKind,
}

/// A running instance of a dynamic challenge, bound to one user or team,
/// holding an optionally issued flag and an expiry timestamp.
#[derive(Debug, Clone)]
pub struct Pod {
    pub id: i64,
    pub user_id: i64,
    pub team_id: Option<i64>,
    pub challenge_id: i64,
    pub game_id: Option<i64>,
    pub flag: Option<String>,
    pub removed_at: i64,
}

/// One flag attempt. Created `Pending`; the checker moves it exactly once
/// to a terminal status, or deletes it when its owner or challenge is gone.
#[derive(Debug, Clone)]
pub struct Submission {
    pub id: i64,
    pub user_id: i64,
    pub team_id: Option<i64>,
    pub challenge_id: i64,
    pub game_id: Option<i64>,
    pub flag: String,
    pub status: Status,
    pub created_at: i64,
}

} // verus!
