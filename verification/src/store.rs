//! The checker's view of the persisted state, and the one step that
//! resolves a single submission: orphan cleanup, the strategy verdict,
//! the dedup override, and the terminal status write.

use vstd::prelude::*;

use crate::decision;
use crate::model::{Challenge, Pod, Submission};
use crate::status::Status;

verus! {

/// What one verification attempt did.
#[derive(Clone, Copy, Debug, PartialEq, Eq, Structural)]
pub enum CheckOutcome {
    /// No pending submission with this id: a silent no-op.
    Skipped,
    /// The owning user or challenge is gone: the submission was deleted
    /// with no status ever written.
    Deleted,
    /// A terminal status was computed and written.
    Resolved(Status),
}

/// Index of the first pending submission with this id, if any.
pub open spec fn find_pending(subs: Seq<Submission>, id: i64) -> Option<int>
    decreases subs.len(),
{
    if subs.len() == 0 {
        None
    } else if subs[0].id == id && subs[0].status == Status::Pending {
        Some(0int)
    } else {
        match find_pending(subs.drop_first(), id) {
            Some(i) => Some(i + 1),
            None => None,
        }
    }
}

/// What `find_pending` returns, stated over the sequence itself.
pub proof fn lemma_find_pending(subs: Seq<Submission>, id: i64)
    ensures
        match find_pending(subs, id) {
            Some(i) => 0 <= i < subs.len() && subs[i].id == id && subs[i].status
                == Status::Pending && forall|j: int|
                0 <= j < i ==> !(subs[j].id == id && subs[j].status == Status::Pending),
            None => forall|j: int|
                0 <= j < subs.len() ==> !(#[trigger] subs[j].id == id && subs[j].status
                    == Status::Pending),
        },
    decreases subs.len(),
{
    if subs.len() > 0 && !(subs[0].id == id && subs[0].status == Status::Pending) {
        let rest = subs.drop_first();
        lemma_find_pending(rest, id);
        match find_pending(subs, id) {
            Some(i) => {
                assert(rest[i - 1] == subs[i]);
                assert forall|j: int| 0 <= j < i implies !(subs[j].id == id && subs[j].status
                    == Status::Pending) by {
                    if j > 0 {
                        assert(subs[j] == rest[j - 1]);
                        assert(!(rest[j - 1].id == id && rest[j - 1].status == Status::Pending));
                    }
                }
            },
            None => {
                assert forall|j: int| 0 <= j < subs.len() implies !(#[trigger] subs[j].id == id
                    && subs[j].status == Status::Pending) by {
                    if j > 0 {
                        assert(subs[j] == rest[j - 1]);
                        assert(!(rest[j - 1].id == id && rest[j - 1].status == Status::Pending));
                    }
                }
            },
        }
    }
}

/// Index of the first challenge with this id, if any.
pub open spec fn find_challenge(challenges: Seq<Challenge>, id: i64) -> Option<int>
    decreases challenges.len(),
{
    if challenges.len() == 0 {
        None
    } else if challenges[0].id == id {
        Some(0int)
    } else {
        match find_challenge(challenges.drop_first(), id) {
            Some(i) => Some(i + 1),
            None => None,
        }
    }
}

/// What `find_challenge` returns, stated over the sequence itself.
pub proof fn lemma_find_challenge(challenges: Seq<Challenge>, id: i64)
    ensures
        match find_challenge(challenges, id) {
            Some(i) => 0 <= i < challenges.len() && challenges[i].id == id && forall|j: int|
                0 <= j < i ==> #[trigger] challenges[j].id != id,
            None => forall|j: int| 0 <= j < challenges.len() ==> #[trigger] challenges[j].id != id,
        },
    decreases challenges.len(),
{
    if challenges.len() > 0 && challenges[0].id != id {
        let rest = challenges.drop_first();
        lemma_find_challenge(rest, id);
        match find_challenge(challenges, id) {
            Some(i) => {
                assert(rest[i - 1] == challenges[i]);
                assert forall|j: int| 0 <= j < i implies #[trigger] challenges[j].id != id by {
                    if j > 0 {
                        assert(challenges[j] == rest[j - 1]);
                        assert(rest[j - 1].id != id);
                    }
                }
            },
            None => {
                assert forall|j: int| 0 <= j < challenges.len() implies #[trigger] challenges[j].id
                    != id by {
                    if j > 0 {
                        assert(challenges[j] == rest[j - 1]);
                        assert(rest[j - 1].id != id);
                    }
                }
            },
        }
    }
}

/// The same submission with another status.
pub open spec fn with_status(s: Submission, st: Status) -> Submission {
    Submission { status: st, ..s }
}

/// The checker's snapshot of the stores it reads and writes. Challenges,
/// pods and users are read-only during verification; only submissions are
/// mutated, and only by the checker itself.
pub struct Store {
    pub submissions: Vec<Submission>,
    pub challenges: Vec<Challenge>,
    pub pods: Vec<Pod>,
    pub users: Vec<i64>,
}

/// Submission ids are unique, assigned in creation order: the row order of
/// the store is both id-sorted and creation-time-sorted.
pub open spec fn creation_ordered(subs: Seq<Submission>) -> bool {
    forall|i: int, j: int|
        0 <= i < j < subs.len() ==> #[trigger] subs[i].id < #[trigger] subs[j].id
            && subs[i].created_at <= subs[j].created_at
}

/// One verification step over the submission rows: resolve the first
/// pending submission with this id, if there is one. An absent or
/// already-terminal id changes nothing; a submission whose user or
/// challenge is gone is deleted; otherwise its status becomes the verdict.
pub open spec fn spec_check(
    subs: Seq<Submission>,
    challenges: Seq<Challenge>,
    pods: Seq<Pod>,
    users: Seq<i64>,
    id: i64,
    now: i64,
) -> Seq<Submission> {
    match find_pending(subs, id) {
        None => subs,
        Some(i) => {
            let s = subs[i];
            if !users.contains(s.user_id) {
                subs.remove(i)
            } else {
                match find_challenge(challenges, s.challenge_id) {
                    None => subs.remove(i),
                    Some(c) => subs.update(
                        i,
                        with_status(s, decision::verdict(challenges[c], pods, subs, s, now)),
                    ),
                }
            }
        },
    }
}

/// The outcome reported for the same step.
pub open spec fn spec_outcome(
    subs: Seq<Submission>,
    challenges: Seq<Challenge>,
    pods: Seq<Pod>,
    users: Seq<i64>,
    id: i64,
    now: i64,
) -> CheckOutcome {
    match find_pending(subs, id) {
        None => CheckOutcome::Skipped,
        Some(i) => {
            let s = subs[i];
            if !users.contains(s.user_id) {
                CheckOutcome::Deleted
            } else {
                match find_challenge(challenges, s.challenge_id) {
                    None => CheckOutcome::Deleted,
                    Some(c) => CheckOutcome::Resolved(
                        decision::verdict(challenges[c], pods, subs, s, now),
                    ),
                }
            }
        },
    }
}

/// Whether some user row carries this id.
fn user_exists(users: &Vec<i64>, user_id: i64) -> (r: bool)
    ensures
        r == users@.contains(user_id),
{
    let mut i: usize = 0;
    while i < users.len()
        invariant
            i <= users.len(),
            forall|j: int| 0 <= j < i ==> users@[j] != user_id,
        decreases users.len() - i,
    {
        if users[i] == user_id {
            return true;
        }
        i += 1;
    }
    false
}

/// Index of the first pending submission with this id.
fn pending_index(subs: &Vec<Submission>, id: i64) -> (r: Option<usize>)
    ensures
        match r {
            Some(i) => find_pending(subs@, id) == Some(i as int),
            None => find_pending(subs@, id) is None,
        },
{
    let mut i: usize = 0;
    while i < subs.len()
        invariant
            i <= subs.len(),
            forall|j: int|
                0 <= j < i ==> !(#[trigger] subs@[j].id == id && subs@[j].status
                    == Status::Pending),
        decreases subs.len() - i,
    {
        let s = &subs[i];
        if s.id == id && s.status == Status::Pending {
            proof {
                lemma_find_pending(subs@, id);
                match find_pending(subs@, id) {
                    Some(k) => {
                        if k < i as int {
                            assert(!(subs@[k].id == id && subs@[k].status == Status::Pending));
                        }
                        if k > i as int {
                            assert(!(subs@[i as int].id == id && subs@[i as int].status
                                == Status::Pending));
                        }
                    },
                    None => {
                        assert(!(subs@[i as int].id == id && subs@[i as int].status
                            == Status::Pending));
                    },
                }
            }
            return Some(i);
        }
        i += 1;
    }
    proof {
        lemma_find_pending(subs@, id);
    }
    None
}

/// Index of the first challenge with this id.
fn challenge_index(challenges: &Vec<Challenge>, id: i64) -> (r: Option<usize>)
    ensures
        match r {
            Some(i) => find_challenge(challenges@, id) == Some(i as int),
            None => find_challenge(challenges@, id) is None,
        },
{
    let mut i: usize = 0;
    while i < challenges.len()
        invariant
            i <= challenges.len(),
            forall|j: int| 0 <= j < i ==> #[trigger] challenges@[j].id != id,
        decreases challenges.len() - i,
    {
        if challenges[i].id == id {
            proof {
                lemma_find_challenge(challenges@, id);
                match find_challenge(challenges@, id) {
                    Some(k) => {
                        if k < i as int {
                            assert(challenges@[k].id != id);
                        }
                        if k > i as int {
                            assert(challenges@[i as int].id != id);
                        }
                    },
                    None => {
                        assert(challenges@[i as int].id != id);
                    },
                }
            }
            return Some(i);
        }
        i += 1;
    }
    proof {
        lemma_find_challenge(challenges@, id);
    }
    None
}

impl Store {
    /// A store with no rows at all.
    pub fn new() -> (s: Store)
        ensures
            s.submissions@ == Seq::<Submission>::empty(),
            s.challenges@ == Seq::<Challenge>::empty(),
            s.pods@ == Seq::<Pod>::empty(),
            s.users@ == Seq::<i64>::empty(),
    {
        Store { submissions: Vec::new(), challenges: Vec::new(), pods: Vec::new(), users: Vec::new() }
    }

    /// Verify one submission id against the snapshot taken at `now`.
    ///
    /// The submission rows move to exactly `spec_check` of the old rows:
    /// nothing happens unless a pending submission carries this id; an
    /// orphan is deleted with no status written; otherwise the verdict is
    /// written, terminally. Challenges, pods and users are untouched.
    pub fn check(&mut self, id: i64, now: i64) -> (out: CheckOutcome)
        ensures
            final(self).submissions@ == spec_check(
                old(self).submissions@,
                old(self).challenges@,
                old(self).pods@,
                old(self).users@,
                id,
                now,
            ),
            out == spec_outcome(
                old(self).submissions@,
                old(self).challenges@,
                old(self).pods@,
                old(self).users@,
                id,
                now,
            ),
            final(self).challenges == old(self).challenges,
            final(self).pods == old(self).pods,
            final(self).users == old(self).users,
    {
        let idx = match pending_index(&self.submissions, id) {
            None => {
                return CheckOutcome::Skipped;
            },
            Some(i) => i,
        };
        proof {
            lemma_find_pending(self.submissions@, id);
        }
        if !user_exists(&self.users, self.submissions[idx].user_id) {
            self.submissions.remove(idx);
            return CheckOutcome::Deleted;
        }
        let cidx = match challenge_index(&self.challenges, self.submissions[idx].challenge_id) {
            None => {
                self.submissions.remove(idx);
                return CheckOutcome::Deleted;
            },
            Some(c) => c,
        };
        proof {
            lemma_find_challenge(self.challenges@, self.submissions@[idx as int].challenge_id);
        }
        let st = decision::decide(
            &self.challenges[cidx],
            &self.pods,
            &self.submissions,
            &self.submissions[idx],
            now,
        );
        let mut resolved = self.submissions.remove(idx);
        resolved.status = st;
        self.submissions.insert(idx, resolved);
        proof {
            assert(self.submissions@ =~= old(self).submissions@.update(
                idx as int,
                with_status(old(self).submissions@[idx as int], st),
            ));
        }
        CheckOutcome::Resolved(st)
    }

    /// Verify one submission id against the clock's current time.
    ///
    /// The time enters the decision only through pod expiry; whatever
    /// instant the clock returned, the rows move as `spec_check` of it.
    pub fn check_now(&mut self, id: i64) -> (out: CheckOutcome)
        ensures
            exists|now: i64|
                final(self).submissions@ == spec_check(
                    old(self).submissions@,
                    old(self).challenges@,
                    old(self).pods@,
                    old(self).users@,
                    id,
                    now,
                ) && out == spec_outcome(
                    old(self).submissions@,
                    old(self).challenges@,
                    old(self).pods@,
                    old(self).users@,
                    id,
                    now,
                ),
            final(self).challenges == old(self).challenges,
            final(self).pods == old(self).pods,
            final(self).users == old(self).users,
    {
        let now = crate::clock::now_timestamp();
        self.check(id, now)
    }
}

} // verus!
